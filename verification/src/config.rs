use vstd::prelude::*;
use vstd::string::StrSliceExecFns;
use crate::selection::copy_char_range;

verus! {

/// A configuration file (or a value in it) that cannot be parsed.
#[derive(PartialEq, Eq, Structural, Debug, Clone, Copy)]
pub struct ConfigParseError;

/// An RGBA color as four channel values, as a config file spells it.
#[derive(PartialEq, Eq, Structural, Debug, Clone, Copy)]
pub struct Rgba {
    pub r: u8,
    pub g: u8,
    pub b: u8,
    pub a: u8,
}

/// The recognized options of a config file, each the raw text of the
/// option's last occurrence.
#[derive(Debug)]
pub struct Config {
    pub bg_col: Option<Vec<char>>,
    pub font_col: Option<Vec<char>>,
    pub font_size: Option<Vec<char>>,
    pub font: Option<Vec<char>>,
    pub cursor_col: Option<Vec<char>>,
    pub cursor_line: Option<Vec<char>>,
    pub tab_width: Option<Vec<char>>,
    pub select_col: Option<Vec<char>>,
    pub eof_indicator: Option<Vec<char>>,
}

impl Default for Config {
    /// No option set.
    fn default() -> (r: Config)
        ensures
            r.bg_col is None && r.font_col is None && r.font_size is None && r.font is None
                && r.cursor_col is None && r.cursor_line is None && r.tab_width is None
                && r.select_col is None && r.eof_indicator is None,
    {
        Config {
            bg_col: None,
            font_col: None,
            font_size: None,
            font: None,
            cursor_col: None,
            cursor_line: None,
            tab_width: None,
            select_col: None,
            eof_indicator: None,
        }
    }
}

/// Blank space as the config parser strips it: ASCII whitespace other
/// than the line terminator, which never occurs inside a line.
pub open spec fn is_space(c: char) -> bool {
    let u = c as u32;
    u == 32 || u == 9 || u == 13 || u == 11 || u == 12
}

/// `s` with leading blank space removed.
pub open spec fn trim_front(s: Seq<char>) -> Seq<char>
    decreases s.len(),
{
    if s.len() > 0 && is_space(s.first()) {
        trim_front(s.drop_first())
    } else {
        s
    }
}

/// `s` with trailing blank space removed.
pub open spec fn trim_back(s: Seq<char>) -> Seq<char>
    decreases s.len(),
{
    if s.len() > 0 && is_space(s.last()) {
        trim_back(s.drop_last())
    } else {
        s
    }
}

/// `s` with blank space removed on both ends.
pub open spec fn trimmed(s: Seq<char>) -> Seq<char> {
    trim_back(trim_front(s))
}

/// The line up to its first semicolon: everything after one is a comment.
pub open spec fn strip_comment(l: Seq<char>) -> Seq<char>
    decreases l.len(),
{
    if l.len() == 0 {
        Seq::empty()
    } else if l.first() == ';' {
        Seq::empty()
    } else {
        seq![l.first()] + strip_comment(l.drop_first())
    }
}

/// The line split at its first equals sign into key and value; `None`
/// when the line has no equals sign.
pub open spec fn split_kv(l: Seq<char>) -> Option<(Seq<char>, Seq<char>)>
    decreases l.len(),
{
    if l.len() == 0 {
        None
    } else if l.first() == '=' {
        Some((Seq::empty(), l.drop_first()))
    } else {
        match split_kv(l.drop_first()) {
            Some(kv) => Some((seq![l.first()] + kv.0, kv.1)),
            None => None,
        }
    }
}

/// A line the parser must reject: after comment stripping it still holds
/// text but no equals sign.
pub open spec fn line_malformed(l: Seq<char>) -> bool {
    trimmed(strip_comment(l)).len() > 0 && split_kv(strip_comment(l)) is None
}

/// The trimmed value of the last line whose trimmed key is `name`.
pub open spec fn lookup_key(lines: Seq<Seq<char>>, name: Seq<char>) -> Option<Seq<char>>
    decreases lines.len(),
{
    if lines.len() == 0 {
        None
    } else {
        let rest = lookup_key(lines.drop_last(), name);
        match split_kv(strip_comment(lines.last())) {
            Some(kv) => if trimmed(kv.0) == name {
                Some(trimmed(kv.1))
            } else {
                rest
            },
            None => rest,
        }
    }
}

/// An option field holds exactly the looked-up raw text.
pub open spec fn field_is(f: Option<Vec<char>>, v: Option<Seq<char>>) -> bool {
    match f {
        Some(t) => v is Some && t@ == v->0,
        None => v is None,
    }
}

/// Copy `v[lo..hi]` with blank space stripped from both ends.
fn trimmed_copy(v: &Vec<char>, lo: usize, hi: usize) -> (r: Vec<char>)
    requires
        lo <= hi <= v@.len(),
    ensures
        r@ == trimmed(v@.subrange(lo as int, hi as int)),
{
    let ghost orig = v@.subrange(lo as int, hi as int);
    let mut a: usize = lo;
    let mut b: usize = hi;
    while a < b
        invariant_except_break
            lo <= a <= b <= hi <= v@.len(),
            trim_front(orig) == trim_front(v@.subrange(a as int, b as int)),
            b == hi,
        ensures
            lo <= a <= b <= hi <= v@.len(),
            trim_front(orig) == v@.subrange(a as int, b as int),
        decreases b - a,
    {
        let c = v[a];
        let u = c as u32;
        if u == 32 || u == 9 || u == 13 || u == 11 || u == 12 {
            proof {
                assert(v@.subrange(a as int, b as int).drop_first() =~= v@.subrange(
                    a + 1,
                    b as int,
                ));
            }
            a = a + 1;
        } else {
            break ;
        }
    }
    proof {
        if a == b {
            assert(trim_front(v@.subrange(a as int, b as int)) =~= v@.subrange(a as int, b as int));
        }
    }
    while b > a
        invariant_except_break
            lo <= a <= b <= hi <= v@.len(),
            trimmed(orig) == trim_back(v@.subrange(a as int, b as int)),
        ensures
            lo <= a <= b <= hi <= v@.len(),
            trimmed(orig) == v@.subrange(a as int, b as int),
        decreases b,
    {
        let c = v[b - 1];
        let u = c as u32;
        if u == 32 || u == 9 || u == 13 || u == 11 || u == 12 {
            proof {
                assert(v@.subrange(a as int, b as int).drop_last() =~= v@.subrange(
                    a as int,
                    b - 1,
                ));
            }
            b = b - 1;
        } else {
            break ;
        }
    }
    proof {
        if a == b {
            assert(trim_back(v@.subrange(a as int, b as int)) =~= v@.subrange(a as int, b as int));
        }
    }
    copy_char_range(v, a, b)
}

/// Whether the characters of `k` spell exactly the text of `name`.
fn chars_eq_str(k: &Vec<char>, name: &str) -> (r: bool)
    ensures
        r == (k@ == name@),
{
    let n = name.unicode_len();
    if k.len() != n {
        proof {
            assert(k@.len() != name@.len());
        }
        return false;
    }
    let mut i: usize = 0;
    while i < n
        invariant
            i <= n,
            n == name@.len(),
            k@.len() == n,
            forall|t: int| 0 <= t < i ==> k@[t] == name@[t],
        decreases n - i,
    {
        if k[i] != name.get_char(i) {
            return false;
        }
        i = i + 1;
    }
    proof {
        assert(k@ =~= name@);
    }
    true
}

/// Strip the comment from one line and split it at its first equals
/// sign; `None` when no equals sign is left.
fn split_line_kv(line: &Vec<char>) -> (r: Option<(Vec<char>, Vec<char>)>)
    ensures
        match r {
            Some(kv) => split_kv(strip_comment(line@)) matches Some(skv) && kv.0@ == trimmed(skv.0)
                && kv.1@ == trimmed(skv.1),
            None => split_kv(strip_comment(line@)) is None,
        },
{
    let ghost l = line@;
    let mut body_end: usize = line.len();
    let mut eq: usize = 0;
    let mut found_eq = false;
    let mut i: usize = 0;
    proof {
        assert(l.skip(0) =~= l);
        assert(l.take(0) + strip_comment(l) =~= strip_comment(l));
    }
    while i < line.len()
        invariant_except_break
            i <= l.len(),
            l == line@,
            !found_eq,
            body_end == l.len(),
            strip_comment(l) == l.take(i as int) + strip_comment(l.skip(i as int)),
            split_kv(l.take(i as int)) is None,
            forall|t: int| 0 <= t < i ==> l[t] != ';',
        ensures
            l == line@,
            i <= l.len(),
            forall|t: int| 0 <= t < i ==> l[t] != ';',
            strip_comment(l) == l.take(i as int) + strip_comment(l.skip(i as int)),
            split_kv(l.take(i as int)) is None,
            !found_eq ==> i == l.len() || l[i as int] == ';',
            found_eq ==> i < l.len() && l[i as int] == '=' && eq == i,
        decreases l.len() - i,
    {
        let c = line[i];
        if c == ';' {
            break ;
        }
        if c == '=' {
            eq = i;
            found_eq = true;
            break ;
        }
        proof {
            lemma_strip_step(l, i as int);
            lemma_split_kv_step(l, i as int);
        }
        i = i + 1;
    }
    if !found_eq {
        proof {
            if i >= l.len() {
                assert(l.skip(i as int) =~= Seq::<char>::empty());
            } else {
                assert(l.skip(i as int).first() == ';');
            }
            assert(strip_comment(l.skip(i as int)) =~= Seq::<char>::empty());
            assert(l.take(i as int) + Seq::<char>::empty() =~= l.take(i as int));
        }
        return None;
    }
    let mut j: usize = eq + 1;
    proof {
        lemma_split_kv_found(l, eq as int);
        lemma_strip_step(l, eq as int);
    }
    while j < line.len()
        invariant_except_break
            eq < j <= l.len(),
            l == line@,
            strip_comment(l) == l.take(j as int) + strip_comment(l.skip(j as int)),
            forall|t: int| 0 <= t < j ==> l[t] != ';',
        ensures
            eq < j <= l.len(),
            l == line@,
            strip_comment(l) == l.take(j as int) + strip_comment(l.skip(j as int)),
            j == l.len() || l[j as int] == ';',
        decreases l.len() - j,
    {
        let c = line[j];
        if c == ';' {
            break ;
        }
        proof {
            lemma_strip_step(l, j as int);
        }
        j = j + 1;
    }
    proof {
        if j >= l.len() {
            assert(l.skip(j as int) =~= Seq::<char>::empty());
        } else {
            assert(l.skip(j as int).first() == ';');
        }
        assert(strip_comment(l.skip(j as int)) =~= Seq::<char>::empty());
        assert(l.take(j as int) + Seq::<char>::empty() =~= l.take(j as int));
        lemma_split_kv_of_concat(l, eq as int, j as int);
    }
    let k = trimmed_copy(line, 0, eq);
    let v = trimmed_copy(line, eq + 1, j);
    proof {
        assert(l.subrange(0, eq as int) =~= l.take(eq as int));
        assert(l.subrange(eq + 1, j as int) =~= l.take(j as int).skip(eq + 1));
    }
    Some((k, v))
}

proof fn lemma_strip_step(l: Seq<char>, i: int)
    requires
        0 <= i < l.len(),
        l[i] != ';',
    ensures
        l.take(i) + strip_comment(l.skip(i)) == l.take(i + 1) + strip_comment(l.skip(i + 1)),
{
    assert(l.skip(i).len() > 0);
    assert(l.skip(i).first() == l[i]);
    assert(l.skip(i).drop_first() =~= l.skip(i + 1));
    assert(l.take(i) + (seq![l[i]] + strip_comment(l.skip(i + 1))) =~= l.take(i + 1)
        + strip_comment(l.skip(i + 1)));
}

proof fn lemma_split_kv_step(l: Seq<char>, i: int)
    requires
        0 <= i < l.len(),
        l[i] != '=',
        split_kv(l.take(i)) is None,
    ensures
        split_kv(l.take(i + 1)) is None,
    decreases i,
{
    if i == 0 {
        assert(l.take(1).len() == 1);
        assert(l.take(1).first() == l[0]);
        assert(l.take(1).drop_first() =~= Seq::<char>::empty());
    } else {
        assert(l.take(i + 1).first() == l[0]);
        assert(l.take(i).first() == l[0]);
        if l[0] == '=' {
            assert(split_kv(l.take(i)) is Some);
        } else {
            assert(l.take(i + 1).drop_first() =~= l.skip(1).take(i));
            assert(l.take(i).drop_first() =~= l.skip(1).take(i - 1));
            assert(l.skip(1)[i - 1] == l[i]);
            lemma_split_kv_step(l.skip(1), i - 1);
        }
    }
}

/// Splitting a text whose first equals sign stands at `i`: the key is
/// the prefix, the value all that follows.
proof fn lemma_split_kv_found(l: Seq<char>, i: int)
    requires
        0 <= i < l.len(),
        l[i] == '=',
        split_kv(l.take(i)) is None,
    ensures
        forall|m: int|
            i < m <= l.len() ==> (#[trigger] split_kv(l.take(m)) matches Some(kv) && kv.0 == l.take(
                i,
            ) && kv.1 == l.take(m).skip(i + 1)),
    decreases i,
{
    assert forall|m: int| i < m <= l.len() implies (#[trigger] split_kv(l.take(m)) matches Some(kv)
        && kv.0 == l.take(i) && kv.1 == l.take(m).skip(i + 1)) by {
        lemma_split_kv_found_one(l, i, m);
    }
}

proof fn lemma_split_kv_found_one(l: Seq<char>, i: int, m: int)
    requires
        0 <= i < l.len(),
        l[i] == '=',
        split_kv(l.take(i)) is None,
        i < m <= l.len(),
    ensures
        split_kv(l.take(m)) matches Some(kv) && kv.0 == l.take(i) && kv.1 == l.take(m).skip(i + 1),
    decreases i,
{
    let t = l.take(m);
    assert(t.first() == l[0]);
    if i == 0 {
        assert(split_kv(t) == Some((Seq::<char>::empty(), t.drop_first())));
        assert(t.drop_first() =~= t.skip(1));
        assert(l.take(0) =~= Seq::<char>::empty());
    } else {
        if l[0] == '=' {
            assert(l.take(i).first() == l[0]);
            assert(split_kv(l.take(i)) is Some);
        } else {
            assert(l.take(i).first() == l[0]);
            assert(l.take(i).drop_first() =~= l.skip(1).take(i - 1));
            assert(l.skip(1)[i - 1] == l[i]);
            lemma_split_kv_found_one(l.skip(1), i - 1, m - 1);
            assert(t.drop_first() =~= l.skip(1).take(m - 1));
            let kv1 = split_kv(l.skip(1).take(m - 1))->0;
            assert(seq![l[0]] + kv1.0 =~= l.take(i)) by {
                assert(kv1.0 == l.skip(1).take(i - 1));
            }
            assert(kv1.1 == l.skip(1).take(m - 1).skip(i));
            assert(l.skip(1).take(m - 1).skip(i) =~= l.take(m).skip(i + 1));
        }
    }
}

/// The split of a stripped line whose key part carries no equals sign:
/// key and value are the parts around the sign.
proof fn lemma_split_kv_of_concat(l: Seq<char>, eq: int, j: int)
    requires
        0 <= eq < j <= l.len(),
        l[eq] == '=',
        split_kv(l.take(eq)) is None,
        strip_comment(l) == l.take(j),
    ensures
        split_kv(strip_comment(l)) matches Some(kv) && kv.0 == l.take(eq) && kv.1 == l.take(
            j,
        ).skip(eq + 1),
{
    lemma_split_kv_found(l, eq);
    assert(split_kv(l.take(j)) matches Some(kv) && kv.0 == l.take(eq) && kv.1 == l.take(j).skip(
        eq + 1,
    ));
}

/// Parse the recognized options out of the config file's lines. Each
/// field takes the trimmed value of the option's last occurrence, with
/// comments after a semicolon ignored; a non-comment line without an
/// equals sign makes the whole file invalid.
pub fn parse_config(lines: &Vec<Vec<char>>) -> (r: Result<Config, ConfigParseError>)
    ensures
        match r {
            Ok(c) => {
                let ls = lines@.map_values(|v: Vec<char>| v@);
                &&& (forall|i: int| 0 <= i < ls.len() ==> !line_malformed(#[trigger] ls[i]))
                &&& field_is(c.font, lookup_key(ls, "font"@))
                &&& field_is(c.font_col, lookup_key(ls, "font_col"@))
                &&& field_is(c.font_size, lookup_key(ls, "font_size"@))
                &&& field_is(c.bg_col, lookup_key(ls, "bg_col"@))
                &&& field_is(c.cursor_col, lookup_key(ls, "cursor_col"@))
                &&& field_is(c.cursor_line, lookup_key(ls, "cursor_line"@))
                &&& field_is(c.tab_width, lookup_key(ls, "tab_width"@))
                &&& field_is(c.select_col, lookup_key(ls, "select_col"@))
                &&& field_is(c.eof_indicator, lookup_key(ls, "eof_indicator"@))
            },
            Err(_) => exists|i: int|
                0 <= i < lines@.len() && #[trigger] line_malformed(lines@[i]@),
        },
{
    let ghost ls = lines@.map_values(|v: Vec<char>| v@);
    let mut config = Config::default();
    let mut i: usize = 0;
    while i < lines.len()
        invariant
            i <= ls.len(),
            ls == lines@.map_values(|v: Vec<char>| v@),
            forall|t: int| 0 <= t < i ==> !line_malformed(#[trigger] ls[t]),
            field_is(config.font, lookup_key(ls.take(i as int), "font"@)),
            field_is(config.font_col, lookup_key(ls.take(i as int), "font_col"@)),
            field_is(config.font_size, lookup_key(ls.take(i as int), "font_size"@)),
            field_is(config.bg_col, lookup_key(ls.take(i as int), "bg_col"@)),
            field_is(config.cursor_col, lookup_key(ls.take(i as int), "cursor_col"@)),
            field_is(config.cursor_line, lookup_key(ls.take(i as int), "cursor_line"@)),
            field_is(config.tab_width, lookup_key(ls.take(i as int), "tab_width"@)),
            field_is(config.select_col, lookup_key(ls.take(i as int), "select_col"@)),
            field_is(config.eof_indicator, lookup_key(ls.take(i as int), "eof_indicator"@)),
        decreases ls.len() - i,
    {
        let line = &lines[i];
        proof {
            assert(ls[i as int] == line@);
            assert(ls.take(i + 1).drop_last() =~= ls.take(i as int));
            assert(ls.take(i + 1).last() == ls[i as int]);
        }
        match split_line_kv(line) {
            Some(kv) => {
                let (k, v) = kv;
                if chars_eq_str(&k, "font") {
                    config.font = Some(copy_char_range(&v, 0, v.len()));
                }
                if chars_eq_str(&k, "font_col") {
                    config.font_col = Some(copy_char_range(&v, 0, v.len()));
                }
                if chars_eq_str(&k, "font_size") {
                    config.font_size = Some(copy_char_range(&v, 0, v.len()));
                }
                if chars_eq_str(&k, "bg_col") {
                    config.bg_col = Some(copy_char_range(&v, 0, v.len()));
                }
                if chars_eq_str(&k, "cursor_col") {
                    config.cursor_col = Some(copy_char_range(&v, 0, v.len()));
                }
                if chars_eq_str(&k, "cursor_line") {
                    config.cursor_line = Some(copy_char_range(&v, 0, v.len()));
                }
                if chars_eq_str(&k, "tab_width") {
                    config.tab_width = Some(copy_char_range(&v, 0, v.len()));
                }
                if chars_eq_str(&k, "select_col") {
                    config.select_col = Some(copy_char_range(&v, 0, v.len()));
                }
                if chars_eq_str(&k, "eof_indicator") {
                    config.eof_indicator = Some(copy_char_range(&v, 0, v.len()));
                }
                proof {
                    assert(v@.subrange(0, v@.len() as int) =~= v@);
                }
            },
            None => {
                let has_text = trimmed_body_len(line);
                if has_text {
                    proof {
                        assert(line_malformed(ls[i as int]));
                    }
                    return Err(ConfigParseError);
                }
            },
        }
        i = i + 1;
    }
    proof {
        assert(ls.take(ls.len() as int) =~= ls);
    }
    Ok(config)
}

/// Whether any text is left on the line once its comment and blank
/// space are stripped.
fn trimmed_body_len(line: &Vec<char>) -> (r: bool)
    ensures
        r == (trimmed(strip_comment(line@)).len() > 0),
{
    let ghost l = line@;
    let mut j: usize = 0;
    proof {
        assert(strip_comment(l) == l.take(0) + strip_comment(l.skip(0))) by {
            assert(l.skip(0) =~= l);
            assert(l.take(0) + strip_comment(l) =~= strip_comment(l));
        }
    }
    while j < line.len()
        invariant_except_break
            j <= l.len(),
            l == line@,
            strip_comment(l) == l.take(j as int) + strip_comment(l.skip(j as int)),
            forall|t: int| 0 <= t < j ==> l[t] != ';' && is_space(l[t]),
        ensures
            j <= l.len(),
            l == line@,
            forall|t: int| 0 <= t < j ==> l[t] != ';' && is_space(l[t]),
            strip_comment(l) == l.take(j as int) + strip_comment(l.skip(j as int)),
            j < l.len() && l[j as int] != ';' ==> !is_space(l[j as int]),
        decreases l.len() - j,
    {
        let c = line[j];
        if c == ';' {
            break ;
        }
        let u = c as u32;
        if !(u == 32 || u == 9 || u == 13 || u == 11 || u == 12) {
            break ;
        }
        proof {
            lemma_strip_step(l, j as int);
        }
        j = j + 1;
    }
    proof {
        if j < line.len() && l[j as int] != ';' {
            lemma_strip_step(l, j as int);
            lemma_trim_front_spaces(strip_comment(l), j as int);
        } else {
            if j >= line.len() {
                assert(l.skip(j as int) =~= Seq::<char>::empty());
            } else {
                assert(l.skip(j as int).first() == ';');
            }
            assert(strip_comment(l.skip(j as int)) =~= Seq::<char>::empty());
            assert(l.take(j as int) + Seq::<char>::empty() =~= l.take(j as int));
            lemma_trim_all_spaces(l.take(j as int));
        }
    }
    j < line.len() && line[j] != ';'
}

/// A text of blank space trims to nothing.
proof fn lemma_trim_all_spaces(s: Seq<char>)
    requires
        forall|t: int| 0 <= t < s.len() ==> is_space(#[trigger] s[t]),
    ensures
        trimmed(s).len() == 0,
    decreases s.len(),
{
    if s.len() > 0 {
        assert(is_space(s.first()));
        assert(forall|t: int|
            0 <= t < s.drop_first().len() ==> is_space(#[trigger] s.drop_first()[t]));
        lemma_trim_all_spaces(s.drop_first());
    }
}

/// A text whose first `j` characters are blank but whose next character
/// is not trims to something non-empty.
proof fn lemma_trim_front_spaces(s: Seq<char>, j: int)
    requires
        0 <= j < s.len(),
        forall|t: int| 0 <= t < j ==> is_space(#[trigger] s[t]),
        !is_space(s[j]),
    ensures
        trimmed(s).len() > 0,
    decreases j,
{
    if j == 0 {
        assert(trim_front(s) == s);
        lemma_trim_back_keeps_head(s);
    } else {
        assert(is_space(s.first()));
        assert(trim_front(s) == trim_front(s.drop_first()));
        assert(s.drop_first()[j - 1] == s[j]);
        assert(forall|t: int| 0 <= t < j - 1 ==> is_space(#[trigger] s.drop_first()[t]));
        lemma_trim_front_spaces(s.drop_first(), j - 1);
    }
}

/// Trimming the back never empties a text whose first character is not
/// blank.
proof fn lemma_trim_back_keeps_head(s: Seq<char>)
    requires
        s.len() > 0,
        !is_space(s.first()),
    ensures
        trim_back(s).len() > 0,
        trim_back(s).first() == s.first(),
    decreases s.len(),
{
    if is_space(s.last()) {
        assert(s.drop_last().len() > 0) by {
            if s.len() == 1 {
                assert(s.first() == s.last());
            }
        }
        assert(s.drop_last().first() == s.first());
        lemma_trim_back_keeps_head(s.drop_last());
    }
}

/// Parse a color of the form `r, g, b, a`: exactly four comma-separated
/// decimal channel values, each between 0 and 255. Anything else is
/// rejected, never coerced.
pub fn color_ascii_to_4u8(s: &Vec<char>) -> (r: Result<Rgba, ConfigParseError>)
    ensures
        r is Ok ==> color_parts_ok(s@, r->Ok_0),
        r is Err ==> !exists|c: Rgba| color_parts_ok(s@, c),
{
    let parts = split_commas(s);
    if parts.len() != 4 {
        return Err(ConfigParseError);
    }
    let r0 = parse_channel(&parts[0]);
    let r1 = parse_channel(&parts[1]);
    let r2 = parse_channel(&parts[2]);
    let r3 = parse_channel(&parts[3]);
    match (r0, r1, r2, r3) {
        (Some(r), Some(g), Some(b), Some(a)) => Ok(Rgba { r, g, b, a }),
        _ => Err(ConfigParseError),
    }
}

/// The color's channels are the trimmed decimal values of the four
/// comma-separated parts of the text.
pub open spec fn color_parts_ok(s: Seq<char>, c: Rgba) -> bool {
    let parts = split_at_commas(s);
    &&& parts.len() == 4
    &&& channel_ok(parts[0], c.r)
    &&& channel_ok(parts[1], c.g)
    &&& channel_ok(parts[2], c.b)
    &&& channel_ok(parts[3], c.a)
}

/// The trimmed part spells the channel value in decimal.
pub open spec fn channel_ok(part: Seq<char>, v: u8) -> bool {
    let d = trimmed(part);
    d.len() >= 1 && crate::editor::all_digits(d) && crate::editor::digits_val(d) == v
}

/// The comma-separated parts of `s`, in order; one part more than there
/// are commas.
pub open spec fn split_at_commas(s: Seq<char>) -> Seq<Seq<char>>
    decreases s.len(),
{
    if s.len() == 0 {
        seq![Seq::<char>::empty()]
    } else {
        let rest = split_at_commas(s.drop_last());
        if s.last() == ',' {
            rest.push(Seq::empty())
        } else {
            rest.update(rest.len() - 1, rest.last().push(s.last()))
        }
    }
}

fn split_commas(s: &Vec<char>) -> (r: Vec<Vec<char>>)
    ensures
        r@.map_values(|v: Vec<char>| v@) == split_at_commas(s@),
{
    let mut r: Vec<Vec<char>> = Vec::new();
    r.push(Vec::new());
    let mut i: usize = 0;
    proof {
        assert(r@.map_values(|v: Vec<char>| v@) =~= split_at_commas(s@.take(0)));
    }
    while i < s.len()
        invariant
            i <= s@.len(),
            r@.len() >= 1,
            r@.map_values(|v: Vec<char>| v@) == split_at_commas(s@.take(i as int)),
        decreases s@.len() - i,
    {
        let c = s[i];
        let ghost r0 = r@.map_values(|v: Vec<char>| v@);
        proof {
            assert(s@.take(i + 1).drop_last() =~= s@.take(i as int));
            assert(s@.take(i + 1).last() == s@[i as int]);
        }
        if c == ',' {
            r.push(Vec::new());
            proof {
                assert(r@.map_values(|v: Vec<char>| v@) =~= r0.push(Seq::<char>::empty()));
            }
        } else {
            let ghost old_last = r@[r@.len() - 1]@;
            let mut lastv = r.pop().unwrap();
            lastv.push(c);
            r.push(lastv);
            proof {
                assert(r@.map_values(|v: Vec<char>| v@) =~= r0.update(
                    r0.len() - 1,
                    old_last.push(s@[i as int]),
                ));
            }
        }
        i = i + 1;
    }
    proof {
        assert(s@.take(s@.len() as int) =~= s@);
    }
    r
}

/// The trimmed decimal value of one channel, when it is a digit string
/// no larger than 255.
fn parse_channel(part: &Vec<char>) -> (r: Option<u8>)
    ensures
        match r {
            Some(v) => channel_ok(part@, v),
            None => !exists|v: u8| channel_ok(part@, v),
        },
{
    let d = trimmed_copy(part, 0, part.len());
    proof {
        assert(part@.subrange(0, part@.len() as int) =~= part@);
    }
    if d.len() == 0 {
        return None;
    }
    let mut v: u32 = 0;
    let mut i: usize = 0;
    proof {
        assert(d@.take(0) =~= Seq::<char>::empty());
    }
    while i < d.len()
        invariant
            i <= d@.len(),
            d@ == trimmed(part@),
            d@.len() >= 1,
            crate::editor::all_digits(d@.take(i as int)),
            v == crate::editor::digits_val(d@.take(i as int)),
            v <= 255,
        decreases d@.len() - i,
    {
        let c = d[i];
        let u = c as u32;
        proof {
            assert(d@.take(i + 1).drop_last() =~= d@.take(i as int));
            assert(d@.take(i + 1).last() == d@[i as int]);
        }
        if !(48 <= u && u <= 57) {
            proof {
                lemma_not_all_digits(d@, i as int);
            }
            return None;
        }
        let next = v * 10 + (u - 48);
        if next > 255 {
            proof {
                assert forall|t: int| 0 <= t < i + 1 implies crate::editor::is_digit(
                    #[trigger] d@.take(i + 1)[t],
                ) by {
                    if t < i {
                        assert(d@.take(i + 1)[t] == d@.take(i as int)[t]);
                    }
                }
                lemma_digits_val_monotone(d@, i + 1);
            }
            return None;
        }
        v = next;
        i = i + 1;
    }
    proof {
        assert(d@.take(d@.len() as int) =~= d@);
    }
    Some(v as u8)
}

/// A non-digit anywhere makes the whole text no digit string.
proof fn lemma_not_all_digits(d: Seq<char>, i: int)
    requires
        0 <= i < d.len(),
        !crate::editor::is_digit(d[i]),
    ensures
        !crate::editor::all_digits(d),
{
}

/// Appending digits never shrinks a digit string's value.
proof fn lemma_digits_val_monotone(d: Seq<char>, i: int)
    requires
        0 <= i <= d.len(),
        crate::editor::all_digits(d.take(i)),
    ensures
        crate::editor::all_digits(d) ==> crate::editor::digits_val(d) >= crate::editor::digits_val(
            d.take(i),
        ),
    decreases d.len() - i,
{
    if i < d.len() && crate::editor::all_digits(d) {
        assert(d.take(i + 1).drop_last() =~= d.take(i));
        assert(d.take(i + 1).last() == d[i]);
        assert forall|t: int| 0 <= t < i + 1 implies crate::editor::is_digit(
            #[trigger] d.take(i + 1)[t],
        ) by {
            if t < i {
                assert(d.take(i + 1)[t] == d.take(i)[t]);
            } else {
                assert(d.take(i + 1)[t] == d[i]);
            }
        }
        lemma_digits_nonneg_local(d.take(i));
        assert(crate::editor::digits_val(d.take(i + 1)) >= crate::editor::digits_val(d.take(i)));
        lemma_digits_val_monotone(d, i + 1);
        assert(d.take(d.len() as int) =~= d);
    } else {
        assert(i == d.len() ==> d.take(i) =~= d);
    }
}

proof fn lemma_digits_nonneg_local(q: Seq<char>)
    requires
        crate::editor::all_digits(q),
    ensures
        crate::editor::digits_val(q) >= 0,
    decreases q.len(),
{
    if q.len() > 0 {
        assert forall|t: int| 0 <= t < q.drop_last().len() implies crate::editor::is_digit(
            #[trigger] q.drop_last()[t],
        ) by {
            assert(q.drop_last()[t] == q[t]);
        }
        lemma_digits_nonneg_local(q.drop_last());
        assert(crate::editor::is_digit(q.last()));
    }
}

} // verus!
