use vstd::prelude::*;

verus! {

/// The document text: a growable sequence of Unicode scalar values,
/// lines delimited by `'\n'`.
///
/// Invariant (`wf`): the buffer is never empty and always ends with
/// exactly one trailing line terminator, so every logical line,
/// including the last, is `'\n'`-terminated.
pub struct Buffer {
    pub name: String,
    pub buf: Vec<char>,
}

/// Newline normalization of raw text as read from a file:
/// every `"\r\n"` pair becomes a single `'\n'`, scanning left to right.
pub open spec fn normalize_newlines(s: Seq<char>) -> Seq<char>
    decreases s.len(),
{
    if s.len() == 0 {
        Seq::empty()
    } else if s.len() >= 2 && s[0] == '\r' && s[1] == '\n' {
        seq!['\n'] + normalize_newlines(s.skip(2))
    } else {
        seq![s[0]] + normalize_newlines(s.skip(1))
    }
}

/// The document content obtained from raw file text: CRLF pairs are
/// normalized to LF and a final terminator is appended unless the
/// text already ends with one.
pub open spec fn normalized_content(raw: Seq<char>) -> Seq<char> {
    let n = normalize_newlines(raw);
    if n.len() > 0 && n.last() == '\n' {
        n
    } else {
        n.push('\n')
    }
}

impl Buffer {
    /// The document invariant: non-empty, `'\n'`-terminated.
    pub open spec fn wf(&self) -> bool {
        self.buf@.len() >= 1 && self.buf@.last() == '\n'
    }

    /// A fresh, empty document: a single trailing terminator.
    pub fn new(name: String) -> (r: Buffer)
        ensures
            r.wf(),
            r.buf@ =~= seq!['\n'],
            r.name@ == name@,
    {
        let mut buf: Vec<char> = Vec::new();
        buf.push('\n');
        Buffer { name, buf }
    }

    /// Replace the document content with raw file text, normalizing
    /// CRLF to LF and guaranteeing the trailing terminator.
    pub fn load_chars(&mut self, raw: &Vec<char>)
        ensures
            final(self).buf@ == normalized_content(raw@),
            final(self).name@ == old(self).name@,
            final(self).wf(),
    {
        let ghost r = raw@;
        let mut out: Vec<char> = Vec::new();
        let mut i: usize = 0;
        proof {
            assert(r.skip(0) =~= r);
            assert(out@ + normalize_newlines(r) =~= normalize_newlines(r));
        }
        while i < raw.len()
            invariant
                i <= raw.len(),
                r == raw@,
                normalize_newlines(r) == out@ + normalize_newlines(r.skip(i as int)),
            decreases raw.len() - i,
        {
            if raw[i] == '\r' && i + 1 < raw.len() && raw[i + 1] == '\n' {
                proof {
                    assert(r.skip(i as int).len() >= 2);
                    assert(r.skip(i as int)[0] == '\r');
                    assert(r.skip(i as int)[1] == '\n');
                    assert(r.skip(i as int).skip(2) =~= r.skip(i + 2));
                    assert(out@ + (seq!['\n'] + normalize_newlines(r.skip(i + 2)))
                        =~= out@.push('\n') + normalize_newlines(r.skip(i + 2)));
                }
                out.push('\n');
                i = i + 2;
            } else {
                proof {
                    assert(r.skip(i as int)[0] == r[i as int]);
                    assert(!(r.skip(i as int).len() >= 2 && r.skip(i as int)[0] == '\r'
                        && r.skip(i as int)[1] == '\n'));
                    assert(r.skip(i as int).skip(1) =~= r.skip(i + 1));
                    assert(out@ + (seq![r[i as int]] + normalize_newlines(r.skip(i + 1)))
                        =~= out@.push(r[i as int]) + normalize_newlines(r.skip(i + 1)));
                }
                let c = raw[i];
                out.push(c);
                i = i + 1;
            }
        }
        proof {
            assert(r.skip(raw@.len() as int) =~= Seq::<char>::empty());
            assert(out@ + Seq::<char>::empty() =~= out@);
        }
        let len = out.len();
        if len == 0 {
            out.push('\n');
        } else if out[len - 1] != '\n' {
            out.push('\n');
        }
        self.buf = out;
    }
}

} // verus!
