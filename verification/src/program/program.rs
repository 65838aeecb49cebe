use vstd::prelude::*;
use crate::pre::chars::{chars_of, push_char};

verus! {

/// The path of the file to run, unchanged.
pub fn run(file_path: String) -> (r: String)
    ensures
        r == file_path,
{
    file_path
}

/// A program: the name of its file and the file's text.
pub struct Prog {
    pub file_name: String,
    pub file_content: String,
}

/// The text with every CR LF pair turned into a single LF.
pub open spec fn crlf_to_lf(s: Seq<char>) -> Seq<char>
    decreases s.len(),
{
    if s.len() == 0 {
        s
    } else if s.len() >= 2 && s[0] == '\r' && s[1] == '\n' {
        seq!['\n'] + crlf_to_lf(s.subrange(2, s.len() as int))
    } else {
        seq![s[0]] + crlf_to_lf(s.drop_first())
    }
}

/// A text without carriage returns is left as it is.
pub proof fn law_text_without_cr_unchanged(s: Seq<char>)
    requires
        !s.contains('\r'),
    ensures
        crlf_to_lf(s) == s,
    decreases s.len(),
{
    if s.len() > 0 {
        assert(s[0] != '\r');
        assert(!s.drop_first().contains('\r')) by {
            if s.drop_first().contains('\r') {
                let k = choose|k: int| 0 <= k < s.drop_first().len() && s.drop_first()[k] == '\r';
                assert(s[k + 1] == '\r');
            }
        }
        law_text_without_cr_unchanged(s.drop_first());
        assert(seq![s[0]] + s.drop_first() =~= s);
    }
}

impl Prog {
    /// The program of the file `file_name`, whose text read from disk is
    /// `file`; its line breaks are made plain LF.
    pub fn new(file_name: String, file: String) -> (p: Self)
        ensures
            p.file_name == file_name,
            p.file_content@ == crlf_to_lf(file@),
    {
        let cs = chars_of(file.as_str());
        let mut out = String::new();
        let mut i: usize = 0;
        assert(cs@.subrange(0, cs@.len() as int) =~= cs@);
        assert(out@ + crlf_to_lf(cs@) =~= crlf_to_lf(cs@));
        while i < cs.len()
            invariant
                cs@ == file@,
                i <= cs.len(),
                out@ + crlf_to_lf(cs@.subrange(i as int, cs@.len() as int)) == crlf_to_lf(cs@),
            decreases cs.len() - i,
        {
            let ghost rest = cs@.subrange(i as int, cs@.len() as int);
            if i + 1 < cs.len() && cs[i] == '\r' && cs[i + 1] == '\n' {
                push_char(&mut out, '\n');
                assert(rest.subrange(2, rest.len() as int) =~= cs@.subrange(i + 2, cs@.len() as int));
                assert(out@ + crlf_to_lf(cs@.subrange(i + 2, cs@.len() as int)) =~= crlf_to_lf(cs@)) by {
                    assert(crlf_to_lf(rest) == seq!['\n'] + crlf_to_lf(rest.subrange(2, rest.len() as int)));
                }
                i = i + 2;
            } else {
                push_char(&mut out, cs[i]);
                assert(rest.drop_first() =~= cs@.subrange(i + 1, cs@.len() as int));
                assert(out@ + crlf_to_lf(cs@.subrange(i + 1, cs@.len() as int)) =~= crlf_to_lf(cs@)) by {
                    assert(crlf_to_lf(rest) == seq![cs@[i as int]] + crlf_to_lf(rest.drop_first()));
                }
                i = i + 1;
            }
        }
        assert(cs@.subrange(cs@.len() as int, cs@.len() as int) =~= Seq::<char>::empty());
        assert(out@ =~= crlf_to_lf(cs@));
        Prog { file_name, file_content: out }
    }
}

} // verus!
