use vstd::prelude::*;
use vstd::string::{StringExecFns, StrSliceExecFns};
use crate::pre::chars::{push_char, chars_of};

verus! {

/// The digit character for `d`.
pub open spec fn digit_char(d: nat) -> char {
    if d == 0 { '0' }
    else if d == 1 { '1' }
    else if d == 2 { '2' }
    else if d == 3 { '3' }
    else if d == 4 { '4' }
    else if d == 5 { '5' }
    else if d == 6 { '6' }
    else if d == 7 { '7' }
    else if d == 8 { '8' }
    else { '9' }
}

/// The decimal digits of `n`, most significant first.
pub open spec fn decimal(n: nat) -> Seq<char>
    decreases n,
{
    if n < 10 {
        seq![digit_char(n)]
    } else {
        decimal(n / 10).push(digit_char(n % 10))
    }
}

fn digit(d: usize) -> (c: char)
    requires
        d < 10,
    ensures
        c == digit_char(d as nat),
{
    if d == 0 { '0' }
    else if d == 1 { '1' }
    else if d == 2 { '2' }
    else if d == 3 { '3' }
    else if d == 4 { '4' }
    else if d == 5 { '5' }
    else if d == 6 { '6' }
    else if d == 7 { '7' }
    else if d == 8 { '8' }
    else { '9' }
}

/// `n` written in decimal.
pub fn usize_to_string(n: usize) -> (s: String)
    ensures
        s@ == decimal(n as nat),
    decreases n,
{
    if n < 10 {
        let mut s = String::new();
        push_char(&mut s, digit(n));
        assert(s@ =~= decimal(n as nat));
        s
    } else {
        let mut s = usize_to_string(n / 10);
        push_char(&mut s, digit(n % 10));
        s
    }
}

/// The lines of `s`: the pieces between its line breaks.
pub open spec fn split_lines(s: Seq<char>) -> Seq<Seq<char>>
    decreases s.len(),
{
    if s.len() == 0 {
        seq![Seq::empty()]
    } else if s.last() == '\n' {
        split_lines(s.drop_last()).push(Seq::empty())
    } else {
        let l = split_lines(s.drop_last());
        l.update(l.len() - 1, l.last().push(s.last()))
    }
}

pub proof fn lemma_split_lines_nonempty(s: Seq<char>)
    ensures
        split_lines(s).len() >= 1,
    decreases s.len(),
{
    if s.len() > 0 {
        lemma_split_lines_nonempty(s.drop_last());
    }
}

/// The lines `ls` put back together, with a line break between each two.
pub open spec fn join_lines(ls: Seq<Seq<char>>) -> Seq<char>
    decreases ls.len(),
{
    if ls.len() <= 1 {
        if ls.len() == 1 { ls[0] } else { Seq::empty() }
    } else {
        join_lines(ls.drop_last()) + seq!['\n'] + ls.last()
    }
}

/// The lines of a text hold no line break, and put back together with line
/// breaks between them they give the text.
pub proof fn law_lines_rebuild_the_text(s: Seq<char>)
    ensures
        join_lines(split_lines(s)) == s,
        forall|i: int, k: int|
            0 <= i < split_lines(s).len() && 0 <= k < split_lines(s)[i].len() ==> #[trigger] split_lines(
                s,
            )[i][k] != '\n',
    decreases s.len(),
{
    if s.len() > 0 {
        let p = s.drop_last();
        law_lines_rebuild_the_text(p);
        lemma_split_lines_nonempty(p);
        let l = split_lines(p);
        if s.last() == '\n' {
            let m = l.push(Seq::empty());
            assert(m.drop_last() =~= l);
            assert(join_lines(m) =~= s);
        } else {
            let m = l.update(l.len() - 1, l.last().push(s.last()));
            if l.len() == 1 {
                assert(join_lines(m) =~= s);
            } else {
                assert(m.drop_last() =~= l.drop_last());
                assert(m.last() == l.last().push(s.last()));
                assert(join_lines(l) == join_lines(l.drop_last()) + seq!['\n'] + l.last());
                assert(join_lines(m) == join_lines(l.drop_last()) + seq!['\n'] + l.last().push(s.last()));
                assert(s =~= p.push(s.last()));
                assert(join_lines(m) =~= s);
            }
            assert forall|i: int, k: int|
                0 <= i < m.len() && 0 <= k < m[i].len() implies #[trigger] m[i][k] != '\n' by {
                if i == l.len() - 1 && k == l.last().len() {
                } else if i == l.len() - 1 {
                    assert(m[i][k] == l[i][k]);
                } else {
                    assert(m[i] == l[i]);
                }
            }
        }
    }
}

/// Line `n` of `s`, counted from 0.
pub fn nth_line(s: &String, n: usize) -> (line: String)
    requires
        n < split_lines(s@).len(),
    ensures
        line@ == split_lines(s@)[n as int],
{
    let cs = chars_of(s.as_str());
    let mut current = String::new();
    let mut index: usize = 0;
    let mut found = String::new();
    let mut i: usize = 0;
    proof {
        assert(cs@.take(0) =~= Seq::<char>::empty());
    }
    while i < cs.len()
        invariant
            cs@ == s@,
            i <= cs.len(),
            n < split_lines(s@).len(),
            index + 1 == split_lines(cs@.take(i as int)).len(),
            current@ == split_lines(cs@.take(i as int)).last(),
            n < index ==> found@ == split_lines(cs@.take(i as int))[n as int],
            index <= i,
        decreases cs.len() - i,
    {
        let c = cs[i];
        let ghost prev = cs@.take(i as int);
        assert(cs@.take(i + 1).drop_last() =~= prev);
        proof { lemma_split_lines_nonempty(prev); }
        if c == '\n' {
            if index == n {
                found = current;
            }
            current = String::new();
            index = index + 1;
        } else {
            push_char(&mut current, c);
        }
        i = i + 1;
    }
    assert(cs@.take(cs.len() as int) =~= cs@);
    if index == n {
        current
    } else {
        found
    }
}

/// The characters of `message` from `start` up to `end`; a single space when
/// `end` is past the end of `message`.
pub open spec fn spec_sub_str(message: Seq<char>, start: int, end: int) -> Seq<char> {
    if end > message.len() {
        " "@
    } else if start >= end {
        Seq::empty()
    } else {
        message.subrange(start, end)
    }
}

/// The characters of `message` from `start` up to `end`; a single space when
/// `end` is past the end of `message`.
pub fn sub_str(message: &String, start: usize, end: usize) -> (s: String)
    ensures
        s@ == spec_sub_str(message@, start as int, end as int),
{
    let cs = chars_of(message.as_str());
    if end > cs.len() {
        return String::from_str(" ");
    }
    let mut fin = String::new();
    let mut i = start;
    if start >= end {
        return fin;
    }
    while i < end
        invariant
            cs@ == message@,
            start <= i <= end <= cs.len(),
            fin@ == message@.subrange(start as int, i as int),
        decreases end - i,
    {
        push_char(&mut fin, cs[i]);
        i = i + 1;
        assert(fin@ =~= message@.subrange(start as int, i as int));
    }
    fin
}

/// Two adjacent pieces of a text make up the piece that spans both.
pub proof fn law_sub_str_adjacent(message: Seq<char>, a: int, b: int, c: int)
    requires
        0 <= a <= b <= c <= message.len(),
    ensures
        spec_sub_str(message, a, b) + spec_sub_str(message, b, c) == spec_sub_str(message, a, c),
{
    assert(spec_sub_str(message, a, b) + spec_sub_str(message, b, c) =~= spec_sub_str(message, a, c));
}

/// The number of characters of `s`.
pub fn char_count(s: &String) -> (n: usize)
    ensures
        n == s@.len(),
{
    s.as_str().unicode_len()
}

} // verus!
