use vstd::prelude::*;
use vstd::string::StrSliceExecFns;

verus! {

/// The characters of `s` from position `begin` up to, not including,
/// position `end`, counted in characters. An `end` beyond the text means the
/// end of the text; a `begin` beyond it, or an `end` before `begin`, gives
/// the empty text.
pub open spec fn substring_of(s: Seq<char>, begin: int, end: int) -> Seq<char> {
    if end < begin || begin >= s.len() {
        Seq::empty()
    } else if end >= s.len() {
        s.subrange(begin, s.len() as int)
    } else {
        s.subrange(begin, end)
    }
}

/// A slice of `s` by character positions; it never splits a character.
pub fn substring<'a>(s: &'a str, begin: usize, end: usize) -> (r: &'a str)
    ensures
        r@ == substring_of(s@, begin as int, end as int),
{
    let l: usize = s.unicode_len();
    if end < begin || begin >= l {
        proof {
            reveal_strlit("");
        }
        assert(""@ =~= Seq::<char>::empty());
        ""
    } else if end >= l {
        s.substring_char(begin, l)
    } else {
        s.substring_char(begin, end)
    }
}

} // verus!
