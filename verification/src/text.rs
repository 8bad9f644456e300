//! Small verified helpers on texts.

use vstd::prelude::*;

verus! {

/// The characters of each text, in order.
pub open spec fn texts(v: Seq<String>) -> Seq<Seq<char>> {
    v.map_values(|s: String| s@)
}

pub open spec fn opt_text(o: Option<&str>) -> Option<Seq<char>> {
    match o {
        Some(s) => Some(s@),
        None => None,
    }
}

/// Whether two texts hold the same characters.
pub fn text_eq(a: &str, b: &str) -> (r: bool)
    ensures
        r == (a@ == b@),
{
    let n = a.unicode_len();
    if n != b.unicode_len() {
        return false;
    }
    let mut i: usize = 0;
    while i < n
        invariant
            i <= n,
            n == a@.len(),
            n == b@.len(),
            forall|j: int| 0 <= j < i ==> a@[j] == b@[j],
        decreases n - i,
    {
        if a.get_char(i) != b.get_char(i) {
            return false;
        }
        i = i + 1;
    }
    assert(a@ =~= b@);
    true
}

/// Appends a copy of `s`.
pub fn push_text(v: &mut Vec<String>, s: &str)
    ensures
        texts(final(v)@) == texts(old(v)@).push(s@),
{
    v.push(s.to_owned());
    assert(texts(v@) =~= texts(old(v)@).push(s@));
}

/// Appends copies of every text of `rest`, in order.
pub fn push_texts(v: &mut Vec<String>, rest: &Vec<String>)
    ensures
        texts(final(v)@) == texts(old(v)@) + texts(rest@),
{
    let mut i: usize = 0;
    while i < rest.len()
        invariant
            i <= rest.len(),
            texts(v@) == texts(old(v)@) + texts(rest@).subrange(0, i as int),
        decreases rest.len() - i,
    {
        let ghost before = texts(v@);
        v.push(rest[i].clone());
        assert(texts(v@) =~= before.push(rest@[i as int]@));
        assert(texts(rest@).subrange(0, i + 1) =~= texts(rest@).subrange(0, i as int).push(
            rest@[i as int]@,
        ));
        i = i + 1;
    }
    assert(texts(rest@).subrange(0, i as int) =~= texts(rest@));
}

} // verus!
