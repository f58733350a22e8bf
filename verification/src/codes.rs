//! Module-code collections: a list of code strings viewed as a set of
//! character sequences.

use vstd::prelude::*;
use crate::text::str_eq;

verus! {

/// The set of character sequences that a list of code strings denotes.
pub open spec fn code_set(codes: Seq<String>) -> Set<Seq<char>> {
    Set::new(|c: Seq<char>| exists|i: int| 0 <= i < codes.len() && codes[i]@ == c)
}

/// Whether the list holds the given code.
pub fn contains_code(codes: &Vec<String>, code: &str) -> (r: bool)
    ensures
        r == code_set(codes@).contains(code@),
{
    let mut i: usize = 0;
    while i < codes.len()
        invariant
            i <= codes@.len(),
            forall|j: int| 0 <= j < i ==> codes@[j]@ != code@,
        decreases codes@.len() - i,
    {
        if str_eq(codes[i].as_str(), code) {
            proof {
                assert(code_set(codes@).contains(code@));
            }
            return true;
        }
        i += 1;
    }
    false
}

/// Appends every code of `src` to `dst`.
pub fn push_all_codes(dst: &mut Vec<String>, src: &Vec<String>)
    ensures
        final(dst)@ == old(dst)@ + src@,
{
    let mut i: usize = 0;
    while i < src.len()
        invariant
            i <= src@.len(),
            dst@ == old(dst)@ + src@.subrange(0, i as int),
        decreases src@.len() - i,
    {
        dst.push(src[i].clone());
        proof {
            assert(old(dst)@ + src@.subrange(0, i + 1) =~= (old(dst)@ + src@.subrange(
                0,
                i as int,
            )).push(src@[i as int]));
        }
        i += 1;
    }
    proof {
        assert(src@.subrange(0, src@.len() as int) =~= src@);
    }
}

/// Appending one code inserts it into the code set.
pub proof fn lemma_code_set_push(s: Seq<String>, x: String)
    ensures
        code_set(s.push(x)) == code_set(s).insert(x@),
{
    assert forall|c: Seq<char>| #[trigger] code_set(s.push(x)).contains(c) implies code_set(
        s,
    ).insert(x@).contains(c) by {
        let i = choose|i: int| 0 <= i < s.push(x).len() && s.push(x)[i]@ == c;
        if i < s.len() {
            assert(s[i]@ == c);
        }
    }
    assert forall|c: Seq<char>| code_set(s).insert(x@).contains(c) implies #[trigger] code_set(
        s.push(x),
    ).contains(c) by {
        if code_set(s).contains(c) {
            let i = choose|i: int| 0 <= i < s.len() && s[i]@ == c;
            assert(s.push(x)[i]@ == c);
        } else {
            assert(s.push(x)[s.len() as int]@ == c);
        }
    }
    assert(code_set(s.push(x)) =~= code_set(s).insert(x@));
}

/// Concatenating two code lists unions their code sets.
pub proof fn lemma_code_set_concat(a: Seq<String>, b: Seq<String>)
    ensures
        code_set(a + b) == code_set(a).union(code_set(b)),
{
    assert forall|c: Seq<char>| code_set(a + b).contains(c) implies code_set(a).union(
        code_set(b),
    ).contains(c) by {
        let i = choose|i: int| 0 <= i < (a + b).len() && (a + b)[i]@ == c;
        if i < a.len() {
            assert(a[i]@ == c);
            assert(code_set(a).contains(c));
        } else {
            assert(b[i - a.len()]@ == c);
            assert(code_set(b).contains(c));
        }
    }
    assert forall|c: Seq<char>| code_set(a).union(code_set(b)).contains(c) implies code_set(
        a + b,
    ).contains(c) by {
        if code_set(a).contains(c) {
            let i = choose|i: int| 0 <= i < a.len() && a[i]@ == c;
            assert((a + b)[i]@ == c);
        } else {
            let i = choose|i: int| 0 <= i < b.len() && b[i]@ == c;
            assert((a + b)[a.len() + i]@ == c);
        }
    }
    assert(code_set(a + b) =~= code_set(a).union(code_set(b)));
}

} // verus!
