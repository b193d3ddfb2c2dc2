//! Building argument lists (`Vec<String>`) piece by piece while tracking
//! their character-level view.
use vstd::prelude::*;
use crate::text::{owned, spec_strings, spec_strs};

verus! {

/// Appends a copy of a string slice.
pub fn push_lit(v: &mut Vec<String>, s: &str)
    ensures
        spec_strings(final(v)@) == spec_strings(old(v)@).push(s@),
{
    let ghost before = v@;
    v.push(owned(s));
    assert(spec_strings(v@) =~= spec_strings(before).push(s@));
}

/// Appends an owned string.
pub fn push_string(v: &mut Vec<String>, s: String)
    ensures
        spec_strings(final(v)@) == spec_strings(old(v)@).push(s@),
{
    let ghost before = v@;
    let ghost sv = s@;
    v.push(s);
    assert(spec_strings(v@) =~= spec_strings(before).push(sv));
}

/// Appends two string slices.
pub fn push_lit2(v: &mut Vec<String>, a: &str, b: &str)
    ensures
        spec_strings(final(v)@) == spec_strings(old(v)@) + seq![a@, b@],
{
    let ghost before = spec_strings(v@);
    push_lit(v, a);
    push_lit(v, b);
    assert(spec_strings(v@) =~= before + seq![a@, b@]);
}

/// Appends a string slice followed by an owned string.
pub fn push_lit_string(v: &mut Vec<String>, a: &str, b: String)
    ensures
        spec_strings(final(v)@) == spec_strings(old(v)@) + seq![a@, b@],
{
    let ghost before = spec_strings(v@);
    let ghost bv = b@;
    push_lit(v, a);
    push_string(v, b);
    assert(spec_strings(v@) =~= before + seq![a@, bv]);
}

/// Appends a copy of each string slice of `lits`, in order.
pub fn push_lits(v: &mut Vec<String>, lits: Vec<&str>)
    ensures
        spec_strings(final(v)@) == spec_strings(old(v)@) + spec_strs(lits@),
{
    let ghost before = spec_strings(v@);
    let mut i: usize = 0;
    while i < lits.len()
        invariant
            i <= lits@.len(),
            spec_strings(v@) == before + spec_strs(lits@.subrange(0, i as int)),
        decreases lits@.len() - i,
    {
        push_lit(v, lits[i]);
        assert(spec_strs(lits@.subrange(0, i + 1)) =~= spec_strs(lits@.subrange(0, i as int)).push(
            lits@[i as int]@,
        ));
        i = i + 1;
    }
    assert(lits@.subrange(0, lits@.len() as int) == lits@);
}

} // verus!
