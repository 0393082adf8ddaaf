//! Byte sequences.

use vstd::prelude::*;

verus! {

/// `len` copies of a byte.
pub open spec fn filled(len: nat, value: u8) -> Seq<u8> {
    Seq::new(len, |i: int| value)
}

/// Whether two byte sequences are the same.
pub fn same_bytes(first: &[u8], second: &[u8]) -> (same: bool)
    ensures
        same == (first@ == second@),
{
    if first.len() != second.len() {
        return false;
    }
    let mut i: usize = 0;
    while i < first.len()
        invariant
            i <= first@.len(),
            first@.len() == second@.len(),
            forall|j: int| 0 <= j < i ==> first@[j] == second@[j],
        decreases first@.len() - i,
    {
        if first[i] != second[i] {
            return false;
        }
        i = i + 1;
    }
    assert(first@ =~= second@);
    true
}

/// A copy of a vector of bytes.
pub fn copy_bytes(bytes: &Vec<u8>) -> (copy: Vec<u8>)
    ensures
        copy@ == bytes@,
{
    let copy: Vec<u8> = bytes.clone();
    assert(copy@ =~= bytes@);
    copy
}

/// `len` copies of a byte.
pub fn fill_bytes(len: usize, value: u8) -> (bytes: Vec<u8>)
    ensures
        bytes@ == filled(len as nat, value),
{
    let bytes: Vec<u8> = vec![value; len];
    assert(bytes@ =~= filled(len as nat, value));
    bytes
}

/// The `len` bytes from `start` on, where there are so many.
pub fn slice_range(bytes: &[u8], start: usize, len: usize) -> (part: Option<Vec<u8>>)
    ensures
        start + len <= bytes@.len() ==> part is Some && part->0@ == bytes@.subrange(
            start as int,
            start + len,
        ),
        start + len > bytes@.len() ==> part is None,
{
    let available: usize = bytes.len();
    match start.checked_add(len) {
        None => None,
        Some(end) => {
            if end > available {
                None
            } else {
                Some(vstd::slice::slice_to_vec(vstd::slice::slice_subrange(bytes, start, end)))
            }
        },
    }
}

} // verus!
