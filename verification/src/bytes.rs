//! Comparison of byte strings with the keywords of the format.

use vstd::prelude::*;
use vstd::string::StringSliceAdditionalSpecFns;

verus! {

/// The bytes of a keyword, which is written in the source as a string literal.
pub open spec fn keyword(word: &str) -> Seq<u8> {
    word.spec_bytes()
}

/// Whether two byte strings hold the same bytes.
pub fn bytes_eq(a: &[u8], b: &[u8]) -> (same: bool)
    ensures
        same == (a@ == b@),
{
    if a.len() != b.len() {
        return false;
    }
    let mut i: usize = 0;
    while i < a.len()
        invariant
            a.len() == b.len(),
            i <= a.len(),
            forall|j: int| 0 <= j < i ==> a@[j] == b@[j],
        decreases a.len() - i,
    {
        if a[i] != b[i] {
            return false;
        }
        i += 1;
    }
    assert(a@ =~= b@);
    true
}

/// Whether `token` is exactly the keyword `word`.
pub fn is_keyword(token: &[u8], word: &str) -> (same: bool)
    ensures
        same == (token@ == keyword(word)),
{
    bytes_eq(token, word.as_bytes())
}

/// A copy of a byte string.
pub fn copy_bytes(a: &[u8]) -> (copy: Vec<u8>)
    ensures
        copy@ == a@,
{
    let mut copy: Vec<u8> = Vec::new();
    let mut i: usize = 0;
    while i < a.len()
        invariant
            i <= a.len(),
            copy@ == a@.subrange(0, i as int),
        decreases a.len() - i,
    {
        copy.push(a[i]);
        assert(copy@ =~= a@.subrange(0, i + 1));
        i += 1;
    }
    assert(a@.subrange(0, a.len() as int) =~= a@);
    copy
}

} // verus!
