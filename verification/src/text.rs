//! Comparing names: Rust strings with each other, and C strings out of guest
//! memory with Rust strings.

use vstd::prelude::*;
use vstd::string::*;
use vstd::utf8::*;

verus! {

/// Whether `bytes` is the UTF-8 text of `text`.
pub fn is_text(bytes: &[u8], text: &str) -> (same: bool)
    ensures
        same == (bytes@ == text.spec_bytes()),
{
    let other: &[u8] = text.as_bytes();
    if bytes.len() != other.len() {
        return false;
    }
    let mut i: usize = 0;
    while i < bytes.len()
        invariant
            i <= bytes@.len(),
            bytes@.len() == other@.len(),
            other@ == text.spec_bytes(),
            forall|j: int| 0 <= j < i ==> bytes@[j] == other@[j],
        decreases bytes@.len() - i,
    {
        if bytes[i] != other[i] {
            assert(bytes@[i as int] != other@[i as int]);
            return false;
        }
        i += 1;
    }
    assert(bytes@ =~= other@);
    true
}

/// Whether `part` stands in `bytes` at the index `i`.
pub open spec fn stands_at(bytes: Seq<u8>, part: Seq<u8>, i: int) -> bool {
    0 <= i <= bytes.len() - part.len() && bytes.subrange(i, i + part.len()) == part
}

/// Whether `part` stands somewhere in `bytes`.
pub open spec fn has_part(bytes: Seq<u8>, part: Seq<u8>) -> bool {
    exists|i: int| stands_at(bytes, part, i)
}

/// Whether the UTF-8 text of `part` stands somewhere in `bytes`.
pub fn contains_text(bytes: &[u8], part: &str) -> (contains: bool)
    ensures
        contains == has_part(bytes@, part.spec_bytes()),
{
    let other: &[u8] = part.as_bytes();
    if other.len() > bytes.len() {
        return false;
    }
    let last: usize = bytes.len() - other.len();
    let mut i: usize = 0;
    loop
        invariant
            i <= last,
            last == bytes@.len() - other@.len(),
            bytes@.len() <= usize::MAX,
            other@ == part.spec_bytes(),
            forall|j: int| 0 <= j < i ==> !stands_at(bytes@, other@, j),
        decreases last - i,
    {
        let mut k: usize = 0;
        while k < other.len() && bytes[i + k] == other[k]
            invariant
                i <= last,
                last == bytes@.len() - other@.len(),
                bytes@.len() <= usize::MAX,
                k <= other@.len(),
                forall|m: int| 0 <= m < k ==> bytes@[i + m] == other@[m],
            decreases other@.len() - k,
        {
            k += 1;
        }
        if k == other.len() {
            assert(bytes@.subrange(i as int, i + other@.len()) =~= other@);
            assert(stands_at(bytes@, other@, i as int));
            return true;
        }
        assert(!stands_at(bytes@, other@, i as int)) by {
            if stands_at(bytes@, other@, i as int) {
                assert(bytes@.subrange(i as int, i + other@.len())[k as int] == bytes@[i + k]);
            }
        }
        if i == last {
            assert forall|j: int| !stands_at(bytes@, other@, j) by {
                if j < i {
                }
            }
            return false;
        }
        i += 1;
    }
}

/// Whether `a` and `b` are the same text.
pub fn same_text(a: &str, b: &str) -> (same: bool)
    ensures
        same == (a@ == b@),
{
    proof {
        encode_utf8_decode_utf8(a@);
        encode_utf8_decode_utf8(b@);
    }
    is_text(a.as_bytes(), b)
}

/// A part stands in exactly those texts that are something, the part, and something
/// more.
pub proof fn law_parts(bytes: Seq<u8>, part: Seq<u8>)
    ensures
        has_part(bytes, part) <==> exists|before: Seq<u8>, after: Seq<u8>|
            bytes == #[trigger] (before + part + after),
{
    if has_part(bytes, part) {
        let i = choose|i: int| stands_at(bytes, part, i);
        let before = bytes.take(i);
        let after = bytes.skip(i + part.len());
        assert(bytes =~= before + part + after);
    }
    if exists|before: Seq<u8>, after: Seq<u8>| bytes == #[trigger] (before + part + after) {
        let (before, after) = choose|before: Seq<u8>, after: Seq<u8>|
            bytes == #[trigger] (before + part + after);
        let i = before.len() as int;
        assert(bytes.subrange(i, i + part.len()) =~= part);
        assert(stands_at(bytes, part, i));
    }
}

} // verus!
