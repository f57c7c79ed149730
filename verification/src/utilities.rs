//! Byte-scanning helpers shared by the DA patcher and the protocol
//! drivers.

use vstd::prelude::*;

verus! {

/// The needle occurs in `data` at position `i`.
pub open spec fn spec_match_at(data: Seq<u8>, needle: Seq<u8>, i: int) -> bool {
    &&& 0 <= i
    &&& i + needle.len() <= data.len()
    &&& data.subrange(i, i + needle.len()) == needle
}

/// First position at or after `offset` where the needle occurs, or
/// `None` when it occurs nowhere at or after it.
pub open spec fn spec_find(data: Seq<u8>, needle: Seq<u8>, offset: int) -> Option<int>
    decreases data.len() - offset,
{
    if offset < 0 || offset + needle.len() > data.len() {
        None
    } else if needle.len() == 0 || data.subrange(offset, offset + needle.len()) == needle {
        Some(offset)
    } else {
        spec_find(data, needle, offset + 1)
    }
}

/// Sequence concatenation associates.
pub proof fn lemma_seq_assoc<T>(a: Seq<T>, b: Seq<T>, c: Seq<T>)
    ensures
        (a + b) + c == a + (b + c),
{
    assert((a + b) + c =~= a + (b + c));
}

/// Byte-for-byte equality of two slices.
pub fn bytes_equal(a: &[u8], b: &[u8]) -> (r: bool)
    ensures
        r == (a@ == b@),
{
    if a.len() != b.len() {
        return false;
    }
    let mut i: usize = 0;
    while i < a.len()
        invariant
            a@.len() == b@.len(),
            i <= a@.len(),
            forall|j: int| 0 <= j < i ==> a@[j] == b@[j],
        decreases a@.len() - i,
    {
        if a[i] != b[i] {
            return false;
        }
        i = i + 1;
    }
    proof {
        assert(a@ =~= b@);
    }
    true
}

/// Whether every byte of the slice is zero.
pub fn is_all_zero(data: &[u8]) -> (r: bool)
    ensures
        r == (forall|i: int| 0 <= i < data@.len() ==> data@[i] == 0),
{
    let mut i: usize = 0;
    while i < data.len()
        invariant
            i <= data@.len(),
            forall|j: int| 0 <= j < i ==> data@[j] == 0,
        decreases data@.len() - i,
    {
        if data[i] != 0 {
            return false;
        }
        i = i + 1;
    }
    true
}

/// Finds the first occurrence of `to_find` in `data` at or after
/// `offset`, scanning forward one byte at a time.
pub fn find_pattern(data: &[u8], to_find: &[u8], offset: usize) -> (r: Option<usize>)
    requires
        to_find@.len() > 0,
    ensures
        match r {
            Some(i) => {
                &&& offset <= i
                &&& spec_match_at(data@, to_find@, i as int)
                &&& forall|j: int| offset <= j < i ==> !spec_match_at(data@, to_find@, j)
                &&& spec_find(data@, to_find@, offset as int) == Some(i as int)
            },
            None => {
                &&& forall|j: int| offset <= j ==> !spec_match_at(data@, to_find@, j)
                &&& spec_find(data@, to_find@, offset as int) is None
            },
        },
{
    if to_find.len() > data.len() {
        proof {
            lemma_spec_find_none(data@, to_find@, offset as int);
        }
        return None;
    }
    if offset >= data.len() {
        proof {
            lemma_spec_find_none(data@, to_find@, offset as int);
        }
        return None;
    }
    let last_start: usize = data.len() - to_find.len();
    if offset > last_start {
        proof {
            lemma_spec_find_none(data@, to_find@, offset as int);
        }
        return None;
    }
    let mut i: usize = offset;
    while i <= last_start
        invariant
            to_find@.len() > 0,
            offset <= i,
            i <= last_start + 1,
            data@.len() <= usize::MAX,
            to_find@.len() <= data@.len(),
            last_start == data@.len() - to_find@.len(),
            forall|j: int| offset <= j < i ==> !spec_match_at(data@, to_find@, j),
            spec_find(data@, to_find@, offset as int) == spec_find(data@, to_find@, i as int),
        decreases data@.len() - i,
    {
        if bytes_equal(&data[i..i + to_find.len()], to_find) {
            proof {
                assert(spec_find(data@, to_find@, i as int) == Some(i as int));
            }
            return Some(i);
        }
        proof {
            assert(spec_find(data@, to_find@, i as int) == spec_find(data@, to_find@, i + 1));
        }
        i = i + 1;
    }
    proof {
        assert(spec_find(data@, to_find@, i as int) is None);
    }
    None
}

/// Past the last possible start, the search finds nothing.
proof fn lemma_spec_find_none(data: Seq<u8>, needle: Seq<u8>, offset: int)
    requires
        needle.len() > 0,
        offset >= 0,
        offset + needle.len() > data.len(),
    ensures
        spec_find(data, needle, offset) is None,
        forall|j: int| offset <= j ==> !spec_match_at(data, needle, j),
{
    assert(spec_find(data, needle, offset) is None);
}

} // verus!
