use vstd::prelude::*;

verus! {

/// `needle` occurs in `data` starting at offset `i`.
pub open spec fn occurs_at(data: Seq<u8>, needle: Seq<u8>, i: int) -> bool {
    &&& 0 <= i
    &&& i + needle.len() <= data.len()
    &&& data.subrange(i, i + needle.len()) == needle
}

/// `data` begins with `prefix`.
pub open spec fn starts_with(data: Seq<u8>, prefix: Seq<u8>) -> bool {
    occurs_at(data, prefix, 0)
}

/// The smaller of two integers.
pub open spec fn min_int(a: int, b: int) -> int {
    if a <= b {
        a
    } else {
        b
    }
}

/// Whether `needle` occurs in `data` at `offset` (false when it would run past the end).
pub fn occurs_at_exec(data: &[u8], needle: &[u8], offset: usize) -> (res: bool)
    ensures
        res == occurs_at(data@, needle@, offset as int),
{
    if offset > data.len() || needle.len() > data.len() - offset {
        return false;
    }
    let mut k: usize = 0;
    while k < needle.len()
        invariant
            offset + needle@.len() <= data@.len(),
            data@.len() == data.len(),
            0 <= k <= needle@.len(),
            forall|j: int| 0 <= j < k ==> data@[offset + j] == needle@[j],
        decreases needle.len() - k,
    {
        if data[offset + k] != needle[k] {
            assert(data@.subrange(offset as int, offset + needle@.len())[k as int] != needle@[k as int]);
            return false;
        }
        k = k + 1;
    }
    assert(data@.subrange(offset as int, offset + needle@.len()) =~= needle@);
    true
}

/// Finds the last start offset of `needle` in `haystack` that lies before `exclusive_end`.
///
/// An empty needle is found at offset 0.
pub fn find_last_subslice_starting_before(
    haystack: &[u8],
    needle: &[u8],
    exclusive_end: usize,
) -> (res: Option<usize>)
    ensures
        needle@.len() == 0 ==> res == Some(0usize),
        needle@.len() > 0 ==> match res {
            Some(i) => {
                &&& i < min_int(exclusive_end as int, haystack@.len() as int)
                &&& occurs_at(haystack@, needle@, i as int)
                &&& forall|j: int|
                    i < j < min_int(exclusive_end as int, haystack@.len() as int) ==> !occurs_at(
                        haystack@,
                        needle@,
                        j,
                    )
            },
            None => forall|j: int|
                0 <= j < min_int(exclusive_end as int, haystack@.len() as int) ==> !occurs_at(
                    haystack@,
                    needle@,
                    j,
                ),
        },
{
    if needle.len() == 0 {
        return Some(0);
    }
    let limit = if exclusive_end < haystack.len() {
        exclusive_end
    } else {
        haystack.len()
    };
    if haystack.len() < needle.len() || limit == 0 {
        assert forall|j: int| 0 <= j < limit implies !occurs_at(haystack@, needle@, j) by {}
        return None;
    }
    let mut index: usize = limit;
    while index > 0
        invariant
            0 <= index <= limit,
            limit == min_int(exclusive_end as int, haystack@.len() as int),
            needle@.len() > 0,
            forall|j: int| index <= j < limit ==> !occurs_at(haystack@, needle@, j),
        decreases index,
    {
        index = index - 1;
        if occurs_at_exec(haystack, needle, index) {
            return Some(index);
        }
    }
    None
}

/// The bytes of `a` followed by the bytes of `b`.
pub fn concat_bytes(a: &[u8], b: &[u8]) -> (res: Vec<u8>)
    ensures
        res@ == a@ + b@,
{
    let mut out: Vec<u8> = Vec::new();
    let mut i: usize = 0;
    while i < a.len()
        invariant
            0 <= i <= a@.len(),
            out@ == a@.subrange(0, i as int),
        decreases a.len() - i,
    {
        out.push(a[i]);
        i = i + 1;
        assert(out@ =~= a@.subrange(0, i as int));
    }
    assert(a@.subrange(0, a@.len() as int) =~= a@);
    assert(out@ =~= a@ + b@.subrange(0, 0));
    let mut j: usize = 0;
    while j < b.len()
        invariant
            0 <= j <= b@.len(),
            out@ == a@ + b@.subrange(0, j as int),
        decreases b.len() - j,
    {
        out.push(b[j]);
        j = j + 1;
        assert(out@ =~= a@ + b@.subrange(0, j as int));
    }
    assert(b@.subrange(0, b@.len() as int) =~= b@);
    out
}

} // verus!
