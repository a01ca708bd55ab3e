//! Searching and copying in byte strings.

use vstd::prelude::*;

verus! {

/// The first place at or after `from` where `s` holds `byte`.
pub open spec fn first_byte_from(s: Seq<u8>, byte: u8, from: int) -> Option<int>
    decreases s.len() - from,
{
    if from < 0 || from >= s.len() {
        None
    } else if s[from] == byte {
        Some(from)
    } else {
        first_byte_from(s, byte, from + 1)
    }
}

/// What [`first_byte_from`] finds holds the byte, and nothing before it
/// does; it finds nothing only where the byte does not occur.
pub proof fn lemma_first_byte_from(s: Seq<u8>, byte: u8, from: int)
    requires
        0 <= from <= s.len(),
    ensures
        match first_byte_from(s, byte, from) {
            Some(i) => from <= i < s.len() && s[i] == byte && forall|j: int|
                from <= j < i ==> s[j] != byte,
            None => forall|j: int| from <= j < s.len() ==> s[j] != byte,
        },
    decreases s.len() - from,
{
    if from < s.len() && s[from] != byte {
        lemma_first_byte_from(s, byte, from + 1);
    }
}

/// The first place of a byte is what [`first_byte_from`] finds.
pub proof fn lemma_first_byte_is(s: Seq<u8>, byte: u8, from: int, i: int)
    requires
        0 <= from <= i < s.len(),
        s[i] == byte,
        forall|j: int| from <= j < i ==> s[j] != byte,
    ensures
        first_byte_from(s, byte, from) == Some(i),
    decreases i - from,
{
    if from < i {
        lemma_first_byte_is(s, byte, from + 1, i);
    }
}

/// Where a byte does not occur, [`first_byte_from`] finds nothing.
pub proof fn lemma_first_byte_absent(s: Seq<u8>, byte: u8, from: int)
    requires
        0 <= from,
        forall|j: int| from <= j < s.len() ==> s[j] != byte,
    ensures
        first_byte_from(s, byte, from) is None,
    decreases s.len() - from,
{
    if from < s.len() {
        lemma_first_byte_absent(s, byte, from + 1);
    }
}

/// Whether two byte strings are equal.
pub fn bytes_equal(a: &[u8], b: &[u8]) -> (equal: bool)
    ensures
        equal == (a@ == b@),
{
    if a.len() != b.len() {
        return false;
    }
    let mut index: usize = 0;
    while index < a.len()
        invariant
            a@.len() == b@.len(),
            index <= a@.len(),
            forall|i: int| 0 <= i < index ==> a@[i] == b@[i],
        decreases a@.len() - index,
    {
        if a[index] != b[index] {
            return false;
        }
        index += 1;
    }
    assert(a@ =~= b@);
    true
}

/// The first place in `buf[from..to]` that holds `byte`.
pub fn find_byte(buf: &[u8], byte: u8, from: usize, to: usize) -> (found: Option<usize>)
    requires
        from <= to <= buf@.len(),
    ensures
        match found {
            Some(i) => from <= i < to && buf@[i as int] == byte && forall|j: int|
                from <= j < i ==> buf@[j] != byte,
            None => forall|j: int| from <= j < to ==> buf@[j] != byte,
        },
{
    let mut index: usize = from;
    while index < to
        invariant
            from <= index <= to <= buf@.len(),
            forall|j: int| from <= j < index ==> buf@[j] != byte,
        decreases to - index,
    {
        if buf[index] == byte {
            return Some(index);
        }
        index += 1;
    }
    None
}

/// A copy of `buf[from..to]`.
pub fn copy_range(buf: &[u8], from: usize, to: usize) -> (copy: Vec<u8>)
    requires
        from <= to <= buf@.len(),
    ensures
        copy@ == buf@.subrange(from as int, to as int),
{
    let mut copy: Vec<u8> = Vec::new();
    let mut index: usize = from;
    while index < to
        invariant
            from <= index <= to <= buf@.len(),
            copy@ == buf@.subrange(from as int, index as int),
        decreases to - index,
    {
        copy.push(buf[index]);
        proof {
            assert(copy@ =~= buf@.subrange(from as int, index + 1));
        }
        index += 1;
    }
    copy
}

/// Whether `bytes` begins with `prefix`.
pub fn starts_with(bytes: &[u8], prefix: &[u8]) -> (starts: bool)
    ensures
        starts == prefix@.is_prefix_of(bytes@),
{
    if prefix.len() > bytes.len() {
        return false;
    }
    let mut index: usize = 0;
    while index < prefix.len()
        invariant
            index <= prefix@.len() <= bytes@.len(),
            forall|i: int| 0 <= i < index ==> prefix@[i] == bytes@[i],
        decreases prefix@.len() - index,
    {
        if prefix[index] != bytes[index] {
            assert(prefix@[index as int] != bytes@.subrange(0, prefix@.len() as int)[index as int]);
            return false;
        }
        index += 1;
    }
    assert(prefix@ =~= bytes@.subrange(0, prefix@.len() as int));
    true
}

} // verus!
