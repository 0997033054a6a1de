//! Whole-object rewrites for stores without partial writes: append, write at an offset,
//! truncate.

use vstd::prelude::*;

verus! {

/// `old` with `data` written from `offset` on, zero-filled where the write starts past the end.
pub open spec fn written_at(old: Seq<u8>, offset: int, data: Seq<u8>) -> Seq<u8> {
    let end = offset + data.len();
    let n = if old.len() < end { end } else { old.len() as int };
    Seq::new(
        n as nat,
        |i: int|
            if offset <= i < end {
                data[i - offset]
            } else if i < old.len() {
                old[i]
            } else {
                0u8
            },
    )
}

/// `old` cut to at most `len` bytes.
pub open spec fn truncated(old: Seq<u8>, len: int) -> Seq<u8> {
    if len < old.len() {
        old.subrange(0, len)
    } else {
        old
    }
}

/// The object after an append: what it held (nothing when it could not be read), then `data`.
pub fn append_bytes(existing: Option<Vec<u8>>, data: &[u8]) -> (r: Vec<u8>)
    ensures
        r@ == match existing {
            Some(v) => v@,
            None => Seq::<u8>::empty(),
        } + data@,
{
    let mut out = match existing {
        Some(v) => v,
        None => Vec::new(),
    };
    let ghost start = out@;
    let mut i: usize = 0;
    while i < data.len()
        invariant
            i <= data.len(),
            out@ == start + data@.subrange(0, i as int),
        decreases data.len() - i,
    {
        out.push(data[i]);
        i = i + 1;
        assert(out@ =~= start + data@.subrange(0, i as int));
    }
    assert(data@.subrange(0, data@.len() as int) =~= data@);
    out
}

/// The object after writing `data` at `offset`.
pub fn write_at_bytes(existing: Vec<u8>, offset: u64, data: &[u8]) -> (r: Vec<u8>)
    requires
        offset + data@.len() <= usize::MAX,
    ensures
        r@ == written_at(existing@, offset as int, data@),
{
    let ghost old = existing@;
    let mut out = existing;
    let start = offset as usize;
    let end = start + data.len();
    if out.len() < end {
        out.resize(end, 0u8);
    }
    let ghost filled = out@;
    let mut i: usize = 0;
    while i < data.len()
        invariant
            start == offset,
            end == start + data@.len(),
            i <= data.len(),
            out@.len() == filled.len(),
            filled.len() == if old.len() < end { end as int } else { old.len() as int },
            forall|k: int| 0 <= k < filled.len() ==> #[trigger] filled[k] == (if k < old.len() { old[k] } else { 0u8 }),
            forall|k: int|
                0 <= k < out@.len() ==> #[trigger] out@[k] == (if start <= k < start + i {
                    data@[k - start]
                } else {
                    filled[k]
                }),
        decreases data.len() - i,
    {
        out.set(start + i, data[i]);
        i = i + 1;
    }
    assert(out@ =~= written_at(old, offset as int, data@));
    out
}

/// The object after truncation to `len` bytes.
pub fn truncate_bytes(existing: Vec<u8>, len: u64) -> (r: Vec<u8>)
    ensures
        r@ == truncated(existing@, len as int),
{
    let mut out = existing;
    if (len as u128) < (out.len() as u128) {
        out.truncate(len as usize);
    }
    out
}

/// Reading back the range just written gives the data, and nothing outside it changed.
pub proof fn lemma_write_then_read(old: Seq<u8>, offset: nat, data: Seq<u8>)
    ensures
        written_at(old, offset as int, data).subrange(offset as int, (offset + data.len()) as int) == data,
        forall|k: int|
            0 <= k < old.len() && !(offset <= k < offset + data.len()) ==> #[trigger] written_at(
                old,
                offset as int,
                data,
            )[k] == old[k],
        written_at(old, offset as int, data).len() >= old.len(),
{
    assert(written_at(old, offset as int, data).subrange(offset as int, (offset + data.len()) as int)
        =~= data);
}

/// Appending is writing at the end of what was there.
pub proof fn lemma_append_is_write_at_end(old: Seq<u8>, data: Seq<u8>)
    ensures
        old + data == written_at(old, old.len() as int, data),
{
    assert(old + data =~= written_at(old, old.len() as int, data));
}

} // verus!
