//! Cutting a byte stream into bus writes of a fixed size.

use vstd::prelude::*;
use crate::protocol::concat;

verus! {

/// The writes as plain values.
pub open spec fn writes_view(writes: Seq<Vec<u8>>) -> Seq<Seq<u8>> {
    Seq::new(writes.len(), |i: int| writes[i]@)
}

/// Whether `writes` are `bytes` cut into pieces of `size`: joined they are
/// `bytes`, every one but the last is `size` long, and the last is not
/// empty and no longer than `size`.
pub open spec fn chunks_of(writes: Seq<Seq<u8>>, bytes: Seq<u8>, size: int) -> bool {
    &&& concat(writes) == bytes
    &&& forall|i: int| 0 <= i < writes.len() - 1 ==> (#[trigger] writes[i]).len() == size
    &&& writes.len() > 0 ==> 0 < writes.last().len() <= size
}

/// Whether `writes` are `bytes` cut into pieces of `size` and one more
/// write that closes the stream: the closing write holds what is left, and
/// is empty where nothing is.
pub open spec fn chunks_closed(writes: Seq<Seq<u8>>, bytes: Seq<u8>, size: int) -> bool {
    &&& writes.len() > 0
    &&& concat(writes) == bytes
    &&& forall|i: int| 0 <= i < writes.len() - 1 ==> (#[trigger] writes[i]).len() == size
    &&& writes.last().len() < size
}

/// Joining is unchanged by one more piece but for that piece.
pub proof fn lemma_concat_push(writes: Seq<Seq<u8>>, piece: Seq<u8>)
    ensures
        concat(writes.push(piece)) == concat(writes) + piece,
{
    assert(writes.push(piece).drop_last() =~= writes);
}

/// Gathers bytes and gives them out again in writes of a fixed size.
pub struct Chunker {
    pending: Vec<u8>,
    size: usize,
}

impl Chunker {
    /// The bytes gathered and not yet given out.
    pub closed spec fn pending(&self) -> Seq<u8> {
        self.pending@
    }

    /// The size of a write.
    pub closed spec fn size(&self) -> int {
        self.size as int
    }

    /// Fewer bytes are held than make a write.
    pub open spec fn wf(&self) -> bool {
        self.pending().len() < self.size()
    }

    /// A chunker for writes of `size` bytes, holding nothing.
    pub fn new(size: usize) -> (c: Self)
        requires
            size > 0,
        ensures
            c.wf(),
            c.size() == size,
            c.pending() == Seq::<u8>::empty(),
    {
        Chunker { pending: Vec::new(), size }
    }

    /// Takes one byte. When that completes a write, the write is returned
    /// and nothing is held any more.
    pub fn push(&mut self, byte: u8) -> (full: Option<Vec<u8>>)
        requires
            old(self).wf(),
        ensures
            final(self).wf(),
            final(self).size() == old(self).size(),
            old(self).pending().len() + 1 < old(self).size() ==> full is None
                && final(self).pending() == old(self).pending().push(byte),
            old(self).pending().len() + 1 == old(self).size() ==> full is Some
                && full->0@ == old(self).pending().push(byte)
                && final(self).pending() == Seq::<u8>::empty(),
    {
        self.pending.push(byte);
        if self.pending.len() == self.size {
            let mut out: Vec<u8> = Vec::new();
            core::mem::swap(&mut out, &mut self.pending);
            Some(out)
        } else {
            None
        }
    }

    /// Gives out what is held, and holds nothing any more.
    pub fn take_rest(&mut self) -> (rest: Vec<u8>)
        requires
            old(self).wf(),
        ensures
            final(self).wf(),
            final(self).size() == old(self).size(),
            rest@ == old(self).pending(),
            final(self).pending() == Seq::<u8>::empty(),
    {
        let mut out: Vec<u8> = Vec::new();
        core::mem::swap(&mut out, &mut self.pending);
        out
    }
}

/// Cuts bytes into writes of `size`. With `close`, one more write follows
/// that holds what is left over, empty or not; without it, what is left
/// over is written only if there is any.
pub fn chunk_bytes(bytes: &[u8], size: usize, close: bool) -> (writes: Vec<Vec<u8>>)
    requires
        size > 0,
    ensures
        close ==> chunks_closed(writes_view(writes@), bytes@, size as int),
        !close ==> chunks_of(writes_view(writes@), bytes@, size as int),
{
    let mut chunker = Chunker::new(size);
    let mut writes: Vec<Vec<u8>> = Vec::new();
    let n: usize = bytes.len();
    let mut i: usize = 0;
    while i < n
        invariant
            i <= n,
            n == bytes@.len(),
            chunker.wf(),
            chunker.size() == size,
            concat(writes_view(writes@)) + chunker.pending() == bytes@.subrange(0, i as int),
            forall|k: int| 0 <= k < writes@.len() ==> (#[trigger] writes_view(writes@)[k]).len() == size,
        decreases n - i,
    {
        let ghost before = writes_view(writes@);
        let ghost held = chunker.pending();
        let byte: u8 = bytes[i];
        proof {
            let joined = concat(before);
            assert(joined + held == bytes@.subrange(0, i as int));
            assert((joined + held).push(byte) =~= bytes@.subrange(0, i + 1));
            assert((joined + held).push(byte) =~= joined + held.push(byte));
        }
        match chunker.push(byte) {
            Some(w) => {
                writes.push(w);
                proof {
                    assert(writes_view(writes@) =~= before.push(w@));
                    lemma_concat_push(before, w@);
                    assert(concat(before) + w@ + chunker.pending() =~= concat(before) + w@);
                }
            },
            None => {},
        }
        i += 1;
    }
    assert(bytes@.subrange(0, n as int) =~= bytes@);
    let rest: Vec<u8> = chunker.take_rest();
    if close || rest.len() > 0 {
        let ghost before = writes_view(writes@);
        writes.push(rest);
        proof {
            assert(writes_view(writes@) =~= before.push(rest@));
            lemma_concat_push(before, rest@);
        }
    } else {
        assert(concat(writes_view(writes@)) + rest@ =~= concat(writes_view(writes@)));
    }
    writes
}

} // verus!
