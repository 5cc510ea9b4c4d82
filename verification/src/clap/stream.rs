//! The byte streams through which a CLAP plugin saves and loads its state.

use vstd::prelude::*;

verus! {

/// Collects the bytes that a plugin writes.
#[derive(Debug, Default)]
pub struct WriteBuffer {
    /// The bytes so far.
    pub bytes: Vec<u8>,
}

impl WriteBuffer {
    /// An empty buffer.
    #[must_use]
    pub fn new() -> (buffer: Self)
        ensures
            buffer.bytes@ == Seq::<u8>::empty(),
    {
        WriteBuffer { bytes: Vec::new() }
    }

    /// Takes `chunk` and tells how many bytes of it were taken: all of them.
    pub fn write(&mut self, chunk: &[u8]) -> (n: i64)
        ensures
            final(self).bytes@ == old(self).bytes@ + chunk@,
            n == (if chunk@.len() <= i64::MAX {
                chunk@.len() as int
            } else {
                i64::MAX as int
            }),
    {
        self.bytes.extend_from_slice(chunk);
        assert(self.bytes@ =~= old(self).bytes@ + chunk@);
        if chunk.len() as u64 <= i64::MAX as u64 {
            chunk.len() as i64
        } else {
            i64::MAX
        }
    }
}

/// Hands out the bytes that a plugin reads.
#[derive(Clone, Copy, Debug)]
pub struct ReadCursor<'a> {
    /// All bytes.
    pub bytes: &'a [u8],
    /// How many of them were read.
    pub position: usize,
}

impl<'a> ReadCursor<'a> {
    /// The bytes that are left.
    pub open spec fn rest(&self) -> Seq<u8> {
        if self.position <= self.bytes@.len() {
            self.bytes@.skip(self.position as int)
        } else {
            Seq::empty()
        }
    }

    /// A cursor before the first byte.
    #[must_use]
    pub fn new(bytes: &'a [u8]) -> (cursor: Self)
        ensures
            cursor.rest() == bytes@,
            cursor.bytes == bytes,
    {
        let cursor = ReadCursor { bytes, position: 0 };
        assert(cursor.rest() =~= bytes@);
        cursor
    }

    /// Hands out up to `want` bytes: as many as are left.
    pub fn read(&mut self, want: usize) -> (chunk: &'a [u8])
        ensures
            chunk@ == (if want <= old(self).rest().len() {
                old(self).rest().take(want as int)
            } else {
                old(self).rest()
            }),
            old(self).rest() == chunk@ + final(self).rest(),
            final(self).bytes == old(self).bytes,
    {
        let available: usize = if self.position <= self.bytes.len() {
            self.bytes.len() - self.position
        } else {
            0
        };
        let take: usize = if want < available {
            want
        } else {
            available
        };
        if take == 0 {
            let none = vstd::slice::slice_subrange(self.bytes, 0, 0);
            assert(none@ =~= Seq::<u8>::empty());
            assert(self.rest() =~= none@ + self.rest());
            assert(want <= self.rest().len() ==> none@ =~= self.rest().take(want as int));
            assert(want > self.rest().len() ==> none@ =~= self.rest());
            return none;
        }
        let ghost before = self.rest();
        let chunk = vstd::slice::slice_subrange(
            self.bytes,
            self.position,
            self.position + take,
        );
        self.position = self.position + take;
        assert(chunk@ =~= before.take(take as int));
        assert(before.take(before.len() as int) =~= before);
        assert(before =~= chunk@ + self.rest());
        chunk
    }
}

/// The concatenation of chunks.
pub open spec fn joined(chunks: Seq<Seq<u8>>) -> Seq<u8>
    decreases chunks.len(),
{
    if chunks.len() == 0 {
        Seq::empty()
    } else {
        joined(chunks.drop_last()) + chunks.last()
    }
}

/// What reading `sizes` in turn gives from `bytes`, and what is left.
pub open spec fn read_all(bytes: Seq<u8>, sizes: Seq<nat>) -> (Seq<Seq<u8>>, Seq<u8>)
    decreases sizes.len(),
{
    if sizes.len() == 0 {
        (Seq::empty(), bytes)
    } else {
        let (chunks, rest) = read_all(bytes, sizes.drop_last());
        let n = if sizes.last() <= rest.len() {
            sizes.last()
        } else {
            rest.len()
        };
        (chunks.push(rest.take(n as int)), rest.skip(n as int))
    }
}

/// State that was written in any chunks is read back in any chunks: what was
/// read and what is left are together what was written.
pub proof fn state_survives_chunking(written: Seq<Seq<u8>>, sizes: Seq<nat>)
    ensures
        ({
            let (chunks, rest) = read_all(joined(written), sizes);
            joined(chunks) + rest == joined(written)
        }),
    decreases sizes.len(),
{
    let bytes = joined(written);
    if sizes.len() == 0 {
        assert(joined(Seq::<Seq<u8>>::empty()) + bytes =~= bytes);
    } else {
        state_survives_chunking(written, sizes.drop_last());
        let (before, left) = read_all(bytes, sizes.drop_last());
        let (chunks, rest) = read_all(bytes, sizes);
        assert(chunks.drop_last() =~= before);
        assert(left =~= chunks.last() + rest);
        assert(joined(chunks) + rest =~= joined(before) + left);
    }
}

/// Reading gives as many bytes as were asked for while there are that many, and never
/// fewer than are left.
pub proof fn reads_are_not_short(bytes: Seq<u8>, sizes: Seq<nat>, size: nat)
    ensures
        ({
            let (chunks, rest) = read_all(bytes, sizes);
            let (after, left) = read_all(bytes, sizes.push(size));
            &&& after.len() == chunks.len() + 1
            &&& after.last().len() == (if size <= rest.len() {
                size
            } else {
                rest.len()
            })
            &&& after.last() + left == rest
        }),
{
    assert(sizes.push(size).drop_last() =~= sizes);
    let (chunks, rest) = read_all(bytes, sizes);
    let (after, left) = read_all(bytes, sizes.push(size));
    assert(after.last() + left =~= rest);
}

/// Chunks stand one after the other.
pub proof fn chunks_are_joined_in_order(a: Seq<Seq<u8>>, chunk: Seq<u8>, b: Seq<Seq<u8>>)
    ensures
        joined(a + seq![chunk] + b) == joined(a) + chunk + joined(b),
        joined(Seq::empty()) == Seq::<u8>::empty(),
    decreases b.len(),
{
    if b.len() == 0 {
        assert((a + seq![chunk] + b).drop_last() =~= a);
        assert(joined(a + seq![chunk] + b) =~= joined(a) + chunk + joined(b));
    } else {
        chunks_are_joined_in_order(a, chunk, b.drop_last());
        assert((a + seq![chunk] + b).drop_last() =~= a + seq![chunk] + b.drop_last());
        assert(joined(a + seq![chunk] + b) =~= joined(a) + chunk + joined(b));
    }
}

} // verus!
