//! The in-memory stream through which a VST3 plugin saves and loads its state.

use vstd::prelude::*;

verus! {

/// A call succeeded.
pub const RESULT_OK: i32 = 0;

/// A call failed.
pub const RESULT_FAILED: i32 = -1;

/// Bytes with a position at which they are read and written.
#[derive(Debug)]
pub struct MemoryStream {
    /// The bytes.
    pub data: Vec<u8>,
    /// The position, which may lie past the end.
    pub position: usize,
}

/// The bytes of a stream and its position.
pub struct StreamView {
    /// The bytes.
    pub data: Seq<u8>,
    /// The position.
    pub position: nat,
}

impl View for MemoryStream {
    type V = StreamView;

    open spec fn view(&self) -> StreamView {
        StreamView { data: self.data@, position: self.position as nat }
    }
}

/// The bytes that reading up to `want` bytes gives.
pub open spec fn read_of(s: StreamView, want: nat) -> Seq<u8> {
    if s.position >= s.data.len() {
        Seq::empty()
    } else if s.position + want <= s.data.len() {
        s.data.subrange(s.position as int, (s.position + want) as int)
    } else {
        s.data.skip(s.position as int)
    }
}

/// `data` with `chunk` written at `position`. A gap before it is filled with
/// zeros.
pub open spec fn written(data: Seq<u8>, position: nat, chunk: Seq<u8>) -> Seq<u8> {
    let end = position + chunk.len();
    Seq::new(
        if end > data.len() {
            end
        } else {
            data.len()
        },
        |i: int|
            if position <= i < end {
                chunk[i - position]
            } else if i < data.len() {
                data[i]
            } else {
                0
            },
    )
}

/// Where seeking starts from.
pub open spec fn seek_base(s: StreamView, mode: i32) -> Option<int> {
    if mode == 0 {
        Some(0)
    } else if mode == 1 {
        Some(s.position as int)
    } else if mode == 2 {
        Some(s.data.len() as int)
    } else {
        None
    }
}

impl MemoryStream {
    /// An empty stream.
    #[must_use]
    pub fn new() -> (stream: Self)
        ensures
            stream@ == (StreamView { data: Seq::empty(), position: 0 }),
    {
        MemoryStream { data: Vec::new(), position: 0 }
    }

    /// A stream of `bytes`, positioned at its start.
    #[must_use]
    pub fn from_bytes(bytes: &[u8]) -> (stream: Self)
        ensures
            stream@ == (StreamView { data: bytes@, position: 0 }),
    {
        MemoryStream { data: vstd::slice::slice_to_vec(bytes), position: 0 }
    }

    /// Reads up to `num_bytes` bytes; `None` where that is negative.
    pub fn read(&mut self, num_bytes: i32) -> (chunk: Option<Vec<u8>>)
        ensures
            match chunk {
                None => num_bytes < 0 && final(self)@ == old(self)@,
                Some(c) => num_bytes >= 0 && c@ == read_of(old(self)@, num_bytes as nat)
                    && final(self)@ == (StreamView {
                    position: old(self)@.position + c@.len(),
                    ..old(self)@
                }),
            },
    {
        if num_bytes < 0 {
            return None;
        }
        let want: u64 = num_bytes as u64;
        let len: usize = self.data.len();
        let available: usize = if self.position < len {
            len - self.position
        } else {
            0
        };
        let take: usize = if want < available as u64 {
            want as usize
        } else {
            available
        };
        if take == 0 {
            let none: Vec<u8> = Vec::new();
            assert(none@ =~= read_of(self@, num_bytes as nat));
            return Some(none);
        }
        let part = vstd::slice::slice_subrange(
            self.data.as_slice(),
            self.position,
            self.position + take,
        );
        let out = vstd::slice::slice_to_vec(part);
        assert(out@ =~= read_of(self@, num_bytes as nat));
        self.position = self.position + take;
        Some(out)
    }

    /// Writes `chunk` at the position and moves past it.
    pub fn write(&mut self, chunk: &[u8])
        requires
            old(self)@.position + chunk@.len() <= usize::MAX,
        ensures
            final(self)@ == (StreamView {
                data: written(old(self)@.data, old(self)@.position, chunk@),
                position: old(self)@.position + chunk@.len(),
            }),
    {
        let from: usize = self.position;
        let end: usize = from + chunk.len();
        let ghost before = self.data@;
        if self.data.len() < end {
            self.data.resize(end, 0);
        }
        let ghost grown = self.data@;
        let mut i: usize = 0;
        while i < chunk.len()
            invariant
                i <= chunk.len(),
                from + chunk.len() == end,
                end <= self.data.len(),
                self.position == from,
                self.data@.len() == grown.len(),
                forall|j: int|
                    0 <= j < grown.len() ==> #[trigger] self.data@[j] == (if from <= j < from + i {
                        chunk@[j - from]
                    } else {
                        grown[j]
                    }),
            decreases chunk.len() - i,
        {
            self.data.set(from + i, chunk[i]);
            i += 1;
        }
        assert(self.data@ =~= written(before, from as nat, chunk@));
        self.position = end;
    }

    /// Moves the position: from the start in mode 0, from here in mode 1, from
    /// the end in mode 2. `None` for any other mode, and where the position
    /// would lie before the start.
    pub fn seek(&mut self, pos: i64, mode: i32) -> (result: Option<i64>)
        requires
            old(self)@.position <= i64::MAX,
            old(self)@.data.len() <= i64::MAX,
            seek_base(old(self)@, mode) matches Some(base) ==> i64::MIN <= base + pos <= i64::MAX
                && base + pos <= usize::MAX,
        ensures
            match result {
                None => final(self)@ == old(self)@ && (match seek_base(old(self)@, mode) {
                    None => true,
                    Some(base) => base + pos < 0,
                }),
                Some(p) => seek_base(old(self)@, mode) matches Some(base) && p == base + pos
                    && p >= 0 && final(self)@ == (StreamView {
                    position: p as nat,
                    ..old(self)@
                }),
            },
    {
        let base: i64 = if mode == 0 {
            0
        } else if mode == 1 {
            self.position as i64
        } else if mode == 2 {
            self.data.len() as i64
        } else {
            return None;
        };
        let target: i64 = base + pos;
        if target < 0 {
            return None;
        }
        self.position = target as usize;
        Some(target)
    }

    /// The position.
    #[must_use]
    pub fn tell(&self) -> (pos: i64)
        requires
            self@.position <= i64::MAX,
        ensures
            pos == self@.position,
    {
        self.position as i64
    }
}

/// Reading where a chunk was written gives the chunk back.
pub proof fn written_bytes_are_read_back(data: Seq<u8>, position: nat, chunk: Seq<u8>)
    ensures
        read_of(
            StreamView { data: written(data, position, chunk), position },
            chunk.len(),
        ) == chunk,
{
    let s = StreamView { data: written(data, position, chunk), position };
    assert(read_of(s, chunk.len()) =~= chunk);
}

/// Writing one chunk after the other from the start of an empty stream leaves
/// their concatenation.
pub proof fn writing_appends(data: Seq<u8>, chunk: Seq<u8>)
    ensures
        written(data, data.len(), chunk) == data + chunk,
{
    assert(written(data, data.len(), chunk) =~= data + chunk);
}

/// Reading a stream in two steps gives what reading it in one does.
pub proof fn reading_splits(s: StreamView, a: nat, b: nat)
    ensures
        read_of(s, a) + read_of(
            StreamView { position: s.position + read_of(s, a).len(), ..s },
            b,
        ) == read_of(s, a + b),
{
    let next = StreamView { position: s.position + read_of(s, a).len(), ..s };
    assert(read_of(s, a) + read_of(next, b) =~= read_of(s, a + b));
}

/// Seeking starts from the first byte in mode 0, from where the stream is in mode 1,
/// and from behind the last byte in mode 2: behind what was just written, going back
/// by its length leads to where it was written.
pub proof fn seeking_starts_where_it_says(data: Seq<u8>, position: nat, chunk: Seq<u8>, mode: i32)
    ensures
        ({
            let after = StreamView {
                data: written(data, position, chunk),
                position: position + chunk.len(),
            };
            &&& seek_base(after, 0) == Some(0int)
            &&& seek_base(after, 1) == Some((position + chunk.len()) as int)
            &&& seek_base(after, 1)->0 - chunk.len() == position
            &&& seek_base(after, 2) == Some(after.data.len() as int)
            &&& read_of(StreamView { position: after.data.len(), ..after }, 1).len() == 0
            &&& !(0 <= mode <= 2) ==> seek_base(after, mode) is None
        }),
{
}

/// Reading gives as many bytes as were asked for while there are that many, and never
/// fewer than are left.
pub proof fn reads_are_not_short(s: StreamView, want: nat)
    ensures
        s.position + want <= s.data.len() ==> read_of(s, want).len() == want,
        s.position <= s.data.len() && s.position + want > s.data.len() ==> read_of(s, want).len()
            == s.data.len() - s.position,
        s.position > s.data.len() ==> read_of(s, want).len() == 0,
        forall|i: int|
            0 <= i < read_of(s, want).len() ==> #[trigger] read_of(s, want)[i] == s.data[s.position
                + i],
{
}

/// Writing leaves what stands before and behind the chunk, and fills a gap before it
/// with zeros.
pub proof fn writing_leaves_the_rest(data: Seq<u8>, position: nat, chunk: Seq<u8>)
    ensures
        ({
            let after = written(data, position, chunk);
            &&& after.len() >= data.len()
            &&& chunk.len() > 0 ==> after.len() >= position + chunk.len()
            &&& after.len() == data.len() || after.len() == position + chunk.len()
            &&& forall|i: int|
                0 <= i < after.len() && !(position <= i < position + chunk.len())
                    ==> #[trigger] after[i] == (if i < data.len() {
                    data[i]
                } else {
                    0
                })
        }),
{
}

} // verus!
