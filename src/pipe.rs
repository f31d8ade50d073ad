//! An in-memory byte pipe that stands in for a file: written at the back,
//! read from the front, never seekable.
use vstd::prelude::*;

verus! {

/// The count reported by `bytes_available`: a placeholder, not the true
/// number of unread bytes.
pub const BYTES_AVAILABLE_PLACEHOLDER: usize = 1024;

/// Where a seek would move to; a pipe refuses every one of them.
pub enum SeekPos {
    Start(u64),
    End(i64),
    Current(i64),
}

/// Why an operation on a pipe failed.
#[derive(Debug, PartialEq, Eq, Structural)]
pub enum PipeError {
    /// The pipe has no position that could be moved.
    NotSeekable,
}

/// Captures what one side writes so that the other side can read it.
#[derive(Debug)]
pub struct Pipe {
    pub buffer: Vec<u8>,
}

/// The contents after appending `bytes`.
pub open spec fn appended(contents: Seq<u8>, bytes: Seq<u8>) -> Seq<u8> {
    contents + bytes
}

/// The contents after each of `writes` has been appended, in order.
pub open spec fn after_writes(contents: Seq<u8>, writes: Seq<Seq<u8>>) -> Seq<u8>
    decreases writes.len(),
{
    if writes.len() == 0 {
        contents
    } else {
        appended(after_writes(contents, writes.drop_last()), writes.last())
    }
}

/// How many bytes a read into room for `room` bytes takes.
pub open spec fn read_count(contents: Seq<u8>, room: nat) -> nat {
    if contents.len() < room {
        contents.len()
    } else {
        room
    }
}

/// The bytes a read into room for `room` bytes hands out.
pub open spec fn read_taken(contents: Seq<u8>, room: nat) -> Seq<u8> {
    contents.take(read_count(contents, room) as int)
}

/// The contents left after such a read.
pub open spec fn read_rest(contents: Seq<u8>, room: nat) -> Seq<u8> {
    contents.skip(read_count(contents, room) as int)
}

/// The text that a lossy UTF-8 decoding of `bytes` gives.
pub uninterp spec fn lossy_text(bytes: Seq<u8>) -> Seq<char>;

/// Whether every byte is ASCII.
pub open spec fn all_ascii(bytes: Seq<u8>) -> bool {
    forall|i: int| 0 <= i < bytes.len() ==> bytes[i] < 128
}

/// Each ASCII byte as the character of the same code.
pub open spec fn ascii_chars(bytes: Seq<u8>) -> Seq<char> {
    bytes.map_values(|b: u8| b as char)
}

/// Relies on `String::from_utf8_lossy`: decodes the bytes, putting U+FFFD in
/// place of each invalid sequence; the result depends on the bytes alone,
/// valid UTF-8 (so ASCII) comes through unchanged, and no bytes give no
/// text.
#[verifier::external_body]
pub(crate) fn decode_lossy(bytes: &[u8]) -> (r: String)
    ensures
        r@ == lossy_text(bytes@),
        bytes@.len() == 0 ==> r@.len() == 0,
        all_ascii(bytes@) ==> r@ == ascii_chars(bytes@),
{
    String::from_utf8_lossy(bytes).into_owned()
}

impl View for Pipe {
    type V = Seq<u8>;

    open spec fn view(&self) -> Seq<u8> {
        self.buffer@
    }
}

impl Pipe {
    /// An empty pipe.
    pub fn new() -> (r: Self)
        ensures
            r@ == Seq::<u8>::empty(),
    {
        Pipe { buffer: Vec::new() }
    }

    /// Drops everything the pipe holds.
    pub fn clear(&mut self)
        ensures
            final(self)@ == Seq::<u8>::empty(),
    {
        self.buffer = Vec::new();
    }

    /// Appends `buf` and reports its whole length as written.
    pub fn write(&mut self, buf: &[u8]) -> (r: usize)
        ensures
            final(self)@ == appended(old(self)@, buf@),
            r == buf@.len(),
    {
        let mut i: usize = 0;
        while i < buf.len()
            invariant
                0 <= i <= buf@.len(),
                self@ == appended(old(self)@, buf@.take(i as int)),
            decreases buf@.len() - i,
        {
            self.buffer.push(buf[i]);
            i = i + 1;
            assert(buf@.take(i as int) == buf@.take(i - 1).push(buf@[i - 1]));
        }
        assert(buf@.take(i as int) == buf@);
        buf.len()
    }

    /// What the pipe holds, as text; invalid UTF-8 turns into U+FFFD
    /// rather than an error, since the writer is not trusted.
    pub fn to_text(&self) -> (r: String)
        ensures
            r@ == lossy_text(self@),
            self@.len() == 0 ==> r@.len() == 0,
            all_ascii(self@) ==> r@ == ascii_chars(self@),
    {
        decode_lossy(self.buffer.as_slice())
    }

    /// Nothing is held back, so there is nothing to flush.
    pub fn flush(&mut self) -> (r: Result<(), PipeError>)
        ensures
            r == Ok::<(), PipeError>(()),
            final(self)@ == old(self)@,
    {
        Ok(())
    }

    /// Moves bytes from the front of the pipe into `buf`, as many as fit,
    /// and returns how many; 0 once the pipe is empty.
    pub fn read(&mut self, buf: &mut [u8]) -> (r: usize)
        ensures
            r == read_count(old(self)@, old(buf)@.len()),
            final(buf)@.len() == old(buf)@.len(),
            final(buf)@.take(r as int) == read_taken(old(self)@, old(buf)@.len()),
            final(buf)@.skip(r as int) == old(buf)@.skip(r as int),
            final(self)@ == read_rest(old(self)@, old(buf)@.len()),
    {
        let n: usize = if self.buffer.len() < buf.len() {
            self.buffer.len()
        } else {
            buf.len()
        };
        let mut i: usize = 0;
        while i < n
            invariant
                0 <= i <= n,
                n <= self@.len(),
                n <= buf@.len(),
                self@ == old(self)@,
                buf@.len() == old(buf)@.len(),
                forall|j: int| 0 <= j < i ==> buf@[j] == self@[j],
                forall|j: int| i <= j < buf@.len() ==> buf@[j] == old(buf)@[j],
            decreases n - i,
        {
            buf[i] = self.buffer[i];
            i = i + 1;
        }
        let rest = self.buffer.split_off(n);
        self.buffer = rest;
        assert(buf@.take(n as int) =~= read_taken(old(self)@, old(buf)@.len()));
        assert(buf@.skip(n as int) =~= old(buf)@.skip(n as int));
        n
    }

    /// Refuses to move: a pipe is a passing stream, not a file with a
    /// position.
    pub fn seek(&mut self, pos: SeekPos) -> (r: Result<u64, PipeError>)
        ensures
            r == Err::<u64, PipeError>(PipeError::NotSeekable),
            final(self)@ == old(self)@,
    {
        Err(PipeError::NotSeekable)
    }

    /// Access time: a pipe keeps none, so always 0.
    pub fn last_accessed(&self) -> (r: u64)
        ensures
            r == 0,
    {
        0
    }

    /// Modification time: a pipe keeps none, so always 0.
    pub fn last_modified(&self) -> (r: u64)
        ensures
            r == 0,
    {
        0
    }

    /// Creation time: a pipe keeps none, so always 0.
    pub fn created_time(&self) -> (r: u64)
        ensures
            r == 0,
    {
        0
    }

    /// File size: a pipe reports 0, whatever it holds.
    pub fn size(&self) -> (r: u64)
        ensures
            r == 0,
    {
        0
    }

    /// Accepted and ignored: the contents stay as they are.
    pub fn set_len(&mut self, len: u64) -> (r: Result<(), PipeError>)
        ensures
            r == Ok::<(), PipeError>(()),
            final(self)@ == old(self)@,
    {
        Ok(())
    }

    /// Accepted and ignored: the contents stay as they are.
    pub fn unlink(&mut self) -> (r: Result<(), PipeError>)
        ensures
            r == Ok::<(), PipeError>(()),
            final(self)@ == old(self)@,
    {
        Ok(())
    }

    /// A fixed placeholder; callers must not take it for the unread count.
    pub fn bytes_available(&self) -> (r: Result<usize, PipeError>)
        ensures
            r == Ok::<usize, PipeError>(BYTES_AVAILABLE_PLACEHOLDER),
    {
        Ok(BYTES_AVAILABLE_PLACEHOLDER)
    }
}

/// Writes come back in order: a pipe that starts empty and takes any
/// sequence of writes holds their concatenation, a read with room for all of
/// it hands out exactly that and leaves the pipe empty, and once cleared the
/// pipe reads nothing.
pub proof fn lemma_append_clear_round_trip(writes: Seq<Seq<u8>>, room: nat)
    requires
        room >= writes.flatten().len(),
    ensures
        after_writes(Seq::<u8>::empty(), writes) == writes.flatten(),
        read_taken(after_writes(Seq::<u8>::empty(), writes), room) == writes.flatten(),
        read_rest(after_writes(Seq::<u8>::empty(), writes), room) == Seq::<u8>::empty(),
        read_count(Seq::<u8>::empty(), room) == 0,
{
    lemma_after_writes_flatten(writes);
    let all = writes.flatten();
    assert(all.take(all.len() as int) == all);
    assert(all.skip(all.len() as int) =~= Seq::<u8>::empty());
}

proof fn lemma_after_writes_flatten(writes: Seq<Seq<u8>>)
    ensures
        after_writes(Seq::<u8>::empty(), writes) == writes.flatten(),
    decreases writes.len(),
{
    writes.lemma_flatten_and_flatten_alt_are_equivalent();
    if writes.len() > 0 {
        lemma_after_writes_flatten(writes.drop_last());
        writes.drop_last().lemma_flatten_and_flatten_alt_are_equivalent();
    } else {
        assert(writes.flatten_alt() =~= Seq::<u8>::empty());
    }
}

} // verus!
