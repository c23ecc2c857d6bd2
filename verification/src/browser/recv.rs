//! The receiving half of a stream in the browser.

use bytes::Bytes;
use vstd::prelude::*;

use crate::payload::{as_slice, from_vec, payload};

verus! {

/// What comes of a read.
pub enum RecvStep<T> {
    /// This was read.
    Read(T),
    /// The stream has no more.
    End,
    /// The browser has to be asked for more first.
    Fill,
}

/// The receiving half of a stream.
pub struct RecvStream {
    // What the browser handed over and the application has not read.
    buffer: Bytes,
    // The browser has no more.
    fin: bool,
}

impl RecvStream {
    /// What has been handed over and not read.
    pub closed spec fn buffered(&self) -> Seq<u8> {
        payload(self.buffer)
    }

    /// Whether the browser has no more.
    pub closed spec fn finished(&self) -> bool {
        self.fin
    }

    /// A stream of which nothing has been read.
    pub fn new() -> (stream: Self)
        ensures
            stream.buffered() == Seq::<u8>::empty(),
            !stream.finished(),
    {
        RecvStream { buffer: Bytes::new(), fin: false }
    }

    /// Read a chunk of up to `max` bytes.
    pub fn poll_read_chunk(&mut self, max: usize) -> (step: RecvStep<Bytes>)
        ensures
            final(self).finished() == old(self).finished(),
            match step {
                RecvStep::Read(chunk) => {
                    &&& max == 0 || old(self).buffered().len() > 0
                    &&& payload(chunk).len() == least(max as nat, old(self).buffered().len())
                    &&& payload(chunk) + final(self).buffered() == old(self).buffered()
                },
                RecvStep::End => max > 0 && old(self).buffered().len() == 0 && old(self).finished()
                    && final(self).buffered() == old(self).buffered(),
                RecvStep::Fill => max > 0 && old(self).buffered().len() == 0 && !old(self).finished()
                    && final(self).buffered() == old(self).buffered(),
            },
    {
        let ghost before = self.buffered();
        // Asking for no bytes is not end of stream.
        if max == 0 {
            let chunk = Bytes::new();
            assert(payload(chunk) + self.buffered() =~= before);
            return RecvStep::Read(chunk);
        }
        if self.buffer.len() > 0 {
            let size: usize = if max < self.buffer.len() {
                max
            } else {
                self.buffer.len()
            };
            let chunk = self.buffer.split_to(size);
            assert(payload(chunk) + self.buffered() =~= before);
            return RecvStep::Read(chunk);
        }
        if self.fin {
            RecvStep::End
        } else {
            RecvStep::Fill
        }
    }

    /// Read into a slice, returning how many bytes were read.
    pub fn poll_read(&mut self, dst: &mut [u8]) -> (step: RecvStep<usize>)
        ensures
            final(dst)@.len() == old(dst)@.len(),
            final(self).finished() == old(self).finished(),
            match step {
                RecvStep::Read(size) => {
                    &&& old(dst)@.len() == 0 || old(self).buffered().len() > 0
                    &&& size == least(old(dst)@.len(), old(self).buffered().len())
                    &&& final(dst)@.take(size as int) + final(self).buffered() == old(self).buffered()
                    &&& final(dst)@.skip(size as int) == old(dst)@.skip(size as int)
                },
                RecvStep::End => old(dst)@.len() > 0 && old(self).buffered().len() == 0
                    && old(self).finished() && final(self).buffered() == old(self).buffered()
                    && final(dst)@ == old(dst)@,
                RecvStep::Fill => old(dst)@.len() > 0 && old(self).buffered().len() == 0
                    && !old(self).finished() && final(self).buffered() == old(self).buffered()
                    && final(dst)@ == old(dst)@,
            },
    {
        let ghost before = dst@;
        let chunk = match self.poll_read_chunk(dst.len()) {
            RecvStep::Read(chunk) => chunk,
            RecvStep::End => return RecvStep::End,
            RecvStep::Fill => return RecvStep::Fill,
        };
        let data = as_slice(&chunk);
        let mut index: usize = 0;
        while index < data.len()
            invariant
                data@ == payload(chunk),
                index <= data@.len() <= before.len(),
                dst@.len() == before.len(),
                dst@.take(index as int) == data@.take(index as int),
                dst@.skip(index as int) == before.skip(index as int),
            decreases data@.len() - index,
        {
            dst[index] = data[index];
            proof {
                let next = index + 1;
                assert(dst@.take(next) =~= data@.take(next)) by {
                    assert forall|k: int| 0 <= k < next implies dst@[k] == data@[k] by {
                        if k < index {
                            assert(dst@.take(index as int)[k] == data@.take(index as int)[k]);
                        }
                    }
                }
                assert(dst@.skip(next) =~= before.skip(next)) by {
                    assert forall|k: int| next <= k < before.len() implies dst@[k] == before[k] by {
                        assert(dst@.skip(index as int)[k - index] == before.skip(index as int)[k - index]);
                    }
                }
            }
            index = index + 1;
        }
        assert(data@.take(data@.len() as int) =~= data@);
        RecvStep::Read(chunk.len())
    }

    /// Take over what the browser handed over, or note that it has no more.
    pub fn filled(&mut self, data: Option<Vec<u8>>)
        requires
            old(self).buffered().len() == 0,
            !old(self).finished(),
        ensures
            final(self).buffered() == match data {
                Some(data) => data@,
                None => Seq::<u8>::empty(),
            },
            final(self).finished() == (data is None),
    {
        match data {
            Some(data) => {
                self.buffer = from_vec(data);
            },
            None => {
                self.fin = true;
                assert(self.buffered() =~= Seq::<u8>::empty());
            },
        }
    }
}

/// The lesser of two lengths.
pub open spec fn least(a: nat, b: nat) -> nat {
    if a < b {
        a
    } else {
        b
    }
}

/// A read takes as much as it asked for, or all that there is, from the front; what it does not
/// take is left, in order. It takes nothing, and ends or waits, exactly where nothing is left
/// although something was asked for: it ends where the browser has no more.
pub proof fn law_a_read_takes_from_the_front()
    ensures
        forall|stream: &mut RecvStream, max: usize, step: RecvStep<Bytes>|
            #[trigger] call_ensures(RecvStream::poll_read_chunk, (stream, max), step) ==> {
                let (before, after) = (stream.buffered(), final(stream).buffered());
                &&& step is Read <==> max == 0 || before.len() > 0
                &&& step is End <==> max > 0 && before.len() == 0 && stream.finished()
                &&& step is Read ==> {
                    let chunk = payload(step->Read_0);
                    &&& chunk.len() <= max && chunk.len() + after.len() == before.len()
                    &&& chunk.len() < max ==> after.len() == 0
                    &&& forall|i: int| 0 <= i < chunk.len() ==> chunk[i] == before[i]
                    &&& forall|i: int| 0 <= i < after.len() ==> after[i] == before[chunk.len() + i]
                }
                &&& !(step is Read) ==> after == before
                &&& final(stream).finished() == stream.finished()
            },
        forall|stream: &mut RecvStream, dst: &mut [u8], step: RecvStep<usize>|
            #[trigger] call_ensures(RecvStream::poll_read, (stream, dst), step) ==> {
                let (before, after) = (stream.buffered(), final(stream).buffered());
                &&& step is Read <==> dst@.len() == 0 || before.len() > 0
                &&& step is End <==> dst@.len() > 0 && before.len() == 0 && stream.finished()
                &&& final(dst)@.len() == dst@.len()
                &&& step is Read ==> {
                    let size = step->Read_0;
                    &&& size <= dst@.len() && size + after.len() == before.len()
                    &&& size < dst@.len() ==> after.len() == 0
                    &&& forall|i: int| 0 <= i < size ==> final(dst)@[i] == before[i]
                    &&& forall|i: int| size <= i < dst@.len() ==> final(dst)@[i] == dst@[i]
                    &&& forall|i: int| 0 <= i < after.len() ==> after[i] == before[size + i]
                }
                &&& !(step is Read) ==> after == before && final(dst)@ == dst@
                &&& final(stream).finished() == stream.finished()
            },
{
    assert forall|stream: &mut RecvStream, max: usize, step: RecvStep<Bytes>|
        #[trigger] call_ensures(RecvStream::poll_read_chunk, (stream, max), step) && step is Read implies {
        let (before, after) = (stream.buffered(), final(stream).buffered());
        let chunk = payload(step->Read_0);
        &&& forall|i: int| 0 <= i < chunk.len() ==> chunk[i] == before[i]
        &&& forall|i: int| 0 <= i < after.len() ==> after[i] == before[chunk.len() + i]
    } by {
        let (chunk, after) = (payload(step->Read_0), final(stream).buffered());
        assert(stream.buffered() == chunk + after);
    }
    assert forall|stream: &mut RecvStream, dst: &mut [u8], step: RecvStep<usize>|
        #[trigger] call_ensures(RecvStream::poll_read, (stream, dst), step) && step is Read implies {
        let (before, after) = (stream.buffered(), final(stream).buffered());
        let size = step->Read_0;
        &&& size + after.len() == before.len()
        &&& forall|i: int| 0 <= i < size ==> final(dst)@[i] == before[i]
        &&& forall|i: int| size <= i < dst@.len() ==> final(dst)@[i] == dst@[i]
        &&& forall|i: int| 0 <= i < after.len() ==> after[i] == before[size + i]
    } by {
        let (before, after) = (stream.buffered(), final(stream).buffered());
        let size = step->Read_0;
        let (head, tail) = (final(dst)@.take(size as int), final(dst)@.skip(size as int));
        assert(before == head + after);
        assert forall|i: int| 0 <= i < size implies final(dst)@[i] == before[i] by {
            assert(head[i] == final(dst)@[i]);
        }
        assert forall|i: int| size <= i < dst@.len() implies final(dst)@[i] == dst@[i] by {
            assert(tail[i - size] == final(dst)@[i]);
            assert(dst@.skip(size as int)[i - size] == dst@[i]);
        }
        assert forall|i: int| 0 <= i < after.len() implies after[i] == before[size + i] by {
            assert((head + after)[size + i] == after[i]);
        }
    }
}

/// What the browser hands over is read next, as it is; once it has no more, the stream ends.
pub proof fn law_what_the_browser_hands_over_is_read()
    ensures
        forall|stream: &mut RecvStream, data: Option<Vec<u8>>|
            #[trigger] call_ensures(RecvStream::filled, (stream, data), ()) ==> {
                &&& data is Some ==> final(stream).buffered() == data->0@ && !final(stream).finished()
                &&& data is None ==> final(stream).buffered().len() == 0 && final(stream).finished()
            },
        forall|stream: RecvStream|
            #[trigger] call_ensures(RecvStream::new, (), stream) ==> stream.buffered().len() == 0
                && !stream.finished(),
{
}

} // verus!
