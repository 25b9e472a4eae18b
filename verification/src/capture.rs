//! Capped capture of a workload's stdout and stderr: the buffer keeps the
//! first bytes written, up to its cap, and refuses writes once full.

use vstd::prelude::*;

verus! {

/// Refusal of a write to a full capture buffer (the stream is closed).
#[derive(Debug, Clone, Copy, PartialEq, Eq, Structural)]
pub struct StreamClosed;

/// The contents after writing `bytes` to a capture holding `held` under `cap`.
pub open spec fn after_write(held: Seq<u8>, cap: nat, bytes: Seq<u8>) -> Seq<u8> {
    if held.len() >= cap {
        held
    } else if bytes.len() <= cap - held.len() {
        held + bytes
    } else {
        held + bytes.take(cap - held.len())
    }
}

/// The contents after the writes `writes`, in order, to an empty capture.
pub open spec fn captured(writes: Seq<Seq<u8>>, cap: nat) -> Seq<u8>
    decreases writes.len(),
{
    if writes.len() == 0 {
        Seq::empty()
    } else {
        after_write(captured(writes.drop_last(), cap), cap, writes.last())
    }
}

/// All bytes of `writes`, one write after the other.
pub open spec fn concat_writes(writes: Seq<Seq<u8>>) -> Seq<u8>
    decreases writes.len(),
{
    if writes.len() == 0 {
        Seq::empty()
    } else {
        concat_writes(writes.drop_last()) + writes.last()
    }
}

/// The first `n` bytes of `s`, or all of `s` if it is shorter.
pub open spec fn first_bytes(s: Seq<u8>, n: nat) -> Seq<u8> {
    if s.len() <= n {
        s
    } else {
        s.take(n as int)
    }
}

/// Law: whatever writes the workload makes, the capture holds exactly the
/// first `cap` bytes of everything it wrote (all of it when that is less).
pub proof fn lemma_capture_keeps_first_bytes(writes: Seq<Seq<u8>>, cap: nat)
    ensures
        captured(writes, cap) == first_bytes(concat_writes(writes), cap),
    decreases writes.len(),
{
    if writes.len() > 0 {
        let w = writes.drop_last();
        lemma_capture_keeps_first_bytes(w, cap);
        let prev = concat_writes(w);
        let b = writes.last();
        let all = prev + b;
        assert(concat_writes(writes) == all);
        let held = first_bytes(prev, cap);
        if prev.len() >= cap {
            assert(held.len() == cap);
            assert(first_bytes(all, cap) =~= held);
        } else {
            assert(held == prev);
            if b.len() <= cap - prev.len() {
                assert(first_bytes(all, cap) =~= held + b);
            } else {
                assert(first_bytes(all, cap) =~= held + b.take(cap - prev.len()));
            }
        }
    } else {
        assert(first_bytes(Seq::<u8>::empty(), cap) =~= Seq::<u8>::empty());
    }
}

/// An in-memory writer that stops accepting data after a limit.
#[derive(Debug)]
pub struct WriteCapped {
    buf: Vec<u8>,
    max_bytes: usize,
}

impl WriteCapped {
    /// The bytes captured so far.
    pub closed spec fn contents(self) -> Seq<u8> {
        self.buf@
    }

    /// The cap in bytes.
    pub closed spec fn cap(self) -> usize {
        self.max_bytes
    }

    #[verifier::type_invariant]
    closed spec fn within_cap(self) -> bool {
        self.buf@.len() <= self.max_bytes
    }

    /// An empty capture with the given cap.
    pub fn new(max_bytes: usize) -> (r: Self)
        ensures
            r.contents() == Seq::<u8>::empty(),
            r.cap() == max_bytes,
    {
        WriteCapped { buf: Vec::new(), max_bytes }
    }

    /// Append as much of `bytes` as fits under the cap; a full capture
    /// refuses the write and stays unchanged.
    pub fn write(&mut self, bytes: &[u8]) -> (r: Result<(), StreamClosed>)
        ensures
            final(self).cap() == old(self).cap(),
            final(self).contents() == after_write(
                old(self).contents(),
                old(self).cap() as nat,
                bytes@,
            ),
            r is Err <==> old(self).contents().len() >= old(self).cap(),
            final(self).contents().len() <= final(self).cap(),
    {
        proof {
            use_type_invariant(&*self);
        }
        let remaining = self.max_bytes.saturating_sub(self.buf.len());
        if remaining == 0 {
            return Err(StreamClosed);
        }
        let to_write = if bytes.len() < remaining {
            bytes.len()
        } else {
            remaining
        };
        let mut v: Vec<u8> = Vec::new();
        std::mem::swap(&mut v, &mut self.buf);
        let ghost held = v@;
        let mut i: usize = 0;
        while i < to_write
            invariant
                to_write <= bytes@.len(),
                i <= to_write,
                v@ == held + bytes@.take(i as int),
            decreases to_write - i,
        {
            v.push(bytes[i]);
            proof {
                assert(v@ =~= held + bytes@.take(i + 1));
            }
            i = i + 1;
        }
        proof {
            if bytes@.len() <= self.max_bytes - held.len() {
                assert(bytes@.take(to_write as int) =~= bytes@);
            }
        }
        self.buf = v;
        Ok(())
    }

    /// Flushing has nothing to do.
    pub fn flush(&mut self) -> (r: Result<(), StreamClosed>)
        ensures
            r is Ok,
            final(self).contents() == old(self).contents(),
            final(self).cap() == old(self).cap(),
    {
        Ok(())
    }

    /// How many bytes may still be written; a full capture is closed.
    pub fn check_write(&self) -> (r: Result<usize, StreamClosed>)
        ensures
            self.contents().len() >= self.cap() ==> r is Err,
            self.contents().len() < self.cap() ==> r == Ok::<usize, StreamClosed>(
                (self.cap() - self.contents().len()) as usize,
            ),
    {
        proof {
            use_type_invariant(self);
        }
        let remaining = self.max_bytes.saturating_sub(self.buf.len());
        if remaining == 0 {
            return Err(StreamClosed);
        }
        Ok(remaining)
    }

    /// The captured bytes.
    pub fn into_bytes(self) -> (r: Vec<u8>)
        ensures
            r@ == self.contents(),
            r@.len() <= self.cap(),
    {
        proof {
            use_type_invariant(&self);
        }
        self.buf
    }
}

} // verus!
