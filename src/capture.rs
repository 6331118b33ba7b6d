//! One captured output stream: the bytes read from a child's pipe, kept in
//! memory, and how many of them have been written to the stream's log file.
use vstd::prelude::*;

verus! {

/// An append-only buffer paired with the progress of its copy on disk.
///
/// Whoever drains the pipe hands each chunk to `append`, writes what `pending`
/// returns to the log file, and reports each accepted write with
/// `mark_written`. The log file then only ever holds a prefix of the buffer, and
/// `into_bytes` gives the buffer back only once the two hold the same bytes.
pub struct Capture {
    bytes: Vec<u8>,
    written: usize,
}

impl Capture {
    /// Everything received so far.
    pub closed spec fn memory(&self) -> Seq<u8> {
        self.bytes@
    }

    /// What the log file holds: the received bytes that were written.
    pub closed spec fn on_disk(&self) -> Seq<u8> {
        self.bytes@.take(self.written as int)
    }

    pub closed spec fn wf(&self) -> bool {
        self.written <= self.bytes@.len()
    }

    /// The bytes received but not yet written to the log file.
    pub open spec fn unwritten(&self) -> Seq<u8> {
        self.memory().skip(self.on_disk().len() as int)
    }

    /// The log file holds a prefix of what was received.
    pub proof fn lemma_disk_is_prefix(&self)
        requires
            self.wf(),
        ensures
            self.on_disk().len() <= self.memory().len(),
            self.on_disk() == self.memory().take(self.on_disk().len() as int),
            self.on_disk() + self.unwritten() == self.memory(),
    {
        assert(self.on_disk() + self.unwritten() =~= self.memory());
    }

    /// An empty capture with nothing written.
    pub fn new() -> (c: Capture)
        ensures
            c.wf(),
            c.memory() == Seq::<u8>::empty(),
            c.on_disk() == Seq::<u8>::empty(),
    {
        let c = Capture { bytes: Vec::new(), written: 0 };
        assert(c.on_disk() =~= Seq::<u8>::empty());
        c
    }

    /// Records a chunk read from the pipe.
    pub fn append(&mut self, chunk: &[u8])
        requires
            old(self).wf(),
        ensures
            final(self).wf(),
            final(self).memory() == old(self).memory() + chunk@,
            final(self).on_disk() == old(self).on_disk(),
    {
        let mut i: usize = 0;
        while i < chunk.len()
            invariant
                self.written <= old(self).bytes@.len(),
                self.written == old(self).written,
                i <= chunk@.len(),
                self.bytes@ == old(self).bytes@ + chunk@.take(i as int),
            decreases chunk@.len() - i,
        {
            self.bytes.push(chunk[i]);
            assert(chunk@.take(i + 1) =~= chunk@.take(i as int).push(chunk@[i as int]));
            i = i + 1;
        }
        assert(chunk@.take(i as int) =~= chunk@);
        assert(self.bytes@.take(self.written as int) =~= old(self).bytes@.take(
            self.written as int,
        ));
    }

    /// The bytes still to be written to the log file, in order.
    pub fn pending(&self) -> (r: Vec<u8>)
        requires
            self.wf(),
        ensures
            r@ == self.unwritten(),
    {
        let mut r: Vec<u8> = Vec::new();
        let mut i: usize = self.written;
        while i < self.bytes.len()
            invariant
                self.written <= i <= self.bytes@.len(),
                r@ == self.bytes@.subrange(self.written as int, i as int),
            decreases self.bytes@.len() - i,
        {
            r.push(self.bytes[i]);
            assert(self.bytes@.subrange(self.written as int, i + 1) =~= self.bytes@.subrange(
                self.written as int,
                i as int,
            ).push(self.bytes@[i as int]));
            i = i + 1;
        }
        assert(r@ =~= self.unwritten());
        r
    }

    /// Records that the first `n` pending bytes reached the log file. A count
    /// larger than what is pending is refused, and nothing changes.
    pub fn mark_written(&mut self, n: usize) -> (accepted: bool)
        requires
            old(self).wf(),
        ensures
            final(self).wf(),
            accepted == (n <= old(self).unwritten().len()),
            final(self).memory() == old(self).memory(),
            accepted ==> final(self).on_disk() == old(self).on_disk() + old(self).unwritten().take(
                n as int,
            ),
            !accepted ==> final(self).on_disk() == old(self).on_disk(),
    {
        if n > self.bytes.len() - self.written {
            return false;
        }
        self.written = self.written + n;
        assert(self.bytes@.take(self.written as int) =~= old(self).on_disk()
            + old(self).unwritten().take(n as int));
        true
    }

    /// Whether the log file holds every byte received.
    pub fn is_synced(&self) -> (r: bool)
        requires
            self.wf(),
        ensures
            r == (self.on_disk() == self.memory()),
    {
        proof {
            if self.written < self.bytes@.len() {
                assert(self.on_disk().len() != self.memory().len());
            } else {
                assert(self.on_disk() =~= self.memory());
            }
        }
        self.written == self.bytes.len()
    }

    /// The captured bytes, once the log file holds all of them; otherwise the
    /// number of bytes not yet written.
    pub fn into_bytes(self) -> (r: Result<Vec<u8>, usize>)
        requires
            self.wf(),
        ensures
            r matches Ok(b) ==> b@ == self.memory() && self.on_disk() == self.memory(),
            r matches Err(n) ==> n > 0 && n == self.unwritten().len(),
            r is Ok <==> self.on_disk() == self.memory(),
    {
        if self.is_synced() {
            Ok(self.bytes)
        } else {
            assert(self.on_disk().len() == self.written);
            assert(self.written < self.bytes@.len()) by {
                if self.written == self.bytes@.len() {
                    assert(self.on_disk() =~= self.memory());
                }
            }
            Err(self.bytes.len() - self.written)
        }
    }
}

} // verus!
