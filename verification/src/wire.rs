//! In-memory byte-stream transcript.
//!
//! The protocol drivers in this crate are written against [`Channel`],
//! a replayable transcript of one exchange with the device: `incoming`
//! holds the bytes the device has made available (consumed from the
//! front by a cursor), `outgoing` accumulates every byte the host
//! writes.  The embedding application pumps a real port by sending the
//! newly appended `outgoing` bytes and appending freshly received bytes
//! to `incoming`; a read past the end of `incoming` is the transcript's
//! analogue of a transport timeout and is reported as [`MtkError::Io`].

use vstd::prelude::*;

use crate::error::MtkError;

verus! {

/// A replayable transcript of a byte exchange: device-to-host bytes in
/// `incoming` (read from `pos`), host-to-device bytes in `outgoing`.
pub struct Channel {
    pub incoming: Vec<u8>,
    pub pos: usize,
    pub outgoing: Vec<u8>,
}

impl Channel {
    /// The read cursor never passes the end of `incoming`.
    pub open spec fn wf(self) -> bool {
        self.pos <= self.incoming@.len()
    }

    /// Device bytes not yet consumed.
    pub open spec fn rest(self) -> Seq<u8> {
        self.incoming@.skip(self.pos as int)
    }

    /// Number of device bytes not yet consumed.
    pub open spec fn avail(self) -> int {
        self.incoming@.len() - self.pos
    }

    /// Fresh transcript over the given device bytes.
    pub fn new(incoming: Vec<u8>) -> (r: Channel)
        ensures
            r.wf(),
            r.incoming@ == incoming@,
            r.pos == 0,
            r.outgoing@ == Seq::<u8>::empty(),
    {
        Channel { incoming, pos: 0, outgoing: Vec::new() }
    }

    /// Consumes exactly `n` device bytes, or fails without consuming
    /// any when fewer are available.
    pub fn read_exact(&mut self, n: usize) -> (r: Result<Vec<u8>, MtkError>)
        requires
            old(self).wf(),
        ensures
            final(self).wf(),
            final(self).incoming@ == old(self).incoming@,
            final(self).outgoing@ == old(self).outgoing@,
            old(self).avail() >= n ==> {
                &&& r is Ok
                &&& r->Ok_0@ == old(self).rest().take(n as int)
                &&& final(self).pos == old(self).pos + n
            },
            old(self).avail() < n ==> {
                &&& r == Result::<Vec<u8>, MtkError>::Err(MtkError::Io)
                &&& final(self).pos == old(self).pos
            },
    {
        if n > self.incoming.len() - self.pos {
            return Err(MtkError::Io);
        }
        let end: usize = self.pos + n;
        let mut buf: Vec<u8> = Vec::new();
        let mut i: usize = self.pos;
        while i < end
            invariant
                self.pos <= i <= end,
                end <= self.incoming@.len(),
                buf@ == self.incoming@.subrange(self.pos as int, i as int),
            decreases end - i,
        {
            buf.push(self.incoming[i]);
            proof {
                assert(buf@ =~= self.incoming@.subrange(self.pos as int, i + 1));
            }
            i = i + 1;
        }
        proof {
            assert(buf@ =~= self.rest().take(n as int));
        }
        self.pos = end;
        Ok(buf)
    }

    /// Consumes one device byte, or fails without consuming when none
    /// is available.
    pub fn read_byte(&mut self) -> (r: Result<u8, MtkError>)
        requires
            old(self).wf(),
        ensures
            final(self).wf(),
            final(self).incoming@ == old(self).incoming@,
            final(self).outgoing@ == old(self).outgoing@,
            old(self).avail() >= 1 ==> {
                &&& r == Result::<u8, MtkError>::Ok(old(self).rest()[0])
                &&& final(self).pos == old(self).pos + 1
            },
            old(self).avail() < 1 ==> {
                &&& r == Result::<u8, MtkError>::Err(MtkError::Io)
                &&& final(self).pos == old(self).pos
            },
    {
        if self.pos < self.incoming.len() {
            let b = self.incoming[self.pos];
            self.pos = self.pos + 1;
            Ok(b)
        } else {
            Err(MtkError::Io)
        }
    }

    /// Appends host bytes to the transcript; writing cannot fail.
    pub fn write_all(&mut self, data: &[u8])
        requires
            old(self).wf(),
        ensures
            final(self).wf(),
            final(self).incoming@ == old(self).incoming@,
            final(self).pos == old(self).pos,
            final(self).outgoing@ == old(self).outgoing@ + data@,
    {
        let mut i: usize = 0;
        while i < data.len()
            invariant
                i <= data@.len(),
                self.incoming@ == old(self).incoming@,
                self.pos == old(self).pos,
                self.outgoing@ == old(self).outgoing@ + data@.take(i as int),
            decreases data@.len() - i,
        {
            self.outgoing.push(data[i]);
            proof {
                assert(old(self).outgoing@ + data@.take(i + 1)
                    =~= old(self).outgoing@ + data@.take(i as int) + seq![data@[i as int]]);
            }
            i = i + 1;
        }
        proof {
            assert(data@.take(data@.len() as int) =~= data@);
        }
    }

    /// Appends a single host byte.
    pub fn write_byte(&mut self, b: u8)
        requires
            old(self).wf(),
        ensures
            final(self).wf(),
            final(self).incoming@ == old(self).incoming@,
            final(self).pos == old(self).pos,
            final(self).outgoing@ == old(self).outgoing@ + seq![b],
    {
        self.outgoing.push(b);
    }
}

} // verus!
