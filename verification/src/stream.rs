use vstd::prelude::*;

verus! {

/// An in-memory readable byte stream: a buffer together with a cursor.
/// Reads consume bytes from the cursor towards the end of the buffer.
pub struct ByteReader {
    data: Vec<u8>,
    pos: usize,
}

impl ByteReader {
    /// The whole underlying buffer.
    pub closed spec fn data(&self) -> Seq<u8> {
        self.data@
    }

    /// The cursor: how many bytes have been consumed so far.
    pub closed spec fn pos(&self) -> int {
        self.pos as int
    }

    pub open spec fn wf(&self) -> bool {
        0 <= self.pos() <= self.data().len()
    }

    /// The bytes not yet consumed.
    pub open spec fn remaining(&self) -> Seq<u8> {
        self.data().subrange(self.pos(), self.data().len() as int)
    }

    pub fn new(data: Vec<u8>) -> (r: ByteReader)
        ensures
            r.wf(),
            r.data() == data@,
            r.pos() == 0,
            r.remaining() == data@,
    {
        let r = ByteReader { data, pos: 0 };
        proof {
            assert(r.remaining() =~= r.data());
        }
        r
    }

    /// Reads every byte that has not been consumed yet, leaving the
    /// cursor at the end of the buffer.
    pub fn read_to_end(&mut self) -> (r: Vec<u8>)
        requires
            old(self).wf(),
        ensures
            final(self).wf(),
            final(self).data() == old(self).data(),
            final(self).remaining() == Seq::<u8>::empty(),
            r@ == old(self).remaining(),
    {
        let mut out: Vec<u8> = Vec::new();
        while self.pos < self.data.len()
            invariant
                self.wf(),
                self.data() == old(self).data(),
                old(self).pos() <= self.pos(),
                out@ == self.data().subrange(old(self).pos(), self.pos()),
            decreases self.data().len() - self.pos(),
        {
            out.push(self.data[self.pos]);
            self.pos = self.pos + 1;
            proof {
                assert(out@ =~= self.data().subrange(old(self).pos(), self.pos()));
            }
        }
        proof {
            assert(out@ =~= old(self).remaining());
            assert(self.remaining() =~= Seq::<u8>::empty());
        }
        out
    }
}

/// An in-memory writable byte stream that also answers position queries,
/// so that byte-written accounting can be computed around an encoding.
/// Writes append at the end; the position is the number of bytes written.
pub struct ByteWriter {
    data: Vec<u8>,
}

impl View for ByteWriter {
    type V = Seq<u8>;

    closed spec fn view(&self) -> Seq<u8> {
        self.data@
    }
}

impl ByteWriter {
    pub fn new() -> (r: ByteWriter)
        ensures
            r@ == Seq::<u8>::empty(),
    {
        let r = ByteWriter { data: Vec::new() };
        r
    }

    /// The current stream position, in bytes from the start.
    pub fn position(&self) -> (r: u64)
        ensures
            r == self@.len(),
    {
        self.data.len() as u64
    }

    /// Appends every byte of `buf` at the current position.
    pub fn write_all(&mut self, buf: &[u8])
        ensures
            final(self)@ == old(self)@ + buf@,
    {
        let mut i: usize = 0;
        while i < buf.len()
            invariant
                i <= buf@.len(),
                self@ == old(self)@ + buf@.subrange(0, i as int),
            decreases buf@.len() - i,
        {
            self.data.push(buf[i]);
            i = i + 1;
            proof {
                assert(self@ =~= old(self)@ + buf@.subrange(0, i as int));
            }
        }
        proof {
            assert(self@ =~= old(self)@ + buf@);
        }
    }

    /// Gives the written bytes back, consuming the writer.
    pub fn into_inner(self) -> (r: Vec<u8>)
        ensures
            r@ == self@,
    {
        self.data
    }
}

} // verus!
