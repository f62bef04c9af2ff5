use vstd::prelude::*;

verus! {

/// A growable byte buffer that collects what was read from a stream.
pub struct DynamicBuffer {
    pub data: Vec<u8>,
}

impl DynamicBuffer {
    /// An empty buffer.
    pub fn new() -> (r: Self)
        ensures
            r.data@.len() == 0,
    {
        DynamicBuffer { data: Vec::new() }
    }

    /// Appends the bytes that one read from the stream returned (`chunk`), and returns how many
    /// there were.
    pub fn read_from_stream(&mut self, chunk: &[u8]) -> (r: usize)
        ensures
            final(self).data@ == old(self).data@ + chunk@,
            r == chunk@.len(),
    {
        let mut i: usize = 0;
        while i < chunk.len()
            invariant
                i <= chunk@.len(),
                self.data@ == old(self).data@ + chunk@.subrange(0, i as int),
            decreases chunk@.len() - i,
        {
            self.data.push(chunk[i]);
            i = i + 1;
            assert(chunk@.subrange(0, i as int) =~= chunk@.subrange(0, i - 1) + seq![chunk@[i - 1]]);
        }
        assert(chunk@.subrange(0, chunk@.len() as int) =~= chunk@);
        chunk.len()
    }

    /// Everything collected so far.
    pub fn as_bytes(&self) -> (r: &[u8])
        ensures
            r@ == self.data@,
    {
        self.data.as_slice()
    }
}

} // verus!
