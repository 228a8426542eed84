//! Output captured from the standard streams during replay.

use vstd::prelude::*;

verus! {

/// Appends the bytes of `src` to `dst`.
pub fn append_bytes(dst: &mut Vec<u8>, src: &Vec<u8>)
    ensures
        final(dst)@ == old(dst)@ + src@,
{
    let mut j: usize = 0;
    while j < src.len()
        invariant
            0 <= j <= src@.len(),
            dst@ == old(dst)@ + src@.subrange(0, j as int),
        decreases src@.len() - j,
    {
        dst.push(src[j]);
        j += 1;
        assert(dst@ =~= old(dst)@ + src@.subrange(0, j as int));
    }
    assert(src@.subrange(0, src@.len() as int) =~= src@);
}

/// One growing byte buffer per standard stream.
pub struct StdioAccumulator {
    stdout: Vec<u8>,
    stderr: Vec<u8>,
}

impl StdioAccumulator {
    /// (captured output, captured error output)
    pub closed spec fn view(&self) -> (Seq<u8>, Seq<u8>) {
        (self.stdout@, self.stderr@)
    }

    pub fn new() -> (r: StdioAccumulator)
        ensures
            r@ == (Seq::<u8>::empty(), Seq::<u8>::empty()),
    {
        StdioAccumulator { stdout: Vec::new(), stderr: Vec::new() }
    }

    pub fn append_output(&mut self, bytes: &Vec<u8>)
        ensures
            final(self)@ == (old(self)@.0 + bytes@, old(self)@.1),
    {
        append_bytes(&mut self.stdout, bytes);
    }

    pub fn append_error(&mut self, bytes: &Vec<u8>)
        ensures
            final(self)@ == (old(self)@.0, old(self)@.1 + bytes@),
    {
        append_bytes(&mut self.stderr, bytes);
    }

    /// Empties both buffers.
    pub fn reset(&mut self)
        ensures
            final(self)@ == (Seq::<u8>::empty(), Seq::<u8>::empty()),
    {
        self.stdout.clear();
        self.stderr.clear();
    }

    /// A copy of both buffers.
    pub fn snapshot(&self) -> (r: (Vec<u8>, Vec<u8>))
        ensures
            (r.0@, r.1@) == self@,
    {
        (self.stdout.clone(), self.stderr.clone())
    }

    /// Hands out both buffers and leaves them empty.
    pub fn drain(&mut self) -> (r: (Vec<u8>, Vec<u8>))
        ensures
            (r.0@, r.1@) == old(self)@,
            final(self)@ == (Seq::<u8>::empty(), Seq::<u8>::empty()),
    {
        let r = (self.stdout.clone(), self.stderr.clone());
        self.reset();
        r
    }
}

} // verus!
