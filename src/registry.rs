//! Which descriptors currently count as standard output or standard error.

use vstd::prelude::*;
use crate::idset::IdSet;

verus! {

/// Descriptor of the canonical standard output stream.
pub const STDOUT_FD: u32 = 1;

/// Descriptor of the canonical standard error stream.
pub const STDERR_FD: u32 = 2;

/// The registry's state right after a reset: only the canonical streams.
pub open spec fn canonical_markers() -> (Set<u32>, Set<u32>) {
    (set![STDOUT_FD], set![STDERR_FD])
}

/// Two disjoint sets of descriptors: those that behave as standard output,
/// and those that behave as standard error.
pub struct DescriptorRegistry {
    stdout_fds: IdSet,
    stderr_fds: IdSet,
}

impl DescriptorRegistry {
    /// (output-like descriptors, error-like descriptors)
    pub closed spec fn view(&self) -> (Set<u32>, Set<u32>) {
        (self.stdout_fds@, self.stderr_fds@)
    }

    pub closed spec fn wf(&self) -> bool {
        &&& self.stdout_fds.wf()
        &&& self.stderr_fds.wf()
        &&& self.stdout_fds@.disjoint(self.stderr_fds@)
    }

    /// A registry holding the canonical baseline.
    pub fn new() -> (r: DescriptorRegistry)
        ensures
            r.wf(),
            r@ == canonical_markers(),
    {
        let mut r = DescriptorRegistry { stdout_fds: IdSet::new(), stderr_fds: IdSet::new() };
        r.reset();
        r
    }

    /// Back to the canonical baseline: descriptor 1 for output, 2 for error,
    /// nothing else.
    pub fn reset(&mut self)
        ensures
            final(self).wf(),
            final(self)@ == canonical_markers(),
    {
        self.stdout_fds.clear();
        self.stderr_fds.clear();
        self.stdout_fds.insert(STDOUT_FD);
        self.stderr_fds.insert(STDERR_FD);
        assert(self.stdout_fds@ =~= set![STDOUT_FD]);
        assert(self.stderr_fds@ =~= set![STDERR_FD]);
    }

    /// Marks `fd` as output-like; it stops being error-like.
    pub fn mark_as_standard_output(&mut self, fd: u32)
        requires
            old(self).wf(),
        ensures
            final(self).wf(),
            final(self)@ == (old(self)@.0.insert(fd), old(self)@.1.remove(fd)),
    {
        self.stderr_fds.remove(fd);
        self.stdout_fds.insert(fd);
    }

    /// Marks `fd` as error-like; it stops being output-like.
    pub fn mark_as_standard_error(&mut self, fd: u32)
        requires
            old(self).wf(),
        ensures
            final(self).wf(),
            final(self)@ == (old(self)@.0.remove(fd), old(self)@.1.insert(fd)),
    {
        self.stdout_fds.remove(fd);
        self.stderr_fds.insert(fd);
    }

    /// `fd` is neither output-like nor error-like any more.
    pub fn unmark(&mut self, fd: u32)
        requires
            old(self).wf(),
        ensures
            final(self).wf(),
            final(self)@ == (old(self)@.0.remove(fd), old(self)@.1.remove(fd)),
    {
        self.stdout_fds.remove(fd);
        self.stderr_fds.remove(fd);
    }

    pub fn is_standard_output(&self, fd: u32) -> (r: bool)
        ensures
            r == self@.0.contains(fd),
    {
        self.stdout_fds.contains(fd)
    }

    pub fn is_standard_error(&self, fd: u32) -> (r: bool)
        ensures
            r == self@.1.contains(fd),
    {
        self.stderr_fds.contains(fd)
    }

    /// The output-like descriptors, in an unspecified order.
    pub fn output_descriptors(&self) -> (r: Vec<u32>)
        requires
            self.wf(),
        ensures
            r@.to_set() == self@.0,
            r@.no_duplicates(),
    {
        self.stdout_fds.to_vec()
    }

    /// The error-like descriptors, in an unspecified order.
    pub fn error_descriptors(&self) -> (r: Vec<u32>)
        requires
            self.wf(),
        ensures
            r@.to_set() == self@.1,
            r@.no_duplicates(),
    {
        self.stderr_fds.to_vec()
    }
}

} // verus!
