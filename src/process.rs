//! The live process being rebuilt: its linear memory, its descriptor table
//! and the threads it was asked to re-create. Everything here is durable.

use vstd::prelude::*;
use crate::entry::ErrorKind;
use crate::stdio::append_bytes;

verus! {

/// What a descriptor refers to.
#[derive(Clone, Copy, Debug, PartialEq, Eq, Structural)]
pub enum DescriptorKind {
    File,
    Socket,
    Pipe,
    /// A standard stream that exists without an explicit open.
    Stdio,
}

impl DescriptorKind {
    /// The code of each kind in an encoded log.
    pub open spec fn spec_code(self) -> u32 {
        match self {
            DescriptorKind::File => 0,
            DescriptorKind::Socket => 1,
            DescriptorKind::Pipe => 2,
            DescriptorKind::Stdio => 3,
        }
    }

    /// Decodes a descriptor kind from an entry's payload; an unknown code
    /// makes the entry malformed.
    pub fn from_code(code: u32) -> (r: Result<DescriptorKind, ErrorKind>)
        ensures
            r is Ok <==> code < 4,
            r matches Ok(k) ==> k.spec_code() == code,
            r matches Err(e) ==> e == ErrorKind::DecodeError,
    {
        match code {
            0 => Ok(DescriptorKind::File),
            1 => Ok(DescriptorKind::Socket),
            2 => Ok(DescriptorKind::Pipe),
            3 => Ok(DescriptorKind::Stdio),
            _ => Err(ErrorKind::DecodeError),
        }
    }
}

/// One entry of the durable descriptor table.
pub struct Descriptor {
    pub fd: u32,
    pub kind: DescriptorKind,
    pub data: Vec<u8>,
}

/// The durable state of one descriptor: its kind and every byte written to it.
pub struct DescriptorState {
    pub kind: DescriptorKind,
    pub data: Seq<u8>,
}

/// `mem` with `data` written over it from `offset` on; bytes past the end of
/// `mem` are dropped, so the length never changes.
pub open spec fn write_at(mem: Seq<u8>, offset: int, data: Seq<u8>) -> Seq<u8> {
    Seq::new(
        mem.len(),
        |i: int|
            if offset <= i < offset + data.len() {
                data[i - offset]
            } else {
                mem[i]
            },
    )
}

/// A region of `len` bytes at `offset` lies inside memory of size `size`.
pub open spec fn region_in_bounds(size: int, offset: int, len: int) -> bool {
    0 <= offset && offset + len <= size
}

/// The descriptor table after `fd` is opened with `kind`: a descriptor that
/// is already there keeps what was written to it.
pub open spec fn opened(
    table: Map<u32, DescriptorState>,
    fd: u32,
    kind: DescriptorKind,
) -> Map<u32, DescriptorState> {
    let data = if table.contains_key(fd) {
        table[fd].data
    } else {
        Seq::<u8>::empty()
    };
    table.insert(fd, DescriptorState { kind, data })
}

/// The descriptor table after `data` is written to `fd`; a standard stream
/// that was never opened gets an entry of kind `Stdio`.
pub open spec fn written(table: Map<u32, DescriptorState>, fd: u32, data: Seq<u8>) -> Map<
    u32,
    DescriptorState,
> {
    if table.contains_key(fd) {
        table.insert(fd, DescriptorState { kind: table[fd].kind, data: table[fd].data + data })
    } else {
        table.insert(fd, DescriptorState { kind: DescriptorKind::Stdio, data })
    }
}

/// The live process that a replay drives.
pub struct ProcessImage {
    memory: Vec<u8>,
    descriptors: Vec<Descriptor>,
    threads: Vec<u32>,
}

impl Descriptor {
    pub open spec fn state(&self) -> DescriptorState {
        DescriptorState { kind: self.kind, data: self.data@ }
    }
}

impl ProcessImage {
    /// Linear memory.
    pub closed spec fn memory(&self) -> Seq<u8> {
        self.memory@
    }

    /// The descriptor table, by descriptor number.
    pub closed spec fn descriptors(&self) -> Map<u32, DescriptorState> {
        Map::new(
            |fd: u32| exists|i: int| 0 <= i < self.descriptors@.len() && self.descriptors@[i].fd == fd,
            |fd: u32|
                self.descriptors@[choose|i: int|
                    0 <= i < self.descriptors@.len() && self.descriptors@[i].fd == fd].state(),
        )
    }

    /// Threads whose re-creation was requested, in order of request.
    pub closed spec fn threads(&self) -> Seq<u32> {
        self.threads@
    }

    /// Each descriptor number appears at most once in the table.
    pub closed spec fn wf(&self) -> bool {
        forall|i: int, j: int|
            0 <= i < self.descriptors@.len() && 0 <= j < self.descriptors@.len() && i != j
                ==> self.descriptors@[i].fd != self.descriptors@[j].fd
    }

    /// A process with `size` bytes of zeroed memory, no descriptors and no threads.
    pub fn new(size: usize) -> (r: ProcessImage)
        ensures
            r.wf(),
            r.memory() == Seq::new(size as nat, |i: int| 0u8),
            r.descriptors() == Map::<u32, DescriptorState>::empty(),
            r.threads() == Seq::<u32>::empty(),
    {
        let memory = vec![0u8; size];
        let r = ProcessImage { memory, descriptors: Vec::new(), threads: Vec::new() };
        assert(r.memory() =~= Seq::new(size as nat, |i: int| 0u8));
        assert(r.descriptors() =~= Map::<u32, DescriptorState>::empty());
        r
    }

    /// A process whose memory starts as `memory`.
    pub fn from_memory(memory: Vec<u8>) -> (r: ProcessImage)
        ensures
            r.wf(),
            r.memory() == memory@,
            r.descriptors() == Map::<u32, DescriptorState>::empty(),
            r.threads() == Seq::<u32>::empty(),
    {
        let r = ProcessImage { memory, descriptors: Vec::new(), threads: Vec::new() };
        assert(r.descriptors() =~= Map::<u32, DescriptorState>::empty());
        r
    }

    pub fn memory_len(&self) -> (r: usize)
        ensures
            r == self.memory().len(),
    {
        self.memory.len()
    }

    /// A copy of linear memory.
    pub fn memory_bytes(&self) -> (r: Vec<u8>)
        ensures
            r@ == self.memory(),
    {
        self.memory.clone()
    }

    /// Threads whose re-creation was requested.
    pub fn requested_threads(&self) -> (r: Vec<u32>)
        ensures
            r@ == self.threads(),
    {
        self.threads.clone()
    }

    fn find(&self, fd: u32) -> (r: Option<usize>)
        requires
            self.wf(),
        ensures
            match r {
                Some(i) => i < self.descriptors@.len() && self.descriptors@[i as int].fd == fd,
                None => !self.descriptors().contains_key(fd),
            },
    {
        let mut i: usize = 0;
        while i < self.descriptors.len()
            invariant
                0 <= i <= self.descriptors@.len(),
                forall|j: int| 0 <= j < i ==> self.descriptors@[j].fd != fd,
            decreases self.descriptors@.len() - i,
        {
            if self.descriptors[i].fd == fd {
                return Some(i);
            }
            i += 1;
        }
        None
    }

    proof fn lemma_lookup(&self, i: int)
        requires
            self.wf(),
            0 <= i < self.descriptors@.len(),
        ensures
            self.descriptors().contains_key(self.descriptors@[i].fd),
            self.descriptors()[self.descriptors@[i].fd] == self.descriptors@[i].state(),
    {
        let fd = self.descriptors@[i].fd;
        assert(self.descriptors().contains_key(fd));
        let k = choose|k: int| 0 <= k < self.descriptors@.len() && self.descriptors@[k].fd == fd;
        assert(k == i);
    }

    /// Whether `fd` is in the descriptor table.
    pub fn has_descriptor(&self, fd: u32) -> (r: bool)
        requires
            self.wf(),
        ensures
            r == self.descriptors().contains_key(fd),
    {
        match self.find(fd) {
            Some(i) => {
                proof {
                    self.lemma_lookup(i as int);
                }
                true
            },
            None => false,
        }
    }

    /// The bytes written so far to `fd`, if it is in the table.
    pub fn descriptor_data(&self, fd: u32) -> (r: Option<Vec<u8>>)
        requires
            self.wf(),
        ensures
            match r {
                Some(v) => self.descriptors().contains_key(fd) && v@ == self.descriptors()[fd].data,
                None => !self.descriptors().contains_key(fd),
            },
    {
        match self.find(fd) {
            Some(i) => {
                proof {
                    self.lemma_lookup(i as int);
                }
                Some(self.descriptors[i].data.clone())
            },
            None => None,
        }
    }

    /// Writes `data` into memory at `offset`; refuses a region that does not
    /// lie inside memory and then changes nothing.
    pub fn write_memory(&mut self, offset: u64, data: &Vec<u8>) -> (r: Result<(), ()>)
        ensures
            r is Ok <==> region_in_bounds(old(self).memory().len() as int, offset as int, data@.len() as int),
            r is Ok ==> final(self).memory() == write_at(old(self).memory(), offset as int, data@),
            r is Err ==> final(self).memory() == old(self).memory(),
            final(self).descriptors() == old(self).descriptors(),
            final(self).threads() == old(self).threads(),
            final(self).wf() == old(self).wf(),
    {
        if offset as u128 > self.memory.len() as u128 || data.len() as u128 > self.memory.len() as u128 - offset as u128 {
            return Err(());
        }
        let start = offset as usize;
        let mut j: usize = 0;
        while j < data.len()
            invariant
                start as int + data@.len() <= self.memory@.len(),
                start == offset,
                0 <= j <= data@.len(),
                self.memory@.len() == old(self).memory@.len(),
                self.descriptors == old(self).descriptors,
                self.threads == old(self).threads,
                forall|i: int|
                    0 <= i < self.memory@.len() ==> #[trigger] self.memory@[i] == if start <= i < start + j {
                        data@[i - start]
                    } else {
                        old(self).memory@[i]
                    },
            decreases data@.len() - j,
        {
            assert(start + j < self.memory.len());
            self.memory.set(start + j, data[j]);
            j += 1;
        }
        assert(self.memory@ =~= write_at(old(self).memory@, offset as int, data@));
        Ok(())
    }

    /// Opens `fd` with `kind`; an existing descriptor keeps its contents.
    pub fn open_descriptor(&mut self, fd: u32, kind: DescriptorKind)
        requires
            old(self).wf(),
        ensures
            final(self).wf(),
            final(self).descriptors() == opened(old(self).descriptors(), fd, kind),
            final(self).memory() == old(self).memory(),
            final(self).threads() == old(self).threads(),
    {
        match self.find(fd) {
            Some(i) => {
                proof {
                    self.lemma_lookup(i as int);
                }
                let data = self.descriptors[i].data.clone();
                self.descriptors.set(i, Descriptor { fd, kind, data });
                proof {
                    self.lemma_table_set(old(self), i as int);
                }
            },
            None => {
                self.descriptors.push(Descriptor { fd, kind, data: Vec::new() });
                proof {
                    assert(self.descriptors@.drop_last() =~= old(self).descriptors@);
                    self.lemma_table_push(old(self));
                }
            },
        }
    }

    /// Appends `data` to what was written to `fd`.
    pub fn write_descriptor(&mut self, fd: u32, data: &Vec<u8>)
        requires
            old(self).wf(),
        ensures
            final(self).wf(),
            final(self).descriptors() == written(old(self).descriptors(), fd, data@),
            final(self).memory() == old(self).memory(),
            final(self).threads() == old(self).threads(),
    {
        match self.find(fd) {
            Some(i) => {
                proof {
                    self.lemma_lookup(i as int);
                }
                let mut d = self.descriptors[i].data.clone();
                let kind = self.descriptors[i].kind;
                append_bytes(&mut d, data);
                self.descriptors.set(i, Descriptor { fd, kind, data: d });
                proof {
                    self.lemma_table_set(old(self), i as int);
                }
            },
            None => {
                let d = data.clone();
                self.descriptors.push(Descriptor { fd, kind: DescriptorKind::Stdio, data: d });
                proof {
                    assert(self.descriptors@.drop_last() =~= old(self).descriptors@);
                    self.lemma_table_push(old(self));
                }
            },
        }
    }

    /// Removes `fd` from the descriptor table; its contents go with it.
    pub fn close_descriptor(&mut self, fd: u32)
        requires
            old(self).wf(),
        ensures
            final(self).wf(),
            final(self).descriptors() == old(self).descriptors().remove(fd),
            final(self).memory() == old(self).memory(),
            final(self).threads() == old(self).threads(),
    {
        match self.find(fd) {
            Some(i) => {
                self.descriptors.swap_remove(i);
                proof {
                    self.lemma_table_swap_remove(old(self), i as int);
                }
            },
            None => {
                assert(old(self).descriptors().remove(fd) =~= old(self).descriptors());
            },
        }
    }

    /// Asks for thread `id` to be re-created.
    pub fn spawn_thread(&mut self, id: u32)
        ensures
            final(self).threads() == old(self).threads().push(id),
            final(self).memory() == old(self).memory(),
            final(self).descriptors() == old(self).descriptors(),
            final(self).wf() == old(self).wf(),
    {
        self.threads.push(id);
    }

    proof fn lemma_table_set(&self, before: &ProcessImage, i: int)
        requires
            before.wf(),
            0 <= i < before.descriptors@.len(),
            self.descriptors@ == before.descriptors@.update(i, self.descriptors@[i]),
            self.descriptors@[i].fd == before.descriptors@[i].fd,
        ensures
            self.wf(),
            self.descriptors() == before.descriptors().insert(
                self.descriptors@[i].fd,
                self.descriptors@[i].state(),
            ),
    {
        let fd = self.descriptors@[i].fd;
        assert(self.wf());
        assert forall|j: int| 0 <= j < self.descriptors@.len() implies self.descriptors().contains_key(
            #[trigger] self.descriptors@[j].fd,
        ) && self.descriptors()[self.descriptors@[j].fd] == self.descriptors@[j].state() by {
            self.lemma_lookup(j);
        }
        assert forall|j: int| 0 <= j < before.descriptors@.len() implies before.descriptors().contains_key(
            #[trigger] before.descriptors@[j].fd,
        ) && before.descriptors()[before.descriptors@[j].fd] == before.descriptors@[j].state() by {
            before.lemma_lookup(j);
        }
        assert(self.descriptors() =~= before.descriptors().insert(fd, self.descriptors@[i].state())) by {
            assert forall|x: u32| #[trigger] self.descriptors().contains_key(x) <==> before.descriptors().insert(fd, self.descriptors@[i].state()).contains_key(x) by {
                if self.descriptors().contains_key(x) {
                    let k = choose|k: int| 0 <= k < self.descriptors@.len() && self.descriptors@[k].fd == x;
                    if k != i {
                        assert(before.descriptors@[k].fd == x);
                    }
                }
                if before.descriptors().contains_key(x) {
                    let k = choose|k: int| 0 <= k < before.descriptors@.len() && before.descriptors@[k].fd == x;
                    assert(self.descriptors@[k].fd == x);
                }
            }
            assert forall|x: u32| #[trigger] self.descriptors().contains_key(x) implies self.descriptors()[x] == before.descriptors().insert(fd, self.descriptors@[i].state())[x] by {
                let k = choose|k: int| 0 <= k < self.descriptors@.len() && self.descriptors@[k].fd == x;
                if k != i {
                    assert(before.descriptors@[k].fd == x);
                }
            }
        }
    }

    proof fn lemma_table_push(&self, before: &ProcessImage)
        requires
            before.wf(),
            self.descriptors@.len() == before.descriptors@.len() + 1,
            self.descriptors@.drop_last() == before.descriptors@,
            !before.descriptors().contains_key(self.descriptors@.last().fd),
        ensures
            self.wf(),
            self.descriptors() == before.descriptors().insert(
                self.descriptors@.last().fd,
                self.descriptors@.last().state(),
            ),
    {
        let n = before.descriptors@.len() as int;
        let fd = self.descriptors@[n].fd;
        assert forall|j: int| 0 <= j < n implies #[trigger] self.descriptors@[j] == before.descriptors@[j] by {
            assert(self.descriptors@.drop_last()[j] == self.descriptors@[j]);
        }
        assert forall|j: int| 0 <= j < n implies self.descriptors@[j].fd != fd by {
            assert(before.descriptors@[j].fd == self.descriptors@[j].fd);
        }
        assert(self.wf());
        assert forall|j: int| 0 <= j < self.descriptors@.len() implies self.descriptors().contains_key(
            #[trigger] self.descriptors@[j].fd,
        ) && self.descriptors()[self.descriptors@[j].fd] == self.descriptors@[j].state() by {
            self.lemma_lookup(j);
        }
        assert forall|j: int| 0 <= j < before.descriptors@.len() implies before.descriptors().contains_key(
            #[trigger] before.descriptors@[j].fd,
        ) && before.descriptors()[before.descriptors@[j].fd] == before.descriptors@[j].state() by {
            before.lemma_lookup(j);
        }
        assert(self.descriptors() =~= before.descriptors().insert(fd, self.descriptors@[n].state())) by {
            assert forall|x: u32| #[trigger] self.descriptors().contains_key(x) <==> before.descriptors().insert(fd, self.descriptors@[n].state()).contains_key(x) by {
                if self.descriptors().contains_key(x) {
                    let k = choose|k: int| 0 <= k < self.descriptors@.len() && self.descriptors@[k].fd == x;
                    if k != n {
                        assert(before.descriptors@[k].fd == x);
                    }
                }
                if before.descriptors().contains_key(x) {
                    let k = choose|k: int| 0 <= k < before.descriptors@.len() && before.descriptors@[k].fd == x;
                    assert(self.descriptors@[k].fd == x);
                }
            }
            assert forall|x: u32| #[trigger] self.descriptors().contains_key(x) implies self.descriptors()[x] == before.descriptors().insert(fd, self.descriptors@[n].state())[x] by {
                let k = choose|k: int| 0 <= k < self.descriptors@.len() && self.descriptors@[k].fd == x;
                if k != n {
                    assert(before.descriptors@[k].fd == x);
                }
            }
        }
    }

    proof fn lemma_table_swap_remove(&self, before: &ProcessImage, i: int)
        requires
            before.wf(),
            0 <= i < before.descriptors@.len(),
            self.descriptors@ == before.descriptors@.update(i, before.descriptors@.last()).drop_last(),
        ensures
            self.wf(),
            self.descriptors() == before.descriptors().remove(before.descriptors@[i].fd),
    {
        let n = before.descriptors@.len() - 1;
        let fd = before.descriptors@[i].fd;
        let pos = |k: int| if k == i { n } else { k };
        assert forall|k: int| 0 <= k < self.descriptors@.len() implies #[trigger] self.descriptors@[k] == before.descriptors@[pos(k)] by {}
        assert(self.wf()) by {
            assert forall|a: int, b: int| 0 <= a < self.descriptors@.len() && 0 <= b < self.descriptors@.len() && a != b implies self.descriptors@[a].fd != self.descriptors@[b].fd by {
                assert(self.descriptors@[a] == before.descriptors@[pos(a)]);
                assert(self.descriptors@[b] == before.descriptors@[pos(b)]);
            }
        }
        assert forall|j: int| 0 <= j < self.descriptors@.len() implies self.descriptors().contains_key(
            #[trigger] self.descriptors@[j].fd,
        ) && self.descriptors()[self.descriptors@[j].fd] == self.descriptors@[j].state() by {
            self.lemma_lookup(j);
        }
        assert forall|j: int| 0 <= j < before.descriptors@.len() implies before.descriptors().contains_key(
            #[trigger] before.descriptors@[j].fd,
        ) && before.descriptors()[before.descriptors@[j].fd] == before.descriptors@[j].state() by {
            before.lemma_lookup(j);
        }
        assert(self.descriptors() =~= before.descriptors().remove(fd)) by {
            assert forall|x: u32| #[trigger] self.descriptors().contains_key(x) <==> before.descriptors().remove(fd).contains_key(x) by {
                if self.descriptors().contains_key(x) {
                    let k = choose|k: int| 0 <= k < self.descriptors@.len() && self.descriptors@[k].fd == x;
                    assert(self.descriptors@[k] == before.descriptors@[pos(k)]);
                    assert(pos(k) != i);
                }
                if before.descriptors().contains_key(x) && x != fd {
                    let k = choose|k: int| 0 <= k < before.descriptors@.len() && before.descriptors@[k].fd == x;
                    assert(k != i);
                    if k == n {
                        if i < n {
                            assert(self.descriptors@[i] == before.descriptors@[n]);
                        }
                    } else {
                        assert(self.descriptors@[k] == before.descriptors@[k]);
                    }
                }
            }
            assert forall|x: u32| #[trigger] self.descriptors().contains_key(x) implies self.descriptors()[x] == before.descriptors().remove(fd)[x] by {
                let k = choose|k: int| 0 <= k < self.descriptors@.len() && self.descriptors@[k].fd == x;
                assert(self.descriptors@[k] == before.descriptors@[pos(k)]);
            }
        }
    }
}

} // verus!
