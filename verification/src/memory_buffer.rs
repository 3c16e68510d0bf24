//! Memory buffers that a guest asks its host for, by small numeric id.
//!
//! The host side keeps at most [`SIMULTANEOUS_IDS`] buffers; ids run from 1,
//! and 0 means that no buffer could be given.
use vstd::prelude::*;
use std::collections::HashMap;

verus! {

broadcast use vstd::std_specs::hash::group_hash_axioms;

/// How many buffers may exist at once.
pub const SIMULTANEOUS_IDS: usize = 4;

/// The largest buffer a guest may ask for, in bytes.
pub const MAX_BUFFER_SIZE: u16 = 1024;

/// `size` zero bytes.
pub open spec fn zeros(size: nat) -> Seq<u8> {
    Seq::new(size, |i: int| 0u8)
}

/// Whether `id` is one that the manager can hand out.
pub open spec fn valid_id(id: u8) -> bool {
    1 <= id <= SIMULTANEOUS_IDS
}

/// The host-side keeper of the buffers.
pub struct MemoryBufferManager {
    free_ids: [bool; 4],
    buffers: HashMap<u8, Vec<u8>>,
}

impl View for MemoryBufferManager {
    /// The contents of each buffer in use, by id.
    type V = Map<u8, Seq<u8>>;

    closed spec fn view(&self) -> Map<u8, Seq<u8>> {
        self.buffers@.map_values(|v: Vec<u8>| v@)
    }
}

impl MemoryBufferManager {
    /// The ids in use are exactly those with a buffer, and all are valid.
    pub closed spec fn wf(&self) -> bool {
        &&& forall|id: u8| #[trigger] self.buffers@.contains_key(id) ==> valid_id(id)
        &&& forall|k: int|
            0 <= k < SIMULTANEOUS_IDS ==> (#[trigger] self.free_ids@[k] <==> !self.buffers@.contains_key(
                (k + 1) as u8,
            ))
    }

    /// A manager with no buffer in use.
    pub fn new() -> (res: Self)
        ensures
            res.wf(),
            res@ == Map::<u8, Seq<u8>>::empty(),
    {
        let res = MemoryBufferManager { free_ids: [true, true, true, true], buffers: HashMap::new() };
        assert(res@ =~= Map::<u8, Seq<u8>>::empty());
        res
    }

    /// Hands out the lowest free id with a zeroed buffer of `size` bytes,
    /// or 0 when all ids are in use.
    pub fn allocate(&mut self, size: u16) -> (res: u8)
        requires
            old(self).wf(),
        ensures
            final(self).wf(),
            res == 0 <==> (forall|id: u8| valid_id(id) ==> old(self)@.contains_key(id)),
            res == 0 ==> final(self)@ == old(self)@,
            res != 0 ==> {
                &&& valid_id(res)
                &&& !old(self)@.contains_key(res)
                &&& forall|id: u8| 1 <= id < res ==> old(self)@.contains_key(id)
                &&& final(self)@ == old(self)@.insert(res, zeros(size as nat))
            },
    {
        let free = self.free_ids;
        let mut index: usize = 0;
        while index < SIMULTANEOUS_IDS
            invariant
                index <= SIMULTANEOUS_IDS,
                forall|k: int| 0 <= k < index ==> !(#[trigger] free@[k]),
            ensures
                index <= SIMULTANEOUS_IDS,
                forall|k: int| 0 <= k < index ==> !(#[trigger] free@[k]),
                index < SIMULTANEOUS_IDS ==> free@[index as int],
            decreases SIMULTANEOUS_IDS - index,
        {
            if free[index] {
                break;
            }
            index = index + 1;
        }
        if index == SIMULTANEOUS_IDS {
            assert forall|id: u8| valid_id(id) implies self@.contains_key(id) by {
                assert(!free@[id - 1]);
            }
            return 0;
        }
        let ghost old_buffers = self.buffers@;
        self.free_ids[index] = false;
        let id = (index as u8) + 1;
        let buffer = vec_of_zeros(size);
        self.buffers.insert(id, buffer);
        assert(self@ =~= old(self)@.insert(id, zeros(size as nat)));
        assert forall|id2: u8| 1 <= id2 < id implies old(self)@.contains_key(id2) by {
            assert(!free@[id2 - 1]);
        }
        assert(!old(self)@.contains_key(id));
        assert(valid_id(id));
        assert(!(forall|id3: u8| valid_id(id3) ==> old(self)@.contains_key(id3)));
        id
    }

    /// Frees the buffer `id` and returns its contents.
    pub fn dealloc(&mut self, id: u8) -> (res: Vec<u8>)
        requires
            old(self).wf(),
            old(self)@.contains_key(id),
        ensures
            final(self).wf(),
            res@ == old(self)@[id],
            final(self)@ == old(self)@.remove(id),
    {
        let index = (id - 1) as usize;
        self.free_ids[index] = true;
        let content = self.buffers.remove(&id);
        match content {
            Some(c) => {
                assert(self@ =~= old(self)@.remove(id));
                c
            },
            None => {
                proof {
                    assert(false);
                }
                Vec::new()
            },
        }
    }

    /// Reads the buffer `id`, which is freed.
    pub fn read(&mut self, id: u8) -> (res: Vec<u8>)
        requires
            old(self).wf(),
            old(self)@.contains_key(id),
        ensures
            final(self).wf(),
            res@ == old(self)@[id],
            final(self)@ == old(self)@.remove(id),
    {
        self.dealloc(id)
    }
}

/// Reading a buffer right after it was handed out gives `size` zero bytes
/// and leaves the manager as it was before.
pub proof fn lemma_read_after_allocate(before: Map<u8, Seq<u8>>, size: u16, id: u8)
    requires
        !before.contains_key(id),
    ensures
        before.insert(id, zeros(size as nat)).contains_key(id),
        before.insert(id, zeros(size as nat))[id] == zeros(size as nat),
        before.insert(id, zeros(size as nat)).remove(id) == before,
{
    assert(before.insert(id, zeros(size as nat)).remove(id) =~= before);
}

/// `size` zero bytes.
fn vec_of_zeros(size: u16) -> (res: Vec<u8>)
    ensures
        res@ == zeros(size as nat),
{
    let mut v: Vec<u8> = Vec::new();
    let mut i: u16 = 0;
    while i < size
        invariant
            i <= size,
            v@ == zeros(i as nat),
        decreases size - i,
    {
        v.push(0);
        assert(v@ =~= zeros((i + 1) as nat));
        i = i + 1;
    }
    v
}

/// A buffer that a guest read from its host, asked for with
/// [`new`](Self::new) and read once.
pub struct MemoryBuffer {
    id: u8,
}

impl View for MemoryBuffer {
    /// The id that the host gave; 0 once the buffer has been read or released.
    type V = u8;

    closed spec fn view(&self) -> u8 {
        self.id
    }
}

/// Why a guest got no buffer.
#[derive(Debug, PartialEq, Eq, Clone, Copy, Structural)]
pub enum MemoryBufferCreateError {
    SizeCannotBeLargerThan1Kb,
    SimultaneousBufferLimitReached,
}

impl MemoryBuffer {
    /// The buffer's id; 0 once it has been read.
    pub fn id(&self) -> (res: u8)
        ensures
            res == self@,
    {
        self.id
    }

    /// Asks the host, through `alloc_memory_buffer`, for a buffer of `size`
    /// bytes. Sizes above [`MAX_BUFFER_SIZE`] are refused without asking;
    /// an id of 0 from the host means that its ids are all in use.
    pub fn new<F: FnOnce(u16) -> u8>(size: u16, alloc_memory_buffer: F) -> (res: Result<
        Self,
        MemoryBufferCreateError,
    >)
        requires
            size <= MAX_BUFFER_SIZE ==> call_requires(alloc_memory_buffer, (size,)),
        ensures
            size > MAX_BUFFER_SIZE ==> res == Err::<Self, MemoryBufferCreateError>(
                MemoryBufferCreateError::SizeCannotBeLargerThan1Kb,
            ),
            size <= MAX_BUFFER_SIZE ==> exists|id: u8|
                {
                    &&& call_ensures(alloc_memory_buffer, (size,), id)
                    &&& id == 0 ==> res == Err::<Self, MemoryBufferCreateError>(
                        MemoryBufferCreateError::SimultaneousBufferLimitReached,
                    )
                    &&& id != 0 ==> (res matches Ok(b) && b@ == id)
                },
    {
        if size > MAX_BUFFER_SIZE {
            return Err(MemoryBufferCreateError::SizeCannotBeLargerThan1Kb);
        }
        let id = alloc_memory_buffer(size);
        if id == 0 {
            return Err(MemoryBufferCreateError::SimultaneousBufferLimitReached);
        }
        Ok(MemoryBuffer { id })
    }

    /// Reads the buffer through `read_memory_buffer`, which the host answers
    /// by freeing it; the buffer then holds id 0 and needs no release.
    pub fn read<F: FnOnce(u8) -> Vec<u8>>(&mut self, read_memory_buffer: F) -> (res: Vec<u8>)
        requires
            call_requires(read_memory_buffer, (old(self)@,)),
        ensures
            call_ensures(read_memory_buffer, (old(self)@,), res),
            final(self)@ == 0,
    {
        let content = read_memory_buffer(self.id);
        self.id = 0;
        content
    }

    /// Gives the buffer back through `dealloc_memory_buffer`, unless it was
    /// read already (id 0), in which case nothing is called.
    pub fn release<F: FnOnce(u8)>(&mut self, dealloc_memory_buffer: F) -> (called: bool)
        requires
            old(self)@ != 0 ==> call_requires(dealloc_memory_buffer, (old(self)@,)),
        ensures
            called == (old(self)@ != 0),
            called ==> call_ensures(dealloc_memory_buffer, (old(self)@,), ()),
            final(self)@ == 0,
    {
        if self.id == 0 {
            return false;
        }
        dealloc_memory_buffer(self.id);
        self.id = 0;
        true
    }
}

} // verus!
