use vstd::prelude::*;

verus! {

/// Size of the flat address space in bytes.
pub const MEMORY_SIZE: usize = 256;

/// Flat byte-addressed memory covering the whole 8-bit address space.
pub struct Ram {
    memory: Vec<u8>,
}

impl Ram {
    pub closed spec fn wf(&self) -> bool {
        self.memory@.len() == MEMORY_SIZE
    }

    /// The memory contents, one byte per address.
    pub closed spec fn view(&self) -> Seq<u8> {
        self.memory@
    }

    /// Fresh memory: every byte zero.
    pub fn new() -> (r: Ram)
        ensures
            r.wf(),
            r.view() == Seq::new(MEMORY_SIZE as nat, |i: int| 0u8),
    {
        let mut memory: Vec<u8> = Vec::new();
        let mut i: usize = 0;
        while i < MEMORY_SIZE
            invariant
                i <= MEMORY_SIZE,
                memory@.len() == i,
                forall|j: int| 0 <= j < i ==> memory@[j] == 0u8,
            decreases MEMORY_SIZE - i,
        {
            memory.push(0u8);
            i = i + 1;
        }
        let r = Ram { memory };
        assert(r.view() =~= Seq::new(MEMORY_SIZE as nat, |i: int| 0u8));
        r
    }

    /// The byte stored at `address`.
    pub fn read(&self, address: u8) -> (r: u8)
        requires
            self.wf(),
        ensures
            r == self.view()[address as int],
    {
        self.memory[address as usize]
    }

    /// Stores `data` at `address`.
    pub fn write(&mut self, address: u8, data: u8)
        requires
            old(self).wf(),
        ensures
            final(self).wf(),
            final(self).view() == old(self).view().update(address as int, data),
    {
        self.memory.set(address as usize, data);
    }

    /// Copies `bytes` into memory starting at `address`.
    pub fn fill(&mut self, address: u8, bytes: &Vec<u8>)
        requires
            old(self).wf(),
            address as int + bytes@.len() <= MEMORY_SIZE,
        ensures
            final(self).wf(),
            final(self).view() == filled(old(self).view(), address as int, bytes@),
    {
        let start: usize = address as usize;
        let mut k: usize = 0;
        while k < bytes.len()
            invariant
                self.wf(),
                start == address as int,
                start + bytes@.len() <= MEMORY_SIZE,
                k <= bytes@.len(),
                forall|j: int|
                    0 <= j < MEMORY_SIZE ==> #[trigger] self.memory@[j] == (if start <= j < start + k {
                        bytes@[j - start]
                    } else {
                        old(self).memory@[j]
                    }),
            decreases bytes@.len() - k,
        {
            self.memory.set(start + k, bytes[k]);
            k = k + 1;
        }
        assert(self.view() =~= filled(old(self).view(), address as int, bytes@));
    }

    /// Sets every byte back to zero.
    pub fn reset(&mut self)
        requires
            old(self).wf(),
        ensures
            final(self).wf(),
            final(self).view() == Seq::new(MEMORY_SIZE as nat, |i: int| 0u8),
    {
        let mut i: usize = 0;
        while i < MEMORY_SIZE
            invariant
                self.wf(),
                i <= MEMORY_SIZE,
                forall|j: int| 0 <= j < i ==> self.memory@[j] == 0u8,
            decreases MEMORY_SIZE - i,
        {
            self.memory.set(i, 0u8);
            i = i + 1;
        }
        assert(self.view() =~= Seq::new(MEMORY_SIZE as nat, |i: int| 0u8));
    }

    /// A copy of the whole memory.
    pub fn snapshot(&self) -> (r: Vec<u8>)
        ensures
            r@ == self.view(),
    {
        self.memory.clone()
    }
}

/// `mem` with `bytes` written from `start` on.
pub open spec fn filled(mem: Seq<u8>, start: int, bytes: Seq<u8>) -> Seq<u8> {
    Seq::new(
        mem.len(),
        |j: int|
            if start <= j < start + bytes.len() {
                bytes[j - start]
            } else {
                mem[j]
            },
    )
}

} // verus!
