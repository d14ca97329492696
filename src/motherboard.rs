use vstd::prelude::*;

use crate::cpu::{initial_state, step, CpuState, CPU};
use crate::error::MachineError;
use crate::peripheral::{kind_id, tick, updated_buffer, cleared_buffer, Peripheral, PeripheralKind};
use crate::ram::{filled, Ram, MEMORY_SIZE};
use crate::text::same_text;

verus! {

/// Width of the screen in pixels.
pub const SCREEN_WIDTH: u8 = 8;
/// Height of the screen in pixels.
pub const SCREEN_HEIGHT: u8 = 8;
/// First address of the keyboard buffer.
pub const KEYBOARD_ADDRESS: u8 = 0;
/// Bytes reserved for the keyboard buffer.
pub const KEYBOARD_RAM: u8 = 10;
/// Bytes reserved for the screen.
pub const GPU_RAM: u8 = 3;
/// Bytes reserved for the board itself.
pub const RESERVED_RAM: u8 = 2;
/// Capacity of the program region in bytes.
pub const BIN_SIZE: u8 = 120;
/// First address of the program region, right after the peripheral region.
pub const BOOT_ADDR: u8 = KEYBOARD_ADDRESS + KEYBOARD_RAM + GPU_RAM + RESERVED_RAM;
/// Initial stack pointer, right after the program region.
pub const STACK_ADDR: u8 = BOOT_ADDR + BIN_SIZE;


/// Memory of a fresh machine: all zero.
pub open spec fn zeroed() -> Seq<u8> {
    Seq::new(MEMORY_SIZE as nat, |i: int| 0u8)
}

/// Loading `img` into a machine in state `c` with memory `mem`: the image
/// goes to the program region and MAR and IAR point at its start. An image
/// larger than the program region is refused and nothing changes.
pub open spec fn boot_effect(c: CpuState, mem: Seq<u8>, img: Seq<u8>) -> (CpuState, Seq<u8>, Result<(), MachineError>) {
    if img.len() > BIN_SIZE {
        (c, mem, Err(MachineError::ImageTooLarge { len: img.len() as usize }))
    } else {
        (CpuState { reg_mar: BOOT_ADDR, reg_iar: BOOT_ADDR, ..c }, filled(mem, BOOT_ADDR as int, img), Ok(()))
    }
}

/// A reset: registers and memory back to their initial values, then a boot.
pub open spec fn reset_effect(c: CpuState, mem: Seq<u8>, img: Seq<u8>) -> (CpuState, Seq<u8>, Result<(), MachineError>) {
    boot_effect(initial_state(), zeroed(), img)
}

/// One tick of each peripheral in order, starting from `c` and `mem`:
/// the new buffers, the new registers and the new memory.
pub open spec fn process_all(kinds: Seq<PeripheralKind>, bufs: Seq<Seq<u8>>, c: CpuState, mem: Seq<u8>) -> (Seq<Seq<u8>>, CpuState, Seq<u8>)
    decreases kinds.len(),
{
    if kinds.len() == 0 {
        (Seq::empty(), c, mem)
    } else {
        let prev = process_all(kinds.drop_last(), bufs.drop_last(), c, mem);
        let t = tick(kinds.last(), bufs[kinds.len() - 1], prev.1, prev.2);
        (prev.0.push(t.0), t.1, t.2)
    }
}

/// Owns the CPU, the memory and the peripherals, loads the boot image and
/// drives the machine one instruction at a time.
pub struct Motherboard {
    cycle_i: usize,
    pub cpu: CPU,
    ram: Ram,
    peripherals: Vec<Peripheral>,
    bootimg: Vec<u8>,
    instructions: Vec<String>,
}

impl Motherboard {
    pub closed spec fn wf(&self) -> bool {
        &&& self.ram.wf()
        &&& forall|i: int| 0 <= i < self.peripherals@.len() ==> #[trigger] self.peripherals@[i].wf()
    }

    /// The CPU's registers and flags.
    pub closed spec fn regs(&self) -> CpuState {
        self.cpu.state()
    }

    /// The CPU's message about the last instruction.
    pub closed spec fn dbg(&self) -> Seq<char> {
        self.cpu.dbg_msg@
    }

    /// The listing lines of the loaded program.
    pub closed spec fn listing(&self) -> Seq<Seq<char>> {
        self.instructions@.map_values(|l: String| l@)
    }

    /// The memory contents.
    pub closed spec fn mem(&self) -> Seq<u8> {
        self.ram.view()
    }

    /// The boot image.
    pub closed spec fn image(&self) -> Seq<u8> {
        self.bootimg@
    }

    /// Number of cycles run since the last reset.
    pub closed spec fn cycles(&self) -> nat {
        self.cycle_i as nat
    }

    /// Kinds of the attached peripherals, in order of attachment.
    pub closed spec fn kinds(&self) -> Seq<PeripheralKind> {
        self.peripherals@.map_values(|p: Peripheral| p.kind())
    }

    /// Buffers of the attached peripherals, in order of attachment.
    pub closed spec fn buffers(&self) -> Seq<Seq<u8>> {
        self.peripherals@.map_values(|p: Peripheral| p.buffer())
    }

    /// A board with a fresh CPU, zeroed memory and no peripherals, holding
    /// `bootimg` and its listing `instructions`. Nothing is loaded yet.
    pub fn new(bootimg: Vec<u8>, instructions: Vec<String>) -> (r: Motherboard)
        ensures
            r.wf(),
            r.regs() == initial_state(),
            r.mem() == zeroed(),
            r.image() == bootimg@,
            r.listing() == instructions@.map_values(|l: String| l@),
            r.cycles() == 0,
            r.kinds() == Seq::<PeripheralKind>::empty(),
            r.buffers() == Seq::<Seq<u8>>::empty(),
    {
        let r = Motherboard {
            cycle_i: 0,
            cpu: CPU::new(),
            ram: Ram::new(),
            peripherals: Vec::new(),
            bootimg,
            instructions,
        };
        assert(r.kinds() =~= Seq::<PeripheralKind>::empty());
        assert(r.buffers() =~= Seq::<Seq<u8>>::empty());
        r
    }

    /// Attaches a peripheral after those already attached.
    pub fn add_peripheral(&mut self, p: Peripheral)
        requires
            old(self).wf(),
            p.wf(),
        ensures
            final(self).wf(),
            final(self).kinds() == old(self).kinds().push(p.kind()),
            final(self).buffers() == old(self).buffers().push(p.buffer()),
            final(self).regs() == old(self).regs(),
            final(self).mem() == old(self).mem(),
            final(self).image() == old(self).image(),
            final(self).cycles() == old(self).cycles(),
    {
        self.peripherals.push(p);
        assert(self.kinds() =~= old(self).kinds().push(p.kind()));
        assert(self.buffers() =~= old(self).buffers().push(p.buffer()));
    }

    /// Services one tick of every peripheral, in order of attachment.
    pub fn process_peripherals(&mut self)
        requires
            old(self).wf(),
        ensures
            final(self).wf(),
            final(self).kinds() == old(self).kinds(),
            (final(self).buffers(), final(self).regs(), final(self).mem()) == process_all(
                old(self).kinds(),
                old(self).buffers(),
                old(self).regs(),
                old(self).mem(),
            ),
            final(self).image() == old(self).image(),
            final(self).cycles() == old(self).cycles(),
    {
        let n = self.peripherals.len();
        let mut i: usize = 0;
        while i < n
            invariant
                self.wf(),
                n == self.peripherals@.len(),
                n == old(self).peripherals@.len(),
                i <= n,
                self.image() == old(self).image(),
                self.cycles() == old(self).cycles(),
                self.kinds() == old(self).kinds(),
                forall|j: int| i <= j < n ==> #[trigger] self.buffers()[j] == old(self).buffers()[j],
                ({
                    let p = process_all(
                        old(self).kinds().take(i as int),
                        old(self).buffers().take(i as int),
                        old(self).regs(),
                        old(self).mem(),
                    );
                    p.0 == self.buffers().take(i as int) && p.1 == self.regs() && p.2 == self.mem()
                }),
            decreases n - i,
        {
            let ghost pre = self.peripherals@;
            let ghost pre_buffers = self.buffers();
            let mut p = self.peripherals.remove(i);
            assert(self.peripherals@.len() == n - 1);
            p.process(&mut self.cpu, &mut self.ram);
            self.peripherals.insert(i, p);
            proof {
                assert(self.peripherals@ =~= pre.update(i as int, p));
                assert(self.buffers() =~= pre_buffers.update(i as int, p.buffer()));
                let k0 = old(self).kinds();
                let b0 = old(self).buffers();
                assert(k0.take(i + 1).drop_last() =~= k0.take(i as int));
                assert(b0.take(i + 1).drop_last() =~= b0.take(i as int));
                assert(k0.take(i + 1).last() == k0[i as int]);
                assert(b0.take(i + 1)[i as int] == b0[i as int]);
                assert(pre_buffers[i as int] == b0[i as int]);
                assert(pre[i as int].kind() == k0[i as int]);
                assert forall|j: int| 0 <= j < n implies #[trigger] self.peripherals@[j].wf() by {
                    if j != i {
                        assert(self.peripherals@[j] == old(self).peripherals@[j] || true);
                    }
                };
                assert(self.kinds() =~= old(self).kinds());
                assert(self.buffers().take(i + 1) =~= self.buffers().take(i as int).push(self.buffers()[i as int]));
            }
            i = i + 1;
        }
        proof {
            assert(old(self).kinds().take(n as int) =~= old(self).kinds());
            assert(old(self).buffers().take(n as int) =~= old(self).buffers());
            assert(self.buffers().take(n as int) =~= self.buffers());
        }
    }

    /// Hands `value` to every peripheral whose name is `perf`.
    pub fn pass_to_peripheral(&mut self, perf: &str, value: u8)
        requires
            old(self).wf(),
        ensures
            final(self).wf(),
            final(self).kinds() == old(self).kinds(),
            final(self).buffers().len() == old(self).buffers().len(),
            forall|j: int|
                0 <= j < old(self).buffers().len() ==> #[trigger] final(self).buffers()[j] == if kind_id(old(self).kinds()[j]) == perf@ {
                    updated_buffer(old(self).kinds()[j], old(self).buffers()[j], value)
                } else {
                    old(self).buffers()[j]
                },
            final(self).regs() == old(self).regs(),
            final(self).mem() == old(self).mem(),
            final(self).image() == old(self).image(),
            final(self).cycles() == old(self).cycles(),
    {
        let n = self.peripherals.len();
        let mut i: usize = 0;
        while i < n
            invariant
                self.wf(),
                n == self.peripherals@.len(),
                n == old(self).peripherals@.len(),
                i <= n,
                self.regs() == old(self).regs(),
                self.mem() == old(self).mem(),
                self.image() == old(self).image(),
                self.cycles() == old(self).cycles(),
                self.kinds() == old(self).kinds(),
                                forall|j: int| i <= j < n ==> #[trigger] self.buffers()[j] == old(self).buffers()[j],
                forall|j: int|
                    0 <= j < i ==> #[trigger] self.buffers()[j] == if kind_id(old(self).kinds()[j]) == perf@ {
                        updated_buffer(old(self).kinds()[j], old(self).buffers()[j], value)
                    } else {
                        old(self).buffers()[j]
                    },
            decreases n - i,
        {
            let ghost pre = self.peripherals@;
            let ghost pre_buffers = self.buffers();
            let mut p = self.peripherals.remove(i);
            assert(pre_buffers[i as int] == pre[i as int].buffer());
            assert(p.kind() == old(self).kinds()[i as int]);
            assert(p.buffer() == old(self).buffers()[i as int]);
            let id = p.get_id();
            if same_text(id.as_str(), perf) {
                p.update(value);
            }
            self.peripherals.insert(i, p);
            proof {
                assert(self.peripherals@ =~= pre.update(i as int, p));
                assert(self.buffers() =~= pre_buffers.update(i as int, p.buffer()));
                assert forall|j: int| 0 <= j < n implies #[trigger] self.peripherals@[j].wf() by {
                    if j != i {
                        assert(self.peripherals@[j] == old(self).peripherals@[j] || true);
                    }
                };
                assert(self.kinds() =~= old(self).kinds());
            }
            i = i + 1;
        }
    }

    /// Returns every peripheral to its defaults and ends the clearing state.
    pub fn reset_peripherals(&mut self)
        requires
            old(self).wf(),
        ensures
            final(self).wf(),
            final(self).kinds() == old(self).kinds(),
            final(self).buffers() == old(self).kinds().map_values(|k: PeripheralKind| cleared_buffer(k)),
            final(self).regs() == (CpuState { clearing: false, ..old(self).regs() }),
            final(self).mem() == old(self).mem(),
            final(self).image() == old(self).image(),
            final(self).cycles() == old(self).cycles(),
    {
        let n = self.peripherals.len();
        let mut i: usize = 0;
        while i < n
            invariant
                self.wf(),
                n == self.peripherals@.len(),
                n == old(self).peripherals@.len(),
                i <= n,
                self.regs() == old(self).regs(),
                self.mem() == old(self).mem(),
                self.image() == old(self).image(),
                self.cycles() == old(self).cycles(),
                self.kinds() == old(self).kinds(),
                forall|j: int| 0 <= j < i ==> #[trigger] self.buffers()[j] == cleared_buffer(old(self).kinds()[j]),
            decreases n - i,
        {
            let ghost pre = self.peripherals@;
            let ghost pre_buffers = self.buffers();
            let mut p = self.peripherals.remove(i);
            p.clear_state();
            self.peripherals.insert(i, p);
            proof {
                assert(self.peripherals@ =~= pre.update(i as int, p));
                assert(self.buffers() =~= pre_buffers.update(i as int, p.buffer()));
                assert forall|j: int| 0 <= j < n implies #[trigger] self.peripherals@[j].wf() by {
                    if j != i {
                        assert(self.peripherals@[j] == old(self).peripherals@[j] || true);
                    }
                };
                assert(self.kinds() =~= old(self).kinds());
            }
            i = i + 1;
        }
        assert(self.buffers().len() == old(self).kinds().len());
        assert forall|j: int| 0 <= j < n implies #[trigger] self.buffers()[j] == old(self).kinds().map_values(|k: PeripheralKind| cleared_buffer(k))[j] by {
            assert(self.buffers()[j] == cleared_buffer(old(self).kinds()[j]));
        };
        assert(self.buffers() =~= old(self).kinds().map_values(|k: PeripheralKind| cleared_buffer(k)));
        self.cpu.clearing = false;
    }

    /// A copy of the memory.
    pub fn ram_info(&self) -> (r: Vec<u8>)
        ensures
            r@ == self.mem(),
    {
        self.ram.snapshot()
    }

    /// The CPU's message about the last instruction.
    pub fn dbg_info(&self) -> (r: String)
        ensures
            r@ == self.dbg(),
    {
        self.cpu.dbg_msg.clone()
    }

    /// The listing lines of the loaded program.
    pub fn cpu_instructions(&self) -> (r: Vec<String>)
        ensures
            r@.map_values(|l: String| l@) == self.listing(),
    {
        let mut r: Vec<String> = Vec::new();
        let mut i: usize = 0;
        while i < self.instructions.len()
            invariant
                i <= self.instructions@.len(),
                r@.len() == i,
                forall|j: int| 0 <= j < i ==> #[trigger] r@[j]@ == self.instructions@[j]@,
            decreases self.instructions@.len() - i,
        {
            r.push(self.instructions[i].clone());
            i = i + 1;
        }
        assert(r@.map_values(|l: String| l@) =~= self.listing());
        r
    }

    /// Number of cycles run since the last reset.
    pub fn cycle_count(&self) -> (r: usize)
        ensures
            r == self.cycles(),
    {
        self.cycle_i
    }

    /// Size of the boot image in bytes.
    pub fn image_len(&self) -> (r: usize)
        ensures
            r == self.image().len(),
    {
        self.bootimg.len()
    }

    /// Runs one fetch-decode-execute step. `Ok(false)` exactly when HLT ran.
    pub fn cycle(&mut self) -> (r: Result<bool, MachineError>)
        requires
            old(self).wf(),
        ensures
            final(self).wf(),
            (final(self).regs(), final(self).mem(), r) == step(old(self).regs(), old(self).mem()),
            final(self).kinds() == old(self).kinds(),
            final(self).buffers() == old(self).buffers(),
            final(self).image() == old(self).image(),
            final(self).cycles() == if r == Ok::<bool, MachineError>(true) && old(self).cycles() < usize::MAX {
                old(self).cycles() + 1
            } else {
                old(self).cycles()
            },
    {
        let r = self.cpu.cycle(&mut self.ram);
        match r {
            Ok(true) => {
                if self.cycle_i < usize::MAX {
                    self.cycle_i = self.cycle_i + 1;
                }
            },
            _ => {},
        }
        r
    }

    /// Loads the boot image into the program region and points MAR and IAR
    /// at it; see `boot_effect`.
    pub fn boot(&mut self) -> (r: Result<(), MachineError>)
        requires
            old(self).wf(),
        ensures
            final(self).wf(),
            (final(self).regs(), final(self).mem(), r) == boot_effect(
                old(self).regs(),
                old(self).mem(),
                old(self).image(),
            ),
            final(self).kinds() == old(self).kinds(),
            final(self).buffers() == old(self).buffers(),
            final(self).image() == old(self).image(),
            final(self).cycles() == old(self).cycles(),
    {
        if self.bootimg.len() > BIN_SIZE as usize {
            return Err(MachineError::ImageTooLarge { len: self.bootimg.len() });
        }
        self.ram.fill(BOOT_ADDR, &self.bootimg);
        self.cpu.reg_mar = BOOT_ADDR;
        self.cpu.reg_iar = BOOT_ADDR;
        Ok(())
    }

    /// Puts the CPU and memory back to their initial state and boots again;
    /// see `reset_effect`.
    pub fn reset(&mut self) -> (r: Result<(), MachineError>)
        requires
            old(self).wf(),
        ensures
            final(self).wf(),
            (final(self).regs(), final(self).mem(), r) == reset_effect(
                old(self).regs(),
                old(self).mem(),
                old(self).image(),
            ),
            final(self).kinds() == old(self).kinds(),
            final(self).buffers() == old(self).buffers(),
            final(self).image() == old(self).image(),
            final(self).cycles() == 0,
    {
        self.cpu.reset();
        self.ram.reset();
        self.cycle_i = 0;
        self.boot()
    }
}

} // verus!
