use vstd::prelude::*;

use crate::cpu::{CpuState, CPU};
use crate::motherboard::KEYBOARD_ADDRESS;
use crate::ram::{filled, Ram};

verus! {

/// Most key codes that the keyboard holds before they are read.
pub const MAX_BUFFERED_KEYS: usize = 10;
/// Interrupt code of the screen's pixel write.
pub const SCREEN_INT: u8 = 1;
/// Interrupt code of the keyboard's buffer dump.
pub const KEYBOARD_INT: u8 = 2;
/// Number of pixels on the screen.
pub const SCREEN_PIXELS: usize = 64;

/// Key code of a lower-case letter: the code of its upper-case form.
/// Every other character has code 0.
pub open spec fn key_code(c: char) -> u8 {
    if 'a' <= c && c <= 'z' {
        (c as u32 - 32) as u8
    } else {
        0
    }
}

pub fn get_key_code(c: char) -> (r: u8)
    ensures
        r == key_code(c),
{
    if 'a' <= c && c <= 'z' {
        (c as u32 - 32) as u8
    } else {
        0
    }
}

/// Which kind a peripheral is.
#[derive(Debug, Clone, Copy, PartialEq, Eq, Structural)]
pub enum PeripheralKind {
    Screen,
    Keyboard,
}

/// Effect of one keyboard tick with pending `keys`: on the keyboard
/// interrupt, with keys pending, the keys go to memory from the keyboard
/// address on, R1 gets that address, R2 the count, and the buffer empties.
pub open spec fn keyboard_tick(keys: Seq<u8>, c: CpuState, mem: Seq<u8>) -> (Seq<u8>, CpuState, Seq<u8>) {
    if c.reg_int == KEYBOARD_INT && keys.len() > 0 {
        (
            Seq::empty(),
            CpuState { reg_1: KEYBOARD_ADDRESS, reg_2: keys.len() as u8, ..c },
            filled(mem, KEYBOARD_ADDRESS as int, keys),
        )
    } else {
        (keys, c, mem)
    }
}

/// Index of pixel (x, y) in the screen buffer, rows of `SCREEN_WIDTH`
/// (eight) pixels.
pub open spec fn pixel_index(x: u8, y: u8) -> int {
    x + y * 8
}

/// Effect of one screen tick on `pixels`: on the screen interrupt, the
/// pixel at (R1, R2) takes colour R3 when it lies on the screen.
pub open spec fn screen_tick(pixels: Seq<u8>, c: CpuState) -> Seq<u8> {
    let pos = pixel_index(c.reg_1, c.reg_2);
    if c.reg_int == SCREEN_INT && pos < pixels.len() {
        pixels.update(pos, c.reg_3)
    } else {
        pixels
    }
}

/// Buffers key codes until the program asks for them.
pub struct Keyboard {
    keys_pressed: Vec<u8>,
}

impl Keyboard {
    pub closed spec fn view(&self) -> Seq<u8> {
        self.keys_pressed@
    }

    pub open spec fn wf(&self) -> bool {
        self.view().len() <= MAX_BUFFERED_KEYS
    }

    pub fn new() -> (r: Keyboard)
        ensures
            r.view() == Seq::<u8>::empty(),
    {
        Keyboard { keys_pressed: Vec::new() }
    }

    /// The pending key codes, oldest first.
    pub fn keys(&self) -> (r: Vec<u8>)
        ensures
            r@ == self.view(),
    {
        self.keys_pressed.clone()
    }

    /// Sets the buffer to its defaults.
    pub fn create(&mut self)
        ensures
            final(self).view() == Seq::<u8>::empty(),
    {
        self.keys_pressed = Vec::new();
    }

    /// Drops every pending key code.
    pub fn clear_state(&mut self)
        ensures
            final(self).view() == Seq::<u8>::empty(),
    {
        self.keys_pressed = Vec::new();
    }

    /// Queues one key code; a full buffer ignores it.
    pub fn update(&mut self, value: u8)
        ensures
            final(self).view() == if old(self).view().len() < MAX_BUFFERED_KEYS {
                old(self).view().push(value)
            } else {
                old(self).view()
            },
    {
        if self.keys_pressed.len() < MAX_BUFFERED_KEYS {
            self.keys_pressed.push(value);
        }
    }

    /// Services one tick: see `keyboard_tick`.
    pub fn process(&mut self, cpu: &mut CPU, ram: &mut Ram)
        requires
            old(self).wf(),
            old(ram).wf(),
        ensures
            final(self).wf(),
            final(ram).wf(),
            (final(self).view(), final(cpu).state(), final(ram).view()) == keyboard_tick(
                old(self).view(),
                old(cpu).state(),
                old(ram).view(),
            ),
    {
        if cpu.reg_int == KEYBOARD_INT && self.keys_pressed.len() > 0 {
            ram.fill(KEYBOARD_ADDRESS, &self.keys_pressed);
            cpu.reg_1 = KEYBOARD_ADDRESS;
            cpu.reg_2 = self.keys_pressed.len() as u8;
            self.keys_pressed = Vec::new();
        }
    }
}

/// A pixel buffer of `SCREEN_WIDTH` by `SCREEN_HEIGHT` colour bytes.
pub struct Screen {
    buffer: Vec<u8>,
}

impl Screen {
    pub closed spec fn view(&self) -> Seq<u8> {
        self.buffer@
    }

    pub open spec fn wf(&self) -> bool {
        self.view().len() == SCREEN_PIXELS
    }

    pub fn new() -> (r: Screen)
        ensures
            r.wf(),
            r.view() == Seq::new(SCREEN_PIXELS as nat, |i: int| 0u8),
    {
        let mut s = Screen { buffer: Vec::new() };
        s.create();
        s
    }

    /// The colour bytes, row by row.
    pub fn pixels(&self) -> (r: Vec<u8>)
        ensures
            r@ == self.view(),
    {
        self.buffer.clone()
    }

    /// Sets every pixel to colour 0.
    pub fn create(&mut self)
        ensures
            final(self).wf(),
            final(self).view() == Seq::new(SCREEN_PIXELS as nat, |i: int| 0u8),
    {
        let mut buffer: Vec<u8> = Vec::new();
        let mut i: usize = 0;
        while i < SCREEN_PIXELS
            invariant
                i <= SCREEN_PIXELS,
                buffer@.len() == i,
                forall|j: int| 0 <= j < i ==> buffer@[j] == 0u8,
            decreases SCREEN_PIXELS - i,
        {
            buffer.push(0u8);
            i = i + 1;
        }
        self.buffer = buffer;
        assert(self.buffer@ =~= Seq::new(SCREEN_PIXELS as nat, |i: int| 0u8));
    }

    /// Sets every pixel to colour 0.
    pub fn clear_state(&mut self)
        ensures
            final(self).wf(),
            final(self).view() == Seq::new(SCREEN_PIXELS as nat, |i: int| 0u8),
    {
        self.create();
    }

    /// The screen takes no input bytes.
    pub fn update(&mut self, value: u8)
        ensures
            final(self).view() == old(self).view(),
    {
    }

    /// Services one tick: see `screen_tick`.
    pub fn process(&mut self, cpu: &mut CPU, ram: &mut Ram)
        requires
            old(self).wf(),
            old(ram).wf(),
        ensures
            final(self).wf(),
            final(ram).wf(),
            final(self).view() == screen_tick(old(self).view(), old(cpu).state()),
            final(cpu).state() == old(cpu).state(),
            final(ram).view() == old(ram).view(),
    {
        if cpu.reg_int == SCREEN_INT {
            let x: u32 = cpu.reg_1 as u32;
            let y: u32 = cpu.reg_2 as u32;
            assert(y * 8 <= 2040) by (nonlinear_arith)
                requires
                    y <= 255,
            ;
            let pos: usize = (x + y * 8) as usize;
            if pos < self.buffer.len() {
                self.buffer.set(pos, cpu.reg_3);
            }
        }
    }
}

/// One of the devices attached to the board.
pub enum Peripheral {
    Screen(Screen),
    Keyboard(Keyboard),
}

/// Effect of one tick of a peripheral of kind `k` holding `buf`.
pub open spec fn tick(k: PeripheralKind, buf: Seq<u8>, c: CpuState, mem: Seq<u8>) -> (Seq<u8>, CpuState, Seq<u8>) {
    match k {
        PeripheralKind::Screen => (screen_tick(buf, c), c, mem),
        PeripheralKind::Keyboard => keyboard_tick(buf, c, mem),
    }
}

impl Peripheral {
    pub open spec fn kind(&self) -> PeripheralKind {
        match self {
            Peripheral::Screen(_) => PeripheralKind::Screen,
            Peripheral::Keyboard(_) => PeripheralKind::Keyboard,
        }
    }

    /// The peripheral's buffer: pixels of a screen, pending keys of a keyboard.
    pub open spec fn buffer(&self) -> Seq<u8> {
        match self {
            Peripheral::Screen(s) => s.view(),
            Peripheral::Keyboard(k) => k.view(),
        }
    }

    pub open spec fn wf(&self) -> bool {
        match self {
            Peripheral::Screen(s) => s.wf(),
            Peripheral::Keyboard(k) => k.wf(),
        }
    }

    pub open spec fn spec_id(&self) -> Seq<char> {
        kind_id(self.kind())
    }

    /// The name by which bytes are routed to this peripheral.
    pub fn get_id(&self) -> (r: String)
        ensures
            r@ == self.spec_id(),
    {
        match self {
            Peripheral::Screen(_) => String::from_str("screen"),
            Peripheral::Keyboard(_) => String::from_str("keyboard"),
        }
    }

    /// Sets the peripheral to its defaults.
    pub fn create(&mut self)
        ensures
            final(self).wf(),
            final(self).kind() == old(self).kind(),
            final(self).buffer() == cleared_buffer(old(self).kind()),
    {
        match self {
            Peripheral::Screen(s) => s.create(),
            Peripheral::Keyboard(k) => k.create(),
        }
    }

    /// Sets the peripheral back to its defaults.
    pub fn clear_state(&mut self)
        ensures
            final(self).wf(),
            final(self).kind() == old(self).kind(),
            final(self).buffer() == cleared_buffer(old(self).kind()),
    {
        match self {
            Peripheral::Screen(s) => s.clear_state(),
            Peripheral::Keyboard(k) => k.clear_state(),
        }
    }

    /// Hands one externally delivered byte to the peripheral.
    pub fn update(&mut self, value: u8)
        requires
            old(self).wf(),
        ensures
            final(self).wf(),
            final(self).kind() == old(self).kind(),
            final(self).buffer() == updated_buffer(old(self).kind(), old(self).buffer(), value),
    {
        match self {
            Peripheral::Screen(s) => s.update(value),
            Peripheral::Keyboard(k) => k.update(value),
        }
    }

    /// Services one tick of the peripheral.
    pub fn process(&mut self, cpu: &mut CPU, ram: &mut Ram)
        requires
            old(self).wf(),
            old(ram).wf(),
        ensures
            final(self).wf(),
            final(ram).wf(),
            final(self).kind() == old(self).kind(),
            (final(self).buffer(), final(cpu).state(), final(ram).view()) == tick(
                old(self).kind(),
                old(self).buffer(),
                old(cpu).state(),
                old(ram).view(),
            ),
    {
        match self {
            Peripheral::Screen(s) => s.process(cpu, ram),
            Peripheral::Keyboard(k) => k.process(cpu, ram),
        }
    }
}

/// The name of peripherals of kind `k`.
pub open spec fn kind_id(k: PeripheralKind) -> Seq<char> {
    match k {
        PeripheralKind::Screen => "screen"@,
        PeripheralKind::Keyboard => "keyboard"@,
    }
}

/// Buffer of a peripheral of kind `k` in its default state.
pub open spec fn cleared_buffer(k: PeripheralKind) -> Seq<u8> {
    match k {
        PeripheralKind::Screen => Seq::new(SCREEN_PIXELS as nat, |i: int| 0u8),
        PeripheralKind::Keyboard => Seq::empty(),
    }
}

/// Buffer of a peripheral of kind `k` after it is handed `value`.
pub open spec fn updated_buffer(k: PeripheralKind, buf: Seq<u8>, value: u8) -> Seq<u8> {
    match k {
        PeripheralKind::Screen => buf,
        PeripheralKind::Keyboard => if buf.len() < MAX_BUFFERED_KEYS {
            buf.push(value)
        } else {
            buf
        },
    }
}

} // verus!
