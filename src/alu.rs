use vstd::prelude::*;

verus! {

/// Bit of the carry flag in the flags byte.
pub const FLAG_CARRY: u8 = 0x01;
/// Bit of the sign flag in the flags byte.
pub const FLAG_SIGN: u8 = 0x02;
/// Bit of the zero flag in the flags byte.
pub const FLAG_ZERO: u8 = 0x04;
/// Bit of the equal flag in the flags byte.
pub const FLAG_EQ: u8 = 0x08;
/// Bit of the less-than flag in the flags byte.
pub const FLAG_LT: u8 = 0x10;

/// Condition selector that tests the carry flag.
pub const COND_CARRY: u8 = 0;
/// Condition selector that tests the zero flag.
pub const COND_ZERO: u8 = 1;

/// Arithmetic logic unit: two input latches, the informational bitwise
/// outputs and the condition flags left by the last arithmetic operation.
#[derive(Debug, Clone, Copy, PartialEq, Eq)]
pub struct ALU {
    pub a: u8,
    pub b: u8,
    pub or: u8,
    pub and: u8,
    pub not: u8,
    pub shl: u8,
    pub shr: u8,
    pub sum: u8,
    pub carry: bool,
    pub sign: bool,
    pub zero: bool,
    pub equal: bool,
    pub less: bool,
}

/// Carry: the exact result lies outside the signed 8-bit range.
pub open spec fn carry_of(res: int) -> bool {
    res > 127 || res < -128
}

/// Wrapped sum of two bytes.
pub open spec fn add_result(a: u8, b: u8) -> u8 {
    ((a as int + b as int) % 256) as u8
}

/// Difference of two bytes, a negative result clamped to zero.
pub open spec fn sub_result(a: u8, b: u8) -> u8 {
    if a < b {
        0
    } else {
        (a - b) as u8
    }
}

/// Wrapped successor of a byte.
pub open spec fn inc_result(a: u8) -> u8 {
    ((a as int + 1) % 256) as u8
}

/// Predecessor of a byte, clamped at zero.
pub open spec fn dec_result(a: u8) -> u8 {
    if a == 0 {
        0
    } else {
        (a - 1) as u8
    }
}

/// `alu` with the flags of an arithmetic operation whose exact result is
/// `res`, computed on the latched inputs.
pub open spec fn arith(alu: ALU, res: int) -> ALU {
    ALU {
        carry: carry_of(res),
        sign: res < 0,
        zero: res == 0,
        equal: alu.a == alu.b,
        less: alu.a < alu.b,
        ..alu
    }
}

/// `alu` with its bitwise outputs refreshed from the latched inputs.
#[verifier::opaque]
pub open spec fn bitwise(alu: ALU) -> ALU {
    ALU {
        or: alu.a | alu.b,
        and: alu.a & alu.b,
        not: !alu.a,
        shl: if alu.b < 8 { (alu.a << alu.b) as u8 } else { 0 },
        shr: if alu.b < 8 { (alu.a >> alu.b) as u8 } else { 0 },
        ..alu
    }
}

/// Refreshing the bitwise outputs keeps the latches and the flags.
pub proof fn lemma_bitwise_keeps_flags(alu: ALU)
    ensures
        bitwise(alu).a == alu.a,
        bitwise(alu).b == alu.b,
        bitwise(alu).carry == alu.carry,
        bitwise(alu).sign == alu.sign,
        bitwise(alu).zero == alu.zero,
        bitwise(alu).equal == alu.equal,
        bitwise(alu).less == alu.less,
{
    reveal(bitwise);
}

/// `alu` with every condition flag cleared.
pub open spec fn flags_cleared(alu: ALU) -> ALU {
    ALU { carry: false, sign: false, zero: false, equal: false, less: false, ..alu }
}

impl ALU {
    /// An ALU with every latch, output and flag cleared.
    pub fn new() -> (r: ALU)
        ensures
            r.is_clear(),
    {
        ALU {
            a: 0,
            b: 0,
            or: 0,
            and: 0,
            not: 0,
            shl: 0,
            shr: 0,
            sum: 0,
            carry: false,
            sign: false,
            zero: false,
            equal: false,
            less: false,
        }
    }

    pub open spec fn is_clear(self) -> bool {
        &&& self.a == 0 && self.b == 0
        &&& self.or == 0 && self.and == 0 && self.not == 0
        &&& self.shl == 0 && self.shr == 0 && self.sum == 0
        &&& !self.carry && !self.sign && !self.zero && !self.equal && !self.less
    }

    /// The flags packed into one byte, one bit each.
    pub open spec fn spec_flags_byte(self) -> u8 {
        ((if self.carry { FLAG_CARRY } else { 0 }) + (if self.sign { FLAG_SIGN } else { 0 }) + (
        if self.zero {
            FLAG_ZERO
        } else {
            0
        }) + (if self.equal { FLAG_EQ } else { 0 }) + (if self.less { FLAG_LT } else { 0 })) as u8
    }

    /// The condition that selector `code` tests. Only the carry and zero
    /// selectors are defined; every other selector never holds.
    pub open spec fn spec_match_flags(self, code: u8) -> bool {
        if code == COND_CARRY {
            self.carry
        } else if code == COND_ZERO {
            self.zero
        } else {
            false
        }
    }

    pub fn set_a(&mut self, val: u8)
        ensures
            *final(self) == (ALU { a: val, ..*old(self) }),
    {
        self.a = val;
    }

    pub fn set_b(&mut self, val: u8)
        ensures
            *final(self) == (ALU { b: val, ..*old(self) }),
    {
        self.b = val;
    }

    fn check_sign_and_carry(&mut self, res: i16)
        ensures
            *final(self) == arith(*old(self), res as int),
    {
        self.carry = res > 127 || res < -128;
        self.sign = res < 0;
        self.zero = res == 0;
        self.equal = self.a == self.b;
        self.less = self.a < self.b;
    }

    /// `a + b`, wrapped to a byte; also stored in `sum`.
    pub fn op_add(&mut self) -> (r: u8)
        ensures
            r == add_result(old(self).a, old(self).b),
            *final(self) == (ALU { sum: r, ..arith(*old(self), old(self).a + old(self).b) }),
    {
        let res: i16 = self.a as i16 + self.b as i16;
        self.check_sign_and_carry(res);
        let r = (res % 256) as u8;
        self.sum = r;
        r
    }

    /// `a - b`, clamped to zero when negative.
    pub fn op_sub(&mut self) -> (r: u8)
        ensures
            r == sub_result(old(self).a, old(self).b),
            *final(self) == arith(*old(self), old(self).a - old(self).b),
    {
        let mut res: i16 = self.a as i16 - self.b as i16;
        self.check_sign_and_carry(res);
        if res < 0 {
            res = 0;
        }
        res as u8
    }

    /// `a + 1`, wrapped to a byte.
    pub fn op_inc(&mut self) -> (r: u8)
        ensures
            r == inc_result(old(self).a),
            *final(self) == arith(*old(self), old(self).a + 1),
    {
        let res: i16 = self.a as i16 + 1;
        self.check_sign_and_carry(res);
        (res % 256) as u8
    }

    /// `a - 1`, clamped to zero when negative.
    pub fn op_dec(&mut self) -> (r: u8)
        ensures
            r == dec_result(old(self).a),
            *final(self) == arith(*old(self), old(self).a - 1),
    {
        let mut res: i16 = self.a as i16 - 1;
        self.check_sign_and_carry(res);
        if res < 0 {
            res = 0;
        }
        res as u8
    }

    /// Refreshes the informational bitwise outputs from the two latches.
    /// A shift by eight or more places yields zero.
    pub fn flags(&mut self)
        ensures
            *final(self) == bitwise(*old(self)),
    {
        reveal(bitwise);
        self.or = self.a | self.b;
        self.and = self.a & self.b;
        self.not = !self.a;
        if self.b < 8 {
            self.shl = self.a << self.b;
            self.shr = self.a >> self.b;
        } else {
            self.shl = 0;
            self.shr = 0;
        }
    }

    /// The flags packed into one byte.
    pub fn flags_byte(&self) -> (r: u8)
        ensures
            r == self.spec_flags_byte(),
    {
        let mut r: u8 = 0;
        if self.carry {
            r = r + FLAG_CARRY;
        }
        if self.sign {
            r = r + FLAG_SIGN;
        }
        if self.zero {
            r = r + FLAG_ZERO;
        }
        if self.equal {
            r = r + FLAG_EQ;
        }
        if self.less {
            r = r + FLAG_LT;
        }
        r
    }

    /// Whether condition selector `code` holds of the current flags.
    pub fn match_flags(&self, code: u8) -> (r: bool)
        ensures
            r == self.spec_match_flags(code),
    {
        if code == COND_CARRY {
            self.carry
        } else if code == COND_ZERO {
            self.zero
        } else {
            false
        }
    }

    /// Clears every condition flag.
    pub fn clear_flags(&mut self)
        ensures
            *final(self) == flags_cleared(*old(self)),
    {
        self.carry = false;
        self.sign = false;
        self.zero = false;
        self.equal = false;
        self.less = false;
    }
}

} // verus!
