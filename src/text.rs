use vstd::prelude::*;

verus! {

/// Whether two strings hold the same characters.
pub fn same_text(a: &str, b: &str) -> (r: bool)
    ensures
        r == (a@ == b@),
{
    let n = a.unicode_len();
    if n != b.unicode_len() {
        return false;
    }
    let mut i: usize = 0;
    while i < n
        invariant
            n == a@.len(),
            n == b@.len(),
            i <= n,
            a@.subrange(0, i as int) == b@.subrange(0, i as int),
        decreases n - i,
    {
        if a.get_char(i) != b.get_char(i) {
            return false;
        }
        assert(a@.subrange(0, i + 1) =~= a@.subrange(0, i as int).push(a@[i as int]));
        assert(b@.subrange(0, i + 1) =~= b@.subrange(0, i as int).push(b@[i as int]));
        i = i + 1;
    }
    assert(a@ =~= a@.subrange(0, n as int));
    assert(b@ =~= b@.subrange(0, n as int));
    true
}


pub open spec fn is_letter(c: char) -> bool {
    ('a' <= c && c <= 'z') || ('A' <= c && c <= 'Z')
}

pub open spec fn is_digit(c: char) -> bool {
    '0' <= c && c <= '9'
}

pub open spec fn is_alnum(c: char) -> bool {
    is_letter(c) || is_digit(c)
}

pub open spec fn is_hex_digit(c: char) -> bool {
    is_digit(c) || ('a' <= c && c <= 'f') || ('A' <= c && c <= 'F')
}

/// Value of a hexadecimal (or decimal) digit.
pub open spec fn digit_value(c: char) -> nat {
    if is_digit(c) {
        (c as u32 - '0' as u32) as nat
    } else if 'a' <= c && c <= 'f' {
        (c as u32 - 'a' as u32 + 10) as nat
    } else {
        (c as u32 - 'A' as u32 + 10) as nat
    }
}

/// A letter followed by letters and digits.
pub open spec fn is_identifier(t: Seq<char>) -> bool {
    t.len() > 0 && is_letter(t[0]) && forall|i: int| 0 <= i < t.len() ==> is_alnum(#[trigger] t[i])
}

/// One or more decimal digits.
pub open spec fn is_decimal(t: Seq<char>) -> bool {
    t.len() > 0 && forall|i: int| 0 <= i < t.len() ==> is_digit(#[trigger] t[i])
}

/// `0x` followed by one or more hexadecimal digits.
pub open spec fn is_hex(t: Seq<char>) -> bool {
    t.len() > 2 && t[0] == '0' && t[1] == 'x' && forall|i: int| 2 <= i < t.len() ==> is_hex_digit(#[trigger] t[i])
}

/// Value of the digits `t` in base `base`.
pub open spec fn digits_value(t: Seq<char>, base: nat) -> nat
    decreases t.len(),
{
    if t.len() == 0 {
        0
    } else {
        digits_value(t.drop_last(), base) * base + digit_value(t.last())
    }
}

/// The byte that a decimal or `0x` hexadecimal literal denotes, if any.
pub open spec fn literal_byte(t: Seq<char>) -> Option<u8> {
    if is_decimal(t) && digits_value(t, 10) <= 255 {
        Some(digits_value(t, 10) as u8)
    } else if is_hex(t) && digits_value(t.subrange(2, t.len() as int), 16) <= 255 {
        Some(digits_value(t.subrange(2, t.len() as int), 16) as u8)
    } else {
        None
    }
}

/// The character of decimal digit `d`.
pub open spec fn digit_char(d: nat) -> char {
    ('0' as u32 + d) as char
}

/// Decimal text of `v`, without leading zeros.
pub open spec fn dec_text(v: nat) -> Seq<char>
    decreases v,
{
    if v < 10 {
        seq![digit_char(v)]
    } else {
        dec_text(v / 10).push(digit_char(v % 10))
    }
}

proof fn lemma_digits_grow(t: Seq<char>, base: nat, k: int)
    requires
        0 <= k <= t.len(),
        base >= 1,
    ensures
        digits_value(t.subrange(0, k), base) <= digits_value(t, base),
    decreases t.len() - k,
{
    if k < t.len() {
        lemma_digits_grow(t, base, k + 1);
        let p = t.subrange(0, k + 1);
        assert(p.drop_last() =~= t.subrange(0, k));
        assert(digits_value(p.drop_last(), base) * base >= digits_value(p.drop_last(), base)) by (nonlinear_arith)
            requires
                base >= 1,
        ;
    } else {
        assert(t.subrange(0, k) =~= t);
    }
}

pub fn is_letter_char(c: char) -> (r: bool)
    ensures
        r == is_letter(c),
{
    ('a' <= c && c <= 'z') || ('A' <= c && c <= 'Z')
}

pub fn is_digit_char(c: char) -> (r: bool)
    ensures
        r == is_digit(c),
{
    '0' <= c && c <= '9'
}

/// Whether `t` is an identifier: a letter followed by letters and digits.
pub fn identifier(t: &str) -> (r: bool)
    ensures
        r == is_identifier(t@),
{
    let n = t.unicode_len();
    if n == 0 {
        return false;
    }
    if !is_letter_char(t.get_char(0)) {
        return false;
    }
    let mut i: usize = 0;
    while i < n
        invariant
            n == t@.len(),
            i <= n,
            forall|j: int| 0 <= j < i ==> is_alnum(#[trigger] t@[j]),
        decreases n - i,
    {
        let c = t.get_char(i);
        if !(is_letter_char(c) || is_digit_char(c)) {
            return false;
        }
        i = i + 1;
    }
    true
}

/// Value of the digits of `t` from `start` on in base `base`, or `None`
/// when one is no digit of that base or the value exceeds a byte.
fn digits_byte(t: &str, start: usize, base: u32) -> (r: Option<u8>)
    requires
        start <= t@.len(),
        base == 10 || base == 16,
    ensures
        ({
            let d = t@.subrange(start as int, t@.len() as int);
            let ok = forall|i: int| 0 <= i < d.len() ==> (if base == 10 {
                is_digit(#[trigger] d[i])
            } else {
                is_hex_digit(d[i])
            });
            r == if ok && digits_value(d, base as nat) <= 255 {
                Some(digits_value(d, base as nat) as u8)
            } else {
                None::<u8>
            }
        }),
{
    let n = t.unicode_len();
    let ghost d = t@.subrange(start as int, t@.len() as int);
    let mut v: u32 = 0;
    let mut i: usize = start;
    while i < n
        invariant
            n == t@.len(),
            start <= i <= n,
            base == 10 || base == 16,
            d == t@.subrange(start as int, n as int),
            v <= 255,
            v == digits_value(d.subrange(0, i - start), base as nat),
            forall|j: int| 0 <= j < i - start ==> (if base == 10 {
                is_digit(#[trigger] d[j])
            } else {
                is_hex_digit(d[j])
            }),
        decreases n - i,
    {
        let c = t.get_char(i);
        let dv: u32;
        if '0' <= c && c <= '9' {
            dv = c as u32 - '0' as u32;
        } else if base == 16 && 'a' <= c && c <= 'f' {
            dv = c as u32 - 'a' as u32 + 10;
        } else if base == 16 && 'A' <= c && c <= 'F' {
            dv = c as u32 - 'A' as u32 + 10;
        } else {
            assert(!(if base == 10 { is_digit(d[i - start]) } else { is_hex_digit(d[i - start]) }));
            return None;
        }
        let ghost p = d.subrange(0, i - start + 1);
        assert(p.drop_last() =~= d.subrange(0, i - start));
        assert(p.last() == c);
        let nv = v * base + dv;
        assert(nv == digits_value(p, base as nat));
        if nv > 255 {
            proof {
                lemma_digits_grow(d, base as nat, i - start + 1);
            }
            return None;
        }
        v = nv;
        i = i + 1;
    }
    assert(d.subrange(0, n - start) =~= d);
    Some(v as u8)
}

/// The byte that a decimal or `0x` hexadecimal literal denotes, if any.
pub fn parse_byte(t: &str) -> (r: Option<u8>)
    ensures
        r == literal_byte(t@),
{
    let n = t.unicode_len();
    if n == 0 {
        return None;
    }
    let dec = digits_byte(t, 0, 10);
    assert(t@.subrange(0, n as int) =~= t@);
    if dec.is_some() {
        return dec;
    }
    if n > 2 && t.get_char(0) == '0' && t.get_char(1) == 'x' {
        let hex = digits_byte(t, 2, 16);
        proof {
            let d = t@.subrange(2, n as int);
            assert(forall|i: int| 2 <= i < n ==> t@[i] == d[i - 2]);
            assert(forall|i: int| 0 <= i < d.len() ==> d[i] == t@[i + 2]);
        }
        hex
    } else {
        None
    }
}

/// The one-character string of decimal digit `d`.
fn digit_str(d: u8) -> (r: &'static str)
    requires
        d < 10,
    ensures
        r@ == seq![digit_char(d as nat)],
{
    if d == 0 {
        proof { reveal_strlit("0"); }
        "0"
    } else if d == 1 {
        proof { reveal_strlit("1"); }
        "1"
    } else if d == 2 {
        proof { reveal_strlit("2"); }
        "2"
    } else if d == 3 {
        proof { reveal_strlit("3"); }
        "3"
    } else if d == 4 {
        proof { reveal_strlit("4"); }
        "4"
    } else if d == 5 {
        proof { reveal_strlit("5"); }
        "5"
    } else if d == 6 {
        proof { reveal_strlit("6"); }
        "6"
    } else if d == 7 {
        proof { reveal_strlit("7"); }
        "7"
    } else if d == 8 {
        proof { reveal_strlit("8"); }
        "8"
    } else {
        proof { reveal_strlit("9"); }
        "9"
    }
}

/// Decimal text of `v`.
pub fn number_text(v: usize) -> (r: String)
    ensures
        r@ == dec_text(v as nat),
    decreases v,
{
    if v < 10 {
        String::from_str(digit_str(v as u8))
    } else {
        let mut s = number_text(v / 10);
        s.append(digit_str((v % 10) as u8));
        s
    }
}

} // verus!
