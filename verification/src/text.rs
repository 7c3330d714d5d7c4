use vstd::prelude::*;

verus! {

/// ASCII `'0'`.
pub const ASCII_ZERO: u8 = 0x30;

/// Decimal digits of `v`, most significant first, without leading zeros.
pub open spec fn decimal(v: nat) -> Seq<u8>
    decreases v,
{
    if v < 10 {
        seq![(v + 0x30) as u8]
    } else {
        decimal(v / 10).push(((v % 10) + 0x30) as u8)
    }
}

/// `decimal(v)` left-padded with `'0'` to at least `width` characters
/// (what `{:0width$}` prints for an unsigned integer).
pub open spec fn zero_padded(v: nat, width: nat) -> Seq<u8> {
    let d = decimal(v);
    if d.len() >= width {
        d
    } else {
        Seq::new((width - d.len()) as nat, |i: int| 0x30u8) + d
    }
}

/// The decimal representation of `v`.
pub fn decimal_digits(v: u32) -> (r: Vec<u8>)
    ensures
        r@ == decimal(v as nat),
    decreases v,
{
    if v < 10 {
        let mut r: Vec<u8> = Vec::new();
        r.push(v as u8 + 0x30);
        assert(r@ =~= decimal(v as nat));
        r
    } else {
        let mut r = decimal_digits(v / 10);
        r.push((v % 10) as u8 + 0x30);
        r
    }
}

/// The decimal representation of `v`, zero-padded to `width` characters.
pub fn decimal_padded(v: u32, width: usize) -> (r: Vec<u8>)
    ensures
        r@ == zero_padded(v as nat, width as nat),
{
    let digits = decimal_digits(v);
    if digits.len() >= width {
        return digits;
    }
    let mut r: Vec<u8> = Vec::new();
    let pad = width - digits.len();
    let mut i: usize = 0;
    while i < pad
        invariant
            i <= pad,
            r@ == Seq::new(i as nat, |k: int| 0x30u8),
        decreases pad - i,
    {
        r.push(0x30);
        i = i + 1;
        assert(r@ =~= Seq::new(i as nat, |k: int| 0x30u8));
    }
    let mut j: usize = 0;
    while j < digits.len()
        invariant
            j <= digits@.len(),
            r@ == Seq::new(pad as nat, |k: int| 0x30u8) + digits@.subrange(0, j as int),
        decreases digits@.len() - j,
    {
        r.push(digits[j]);
        j = j + 1;
        assert(r@ =~= Seq::new(pad as nat, |k: int| 0x30u8) + digits@.subrange(0, j as int));
    }
    assert(digits@.subrange(0, digits@.len() as int) =~= digits@);
    r
}

/// `v` shifted right by `k` hexadecimal digits.
pub open spec fn shift16(v: nat, k: nat) -> nat
    decreases k,
{
    if k == 0 {
        v
    } else {
        shift16(v / 16, (k - 1) as nat)
    }
}

/// The upper-case hexadecimal character of a digit below 16.
pub open spec fn hex_char(n: nat) -> u8 {
    if n < 10 {
        (0x30 + n) as u8
    } else {
        (0x41 + n - 10) as u8
    }
}

/// The `digits` lowest hexadecimal digits of `v`, most significant first,
/// in upper case (what `write_hex` prints).
pub open spec fn hex_digits_spec(v: nat, digits: nat) -> Seq<u8> {
    Seq::new(digits, |j: int| hex_char(shift16(v, (digits - 1 - j) as nat) % 16))
}

proof fn lemma_shift16_step(v: nat, k: nat)
    ensures
        shift16(v, k + 1) == shift16(v, k) / 16,
    decreases k,
{
    if k > 0 {
        lemma_shift16_step(v / 16, (k - 1) as nat);
    } else {
        reveal_with_fuel(shift16, 2);
    }
}

/// The `digits` (at most 8) lowest hexadecimal digits of `val`, upper case,
/// most significant first.
pub fn hex_digits(val: u32, digits: u8) -> (r: Vec<u8>)
    requires
        digits <= 8,
    ensures
        r@ == hex_digits_spec(val as nat, digits as nat),
{
    let mut buf: [u8; 8] = [0x30u8; 8];
    let mut cur = val;
    let mut i: u8 = 0;
    while i < digits
        invariant
            i <= digits <= 8,
            cur as nat == shift16(val as nat, i as nat),
            forall|j: int|
                digits - i <= j < digits ==> buf@[j] == hex_char(
                    shift16(val as nat, (digits - 1 - j) as nat) % 16,
                ),
        decreases digits - i,
    {
        let hex = (cur & 0xF) as u8;
        assert(cur & 0xF == cur % 16) by (bit_vector);
        buf[(digits - 1 - i) as usize] = if hex < 10 {
            0x30 + hex
        } else {
            0x41 + hex - 10
        };
        proof {
            lemma_shift16_step(val as nat, i as nat);
        }
        assert(cur >> 4 == cur / 16) by (bit_vector);
        cur = cur >> 4;
        i = i + 1;
    }
    let mut r: Vec<u8> = Vec::new();
    let mut k: usize = 0;
    while k < digits as usize
        invariant
            k <= digits <= 8,
            r@ == buf@.subrange(0, k as int),
        decreases digits - k,
    {
        r.push(buf[k]);
        k = k + 1;
        assert(r@ =~= buf@.subrange(0, k as int));
    }
    assert(r@ =~= hex_digits_spec(val as nat, digits as nat));
    r
}

} // verus!
