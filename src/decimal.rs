use vstd::prelude::*;

verus! {

/// ASCII code of the character `0`.
pub const ZERO_BYTE: u8 = 48;

/// ASCII code of a space.
pub const SPACE_BYTE: u8 = 32;

/// Width of a word field on the wire.
pub const WORD_FIELD_WIDTH: usize = 5;

/// The decimal digits of `n`, most significant first, without leading zeros
/// (zero is the single digit `0`), as ASCII bytes.
pub open spec fn decimal(n: nat) -> Seq<u8>
    decreases n,
{
    if n < 10 {
        seq![(ZERO_BYTE + n) as u8]
    } else {
        decimal(n / 10).push((ZERO_BYTE + n % 10) as u8)
    }
}

/// `k` space bytes.
pub open spec fn spaces(k: nat) -> Seq<u8> {
    Seq::new(k, |_i: int| SPACE_BYTE)
}

/// `n` in decimal, right-aligned in a field of `width` bytes and padded on
/// the left with spaces; a number wider than the field is not cut.
pub open spec fn right_aligned(n: nat, width: nat) -> Seq<u8> {
    if decimal(n).len() < width {
        spaces((width - decimal(n).len()) as nat) + decimal(n)
    } else {
        decimal(n)
    }
}

/// The field that carries one programming word on the wire.
pub open spec fn word_field(w: u16) -> Seq<u8> {
    right_aligned(w as nat, WORD_FIELD_WIDTH as nat)
}

/// Every byte of `decimal(n)` is an ASCII digit.
pub proof fn lemma_decimal_digits(n: nat)
    ensures
        decimal(n).len() >= 1,
        forall|i: int| 0 <= i < decimal(n).len() ==> 48 <= #[trigger] decimal(n)[i] <= 57,
    decreases n,
{
    if n >= 10 {
        lemma_decimal_digits(n / 10);
    }
}

/// A number below `10^5` has at most five decimal digits.
pub proof fn lemma_decimal_len_u16(n: nat)
    requires
        n < 100000,
    ensures
        decimal(n).len() <= 5,
{
    reveal_with_fuel(decimal, 6);
}

/// For every 16-bit word, the field is exactly five bytes: spaces, then the
/// word's decimal digits, which end the field.
pub proof fn lemma_word_field_shape(w: u16)
    ensures
        word_field(w).len() == WORD_FIELD_WIDTH,
        ({
            let pad = WORD_FIELD_WIDTH - decimal(w as nat).len();
            &&& word_field(w).take(pad) == spaces(pad as nat)
            &&& word_field(w).skip(pad) == decimal(w as nat)
        }),
{
    lemma_decimal_len_u16(w as nat);
    lemma_decimal_digits(w as nat);
    let d = decimal(w as nat);
    let pad = WORD_FIELD_WIDTH - d.len();
    if d.len() < 5 {
        assert(word_field(w).take(pad) =~= spaces(pad as nat));
        assert(word_field(w).skip(pad) =~= d);
    } else {
        assert(word_field(w).take(0) =~= spaces(0));
        assert(word_field(w).skip(0) =~= d);
    }
}

/// The decimal digits of `n` as ASCII bytes.
pub fn decimal_bytes(n: u32) -> (r: Vec<u8>)
    ensures
        r@ == decimal(n as nat),
    decreases n,
{
    if n < 10 {
        vec![ZERO_BYTE + n as u8]
    } else {
        let mut r = decimal_bytes(n / 10);
        r.push(ZERO_BYTE + (n % 10) as u8);
        r
    }
}

/// The five-byte wire field of a programming word: its decimal digits,
/// right-aligned and padded with spaces (`42` becomes `"   42"`).
pub fn format_word(w: u16) -> (r: Vec<u8>)
    ensures
        r@ == word_field(w),
        r@.len() == WORD_FIELD_WIDTH,
{
    let digits = decimal_bytes(w as u32);
    proof {
        lemma_decimal_len_u16(w as nat);
        lemma_word_field_shape(w);
    }
    let pad: usize = WORD_FIELD_WIDTH - digits.len();
    let mut r: Vec<u8> = Vec::new();
    let mut i: usize = 0;
    while i < pad
        invariant
            i <= pad,
            r@ == spaces(i as nat),
        decreases pad - i,
    {
        r.push(SPACE_BYTE);
        i = i + 1;
        assert(r@ =~= spaces(i as nat));
    }
    let mut j: usize = 0;
    while j < digits.len()
        invariant
            j <= digits.len(),
            pad + digits@.len() == WORD_FIELD_WIDTH,
            r@ == spaces(pad as nat) + digits@.take(j as int),
        decreases digits.len() - j,
    {
        r.push(digits[j]);
        j = j + 1;
        assert(r@ =~= spaces(pad as nat) + digits@.take(j as int));
    }
    assert(digits@.take(digits@.len() as int) =~= digits@);
    assert(r@ =~= word_field(w));
    r
}

} // verus!
