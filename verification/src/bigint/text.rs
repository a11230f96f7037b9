//! Decimal text: reading a number from it and writing a number as it.

use super::limbs::{
    base_pow, lemma_base_pow_succ, lemma_canonical_zero, lemma_value_concat, lemma_value_push,
    lemma_value_single, limbs_in_range, limbs_value, BASE,
};
use super::number::{signed_value, BigInt};
use vstd::prelude::*;
use vstd::std_specs::iter::IteratorSpec;

verus! {

/// Why a conversion failed.
#[derive(Debug, Clone, Copy, PartialEq, Eq, Structural)]
pub enum BigIntError {
    /// The text holds no decimal digit.
    InvalidFormat,
    /// The number does not fit the integer type asked for.
    OutOfRange,
}

/// `c` is one of the characters `0` to `9`.
pub open spec fn is_digit(c: char) -> bool {
    '0' <= c <= '9'
}

/// The number that the digit character `c` stands for.
pub open spec fn digit_of(c: char) -> u8 {
    (c as u32 - 48) as u8
}

/// The character that writes the digit `d`.
pub open spec fn digit_char(d: u8) -> char {
    (d + 48) as char
}

/// Ten to the power `n`.
pub open spec fn pow10(n: nat) -> int
    decreases n,
{
    if n == 0 {
        1
    } else {
        10 * pow10((n - 1) as nat)
    }
}

/// Every element of `ds` is a decimal digit, a number below ten.
pub open spec fn digits_in_range(ds: Seq<u8>) -> bool {
    forall|i: int| 0 <= i < ds.len() ==> #[trigger] ds[i] < 10
}

/// The number written by the decimal digits `ds`, most significant first.
pub open spec fn digits_value(ds: Seq<u8>) -> int
    decreases ds.len(),
{
    if ds.len() == 0 {
        0
    } else {
        digits_value(ds.drop_last()) * 10 + ds.last()
    }
}

/// The decimal digits that `text` holds, in order; every other character
/// is passed over.
pub open spec fn text_digits(text: Seq<char>) -> Seq<u8>
    decreases text.len(),
{
    if text.len() == 0 {
        Seq::empty()
    } else if is_digit(text.last()) {
        text_digits(text.drop_last()).push(digit_of(text.last()))
    } else {
        text_digits(text.drop_last())
    }
}

/// A minus sign stands in `text` before its first digit.
pub open spec fn minus_leads(text: Seq<char>) -> bool
    decreases text.len(),
{
    if text.len() == 0 {
        false
    } else {
        minus_leads(text.drop_last()) || (text.last() == '-' && text_digits(
            text.drop_last(),
        ).len() == 0)
    }
}

/// The integer that `text` writes: its digits read as a decimal number,
/// negative where a minus sign leads.
pub open spec fn text_value(text: Seq<char>) -> int {
    signed_value(digits_value(text_digits(text)), !minus_leads(text))
}

/// The powers of ten that the grouping of digits into limbs rests on.
pub proof fn lemma_pow10_values()
    ensures
        pow10(0) == 1,
        pow10(1) == 10,
        pow10(9) == BASE,
{
    reveal_with_fuel(pow10, 10);
}

/// Powers of ten are positive.
pub proof fn lemma_pow10_positive(n: nat)
    ensures
        pow10(n) > 0,
    decreases n,
{
    if n > 0 {
        lemma_pow10_positive((n - 1) as nat);
    }
}

/// The number written by two runs of digits joined.
pub proof fn lemma_digits_value_concat(a: Seq<u8>, b: Seq<u8>)
    ensures
        digits_value(a + b) == digits_value(a) * pow10(b.len()) + digits_value(b),
    decreases b.len(),
{
    if b.len() == 0 {
        assert(a + b =~= a);
    } else {
        assert((a + b).drop_last() =~= a + b.drop_last());
        lemma_digits_value_concat(a, b.drop_last());
        let x = digits_value(a);
        let p = pow10((b.len() - 1) as nat);
        assert(x * (10 * p) == (x * p) * 10) by (nonlinear_arith);
    }
}

/// The characters of `text`, in order.
pub fn chars_of(text: &str) -> (r: Vec<char>)
    ensures
        r@ == text@,
{
    let mut res: Vec<char> = Vec::new();
    let mut it = text.chars();
    loop
        invariant
            res@ + it.remaining() == text@,
            it.obeys_prophetic_iter_laws(),
            it.decrease() is Some,
        decreases it.decrease()->0,
    {
        let ghost before = it.remaining();
        match it.next() {
            Some(c) => {
                proof {
                    assert(res@.push(c) + it.remaining() =~= res@ + before);
                }
                res.push(c);
            },
            None => {
                proof {
                    assert(res@ + before =~= res@);
                }
                return res;
            },
        }
    }
}

/// The limbs of the number that the decimal digits write: the digits are
/// cut into groups of `BASE_WIDTH` from the least significant end, a
/// shorter group being left at the front, and each group is read as one limb.
pub fn limbs_of_digits(digits: &Vec<u8>) -> (res: Vec<u32>)
    requires
        digits_in_range(digits@),
    ensures
        limbs_in_range(res@),
        limbs_value(res@) == digits_value(digits@),
{
    let mut res: Vec<u32> = Vec::new();
    let mut end: usize = digits.len();
    proof {
        assert(digits@.take(end as int) =~= digits@);
        lemma_base_pow_succ(0);
    }
    while end > 0
        invariant
            end <= digits.len(),
            digits_in_range(digits@),
            limbs_in_range(res@),
            limbs_value(res@) + digits_value(digits@.take(end as int)) * base_pow(res.len() as nat)
                == digits_value(digits@),
        decreases end,
    {
        let start: usize = if end >= 9 {
            end - 9
        } else {
            0
        };
        let mut limb: u32 = 0;
        let mut j: usize = start;
        proof {
            assert(digits@.subrange(start as int, start as int) =~= Seq::<u8>::empty());
            lemma_pow10_values();
        }
        while j < end
            invariant
                start <= j <= end <= digits.len(),
                end - start <= 9,
                digits_in_range(digits@),
                limb == digits_value(digits@.subrange(start as int, j as int)),
                limb < pow10((j - start) as nat),
            decreases end - j,
        {
            proof {
                let next = digits@.subrange(start as int, j + 1);
                assert(next.drop_last() =~= digits@.subrange(start as int, j as int));
                assert(next.last() == digits@[j as int]);
                lemma_pow10_le((j - start + 1) as nat, 9);
                lemma_pow10_values();
            }
            limb = limb * 10 + digits[j] as u32;
            j += 1;
        }
        proof {
            let low = digits@.subrange(start as int, end as int);
            let high = digits@.take(start as int);
            assert(digits@.take(end as int) =~= high + low);
            lemma_digits_value_concat(high, low);
            lemma_pow10_le((end - start) as nat, 9);
            lemma_pow10_values();
            lemma_value_push(res@, limb);
            lemma_base_pow_succ(res.len() as nat);
            if end - start < 9 {
                assert(high =~= Seq::<u8>::empty());
                assert(0 * pow10((end - start) as nat) == 0);
                assert(0 * base_pow(res.len() as nat + 1) == 0);
                assert(limb * base_pow(res.len() as nat) == limb * base_pow(res.len() as nat));
                lemma_chunk_step(
                    base_pow(res.len() as nat),
                    0,
                    limb as int,
                );
            } else {
                lemma_chunk_step(
                    base_pow(res.len() as nat),
                    digits_value(high),
                    limb as int,
                );
            }
        }
        res.push(limb);
        end = start;
    }
    proof {
        assert(digits@.take(0) =~= Seq::<u8>::empty());
        assert(0 * base_pow(res.len() as nat) == 0);
    }
    res
}

/// Taking one limb off the low end of what is still to be read: `h` is
/// worth the digits above the limb `l`, at the position worth `p`.
proof fn lemma_chunk_step(p: int, h: int, l: int)
    ensures
        (h * BASE + l) * p == l * p + h * (p * BASE),
{
    assert((h * BASE + l) * p == l * p + h * (p * BASE)) by (nonlinear_arith);
}

/// Powers of ten grow with the exponent.
pub proof fn lemma_pow10_le(m: nat, n: nat)
    requires
        m <= n,
    ensures
        pow10(m) <= pow10(n),
    decreases n,
{
    if m < n {
        lemma_pow10_le(m, (n - 1) as nat);
        lemma_pow10_positive((n - 1) as nat);
    }
}

impl BigInt {
    /// Reads a number from decimal text.
    ///
    /// Only the digits count, and a minus sign that stands before the first
    /// of them: every other character (a grouping separator, a space) is
    /// passed over. Leading zeros are dropped, and zero is not negative
    /// whatever the text says. Text without a digit is refused.
    pub fn from_decimal_string(text: &str) -> (r: Result<BigInt, BigIntError>)
        ensures
            match r {
                Ok(n) => text_digits(text@).len() > 0 && n.wf() && n@ == text_value(text@),
                Err(e) => text_digits(text@).len() == 0 && e == BigIntError::InvalidFormat,
            },
    {
        let chars = chars_of(text);
        let n = chars.len();
        let mut digits: Vec<u8> = Vec::new();
        let mut negative = false;
        let mut i: usize = 0;
        proof {
            assert(chars@.take(0) =~= Seq::<char>::empty());
        }
        while i < n
            invariant
                i <= n,
                n == chars.len(),
                digits@ == text_digits(chars@.take(i as int)),
                digits_in_range(digits@),
                negative == minus_leads(chars@.take(i as int)),
            decreases n - i,
        {
            let c = chars[i];
            proof {
                assert(chars@.take(i + 1).drop_last() =~= chars@.take(i as int));
                assert(chars@.take(i + 1).last() == c);
            }
            if '0' <= c && c <= '9' {
                digits.push((c as u32 - 48) as u8);
            } else if c == '-' && digits.len() == 0 {
                negative = true;
            }
            i += 1;
        }
        proof {
            assert(chars@.take(n as int) =~= chars@);
        }
        if digits.len() == 0 {
            return Err(BigIntError::InvalidFormat);
        }
        let limbs = limbs_of_digits(&digits);
        Ok(BigInt::new(limbs, !negative))
    }
}

/// The decimal digits of `n`, most significant first, without a leading
/// zero; the one digit 0 for zero.
pub open spec fn decimal_digits_of(n: nat) -> Seq<u8>
    decreases n,
{
    if n < 10 {
        seq![n as u8]
    } else {
        decimal_digits_of(n / 10).push((n % 10) as u8)
    }
}

/// The `width` lowest decimal digits of `n`, most significant first, with
/// zeros in front where `n` has fewer.
pub open spec fn padded_digits(n: nat, width: nat) -> Seq<u8>
    decreases width,
{
    if width == 0 {
        Seq::empty()
    } else {
        padded_digits(n / 10, (width - 1) as nat).push((n % 10) as u8)
    }
}

/// The characters that write the digits `ds`.
pub open spec fn digits_text(ds: Seq<u8>) -> Seq<char> {
    ds.map_values(|d: u8| digit_char(d))
}

/// The integer `n` in decimal: a minus sign where it is negative, then its
/// digits without a leading zero.
pub open spec fn decimal_text(n: int) -> Seq<char> {
    if n < 0 {
        seq!['-'] + digits_text(decimal_digits_of((-n) as nat))
    } else {
        digits_text(decimal_digits_of(n as nat))
    }
}

/// Writing a number of at least one above `width` further digits: the
/// digits of `high * 10^width + low` are those of `high`, then `low`
/// padded to `width` digits.
pub proof fn lemma_digits_shift(high: nat, low: nat, width: nat)
    requires
        high >= 1,
        low < pow10(width),
    ensures
        decimal_digits_of((high * pow10(width) + low) as nat) == decimal_digits_of(high)
            + padded_digits(low, width),
    decreases width,
{
    if width == 0 {
        assert(high * 1 + low == high);
        assert(decimal_digits_of(high) + Seq::<u8>::empty() =~= decimal_digits_of(high));
    } else {
        let w = (width - 1) as nat;
        let p = pow10(w);
        lemma_pow10_positive(w);
        let n = (high * pow10(width) + low) as nat;
        assert(high * (10 * p) == 10 * (high * p)) by (nonlinear_arith);
        assert(high * p >= 1) by (nonlinear_arith)
            requires
                high >= 1,
                p >= 1,
        ;
        assert(n / 10 == high * p + low / 10);
        assert(n % 10 == low % 10);
        lemma_digits_shift(high, low / 10, w);
        assert((decimal_digits_of(high) + padded_digits(low / 10, w)).push((low % 10) as u8)
            =~= decimal_digits_of(high) + padded_digits(low, width));
    }
}

/// Appends the character of one decimal digit.
fn push_digit(out: &mut String, d: u8)
    requires
        d < 10,
    ensures
        final(out)@ == old(out)@.push(digit_char(d)),
{
    proof {
        reveal_strlit("0");
        reveal_strlit("1");
        reveal_strlit("2");
        reveal_strlit("3");
        reveal_strlit("4");
        reveal_strlit("5");
        reveal_strlit("6");
        reveal_strlit("7");
        reveal_strlit("8");
        reveal_strlit("9");
    }
    let ghost before = out@;
    let piece = match d {
        0 => "0",
        1 => "1",
        2 => "2",
        3 => "3",
        4 => "4",
        5 => "5",
        6 => "6",
        7 => "7",
        8 => "8",
        _ => "9",
    };
    assert(piece@ =~= seq![digit_char(d)]);
    out.append(piece);
    assert(out@ =~= before.push(digit_char(d)));
}

/// Appends `n` in decimal, without a leading zero.
fn write_digits(out: &mut String, n: u32)
    ensures
        final(out)@ == old(out)@ + digits_text(decimal_digits_of(n as nat)),
    decreases n,
{
    let ghost before = out@;
    if n >= 10 {
        write_digits(out, n / 10);
    }
    push_digit(out, (n % 10) as u8);
    proof {
        let high = decimal_digits_of((n / 10) as nat);
        if n >= 10 {
            assert((before + digits_text(high)).push(digit_char((n % 10) as u8)) =~= before
                + digits_text(high.push((n % 10) as u8)));
        } else {
            assert(before.push(digit_char(n as u8)) =~= before + digits_text(seq![n as u8]));
        }
    }
}

/// Appends the `width` lowest digits of `n`, zeros in front where `n` has fewer.
fn write_padded(out: &mut String, n: u32, width: usize)
    ensures
        final(out)@ == old(out)@ + digits_text(padded_digits(n as nat, width as nat)),
    decreases width,
{
    let ghost before = out@;
    if width > 0 {
        write_padded(out, n / 10, width - 1);
        push_digit(out, (n % 10) as u8);
        proof {
            let high = padded_digits((n / 10) as nat, (width - 1) as nat);
            assert((before + digits_text(high)).push(digit_char((n % 10) as u8)) =~= before
                + digits_text(high.push((n % 10) as u8)));
        }
    } else {
        assert(before + digits_text(Seq::<u8>::empty()) =~= before);
    }
}

impl BigInt {
    /// The number in decimal, as `to_decimal_string` writes it.
    pub fn to_string(&self) -> (r: String)
        requires
            self.wf(),
        ensures
            r@ == decimal_text(self@),
    {
        self.to_decimal_string()
    }

    /// Writes the number in decimal: a minus sign where it is negative,
    /// then the most significant limb as it is and every other limb padded
    /// with zeros to `BASE_WIDTH` digits.
    pub fn to_decimal_string(&self) -> (r: String)
        requires
            self.wf(),
        ensures
            r@ == decimal_text(self@),
    {
        let digits = self.digits();
        let n = digits.len();
        let mut out = String::new();
        proof {
            lemma_canonical_zero(digits@);
            reveal_strlit("-");
        }
        if !self.is_positive() {
            out.append("-");
        }
        let ghost sign = out@;
        assert(sign =~= if self.non_negative() {
            Seq::<char>::empty()
        } else {
            seq!['-']
        });
        let mut i: usize = n - 1;
        write_digits(&mut out, digits[i]);
        proof {
            assert(digits@.subrange(i as int, n as int) =~= seq![digits@[i as int]]);
            lemma_value_single(digits@[i as int]);
            assert(n > 1 ==> digits@.last() != 0);
        }
        while i > 0
            invariant
                i < n,
                n == digits.len(),
                limbs_in_range(digits@),
                n > 1 ==> limbs_value(digits@.subrange(i as int, n as int)) >= 1,
                limbs_value(digits@.subrange(i as int, n as int)) >= 0,
                out@ == sign + digits_text(
                    decimal_digits_of(limbs_value(digits@.subrange(i as int, n as int)) as nat),
                ),
            decreases i,
        {
            let ghost high = limbs_value(digits@.subrange(i as int, n as int));
            let ghost written = decimal_digits_of(high as nat);
            i -= 1;
            write_padded(&mut out, digits[i], 9);
            proof {
                let limb = digits@[i as int];
                let part = digits@.subrange(i as int, n as int);
                assert(part =~= seq![limb] + digits@.subrange(i + 1, n as int));
                lemma_value_concat(seq![limb], digits@.subrange(i + 1, n as int));
                lemma_value_single(limb);
                lemma_base_pow_succ(0);
                lemma_pow10_values();
                lemma_digits_shift(high as nat, limb as nat, 9);
                assert(high * BASE + limb >= 1) by (nonlinear_arith)
                    requires
                        high >= 1,
                        limb >= 0,
                ;
                assert(sign + digits_text(written) + digits_text(padded_digits(limb as nat, 9))
                    =~= sign + digits_text(written + padded_digits(limb as nat, 9)));
            }
        }
        proof {
            assert(digits@.subrange(0, n as int) =~= digits@);
        }
        out
    }
}

/// The digits `ds` without their leading zeros; one digit is always left.
pub open spec fn strip_leading_zeros(ds: Seq<u8>) -> Seq<u8>
    decreases ds.len(),
{
    if ds.len() <= 1 || ds[0] != 0 {
        ds
    } else {
        strip_leading_zeros(ds.drop_first())
    }
}

/// The canonical way to write what `text` writes: its digits without
/// leading zeros, after a minus sign where one leads and the number is not
/// zero.
pub open spec fn canonical_text(text: Seq<char>) -> Seq<char> {
    let ds = strip_leading_zeros(text_digits(text));
    if minus_leads(text) && ds != seq![0u8] {
        seq!['-'] + digits_text(ds)
    } else {
        digits_text(ds)
    }
}

/// What is read off a text as its digits are decimal digits.
pub proof fn lemma_text_digits_in_range(text: Seq<char>)
    ensures
        digits_in_range(text_digits(text)),
    decreases text.len(),
{
    if text.len() > 0 {
        lemma_text_digits_in_range(text.drop_last());
    }
}

/// The digits of a number are decimal digits, at least one of them, and
/// they write that number; only zero is written as the digit 0.
pub proof fn lemma_decimal_digits_of(n: nat)
    ensures
        digits_in_range(decimal_digits_of(n)),
        decimal_digits_of(n).len() >= 1,
        digits_value(decimal_digits_of(n)) == n,
        decimal_digits_of(n) == seq![0u8] <==> n == 0,
        decimal_digits_of(n)[0] == 0 <==> n == 0,
    decreases n,
{
    if n < 10 {
        let ds = seq![n as u8];
        assert(ds.drop_last() =~= Seq::<u8>::empty());
        assert(digits_value(ds) == digits_value(ds.drop_last()) * 10 + ds.last());
        assert(seq![0u8][0] == 0);
    } else {
        lemma_decimal_digits_of(n / 10);
        let high = decimal_digits_of(n / 10);
        let ds = high.push((n % 10) as u8);
        assert(ds.drop_last() =~= high);
        assert(ds.len() >= 2);
        assert(seq![0u8].len() == 1);
    }
}

/// Digits that do not begin with zero write a number whose digits they are.
proof fn lemma_digits_without_leading_zero(ds: Seq<u8>)
    requires
        digits_in_range(ds),
        ds.len() >= 1,
        ds.len() == 1 || ds[0] != 0,
    ensures
        decimal_digits_of(digits_value(ds) as nat) == ds,
        ds[0] != 0 ==> digits_value(ds) >= 1,
        digits_value(ds) >= 0,
    decreases ds.len(),
{
    let init = ds.drop_last();
    assert(digits_in_range(init));
    if ds.len() == 1 {
        assert(init =~= Seq::<u8>::empty());
        assert(digits_value(init) == 0);
        assert(digits_value(ds) == digits_value(init) * 10 + ds.last());
        assert(ds =~= seq![ds[0]]);
    } else {
        assert(init[0] == ds[0]);
        lemma_digits_without_leading_zero(init);
        let v = digits_value(ds);
        assert(v == digits_value(init) * 10 + ds.last());
        assert(v / 10 == digits_value(init));
        assert(v % 10 == ds.last());
        assert(init.push(ds.last()) =~= ds);
    }
}

/// A leading zero adds nothing to what digits write.
proof fn lemma_leading_zero(ds: Seq<u8>)
    requires
        ds.len() >= 1,
        ds[0] == 0,
    ensures
        digits_value(ds) == digits_value(ds.drop_first()),
{
    let head = seq![0u8];
    assert(ds =~= head + ds.drop_first());
    lemma_digits_value_concat(head, ds.drop_first());
    assert(head.drop_last() =~= Seq::<u8>::empty());
    assert(digits_value(head) == digits_value(head.drop_last()) * 10 + head.last());
    assert(0 * pow10(ds.drop_first().len()) == 0);
}

/// The digits of the number that `ds` writes are `ds` without its leading
/// zeros.
pub proof fn lemma_digits_of_value(ds: Seq<u8>)
    requires
        digits_in_range(ds),
        ds.len() >= 1,
    ensures
        digits_value(ds) >= 0,
        decimal_digits_of(digits_value(ds) as nat) == strip_leading_zeros(ds),
    decreases ds.len(),
{
    if ds.len() <= 1 || ds[0] != 0 {
        lemma_digits_without_leading_zero(ds);
    } else {
        lemma_leading_zero(ds);
        assert(digits_in_range(ds.drop_first()));
        lemma_digits_of_value(ds.drop_first());
    }
}

/// Reading the characters that write digits gives those digits back, and
/// no minus sign.
pub proof fn lemma_read_digits_text(ds: Seq<u8>)
    requires
        digits_in_range(ds),
    ensures
        text_digits(digits_text(ds)) == ds,
        !minus_leads(digits_text(ds)),
    decreases ds.len(),
{
    let text = digits_text(ds);
    if ds.len() > 0 {
        assert(digits_in_range(ds.drop_last()));
        lemma_read_digits_text(ds.drop_last());
        assert(text.drop_last() =~= digits_text(ds.drop_last()));
        let d = ds.last();
        assert(text.last() == digit_char(d));
        assert(is_digit(digit_char(d)) && digit_of(digit_char(d)) == d);
        assert(ds.drop_last().push(d) =~= ds);
    }
}

/// Reading digits behind a minus sign gives the digits, and the sign.
pub proof fn lemma_read_negative_text(ds: Seq<u8>)
    requires
        digits_in_range(ds),
    ensures
        text_digits(seq!['-'] + digits_text(ds)) == ds,
        minus_leads(seq!['-'] + digits_text(ds)),
    decreases ds.len(),
{
    let text = seq!['-'] + digits_text(ds);
    if ds.len() == 0 {
        assert(text.drop_last() =~= Seq::<char>::empty());
        assert(text.last() == '-');
        assert(text_digits(text.drop_last()) =~= Seq::<u8>::empty());
        assert(text_digits(text) =~= ds);
    } else {
        assert(digits_in_range(ds.drop_last()));
        lemma_read_negative_text(ds.drop_last());
        assert(text.drop_last() =~= seq!['-'] + digits_text(ds.drop_last()));
        let d = ds.last();
        assert(text.last() == digit_char(d));
        assert(is_digit(digit_char(d)) && digit_of(digit_char(d)) == d);
        assert(ds.drop_last().push(d) =~= ds);
    }
}

} // verus!
