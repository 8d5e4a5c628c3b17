//! Numbers as the display shows them: decimal digits in ASCII, set to the
//! right of a field of blanks.

use vstd::prelude::*;

verus! {

/// The ASCII code of the digit zero.
pub const ZERO: u8 = 48;

/// The ASCII code of the minus sign.
pub const MINUS: u8 = 45;

/// The ASCII code of the blank.
pub const SPACE: u8 = 32;

/// The ASCII code of the decimal digit `d`.
pub open spec fn digit(d: int) -> u8
    recommends
        0 <= d < 10,
{
    (ZERO + d) as u8
}

/// The decimal digits of `n`, the highest first, none of them a leading zero.
pub open spec fn decimal(n: nat) -> Seq<u8>
    decreases n,
{
    if n < 10 {
        seq![digit(n as int)]
    } else {
        decimal(n / 10).push(digit((n % 10) as int))
    }
}

/// The decimal digits of `v`, behind a minus sign where it is negative.
pub open spec fn signed_decimal(v: int) -> Seq<u8> {
    if v < 0 {
        seq![MINUS] + decimal((-v) as nat)
    } else {
        decimal(v as nat)
    }
}

/// `text` at the right end of a field of `width` blanks; `text` itself
/// where it is as long as the field or longer.
pub open spec fn right_aligned(text: Seq<u8>, width: nat) -> Seq<u8> {
    if text.len() >= width {
        text
    } else {
        Seq::new((width - text.len()) as nat, |i: int| SPACE) + text
    }
}

/// A number has at least one digit, and every one of them is a digit.
pub proof fn lemma_decimal_digits(n: nat)
    ensures
        decimal(n).len() >= 1,
        forall|i: int| 0 <= i < decimal(n).len() ==> ZERO <= #[trigger] decimal(n)[i] <= ZERO + 9,
        n < 10 <==> decimal(n).len() == 1,
    decreases n,
{
    if n >= 10 {
        lemma_decimal_digits(n / 10);
    }
}

/// A field is never shorter than its width, and never cuts its text.
pub proof fn lemma_right_aligned_len(text: Seq<u8>, width: nat)
    ensures
        right_aligned(text, width).len() == (if text.len() >= width {
            text.len()
        } else {
            width
        }),
        right_aligned(text, width).skip(right_aligned(text, width).len() - text.len()) == text,
{
    let field = right_aligned(text, width);
    assert(field.skip(field.len() - text.len()) =~= text);
}

/// The decimal digits of `value`.
pub fn format_decimal(value: u64) -> (text: Vec<u8>)
    ensures
        text@ == decimal(value as nat),
{
    let mut text: Vec<u8> = Vec::new();
    let mut rest: u64 = value;
    while rest >= 10
        invariant
            decimal(value as nat) == decimal(rest as nat) + text@,
        decreases rest,
    {
        let low: u8 = (rest % 10) as u8;
        proof {
            let head = decimal((rest / 10) as nat);
            assert(decimal(rest as nat) + text@ =~= head + (seq![digit(low as int)] + text@));
            assert(text@.insert(0, digit(low as int)) =~= seq![digit(low as int)] + text@);
        }
        text.insert(0, ZERO + low);
        rest = rest / 10;
    }
    proof {
        assert(decimal(rest as nat) + text@ =~= text@.insert(0, digit(rest as int)));
    }
    text.insert(0, ZERO + (rest as u8));
    text
}

/// The decimal digits of `value`, behind a minus sign where it is negative.
pub fn format_signed(value: i64) -> (text: Vec<u8>)
    ensures
        text@ == signed_decimal(value as int),
{
    if value < 0 {
        let size: u64 = if value == i64::MIN {
            0x8000_0000_0000_0000
        } else {
            (-value) as u64
        };
        let mut text = format_decimal(size);
        proof {
            assert(text@.insert(0, MINUS) =~= seq![MINUS] + text@);
        }
        text.insert(0, MINUS);
        text
    } else {
        format_decimal(value as u64)
    }
}

/// `text` at the right end of a field of `width` blanks. A text that is
/// longer than the field is left whole.
pub fn pad_left(text: Vec<u8>, width: usize) -> (field: Vec<u8>)
    ensures
        field@ == right_aligned(text@, width as nat),
{
    let mut field = text;
    let ghost given = field@;
    while field.len() < width
        invariant
            field@.len() >= given.len(),
            field@.len() <= width || field@.len() == given.len(),
            field@ == Seq::new((field@.len() - given.len()) as nat, |i: int| SPACE) + given,
        decreases width - field.len(),
    {
        proof {
            let blanks = Seq::new((field@.len() - given.len()) as nat, |i: int| SPACE);
            let more = Seq::new((field@.len() + 1 - given.len()) as nat, |i: int| SPACE);
            assert((blanks + given).insert(0, SPACE) =~= more + given);
        }
        field.insert(0, SPACE);
    }
    assert(field@ =~= right_aligned(given, width as nat));
    field
}

} // verus!
