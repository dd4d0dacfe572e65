//! Byte encodings of numbers.

use vstd::prelude::*;

verus! {

/// The big-endian bytes of `value`: byte `i` is digit `7 - i` of `value` in base 256.
pub open spec fn be_bytes(value: u64) -> Seq<u8> {
    seq![
        (value / 0x100_0000_0000_0000 % 256) as u8,
        (value / 0x1_0000_0000_0000 % 256) as u8,
        (value / 0x100_0000_0000 % 256) as u8,
        (value / 0x1_0000_0000 % 256) as u8,
        (value / 0x100_0000 % 256) as u8,
        (value / 0x1_0000 % 256) as u8,
        (value / 0x100 % 256) as u8,
        (value % 256) as u8,
    ]
}

/// The number whose big-endian digits in base 256 are `bytes`.
pub open spec fn be_value(bytes: Seq<u8>) -> nat
    decreases bytes.len(),
{
    if bytes.len() == 0 {
        0
    } else {
        be_value(bytes.drop_last()) * 256 + bytes.last() as nat
    }
}

/// The value of eight big-endian digits, written out.
proof fn lemma_be_value_of_eight(bytes: Seq<u8>)
    requires
        bytes.len() == 8,
    ensures
        be_value(bytes) == (((((((bytes[0] as nat * 256 + bytes[1] as nat) * 256
            + bytes[2] as nat) * 256 + bytes[3] as nat) * 256 + bytes[4] as nat) * 256
            + bytes[5] as nat) * 256 + bytes[6] as nat) * 256 + bytes[7] as nat),
{
    let s7 = bytes.drop_last();
    let s6 = s7.drop_last();
    let s5 = s6.drop_last();
    let s4 = s5.drop_last();
    let s3 = s4.drop_last();
    let s2 = s3.drop_last();
    let s1 = s2.drop_last();
    assert(be_value(s1.drop_last()) == 0);
    assert(be_value(s1) == bytes[0] as nat);
    assert(be_value(s2) == be_value(s1) * 256 + bytes[1] as nat);
    assert(be_value(s3) == be_value(s2) * 256 + bytes[2] as nat);
    assert(be_value(s4) == be_value(s3) * 256 + bytes[3] as nat);
    assert(be_value(s5) == be_value(s4) * 256 + bytes[4] as nat);
    assert(be_value(s6) == be_value(s5) * 256 + bytes[5] as nat);
    assert(be_value(s7) == be_value(s6) * 256 + bytes[6] as nat);
}

/// Reading the big-endian bytes of a number gives the number back.
pub proof fn law_be_bytes_round_trip(value: u64)
    ensures
        be_bytes(value).len() == 8,
        be_value(be_bytes(value)) == value,
{
    lemma_be_value_of_eight(be_bytes(value));
    assert(value == (value / 0x100_0000_0000_0000 % 256) * 0x100_0000_0000_0000 + (value
        / 0x1_0000_0000_0000 % 256) * 0x1_0000_0000_0000 + (value / 0x100_0000_0000 % 256)
        * 0x100_0000_0000 + (value / 0x1_0000_0000 % 256) * 0x1_0000_0000 + (value / 0x100_0000
        % 256) * 0x100_0000 + (value / 0x1_0000 % 256) * 0x1_0000 + (value / 0x100 % 256) * 0x100
        + value % 256) by (bit_vector);
}

/// Encodes `value` in eight bytes, most significant first.
pub fn to_be_bytes(value: u64) -> (bytes: [u8; 8])
    ensures
        bytes@ == be_bytes(value),
{
    let bytes: [u8; 8] = [
        (value / 0x100_0000_0000_0000 % 256) as u8,
        (value / 0x1_0000_0000_0000 % 256) as u8,
        (value / 0x100_0000_0000 % 256) as u8,
        (value / 0x1_0000_0000 % 256) as u8,
        (value / 0x100_0000 % 256) as u8,
        (value / 0x1_0000 % 256) as u8,
        (value / 0x100 % 256) as u8,
        (value % 256) as u8,
    ];
    assert(bytes@ =~= be_bytes(value));
    bytes
}

/// The decimal digits of `value` as ASCII bytes, without leading zeros.
pub open spec fn decimal_text(value: nat) -> Seq<u8>
    decreases value,
{
    if value < 10 {
        seq![(48 + value) as u8]
    } else {
        decimal_text(value / 10).push((48 + value % 10) as u8)
    }
}

/// The number that a text of decimal ASCII digits stands for.
pub open spec fn decimal_value(text: Seq<u8>) -> nat
    decreases text.len(),
{
    if text.len() == 0 {
        0
    } else {
        decimal_value(text.drop_last()) * 10 + (text.last() - 48) as nat
    }
}

/// The decimal text of a number is not empty and holds digits only.
pub proof fn lemma_decimal_text_digits(value: nat)
    ensures
        decimal_text(value).len() >= 1,
        forall|i: int|
            0 <= i < decimal_text(value).len() ==> 48 <= #[trigger] decimal_text(value)[i] <= 57,
    decreases value,
{
    if value >= 10 {
        lemma_decimal_text_digits(value / 10);
    }
}

/// Reading the decimal text of a number gives the number back, so different
/// numbers have different texts.
pub proof fn law_decimal_round_trip(value: nat)
    ensures
        decimal_value(decimal_text(value)) == value,
    decreases value,
{
    let text = decimal_text(value);
    if value < 10 {
        assert(text.drop_last() =~= Seq::<u8>::empty());
        assert(decimal_value(text.drop_last()) == 0);
        assert(text.last() == 48 + value);
    } else {
        law_decimal_round_trip(value / 10);
        assert(text.drop_last() =~= decimal_text(value / 10));
        assert(text.last() == 48 + value % 10);
    }
}

/// Writes `value` in decimal ASCII digits.
pub fn decimal_string(value: u64) -> (text: Vec<u8>)
    ensures
        text@ == decimal_text(value as nat),
{
    let mut text: Vec<u8> = Vec::new();
    let mut rest = value;
    while rest >= 10
        invariant
            decimal_text(value as nat) == decimal_text(rest as nat) + text@,
        decreases rest,
    {
        let digit = (48 + rest % 10) as u8;
        proof {
            assert(decimal_text(rest as nat) == decimal_text((rest / 10) as nat).push(digit));
            assert(decimal_text((rest / 10) as nat).push(digit) + text@ =~= decimal_text(
                (rest / 10) as nat,
            ) + text@.insert(0, digit));
        }
        text.insert(0, digit);
        rest = rest / 10;
    }
    proof {
        assert(decimal_text(rest as nat) + text@ =~= text@.insert(0, (48 + rest) as u8));
    }
    text.insert(0, (48 + rest) as u8);
    text
}

/// Appends `bytes` to `out`.
pub fn append_bytes(out: &mut Vec<u8>, bytes: &[u8])
    ensures
        final(out)@ == old(out)@ + bytes@,
{
    let mut i: usize = 0;
    while i < bytes.len()
        invariant
            i <= bytes@.len(),
            out@ == old(out)@ + bytes@.take(i as int),
        decreases bytes@.len() - i,
    {
        out.push(bytes[i]);
        assert(out@ =~= old(out)@ + bytes@.take(i + 1));
        i = i + 1;
    }
    assert(bytes@.take(i as int) =~= bytes@);
}

/// Whether two byte strings are the same.
pub fn bytes_equal(a: &[u8], b: &[u8]) -> (same: bool)
    ensures
        same == (a@ == b@),
{
    if a.len() != b.len() {
        return false;
    }
    let mut i: usize = 0;
    while i < a.len()
        invariant
            i <= a@.len(),
            a@.len() == b@.len(),
            a@.take(i as int) == b@.take(i as int),
        decreases a@.len() - i,
    {
        if a[i] != b[i] {
            return false;
        }
        assert(a@.take(i + 1) =~= a@.take(i as int).push(a@[i as int]));
        assert(b@.take(i + 1) =~= b@.take(i as int).push(b@[i as int]));
        i = i + 1;
    }
    assert(a@.take(i as int) =~= a@);
    assert(b@.take(i as int) =~= b@);
    true
}

} // verus!
