//! CRC-8/SMBUS, the checksum that closes every frame on the serial line.
//!
//! The checksum is defined here bit by bit (polynomial `x^8 + x^2 + x + 1`,
//! zero initial value, no reflection, no final xor) and computed by the `crc`
//! crate. The lemmas at the end are what the frame codec needs from it: a
//! changed byte always changes the checksum.
use vstd::prelude::*;

verus! {

/// One shift of the CRC register: the top bit leaves and, if it was set, the
/// polynomial `0x07` is folded in.
pub open spec fn crc8_shift(c: u8) -> u8 {
    if c & 0x80 != 0 {
        (c << 1) ^ 0x07
    } else {
        c << 1
    }
}

/// The register after one whole byte has been shifted through: eight shifts.
pub open spec fn crc8_byte(c: u8) -> u8 {
    crc8_shift(
        crc8_shift(
            crc8_shift(crc8_shift(crc8_shift(crc8_shift(crc8_shift(crc8_shift(c)))))),
        ),
    )
}

/// The register after `data` has been fed into it, starting from `crc`.
pub open spec fn crc8_update(crc: u8, data: Seq<u8>) -> u8
    decreases data.len(),
{
    if data.len() == 0 {
        crc
    } else {
        crc8_byte(crc8_update(crc, data.drop_last()) ^ data.last())
    }
}

/// CRC-8/SMBUS of `data`.
pub open spec fn crc8_smbus(data: Seq<u8>) -> u8 {
    crc8_update(0, data)
}

/// Calls `crc::Crc::<u8>::checksum` with the catalogue entry `CRC_8_SMBUS`
/// (width 8, polynomial 0x07, initial value 0, no reflection, no final xor).
/// The contract claims that the crate computes that checksum as
/// [`crc8_smbus`] defines it; Verus does not look into the crate.
#[verifier::external_body]
pub(crate) fn checksum(data: &[u8]) -> (sum: u8)
    ensures
        sum == crc8_smbus(data@),
{
    crc::Crc::<u8>::new(&crc::CRC_8_SMBUS).checksum(data)
}

/// The checksum of no bytes is zero, and that of the digits `123456789` is
/// `0xF4`, the check value of CRC-8/SMBUS.
pub proof fn lemma_crc8_check_value()
    ensures
        crc8_smbus(Seq::<u8>::empty()) == 0,
        crc8_smbus(seq![0x31u8, 0x32u8, 0x33u8, 0x34u8, 0x35u8, 0x36u8, 0x37u8, 0x38u8, 0x39u8])
            == 0xF4,
{
    let digits = seq![0x31u8, 0x32u8, 0x33u8, 0x34u8, 0x35u8, 0x36u8, 0x37u8, 0x38u8, 0x39u8];
    assert(crc8_byte(0x00u8 ^ 0x31u8) == 0x97u8) by (bit_vector);
    assert(crc8_byte(0x97u8 ^ 0x32u8) == 0x72u8) by (bit_vector);
    assert(crc8_byte(0x72u8 ^ 0x33u8) == 0xc0u8) by (bit_vector);
    assert(crc8_byte(0xc0u8 ^ 0x34u8) == 0xc2u8) by (bit_vector);
    assert(crc8_byte(0xc2u8 ^ 0x35u8) == 0xcbu8) by (bit_vector);
    assert(crc8_byte(0xcbu8 ^ 0x36u8) == 0xfdu8) by (bit_vector);
    assert(crc8_byte(0xfdu8 ^ 0x37u8) == 0x78u8) by (bit_vector);
    assert(crc8_byte(0x78u8 ^ 0x38u8) == 0xc7u8) by (bit_vector);
    assert(crc8_byte(0xc7u8 ^ 0x39u8) == 0xf4u8) by (bit_vector);
    assert(digits.subrange(0, 0) =~= Seq::<u8>::empty());
    assert(crc8_update(0, digits.subrange(0, 0)) == 0x00u8);
    assert(crc8_update(0, digits.subrange(0, 1)) == 0x97u8) by {
        assert(digits.subrange(0, 1).drop_last() =~= digits.subrange(0, 0));
        assert(digits.subrange(0, 1).last() == 0x31u8);
    }
    assert(crc8_update(0, digits.subrange(0, 2)) == 0x72u8) by {
        assert(digits.subrange(0, 2).drop_last() =~= digits.subrange(0, 1));
        assert(digits.subrange(0, 2).last() == 0x32u8);
    }
    assert(crc8_update(0, digits.subrange(0, 3)) == 0xc0u8) by {
        assert(digits.subrange(0, 3).drop_last() =~= digits.subrange(0, 2));
        assert(digits.subrange(0, 3).last() == 0x33u8);
    }
    assert(crc8_update(0, digits.subrange(0, 4)) == 0xc2u8) by {
        assert(digits.subrange(0, 4).drop_last() =~= digits.subrange(0, 3));
        assert(digits.subrange(0, 4).last() == 0x34u8);
    }
    assert(crc8_update(0, digits.subrange(0, 5)) == 0xcbu8) by {
        assert(digits.subrange(0, 5).drop_last() =~= digits.subrange(0, 4));
        assert(digits.subrange(0, 5).last() == 0x35u8);
    }
    assert(crc8_update(0, digits.subrange(0, 6)) == 0xfdu8) by {
        assert(digits.subrange(0, 6).drop_last() =~= digits.subrange(0, 5));
        assert(digits.subrange(0, 6).last() == 0x36u8);
    }
    assert(crc8_update(0, digits.subrange(0, 7)) == 0x78u8) by {
        assert(digits.subrange(0, 7).drop_last() =~= digits.subrange(0, 6));
        assert(digits.subrange(0, 7).last() == 0x37u8);
    }
    assert(crc8_update(0, digits.subrange(0, 8)) == 0xc7u8) by {
        assert(digits.subrange(0, 8).drop_last() =~= digits.subrange(0, 7));
        assert(digits.subrange(0, 8).last() == 0x38u8);
    }
    assert(crc8_update(0, digits.subrange(0, 9)) == 0xf4u8) by {
        assert(digits.subrange(0, 9).drop_last() =~= digits.subrange(0, 8));
        assert(digits.subrange(0, 9).last() == 0x39u8);
    }
    assert(digits.subrange(0, 9) =~= digits);
}

/// Shifting a byte through the register is one-to-one.
pub proof fn lemma_crc8_byte_injective(a: u8, b: u8)
    ensures
        crc8_byte(a) == crc8_byte(b) ==> a == b,
{
    assert(crc8_byte(a) == crc8_byte(b) ==> a == b) by (bit_vector);
}

/// Two registers that differ still differ after the same bytes went through
/// both.
pub proof fn lemma_crc8_update_injective(c: u8, d: u8, data: Seq<u8>)
    requires
        c != d,
    ensures
        crc8_update(c, data) != crc8_update(d, data),
    decreases data.len(),
{
    if data.len() > 0 {
        lemma_crc8_update_injective(c, d, data.drop_last());
        let x = crc8_update(c, data.drop_last());
        let y = crc8_update(d, data.drop_last());
        let l = data.last();
        assert(x != y ==> (x ^ l) != (y ^ l)) by (bit_vector);
        lemma_crc8_byte_injective(x ^ l, y ^ l);
    }
}

/// Feeding `a + b` is feeding `a`, then `b`.
pub proof fn lemma_crc8_update_concat(crc: u8, a: Seq<u8>, b: Seq<u8>)
    ensures
        crc8_update(crc, a + b) == crc8_update(crc8_update(crc, a), b),
    decreases b.len(),
{
    if b.len() == 0 {
        assert(a + b =~= a);
    } else {
        assert((a + b).drop_last() =~= a + b.drop_last());
        assert((a + b).last() == b.last());
        lemma_crc8_update_concat(crc, a, b.drop_last());
    }
}

/// A payload in which exactly one byte was replaced by another value never
/// keeps its checksum.
pub proof fn lemma_crc8_detects_changed_byte(data: Seq<u8>, at: int, value: u8)
    requires
        0 <= at < data.len(),
        value != data[at],
    ensures
        crc8_smbus(data.update(at, value)) != crc8_smbus(data),
{
    let head = data.subrange(0, at);
    let tail = data.subrange(at + 1, data.len() as int);
    let old_mid = seq![data[at]];
    let new_mid = seq![value];
    assert(data =~= head + old_mid + tail);
    assert(data.update(at, value) =~= head + new_mid + tail);
    lemma_crc8_update_concat(0, head + old_mid, tail);
    lemma_crc8_update_concat(0, head + new_mid, tail);
    lemma_crc8_update_concat(0, head, old_mid);
    lemma_crc8_update_concat(0, head, new_mid);
    let h = crc8_update(0, head);
    assert(old_mid.drop_last() =~= Seq::<u8>::empty());
    assert(new_mid.drop_last() =~= Seq::<u8>::empty());
    assert(crc8_update(h, old_mid) == crc8_byte(h ^ data[at])) by {
        assert(crc8_update(h, old_mid.drop_last()) == h);
        assert(old_mid.last() == data[at]);
    }
    assert(crc8_update(h, new_mid) == crc8_byte(h ^ value)) by {
        assert(crc8_update(h, new_mid.drop_last()) == h);
        assert(new_mid.last() == value);
    }
    let old_byte = data[at];
    assert(value != old_byte ==> (h ^ value) != (h ^ old_byte)) by (bit_vector);
    lemma_crc8_byte_injective(h ^ value, h ^ old_byte);
    lemma_crc8_update_injective(crc8_byte(h ^ value), crc8_byte(h ^ old_byte), tail);
}

} // verus!
