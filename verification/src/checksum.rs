//! CRC-16/ARC packet checksum (polynomial 0xA001, initial value 0xFFFF,
//! byte-at-a-time, LSB-first), with the byte-swapped trailer comparison the
//! wire format uses.

use vstd::prelude::*;

verus! {

/// One LSB-first shift step of the CRC register.
pub open spec fn crc16_shift(c: u16) -> u16 {
    if c & 1 == 1 {
        (c >> 1) ^ 0xA001
    } else {
        c >> 1
    }
}

/// The shift step applied `n` times.
pub open spec fn crc16_shift_n(c: u16, n: nat) -> u16
    decreases n,
{
    if n == 0 {
        c
    } else {
        crc16_shift(crc16_shift_n(c, (n - 1) as nat))
    }
}

/// Folding one message byte into the CRC register.
pub open spec fn crc16_byte(c: u16, b: u8) -> u16 {
    crc16_shift_n(c ^ (b as u16), 8)
}

/// CRC register after folding all of `data` into `init`.
pub open spec fn crc16_fold(init: u16, data: Seq<u8>) -> u16
    decreases data.len(),
{
    if data.len() == 0 {
        init
    } else {
        crc16_byte(crc16_fold(init, data.drop_last()), data.last())
    }
}

/// CRC-16/ARC of a byte sequence.
pub open spec fn crc16_arc_spec(data: Seq<u8>) -> u16 {
    crc16_fold(0xFFFF, data)
}

/// Low byte of the CRC register: first trailer byte on the wire.
pub open spec fn crc_lo(c: u16) -> u8 {
    (c & 0xFF) as u8
}

/// High byte of the CRC register: second trailer byte on the wire.
pub open spec fn crc_hi(c: u16) -> u8 {
    (c >> 8) as u8
}

/// The two checksum bytes that terminate a frame whose checksummed body is
/// `body`.
pub open spec fn crc_trailer_spec(body: Seq<u8>) -> Seq<u8> {
    seq![crc_lo(crc16_arc_spec(body)), crc_hi(crc16_arc_spec(body))]
}

/// The trailer `check` validates the body `body`.
pub open spec fn checksum_matches(body: Seq<u8>, check: Seq<u8>) -> bool {
    check.len() == 2 && check[0] == crc_lo(crc16_arc_spec(body)) && check[1] == crc_hi(
        crc16_arc_spec(body),
    )
}

/// The shift step distributes over exclusive or.
proof fn lemma_shift_linear(x: u16, y: u16)
    by (bit_vector)
    ensures
        crc16_shift(x ^ y) == crc16_shift(x) ^ crc16_shift(y),
{
}

/// The shift step sends only zero to zero.
proof fn lemma_shift_nonzero(x: u16)
    by (bit_vector)
    ensures
        x != 0 ==> crc16_shift(x) != 0,
{
}

proof fn lemma_shift_n_linear(x: u16, y: u16, n: nat)
    ensures
        crc16_shift_n(x ^ y, n) == crc16_shift_n(x, n) ^ crc16_shift_n(y, n),
    decreases n,
{
    if n > 0 {
        lemma_shift_n_linear(x, y, (n - 1) as nat);
        lemma_shift_linear(crc16_shift_n(x, (n - 1) as nat), crc16_shift_n(y, (n - 1) as nat));
    }
}

proof fn lemma_shift_n_nonzero(x: u16, n: nat)
    requires
        x != 0,
    ensures
        crc16_shift_n(x, n) != 0,
    decreases n,
{
    if n > 0 {
        lemma_shift_n_nonzero(x, (n - 1) as nat);
        lemma_shift_nonzero(crc16_shift_n(x, (n - 1) as nat));
    }
}

proof fn lemma_shift_n_add(x: u16, a: nat, b: nat)
    ensures
        crc16_shift_n(x, a + b) == crc16_shift_n(crc16_shift_n(x, a), b),
    decreases b,
{
    if b > 0 {
        lemma_shift_n_add(x, a, (b - 1) as nat);
    }
}

/// Folding a byte with one of its bits in error perturbs the register by a
/// value that depends only on the error, not on the message.
proof fn lemma_byte_error(c: u16, b: u8, e: u8)
    ensures
        crc16_byte(c, b ^ e) == crc16_byte(c, b) ^ crc16_shift_n(e as u16, 8),
{
    assert(c ^ (((b ^ e)) as u16) == (c ^ (b as u16)) ^ (e as u16)) by (bit_vector);
    lemma_shift_n_linear(c ^ (b as u16), e as u16, 8);
}

/// A register perturbation survives folding a further byte, shifted once.
proof fn lemma_byte_carry(c: u16, d: u16, b: u8)
    ensures
        crc16_byte(c ^ d, b) == crc16_byte(c, b) ^ crc16_shift_n(d, 8),
{
    assert((c ^ d) ^ (b as u16) == (c ^ (b as u16)) ^ d) by (bit_vector);
    lemma_shift_n_linear(c ^ (b as u16), d, 8);
}

/// Corrupting the byte at `j` by exclusive-oring `e` into it perturbs the
/// final CRC by a nonzero-preserving shift of `e` alone.
proof fn lemma_fold_flip(init: u16, data: Seq<u8>, j: int, e: u8)
    requires
        0 <= j < data.len(),
    ensures
        crc16_fold(init, data.update(j, data[j] ^ e)) == crc16_fold(init, data) ^ crc16_shift_n(
            e as u16,
            (8 * (data.len() - j)) as nat,
        ),
    decreases data.len(),
{
    let data2 = data.update(j, data[j] ^ e);
    if j == data.len() - 1 {
        assert(data2.drop_last() =~= data.drop_last());
        assert(data2.last() == data[j] ^ e);
        lemma_byte_error(crc16_fold(init, data.drop_last()), data.last(), e);
    } else {
        let ddl = data.drop_last();
        assert(data2.drop_last() =~= ddl.update(j, ddl[j] ^ e));
        assert(data2.last() == data.last());
        lemma_fold_flip(init, ddl, j, e);
        let d = crc16_shift_n(e as u16, (8 * (ddl.len() - j)) as nat);
        lemma_byte_carry(crc16_fold(init, ddl), d, data.last());
        lemma_shift_n_add(e as u16, (8 * (ddl.len() - j)) as nat, 8);
    }
}

/// Checksum round trip, rejection half at the CRC level: flipping any single
/// bit of any byte of the checksummed body changes the CRC.
pub proof fn lemma_single_flip_changes_crc(body: Seq<u8>, j: int, bit: u8)
    requires
        0 <= j < body.len(),
        bit < 8,
    ensures
        crc16_arc_spec(body.update(j, body[j] ^ (1u8 << bit))) != crc16_arc_spec(body),
{
    let e = 1u8 << bit;
    assert(e != 0) by (bit_vector)
        requires
            e == 1u8 << bit && bit < 8,
    ;
    lemma_fold_flip(0xFFFF, body, j, e);
    lemma_shift_n_nonzero(e as u16, (8 * (body.len() - j)) as nat);
    let c = crc16_arc_spec(body);
    let d = crc16_shift_n(e as u16, (8 * (body.len() - j)) as nat);
    assert(d != 0 ==> (c ^ d) != c) by (bit_vector);
}

/// Two CRC registers with equal trailer bytes are equal.
pub proof fn lemma_trailer_injective(a: u16, b: u16)
    by (bit_vector)
    ensures
        crc_lo(a) == crc_lo(b) && crc_hi(a) == crc_hi(b) ==> a == b,
{
}

/// CRC-16/ARC of `data`.
pub fn crc16_arc(data: &[u8]) -> (crc: u16)
    ensures
        crc == crc16_arc_spec(data@),
{
    let mut crc: u16 = 0xFFFF;
    let mut i: usize = 0;
    while i < data.len()
        invariant
            i <= data.len(),
            crc == crc16_fold(0xFFFF, data@.take(i as int)),
        decreases data.len() - i,
    {
        crc = crc ^ (data[i] as u16);
        let ghost entry: u16 = crc;
        let mut j: usize = 0;
        while j < 8
            invariant
                j <= 8,
                crc == crc16_shift_n(entry, j as nat),
            decreases 8 - j,
        {
            proof {
                let c = crc;
                assert(c & 1 == 0 || c & 1 == 1) by (bit_vector);
            }
            if (crc & 1) != 0 {
                crc = (crc >> 1) ^ 0xA001;
            } else {
                crc = crc >> 1;
            }
            j = j + 1;
        }
        proof {
            assert(data@.take(i + 1).drop_last() =~= data@.take(i as int));
            assert(data@.take(i + 1).last() == data@[i as int]);
        }
        i = i + 1;
    }
    proof {
        assert(data@.take(data@.len() as int) =~= data@);
    }
    crc
}

/// Validates the trailing checksum bytes of a frame, exactly as the wire
/// format demands: the CRC register is byte-swapped and compared against the
/// big-endian reading of the two trailer bytes.
pub fn check_sum(list_data: &[u8], check_data: &[u8]) -> (r: bool)
    requires
        check_data@.len() == 2,
    ensures
        r == checksum_matches(list_data@, check_data@),
{
    let crc: u16 = crc16_arc(list_data);
    let swapped: u16 = ((crc & 0xFF) << 8) | (crc >> 8);
    let given: u16 = ((check_data[0] as u16) << 8) | (check_data[1] as u16);
    proof {
        let c0 = check_data@[0];
        let c1 = check_data@[1];
        assert((((crc & 0xFF) << 8) | (crc >> 8)) == (((c0 as u16) << 8) | (c1 as u16)) <==> (c0
            == (crc & 0xFF) as u8 && c1 == (crc >> 8) as u8)) by (bit_vector);
    }
    swapped == given
}

/// The two checksum bytes for `body`, in wire order (low byte first).
pub fn crc_trailer(body: &[u8]) -> (trailer: Vec<u8>)
    ensures
        trailer@ == crc_trailer_spec(body@),
        checksum_matches(body@, trailer@),
{
    let crc: u16 = crc16_arc(body);
    let mut trailer: Vec<u8> = Vec::new();
    trailer.push((crc & 0xFF) as u8);
    trailer.push((crc >> 8) as u8);
    proof {
        assert(trailer@ =~= crc_trailer_spec(body@));
    }
    trailer
}

} // verus!
