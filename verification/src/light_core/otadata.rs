//! The boot record: which of the two firmware slots starts next.
//!
//! The record's partition holds two entries, one per slot, at the offsets 0 and 32. An entry is a
//! sequence number, a label of 20 bytes, a checksum of those 24 bytes and a version, all numbers
//! in little-endian order.
use vstd::prelude::*;

verus! {

/// One step of the reflected division by the CRC-32 polynomial.
pub open spec fn crc_bit(crc: u32) -> u32 {
    if crc & 1 != 0 {
        (crc >> 1) ^ 0xEDB8_8320
    } else {
        crc >> 1
    }
}

pub open spec fn crc_bits(crc: u32, n: nat) -> u32
    decreases n,
{
    if n == 0 {
        crc
    } else {
        crc_bit(crc_bits(crc, (n - 1) as nat))
    }
}

/// The register after one more byte.
pub open spec fn crc_byte(crc: u32, byte: u8) -> u32 {
    crc_bits(crc ^ (byte as u32), 8)
}

/// The register after `data`, from `crc` on.
pub open spec fn crc_state(crc: u32, data: Seq<u8>) -> u32
    decreases data.len(),
{
    if data.len() == 0 {
        crc
    } else {
        crc_byte(crc_state(crc, data.drop_last()), data.last())
    }
}

/// The zlib CRC-32 of `data`.
pub open spec fn crc32(data: Seq<u8>) -> u32 {
    crc_state(0xFFFF_FFFF, data) ^ 0xFFFF_FFFF
}

/// Reflected CRC-32 with the polynomial `0xEDB88320`.
pub struct Crc32 {
    crc: u32,
}

impl Crc32 {
    /// The register.
    pub closed spec fn state(&self) -> u32 {
        self.crc
    }

    /// Whether `data` is what has been fed in so far, as far as the checksum can tell.
    pub open spec fn has_read(&self, data: Seq<u8>) -> bool {
        self.state() == crc_state(0xFFFF_FFFF, data)
    }

    pub fn new() -> (c: Self)
        ensures
            c.state() == 0xFFFF_FFFF,
            c.has_read(Seq::empty()),
    {
        Crc32 { crc: 0xFFFF_FFFF }
    }

    pub fn update(&mut self, data: &[u8])
        ensures
            final(self).state() == crc_state(old(self).state(), data@),
            forall|read: Seq<u8>|
                old(self).has_read(read) ==> #[trigger] final(self).has_read(read + data@),
    {
        let mut crc: u32 = self.crc;
        let mut i: usize = 0;
        assert(data@.take(0) == Seq::<u8>::empty());
        while i < data.len()
            invariant
                i <= data@.len(),
                crc == crc_state(old(self).crc, data@.take(i as int)),
            decreases data@.len() - i,
        {
            let ghost start = crc;
            crc = crc ^ (data[i] as u32);
            let ghost mixed = crc;
            let mut k: u32 = 0;
            while k < 8
                invariant
                    k <= 8,
                    crc == crc_bits(mixed, k as nat),
                decreases 8 - k,
            {
                crc = if crc & 1 != 0 {
                    (crc >> 1) ^ 0xEDB8_8320
                } else {
                    crc >> 1
                };
                k += 1;
            }
            assert(data@.take(i + 1).drop_last() == data@.take(i as int));
            i += 1;
        }
        assert(data@.take(i as int) == data@);
        self.crc = crc;
        proof {
            assert forall|read: Seq<u8>| old(self).has_read(read) implies #[trigger] self.has_read(
                read + data@,
            ) by {
                crc_is_incremental(0xFFFF_FFFF, read, data@);
            }
        }
    }

    pub fn finalize(&self) -> (r: u32)
        ensures
            r == self.state() ^ 0xFFFF_FFFF,
            forall|read: Seq<u8>| self.has_read(read) ==> r == #[trigger] crc32(read),
    {
        self.crc ^ 0xFFFF_FFFF
    }
}

/// Data may be fed in pieces: the register depends on their concatenation alone.
pub proof fn crc_is_incremental(crc: u32, a: Seq<u8>, b: Seq<u8>)
    ensures
        crc_state(crc, a + b) == crc_state(crc_state(crc, a), b),
    decreases b.len(),
{
    if b.len() == 0 {
        assert(a + b == a);
    } else {
        assert((a + b).drop_last() == a + b.drop_last());
        crc_is_incremental(crc, a, b.drop_last());
    }
}

/// The four bytes of a number, the lowest first.
pub open spec fn le_bytes(x: u32) -> Seq<u8> {
    seq![
        (x % 0x100) as u8,
        (x / 0x100 % 0x100) as u8,
        (x / 0x1_0000 % 0x100) as u8,
        (x / 0x100_0000) as u8,
    ]
}

fn to_le(x: u32) -> (b: [u8; 4])
    ensures
        b@ == le_bytes(x),
{
    let b: [u8; 4] = [
        (x % 0x100) as u8,
        (x / 0x100 % 0x100) as u8,
        (x / 0x1_0000 % 0x100) as u8,
        (x / 0x100_0000) as u8,
    ];
    assert(b@ =~= le_bytes(x));
    b
}

fn from_le(b0: u8, b1: u8, b2: u8, b3: u8) -> (x: u32)
    ensures
        le_bytes(x) == seq![b0, b1, b2, b3],
{
    let upper: u32 = b2 as u32 + 0x100 * (b3 as u32);
    let middle: u32 = b1 as u32 + 0x100 * upper;
    let x: u32 = b0 as u32 + 0x100 * middle;
    assert(x % 0x100 == b0 && x / 0x100 == middle);
    assert(middle % 0x100 == b1 && middle / 0x100 == upper);
    assert(upper % 0x100 == b2 && upper / 0x100 == b3);
    assert(x / 0x1_0000 == upper && x / 0x100_0000 == b3);
    assert(le_bytes(x) =~= seq![b0, b1, b2, b3]);
    x
}

proof fn lemma_le_bytes_injective(x: u32, y: u32)
    requires
        le_bytes(x) == le_bytes(y),
    ensures
        x == y,
{
    let (a, b) = (le_bytes(x), le_bytes(y));
    assert(x == x % 0x100 + 0x100 * (x / 0x100 % 0x100) + 0x1_0000 * (x / 0x1_0000 % 0x100)
        + 0x100_0000 * (x / 0x100_0000));
    assert(y == y % 0x100 + 0x100 * (y / 0x100 % 0x100) + 0x1_0000 * (y / 0x1_0000 % 0x100)
        + 0x100_0000 * (y / 0x100_0000));
    assert(a[0] == b[0] && a[1] == b[1] && a[2] == b[2] && a[3] == b[3]);
}

/// The entry of one slot.
#[derive(Debug, Clone, Copy, PartialEq, Eq)]
pub struct OtaSelectEntry {
    pub ota_seq: u32,
    pub seq_label: [u8; 20],
    pub crc: u32,
    pub version: u32,
}

impl OtaSelectEntry {
    pub const SIZE: usize = 32;

    /// Whether the checksum belongs to the sequence number and the label.
    pub open spec fn valid(&self) -> bool {
        self.crc == crc32(le_bytes(self.ota_seq) + self.seq_label@)
    }

    /// The 32 bytes of the entry.
    pub open spec fn encoded(&self) -> Seq<u8> {
        le_bytes(self.ota_seq) + self.seq_label@ + le_bytes(self.crc)
            + le_bytes(self.version)
    }

    /// The valid entry with the given bytes, where there is one.
    pub open spec fn decoded(raw: Seq<u8>) -> Option<OtaSelectEntry> {
        if exists|e: OtaSelectEntry| e.valid() && #[trigger] e.encoded() == raw {
            Some(choose|e: OtaSelectEntry| e.valid() && #[trigger] e.encoded() == raw)
        } else {
            None
        }
    }

    /// The bytes of a new entry: an empty label and the highest version.
    pub open spec fn fresh(seq: u32) -> Seq<u8> {
        let label = Seq::new(20, |i: int| 0u8);
        le_bytes(seq) + label + le_bytes(crc32(le_bytes(seq) + label)) + le_bytes(u32::MAX)
    }

    pub fn new(seq: u32) -> (e: Self)
        ensures
            e.ota_seq == seq,
            e.encoded() == Self::fresh(seq),
            forall|i: int| 0 <= i < 20 ==> #[trigger] e.seq_label@[i] == 0,
            e.version == u32::MAX,
            e.valid(),
    {
        let label: [u8; 20] = [0u8; 20];
        let crc: u32 = Self::crc_of(seq, &label);
        assert(label@ == Seq::new(20, |i: int| 0u8));
        OtaSelectEntry { ota_seq: seq, seq_label: label, crc, version: u32::MAX }
    }

    pub fn crc_of(seq: u32, label: &[u8; 20]) -> (r: u32)
        ensures
            r == crc32(le_bytes(seq) + label@),
    {
        let mut hasher = Crc32::new();
        let seq_bytes = to_le(seq);
        hasher.update(seq_bytes.as_slice());
        assert(Seq::<u8>::empty() + seq_bytes@ == seq_bytes@);
        hasher.update(label.as_slice());
        assert(hasher.has_read(Seq::<u8>::empty() + seq_bytes@ + label@));
        hasher.finalize()
    }

    pub fn is_valid(&self) -> (r: bool)
        ensures
            r == self.valid(),
    {
        self.crc == Self::crc_of(self.ota_seq, &self.seq_label)
    }

    /// The entry in 32 bytes, or nothing where its checksum is wrong, as it is in erased flash.
    pub fn from_bytes(raw: &[u8; 32]) -> (r: Option<Self>)
        ensures
            r == Self::decoded(raw@),
            match r {
                Some(e) => e.valid() && e.encoded() == raw@,
                None => forall|e: OtaSelectEntry| #[trigger] e.encoded() == raw@ ==> !e.valid(),
            },
    {
        let mut label: [u8; 20] = [0u8; 20];
        let mut i: usize = 0;
        while i < 20
            invariant
                i <= 20,
                label@.len() == 20,
                raw@.len() == 32,
                forall|j: int| 0 <= j < i ==> label@[j] == raw@[4 + j],
            decreases 20 - i,
        {
            label[i] = raw[4 + i];
            i += 1;
        }
        let entry = OtaSelectEntry {
            ota_seq: from_le(raw[0], raw[1], raw[2], raw[3]),
            seq_label: label,
            crc: from_le(raw[24], raw[25], raw[26], raw[27]),
            version: from_le(raw[28], raw[29], raw[30], raw[31]),
        };
        proof {
            assert(entry.encoded() == raw@);
            assert forall|e: OtaSelectEntry| #[trigger] e.encoded() == raw@ implies e == entry by {
                encoding_is_injective(e, entry);
            }
        }
        if entry.is_valid() {
            Some(entry)
        } else {
            None
        }
    }

    pub fn to_bytes(&self) -> (out: [u8; 32])
        ensures
            out@ == self.encoded(),
    {
        let seq = to_le(self.ota_seq);
        let crc = to_le(self.crc);
        let version = to_le(self.version);
        let mut out: [u8; 32] = [0u8; 32];
        let mut i: usize = 0;
        while i < 32
            invariant
                i <= 32,
                out@.len() == 32,
                seq@ == le_bytes(self.ota_seq),
                crc@ == le_bytes(self.crc),
                version@ == le_bytes(self.version),
                seq@.len() == 4,
                crc@.len() == 4,
                version@.len() == 4,
                forall|j: int| 0 <= j < i ==> out@[j] == self.encoded()[j],
            decreases 32 - i,
        {
            out[i] = if i < 4 {
                seq[i]
            } else if i < 24 {
                self.seq_label[i - 4]
            } else if i < 28 {
                crc[i - 24]
            } else {
                version[i - 28]
            };
            i += 1;
        }
        assert(out@ == self.encoded());
        out
    }
}

/// Two entries with the same bytes are the same entry.
pub proof fn encoding_is_injective(a: OtaSelectEntry, b: OtaSelectEntry)
    requires
        a.encoded() == b.encoded(),
    ensures
        a == b,
{
    let (x, y) = (a.encoded(), b.encoded());
    assert(x.subrange(0, 4) == le_bytes(a.ota_seq));
    assert(y.subrange(0, 4) == le_bytes(b.ota_seq));
    assert(x.subrange(4, 24) == a.seq_label@);
    assert(y.subrange(4, 24) == b.seq_label@);
    assert(a.seq_label =~= b.seq_label);
    assert(x.subrange(24, 28) == le_bytes(a.crc));
    assert(y.subrange(24, 28) == le_bytes(b.crc));
    assert(x.subrange(28, 32) == le_bytes(a.version));
    assert(y.subrange(28, 32) == le_bytes(b.version));
    lemma_le_bytes_injective(a.ota_seq, b.ota_seq);
    lemma_le_bytes_injective(a.crc, b.crc);
    lemma_le_bytes_injective(a.version, b.version);
}

/// Reading back the bytes of a valid entry gives that entry; those of another give nothing.
pub proof fn decoding_undoes_encoding(e: OtaSelectEntry)
    ensures
        OtaSelectEntry::decoded(e.encoded()) == (if e.valid() {
            Some(e)
        } else {
            None
        }),
{
    assert forall|x: OtaSelectEntry| #[trigger] x.encoded() == e.encoded() implies x == e by {
        encoding_is_injective(x, e);
    }
}

proof fn lemma_crc_bit_injective(a: u32, b: u32)
    requires
        crc_bit(a) == crc_bit(b),
    ensures
        a == b,
{
    assert((if a & 1 != 0 {
        (a >> 1) ^ 0xEDB8_8320u32
    } else {
        a >> 1
    }) == (if b & 1 != 0 {
        (b >> 1) ^ 0xEDB8_8320u32
    } else {
        b >> 1
    }) ==> a == b) by (bit_vector);
}

proof fn lemma_crc_bits_injective(a: u32, b: u32, n: nat)
    requires
        crc_bits(a, n) == crc_bits(b, n),
    ensures
        a == b,
    decreases n,
{
    if n > 0 {
        lemma_crc_bit_injective(crc_bits(a, (n - 1) as nat), crc_bits(b, (n - 1) as nat));
        lemma_crc_bits_injective(a, b, (n - 1) as nat);
    }
}

proof fn lemma_crc_state_injective(a: u32, b: u32, data: Seq<u8>)
    requires
        crc_state(a, data) == crc_state(b, data),
    ensures
        a == b,
    decreases data.len(),
{
    if data.len() > 0 {
        let (x, y) = (crc_state(a, data.drop_last()), crc_state(b, data.drop_last()));
        let byte = data.last() as u32;
        lemma_crc_bits_injective(x ^ byte, y ^ byte, 8);
        assert(x ^ byte == y ^ byte ==> x == y) by (bit_vector);
        lemma_crc_state_injective(a, b, data.drop_last());
    }
}

/// The register after a byte of ones, with the eight bits written out.
spec fn crc_ones(crc: u32) -> u32 {
    let c0 = crc ^ 0xFF;
    let c1 = crc_bit(c0);
    let c2 = crc_bit(c1);
    let c3 = crc_bit(c2);
    let c4 = crc_bit(c3);
    let c5 = crc_bit(c4);
    let c6 = crc_bit(c5);
    let c7 = crc_bit(c6);
    crc_bit(c7)
}

spec fn ones(n: nat) -> Seq<u8> {
    Seq::new(n, |i: int| 0xFFu8)
}

proof fn lemma_one_more(n: nat)
    ensures
        crc_state(0xFFFF_FFFF, ones(n + 1)) == crc_ones(crc_state(0xFFFF_FFFF, ones(n))),
{
    assert(ones(n + 1).drop_last() == ones(n));
    reveal_with_fuel(crc_bits, 9);
}

proof fn lemma_crc_of_ones()
    ensures
        crc_state(0xFFFF_FFFF, ones(24)) == 0x2322_E93D,
{
    lemma_one_more(0);
    assert(crc_ones(0xFFFF_FFFF) == 0x00FF_FFFF) by (bit_vector);
    lemma_one_more(1);
    assert(crc_ones(0x00FF_FFFF) == 0x0000_FFFF) by (bit_vector);
    lemma_one_more(2);
    assert(crc_ones(0x0000_FFFF) == 0x0000_00FF) by (bit_vector);
    lemma_one_more(3);
    assert(crc_ones(0x0000_00FF) == 0x0000_0000) by (bit_vector);
    lemma_one_more(4);
    assert(crc_ones(0x0000_0000) == 0x2D02_EF8D) by (bit_vector);
    lemma_one_more(5);
    assert(crc_ones(0x2D02_EF8D) == 0xBE26_12FF) by (bit_vector);
    lemma_one_more(6);
    assert(crc_ones(0xBE26_12FF) == 0x00BE_2612) by (bit_vector);
    lemma_one_more(7);
    assert(crc_ones(0x00BE_2612) == 0xDEBB_20E3) by (bit_vector);
    lemma_one_more(8);
    assert(crc_ones(0xDEBB_20E3) == 0x14DF_E76F) by (bit_vector);
    lemma_one_more(9);
    assert(crc_ones(0x14DF_E76F) == 0xF01B_4CA3) by (bit_vector);
    lemma_one_more(10);
    assert(crc_ones(0xF01B_4CA3) == 0x622D_0693) by (bit_vector);
    lemma_one_more(11);
    assert(crc_ones(0x622D_0693) == 0x4466_0075) by (bit_vector);
    lemma_one_more(12);
    assert(crc_ones(0x4466_0075) == 0x0D29_0C3E) by (bit_vector);
    lemma_one_more(13);
    assert(crc_ones(0x0D29_0C3E) == 0xEC6E_DB2A) by (bit_vector);
    lemma_one_more(14);
    assert(crc_ones(0xEC6E_DB2A) == 0xF655_4880) by (bit_vector);
    lemma_one_more(15);
    assert(crc_ones(0xF655_4880) == 0xC04C_39E5) by (bit_vector);
    lemma_one_more(16);
    assert(crc_ones(0xC04C_39E5) == 0xFDA2_B543) by (bit_vector);
    lemma_one_more(17);
    assert(crc_ones(0xFDA2_B543) == 0xC22A_5D12) by (bit_vector);
    lemma_one_more(18);
    assert(crc_ones(0xC22A_5D12) == 0xDE79_B498) by (bit_vector);
    lemma_one_more(19);
    assert(crc_ones(0xDE79_B498) == 0xD308_8D4F) by (bit_vector);
    lemma_one_more(20);
    assert(crc_ones(0xD308_8D4F) == 0xCBB2_BB01) by (bit_vector);
    lemma_one_more(21);
    assert(crc_ones(0xCBB2_BB01) == 0x5ACE_6DA0) by (bit_vector);
    lemma_one_more(22);
    assert(crc_ones(0x5ACE_6DA0) == 0xFB8E_8208) by (bit_vector);
    lemma_one_more(23);
    assert(crc_ones(0xFB8E_8208) == 0x2322_E93D) by (bit_vector);
}

/// Erased flash holds no entry.
pub proof fn erased_flash_holds_no_entry(raw: Seq<u8>)
    requires
        raw.len() == 32,
        forall|i: int| 0 <= i < 32 ==> #[trigger] raw[i] == 0xFF,
    ensures
        OtaSelectEntry::decoded(raw) is None,
{
    assert forall|e: OtaSelectEntry| #[trigger] e.encoded() == raw implies !e.valid() by {
        let covered = le_bytes(e.ota_seq) + e.seq_label@;
        assert(covered == ones(24)) by {
            assert forall|i: int| 0 <= i < 24 implies covered[i] == ones(24)[i] by {
                assert(covered[i] == e.encoded()[i]);
            }
        }
        lemma_crc_of_ones();
        assert(0x2322_E93Du32 ^ 0xFFFF_FFFF != 0xFFFF_FFFFu32) by (bit_vector);
        assert(e.encoded().subrange(24, 28) == le_bytes(e.crc));
        assert(le_bytes(e.crc) == le_bytes(0xFFFF_FFFF));
        lemma_le_bytes_injective(e.crc, 0xFFFF_FFFF);
    }
}

/// The checksum notices every change of a single byte.
pub proof fn crc_detects_a_changed_byte(data: Seq<u8>, at: int, byte: u8)
    requires
        0 <= at < data.len(),
        data[at] != byte,
    ensures
        crc32(data) != crc32(data.update(at, byte)),
{
    let other = data.update(at, byte);
    let head = data.take(at);
    let tail = data.skip(at + 1);
    let start = crc_state(0xFFFF_FFFF, head);
    let (x, y) = (data[at] as u32, byte as u32);
    assert(data == head.push(data[at]) + tail);
    assert(other == head.push(byte) + tail);
    assert(head.push(data[at]).drop_last() == head);
    assert(head.push(byte).drop_last() == head);
    crc_is_incremental(0xFFFF_FFFF, head.push(data[at]), tail);
    crc_is_incremental(0xFFFF_FFFF, head.push(byte), tail);
    let (p, q) = (crc_state(0xFFFF_FFFF, data), crc_state(0xFFFF_FFFF, other));
    assert(p ^ 0xFFFF_FFFF == q ^ 0xFFFF_FFFF ==> p == q) by (bit_vector);
    if p == q {
        lemma_crc_state_injective(crc_byte(start, data[at]), crc_byte(start, byte), tail);
        lemma_crc_bits_injective(start ^ x, start ^ y, 8);
        assert(start ^ x == start ^ y ==> x == y) by (bit_vector);
    }
}

/// A valid entry with one byte of its label changed is not valid.
pub proof fn label_damage_is_detected(e: OtaSelectEntry, bad: OtaSelectEntry, at: int)
    requires
        e.valid(),
        0 <= at < 20,
        bad.ota_seq == e.ota_seq,
        bad.crc == e.crc,
        bad.seq_label@ == e.seq_label@.update(at, bad.seq_label@[at]),
        bad.seq_label@[at] != e.seq_label@[at],
    ensures
        !bad.valid(),
{
    let data = le_bytes(e.ota_seq) + e.seq_label@;
    assert(le_bytes(bad.ota_seq) + bad.seq_label@ == data.update(
        4 + at,
        bad.seq_label@[at],
    ));
    crc_detects_a_changed_byte(data, 4 + at, bad.seq_label@[at]);
}

/// A valid entry with one byte of its sequence number changed is not valid.
pub proof fn sequence_damage_is_detected(e: OtaSelectEntry, bad: OtaSelectEntry, at: int)
    requires
        e.valid(),
        0 <= at < 4,
        bad.seq_label == e.seq_label,
        bad.crc == e.crc,
        le_bytes(bad.ota_seq) == le_bytes(e.ota_seq).update(
            at,
            le_bytes(bad.ota_seq)[at],
        ),
        bad.ota_seq != e.ota_seq,
    ensures
        !bad.valid(),
{
    let data = le_bytes(e.ota_seq) + e.seq_label@;
    let (x, y) = (le_bytes(e.ota_seq), le_bytes(bad.ota_seq));
    assert(y + bad.seq_label@ == data.update(at, y[at]));
    if x[at] == y[at] {
        assert(x =~= y);
        lemma_le_bytes_injective(e.ota_seq, bad.ota_seq);
    }
    crc_detects_a_changed_byte(data, at, y[at]);
}

/// The bytes of two sequences, combined bit by bit.
pub open spec fn xored(a: Seq<u8>, b: Seq<u8>) -> Seq<u8> {
    Seq::new(a.len(), |i: int| a[i] ^ b[i])
}

proof fn lemma_crc_bits_linear(a: u32, b: u32, n: nat)
    ensures
        crc_bits(a ^ b, n) == crc_bits(a, n) ^ crc_bits(b, n),
    decreases n,
{
    if n > 0 {
        lemma_crc_bits_linear(a, b, (n - 1) as nat);
        let (x, y) = (crc_bits(a, (n - 1) as nat), crc_bits(b, (n - 1) as nat));
        assert((if (x ^ y) & 1 != 0 {
            ((x ^ y) >> 1) ^ 0xEDB8_8320u32
        } else {
            (x ^ y) >> 1
        }) == (if x & 1 != 0 {
            (x >> 1) ^ 0xEDB8_8320u32
        } else {
            x >> 1
        }) ^ (if y & 1 != 0 {
            (y >> 1) ^ 0xEDB8_8320u32
        } else {
            y >> 1
        })) by (bit_vector);
    }
}

/// The register is linear: that of combined data is the combination of the registers.
pub proof fn the_checksum_is_linear(a: u32, b: u32, x: Seq<u8>, y: Seq<u8>)
    requires
        x.len() == y.len(),
    ensures
        crc_state(a ^ b, xored(x, y)) == crc_state(a, x) ^ crc_state(b, y),
    decreases x.len(),
{
    if x.len() > 0 {
        the_checksum_is_linear(a, b, x.drop_last(), y.drop_last());
        assert(xored(x, y).drop_last() =~= xored(x.drop_last(), y.drop_last()));
        let (p, q) = (crc_state(a, x.drop_last()), crc_state(b, y.drop_last()));
        let (u, v) = (x.last(), y.last());
        assert((p ^ q) ^ ((u ^ v) as u32) == (p ^ (u as u32)) ^ (q ^ (v as u32))) by (bit_vector);
        lemma_crc_bits_linear(p ^ (u as u32), q ^ (v as u32), 8);
    }
}

/// A byte that cancels the lowest byte of the register shifts the register by eight bits; a bit
/// that is shifted out combines the register with the polynomial; and the checksum is the register
/// with all bits turned.
pub proof fn the_checksum_is_a_reflected_division(crc: u32, byte: u8, data: Seq<u8>)
    ensures
        crc % 256 == byte ==> crc_state(crc, seq![byte]) == crc / 256,
        crc % 2 == 0 ==> crc_bit(crc) == crc / 2,
        crc % 2 == 1 ==> crc_bit(crc) == ((crc / 2) as u32) ^ 0xEDB8_8320,
        crc32(data) == 0xFFFF_FFFF - crc_state(0xFFFF_FFFF, data),
{
    let c = crc ^ (byte as u32);
    assert(seq![byte].drop_last() =~= Seq::<u8>::empty());
    reveal_with_fuel(crc_state, 2);
    reveal_with_fuel(crc_bits, 9);
    assert(crc % 256 == byte ==> c & 0xFF == 0 && c >> 8 == crc / 256) by (bit_vector)
        requires
            c == crc ^ (byte as u32),
    ;
    if crc % 256 == byte {
        assert(c & 0xFF == 0 ==> c & 1 == 0 && (c >> 1) & 1 == 0 && (c >> 2) & 1 == 0 && (c >> 3)
            & 1 == 0 && (c >> 4) & 1 == 0 && (c >> 5) & 1 == 0 && (c >> 6) & 1 == 0 && (c >> 7) & 1
            == 0) by (bit_vector);
        assert((c >> 1) >> 1 == c >> 2 && (c >> 2) >> 1 == c >> 3 && (c >> 3) >> 1 == c >> 4 && (c
            >> 4) >> 1 == c >> 5 && (c >> 5) >> 1 == c >> 6 && (c >> 6) >> 1 == c >> 7 && (c >> 7)
            >> 1 == c >> 8) by (bit_vector);
    }
    assert(crc % 2 == 0 ==> crc & 1 == 0 && crc >> 1 == crc / 2) by (bit_vector);
    assert(crc % 2 == 1 ==> crc & 1 != 0 && crc >> 1 == crc / 2) by (bit_vector);
    let s = crc_state(0xFFFF_FFFF, data);
    assert(s ^ 0xFFFF_FFFF == 0xFFFF_FFFF - s) by (bit_vector);
}

/// An entry is laid out in four parts: the sequence number, the label, the checksum of these two,
/// and the version. Numbers have their lowest byte first.
pub proof fn an_entry_is_laid_out(e: OtaSelectEntry, x: u32)
    ensures
        e.encoded().len() == 32,
        e.encoded().subrange(0, 4) == le_bytes(e.ota_seq),
        e.encoded().subrange(4, 24) == e.seq_label@,
        e.encoded().subrange(24, 28) == le_bytes(e.crc),
        e.encoded().subrange(28, 32) == le_bytes(e.version),
        e.valid() <==> e.crc == crc32(e.encoded().take(24)),
        le_bytes(x).len() == 4,
        x == le_bytes(x)[0] + 0x100 * le_bytes(x)[1] + 0x1_0000 * le_bytes(x)[2] + 0x100_0000
            * le_bytes(x)[3],
{
    assert(e.encoded().subrange(0, 4) =~= le_bytes(e.ota_seq));
    assert(e.encoded().subrange(4, 24) =~= e.seq_label@);
    assert(e.encoded().subrange(24, 28) =~= le_bytes(e.crc));
    assert(e.encoded().subrange(28, 32) =~= le_bytes(e.version));
    assert(e.encoded().take(24) =~= le_bytes(e.ota_seq) + e.seq_label@);
    assert(x == x % 0x100 + 0x100 * (x / 0x100 % 0x100) + 0x1_0000 * (x / 0x1_0000 % 0x100)
        + 0x100_0000 * (x / 0x100_0000));
}

/// A new entry is valid and carries its number, an empty label and the highest version.
pub proof fn a_fresh_entry_is_valid(seq: u32, e: OtaSelectEntry)
    requires
        e.encoded() == OtaSelectEntry::fresh(seq),
    ensures
        e.valid(),
        e.ota_seq == seq,
        e.version == 0xFFFF_FFFF,
        forall|i: int| 0 <= i < 20 ==> #[trigger] e.seq_label@[i] == 0,
{
    let raw = OtaSelectEntry::fresh(seq);
    let label = Seq::new(20, |i: int| 0u8);
    an_entry_is_laid_out(e, seq);
    assert(raw.subrange(0, 4) =~= le_bytes(seq));
    assert(raw.subrange(4, 24) =~= label);
    assert(raw.subrange(24, 28) =~= le_bytes(crc32(le_bytes(seq) + label)));
    assert(raw.subrange(28, 32) =~= le_bytes(u32::MAX));
    lemma_le_bytes_injective(e.ota_seq, seq);
    lemma_le_bytes_injective(e.version, u32::MAX);
    lemma_le_bytes_injective(e.crc, crc32(le_bytes(seq) + label));
}

} // verus!
