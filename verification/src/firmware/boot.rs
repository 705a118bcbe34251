//! Switching the boot record to the slot that has just been filled.
use super::flash::{apply_all, steps, FlashOp, Step, SECTOR_SIZE};
use crate::light_core::otadata::{
    crc32, decoding_undoes_encoding, erased_flash_holds_no_entry, le_bytes, OtaSelectEntry,
};
use vstd::prelude::*;

verus! {

/// How many bytes one entry of the record takes.
pub const OTADATA_ENTRY_LEN: usize = 32;

/// The entry of slot `i` in the record, where it is valid.
pub open spec fn entry_at(raw: Seq<u8>, i: int) -> Option<OtaSelectEntry> {
    OtaSelectEntry::decoded(raw.subrange(32 * i, 32 * i + 32))
}

/// The highest sequence number of the record; zero where it has none.
pub open spec fn highest(raw: Seq<u8>) -> u32 {
    match (entry_at(raw, 0), entry_at(raw, 1)) {
        (Some(a), Some(b)) => if a.ota_seq <= b.ota_seq {
            b.ota_seq
        } else {
            a.ota_seq
        },
        (Some(a), None) => a.ota_seq,
        (None, Some(b)) => b.ota_seq,
        (None, None) => 0,
    }
}

/// The sequence number after `seq`. The largest number marks an empty entry, so it is left out, and
/// the count starts again.
pub open spec fn next_sequence(seq: u32) -> u32 {
    if seq >= u32::MAX - 1 {
        1
    } else {
        (seq + 1) as u32
    }
}

/// What the record holds for slot `i` once slot `index` is to start next.
pub open spec fn new_entry(index: int, raw: Seq<u8>, i: int) -> Seq<u8> {
    if i == index {
        OtaSelectEntry::fresh(next_sequence(highest(raw)))
    } else {
        match entry_at(raw, i) {
            Some(old) => OtaSelectEntry::fresh(old.ota_seq),
            None => Seq::new(32, |j: int| 0xFFu8),
        }
    }
}

/// The record that lets slot `index` start next.
pub open spec fn new_record(index: int, raw: Seq<u8>) -> Seq<u8> {
    new_entry(index, raw, 0) + new_entry(index, raw, 1)
}

/// How that record reaches the flash.
pub open spec fn switch_plan(index: int, offset: int, raw: Seq<u8>) -> Seq<Step> {
    seq![
        Step::Erase { from: offset, to: offset + SECTOR_SIZE },
        Step::Write { addr: offset, bytes: new_record(index, raw) },
    ]
}

fn read_entry(raw: &[u8; 64], i: usize) -> (r: Option<OtaSelectEntry>)
    requires
        i < 2,
    ensures
        r == entry_at(raw@, i as int),
{
    let mut buf: [u8; 32] = [0u8; 32];
    let mut k: usize = 0;
    while k < 32
        invariant
            k <= 32,
            i < 2,
            buf@.len() == 32,
            raw@.len() == 64,
            forall|j: int| 0 <= j < k ==> buf@[j] == raw@[32 * i + j],
        decreases 32 - k,
    {
        buf[k] = raw[OTADATA_ENTRY_LEN * i + k];
        k += 1;
    }
    assert(buf@ == raw@.subrange(32 * i, 32 * i + 32));
    OtaSelectEntry::from_bytes(&buf)
}

fn append_entry(out: &mut Vec<u8>, entry: Option<OtaSelectEntry>)
    ensures
        final(out)@ == old(out)@ + match entry {
            Some(e) => e.encoded(),
            None => Seq::new(32, |j: int| 0xFFu8),
        },
{
    let bytes: [u8; 32] = match entry {
        Some(e) => e.to_bytes(),
        None => [0xFFu8; 32],
    };
    let mut k: usize = 0;
    assert(out@ == old(out)@ + bytes@.take(0));
    while k < 32
        invariant
            k <= 32,
            bytes@.len() == 32,
            out@ == old(out)@ + bytes@.take(k as int),
        decreases 32 - k,
    {
        out.push(bytes[k]);
        k += 1;
        assert(bytes@.take(k as int) == bytes@.take(k - 1).push(bytes@[k - 1]));
    }
    assert(bytes@.take(32) == bytes@);
    proof {
        if entry is None {
            assert(bytes@ == Seq::new(32, |j: int| 0xFFu8));
        }
    }
}

/// The operations that let slot `index` start next, given the first bytes of the record's partition
/// and where it lies.
pub fn switch_slot(index: usize, offset: u32, raw: &[u8; 64]) -> (ops: Vec<FlashOp>)
    requires
        index < 2,
        offset + SECTOR_SIZE <= u32::MAX,
    ensures
        steps(ops@) == switch_plan(index as int, offset as int, raw@),
{
    let first: Option<OtaSelectEntry> = read_entry(raw, 0);
    let second: Option<OtaSelectEntry> = read_entry(raw, 1);
    let max_seq: u32 = match (first, second) {
        (Some(a), Some(b)) => if a.ota_seq <= b.ota_seq {
            b.ota_seq
        } else {
            a.ota_seq
        },
        (Some(a), None) => a.ota_seq,
        (None, Some(b)) => b.ota_seq,
        (None, None) => 0,
    };
    let new_seq: u32 = match max_seq.checked_add(1) {
        Some(v) => if v != u32::MAX {
            v
        } else {
            1
        },
        None => 1,
    };
    let target = OtaSelectEntry::new(new_seq);
    let other: Option<OtaSelectEntry> = match if index == 0 {
        second
    } else {
        first
    } {
        Some(old) => Some(OtaSelectEntry::new(old.ota_seq)),
        None => None,
    };
    let mut entries: Vec<u8> = Vec::new();
    if index == 0 {
        append_entry(&mut entries, Some(target));
        append_entry(&mut entries, other);
    } else {
        append_entry(&mut entries, other);
        append_entry(&mut entries, Some(target));
    }
    assert(entries@ == new_record(index as int, raw@));
    let mut ops: Vec<FlashOp> = Vec::new();
    ops.push(FlashOp::Erase { from: offset, to: offset + SECTOR_SIZE });
    ops.push(FlashOp::Write { addr: offset, bytes: entries });
    assert(steps(ops@) == switch_plan(index as int, offset as int, raw@));
    ops
}

proof fn lemma_fresh(seq: u32)
    ensures
        OtaSelectEntry::fresh(seq).len() == 32,
        OtaSelectEntry::decoded(OtaSelectEntry::fresh(seq)) matches Some(e) && e.ota_seq == seq,
{
    let label = Seq::new(20, |i: int| 0u8);
    let e = OtaSelectEntry {
        ota_seq: seq,
        seq_label: vstd::array::spec_array_fill_for_copy_type::<u8, 20>(0u8),
        crc: crc32(le_bytes(seq) + label),
        version: u32::MAX,
    };
    assert(e.seq_label@ == label);
    assert(e.encoded() == OtaSelectEntry::fresh(seq));
    decoding_undoes_encoding(e);
}

#[verifier::rlimit(40)]
proof fn lemma_new_entry(index: int, raw: Seq<u8>, i: int)
    requires
        0 <= index < 2,
        0 <= i < 2,
    ensures
        new_entry(index, raw, i).len() == 32,
        entry_at(new_record(index, raw), i) == OtaSelectEntry::decoded(new_entry(index, raw, i)),
        i == index ==> (OtaSelectEntry::decoded(new_entry(index, raw, i)) matches Some(e)
            && e.ota_seq == next_sequence(highest(raw))),
        i != index ==> match (
            entry_at(raw, i),
            OtaSelectEntry::decoded(new_entry(index, raw, i)),
        ) {
            (Some(old), Some(kept)) => kept.ota_seq == old.ota_seq,
            (None, None) => true,
            _ => false,
        },
{
    let seq = next_sequence(highest(raw));
    lemma_fresh(seq);
    if let Some(old) = entry_at(raw, 0) {
        lemma_fresh(old.ota_seq);
    }
    if let Some(old) = entry_at(raw, 1) {
        lemma_fresh(old.ota_seq);
    }
    erased_flash_holds_no_entry(Seq::new(32, |j: int| 0xFFu8));
    let record = new_record(index, raw);
    assert(record.subrange(0, 32) == new_entry(index, raw, 0));
    assert(record.subrange(32, 64) == new_entry(index, raw, 1));
}

/// After a switch the slot has a valid entry with the next sequence number, and the other slot
/// keeps its number, if it had one. Short of the end of the count, the slot's number is the
/// highest.
#[verifier::rlimit(40)]
pub proof fn switched_slot_is_the_newest(index: int, raw: Seq<u8>)
    requires
        0 <= index < 2,
    ensures
        entry_at(new_record(index, raw), index) matches Some(e) && e.ota_seq == next_sequence(
            highest(raw),
        ),
        match (entry_at(raw, 1 - index), entry_at(new_record(index, raw), 1 - index)) {
            (Some(old), Some(kept)) => kept.ota_seq == old.ota_seq,
            (None, None) => true,
            _ => false,
        },
        highest(raw) < u32::MAX - 1 ==> highest(new_record(index, raw)) == highest(raw) + 1 && (
        entry_at(new_record(index, raw), 1 - index) matches Some(kept) ==> kept.ota_seq < highest(
            new_record(index, raw),
        )),
{
    lemma_new_entry(index, raw, 0);
    lemma_new_entry(index, raw, 1);
}

/// The flash then holds the new record where the old one was.
pub proof fn switch_writes_the_record(index: int, offset: int, raw: Seq<u8>, flash: Seq<u8>)
    requires
        0 <= index < 2,
        0 <= offset,
        offset + SECTOR_SIZE <= flash.len(),
    ensures
        apply_all(flash, switch_plan(index, offset, raw)).subrange(offset, offset + 64)
            == new_record(index, raw),
        forall|i: int|
            0 <= i < flash.len() && !(offset <= i < offset + SECTOR_SIZE) ==> #[trigger] apply_all(
                flash,
                switch_plan(index, offset, raw),
            )[i] == flash[i],
{
    lemma_new_entry(index, raw, 0);
    lemma_new_entry(index, raw, 1);
    let plan = switch_plan(index, offset, raw);
    reveal_with_fuel(apply_all, 3);
    assert(plan.drop_last().drop_last() == Seq::<Step>::empty());
    assert(apply_all(flash, plan).subrange(offset, offset + 64) =~= new_record(index, raw));
}

/// The highest number of a record is that of one of its valid entries, and none is higher; without
/// a valid entry it is zero. The two entries lie side by side, of 32 bytes each.
#[verifier::rlimit(40)]
pub proof fn the_highest_number_is_found(raw: Seq<u8>)
    ensures
        ({
            let first = OtaSelectEntry::decoded(raw.subrange(0, 32));
            let second = OtaSelectEntry::decoded(raw.subrange(32, 64));
            &&& first is Some ==> highest(raw) >= first->0.ota_seq
            &&& second is Some ==> highest(raw) >= second->0.ota_seq
            &&& first is None && second is None ==> highest(raw) == 0
            &&& first is Some || second is Some ==> (first is Some && highest(raw)
                == first->0.ota_seq) || (second is Some && highest(raw) == second->0.ota_seq)
        }),
{
}

/// Numbers count up by one, leave zero and the mark of an empty entry out, and begin again with
/// one.
pub proof fn numbers_count_up(seq: u32)
    ensures
        seq < 0xFFFF_FFFE ==> next_sequence(seq) == seq + 1,
        seq >= 0xFFFF_FFFE ==> next_sequence(seq) == 1,
        next_sequence(seq) != 0,
        next_sequence(seq) != 0xFFFF_FFFF,
{
}

/// The record after a switch: a fresh entry with the next number for the slot that is to start,
/// and for the other one a fresh entry with the number it had, or erased bytes where it had none.
#[verifier::rlimit(40)]
pub proof fn a_switch_renews_both_entries(index: int, raw: Seq<u8>)
    requires
        0 <= index < 2,
    ensures
        ({
            let record = new_record(index, raw);
            let seq = highest(raw);
            let kept = OtaSelectEntry::decoded(raw.subrange(32 - 32 * index, 64 - 32 * index));
            let mine = record.subrange(32 * index, 32 * index + 32);
            let other = record.subrange(32 - 32 * index, 64 - 32 * index);
            &&& record.len() == 64
            &&& seq < 0xFFFF_FFFE ==> mine == OtaSelectEntry::fresh((seq + 1) as u32)
            &&& seq >= 0xFFFF_FFFE ==> mine == OtaSelectEntry::fresh(1)
            &&& kept is Some ==> other == OtaSelectEntry::fresh(kept->0.ota_seq)
            &&& kept is None ==> forall|j: int| 0 <= j < 32 ==> other[j] == 255
        }),
{
    lemma_new_entry(index, raw, 0);
    lemma_new_entry(index, raw, 1);
    let record = new_record(index, raw);
    assert(record.subrange(0, 32) =~= new_entry(index, raw, 0));
    assert(record.subrange(32, 64) =~= new_entry(index, raw, 1));
}

/// A switch erases the sector of the record and writes the record to its beginning: the rest of
/// the sector is left erased, and what lies outside it as it was.
pub proof fn a_switch_erases_its_sector(index: int, offset: int, raw: Seq<u8>, flash: Seq<u8>)
    requires
        0 <= index < 2,
        0 <= offset,
        offset + 4096 <= flash.len(),
    ensures
        ({
            let f = apply_all(flash, switch_plan(index, offset, raw));
            &&& f.len() == flash.len()
            &&& forall|i: int|
                0 <= i < flash.len() ==> #[trigger] f[i] == if i < offset || i >= offset + 4096 {
                    flash[i]
                } else if i < offset + 64 {
                    new_record(index, raw)[i - offset]
                } else {
                    255u8
                }
        }),
{
    lemma_new_entry(index, raw, 0);
    lemma_new_entry(index, raw, 1);
    let plan = switch_plan(index, offset, raw);
    reveal_with_fuel(apply_all, 3);
    assert(plan.drop_last().drop_last() == Seq::<Step>::empty());
}

} // verus!
