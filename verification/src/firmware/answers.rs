//! What the download machine answers to each command, chunk and report.
use super::digest::sha256;
use super::flash::{an_append_takes_its_sectors, sector_end, sectors_are_whole, Step};
use super::ota::{
    after_commit, after_ctrl, after_data, after_report, after_start, after_tick, flush_plan,
    hex_value, is_hex_32, padded, receive_plan, start_args, target_slot, unhex_32, verdict,
    whole_words_add_up, written, Answer, CommitReport, CtrlOutcome, Download, OtaView, Partitions,
    Slot, Verdict,
};
use crate::text::{
    a_piece_ends_at_the_separator, decimal, number_of, pieces, text_without_separator_is_one_piece,
    trimmed, Blank,
};
use vstd::prelude::*;
use vstd::utf8::{decode_utf8, encode_utf8, valid_utf8};

verus! {

/// The slot to write to is the first of the two that does not hold the running firmware. There is
/// none where the running firmware is not known, where the first slot is missing, or where the
/// first holds the running firmware and the second is missing or does so too.
pub proof fn the_target_is_the_first_idle_slot(table: Partitions)
    ensures
        table.booted_offset is None || table.ota0 is None ==> target_slot(table) is None,
        table.booted_offset is Some && table.ota0 is Some ==> {
            let booted = table.booted_offset->0;
            let first = table.ota0->0;
            &&& first.offset != booted ==> target_slot(table) == Some((first, 0usize))
            &&& first.offset == booted && table.ota1 is Some && table.ota1->0.offset != booted
                ==> target_slot(table) == Some((table.ota1->0, 1usize))
            &&& first.offset == booted && (table.ota1 is None || table.ota1->0.offset == booted)
                ==> target_slot(table) is None
        },
{
}

/// A download of any length from one byte up to the whole slot is started: the machine is ready,
/// and the download is an empty image of that length and digest in that slot. It is refused as too
/// large where it is empty or longer than the slot, and nowhere else; then whatever was running
/// runs on.
pub proof fn a_download_starts_where_it_fits(
    v: OtaView,
    size: u32,
    expected: Seq<u8>,
    table: Partitions,
    slot: Slot,
    index: usize,
    now_us: u64,
)
    requires
        target_slot(table) == Some((slot, index)),
    ensures
        ({
            let (next, outcome) = after_start(v, size, expected, Some(table), now_us);
            &&& 0 < size <= slot.len ==> {
                &&& outcome == CtrlOutcome::Started
                &&& next.status == "ready:512"@
                &&& next.download == Some(
                    Download {
                        offset: slot.offset as int,
                        size: slot.len as int,
                        index: index as int,
                        total: size as int,
                        expected,
                        image: Seq::empty(),
                        mark: 0,
                        seen: now_us as int,
                    },
                )
            }
            &&& size == 0 || size > slot.len <==> outcome == CtrlOutcome::Rejected
            &&& outcome == CtrlOutcome::Rejected <==> next.status == "error:toolarge"@
            &&& outcome == CtrlOutcome::Rejected ==> next.download == v.download
        }),
{
    reveal_strlit("ready:512");
    reveal_strlit("error:toolarge");
    assert("ready:512"@.len() != "error:toolarge"@.len());
}

/// A table that cannot be read, or that has no slot to write to, is no place for a download of any
/// length.
pub proof fn a_download_needs_a_slot(
    v: OtaView,
    size: u32,
    expected: Seq<u8>,
    table: Partitions,
    now_us: u64,
)
    ensures
        after_start(v, size, expected, None, now_us) == (
            OtaView { download: v.download, status: "error:table"@ },
            CtrlOutcome::Rejected,
        ),
        target_slot(table) is None ==> after_start(v, size, expected, Some(table), now_us) == (
            OtaView { download: v.download, status: "error:slot"@ },
            CtrlOutcome::Rejected,
        ),
{
}

/// Whether the whole words of an image still fit once it has grown from `have` to `want` bytes.
pub open spec fn room_for(size: int, have: int, want: int) -> bool {
    let (n, m) = (have - have % 4, want - want % 4);
    n == m || (m <= size && (m <= sector_end(n) || sector_end(m) <= size))
}

proof fn lemma_receive_fits(offset: int, size: int, image: Seq<u8>, data: Seq<u8>)
    ensures
        receive_plan(offset, size, image, data).1 <==> room_for(
            size,
            image.len() as int,
            (image.len() + data.len()) as int,
        ),
{
    let n = written(image.len() as int);
    let m = written((image.len() + data.len()) as int);
    let pending = image.skip(n);
    let all = pending + data;
    whole_words_add_up(image.len() as int, data.len() as int);
    sectors_are_whole(n);
    sectors_are_whole(n + 4);
    sectors_are_whole(m);
    if pending.len() == 0 {
        let words = data.take(written(data.len() as int));
        assert(m == n + words.len());
        if words.len() > 0 {
            an_append_takes_its_sectors(offset, size, n, words);
        }
    } else if all.len() >= 4 {
        let rest = all.skip(4);
        let words = rest.take(written(rest.len() as int));
        assert(rest.len() == data.len() - (4 - pending.len()));
        assert(m == n + 4 + words.len());
        an_append_takes_its_sectors(offset, size, n, all.take(4));
        if words.len() > 0 {
            an_append_takes_its_sectors(offset, size, n + 4, words);
        }
    }
}

/// A chunk that fits makes the image longer by what it carries, whatever came before, and is noted
/// as a sign of life. Each time 32768 bytes or more have come in since the last report, the number
/// received and the number announced are reported; else nothing is.
pub proof fn a_chunk_is_taken_where_it_fits(v: OtaView, d: Download, data: Seq<u8>, now_us: u64)
    requires
        v.download == Some(d),
        data.len() > 0,
    ensures
        ({
            let (next, plan, notify) = after_data(v, data, now_us);
            let length = d.image.len() + data.len();
            let received = if length <= 0xFFFF_FFFF {
                length as nat
            } else {
                0xFFFF_FFFF
            };
            let due = received >= d.mark + 32_768;
            let fits = room_for(d.size, d.image.len() as int, length as int);
            &&& next.download is Some <==> fits
            &&& fits ==> {
                let e = next.download->0;
                &&& e.image == d.image + data
                &&& e.seen == now_us
                &&& e.offset == d.offset && e.size == d.size && e.index == d.index
                &&& e.total == d.total && e.expected == d.expected
                &&& notify == due
                &&& due ==> e.mark == received && next.status == "progress:"@ + decimal(received)
                    + ":"@ + decimal(d.total as nat)
                &&& !due ==> e.mark == d.mark && next.status == v.status
            }
            &&& !fits ==> notify && next.status == "error:flash"@
        }),
{
    lemma_receive_fits(d.offset, d.size, d.image, data);
}

/// A chunk that nobody asked for is ignored, and so is an empty one.
pub proof fn a_stray_chunk_is_ignored(v: OtaView, data: Seq<u8>, now_us: u64)
    requires
        v.download is None || data.len() == 0,
    ensures
        after_data(v, data, now_us).0 == v,
        after_data(v, data, now_us).1.len() == 0,
        !after_data(v, data, now_us).2,
{
}

/// A download ends after ten million microseconds without a chunk; before that, and without a
/// download, time changes nothing.
pub proof fn only_silence_ends_a_download(v: OtaView, now_us: u64)
    requires
        v.download matches Some(d) ==> d.seen <= now_us,
    ensures
        v.download is Some && now_us >= v.download->0.seen + 10_000_000 ==> after_tick(v, now_us)
            == (OtaView { download: None, status: "error:timeout"@ }, true),
        v.download is None || now_us < v.download->0.seen + 10_000_000 ==> after_tick(v, now_us)
            == (v, false),
{
}

/// The end of an image that fills no word is filled up with erased bytes.
pub proof fn a_started_word_is_filled_up(tail: Seq<u8>)
    requires
        tail.len() <= 4,
    ensures
        padded(tail).len() == 4,
        padded(tail).take(tail.len() as int) == tail,
        forall|i: int| tail.len() <= i < 4 ==> padded(tail)[i] == 255,
{
    assert(padded(tail).take(tail.len() as int) =~= tail);
}

proof fn lemma_last_word(d: Download)
    ensures
        ({
            let length = d.image.len() as int;
            let whole = length - length % 4;
            let (plan, ok) = flush_plan(d.offset, d.size, d.image);
            let bytes = padded(d.image.skip(whole));
            &&& ok <==> whole == length || room_for(d.size, whole, whole + 4)
            &&& whole == length ==> plan.len() == 0
            &&& whole < length && ok ==> plan.len() > 0 && plan.last() == (Step::Write {
                addr: d.offset + whole,
                bytes,
            })
        }),
{
    let length = d.image.len() as int;
    let n = written(length);
    assert(n == length - length % 4);
    sectors_are_whole(n);
    if n < length {
        an_append_takes_its_sectors(d.offset, d.size, n, padded(d.image.skip(n)));
    }
}

/// An image is switched to where its last word fits the slot, it has the announced length and the
/// announced digest, and nowhere else; the status says which of these failed, the first in this
/// order. Either way the download is over.
pub proof fn only_a_whole_image_is_switched_to(v: OtaView, d: Download)
    requires
        v.download == Some(d),
    ensures
        ({
            let (next, answer) = after_commit(v);
            let length = d.image.len() as int;
            let whole = length - length % 4;
            let fits = whole == length || room_for(d.size, whole, whole + 4);
            let counts = if length <= 0xFFFF_FFFF {
                length
            } else {
                0xFFFF_FFFF
            };
            let good = fits && counts == d.total && sha256(d.image) == d.expected;
            &&& next.download is None
            &&& answer is Flush
            &&& good ==> answer->switch_to == Some(d.index) && next.status == "done"@
            &&& !good ==> answer->switch_to is None
            &&& !fits ==> next.status == "error:flash"@
            &&& fits && counts != d.total ==> next.status == "error:size"@
            &&& fits && counts == d.total && sha256(d.image) != d.expected ==> next.status
                == "error:hash"@
        }),
{
    lemma_last_word(d);
}

/// A commit writes what is left of the image behind its whole words, in one word that is filled up
/// with erased bytes, and nothing where nothing is left.
pub proof fn a_commit_writes_the_last_word(v: OtaView, d: Download)
    requires
        v.download == Some(d),
    ensures
        ({
            let length = d.image.len() as int;
            let whole = length - length % 4;
            let plan = after_commit(v).1->plan;
            let last = plan.last();
            &&& whole == length ==> plan.len() == 0
            &&& whole < length && room_for(d.size, whole, whole + 4) ==> {
                &&& plan.len() > 0
                &&& last is Write
                &&& last->addr == d.offset + whole
                &&& last->bytes.len() == 4
                &&& last->bytes.take(length - whole) == d.image.skip(whole)
                &&& forall|i: int| length - whole <= i < 4 ==> last->bytes[i] == 255
            }
        }),
{
    let length = d.image.len() as int;
    lemma_last_word(d);
    a_started_word_is_filled_up(d.image.skip(length - length % 4));
}

/// There is nothing to commit without a download.
pub proof fn a_commit_needs_a_download(v: OtaView)
    requires
        v.download is None,
    ensures
        after_commit(v) == (
            OtaView { download: None, status: "error:idle"@ },
            Answer::Finished(CtrlOutcome::Rejected),
        ),
{
}

/// An image is whole where it fits, all of it came in, and its digest is the announced one. What
/// is said of any other is the first of these that fails.
pub proof fn an_image_is_judged_in_order(
    fits: bool,
    received: int,
    total: int,
    digest: Seq<u8>,
    expected: Seq<u8>,
)
    ensures
        ({
            let v = verdict(fits, received, total, digest, expected);
            &&& v is Whole <==> fits && received == total && digest == expected
            &&& v is NoRoom <==> !fits
            &&& v is WrongLength <==> fits && received != total
            &&& v is WrongDigest <==> fits && received == total && digest != expected
        }),
        Verdict::NoRoom.word() == "error:flash"@,
        Verdict::WrongLength.word() == "error:size"@,
        Verdict::WrongDigest.word() == "error:hash"@,
        Verdict::Whole.word() == "done"@,
{
}

/// A commit is done where the boot record was switched, and aborted in every other case; the
/// status then names the operation that failed, or stays where none did. No download runs on.
pub proof fn only_a_switch_commits(v: OtaView, report: CommitReport)
    ensures
        ({
            let (next, outcome) = after_report(v, report);
            &&& next.download is None
            &&& outcome == CtrlOutcome::Committed <==> report is Switched
            &&& outcome == CtrlOutcome::Aborted <==> !(report is Switched)
            &&& report is Switched ==> next.status == "done"@
            &&& report is FlushFailed ==> next.status == "error:flash"@
            &&& report is SwitchFailed ==> next.status == "error:otadata"@
            &&& report is NotSwitched ==> next.status == v.status
        }),
{
}

/// A command is told by its text, with any blanks around it. What is no text, and what is no
/// command, is refused, and a download that runs runs on.
pub proof fn a_command_is_told_by_its_text(v: OtaView, data: Seq<u8>)
    ensures
        ({
            let cmd = trimmed(Blank::Ascii, decode_utf8(data));
            let refused = Answer::Finished(CtrlOutcome::Rejected);
            let starts = cmd.len() >= 6 && cmd.take(6) == "start:"@;
            &&& !valid_utf8(data) ==> after_ctrl(v, data) == (
                (OtaView { download: v.download, status: "error:utf8"@ }),
                refused,
            )
            &&& valid_utf8(data) && cmd == "commit"@ ==> after_ctrl(v, data) == after_commit(v)
            &&& valid_utf8(data) && cmd == "cancel"@ ==> after_ctrl(v, data) == (
                (OtaView { download: None, status: "cancelled"@ }),
                Answer::Finished(CtrlOutcome::Aborted),
            )
            &&& valid_utf8(data) && starts ==> (match start_args(cmd.skip(6)) {
                Ok((size, expected)) => after_ctrl(v, data) == (
                    v,
                    (Answer::ReadTable { size, expected }),
                ),
                Err(status) => after_ctrl(v, data) == (
                    (OtaView { download: v.download, status }),
                    refused,
                ),
            })
            &&& valid_utf8(data) && !starts && cmd != "commit"@ && cmd != "cancel"@ ==> after_ctrl(
                v,
                data,
            ) == ((OtaView { download: v.download, status: "error:cmd"@ }), refused)
        }),
{
    reveal_strlit("start:");
    reveal_strlit("commit");
    reveal_strlit("cancel");
    let cmd = trimmed(Blank::Ascii, decode_utf8(data));
    assert("start:"@[0] == 's' && "commit"@[0] == 'c' && "cancel"@[0] == 'c');
    assert("commit"@[1] == 'o' && "cancel"@[1] == 'a');
    if cmd.len() >= 6 {
        assert("start:"@.is_prefix_of(cmd) <==> cmd.take(6) =~= "start:"@);
    }
}

/// A start that names a length, the 64 digits of a digest and the password is read as that length
/// and that digest. One that fails in several ways is refused for the first of them: the length,
/// the digest, the password.
pub proof fn a_start_is_read(a: Seq<char>, h: Seq<char>, p: Seq<char>, more: Seq<char>)
    requires
        !a.contains(':'),
        !h.contains(':'),
        !p.contains(':'),
        more.len() == 0 || more[0] == ':',
    ensures
        ({
            let hex = encode_utf8(h);
            let digits = hex.len() == 64 && forall|i: int|
                0 <= i < 64 ==> 48 <= #[trigger] hex[i] <= 57 || 65 <= hex[i] <= 70 || 97 <= hex[i]
                    <= 102;
            let got = start_args(a.push(':') + (h.push(':') + (p + more)));
            let size = number_of(a);
            &&& size is None ==> got == Err::<(u32, Seq<u8>), Seq<char>>("error:size"@)
            &&& size is Some && !digits ==> got == Err::<(u32, Seq<u8>), Seq<char>>("error:sha"@)
            &&& size is Some && digits && p != "cursorlight-ota"@ ==> got == Err::<
                (u32, Seq<u8>),
                Seq<char>,
            >("error:auth"@)
            &&& size is Some && digits && p == "cursorlight-ota"@ ==> got == Ok::<
                (u32, Seq<u8>),
                Seq<char>,
            >((size->0, unhex_32(hex)))
        }),
{
    let hex = encode_utf8(h);
    let last = p + more;
    reveal_strlit("cursorlight-ota");
    a_piece_ends_at_the_separator(a, h.push(':') + last, ':');
    a_piece_ends_at_the_separator(h, last, ':');
    lemma_first_piece(p, more);
    let parts = pieces(a.push(':') + (h.push(':') + last), ':');
    assert(parts[0] == a && parts[1] == h && parts[2] == p);
    lemma_hex(hex);
}

/// A start without a password is refused, and so is one without a digest or a length.
pub proof fn a_short_start_is_refused(a: Seq<char>, h: Seq<char>)
    requires
        !a.contains(':'),
        !h.contains(':'),
    ensures
        start_args(a) == Err::<(u32, Seq<u8>), Seq<char>>(
            if number_of(a) is None {
                "error:size"@
            } else {
                "error:sha"@
            },
        ),
        start_args(a.push(':') + h) == Err::<(u32, Seq<u8>), Seq<char>>(
            if number_of(a) is None {
                "error:size"@
            } else if !is_hex_32(encode_utf8(h)) {
                "error:sha"@
            } else {
                "error:auth"@
            },
        ),
{
    text_without_separator_is_one_piece(a, ':');
    a_piece_ends_at_the_separator(a, h, ':');
    text_without_separator_is_one_piece(h, ':');
    reveal_strlit("cursorlight-ota");
    assert("cursorlight-ota"@.len() == 15);
    assert(pieces(a.push(':') + h, ':') =~= seq![a, h]);
}

proof fn lemma_first_piece(p: Seq<char>, more: Seq<char>)
    requires
        !p.contains(':'),
        more.len() == 0 || more[0] == ':',
    ensures
        pieces(p + more, ':').len() > 0,
        pieces(p + more, ':')[0] == p,
{
    if more.len() == 0 {
        assert(p + more =~= p);
        text_without_separator_is_one_piece(p, ':');
    } else {
        assert(p + more =~= p.push(':') + more.skip(1));
        a_piece_ends_at_the_separator(p, more.skip(1), ':');
    }
}

proof fn lemma_hex(hex: Seq<u8>)
    ensures
        is_hex_32(hex) <==> hex.len() == 64 && forall|i: int|
            0 <= i < 64 ==> 48 <= #[trigger] hex[i] <= 57 || 65 <= hex[i] <= 70 || 97 <= hex[i]
                <= 102,
{
    if is_hex_32(hex) {
        assert forall|i: int| 0 <= i < 64 implies 48 <= #[trigger] hex[i] <= 57 || 65 <= hex[i]
            <= 70 || 97 <= hex[i] <= 102 by {
            assert(hex_value(hex[i]) is Some);
        }
    }
}

/// A digest is read back from the digits that write it down, in small letters or in capitals.
pub proof fn a_digest_is_read_back(digest: Seq<u8>, hex: Seq<u8>)
    requires
        digest.len() == 32,
        hex.len() == 64,
        forall|i: int|
            0 <= i < 64 ==> {
                let half = if i % 2 == 0 {
                    digest[i / 2] / 16
                } else {
                    digest[i / 2] % 16
                };
                if half < 10 {
                    #[trigger] hex[i] == 48 + half
                } else {
                    hex[i] == 87 + half || hex[i] == 55 + half
                }
            },
    ensures
        is_hex_32(hex),
        unhex_32(hex) == digest,
{
    lemma_hex(hex);
    assert forall|i: int| 0 <= i < 32 implies unhex_32(hex)[i] == digest[i] by {
        let (hi, lo) = (hex[2 * i], hex[2 * i + 1]);
        assert((2 * i) / 2 == i && (2 * i + 1) / 2 == i);
        assert((2 * i) % 2 == 0 && (2 * i + 1) % 2 == 1);
        assert(hex_value(hi) == Some((digest[i] / 16) as u8));
        assert(hex_value(lo) == Some((digest[i] % 16) as u8));
    }
    assert(unhex_32(hex) =~= digest);
}

} // verus!
