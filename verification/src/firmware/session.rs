//! What a whole download does to the flash, from its start to its commit.
use super::digest::sha256;
use super::flash::{
    append_appends, append_is_exact, append_plan, apply_all, erasures, holding,
    plan_changes_its_region_only, plans_concatenate, sector_end, step_within, within, Step,
    SECTOR_SIZE,
};
use super::ota::{
    after_commit, after_ctrl, after_data, after_start, after_tick, flush_plan, padded,
    receive_plan, target_slot, whole_words_add_up, written, Answer, CtrlOutcome, Download, OtaView,
    Partitions, Slot, IDLE_TIMEOUT_MS,
};
use vstd::prelude::*;

verus! {

/// The whole words of the image lie in the slot.
pub open spec fn in_flash(flash: Seq<u8>, d: Download) -> bool {
    let n = written(d.image.len() as int);
    &&& d.offset + d.size <= flash.len()
    &&& flash.subrange(d.offset, d.offset + n) == d.image.take(n)
}

proof fn lemma_append(
    flash: Seq<u8>,
    offset: int,
    size: int,
    n: int,
    bytes: Seq<u8>,
    held: Seq<u8>,
)
    requires
        0 <= offset,
        0 <= n <= size,
        offset + size <= flash.len(),
        flash.subrange(offset, offset + n) == held,
    ensures
        within(append_plan(offset, size, n, bytes).0, offset, offset + size),
        apply_all(flash, append_plan(offset, size, n, bytes).0).len() == flash.len(),
        append_plan(offset, size, n, bytes).1 ==> n + bytes.len() <= size && apply_all(
            flash,
            append_plan(offset, size, n, bytes).0,
        ).subrange(offset, offset + n + bytes.len()) == held + bytes,
{
    append_appends(flash, offset, size, n, bytes);
    let (plan, ok) = append_plan(offset, size, n, bytes);
    let f = apply_all(flash, plan);
    if ok {
        assert(f.subrange(offset, offset + n + bytes.len()) =~= f.subrange(offset, offset + n)
            + f.subrange(offset + n, offset + n + bytes.len()));
    }
}

proof fn lemma_within_concat(a: Seq<Step>, b: Seq<Step>, from: int, to: int)
    requires
        within(a, from, to),
        within(b, from, to),
    ensures
        within(a + b, from, to),
{
    assert forall|i: int| 0 <= i < (a + b).len() implies step_within(
        #[trigger] (a + b)[i],
        from,
        to,
    ) by {
        if i < a.len() {
            assert(step_within(a[i], from, to));
        } else {
            assert(step_within(b[i - a.len()], from, to));
        }
    }
}

#[verifier::rlimit(40)]
proof fn lemma_received(flash: Seq<u8>, offset: int, size: int, image: Seq<u8>, data: Seq<u8>)
    requires
        0 <= offset,
        offset + size <= flash.len(),
        written(image.len() as int) <= size,
        ({
            let n = written(image.len() as int);
            flash.subrange(offset, offset + n) == image.take(n)
        }),
    ensures
        ({
            let (plan, ok) = receive_plan(offset, size, image, data);
            let m = written((image + data).len() as int);
            &&& within(plan, offset, offset + size)
            &&& apply_all(flash, plan).len() == flash.len()
            &&& ok ==> m <= size && apply_all(flash, plan).subrange(offset, offset + m) == (image
                + data).take(m)
        }),
{
    let n = written(image.len() as int);
    let pending = image.skip(n);
    let all = pending + data;
    let whole = image + data;
    let held = image.take(n);
    whole_words_add_up(image.len() as int, data.len() as int);
    assert(whole =~= held + all);
    if pending.len() == 0 {
        let words = data.take(written(data.len() as int));
        lemma_append(flash, offset, size, n, words, held);
        assert(written(whole.len() as int) == n + words.len());
        assert(held + words == whole.take(n + words.len()));
    } else if all.len() < 4 {
        assert(written(whole.len() as int) == n);
        assert(held == whole.take(n));
    } else {
        let word = all.take(4);
        let (p1, ok1) = append_plan(offset, size, n, word);
        lemma_append(flash, offset, size, n, word, held);
        if ok1 {
            let f1 = apply_all(flash, p1);
            let rest = all.skip(4);
            let words = rest.take(written(rest.len() as int));
            assert(rest.len() == data.len() - (4 - pending.len()));
            let (p2, ok2) = append_plan(offset, size, n + 4, words);
            lemma_append(f1, offset, size, n + 4, words, held + word);
            lemma_within_concat(p1, p2, offset, offset + size);
            plans_concatenate(flash, p1, p2);
            assert(written(whole.len() as int) == n + 4 + words.len());
            assert(held + word + words =~= whole.take(n + 4 + words.len())) by {
                assert(all =~= word + rest);
            }
        }
    }
}

proof fn lemma_received_exact(
    flash: Seq<u8>,
    offset: int,
    size: int,
    image: Seq<u8>,
    data: Seq<u8>,
)
    requires
        0 <= offset,
        offset + size <= flash.len(),
        receive_plan(offset, size, image, data).1,
    ensures
        ({
            let whole = image + data;
            apply_all(
                holding(flash, offset, image.take(written(image.len() as int))),
                receive_plan(offset, size, image, data).0,
            ) == holding(flash, offset, whole.take(written(whole.len() as int)))
        }),
{
    let n = written(image.len() as int);
    let pending = image.skip(n);
    let all = pending + data;
    let whole = image + data;
    let held = image.take(n);
    let base = holding(flash, offset, held);
    whole_words_add_up(image.len() as int, data.len() as int);
    assert(whole =~= held + all);
    if pending.len() == 0 {
        let words = data.take(written(data.len() as int));
        append_is_exact(flash, offset, size, held, words);
        assert(held + words =~= whole.take(n + words.len()));
    } else if all.len() < 4 {
        assert(written(whole.len() as int) == n);
        assert(held =~= whole.take(n));
    } else {
        let word = all.take(4);
        let rest = all.skip(4);
        let words = rest.take(written(rest.len() as int));
        let p1 = append_plan(offset, size, n, word).0;
        let p2 = append_plan(offset, size, n + 4, words).0;
        assert(rest.len() == data.len() - (4 - pending.len()));
        append_is_exact(flash, offset, size, held, word);
        append_is_exact(flash, offset, size, held + word, words);
        plans_concatenate(base, p1, p2);
        assert(held + word + words =~= whole.take(n + 4 + words.len())) by {
            assert(all =~= word + rest);
        }
    }
}

/// The pieces of an image, one after the other.
pub open spec fn joined(pieces: Seq<Seq<u8>>) -> Seq<u8>
    decreases pieces.len(),
{
    if pieces.len() == 0 {
        Seq::empty()
    } else {
        joined(pieces.drop_last()) + pieces.last()
    }
}

/// How an image reaches the flash that is handed to `write_bytes` piece by piece, up to the first
/// piece that does not fit.
pub open spec fn pieces_plan(offset: int, size: int, pieces: Seq<Seq<u8>>) -> (Seq<Step>, bool)
    decreases pieces.len(),
{
    if pieces.len() == 0 {
        (Seq::empty(), true)
    } else {
        let before = pieces.drop_last();
        let (plan, ok) = pieces_plan(offset, size, before);
        if ok {
            let (more, fits) = receive_plan(offset, size, joined(before), pieces.last());
            (plan + more, fits)
        } else {
            (plan, false)
        }
    }
}

/// The flash does not depend on how an image is cut into pieces: once all of them fit, it holds the
/// whole words of the image, in sectors erased for them, and is otherwise as it was; fewer than
/// four bytes are still to come. Fit or not, nothing outside the slot is erased or written.
pub proof fn cutting_does_not_matter(
    offset: int,
    size: int,
    pieces: Seq<Seq<u8>>,
    flash: Seq<u8>,
)
    requires
        0 <= offset,
        0 <= size,
        offset + size <= flash.len(),
    ensures
        ({
            let (plan, ok) = pieces_plan(offset, size, pieces);
            let image = joined(pieces);
            let n = written(image.len() as int);
            let f = apply_all(flash, plan);
            &&& within(plan, offset, offset + size)
            &&& f.len() == flash.len()
            &&& ok ==> {
                &&& n <= size
                &&& n % 4 == 0
                &&& image.skip(n).len() < 4
                &&& f == holding(flash, offset, image.take(n))
                &&& f.subrange(offset, offset + n) + image.skip(n) == image
            }
        }),
    decreases pieces.len(),
{
    let (plan, ok) = pieces_plan(offset, size, pieces);
    let image = joined(pieces);
    let n = written(image.len() as int);
    let f = apply_all(flash, plan);
    if pieces.len() == 0 {
        assert(holding(flash, offset, image.take(0)) =~= flash);
    } else {
        let before = pieces.drop_last();
        cutting_does_not_matter(offset, size, before, flash);
        let (p1, ok1) = pieces_plan(offset, size, before);
        if ok1 {
            let f1 = apply_all(flash, p1);
            let held = joined(before);
            let m = written(held.len() as int);
            let p2 = receive_plan(offset, size, held, pieces.last()).0;
            assert(f1.subrange(offset, offset + m) =~= held.take(m));
            lemma_received(f1, offset, size, held, pieces.last());
            lemma_within_concat(p1, p2, offset, offset + size);
            plans_concatenate(flash, p1, p2);
            if ok {
                lemma_received_exact(flash, offset, size, held, pieces.last());
            }
        }
    }
    if ok {
        assert(f.subrange(offset, offset + n) =~= image.take(n));
        assert(image.take(n) + image.skip(n) =~= image);
    }
}

/// A chunk is written to the slot and nowhere else, behind what is there already.
pub proof fn a_chunk_reaches_the_flash(v: OtaView, data: Seq<u8>, now_us: u64, flash: Seq<u8>)
    requires
        v.valid(),
        v.download matches Some(d) && in_flash(flash, d),
    ensures
        ({
            let d = v.download->0;
            let (v2, plan, _) = after_data(v, data, now_us);
            &&& v2.valid()
            &&& within(plan, d.offset, d.offset + d.size)
            &&& apply_all(flash, plan).len() == flash.len()
            &&& v2.download matches Some(d2) ==> {
                &&& d2 == (Download { image: d.image + data, mark: d2.mark, seen: d2.seen, ..d })
                &&& in_flash(apply_all(flash, plan), d2)
            }
        }),
{
    let d = v.download->0;
    if data.len() == 0 {
        assert(d.image + data == d.image);
    } else {
        lemma_received(flash, d.offset, d.size, d.image, data);
    }
}

/// What a sequence of chunks carries.
pub open spec fn sent(chunks: Seq<(Seq<u8>, u64)>) -> Seq<u8>
    decreases chunks.len(),
{
    if chunks.len() == 0 {
        Seq::empty()
    } else {
        sent(chunks.drop_last()) + chunks.last().0
    }
}

/// The machine after a sequence of chunks, each with its time, and what is written on the way.
pub open spec fn after_chunks(v: OtaView, chunks: Seq<(Seq<u8>, u64)>) -> (OtaView, Seq<Step>)
    decreases chunks.len(),
{
    if chunks.len() == 0 {
        (v, Seq::empty())
    } else {
        let (before, plan) = after_chunks(v, chunks.drop_last());
        let (after, more, _) = after_data(before, chunks.last().0, chunks.last().1);
        (after, plan + more)
    }
}

/// In whatever chunks an image comes, the slot holds its whole words, in order, and nothing outside
/// the slot is touched.
#[verifier::rlimit(40)]
pub proof fn a_cut_image_reaches_the_flash(
    v: OtaView,
    d: Download,
    chunks: Seq<(Seq<u8>, u64)>,
    flash: Seq<u8>,
)
    requires
        v.valid(),
        v.download == Some(d),
        d.image.len() == 0,
        d.offset + d.size <= flash.len(),
    ensures
        ({
            let (v2, plan) = after_chunks(v, chunks);
            &&& v2.valid()
            &&& within(plan, d.offset, d.offset + d.size)
            &&& apply_all(flash, plan).len() == flash.len()
            &&& v2.download matches Some(d2) ==> {
                &&& d2 == (Download { image: sent(chunks), mark: d2.mark, seen: d2.seen, ..d })
                &&& in_flash(apply_all(flash, plan), d2)
            }
        }),
    decreases chunks.len(),
{
    if chunks.len() == 0 {
        assert(d.image == sent(chunks));
        assert(flash.subrange(d.offset, d.offset) == d.image.take(0));
    } else {
        a_cut_image_reaches_the_flash(v, d, chunks.drop_last(), flash);
        let (before, plan) = after_chunks(v, chunks.drop_last());
        let (data, now_us) = chunks.last();
        let (after, more, _) = after_data(before, data, now_us);
        if before.download is Some {
            a_chunk_reaches_the_flash(before, data, now_us, apply_all(flash, plan));
        }
        lemma_within_concat(plan, more, d.offset, d.offset + d.size);
        plans_concatenate(flash, plan, more);
    }
}

proof fn lemma_flush(v: OtaView, flash: Seq<u8>)
    requires
        v.valid(),
        v.download matches Some(d) && in_flash(flash, d),
    ensures
        ({
            let d = v.download->0;
            let (plan, ok) = flush_plan(d.offset, d.size, d.image);
            &&& within(plan, d.offset, d.offset + d.size)
            &&& apply_all(flash, plan).len() == flash.len()
            &&& ok ==> d.image.len() <= d.size && apply_all(flash, plan).subrange(
                d.offset,
                d.offset + d.image.len(),
            ) == d.image
        }),
{
    let d = v.download->0;
    let n = written(d.image.len() as int);
    let tail = d.image.skip(n);
    if n == d.image.len() {
        assert(d.image.take(n) == d.image);
    } else {
        let (plan, ok) = append_plan(d.offset, d.size, n, padded(tail));
        lemma_append(flash, d.offset, d.size, n, padded(tail), d.image.take(n));
        if ok {
            let f = apply_all(flash, plan);
            let full = f.subrange(d.offset, d.offset + n + 4);
            assert(f.subrange(d.offset, d.offset + d.image.len()) == full.take(
                d.image.len() as int,
            ));
            assert(full.take(d.image.len() as int) == d.image);
        }
    }
}

/// All that is written from the first chunk to the commit.
pub open spec fn session_plan(v: OtaView, chunks: Seq<(Seq<u8>, u64)>) -> Seq<Step> {
    let (after, plan) = after_chunks(v, chunks);
    match after_commit(after).1 {
        Answer::Flush { plan: last, .. } => plan + last,
        _ => plan,
    }
}

#[verifier::rlimit(40)]
proof fn lemma_session_plan(v: OtaView, d: Download, chunks: Seq<(Seq<u8>, u64)>, flash: Seq<u8>)
    requires
        v.valid(),
        v.download == Some(d),
        d.image.len() == 0,
        d.offset + d.size <= flash.len(),
    ensures
        ({
            let (after, plan) = after_chunks(v, chunks);
            let f = apply_all(flash, session_plan(v, chunks));
            &&& within(session_plan(v, chunks), d.offset, d.offset + d.size)
            &&& (after.download matches Some(d2) ==> {
                let (_, ok) = flush_plan(d.offset, d.size, d2.image);
                &&& d2 == (Download { image: sent(chunks), mark: d2.mark, seen: d2.seen, ..d })
                &&& after.valid()
                &&& ok ==> d2.image.len() <= d.size && f.subrange(
                    d.offset,
                    d.offset + d2.image.len(),
                ) == d2.image
            })
        }),
{
    a_cut_image_reaches_the_flash(v, d, chunks, flash);
    let (after, plan) = after_chunks(v, chunks);
    if after.download is Some {
        lemma_flush(after, apply_all(flash, plan));
        let last = flush_plan(d.offset, d.size, after.download->0.image).0;
        lemma_within_concat(plan, last, d.offset, d.offset + d.size);
        plans_concatenate(flash, plan, last);
    }
}

/// From its start to its commit a download touches nothing outside its slot. Where the commit
/// switches to the slot, the slot holds what was sent, and that has the announced length and
/// digest.
#[verifier::rlimit(40)]
pub proof fn a_committed_image_is_what_was_sent(
    v: OtaView,
    size: u32,
    expected: Seq<u8>,
    table: Partitions,
    slot: Slot,
    index: usize,
    start_us: u64,
    chunks: Seq<(Seq<u8>, u64)>,
    flash: Seq<u8>,
)
    requires
        table.wf(),
        target_slot(table) == Some((slot, index)),
        slot.offset + slot.len <= flash.len(),
        after_start(v, size, expected, Some(table), start_us).1 == CtrlOutcome::Started,
    ensures
        ({
            let v1 = after_start(v, size, expected, Some(table), start_us).0;
            let (v3, answer) = after_commit(after_chunks(v1, chunks).0);
            let f = apply_all(flash, session_plan(v1, chunks));
            &&& f.len() == flash.len()
            &&& forall|i: int|
                0 <= i < flash.len() && !(slot.offset <= i < slot.offset + slot.len)
                    ==> #[trigger] f[i] == flash[i]
            &&& v3.download is None
            &&& (answer matches Answer::Flush { switch_to: Some(to), .. } ==> {
                &&& to == index
                &&& sent(chunks).len() == size
                &&& sha256(sent(chunks)) == expected
                &&& f.subrange(slot.offset as int, slot.offset + size) == sent(chunks)
            })
        }),
{
    let v1 = after_start(v, size, expected, Some(table), start_us).0;
    let d = v1.download->0;
    lemma_session_plan(v1, d, chunks, flash);
    plan_changes_its_region_only(flash, session_plan(v1, chunks), d.offset, d.offset + d.size);
}

/// A download may be cut off after any of its operations: what lies outside the slot is as it was.
pub proof fn an_interrupted_download_spares_the_rest(
    v: OtaView,
    size: u32,
    expected: Seq<u8>,
    table: Partitions,
    slot: Slot,
    index: usize,
    start_us: u64,
    chunks: Seq<(Seq<u8>, u64)>,
    flash: Seq<u8>,
    done: int,
)
    requires
        table.wf(),
        target_slot(table) == Some((slot, index)),
        slot.offset + slot.len <= flash.len(),
        after_start(v, size, expected, Some(table), start_us).1 == CtrlOutcome::Started,
        ({
            let v1 = after_start(v, size, expected, Some(table), start_us).0;
            0 <= done <= session_plan(v1, chunks).len()
        }),
    ensures
        ({
            let v1 = after_start(v, size, expected, Some(table), start_us).0;
            let f = apply_all(flash, session_plan(v1, chunks).take(done));
            &&& f.len() == flash.len()
            &&& forall|i: int|
                0 <= i < flash.len() && !(slot.offset <= i < slot.offset + slot.len)
                    ==> #[trigger] f[i] == flash[i]
        }),
{
    let v1 = after_start(v, size, expected, Some(table), start_us).0;
    let d = v1.download->0;
    let plan = session_plan(v1, chunks);
    lemma_session_plan(v1, d, chunks, flash);
    let (from, to) = (d.offset, d.offset + d.size);
    assert forall|i: int| 0 <= i < plan.take(done).len() implies step_within(
        #[trigger] plan.take(done)[i],
        from,
        to,
    ) by {
        assert(step_within(plan[i], from, to));
    }
    plan_changes_its_region_only(flash, plan.take(done), from, to);
}

proof fn lemma_erasures_fit(from: int, upto: int, end: int)
    requires
        upto <= end,
        (end - from) % SECTOR_SIZE as int == 0,
    ensures
        erasures(from, upto, end).1,
    decreases
        (if from < upto {
            upto - from
        } else {
            0
        }),
{
    if from < upto {
        lemma_erasures_fit(from + SECTOR_SIZE, upto, end);
    }
}

proof fn lemma_append_fits(offset: int, size: int, n: int, bytes: Seq<u8>)
    requires
        0 <= n,
        n + bytes.len() <= size,
        size % SECTOR_SIZE as int == 0,
    ensures
        append_plan(offset, size, n, bytes).1,
{
    lemma_erasures_fit(offset + sector_end(n), offset + n + bytes.len(), offset + size);
}

proof fn lemma_chunk_fits(v: OtaView, data: Seq<u8>, now_us: u64)
    requires
        v.download matches Some(d) && d.image.len() + data.len() <= d.size && d.size
            % SECTOR_SIZE as int == 0,
    ensures
        after_data(v, data, now_us).0.download is Some,
{
    let d = v.download->0;
    let n = written(d.image.len() as int);
    let all = d.image.skip(n) + data;
    if d.image.len() == n {
        lemma_append_fits(d.offset, d.size, n, data.take(written(data.len() as int)));
    } else if all.len() >= 4 {
        let rest = all.skip(4);
        lemma_append_fits(d.offset, d.size, n, all.take(4));
        lemma_append_fits(d.offset, d.size, n + 4, rest.take(written(rest.len() as int)));
    }
}

proof fn lemma_chunks_fit(v: OtaView, d: Download, chunks: Seq<(Seq<u8>, u64)>, flash: Seq<u8>)
    requires
        v.valid(),
        v.download == Some(d),
        d.image.len() == 0,
        in_flash(flash, d),
        d.size % SECTOR_SIZE as int == 0,
        sent(chunks).len() <= d.size,
    ensures
        after_chunks(v, chunks).0.download is Some,
    decreases chunks.len(),
{
    if chunks.len() > 0 {
        lemma_chunks_fit(v, d, chunks.drop_last(), flash);
        a_cut_image_reaches_the_flash(v, d, chunks.drop_last(), flash);
        lemma_chunk_fits(after_chunks(v, chunks.drop_last()).0, chunks.last().0, chunks.last().1);
    }
}

proof fn lemma_flush_fits(offset: int, size: int, image: Seq<u8>)
    requires
        image.len() <= size,
        size % SECTOR_SIZE as int == 0,
    ensures
        flush_plan(offset, size, image).1,
{
    let n = written(image.len() as int);
    if n != image.len() {
        lemma_append_fits(offset, size, n, padded(image.skip(n)));
    }
}

/// In a slot of whole sectors, an image of the announced length and digest is switched to, in
/// whatever chunks it comes.
#[verifier::rlimit(40)]
pub proof fn an_intact_image_is_accepted(
    v: OtaView,
    size: u32,
    expected: Seq<u8>,
    table: Partitions,
    slot: Slot,
    index: usize,
    start_us: u64,
    chunks: Seq<(Seq<u8>, u64)>,
)
    requires
        table.wf(),
        target_slot(table) == Some((slot, index)),
        slot.len % SECTOR_SIZE == 0,
        after_start(v, size, expected, Some(table), start_us).1 == CtrlOutcome::Started,
        sent(chunks).len() == size,
        sha256(sent(chunks)) == expected,
    ensures
        ({
            let v1 = after_start(v, size, expected, Some(table), start_us).0;
            let (v3, answer) = after_commit(after_chunks(v1, chunks).0);
            &&& answer matches Answer::Flush { switch_to: Some(to), .. } && to == index
            &&& v3 == (OtaView { download: None, status: "done"@ })
        }),
{
    let v1 = after_start(v, size, expected, Some(table), start_us).0;
    let d = v1.download->0;
    let flash = Seq::new((d.offset + d.size) as nat, |i: int| 0u8);
    assert(flash.subrange(d.offset, d.offset) == d.image.take(0));
    assert(slot.offset + slot.len <= u32::MAX);
    lemma_chunks_fit(v1, d, chunks, flash);
    a_cut_image_reaches_the_flash(v1, d, chunks, flash);
    lemma_flush_fits(d.offset, d.size, sent(chunks));
}

/// A command that is refused leaves a running download as it is.
pub proof fn a_refused_command_keeps_the_download(v: OtaView, data: Seq<u8>)
    ensures
        after_ctrl(v, data).1 == Answer::Finished(CtrlOutcome::Rejected) ==> after_ctrl(
            v,
            data,
        ).0.download == v.download,
{
}

/// So does a `start` that is refused once the partition table has been read.
pub proof fn a_refused_start_keeps_the_download(
    v: OtaView,
    size: u32,
    expected: Seq<u8>,
    table: Option<Partitions>,
    now_us: u64,
)
    ensures
        ({
            let (after, outcome) = after_start(v, size, expected, table, now_us);
            &&& outcome == CtrlOutcome::Started || outcome == CtrlOutcome::Rejected
            &&& outcome == CtrlOutcome::Rejected ==> after.download == v.download
        }),
{
}

/// A download ends by itself after ten seconds without a chunk, and not before.
pub proof fn silence_ends_a_download(v: OtaView, now_us: u64)
    requires
        v.download matches Some(d) && d.seen <= now_us,
    ensures
        after_tick(v, now_us).1 <==> now_us - v.download->0.seen >= 1000 * IDLE_TIMEOUT_MS,
        after_tick(v, now_us).1 <==> after_tick(v, now_us).0.download is None,
{
}

} // verus!
