use vstd::prelude::*;
use crate::domain::{Chapter, Job};
use crate::numfmt::{dec, dec_string};

verus! {

// ---------------------------------------------------------------------------
// Planning
// ---------------------------------------------------------------------------

pub open spec fn min_int(a: int, b: int) -> int {
    if a <= b { a } else { b }
}

/// Consecutive runs of `size` positions from `start` up to `n`; the last may be shorter.
pub open spec fn chunks_from(start: int, n: int, size: int) -> Seq<(int, int)>
    decreases n - start,
{
    if size <= 0 || start >= n {
        Seq::empty()
    } else {
        seq![(start, min_int(start + size, n))] + chunks_from(min_int(start + size, n), n, size)
    }
}

/// `(0..n).chunks(size)` as ranges.
pub open spec fn chunk_ranges(n: int, size: int) -> Seq<(int, int)> {
    chunks_from(0, n, size)
}

/// The ranges cover `from..to` in order, each non-empty, one after the other.
pub open spec fn tiles(r: Seq<(int, int)>, from: int, to: int) -> bool
    decreases r.len(),
{
    if r.len() == 0 {
        from == to
    } else {
        r[0].0 == from && r[0].0 < r[0].1 && tiles(r.drop_first(), r[0].1, to)
    }
}

pub open spec fn range_views(v: Seq<(usize, usize)>) -> Seq<(int, int)> {
    v.map_values(|p: (usize, usize)| (p.0 as int, p.1 as int))
}

/// The ranges of `0..n` in runs of `size`.
pub fn plan_chunks(n: usize, size: usize) -> (r: Vec<(usize, usize)>)
    requires
        size > 0,
    ensures
        range_views(r@) == chunk_ranges(n as int, size as int),
{
    let mut r: Vec<(usize, usize)> = Vec::new();
    let mut start: usize = 0;
    while start < n
        invariant
            start <= n,
            size > 0,
            chunk_ranges(n as int, size as int) == range_views(r@) + chunks_from(start as int, n as int, size as int),
        decreases n - start,
    {
        let end = if n - start <= size { n } else { start + size };
        let ghost before = r@;
        r.push((start, end));
        proof {
            assert(range_views(r@) =~= range_views(before) + seq![(start as int, end as int)]);
            assert(range_views(before) + chunks_from(start as int, n as int, size as int)
                =~= range_views(r@) + chunks_from(end as int, n as int, size as int));
        }
        start = end;
    }
    assert(range_views(r@) + Seq::empty() =~= range_views(r@));
    r
}

/// How many chapters one review request carries: the batch size divided among the parallel
/// requests, at least one.
pub open spec fn slice_len(batch_size: int, parallelism: int) -> int {
    let s = if parallelism > 0 { batch_size / parallelism } else { batch_size };
    if s < 1 { 1 } else { s }
}

/// The review slices of the given batches: each batch cut in runs of `slice`.
pub open spec fn slices_of(batches: Seq<(int, int)>, slice: int) -> Seq<(int, int)>
    decreases batches.len(),
{
    if batches.len() == 0 {
        Seq::empty()
    } else {
        chunks_from(batches[0].0, batches[0].1, slice) + slices_of(batches.drop_first(), slice)
    }
}

/// The review slices of `n` chapters: the chapters in batches of `batch_size`, each batch in
/// runs of `slice_len(batch_size, parallelism)`.
pub open spec fn review_slices(n: int, batch_size: int, parallelism: int) -> Seq<(int, int)> {
    slices_of(chunk_ranges(n, batch_size), slice_len(batch_size, parallelism))
}

pub fn plan_review_slices(n: usize, batch_size: usize, parallelism: usize) -> (r: Vec<(usize, usize)>)
    requires
        batch_size > 0,
    ensures
        range_views(r@) == review_slices(n as int, batch_size as int, parallelism as int),
{
    let raw = if parallelism > 0 { batch_size / parallelism } else { batch_size };
    let slice = if raw < 1 { 1 } else { raw };
    let batches = plan_chunks(n, batch_size);
    let ghost bv = range_views(batches@);
    let mut r: Vec<(usize, usize)> = Vec::new();
    let mut i: usize = 0;
    assert(bv.skip(0) =~= bv);
    proof {
        lemma_chunks_tile(0, n as int, batch_size as int);
        lemma_tiles_ordered(bv, 0, n as int);
    }
    while i < batches.len()
        invariant
            i <= batches@.len(),
            forall|k: int| 0 <= k < bv.len() ==> (#[trigger] bv[k]).0 < bv[k].1,
            slice >= 1,
            slice == slice_len(batch_size as int, parallelism as int),
            bv == range_views(batches@),
            bv == chunk_ranges(n as int, batch_size as int),
            slices_of(bv, slice as int) == range_views(r@) + slices_of(bv.skip(i as int), slice as int),
        decreases batches@.len() - i,
    {
        let (b0, b1) = batches[i];
        proof {
            assert(bv[i as int] == (b0 as int, b1 as int));
            assert(bv.skip(i as int)[0] == (b0 as int, b1 as int));
            assert(bv.skip(i as int).drop_first() =~= bv.skip(i + 1));
        }
        let mut start = b0;
        let ghost mid = range_views(r@);
        while start < b1
            invariant
                b0 <= start <= b1,
                slice >= 1,
                mid + chunks_from(b0 as int, b1 as int, slice as int) == range_views(r@) + chunks_from(start as int, b1 as int, slice as int),
            decreases b1 - start,
        {
            let end = if b1 - start <= slice { b1 } else { start + slice };
            let ghost before = r@;
            r.push((start, end));
            proof {
                assert(range_views(r@) =~= range_views(before) + seq![(start as int, end as int)]);
                assert(range_views(before) + chunks_from(start as int, b1 as int, slice as int)
                    =~= range_views(r@) + chunks_from(end as int, b1 as int, slice as int));
            }
            start = end;
        }
        proof {
            assert(range_views(r@) + Seq::empty() =~= range_views(r@));
            assert(slices_of(bv.skip(i as int), slice as int) =~= chunks_from(b0 as int, b1 as int, slice as int) + slices_of(bv.skip(i + 1), slice as int));
            assert(slices_of(bv, slice as int) =~= range_views(r@) + slices_of(bv.skip(i + 1), slice as int));
        }
        i = i + 1;
    }
    proof {
        assert(bv.skip(i as int) =~= Seq::<(int, int)>::empty());
        assert(range_views(r@) + Seq::empty() =~= range_views(r@));
    }
    r
}

// ---------------------------------------------------------------------------
// Laws of the plans
// ---------------------------------------------------------------------------

pub proof fn lemma_chunks_tile(start: int, n: int, size: int)
    requires
        size > 0,
        start <= n,
    ensures
        tiles(chunks_from(start, n, size), start, n),
        forall|k: int| 0 <= k < chunks_from(start, n, size).len() ==> #[trigger] chunks_from(start, n, size)[k].1 - chunks_from(start, n, size)[k].0 <= size,
    decreases n - start,
{
    if start < n {
        let next = min_int(start + size, n);
        lemma_chunks_tile(next, n, size);
        let c = chunks_from(start, n, size);
        assert(c.drop_first() =~= chunks_from(next, n, size));
        assert forall|k: int| 0 <= k < c.len() implies #[trigger] c[k].1 - c[k].0 <= size by {
            if k > 0 {
                assert(c[k] == chunks_from(next, n, size)[k - 1]);
            }
        }
    }
}

pub proof fn lemma_tiles_ordered(r: Seq<(int, int)>, from: int, to: int)
    requires
        tiles(r, from, to),
    ensures
        forall|k: int| 0 <= k < r.len() ==> (#[trigger] r[k]).0 < r[k].1,
    decreases r.len(),
{
    if r.len() > 0 {
        lemma_tiles_ordered(r.drop_first(), r[0].1, to);
        assert forall|k: int| 0 <= k < r.len() implies (#[trigger] r[k]).0 < r[k].1 by {
            if k > 0 {
                assert(r[k] == r.drop_first()[k - 1]);
            }
        }
    }
}

proof fn lemma_tiles_concat(a: Seq<(int, int)>, b: Seq<(int, int)>, from: int, mid: int, to: int)
    requires
        tiles(a, from, mid),
        tiles(b, mid, to),
    ensures
        tiles(a + b, from, to),
    decreases a.len(),
{
    if a.len() > 0 {
        assert((a + b).drop_first() =~= a.drop_first() + b);
        lemma_tiles_concat(a.drop_first(), b, a[0].1, mid, to);
    } else {
        assert(a + b =~= b);
    }
}

proof fn lemma_slices_tile(batches: Seq<(int, int)>, slice: int, from: int, to: int)
    requires
        slice > 0,
        tiles(batches, from, to),
    ensures
        tiles(slices_of(batches, slice), from, to),
    decreases batches.len(),
{
    if batches.len() > 0 {
        lemma_chunks_tile(batches[0].0, batches[0].1, slice);
        lemma_slices_tile(batches.drop_first(), slice, batches[0].1, to);
        lemma_tiles_concat(
            chunks_from(batches[0].0, batches[0].1, slice),
            slices_of(batches.drop_first(), slice),
            from,
            batches[0].1,
            to,
        );
    }
}

/// Validation batches cover every chapter exactly once, in order, none larger than the
/// batch size.
pub proof fn law_batches_cover_chapters(n: int, size: int)
    requires
        n >= 0,
        size > 0,
    ensures
        tiles(chunk_ranges(n, size), 0, n),
        forall|k: int| 0 <= k < chunk_ranges(n, size).len() ==> #[trigger] chunk_ranges(n, size)[k].1 - chunk_ranges(n, size)[k].0 <= size,
{
    lemma_chunks_tile(0, n, size);
}

/// Review slices also cover every chapter exactly once, in order.
pub proof fn law_review_slices_cover_chapters(n: int, batch_size: int, parallelism: int)
    requires
        n >= 0,
        batch_size > 0,
    ensures
        tiles(review_slices(n, batch_size, parallelism), 0, n),
{
    lemma_chunks_tile(0, n, batch_size);
    lemma_slices_tile(chunk_ranges(n, batch_size), slice_len(batch_size, parallelism), 0, n);
}

} // verus!

verus! {

// ---------------------------------------------------------------------------
// Jobs
// ---------------------------------------------------------------------------

/// The two kinds of background job.
#[derive(Clone, Copy, Debug, PartialEq, Eq, Structural)]
pub enum JobKind {
    /// Asks the model which chapter titles are real headings, batch by batch.
    Validation,
    /// Asks the model to correct the valid chapters, slice by slice.
    Review,
}

/// The verb of a job's messages.
pub open spec fn verb(k: JobKind) -> Seq<char> {
    match k {
        JobKind::Validation => "验证"@,
        JobKind::Review => "审查"@,
    }
}

/// What a job's messages call one request: a batch or a slice.
pub open spec fn unit_word(k: JobKind) -> Seq<char> {
    match k {
        JobKind::Validation => "批"@,
        JobKind::Review => "片段"@,
    }
}

pub open spec fn job_type_name(k: JobKind) -> Seq<char> {
    match k {
        JobKind::Validation => "validate"@,
        JobKind::Review => "review"@,
    }
}

pub open spec fn start_message(k: JobKind) -> Seq<char> {
    "开始"@ + verb(k) + "章节..."@
}

/// A new running job of the given kind over `total` chapters.
pub fn new_job(kind: JobKind, id: String, novel_id: String, total_chapters: i64, now: String) -> (r: Job)
    ensures
        r.id == id,
        r.novel_id == novel_id,
        r.job_type@ == job_type_name(kind),
        r.status@ == "running"@,
        r.current_chapter == 0,
        r.total_chapters == total_chapters,
        r.message@ == start_message(kind),
        r.created_at == now,
        r.updated_at == now,
{
    let (job_type, message) = match kind {
        JobKind::Validation => (String::from_str("validate"), String::from_str("开始验证章节...")),
        JobKind::Review => (String::from_str("review"), String::from_str("开始审查章节...")),
    };
    proof {
        reveal_strlit("开始验证章节...");
        reveal_strlit("开始审查章节...");
        reveal_strlit("开始");
        reveal_strlit("验证");
        reveal_strlit("审查");
        reveal_strlit("章节...");
        assert("开始验证章节..."@ =~= "开始"@ + "验证"@ + "章节..."@);
        assert("开始审查章节..."@ =~= "开始"@ + "审查"@ + "章节..."@);
    }
    Job {
        id,
        novel_id,
        job_type,
        status: String::from_str("running"),
        current_chapter: 0,
        total_chapters,
        message,
        created_at: now.clone(),
        updated_at: now,
    }
}

/// The chapters a review works on: the valid ones, in order.
pub open spec fn valid_only(s: Seq<Chapter>) -> Seq<Chapter>
    decreases s.len(),
{
    if s.len() == 0 {
        Seq::empty()
    } else {
        valid_only(s.drop_last()) + if s.last().is_valid {
            seq![s.last()]
        } else {
            Seq::empty()
        }
    }
}

pub fn valid_chapters(chapters: Vec<Chapter>) -> (r: Vec<Chapter>)
    ensures
        r@ == valid_only(chapters@),
{
    broadcast use vstd::std_specs::vec::axiom_spec_into_iter;
    let ghost all = chapters@;
    let mut out: Vec<Chapter> = Vec::new();
    for c in it: chapters.into_iter()
        invariant
            it.seq() == all,
            out@ == valid_only(all.take(it.index())),
    {
        proof {
            let k = it.index();
            assert(all.take(k + 1).drop_last() =~= all.take(k));
            assert(all.take(k + 1).last() == all[k]);
        }
        if c.is_valid {
            out.push(c);
        }
    }
    assert(all.take(all.len() as int) =~= all);
    out
}

/// The pause in milliseconds before a failed review request is sent again.
pub const REVIEW_RETRY_DELAY_MS: u64 = 2_000;

/// Whether a review request sent `attempts` times so far is sent again after a failure, and
/// after how many milliseconds: a failed request is retried once, two seconds later.
pub fn review_retry_delay(attempts: u32, failed: bool) -> (r: Option<u64>)
    ensures
        failed && attempts < 2 ==> r == Some(REVIEW_RETRY_DELAY_MS),
        !(failed && attempts < 2) ==> r is None,
{
    if failed && attempts < 2 {
        Some(REVIEW_RETRY_DELAY_MS)
    } else {
        None
    }
}

/// What a job's loop does before a group of requests.
#[derive(Debug)]
pub enum JobAction {
    /// The job was cancelled: complete it with this message and stop.
    Stop(String),
    /// The job is paused: show this message, wait, and ask again.
    Wait(String),
    /// Send the group's requests, showing this message.
    Dispatch(String),
}

/// `第 <first>~<last> <unit>`: the requests of a group.
pub open spec fn group_span(k: JobKind, start: nat, end: nat, total_units: nat) -> Seq<char> {
    "第 "@ + dec(start + 1) + "~"@ + dec(if end <= total_units { end } else { total_units }) + " "@
        + unit_word(k)
}

pub open spec fn cancel_message(k: JobKind, processed: nat, total: nat) -> Seq<char> {
    verb(k) + "已终止，已完成 "@ + dec(processed) + " / "@ + dec(total) + " 章"@
}

pub open spec fn paused_message(k: JobKind, processed: nat, total: nat, start: nat, end: nat, total_units: nat) -> Seq<char> {
    "已暂停 · 已"@ + verb(k) + " "@ + dec(processed) + " / "@ + dec(total) + " 章 · "@
        + group_span(k, start, end, total_units)
}

pub open spec fn dispatch_message(k: JobKind, processed: nat, total: nat, start: nat, end: nat, total_units: nat) -> Seq<char> {
    "正在"@ + verb(k) + group_span(k, start, end, total_units) + " (共 "@ + dec(total_units) + " "@
        + unit_word(k) + ") · "@ + dec(processed) + "/"@ + dec(total)
}

pub open spec fn progress_message(k: JobKind, processed: nat, total: nat, start: nat, end: nat, total_units: nat) -> Seq<char> {
    "已"@ + verb(k) + " "@ + dec(processed) + " / "@ + dec(total) + " 章 · "@ + group_span(
        k,
        start,
        end,
        total_units,
    )
}

pub open spec fn final_message_spec(k: JobKind, total: nat, error: Option<Seq<char>>) -> Seq<char> {
    match error {
        Some(e) => verb(k) + "完成（部分失败），共 "@ + dec(total) + " 章。错误："@ + e,
        None => verb(k) + "完成，共 "@ + dec(total) + " 章"@,
    }
}

/// The progress of a running job: how many chapters are done and the last error seen.
#[derive(Debug)]
pub struct JobRun {
    pub kind: JobKind,
    pub total_chapters: u64,
    pub total_units: u64,
    pub processed: u64,
    pub error: Option<String>,
}

impl JobRun {
    pub fn new(kind: JobKind, total_chapters: u64, total_units: u64) -> (r: Self)
        ensures
            r.kind == kind,
            r.total_chapters == total_chapters,
            r.total_units == total_units,
            r.processed == 0,
            r.error is None,
            r == run_start(kind, total_chapters as nat, total_units as nat),
    {
        JobRun { kind, total_chapters, total_units, processed: 0, error: None }
    }

    fn verb_str(&self) -> (r: &'static str)
        ensures
            r@ == verb(self.kind),
    {
        match self.kind {
            JobKind::Validation => "验证",
            JobKind::Review => "审查",
        }
    }

    fn unit_str(&self) -> (r: &'static str)
        ensures
            r@ == unit_word(self.kind),
    {
        match self.kind {
            JobKind::Validation => "批",
            JobKind::Review => "片段",
        }
    }

    fn span(&self, start: u64, end: u64) -> (r: String)
        requires
            start < u64::MAX,
        ensures
            r@ == group_span(self.kind, start as nat, end as nat, self.total_units as nat),
    {
        let mut s = String::from_str("第 ");
        s.append(dec_string(start + 1).as_str());
        s.append("~");
        let last = if end <= self.total_units { end } else { self.total_units };
        s.append(dec_string(last).as_str());
        s.append(" ");
        s.append(self.unit_str());
        s
    }

    /// What to do before the group of requests `start..end`: stop when cancelled, wait when a
    /// review is paused, else send the group. Validation jobs do not pause.
    pub fn next_action(&self, start: u64, end: u64, cancelled: bool, paused: bool) -> (r: JobAction)
        requires
            start < u64::MAX,
        ensures
            cancelled ==> (r matches JobAction::Stop(m) && m@ == cancel_message(self.kind, self.processed as nat, self.total_chapters as nat)),
            !cancelled && paused && self.kind == JobKind::Review ==> (r matches JobAction::Wait(m) && m@ == paused_message(self.kind, self.processed as nat, self.total_chapters as nat, start as nat, end as nat, self.total_units as nat)),
            !cancelled && !(paused && self.kind == JobKind::Review) ==> (r matches JobAction::Dispatch(m) && m@ == dispatch_message(self.kind, self.processed as nat, self.total_chapters as nat, start as nat, end as nat, self.total_units as nat)),
    {
        if cancelled {
            let mut m = String::from_str(self.verb_str());
            m.append("已终止，已完成 ");
            m.append(dec_string(self.processed).as_str());
            m.append(" / ");
            m.append(dec_string(self.total_chapters).as_str());
            m.append(" 章");
            return JobAction::Stop(m);
        }
        let reviewing = match self.kind {
            JobKind::Review => true,
            JobKind::Validation => false,
        };
        if paused && reviewing {
            let mut m = String::from_str("已暂停 · 已");
            m.append(self.verb_str());
            m.append(" ");
            m.append(dec_string(self.processed).as_str());
            m.append(" / ");
            m.append(dec_string(self.total_chapters).as_str());
            m.append(" 章 · ");
            m.append(self.span(start, end).as_str());
            return JobAction::Wait(m);
        }
        let mut m = String::from_str("正在");
        m.append(self.verb_str());
        m.append(self.span(start, end).as_str());
        m.append(" (共 ");
        m.append(dec_string(self.total_units).as_str());
        m.append(" ");
        m.append(self.unit_str());
        m.append(") · ");
        m.append(dec_string(self.processed).as_str());
        m.append("/");
        m.append(dec_string(self.total_chapters).as_str());
        JobAction::Dispatch(m)
    }

    /// Notes a failed request; the last failure is the one reported at the end.
    pub fn record_failure(&mut self, message: String)
        ensures
            final(self).error == Some(message),
            final(self).processed == old(self).processed,
            final(self).kind == old(self).kind,
            final(self).total_chapters == old(self).total_chapters,
            final(self).total_units == old(self).total_units,
    {
        self.error = Some(message);
    }

    /// Counts the chapters of a finished group and gives the progress message.
    pub fn finish_group(&mut self, chapters: u64, start: u64, end: u64) -> (r: String)
        requires
            old(self).processed + chapters <= u64::MAX,
            start < u64::MAX,
        ensures
            final(self).processed == old(self).processed + chapters,
            final(self).error == old(self).error,
            final(self).kind == old(self).kind,
            final(self).total_chapters == old(self).total_chapters,
            final(self).total_units == old(self).total_units,
            r@ == progress_message(final(self).kind, final(self).processed as nat, final(self).total_chapters as nat, start as nat, end as nat, final(self).total_units as nat),
            *final(self) == group_finished(*old(self), chapters as int, None),
    {
        self.processed = self.processed + chapters;
        let mut m = String::from_str("已");
        m.append(self.verb_str());
        m.append(" ");
        m.append(dec_string(self.processed).as_str());
        m.append(" / ");
        m.append(dec_string(self.total_chapters).as_str());
        m.append(" 章 · ");
        m.append(self.span(start, end).as_str());
        m
    }

    /// The message the job completes with: plain when every request succeeded, else with
    /// the last error.
    pub fn final_message(&self) -> (r: String)
        ensures
            r@ == final_message_spec(self.kind, self.total_chapters as nat, error_view(self.error)),
    {
        let mut m = String::from_str(self.verb_str());
        match &self.error {
            Some(e) => {
                m.append("完成（部分失败），共 ");
                m.append(dec_string(self.total_chapters).as_str());
                m.append(" 章。错误：");
                m.append(e.as_str());
            },
            None => {
                m.append("完成，共 ");
                m.append(dec_string(self.total_chapters).as_str());
                m.append(" 章");
            },
        }
        m
    }
}

} // verus!

verus! {

proof fn lemma_div_step(x: int, size: int)
    requires
        size > 0,
        x > size,
    ensures
        (x + size - 1) / size == 1 + (x - size + size - 1) / size,
{
    assert((x + size - 1) / size == 1 + (x - size + size - 1) / size) by (nonlinear_arith)
        requires
            size > 0,
            x > size,
    {
        vstd::arithmetic::div_mod::lemma_div_plus_one(x - 1, size);
    }
}

proof fn lemma_div_one(x: int, size: int)
    requires
        size > 0,
        1 <= x <= size,
    ensures
        (x + size - 1) / size == 1,
{
    assert((x + size - 1) / size == 1) by (nonlinear_arith)
        requires
            size > 0,
            1 <= x <= size,
    {
        vstd::arithmetic::div_mod::lemma_div_of0(size);
        assert(size <= x + size - 1 < 2 * size);
        vstd::arithmetic::div_mod::lemma_fundamental_div_mod(x + size - 1, size);
    }
}

proof fn lemma_chunk_count(start: int, n: int, size: int)
    requires
        size > 0,
        start <= n,
    ensures
        chunks_from(start, n, size).len() == (n - start + size - 1) / size,
    decreases n - start,
{
    if start < n {
        let next = min_int(start + size, n);
        lemma_chunk_count(next, n, size);
        if start + size >= n {
            lemma_div_one(n - start, size);
        } else {
            lemma_div_step(n - start, size);
        }
    } else {
        assert((size - 1) / size == 0) by (nonlinear_arith)
            requires
                size > 0,
        ;
    }
}

/// A job over `n` chapters in runs of `size` sends `⌈n / size⌉` requests.
pub proof fn law_chunk_count(n: int, size: int)
    requires
        n >= 0,
        size > 0,
    ensures
        chunk_ranges(n, size).len() == (n + size - 1) / size,
{
    lemma_chunk_count(0, n, size);
}

} // verus!

verus! {

proof fn lemma_slices_sized(batches: Seq<(int, int)>, slice: int)
    requires
        slice > 0,
        forall|k: int| 0 <= k < batches.len() ==> (#[trigger] batches[k]).0 <= batches[k].1,
    ensures
        forall|k: int| 0 <= k < slices_of(batches, slice).len() ==> #[trigger] slices_of(batches, slice)[k].1 - slices_of(batches, slice)[k].0 <= slice,
    decreases batches.len(),
{
    if batches.len() > 0 {
        let head = chunks_from(batches[0].0, batches[0].1, slice);
        let rest = slices_of(batches.drop_first(), slice);
        lemma_chunks_tile(batches[0].0, batches[0].1, slice);
        assert forall|k: int| 0 <= k < batches.drop_first().len() implies (#[trigger] batches.drop_first()[k]).0 <= batches.drop_first()[k].1 by {
            assert(batches.drop_first()[k] == batches[k + 1]);
        }
        lemma_slices_sized(batches.drop_first(), slice);
        let all = slices_of(batches, slice);
        assert(all =~= head + rest);
        assert forall|k: int| 0 <= k < all.len() implies #[trigger] all[k].1 - all[k].0 <= slice by {
            if k < head.len() {
                assert(all[k] == head[k]);
            } else {
                assert(all[k] == rest[k - head.len()]);
            }
        }
    }
}

/// Each review request carries at most the batch size divided among the parallel requests
/// (at least one chapter): 100 chapters per batch over 50 requests is 2 chapters each.
pub proof fn law_review_slice_size(n: int, batch_size: int, parallelism: int)
    requires
        n >= 0,
        batch_size > 0,
    ensures
        forall|k: int| 0 <= k < review_slices(n, batch_size, parallelism).len() ==> #[trigger] review_slices(n, batch_size, parallelism)[k].1 - review_slices(n, batch_size, parallelism)[k].0 <= slice_len(batch_size, parallelism),
        parallelism > 0 && batch_size >= parallelism ==> slice_len(batch_size, parallelism) == batch_size / parallelism,
{
    lemma_chunks_tile(0, n, batch_size);
    lemma_tiles_ordered(chunk_ranges(n, batch_size), 0, n);
    lemma_slices_sized(chunk_ranges(n, batch_size), slice_len(batch_size, parallelism));
    if parallelism > 0 && batch_size >= parallelism {
        assert(batch_size / parallelism >= 1) by (nonlinear_arith)
            requires
                parallelism > 0,
                batch_size >= parallelism,
        ;
    }
}

} // verus!

verus! {

// ---------------------------------------------------------------------------
// Whole runs
// ---------------------------------------------------------------------------

/// Where range `j` of `r` starts; from the last range on, `to`, the end of what they cover.
pub open spec fn range_start(r: Seq<(int, int)>, to: int, j: int) -> int {
    if 0 <= j < r.len() {
        r[j].0
    } else {
        to
    }
}

/// The total length of the ranges `r`.
pub open spec fn sum_lens(r: Seq<(int, int)>) -> int
    decreases r.len(),
{
    if r.len() == 0 {
        0
    } else {
        (r[0].1 - r[0].0) + sum_lens(r.drop_first())
    }
}

/// The units a job sends, one request each: validation batches or review slices.
pub open spec fn job_units(kind: JobKind, n: int, batch_size: int, parallelism: int) -> Seq<(int, int)> {
    match kind {
        JobKind::Validation => chunk_ranges(n, batch_size),
        JobKind::Review => review_slices(n, batch_size, parallelism),
    }
}

/// The chapters of a group of units (a range of unit positions): the sum of their lengths.
pub open spec fn group_chapters(units: Seq<(int, int)>, group: (int, int)) -> int {
    sum_lens(units.subrange(group.0, group.1))
}

/// The chapters that come before group `k`: where its first unit starts.
pub open spec fn done_before(units: Seq<(int, int)>, groups: Seq<(int, int)>, n: int, k: int) -> int {
    range_start(units, n, range_start(groups, units.len() as int, k))
}

pub open spec fn error_view(e: Option<String>) -> Option<Seq<char>> {
    match e {
        Some(m) => Some(m@),
        None => None,
    }
}

/// A job's progress when it starts.
pub open spec fn run_start(kind: JobKind, total_chapters: nat, total_units: nat) -> JobRun {
    JobRun {
        kind,
        total_chapters: total_chapters as u64,
        total_units: total_units as u64,
        processed: 0,
        error: None,
    }
}

/// The progress after a group of `chapters` chapters is finished, `failure` being the last
/// failure noted while it ran.
pub open spec fn group_finished(r: JobRun, chapters: int, failure: Option<String>) -> JobRun {
    JobRun {
        kind: r.kind,
        total_chapters: r.total_chapters,
        total_units: r.total_units,
        processed: (r.processed + chapters) as u64,
        error: match failure {
            Some(m) => Some(m),
            None => r.error,
        },
    }
}

/// How a job's loop runs from group `k` on. Before each group it stops when a cancel is seen
/// (`cancelled(k)`, the `Stop` of `JobRun::next_action`); else it sends the group and counts
/// its chapters (`JobRun::finish_group`), noting the last failure of the group (`failures(k)`,
/// `JobRun::record_failure`). Gives the progress the loop ends with and the message the job
/// completes with (`JobRun::final_message` after the last group).
pub open spec fn run_from(
    r: JobRun,
    units: Seq<(int, int)>,
    groups: Seq<(int, int)>,
    k: nat,
    cancelled: spec_fn(nat) -> bool,
    failures: spec_fn(nat) -> Option<String>,
) -> (JobRun, Seq<char>)
    decreases groups.len() - k,
{
    if k >= groups.len() {
        (r, final_message_spec(r.kind, r.total_chapters as nat, error_view(r.error)))
    } else if cancelled(k) {
        (r, cancel_message(r.kind, r.processed as nat, r.total_chapters as nat))
    } else {
        run_from(
            group_finished(r, group_chapters(units, groups[k as int]), failures(k)),
            units,
            groups,
            k + 1,
            cancelled,
            failures,
        )
    }
}

proof fn lemma_tiles_positions(r: Seq<(int, int)>, from: int, to: int)
    requires
        tiles(r, from, to),
    ensures
        range_start(r, to, 0) == from,
        from <= to,
        forall|j: int| 0 <= j < r.len() ==> #[trigger] r[j].1 == range_start(r, to, j + 1),
        forall|j: int| 0 <= j < r.len() ==> (#[trigger] r[j]).0 < r[j].1,
        forall|j: int| 0 <= j <= r.len() ==> from <= #[trigger] range_start(r, to, j) <= to,
    decreases r.len(),
{
    if r.len() > 0 {
        let rest = r.drop_first();
        lemma_tiles_positions(rest, r[0].1, to);
        assert forall|j: int| 0 <= j < r.len() implies #[trigger] r[j].1 == range_start(r, to, j + 1) by {
            if j > 0 {
                assert(r[j] == rest[j - 1]);
                assert(rest[j - 1].1 == range_start(rest, to, j));
            } else if r.len() > 1 {
                assert(rest[0] == r[1]);
            }
        }
        assert forall|j: int| 0 <= j < r.len() implies (#[trigger] r[j]).0 < r[j].1 by {
            if j > 0 {
                assert(r[j] == rest[j - 1]);
            }
        }
        assert forall|j: int| 0 <= j <= r.len() implies from <= #[trigger] range_start(r, to, j) <= to by {
            if j > 0 {
                if j < r.len() {
                    assert(r[j] == rest[j - 1]);
                }
                assert(range_start(r, to, j) == range_start(rest, to, j - 1));
            }
        }
    }
}

proof fn lemma_positions_grow(r: Seq<(int, int)>, to: int, a: int, b: int)
    requires
        0 <= a <= b <= r.len(),
        forall|j: int| 0 <= j < r.len() ==> #[trigger] r[j].1 == range_start(r, to, j + 1),
        forall|j: int| 0 <= j < r.len() ==> (#[trigger] r[j]).0 < r[j].1,
    ensures
        range_start(r, to, a) <= range_start(r, to, b),
        sum_lens(r.subrange(a, b)) == range_start(r, to, b) - range_start(r, to, a),
    decreases b - a,
{
    if a < b {
        lemma_positions_grow(r, to, a + 1, b);
        let s = r.subrange(a, b);
        assert(s[0] == r[a]);
        assert(s.drop_first() =~= r.subrange(a + 1, b));
        assert(r[a].1 == range_start(r, to, a + 1));
        assert(r[a].0 < r[a].1);
    } else {
        assert(r.subrange(a, b) =~= Seq::<(int, int)>::empty());
    }
}

/// What the plans give a run: each group counts the chapters between where it and the next
/// group start, the count before a group lies between 0 and `n`, and after the last group it
/// is `n`.
proof fn lemma_group_progress(units: Seq<(int, int)>, groups: Seq<(int, int)>, n: int)
    requires
        tiles(units, 0, n),
        tiles(groups, 0, units.len() as int),
    ensures
        done_before(units, groups, n, 0) == 0,
        done_before(units, groups, n, groups.len() as int) == n,
        forall|k: int| 0 <= k <= groups.len() ==> 0 <= #[trigger] done_before(units, groups, n, k) <= n,
        forall|k: int| 0 <= k < groups.len() ==> #[trigger] group_chapters(units, groups[k])
            == done_before(units, groups, n, k as int + 1) - done_before(units, groups, n, k),
        forall|k: int| 0 <= k < groups.len() ==> done_before(units, groups, n, k)
            <= #[trigger] done_before(units, groups, n, k as int + 1),
{
    let len = units.len() as int;
    lemma_tiles_positions(units, 0, n);
    lemma_tiles_positions(groups, 0, len);
    assert(range_start(groups, len, groups.len() as int) == len);
    assert(range_start(units, n, len) == n);
    if units.len() > 0 {
        assert(range_start(units, n, 0) == units[0].0);
    }
    assert forall|k: int| 0 <= k <= groups.len() implies 0 <= #[trigger] done_before(units, groups, n, k) <= n by {
        let g = range_start(groups, len, k);
        assert(0 <= g <= len);
    }
    assert forall|k: int| 0 <= k < groups.len() implies #[trigger] group_chapters(units, groups[k])
        == done_before(units, groups, n, k as int + 1) - done_before(units, groups, n, k) by {
        let a = range_start(groups, len, k);
        let b = range_start(groups, len, k + 1);
        assert(groups[k].0 == a);
        assert(groups[k].1 == b);
        assert(0 <= a <= len);
        assert(0 <= b <= len);
        lemma_positions_grow(units, n, a, b);
    }
    assert forall|k: int| 0 <= k < groups.len() implies done_before(units, groups, n, k)
        <= #[trigger] done_before(units, groups, n, k as int + 1) by {
        let a = range_start(groups, len, k);
        let b = range_start(groups, len, k + 1);
        assert(groups[k].1 == b);
        assert(0 <= a <= len);
        assert(0 <= b <= len);
        lemma_positions_grow(units, n, a, b);
    }
}

proof fn lemma_run_completes(
    r: JobRun,
    units: Seq<(int, int)>,
    groups: Seq<(int, int)>,
    n: int,
    k: nat,
    cancelled: spec_fn(nat) -> bool,
    failures: spec_fn(nat) -> Option<String>,
)
    requires
        tiles(units, 0, n),
        tiles(groups, 0, units.len() as int),
        n <= u64::MAX,
        k <= groups.len(),
        r.processed == done_before(units, groups, n, k as int),
        r.total_chapters == n,
        forall|j: nat| k <= j < groups.len() ==> !#[trigger] cancelled(j),
    ensures
        run_from(r, units, groups, k, cancelled, failures).0.processed == n,
        run_from(r, units, groups, k, cancelled, failures).0.kind == r.kind,
        run_from(r, units, groups, k, cancelled, failures).0.total_chapters == r.total_chapters,
        run_from(r, units, groups, k, cancelled, failures).1 == final_message_spec(
            r.kind,
            n as nat,
            error_view(run_from(r, units, groups, k, cancelled, failures).0.error),
        ),
        (forall|j: nat| k <= j < groups.len() ==> #[trigger] failures(j) is None)
            ==> run_from(r, units, groups, k, cancelled, failures).0.error == r.error,
    decreases groups.len() - k,
{
    lemma_group_progress(units, groups, n);
    if k < groups.len() {
        assert(!cancelled(k));
        let next = group_finished(r, group_chapters(units, groups[k as int]), failures(k));
        assert(done_before(units, groups, n, k as int) <= done_before(units, groups, n, k as int + 1));
        assert(0 <= done_before(units, groups, n, k as int + 1) <= n);
        assert(next.processed == done_before(units, groups, n, k as int + 1));
        lemma_run_completes(next, units, groups, n, k + 1, cancelled, failures);
    }
}

proof fn lemma_run_cancelled(
    r: JobRun,
    units: Seq<(int, int)>,
    groups: Seq<(int, int)>,
    n: int,
    k: nat,
    c: nat,
    cancelled: spec_fn(nat) -> bool,
    failures: spec_fn(nat) -> Option<String>,
)
    requires
        tiles(units, 0, n),
        tiles(groups, 0, units.len() as int),
        n <= u64::MAX,
        k <= c < groups.len(),
        cancelled(c),
        forall|j: nat| k <= j < c ==> !#[trigger] cancelled(j),
        r.processed == done_before(units, groups, n, k as int),
        r.total_chapters == n,
    ensures
        run_from(r, units, groups, k, cancelled, failures).0.processed == done_before(units, groups, n, c as int),
        run_from(r, units, groups, k, cancelled, failures).1 == cancel_message(
            r.kind,
            done_before(units, groups, n, c as int) as nat,
            n as nat,
        ),
    decreases c - k,
{
    lemma_group_progress(units, groups, n);
    assert(0 <= done_before(units, groups, n, c as int) <= n);
    if k < c {
        assert(!cancelled(k));
        let next = group_finished(r, group_chapters(units, groups[k as int]), failures(k));
        assert(done_before(units, groups, n, k as int) <= done_before(units, groups, n, k as int + 1));
        assert(0 <= done_before(units, groups, n, k as int + 1) <= n);
        assert(next.processed == done_before(units, groups, n, k as int + 1));
        lemma_run_cancelled(next, units, groups, n, k + 1, c, cancelled, failures);
    }
}

proof fn lemma_job_plans_tile(kind: JobKind, n: int, batch_size: int, parallelism: int)
    requires
        n >= 0,
        batch_size > 0,
        parallelism > 0,
    ensures
        tiles(job_units(kind, n, batch_size, parallelism), 0, n),
        tiles(
            chunk_ranges(job_units(kind, n, batch_size, parallelism).len() as int, parallelism),
            0,
            job_units(kind, n, batch_size, parallelism).len() as int,
        ),
{
    match kind {
        JobKind::Validation => lemma_chunks_tile(0, n, batch_size),
        JobKind::Review => law_review_slices_cover_chapters(n, batch_size, parallelism),
    }
    lemma_chunks_tile(0, job_units(kind, n, batch_size, parallelism).len() as int, parallelism);
}

/// A job that is never cancelled sends every group: the chapters counted never go down, stay
/// within the total, and reach it after the last group; the job then completes with its final
/// message, the plain one (`审查完成，共 N 章` for a review) when no request failed.
pub proof fn law_job_run_completes(
    kind: JobKind,
    n: nat,
    batch_size: int,
    parallelism: int,
    cancelled: spec_fn(nat) -> bool,
    failures: spec_fn(nat) -> Option<String>,
)
    requires
        batch_size > 0,
        parallelism > 0,
        n <= u64::MAX,
        forall|j: nat| !#[trigger] cancelled(j),
    ensures
        ({
            let units = job_units(kind, n as int, batch_size, parallelism);
            let groups = chunk_ranges(units.len() as int, parallelism);
            let end = run_from(run_start(kind, n, units.len()), units, groups, 0, cancelled, failures);
            &&& forall|k: int| 0 <= k < groups.len() ==> 0 <= done_before(units, groups, n as int, k)
                <= #[trigger] done_before(units, groups, n as int, k + 1) <= n
            &&& end.0.processed == n
            &&& end.0.total_chapters == n
            &&& end.1 == final_message_spec(kind, n, error_view(end.0.error))
            &&& (forall|j: nat| #[trigger] failures(j) is None) ==> end.1 == verb(kind) + "完成，共 "@
                + dec(n) + " 章"@
        }),
{
    let units = job_units(kind, n as int, batch_size, parallelism);
    let groups = chunk_ranges(units.len() as int, parallelism);
    lemma_job_plans_tile(kind, n as int, batch_size, parallelism);
    lemma_group_progress(units, groups, n as int);
    let r0 = run_start(kind, n, units.len());
    lemma_run_completes(r0, units, groups, n as int, 0, cancelled, failures);
}

/// A cancel seen before group `c` stops the job there: no later group is sent, the chapters
/// counted stay at those of the groups already done, and the job completes with the
/// termination message (`审查已终止，已完成 k / N 章` for a review).
pub proof fn law_cancel_stops_job(
    kind: JobKind,
    n: nat,
    batch_size: int,
    parallelism: int,
    c: nat,
    cancelled: spec_fn(nat) -> bool,
    failures: spec_fn(nat) -> Option<String>,
)
    requires
        batch_size > 0,
        parallelism > 0,
        n <= u64::MAX,
        c < chunk_ranges(job_units(kind, n as int, batch_size, parallelism).len() as int, parallelism).len(),
        cancelled(c),
        forall|j: nat| j < c ==> !#[trigger] cancelled(j),
    ensures
        ({
            let units = job_units(kind, n as int, batch_size, parallelism);
            let groups = chunk_ranges(units.len() as int, parallelism);
            let end = run_from(run_start(kind, n, units.len()), units, groups, 0, cancelled, failures);
            &&& 0 <= done_before(units, groups, n as int, c as int) <= n
            &&& end.0.processed == done_before(units, groups, n as int, c as int)
            &&& end.1 == cancel_message(kind, done_before(units, groups, n as int, c as int) as nat, n)
        }),
{
    let units = job_units(kind, n as int, batch_size, parallelism);
    let groups = chunk_ranges(units.len() as int, parallelism);
    lemma_job_plans_tile(kind, n as int, batch_size, parallelism);
    lemma_group_progress(units, groups, n as int);
    let r0 = run_start(kind, n, units.len());
    lemma_run_cancelled(r0, units, groups, n as int, 0, c, cancelled, failures);
}

} // verus!
