//! The line-oriented match collector: it receives match and context lines in
//! file order and keeps what the offset, limit and context settings ask for.

use crate::text::{copy_range, decode_lossy, lossy_text, string_of, trim_end_chars, trim_end_spec};
use smallvec::SmallVec;
use vstd::prelude::*;

verus! {

/// A short run of context lines, kept inline while it is small.
#[verifier::external_body]
pub struct ContextBuffer {
    lines: SmallVec<[ContextLine; 8]>,
}

/// The lines a context buffer holds, in order.
pub uninterp spec fn buffered(v: ContextBuffer) -> Seq<ContextLine>;

/// An empty buffer.
///
/// Relies on `smallvec::SmallVec::new`: the buffer starts empty.
#[verifier::external_body]
fn buffer_new() -> (r: ContextBuffer)
    ensures
        buffered(r) == Seq::<ContextLine>::empty(),
{
    ContextBuffer { lines: SmallVec::new() }
}

/// Appends `x` to the buffer.
///
/// Relies on `smallvec::SmallVec::push`: `x` becomes the last element.
#[verifier::external_body]
fn buffer_push(v: &mut ContextBuffer, x: ContextLine)
    ensures
        buffered(*final(v)) == buffered(*old(v)).push(x),
{
    v.lines.push(x);
}

/// Moves the buffer's lines out, leaving it empty.
///
/// Relies on `std::mem::take` with `SmallVec`'s `Default` (`SmallVec::new`, empty).
#[verifier::external_body]
fn buffer_take(v: &mut ContextBuffer) -> (r: ContextBuffer)
    ensures
        buffered(r) == buffered(*old(v)),
        buffered(*final(v)) == Seq::<ContextLine>::empty(),
{
    ContextBuffer { lines: std::mem::take(&mut v.lines) }
}

impl ContextBuffer {
    /// How many lines the buffer holds.
    ///
    /// Relies on `smallvec::SmallVec::len`.
    #[verifier::external_body]
    pub fn len(&self) -> (r: usize)
        ensures
            r == buffered(*self).len(),
    {
        self.lines.len()
    }

    /// The buffer's lines, copied into a vector.
    ///
    /// Relies on `slice::to_vec` (through `SmallVec`'s `Deref` to a slice
    /// of its elements) and the derived `Clone` of `ContextLine`, which
    /// copies both fields.
    #[verifier::external_body]
    pub fn to_vec(&self) -> (r: Vec<ContextLine>)
        ensures
            r@ == buffered(*self),
    {
        self.lines.to_vec()
    }
}

/// A line next to a match.
#[derive(Clone)]
pub struct ContextLine {
    /// 1-based line number.
    pub line_number: u32,
    /// The line, without its line ending and trailing white space.
    pub line: String,
}

/// One collected match with its context.
pub struct CollectedMatch {
    /// 1-based line number (0 when the searcher gave none).
    pub line_number: u64,
    /// The matched line, trimmed and possibly truncated.
    pub line: String,
    /// Context lines before the match, in order.
    pub context_before: ContextBuffer,
    /// Context lines after the match, in order.
    pub context_after: ContextBuffer,
    /// Whether `line` was cut to the column limit.
    pub truncated: bool,
}

/// Where a context line stands relative to the match it belongs to.
#[derive(Clone, Copy, Debug, PartialEq, Eq, Structural)]
pub enum ContextKind {
    /// Before a match.
    Before,
    /// After a match.
    After,
    /// Neither (a separator or other context).
    Other,
}

/// A context line as plain values.
pub type ContextView = (u32, Seq<char>);

/// A collected match as plain values.
pub struct MatchView {
    pub line_number: u64,
    pub line: Seq<char>,
    pub before: Seq<ContextView>,
    pub after: Seq<ContextView>,
    pub truncated: bool,
}

pub open spec fn context_view(c: ContextLine) -> ContextView {
    (c.line_number, c.line@)
}

pub open spec fn context_views(v: Seq<ContextLine>) -> Seq<ContextView> {
    v.map_values(|c: ContextLine| context_view(c))
}

pub open spec fn match_view(m: CollectedMatch) -> MatchView {
    MatchView {
        line_number: m.line_number,
        line: m.line@,
        before: context_views(buffered(m.context_before)),
        after: context_views(buffered(m.context_after)),
        truncated: m.truncated,
    }
}

pub open spec fn match_views(v: Seq<CollectedMatch>) -> Seq<MatchView> {
    v.map_values(|m: CollectedMatch| match_view(m))
}

/// `n + 1`, saturating at `u64::MAX`.
pub open spec fn sat_inc(n: u64) -> u64 {
    if n == u64::MAX {
        n
    } else {
        (n + 1) as u64
    }
}

/// A line number as `u32`, saturating.
pub open spec fn clamp_line(n: u64) -> u32 {
    if n > u32::MAX {
        u32::MAX
    } else {
        n as u32
    }
}

/// A line cut to the column limit: when it has more than `max` characters
/// it keeps the first `max - 3` (0 if `max < 3`) and gains `...`.
pub open spec fn truncate_spec(line: Seq<char>, max_columns: Option<usize>) -> (Seq<char>, bool) {
    match max_columns {
        Some(max) => if line.len() > max {
            (line.take(if max >= 3 { max - 3 } else { 0 }) + seq!['.', '.', '.'], true)
        } else {
            (line, false)
        },
        None => (line, false),
    }
}

/// The text of a line as the collector keeps it: decoded permissively,
/// trailing white space removed, cut to the column limit.
pub open spec fn line_text(bytes: Seq<u8>, max_columns: Option<usize>) -> (Seq<char>, bool) {
    truncate_spec(trim_end_spec(lossy_text(bytes)), max_columns)
}

/// The collector's state as plain values.
pub struct CollectorView {
    pub matches: Seq<MatchView>,
    pub match_count: u64,
    pub collected: u64,
    pub max_count: Option<u64>,
    pub offset: u64,
    pub skipped: u64,
    pub limit_reached: bool,
    pub before: Seq<ContextView>,
    pub max_columns: Option<usize>,
    pub collect_matches: bool,
}

/// The counts of a collector agree: no more matches kept than collected,
/// no more collected than seen.
pub open spec fn collector_wf(s: CollectorView) -> bool {
    s.matches.len() <= s.collected && s.collected <= s.match_count
}

/// The state of a fresh collector.
pub open spec fn initial_view(max_count: Option<u64>, offset: u64, max_columns: Option<usize>, collect_matches: bool) -> CollectorView {
    CollectorView {
        matches: Seq::empty(),
        match_count: 0,
        collected: 0,
        max_count,
        offset,
        skipped: 0,
        limit_reached: max_count == Some(0u64),
        before: Seq::empty(),
        max_columns,
        collect_matches,
    }
}

/// What a match line does to the collector, and whether scanning goes on.
pub open spec fn match_step(s: CollectorView, line_number: Option<u64>, bytes: Seq<u8>) -> (CollectorView, bool) {
    let s1 = CollectorView { match_count: sat_inc(s.match_count), ..s };
    if s.limit_reached {
        (s1, false)
    } else if s.skipped < s.offset {
        (CollectorView { skipped: (s.skipped + 1) as u64, before: Seq::empty(), ..s1 }, true)
    } else {
        let text = line_text(bytes, s.max_columns);
        let record = MatchView {
            line_number: match line_number {
                Some(n) => n,
                None => 0,
            },
            line: text.0,
            before: s.before,
            after: Seq::empty(),
            truncated: text.1,
        };
        let collected = sat_inc(s.collected);
        (CollectorView {
            matches: if s.collect_matches {
                s.matches.push(record)
            } else {
                s.matches
            },
            collected,
            before: Seq::empty(),
            limit_reached: s.max_count is Some && collected >= s.max_count->0,
            ..s1
        }, true)
    }
}

/// What a context line does to the collector.
pub open spec fn context_step(s: CollectorView, kind: ContextKind, line_number: Option<u64>, bytes: Seq<u8>) -> CollectorView {
    let line = (
        clamp_line(
            match line_number {
                Some(n) => n,
                None => 0,
            },
        ),
        line_text(bytes, s.max_columns).0,
    );
    if !s.collect_matches {
        s
    } else {
        match kind {
            ContextKind::Before => CollectorView { before: s.before.push(line), ..s },
            ContextKind::After => if s.matches.len() > 0 {
                let last = s.matches.last();
                CollectorView {
                    matches: s.matches.update(
                        s.matches.len() - 1,
                        MatchView { after: last.after.push(line), ..last },
                    ),
                    ..s
                }
            } else {
                s
            },
            ContextKind::Other => s,
        }
    }
}

/// Collects matches with offset, limit, context and truncation.
pub struct MatchCollector {
    matches: Vec<CollectedMatch>,
    match_count: u64,
    collected_count: u64,
    max_count: Option<u64>,
    offset: u64,
    skipped: u64,
    limit_reached: bool,
    context_before: ContextBuffer,
    max_columns: Option<usize>,
    collect_matches: bool,
}

impl View for MatchCollector {
    type V = CollectorView;

    closed spec fn view(&self) -> CollectorView {
        CollectorView {
            matches: match_views(self.matches@),
            match_count: self.match_count,
            collected: self.collected_count,
            max_count: self.max_count,
            offset: self.offset,
            skipped: self.skipped,
            limit_reached: self.limit_reached,
            before: context_views(buffered(self.context_before)),
            max_columns: self.max_columns,
            collect_matches: self.collect_matches,
        }
    }
}

/// `line` cut to `max_columns`, and whether it was cut.
pub fn truncate_line(line: &[char], max_columns: Option<usize>) -> (r: (Vec<char>, bool))
    ensures
        (r.0@, r.1) == truncate_spec(line@, max_columns),
{
    match max_columns {
        Some(max) => {
            if line.len() > max {
                let cut = max.saturating_sub(3);
                let mut out = copy_range(line, 0, cut);
                out.push('.');
                out.push('.');
                out.push('.');
                assert(out@ =~= line@.take(cut as int) + seq!['.', '.', '.']);
                (out, true)
            } else {
                (copy_range(line, 0, line.len()), false)
            }
        },
        None => (copy_range(line, 0, line.len()), false),
    }
}

/// The text of a line as kept: decoded permissively, trimmed at the end, cut.
pub fn line_text_of(bytes: &[u8], max_columns: Option<usize>) -> (r: (String, bool))
    ensures
        (r.0@, r.1) == line_text(bytes@, max_columns),
{
    let decoded = decode_lossy(bytes);
    let trimmed = trim_end_chars(decoded.as_slice());
    let (cut, truncated) = truncate_line(trimmed.as_slice(), max_columns);
    (string_of(cut.as_slice()), truncated)
}

impl MatchCollector {
    /// A collector that skips the first `offset` matches, stops collecting
    /// after `max_count` (if given), and cuts lines to `max_columns`; with
    /// `collect_matches` false it only counts.
    pub fn new(max_count: Option<u64>, offset: u64, max_columns: Option<usize>, collect_matches: bool) -> (r: MatchCollector)
        ensures
            r@ == initial_view(max_count, offset, max_columns, collect_matches),
            collector_wf(r@),
    {
        let limit_reached = match max_count {
            Some(m) => m == 0,
            None => false,
        };
        let r = MatchCollector {
            matches: Vec::new(),
            match_count: 0,
            collected_count: 0,
            max_count,
            offset,
            skipped: 0,
            limit_reached,
            context_before: buffer_new(),
            max_columns,
            collect_matches,
        };
        assert(r@.matches =~= Seq::<MatchView>::empty());
        assert(r@.before =~= Seq::<ContextView>::empty());
        r
    }

    /// Takes a match line; returns whether scanning should go on.
    pub fn matched(&mut self, line_number: Option<u64>, bytes: &[u8]) -> (r: bool)
        ensures
            (final(self)@, r) == match_step(old(self)@, line_number, bytes@),
            collector_wf(old(self)@) ==> collector_wf(final(self)@),
    {
        self.match_count = self.match_count.saturating_add(1);
        if self.limit_reached {
            return false;
        }
        if self.skipped < self.offset {
            self.skipped = self.skipped + 1;
            self.context_before = buffer_new();
            assert(context_views(buffered(self.context_before)) =~= Seq::<ContextView>::empty());
            return true;
        }
        let ghost old_matches = self.matches@;
        let ghost old_before = buffered(self.context_before);
        if self.collect_matches {
            let (line, truncated) = line_text_of(bytes, self.max_columns);
            let context_before = buffer_take(&mut self.context_before);
            let ln = match line_number {
                Some(n) => n,
                None => 0,
            };
            let record = CollectedMatch {
                line_number: ln,
                line,
                context_before,
                context_after: buffer_new(),
                truncated,
            };
            assert(context_views(buffered(record.context_after)) =~= Seq::<ContextView>::empty());
            self.matches.push(record);
            let kept = self.matches.len();
            assert(kept as nat == old_matches.len() + 1);
            assert(match_views(self.matches@) =~= match_views(old_matches).push(match_view(record)));
        } else {
            self.context_before = buffer_new();
        }
        assert(context_views(buffered(self.context_before)) =~= Seq::<ContextView>::empty());
        self.collected_count = self.collected_count.saturating_add(1);
        match self.max_count {
            Some(max) => {
                if self.collected_count >= max {
                    self.limit_reached = true;
                }
            },
            None => {},
        }
        true
    }

    /// Takes a context line of the given kind.
    pub fn context(&mut self, kind: ContextKind, line_number: Option<u64>, bytes: &[u8])
        ensures
            final(self)@ == context_step(old(self)@, kind, line_number, bytes@),
            collector_wf(old(self)@) ==> collector_wf(final(self)@),
    {
        if !self.collect_matches {
            return;
        }
        let (line, _) = line_text_of(bytes, self.max_columns);
        let ln = match line_number {
            Some(n) => n,
            None => 0,
        };
        let line_number = if ln > u32::MAX as u64 { u32::MAX } else { ln as u32 };
        let entry = ContextLine { line_number, line };
        match kind {
            ContextKind::Before => {
                let ghost old_before = buffered(self.context_before);
                buffer_push(&mut self.context_before, entry);
                assert(context_views(buffered(self.context_before)) =~= context_views(old_before).push(context_view(entry)));
            },
            ContextKind::After => {
                if self.matches.len() > 0 {
                    let ghost old_matches = self.matches@;
                    let mut last = self.matches.pop().unwrap();
                    let ghost old_after = buffered(last.context_after);
                    buffer_push(&mut last.context_after, entry);
                    assert(context_views(buffered(last.context_after)) =~= context_views(old_after).push(context_view(entry)));
                    self.matches.push(last);
                    assert(self.matches@ == old_matches.update(old_matches.len() - 1, last));
                    assert(match_views(self.matches@) =~= match_views(old_matches).update(old_matches.len() - 1, match_view(last)));
                }
            },
            ContextKind::Other => {},
        }
    }

    /// Whether the collected matches reached the limit.
    pub fn limit_reached(&self) -> (r: bool)
        ensures
            r == self@.limit_reached,
    {
        self.limit_reached
    }

    /// Ends the scan and hands over what was collected.
    pub fn finish(self) -> (r: ScanOutcome)
        ensures
            match_views(r.matches@) == self@.matches,
            r.match_count == self@.match_count,
            r.collected == self@.collected,
            r.limit_reached == self@.limit_reached,
            collector_wf(self@) ==> outcome_wf(r),
    {
        ScanOutcome {
            matches: self.matches,
            match_count: self.match_count,
            collected: self.collected_count,
            limit_reached: self.limit_reached,
        }
    }
}

/// What one scan produced.
pub struct ScanOutcome {
    /// The collected matches, in file order.
    pub matches: Vec<CollectedMatch>,
    /// Every match seen, skipped ones included.
    pub match_count: u64,
    /// Matches counted as collected (also in count-only mode).
    pub collected: u64,
    /// Whether collection stopped at the limit.
    pub limit_reached: bool,
}

/// The counts of an outcome agree: no more matches kept than collected, no
/// more collected than seen.
pub open spec fn outcome_wf(o: ScanOutcome) -> bool {
    o.matches@.len() <= o.collected && o.collected <= o.match_count
}

/// One line handed to the collector by a line-oriented searcher.
pub enum ScanEvent {
    /// A matching line.
    Match { line_number: Option<u64>, bytes: Vec<u8> },
    /// A context line.
    Context { kind: ContextKind, line_number: Option<u64>, bytes: Vec<u8> },
}

/// What one event does to the collector, and whether scanning goes on.
pub open spec fn event_step(s: CollectorView, e: ScanEvent) -> (CollectorView, bool) {
    match e {
        ScanEvent::Match { line_number, bytes } => match_step(s, line_number, bytes@),
        ScanEvent::Context { kind, line_number, bytes } => (context_step(s, kind, line_number, bytes@), true),
    }
}

/// The collector after the events `ev`, fed in order until it asks to stop,
/// and whether it stopped.
pub open spec fn run_events(s: CollectorView, ev: Seq<ScanEvent>) -> (CollectorView, bool)
    decreases ev.len(),
{
    if ev.len() == 0 {
        (s, false)
    } else {
        let prev = run_events(s, ev.drop_last());
        if prev.1 {
            prev
        } else {
            let next = event_step(prev.0, ev.last());
            (next.0, !next.1)
        }
    }
}

/// Runs a fresh collector over `events` in order, stopping when it asks to.
pub fn scan_events(max_count: Option<u64>, offset: u64, max_columns: Option<usize>, collect_matches: bool, events: &Vec<ScanEvent>) -> (r: ScanOutcome)
    ensures
        ({
            let s = run_events(initial_view(max_count, offset, max_columns, collect_matches), events@).0;
            &&& match_views(r.matches@) == s.matches
            &&& r.match_count == s.match_count
            &&& r.collected == s.collected
            &&& r.limit_reached == s.limit_reached
        }),
        outcome_wf(r),
{
    let ghost init = initial_view(max_count, offset, max_columns, collect_matches);
    let mut collector = MatchCollector::new(max_count, offset, max_columns, collect_matches);
    let mut i: usize = 0;
    while i < events.len()
        invariant
            i <= events.len(),
            run_events(init, events@.take(i as int)) == (collector@, false),
            init == initial_view(max_count, offset, max_columns, collect_matches),
            collector_wf(collector@),
        decreases events.len() - i,
    {
        assert(events@.take(i + 1).drop_last() =~= events@.take(i as int));
        let go_on = match &events[i] {
            ScanEvent::Match { line_number, bytes } => collector.matched(*line_number, bytes.as_slice()),
            ScanEvent::Context { kind, line_number, bytes } => {
                collector.context(*kind, *line_number, bytes.as_slice());
                true
            },
        };
        if !go_on {
            proof {
                assert(events@.take(i + 1).last() == events@[i as int]);
                assert(run_events(init, events@.take(i + 1)) == (collector@, true));
                lemma_run_stays_stopped(init, events@, i + 1);
                assert(run_events(init, events@).0 == collector@);
            }
            return collector.finish();
        }
        i = i + 1;
    }
    assert(events@.take(events@.len() as int) =~= events@);
    collector.finish()
}

proof fn lemma_run_stays_stopped(s: CollectorView, ev: Seq<ScanEvent>, n: int)
    requires
        0 <= n <= ev.len(),
        run_events(s, ev.take(n)).1,
    ensures
        run_events(s, ev) == run_events(s, ev.take(n)),
    decreases ev.len() - n,
{
    if n < ev.len() {
        assert(ev.take(n + 1).drop_last() =~= ev.take(n));
        lemma_run_stays_stopped(s, ev, n + 1);
    } else {
        assert(ev.take(n) =~= ev);
    }
}

/// The line number a match event carries (0 if none).
pub open spec fn event_line(e: ScanEvent) -> u64 {
    match e {
        ScanEvent::Match { line_number, .. } => match line_number {
            Some(n) => n,
            None => 0,
        },
        ScanEvent::Context { .. } => 0,
    }
}

/// How many of `n` raw matches a scan with `offset` and `max_count` keeps.
pub open spec fn kept_count(n: nat, offset: nat, max_count: Option<u64>) -> nat {
    let avail: nat = if n > offset { (n - offset) as nat } else { 0 };
    match max_count {
        Some(m) => if m < avail { m as nat } else { avail },
        None => avail,
    }
}

proof fn lemma_offset_limit_prefix(ev: Seq<ScanEvent>, offset: u64, max_count: Option<u64>, cols: Option<usize>, n: nat)
    requires
        forall|i: int| 0 <= i < ev.len() ==> #[trigger] ev[i] is Match,
        ev.len() < u64::MAX,
        n <= ev.len(),
        max_count != Some(0u64),
    ensures
        ({
            let st = run_events(initial_view(max_count, offset, cols, true), ev.take(n as int));
            let k = kept_count(n, offset as nat, max_count);
            &&& st.0.collect_matches && st.0.max_count == max_count && st.0.offset == offset && st.0.max_columns == cols
            &&& st.0.skipped == if n < offset { n } else { offset as nat }
            &&& st.0.matches.len() == k
            &&& st.0.collected == k
            &&& st.0.before.len() == 0
            &&& st.1 == (max_count is Some && n > offset + max_count->0)
            &&& st.0.limit_reached == (max_count is Some && n >= offset + max_count->0)
            &&& forall|i: int| 0 <= i < k ==> (#[trigger] st.0.matches[i]).line_number == event_line(ev[offset + i])
        }),
    decreases n,
{
    let init = initial_view(max_count, offset, cols, true);
    if n == 0 {
        assert(ev.take(0) =~= Seq::<ScanEvent>::empty());
    } else {
        let m1 = (n - 1) as nat;
        lemma_offset_limit_prefix(ev, offset, max_count, cols, m1);
        assert(ev.take(n as int).drop_last() =~= ev.take(m1 as int));
        assert(ev.take(n as int).last() == ev[m1 as int]);
        let prev = run_events(init, ev.take(m1 as int));
        let st = run_events(init, ev.take(n as int));
        let e = ev[m1 as int];
        assert(e is Match);
        if !prev.1 {
            let kp = kept_count(m1, offset as nat, max_count);
            let k = kept_count(n, offset as nat, max_count);
            if prev.0.skipped < offset {
                assert(k == 0);
            } else if !prev.0.limit_reached {
                assert(k == kp + 1);
                assert(st.0.matches == prev.0.matches.push(st.0.matches.last()));
                assert forall|i: int| 0 <= i < k implies (#[trigger] st.0.matches[i]).line_number == event_line(ev[offset + i]) by {
                    if i < kp {
                        assert(st.0.matches[i] == prev.0.matches[i]);
                    } else {
                        assert(offset + i == m1);
                    }
                }
            }
        }
    }
}

/// Paginating a scan of raw matches: with `offset` k and `max_count` m, the
/// collector keeps exactly `min(m, N - k)` matches (none if N <= k), and they
/// are the raw matches k+1 .. k+m, in their input order.
pub proof fn lemma_offset_limit(ev: Seq<ScanEvent>, offset: u64, max_count: Option<u64>, cols: Option<usize>)
    requires
        forall|i: int| 0 <= i < ev.len() ==> #[trigger] ev[i] is Match,
        ev.len() < u64::MAX,
    ensures
        ({
            let s = run_events(initial_view(max_count, offset, cols, true), ev).0;
            let k = kept_count(ev.len(), offset as nat, max_count);
            &&& s.matches.len() == k
            &&& forall|i: int| 0 <= i < k ==> (#[trigger] s.matches[i]).line_number == event_line(ev[offset + i])
        }),
{
    let init = initial_view(max_count, offset, cols, true);
    assert(ev.take(ev.len() as int) =~= ev);
    if max_count == Some(0u64) {
        if ev.len() > 0 {
            assert(ev.take(1).drop_last() =~= Seq::<ScanEvent>::empty());
            assert(ev.take(1).last() == ev[0]);
            assert(ev[0] is Match);
            assert(init.limit_reached);
            assert(run_events(init, Seq::<ScanEvent>::empty()) == (init, false));
            assert(run_events(init, ev.take(1).drop_last()) == (init, false));
            assert(run_events(init, ev.take(1)).1);
            lemma_run_stays_stopped(init, ev, 1);
        }
    } else {
        lemma_offset_limit_prefix(ev, offset, max_count, cols, ev.len());
    }
}

/// The context line a context event becomes.
pub open spec fn context_of_event(e: ScanEvent, cols: Option<usize>) -> ContextView {
    match e {
        ScanEvent::Context { line_number, bytes, .. } => (
            clamp_line(
                match line_number {
                    Some(n) => n,
                    None => 0,
                },
            ),
            line_text(bytes@, cols).0,
        ),
        ScanEvent::Match { .. } => (0, Seq::empty()),
    }
}

/// Every event of `ev` is a context line of `kind`.
pub open spec fn all_context(ev: Seq<ScanEvent>, kind: ContextKind) -> bool {
    forall|i: int| 0 <= i < ev.len() ==> match #[trigger] ev[i] {
        ScanEvent::Context { kind: k, .. } => k == kind,
        ScanEvent::Match { .. } => false,
    }
}

proof fn lemma_before_lines(s: CollectorView, bs: Seq<ScanEvent>, j: int)
    requires
        s.collect_matches,
        all_context(bs, ContextKind::Before),
        0 <= j <= bs.len(),
    ensures
        run_events(s, bs.take(j)) == (CollectorView {
            before: s.before + bs.take(j).map_values(|e: ScanEvent| context_of_event(e, s.max_columns)),
            ..s
        }, false),
    decreases j,
{
    if j == 0 {
        assert(bs.take(0) =~= Seq::<ScanEvent>::empty());
        assert(s.before + Seq::<ContextView>::empty() =~= s.before);
        assert(bs.take(0).map_values(|e: ScanEvent| context_of_event(e, s.max_columns)) =~= Seq::<ContextView>::empty());
    } else {
        lemma_before_lines(s, bs, j - 1);
        assert(bs.take(j).drop_last() =~= bs.take(j - 1));
        assert(bs.take(j).last() == bs[j - 1]);
        let e = bs[j - 1];
        assert(e is Context);
        assert(bs.take(j).map_values(|e: ScanEvent| context_of_event(e, s.max_columns)) =~= bs.take(j - 1).map_values(|e: ScanEvent| context_of_event(e, s.max_columns)).push(context_of_event(e, s.max_columns)));
        assert(s.before + bs.take(j).map_values(|e: ScanEvent| context_of_event(e, s.max_columns)) =~= (s.before + bs.take(j - 1).map_values(|e: ScanEvent| context_of_event(e, s.max_columns))).push(context_of_event(e, s.max_columns)));
    }
}

proof fn lemma_after_lines(s: CollectorView, pre: Seq<ScanEvent>, afters: Seq<ScanEvent>, j: int)
    requires
        run_events(s, pre).1 == false,
        run_events(s, pre).0.collect_matches,
        run_events(s, pre).0.matches.len() > 0,
        all_context(afters, ContextKind::After),
        0 <= j <= afters.len(),
    ensures
        ({
            let p = run_events(s, pre).0;
            let q = run_events(s, pre + afters.take(j));
            let last = p.matches.last();
            &&& q.1 == false
            &&& q.0.matches == p.matches.update(
                p.matches.len() - 1,
                MatchView {
                    after: last.after + afters.take(j).map_values(|e: ScanEvent| context_of_event(e, p.max_columns)),
                    ..last
                },
            )
            &&& q.0.collect_matches && q.0.max_columns == p.max_columns
        }),
    decreases j,
{
    let p = run_events(s, pre).0;
    let last = p.matches.last();
    if j == 0 {
        assert(pre + afters.take(0) =~= pre);
        assert(last.after + afters.take(0).map_values(|e: ScanEvent| context_of_event(e, p.max_columns)) =~= last.after);
        assert(p.matches.update(p.matches.len() - 1, MatchView { after: last.after, ..last }) =~= p.matches);
    } else {
        lemma_after_lines(s, pre, afters, j - 1);
        let ev = pre + afters.take(j);
        assert(ev.drop_last() =~= pre + afters.take(j - 1));
        assert(ev.last() == afters[j - 1]);
        let e = afters[j - 1];
        assert(e is Context);
        let q0 = run_events(s, pre + afters.take(j - 1)).0;
        assert(q0.matches.last() == MatchView {
            after: last.after + afters.take(j - 1).map_values(|e: ScanEvent| context_of_event(e, p.max_columns)),
            ..last
        });
        assert(afters.take(j).map_values(|e: ScanEvent| context_of_event(e, p.max_columns)) =~= afters.take(j - 1).map_values(|e: ScanEvent| context_of_event(e, p.max_columns)).push(context_of_event(e, p.max_columns)));
        assert(last.after + afters.take(j).map_values(|e: ScanEvent| context_of_event(e, p.max_columns)) =~= (last.after + afters.take(j - 1).map_values(|e: ScanEvent| context_of_event(e, p.max_columns))).push(context_of_event(e, p.max_columns)));
        assert(run_events(s, ev).0.matches =~= p.matches.update(
            p.matches.len() - 1,
            MatchView {
                after: last.after + afters.take(j).map_values(|e: ScanEvent| context_of_event(e, p.max_columns)),
                ..last
            },
        ));
    }
}

/// Context symmetry: once past the offset and below the limit, with no
/// before-context pending, the lines `befores`, a match, and the lines
/// `afters` give a record that carries exactly `befores` before it and
/// exactly `afters` after it, each in order.
pub proof fn lemma_context_symmetry(s: CollectorView, befores: Seq<ScanEvent>, m: ScanEvent, afters: Seq<ScanEvent>)
    requires
        s.collect_matches,
        !s.limit_reached,
        s.skipped >= s.offset,
        s.before.len() == 0,
        all_context(befores, ContextKind::Before),
        m is Match,
        all_context(afters, ContextKind::After),
    ensures
        ({
            let r = run_events(s, befores.push(m) + afters).0;
            let rec = r.matches.last();
            &&& r.matches.len() == s.matches.len() + 1
            &&& rec.line_number == event_line(m)
            &&& rec.before == befores.map_values(|e: ScanEvent| context_of_event(e, s.max_columns))
            &&& rec.after == afters.map_values(|e: ScanEvent| context_of_event(e, s.max_columns))
        }),
{
    lemma_before_lines(s, befores, befores.len() as int);
    assert(befores.take(befores.len() as int) =~= befores);
    assert(s.before + befores.map_values(|e: ScanEvent| context_of_event(e, s.max_columns)) =~= befores.map_values(|e: ScanEvent| context_of_event(e, s.max_columns)));
    let pre = befores.push(m);
    assert(pre.drop_last() =~= befores);
    let p = run_events(s, pre).0;
    assert(p.matches.len() == s.matches.len() + 1);
    lemma_after_lines(s, pre, afters, afters.len() as int);
    assert(afters.take(afters.len() as int) =~= afters);
    let rec0 = p.matches.last();
    assert(rec0.after =~= Seq::<ContextView>::empty());
    assert(rec0.after + afters.map_values(|e: ScanEvent| context_of_event(e, s.max_columns)) =~= afters.map_values(|e: ScanEvent| context_of_event(e, s.max_columns)));
}

} // verus!
