//! Pruning old upload refs: which refs are stale, what is deleted, and what is reported.
use vstd::prelude::*;
use vstd::string::*;

use crate::git_data_api::RefInfo;
use crate::text::{
    decimal, owned, push_decimal, push_signed_decimal, signed_decimal, strip_prefix_or_self,
    strip_prefix_str,
};

verus! {

/// Whether stale refs are only listed or deleted.
#[derive(Debug, Clone, Copy, PartialEq, Eq, Structural)]
pub enum PruneMode {
    DryRun,
    Confirm,
}

/// What a prune found and did.
pub struct PruneReport {
    pub stale_lines: Vec<String>,
    pub deleted_count: usize,
    pub summary: String,
}

/// A `PruneReport` as values.
pub struct PruneReportView {
    pub stale_lines: Seq<Seq<char>>,
    pub deleted_count: nat,
    pub summary: Seq<char>,
}

impl View for PruneReport {
    type V = PruneReportView;

    open spec fn view(&self) -> PruneReportView {
        PruneReportView {
            stale_lines: self.stale_lines.deep_view(),
            deleted_count: self.deleted_count as nat,
            summary: self.summary@,
        }
    }
}

/// An instant: seconds since the Unix epoch and the nanoseconds past that second.
#[derive(Debug, Clone, Copy, PartialEq, Eq, Structural)]
pub struct Timestamp {
    pub secs: i64,
    pub nanos: u32,
}

pub open spec fn nanos_since_epoch(t: Timestamp) -> int {
    t.secs * 1_000_000_000 + t.nanos
}

/// Division rounding toward zero, for `b > 0`.
pub open spec fn div_toward_zero(a: int, b: int) -> int {
    if a >= 0 {
        a / b
    } else {
        -((-a) / b)
    }
}

/// The number of whole days from `then` to `now`, rounded toward zero (negative when
/// `then` is later).
pub open spec fn whole_days(now: Timestamp, then: Timestamp) -> int {
    div_toward_zero(nanos_since_epoch(now) - nanos_since_epoch(then), 86_400_000_000_000)
}

/// The age threshold in days: `older_than_days` read as an `i64` (two's complement).
pub open spec fn threshold_of(older_than_days: u64) -> int {
    if older_than_days <= i64::MAX {
        older_than_days as int
    } else {
        older_than_days - 0x1_0000_0000_0000_0000
    }
}

/// The whole days elapsed from `then` to `now`.
pub fn days_between(now: Timestamp, then: Timestamp) -> (d: i64)
    requires
        now.nanos < 1_000_000_000,
        then.nanos < 1_000_000_000,
    ensures
        d == whole_days(now, then),
{
    let a: i128 = now.secs as i128 * 1_000_000_000i128 + now.nanos as i128;
    let b: i128 = then.secs as i128 * 1_000_000_000i128 + then.nanos as i128;
    let diff: i128 = a - b;
    let day: i128 = 86_400_000_000_000i128;
    if diff >= 0 {
        let q: i128 = diff / day;
        assert(q <= 300_000_000_000_000) by (nonlinear_arith)
            requires
                q == diff / day,
                0 <= diff <= 20_000_000_000_000_000_000_000_000_000,
                day == 86_400_000_000_000,
        ;
        q as i64
    } else {
        let q: i128 = (-diff) / day;
        assert(q <= 300_000_000_000_000) by (nonlinear_arith)
            requires
                q == (-diff) / (day as int),
                0 <= -diff <= 20_000_000_000_000_000_000_000_000_000,
                day == 86_400_000_000_000,
        ;
        -(q as i64)
    }
}

/// `older_than_days as i64`.
pub fn threshold(older_than_days: u64) -> (t: i64)
    ensures
        t == threshold_of(older_than_days),
{
    if older_than_days <= 9223372036854775807u64 {
        older_than_days as i64
    } else {
        let high: i64 = (older_than_days - 9223372036854775808u64) as i64;
        high - 9223372036854775807i64 - 1
    }
}

/// The line that lists a stale ref.
pub open spec fn stale_line(ref_name: Seq<char>, age: int) -> Seq<char> {
    "Upload ref "@ + ref_name + " is "@ + signed_decimal(age) + " days old and would be deleted."@
}

pub open spec fn stale_lines(stale: Seq<(Seq<char>, int)>) -> Seq<Seq<char>> {
    stale.map_values(|s: (Seq<char>, int)| stale_line(s.0, s.1))
}

pub open spec fn nothing_stale_summary() -> Seq<char> {
    "No stale upload refs found."@
}

pub open spec fn deleted_summary(n: nat) -> Seq<char> {
    "Deleted "@ + decimal(n) + " stale upload ref(s)."@
}

/// The report when no ref is stale.
pub open spec fn nothing_stale_report() -> PruneReportView {
    PruneReportView { stale_lines: Seq::empty(), deleted_count: 0, summary: nothing_stale_summary() }
}

/// The ref name to delete: the listed name without its `refs/` prefix.
pub open spec fn deletion_name(ref_name: Seq<char>) -> Seq<char> {
    strip_prefix_or_self(ref_name, "refs/"@)
}

/// How far a prune has come.
#[derive(Debug, Clone, Copy, PartialEq, Eq, Structural)]
pub enum PrunePhase {
    Listing,
    Dating,
    Deleting,
    Done,
}

/// What happened when the last action was carried out.
pub enum PruneEvent {
    /// The refs under `refs/uploads/`.
    RefsListed(Vec<RefInfo>),
    /// The committer date of the commit asked for, and the time it was read at.
    CommitDated { date: Timestamp, now: Timestamp },
    RefDeleted,
}

/// The next thing to do for a prune.
pub enum PruneAction {
    ListRefs { prefix_no_prefix: String },
    GetCommitDate { commit_sha: String },
    DeleteRef { ref_no_prefix: String },
    Finished { report: PruneReport },
    /// The event does not belong to the current phase; nothing changed.
    Ignored,
}

/// A `PruneAction` as values.
pub enum PruneActionView {
    ListRefs { prefix_no_prefix: Seq<char> },
    GetCommitDate { commit_sha: Seq<char> },
    DeleteRef { ref_no_prefix: Seq<char> },
    Finished { report: PruneReportView },
    Ignored,
}

impl View for PruneAction {
    type V = PruneActionView;

    open spec fn view(&self) -> PruneActionView {
        match self {
            PruneAction::ListRefs { prefix_no_prefix } => PruneActionView::ListRefs {
                prefix_no_prefix: prefix_no_prefix@,
            },
            PruneAction::GetCommitDate { commit_sha } => PruneActionView::GetCommitDate {
                commit_sha: commit_sha@,
            },
            PruneAction::DeleteRef { ref_no_prefix } => PruneActionView::DeleteRef {
                ref_no_prefix: ref_no_prefix@,
            },
            PruneAction::Finished { report } => PruneActionView::Finished { report: report@ },
            PruneAction::Ignored => PruneActionView::Ignored,
        }
    }
}

/// A prune in progress, as values.
pub struct PruneState {
    pub mode: PruneMode,
    pub threshold: int,
    pub phase: PrunePhase,
    /// The listed refs: name and commit SHA.
    pub refs: Seq<(Seq<char>, Seq<char>)>,
    /// How many listed refs have been dated.
    pub next: int,
    /// The stale refs found so far, with their ages in days, in listing order.
    pub stale: Seq<(Seq<char>, int)>,
    /// How many stale refs have been deleted.
    pub deleted: int,
}

pub open spec fn ref_views(refs: Seq<RefInfo>) -> Seq<(Seq<char>, Seq<char>)> {
    refs.map_values(|r: RefInfo| (r.ref_name@, r.object_sha@))
}

/// The state of a new prune.
pub open spec fn fresh_prune(older_than_days: u64, mode: PruneMode) -> PruneState {
    PruneState {
        mode,
        threshold: threshold_of(older_than_days),
        phase: PrunePhase::Listing,
        refs: Seq::empty(),
        next: 0,
        stale: Seq::empty(),
        deleted: 0,
    }
}

/// The states a prune passes through.
pub open spec fn prune_wf(s: PruneState) -> bool {
    &&& i64::MIN <= s.threshold <= i64::MAX
    &&& 0 <= s.next <= s.refs.len()
    &&& 0 <= s.deleted <= s.stale.len()
    &&& s.stale.len() <= s.next
    &&& s.phase == PrunePhase::Listing ==> s.refs.len() == 0 && s.next == 0 && s.stale.len() == 0
        && s.deleted == 0
    &&& s.phase == PrunePhase::Dating ==> s.next < s.refs.len() && s.deleted == 0
    &&& s.phase == PrunePhase::Deleting ==> s.deleted < s.stale.len() && s.mode
        == PruneMode::Confirm && s.next == s.refs.len()
}

/// What follows the dating of the last listed ref.
pub open spec fn after_dating(s: PruneState) -> (PruneState, PruneActionView) {
    if s.stale.len() == 0 {
        (
            PruneState { phase: PrunePhase::Done, ..s },
            PruneActionView::Finished { report: nothing_stale_report() },
        )
    } else if s.mode == PruneMode::DryRun {
        (
            PruneState { phase: PrunePhase::Done, ..s },
            PruneActionView::Finished {
                report: PruneReportView {
                    stale_lines: stale_lines(s.stale),
                    deleted_count: 0,
                    summary: Seq::empty(),
                },
            },
        )
    } else {
        (
            PruneState { phase: PrunePhase::Deleting, deleted: 0, ..s },
            PruneActionView::DeleteRef { ref_no_prefix: deletion_name(s.stale[0].0) },
        )
    }
}

/// One step of a prune: the state after event `e`, and the next action.
pub open spec fn prune_next(pre: PruneState, e: PruneEvent) -> (PruneState, PruneActionView) {
    match (pre.phase, e) {
        (PrunePhase::Listing, PruneEvent::RefsListed(refs)) => {
            let rv = ref_views(refs@);
            if rv.len() == 0 {
                (
                    PruneState { phase: PrunePhase::Done, refs: rv, ..pre },
                    PruneActionView::Finished { report: nothing_stale_report() },
                )
            } else {
                (
                    PruneState { phase: PrunePhase::Dating, refs: rv, next: 0, ..pre },
                    PruneActionView::GetCommitDate { commit_sha: rv[0].1 },
                )
            }
        },
        (PrunePhase::Dating, PruneEvent::CommitDated { date, now }) => {
            let age = whole_days(now, date);
            let stale = if age >= pre.threshold {
                pre.stale.push((pre.refs[pre.next].0, age))
            } else {
                pre.stale
            };
            let next = pre.next + 1;
            if next < pre.refs.len() {
                (
                    PruneState { next, stale, ..pre },
                    PruneActionView::GetCommitDate { commit_sha: pre.refs[next].1 },
                )
            } else {
                after_dating(PruneState { next, stale, ..pre })
            }
        },
        (PrunePhase::Deleting, PruneEvent::RefDeleted) => {
            let deleted = pre.deleted + 1;
            if deleted < pre.stale.len() {
                (
                    PruneState { deleted, ..pre },
                    PruneActionView::DeleteRef { ref_no_prefix: deletion_name(pre.stale[deleted].0) },
                )
            } else {
                (
                    PruneState { phase: PrunePhase::Done, deleted, ..pre },
                    PruneActionView::Finished {
                        report: PruneReportView {
                            stale_lines: Seq::empty(),
                            deleted_count: deleted as nat,
                            summary: deleted_summary(deleted as nat),
                        },
                    },
                )
            }
        },
        _ => (pre, PruneActionView::Ignored),
    }
}

/// Dates only arrive as proper instants (nanoseconds below one second).
pub open spec fn event_ok(e: PruneEvent) -> bool {
    e matches PruneEvent::CommitDated { date, now } ==> date.nanos < 1_000_000_000 && now.nanos
        < 1_000_000_000
}

/// A prune in progress over the refs under `refs/uploads/`.
pub struct PrunePlan {
    mode: PruneMode,
    threshold: i64,
    phase: PrunePhase,
    refs: Vec<RefInfo>,
    next: usize,
    stale_names: Vec<String>,
    stale_ages: Vec<i64>,
    deleted: usize,
}

impl View for PrunePlan {
    type V = PruneState;

    closed spec fn view(&self) -> PruneState {
        PruneState {
            mode: self.mode,
            threshold: self.threshold as int,
            phase: self.phase,
            refs: ref_views(self.refs@),
            next: self.next as int,
            stale: Seq::new(
                self.stale_names@.len(),
                |i: int| (self.stale_names@[i]@, self.stale_ages@[i] as int),
            ),
            deleted: self.deleted as int,
        }
    }
}

fn nothing_stale() -> (r: PruneReport)
    ensures
        r@ == nothing_stale_report(),
{
    let r = PruneReport {
        stale_lines: Vec::new(),
        deleted_count: 0,
        summary: owned("No stale upload refs found."),
    };
    assert(r@.stale_lines =~= Seq::<Seq<char>>::empty());
    r
}

fn stale_line_string(name: &str, age: i64) -> (s: String)
    ensures
        s@ == stale_line(name@, age as int),
{
    let mut s = owned("Upload ref ");
    s.append(name);
    s.append(" is ");
    push_signed_decimal(&mut s, age);
    s.append(" days old and would be deleted.");
    s
}

impl PrunePlan {
    pub closed spec fn wf(&self) -> bool {
        &&& prune_wf(self@)
        &&& self.stale_names@.len() == self.stale_ages@.len()
    }

    /// A new prune that treats refs at least `older_than_days` days old as stale, and its
    /// first action: listing the refs under `refs/uploads/`.
    pub fn new(older_than_days: u64, mode: PruneMode) -> (r: (PrunePlan, PruneAction))
        ensures
            r.0.wf(),
            r.0@ == fresh_prune(older_than_days, mode),
            r.1@ == (PruneActionView::ListRefs { prefix_no_prefix: "uploads/"@ }),
    {
        let plan = PrunePlan {
            mode,
            threshold: threshold(older_than_days),
            phase: PrunePhase::Listing,
            refs: Vec::new(),
            next: 0,
            stale_names: Vec::new(),
            stale_ages: Vec::new(),
            deleted: 0,
        };
        assert(plan@.refs =~= Seq::<(Seq<char>, Seq<char>)>::empty());
        assert(plan@.stale =~= Seq::<(Seq<char>, int)>::empty());
        (plan, PruneAction::ListRefs { prefix_no_prefix: owned("uploads/") })
    }

    /// The report once every ref has been dated.
    fn finish_dating(&mut self) -> (a: PruneAction)
        requires
            old(self).stale_names@.len() == old(self).stale_ages@.len(),
            i64::MIN <= old(self)@.threshold <= i64::MAX,
            old(self)@.phase == PrunePhase::Dating,
            old(self)@.next == old(self)@.refs.len(),
            old(self)@.stale.len() <= old(self)@.next,
            old(self)@.deleted == 0,
        ensures
            final(self).wf(),
            (final(self)@, a@) == after_dating(old(self)@),
    {
        if self.stale_names.len() == 0 {
            self.phase = PrunePhase::Done;
            PruneAction::Finished { report: nothing_stale() }
        } else if self.mode == PruneMode::DryRun {
            self.phase = PrunePhase::Done;
            let mut lines: Vec<String> = Vec::new();
            let mut i: usize = 0;
            while i < self.stale_names.len()
                invariant
                    self.stale_names@.len() == self.stale_ages@.len(),
                    i <= self.stale_names@.len(),
                    lines@.len() == i,
                    forall|k: int| 0 <= k < i ==> (#[trigger] lines@[k])@ == stale_line(
                        self.stale_names@[k]@,
                        self.stale_ages@[k] as int,
                    ),
                decreases self.stale_names.len() - i,
            {
                lines.push(stale_line_string(self.stale_names[i].as_str(), self.stale_ages[i]));
                i = i + 1;
            }
            let report = PruneReport { stale_lines: lines, deleted_count: 0, summary: String::new() };
            assert(report@.stale_lines =~= stale_lines(self@.stale));
            PruneAction::Finished { report }
        } else {
            self.phase = PrunePhase::Deleting;
            self.deleted = 0;
            PruneAction::DeleteRef {
                ref_no_prefix: strip_prefix_str(self.stale_names[0].as_str(), "refs/"),
            }
        }
    }

    /// Advances the prune by the outcome of the last action and returns the next action.
    pub fn step(&mut self, event: PruneEvent) -> (a: PruneAction)
        requires
            old(self).wf(),
            event_ok(event),
        ensures
            final(self).wf(),
            (final(self)@, a@) == prune_next(old(self)@, event),
    {
        let ghost e = event;
        match (self.phase, event) {
            (PrunePhase::Listing, PruneEvent::RefsListed(refs)) => {
                if refs.len() == 0 {
                    self.phase = PrunePhase::Done;
                    self.refs = refs;
                    return PruneAction::Finished { report: nothing_stale() };
                }
                let sha = refs[0].object_sha.clone();
                self.phase = PrunePhase::Dating;
                self.refs = refs;
                self.next = 0;
                PruneAction::GetCommitDate { commit_sha: sha }
            },
            (PrunePhase::Dating, PruneEvent::CommitDated { date, now }) => {
                let ghost pre = self@;
                let age = days_between(now, date);
                assert(self.next < self.refs.len());
                if age >= self.threshold {
                    let name = self.refs[self.next].ref_name.clone();
                    assert(name@ == pre.refs[pre.next].0);
                    self.stale_names.push(name);
                    self.stale_ages.push(age);
                    assert(self@.stale =~= pre.stale.push((pre.refs[pre.next].0, age as int)));
                } else {
                    assert(self@.stale =~= pre.stale);
                }
                self.next = self.next + 1;
                if self.next < self.refs.len() {
                    assert(self.refs@[self.next as int].object_sha@ == self@.refs[self.next as int].1);
                    PruneAction::GetCommitDate { commit_sha: self.refs[self.next].object_sha.clone() }
                } else {
                    self.finish_dating()
                }
            },
            (PrunePhase::Deleting, PruneEvent::RefDeleted) => {
                self.deleted = self.deleted + 1;
                if self.deleted < self.stale_names.len() {
                    PruneAction::DeleteRef {
                        ref_no_prefix: strip_prefix_str(self.stale_names[self.deleted].as_str(), "refs/"),
                    }
                } else {
                    self.phase = PrunePhase::Done;
                    let mut summary = owned("Deleted ");
                    push_decimal(&mut summary, self.deleted as u64);
                    summary.append(" stale upload ref(s).");
                    let report = PruneReport {
                        stale_lines: Vec::new(),
                        deleted_count: self.deleted,
                        summary,
                    };
                    assert(report@.stale_lines =~= Seq::<Seq<char>>::empty());
                    PruneAction::Finished { report }
                }
            },
            _ => PruneAction::Ignored,
        }
    }
}

/// The lines a prune prints: each stale-ref line, then the summary unless it is empty.
pub open spec fn printed_lines(r: PruneReportView) -> Seq<Seq<char>> {
    if r.summary.len() == 0 {
        r.stale_lines
    } else {
        r.stale_lines.push(r.summary)
    }
}

impl PruneReport {
    /// The lines to print for this report.
    pub fn output_lines(&self) -> (lines: Vec<String>)
        ensures
            lines.deep_view() == printed_lines(self@),
    {
        let mut lines: Vec<String> = Vec::new();
        let mut i: usize = 0;
        while i < self.stale_lines.len()
            invariant
                i <= self.stale_lines@.len(),
                lines@.len() == i,
                forall|k: int| 0 <= k < i ==> (#[trigger] lines@[k])@ == self.stale_lines@[k]@,
            decreases self.stale_lines.len() - i,
        {
            lines.push(self.stale_lines[i].clone());
            i = i + 1;
        }
        if self.summary.as_str().unicode_len() > 0 {
            lines.push(self.summary.clone());
        }
        assert(lines.deep_view() =~= printed_lines(self@));
        lines
    }
}

/// The state after a prune has taken `events` in order.
pub open spec fn run_state(s: PruneState, events: Seq<PruneEvent>) -> PruneState
    decreases events.len(),
{
    if events.len() == 0 {
        s
    } else {
        run_state(prune_next(s, events[0]).0, events.drop_first())
    }
}

/// The action a prune asks for after taking `events` in order.
pub open spec fn run_action(s: PruneState, events: Seq<PruneEvent>) -> PruneActionView {
    if events.len() == 0 {
        PruneActionView::Ignored
    } else {
        prune_next(run_state(s, events.drop_last()), events.last()).1
    }
}

/// The ages in days that the dates give: `(commit date, time read)` pairs.
pub open spec fn ages_of(dates: Seq<(Timestamp, Timestamp)>) -> Seq<int> {
    dates.map_values(|d: (Timestamp, Timestamp)| whole_days(d.1, d.0))
}

/// The stale refs among the first `k`: those at least `threshold` days old, in listing
/// order, with their ages.
pub open spec fn stale_prefix(refs: Seq<(Seq<char>, Seq<char>)>, ages: Seq<int>, threshold: int, k: int) -> Seq<(Seq<char>, int)>
    decreases k,
{
    if k <= 0 {
        Seq::empty()
    } else {
        let before = stale_prefix(refs, ages, threshold, k - 1);
        if ages[k - 1] >= threshold {
            before.push((refs[k - 1].0, ages[k - 1]))
        } else {
            before
        }
    }
}

/// The report of a finished prune that found `stale`.
pub open spec fn expected_report(mode: PruneMode, stale: Seq<(Seq<char>, int)>) -> PruneReportView {
    if stale.len() == 0 {
        nothing_stale_report()
    } else if mode == PruneMode::DryRun {
        PruneReportView { stale_lines: stale_lines(stale), deleted_count: 0, summary: Seq::empty() }
    } else {
        PruneReportView {
            stale_lines: Seq::empty(),
            deleted_count: stale.len(),
            summary: deleted_summary(stale.len()),
        }
    }
}

/// The events of a complete prune: the listing, one date per ref, then one deletion per
/// deleted ref.
pub open spec fn prune_events(refs: Vec<RefInfo>, dates: Seq<(Timestamp, Timestamp)>, deletions: nat) -> Seq<PruneEvent> {
    seq![PruneEvent::RefsListed(refs)] + dates.map_values(
        |d: (Timestamp, Timestamp)| PruneEvent::CommitDated { date: d.0, now: d.1 },
    ) + Seq::new(deletions, |i: int| PruneEvent::RefDeleted)
}

proof fn lemma_run_state_step(s: PruneState, events: Seq<PruneEvent>, i: int)
    requires
        0 <= i < events.len(),
    ensures
        run_state(s, events.take(i + 1)) == prune_next(run_state(s, events.take(i)), events[i]).0,
    decreases i,
{
    if i > 0 {
        let t = prune_next(s, events[0]).0;
        assert(events.take(i + 1).drop_first() =~= events.drop_first().take(i));
        assert(events.take(i).drop_first() =~= events.drop_first().take(i - 1));
        assert(events.take(i + 1)[0] == events[0]);
        assert(events.take(i)[0] == events[0]);
        assert(events.drop_first()[i - 1] == events[i]);
        lemma_run_state_step(t, events.drop_first(), i - 1);
        assert(run_state(s, events.take(i + 1)) == run_state(t, events.drop_first().take(i)));
        assert(run_state(s, events.take(i)) == run_state(t, events.drop_first().take(i - 1)));
    } else {
        assert(events.take(1).drop_first() =~= Seq::<PruneEvent>::empty());
        assert(events.take(1)[0] == events[0]);
        assert(events.take(0).len() == 0);
        assert(run_state(s, events.take(0)) == s);
        assert(run_state(s, events.take(1)) == run_state(prune_next(s, events[0]).0, Seq::<PruneEvent>::empty()));
    }
}

/// A prune reports exactly the refs whose commits are at least the threshold old: a dry
/// run lists them (in listing order, with their ages) and deletes nothing; a confirmed run
/// deletes each of them, in order, and reports how many. With nothing stale it says so.
pub proof fn law_prune_report(
    older_than_days: u64,
    mode: PruneMode,
    refs: Vec<RefInfo>,
    dates: Seq<(Timestamp, Timestamp)>,
)
    requires
        dates.len() == refs@.len(),
    ensures
        ({
            let rv = ref_views(refs@);
            let stale = stale_prefix(rv, ages_of(dates), threshold_of(older_than_days), rv.len() as int);
            let deletions: nat = if mode == PruneMode::Confirm { stale.len() } else { 0 };
            run_action(fresh_prune(older_than_days, mode), prune_events(refs, dates, deletions))
                == PruneActionView::Finished { report: expected_report(mode, stale) }
        }),
{
    let rv = ref_views(refs@);
    let n = rv.len() as int;
    let thr = threshold_of(older_than_days);
    let ages = ages_of(dates);
    let stale = stale_prefix(rv, ages, thr, n);
    let deletions: nat = if mode == PruneMode::Confirm { stale.len() } else { 0 };
    let s0 = fresh_prune(older_than_days, mode);
    let es = prune_events(refs, dates, deletions);
    let total = 1 + n + deletions;
    assert(es.len() == total);
    assert(es[0] == PruneEvent::RefsListed(refs));
    assert(es.take(0) =~= Seq::<PruneEvent>::empty());
    lemma_run_state_step(s0, es, 0);
    if n == 0 {
        assert(stale =~= Seq::<(Seq<char>, int)>::empty());
        assert(es.drop_last() =~= es.take(0));
        return;
    }
    lemma_dating(older_than_days, mode, refs, dates, deletions, n - 1);
    lemma_run_state_step(s0, es, n);
    assert(ages[n - 1] == whole_days(dates[n - 1].1, dates[n - 1].0));
    if deletions == 0 {
        assert(es.drop_last() =~= es.take(n));
        return;
    }
    lemma_deleting(older_than_days, mode, refs, dates, deletions - 1);
    assert(es.drop_last() =~= es.take(total - 1));
}

/// After the listing and `k` dates (short of the last), the prune waits for the next date.
proof fn lemma_dating(
    older_than_days: u64,
    mode: PruneMode,
    refs: Vec<RefInfo>,
    dates: Seq<(Timestamp, Timestamp)>,
    deletions: nat,
    k: int,
)
    requires
        dates.len() == refs@.len(),
        0 <= k < refs@.len(),
    ensures
        run_state(fresh_prune(older_than_days, mode), prune_events(refs, dates, deletions).take(1 + k))
            == (PruneState {
            phase: PrunePhase::Dating,
            refs: ref_views(refs@),
            next: k,
            stale: stale_prefix(ref_views(refs@), ages_of(dates), threshold_of(older_than_days), k),
            ..fresh_prune(older_than_days, mode)
        }),
    decreases k,
{
    let s0 = fresh_prune(older_than_days, mode);
    let es = prune_events(refs, dates, deletions);
    assert(es[0] == PruneEvent::RefsListed(refs));
    assert(es.take(0) =~= Seq::<PruneEvent>::empty());
    if k == 0 {
        lemma_run_state_step(s0, es, 0);
    } else {
        lemma_dating(older_than_days, mode, refs, dates, deletions, k - 1);
        lemma_run_state_step(s0, es, k);
        assert(es[k] == (PruneEvent::CommitDated { date: dates[k - 1].0, now: dates[k - 1].1 }));
        assert(ages_of(dates)[k - 1] == whole_days(dates[k - 1].1, dates[k - 1].0));
    }
}

/// In a confirmed prune, after every date and `j` deletions (short of the last), the
/// prune deletes the next stale ref.
proof fn lemma_deleting(
    older_than_days: u64,
    mode: PruneMode,
    refs: Vec<RefInfo>,
    dates: Seq<(Timestamp, Timestamp)>,
    j: int,
)
    requires
        dates.len() == refs@.len(),
        refs@.len() > 0,
        mode == PruneMode::Confirm,
        0 <= j < stale_prefix(ref_views(refs@), ages_of(dates), threshold_of(older_than_days), refs@.len() as int).len(),
    ensures
        ({
            let stale = stale_prefix(ref_views(refs@), ages_of(dates), threshold_of(older_than_days), refs@.len() as int);
            run_state(fresh_prune(older_than_days, mode), prune_events(refs, dates, stale.len()).take(1 + refs@.len() + j))
                == (PruneState {
                phase: PrunePhase::Deleting,
                refs: ref_views(refs@),
                next: refs@.len() as int,
                stale,
                deleted: j,
                ..fresh_prune(older_than_days, mode)
            })
        }),
    decreases j,
{
    let n = refs@.len() as int;
    let stale = stale_prefix(ref_views(refs@), ages_of(dates), threshold_of(older_than_days), n);
    let s0 = fresh_prune(older_than_days, mode);
    let es = prune_events(refs, dates, stale.len());
    if j == 0 {
        lemma_dating(older_than_days, mode, refs, dates, stale.len(), n - 1);
        lemma_run_state_step(s0, es, n);
        assert(es[n] == (PruneEvent::CommitDated { date: dates[n - 1].0, now: dates[n - 1].1 }));
        assert(ages_of(dates)[n - 1] == whole_days(dates[n - 1].1, dates[n - 1].0));
    } else {
        lemma_deleting(older_than_days, mode, refs, dates, j - 1);
        lemma_run_state_step(s0, es, n + j);
        assert(es[n + j] == PruneEvent::RefDeleted);
    }
}

/// A dry run never deletes: from any state of a dry run, no event leads to a deletion,
/// and the run stays a dry run.
pub proof fn law_dry_run_never_deletes(pre: PruneState, e: PruneEvent)
    requires
        prune_wf(pre),
        pre.mode == PruneMode::DryRun,
    ensures
        !(prune_next(pre, e).1 is DeleteRef),
        prune_next(pre, e).0.mode == PruneMode::DryRun,
        prune_next(pre, e).0.phase != PrunePhase::Deleting,
{
}

/// Every deletion names a ref found stale, without its `refs/` prefix, in the order they
/// were found.
pub proof fn law_deletes_only_stale(pre: PruneState, e: PruneEvent)
    requires
        prune_wf(pre),
    ensures
        prune_next(pre, e).1 matches PruneActionView::DeleteRef { ref_no_prefix } ==> ({
            let post = prune_next(pre, e).0;
            &&& post.mode == PruneMode::Confirm
            &&& 0 <= post.deleted < post.stale.len()
            &&& ref_no_prefix == deletion_name(post.stale[post.deleted].0)
        }),
{
}

/// Every listed ref is dated before the first deletion, and the deletions follow the
/// stale refs one by one in the order they were found: the first deletion is of the first
/// stale ref, each later one of the next.
pub proof fn law_deletions_follow_dating_in_order(pre: PruneState, e: PruneEvent)
    requires
        prune_wf(pre),
    ensures
        prune_next(pre, e).1 is DeleteRef ==> ({
            let post = prune_next(pre, e).0;
            &&& post.phase == PrunePhase::Deleting
            &&& post.next == post.refs.len()
            &&& post.refs == pre.refs
            &&& pre.phase == PrunePhase::Dating ==> pre.next + 1 == pre.refs.len() && post.deleted
                == 0
            &&& pre.phase == PrunePhase::Deleting ==> post.stale == pre.stale && post.deleted
                == pre.deleted + 1
            &&& pre.phase == PrunePhase::Dating || pre.phase == PrunePhase::Deleting
        }),
{
}

/// A new prune is in a proper state, and every step keeps it in one.
pub proof fn law_prune_keeps_wf(older_than_days: u64, mode: PruneMode, pre: PruneState, e: PruneEvent)
    requires
        prune_wf(pre),
    ensures
        prune_wf(fresh_prune(older_than_days, mode)),
        prune_wf(prune_next(pre, e).0),
{
}

proof fn lemma_run_keeps_wf(s: PruneState, events: Seq<PruneEvent>)
    requires
        prune_wf(s),
    ensures
        prune_wf(run_state(s, events)),
    decreases events.len(),
{
    if events.len() > 0 {
        law_prune_keeps_wf(0, s.mode, s, events[0]);
        lemma_run_keeps_wf(prune_next(s, events[0]).0, events.drop_first());
    }
}

/// Over a whole run: whenever a prune asks for a deletion, every listed ref has been
/// dated, so a run that stops at a failed date read has deleted nothing.
pub proof fn law_no_deletion_before_all_dated(older_than_days: u64, mode: PruneMode, events: Seq<PruneEvent>)
    requires
        run_action(fresh_prune(older_than_days, mode), events) is DeleteRef,
    ensures
        ({
            let s = run_state(fresh_prune(older_than_days, mode), events);
            &&& s.phase == PrunePhase::Deleting
            &&& s.next == s.refs.len()
            &&& run_action(fresh_prune(older_than_days, mode), events) == (PruneActionView::DeleteRef {
                ref_no_prefix: deletion_name(s.stale[s.deleted].0),
            })
        }),
{
    let s0 = fresh_prune(older_than_days, mode);
    let n = events.len() as int;
    law_prune_keeps_wf(older_than_days, mode, s0, events[0]);
    lemma_run_keeps_wf(s0, events.drop_last());
    lemma_run_state_step(s0, events, n - 1);
    assert(events.take(n) =~= events);
    assert(events.take(n - 1) =~= events.drop_last());
    let pre = run_state(s0, events.drop_last());
    law_deletions_follow_dating_in_order(pre, events.last());
    law_deletes_only_stale(pre, events.last());
}

/// A dry run lists every stale ref, each with its own age, in the order found, and
/// deletes nothing; this is the report of a whole dry run too.
pub proof fn law_dry_run_lists_each_stale_ref(s: PruneState)
    requires
        s.mode == PruneMode::DryRun,
        s.stale.len() > 0,
    ensures
        after_dating(s).1 == (PruneActionView::Finished {
            report: expected_report(PruneMode::DryRun, s.stale),
        }),
        ({
            let r = expected_report(PruneMode::DryRun, s.stale);
            &&& r.stale_lines.len() == s.stale.len()
            &&& r.deleted_count == 0
            &&& r.summary.len() == 0
            &&& forall|i: int|
                0 <= i < s.stale.len() ==> #[trigger] r.stale_lines[i] == "Upload ref "@
                    + s.stale[i].0 + " is "@ + signed_decimal(s.stale[i].1)
                    + " days old and would be deleted."@
        }),
{
}

/// The age in days counts whole days of 86 400 seconds: `k` full days and less than one
/// more give `k`, forward in time and, negated, backward.
pub proof fn law_whole_days_counts_days(now: Timestamp, then: Timestamp, k: int, rest: int)
    requires
        k >= 0,
        0 <= rest < 86_400_000_000_000,
        nanos_since_epoch(now) - nanos_since_epoch(then) == k * 86_400_000_000_000 + rest,
    ensures
        whole_days(now, then) == k,
        whole_days(then, now) == -k,
{
    assert((k * 86_400_000_000_000 + rest) / 86_400_000_000_000 == k) by (nonlinear_arith)
        requires
            k >= 0,
            0 <= rest < 86_400_000_000_000,
    ;
}

/// A threshold that fits an `i64` is taken as is; a larger one wraps to a negative number,
/// which every age meets.
pub proof fn law_threshold_as_given(older_than_days: u64)
    ensures
        older_than_days <= i64::MAX ==> threshold_of(older_than_days) == older_than_days,
        older_than_days > i64::MAX ==> threshold_of(older_than_days) < 0 && threshold_of(
            older_than_days,
        ) == older_than_days - 18_446_744_073_709_551_616,
{
}

/// Elapsed whole days are antisymmetric: swapping the two instants negates them.
pub proof fn law_days_antisymmetric(a: Timestamp, b: Timestamp)
    ensures
        whole_days(a, b) == -whole_days(b, a),
{
}

/// With `--older-than-days 0`, every ref whose commit is not in the future is stale.
pub proof fn law_zero_days_takes_all(now: Timestamp, then: Timestamp)
    requires
        nanos_since_epoch(then) <= nanos_since_epoch(now),
    ensures
        threshold_of(0) == 0,
        whole_days(now, then) >= threshold_of(0),
{
    assert((nanos_since_epoch(now) - nanos_since_epoch(then)) / 86_400_000_000_000 >= 0) by (nonlinear_arith)
        requires nanos_since_epoch(now) - nanos_since_epoch(then) >= 0;
}

} // verus!
