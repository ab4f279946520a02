//! What is shown, kept and written down of the pool of runtimes.
use crate::clock;
use crate::runtime;
use crate::runtime::{
    AppSettings, PersistedRuntimeLedger, RuntimeEntry, RuntimeManager, RuntimePoolBudgetSnapshot,
    RuntimePoolDiagnostics, RuntimePoolRow, RuntimePoolSnapshot, RuntimePoolSummary, RuntimeState,
};
use crate::text;
use vstd::prelude::*;
use vstd::string::*;

verus! {

// ---------------------------------------------------------------------------
// Models
// ---------------------------------------------------------------------------

/// How long ago something was, and zero where it is yet to come.
pub open spec fn age(now: u64, then: u64) -> int {
    if now >= then {
        now - then
    } else {
        0
    }
}

/// How a runtime is doing, given how it does when nothing else is to be said.
pub open spec fn state_or(e: runtime::EntryView, idle: RuntimeState) -> RuntimeState {
    if e.zombie_suspected {
        RuntimeState::ZombieSuspected
    } else if e.error is Some {
        RuntimeState::Failed
    } else if e.busy {
        RuntimeState::Busy
    } else {
        idle
    }
}

/// Hot within the first seconds after the last use, and warm later.
pub open spec fn idle_state(e: runtime::EntryView, now: u64) -> RuntimeState {
    if age(now, e.last_used_at_ms) <= runtime::HOT_IDLE_SECONDS * 1000 {
        RuntimeState::Hot
    } else {
        RuntimeState::Warm
    }
}

/// A runtime as it is shown in the given state.
pub open spec fn row_of(e: runtime::EntryView, state: RuntimeState) -> runtime::RowView {
    runtime::RowView {
        workspace_id: e.workspace_id,
        workspace_name: e.workspace_name,
        workspace_path: e.workspace_path,
        engine: e.engine,
        state,
        pid: e.pid,
        wrapper_kind: e.wrapper_kind,
        resolved_bin: e.resolved_bin,
        started_at_ms: e.started_at_ms,
        last_used_at_ms: e.last_used_at_ms,
        pinned: e.pinned,
        lease_sources: e.lease_sources,
        error: e.error,
    }
}

/// The runtimes as they are at the given instant, each by itself.
pub open spec fn rows_of(entries: Seq<runtime::EntryView>, now: u64) -> Seq<runtime::RowView> {
    Seq::new(
        entries.len(),
        |i: int| row_of(entries[i], state_or(entries[i], idle_state(entries[i], now))),
    )
}

/// `row` put behind the last row that was used no earlier than it.
pub open spec fn placed(rows: Seq<runtime::RowView>, row: runtime::RowView) -> Seq<
    runtime::RowView,
>
    decreases rows.len(),
{
    if rows.len() > 0 && rows.last().last_used_at_ms < row.last_used_at_ms {
        placed(rows.drop_last(), row).push(rows.last())
    } else {
        rows.push(row)
    }
}

/// The rows with the last used first. Of two that were used at the same
/// instant, the one that stood first stays first.
pub open spec fn by_last_use(rows: Seq<runtime::RowView>) -> Seq<runtime::RowView>
    decreases rows.len(),
{
    if rows.len() == 0 {
        Seq::empty()
    } else {
        placed(by_last_use(rows.drop_last()), rows.last())
    }
}

/// What rows are counted for.
pub ghost enum RowSort {
    Hot,
    Warm,
    Busy,
    Pinned,
    Codex,
    Idle,
    Fresh { now: u64, ttl_seconds: u16 },
}

/// The budget speaks of the runtime.
pub open spec fn budgeted_engine(row: runtime::RowView) -> bool {
    row.engine == "codex"@ && !row.pinned
}

/// The budget decides whether the runtime is hot or warm.
pub open spec fn competes(row: runtime::RowView) -> bool {
    budgeted_engine(row) && (row.state == RuntimeState::Hot || row.state == RuntimeState::Warm)
}

/// The runtime may be evicted.
pub open spec fn candidate(row: runtime::RowView) -> bool {
    budgeted_engine(row) && row.state != RuntimeState::Busy
}

/// The runtime was not used for too long.
pub open spec fn expired(row: runtime::RowView, now: u64, ttl_seconds: u16) -> bool {
    age(now, row.last_used_at_ms) > ttl_seconds * 1000
}

/// The row is of the given sort.
pub open spec fn of_sort(row: runtime::RowView, sort: RowSort) -> bool {
    match sort {
        RowSort::Hot => row.state == RuntimeState::Hot,
        RowSort::Warm => row.state == RuntimeState::Warm,
        RowSort::Busy => row.state == RuntimeState::Busy,
        RowSort::Pinned => row.pinned,
        RowSort::Codex => row.engine == "codex"@,
        RowSort::Idle => competes(row),
        RowSort::Fresh { now, ttl_seconds } => candidate(row) && !expired(row, now, ttl_seconds),
    }
}

/// How many rows are of the given sort.
pub open spec fn how_many(rows: Seq<runtime::RowView>, sort: RowSort) -> nat
    decreases rows.len(),
{
    if rows.len() == 0 {
        0
    } else {
        how_many(rows.drop_last(), sort) + if of_sort(rows.last(), sort) {
            1nat
        } else {
            0nat
        }
    }
}

/// The rows with the first `hot` idle ones hot and the other idle ones warm.
pub open spec fn budgeted(rows: Seq<runtime::RowView>, hot: nat) -> Seq<runtime::RowView> {
    Seq::new(
        rows.len(),
        |i: int|
            if competes(rows[i]) {
                runtime::RowView {
                    state: if how_many(rows.take(i), RowSort::Idle) < hot {
                        RuntimeState::Hot
                    } else {
                        RuntimeState::Warm
                    },
                    ..rows[i]
                }
            } else {
                rows[i]
            },
    )
}

/// The rows that are shown at the given instant.
pub open spec fn shown(
    entries: Seq<runtime::EntryView>,
    settings: AppSettings,
    now: u64,
) -> Seq<runtime::RowView> {
    budgeted(by_last_use(rows_of(entries, now)), settings.codex_max_hot_runtimes as nat)
}

/// How many rows there are of each sort.
pub open spec fn summed_up(rows: Seq<runtime::RowView>, s: RuntimePoolSummary) -> bool {
    &&& s.total_runtimes == rows.len()
    &&& s.hot_runtimes == how_many(rows, RowSort::Hot)
    &&& s.warm_runtimes == how_many(rows, RowSort::Warm)
    &&& s.busy_runtimes == how_many(rows, RowSort::Busy)
    &&& s.pinned_runtimes == how_many(rows, RowSort::Pinned)
    &&& s.codex_runtimes == how_many(rows, RowSort::Codex)
}

/// The budgets that the settings give.
pub open spec fn budgets_of(settings: AppSettings) -> RuntimePoolBudgetSnapshot {
    RuntimePoolBudgetSnapshot {
        max_hot_codex: settings.codex_max_hot_runtimes,
        max_warm_codex: settings.codex_max_warm_runtimes,
        warm_ttl_seconds: settings.codex_warm_ttl_seconds,
        restore_threads_only_on_launch: settings.runtime_restore_threads_only_on_launch,
        force_cleanup_on_exit: settings.runtime_force_cleanup_on_exit,
        orphan_sweep_on_launch: settings.runtime_orphan_sweep_on_launch,
    }
}

/// The pool as it is shown at the given instant.
pub open spec fn shows(
    snapshot: RuntimePoolSnapshot,
    manager: runtime::ManagerView,
    settings: AppSettings,
    now: u64,
) -> bool {
    &&& runtime::row_views(snapshot.rows@) == shown(manager.entries, settings, now)
    &&& summed_up(runtime::row_views(snapshot.rows@), snapshot.summary)
    &&& snapshot.budgets == budgets_of(settings)
    &&& snapshot.diagnostics == manager.diagnostics
}

/// How many idle runtimes are kept.
pub open spec fn keep_limit(settings: AppSettings) -> int {
    settings.codex_max_hot_runtimes + settings.codex_max_warm_runtimes
}

/// The last row is evicted: it was not used for too long, or enough of those
/// before it are kept.
pub open spec fn last_goes(rows: Seq<runtime::RowView>, settings: AppSettings, now: u64) -> bool {
    let ttl_seconds = settings.codex_warm_ttl_seconds;
    &&& candidate(rows.last())
    &&& expired(rows.last(), now, ttl_seconds) || how_many(
        rows.drop_last(),
        RowSort::Fresh { now, ttl_seconds },
    ) >= keep_limit(settings)
}

/// The workspaces whose runtimes are evicted.
pub open spec fn evicted(rows: Seq<runtime::RowView>, settings: AppSettings, now: u64) -> Seq<
    Seq<char>,
>
    decreases rows.len(),
{
    if rows.len() == 0 {
        Seq::empty()
    } else {
        let before = evicted(rows.drop_last(), settings, now);
        if last_goes(rows, settings, now) {
            before.push(rows.last().workspace_id)
        } else {
            before
        }
    }
}

/// The runtimes that are written down: those with a process or an error.
pub open spec fn ledger_rows(entries: Seq<runtime::EntryView>) -> Seq<runtime::RowView>
    decreases entries.len(),
{
    if entries.len() == 0 {
        Seq::empty()
    } else {
        let before = ledger_rows(entries.drop_last());
        let e = entries.last();
        if e.pid is Some || e.error is Some {
            before.push(row_of(e, state_or(e, RuntimeState::Warm)))
        } else {
            before
        }
    }
}

// ---------------------------------------------------------------------------
// Rows
// ---------------------------------------------------------------------------

/// A runtime as it is shown in the given state.
fn row_from(e: &RuntimeEntry, state: RuntimeState) -> (r: RuntimePoolRow)
    ensures
        r@ == row_of(e@, state),
{
    RuntimePoolRow {
        workspace_id: e.workspace_id.clone(),
        workspace_name: e.workspace_name.clone(),
        workspace_path: e.workspace_path.clone(),
        engine: e.engine.clone(),
        state,
        pid: e.pid,
        wrapper_kind: text::copy_text(&e.wrapper_kind),
        resolved_bin: text::copy_text(&e.resolved_bin),
        started_at_ms: e.started_at_ms,
        last_used_at_ms: e.last_used_at_ms,
        pinned: e.pinned,
        lease_sources: text::copy_list(&e.lease_sources),
        error: text::copy_text(&e.error),
    }
}

/// How a runtime is doing, given how it does when nothing else is to be said.
fn state_of(e: &RuntimeEntry, idle: RuntimeState) -> (r: RuntimeState)
    ensures
        r == state_or(e@, idle),
{
    if e.zombie_suspected {
        RuntimeState::ZombieSuspected
    } else if e.error.is_some() {
        RuntimeState::Failed
    } else if e.busy {
        RuntimeState::Busy
    } else {
        idle
    }
}

/// Putting a row in place is putting it before all that were used earlier.
proof fn lemma_placed(rows: Seq<runtime::RowView>, row: runtime::RowView, n: int)
    requires
        0 <= n <= rows.len(),
        forall|i: int|
            n <= i < rows.len() ==> (#[trigger] rows[i]).last_used_at_ms < row.last_used_at_ms,
        n > 0 ==> rows[n - 1].last_used_at_ms >= row.last_used_at_ms,
    ensures
        placed(rows, row) == rows.insert(n, row),
    decreases rows.len(),
{
    if n < rows.len() {
        assert(rows.last() == rows[rows.len() - 1]);
        lemma_placed(rows.drop_last(), row, n);
        assert(rows.drop_last().insert(n, row).push(rows.last()) =~= rows.insert(n, row));
    } else {
        assert(rows.push(row) =~= rows.insert(n, row));
    }
}

/// Puts a row behind the last row that was used no earlier than it.
fn place(rows: &mut Vec<RuntimePoolRow>, row: RuntimePoolRow)
    ensures
        runtime::row_views(final(rows)@) == placed(runtime::row_views(old(rows)@), row@),
{
    let ghost before = runtime::row_views(rows@);
    let mut n: usize = rows.len();
    while n > 0 && rows[n - 1].last_used_at_ms < row.last_used_at_ms
        invariant
            n <= rows.len(),
            before == runtime::row_views(rows@),
            forall|i: int|
                n <= i < rows.len() ==> (#[trigger] before[i]).last_used_at_ms
                    < row.last_used_at_ms,
        decreases n,
    {
        assert(before[n - 1] == rows@[n - 1]@);
        n -= 1;
    }
    proof {
        if n > 0 {
            assert(before[n - 1] == rows@[n - 1]@);
        }
        lemma_placed(before, row@, n as int);
    }
    let ghost r = row@;
    rows.insert(n, row);
    assert(runtime::row_views(rows@) =~= before.insert(n as int, r));
}

/// Whether the budget speaks of a runtime.
fn in_budget(row: &RuntimePoolRow) -> (r: bool)
    ensures
        r == budgeted_engine(row@),
{
    text::same(row.engine.as_str(), "codex") && !row.pinned
}

/// The first `hot` idle rows become hot, and the other idle ones warm.
fn apply_budget(rows: &mut Vec<RuntimePoolRow>, hot: usize)
    ensures
        runtime::row_views(final(rows)@) == budgeted(
            runtime::row_views(old(rows)@),
            hot as nat,
        ),
{
    let ghost all = runtime::row_views(rows@);
    let ghost goal = budgeted(all, hot as nat);
    let mut idle_rank: usize = 0;
    let mut i: usize = 0;
    while i < rows.len()
        invariant
            i <= rows.len(),
            rows@.len() == all.len(),
            goal == budgeted(all, hot as nat),
            forall|j: int| i <= j < rows@.len() ==> (#[trigger] rows@[j])@ == all[j],
            forall|j: int| 0 <= j < i ==> (#[trigger] rows@[j])@ == goal[j],
            idle_rank == how_many(all.take(i as int), RowSort::Idle),
            idle_rank <= i,
        decreases rows.len() - i,
    {
        assert(rows@[i as int]@ == all[i as int]);
        assert(all.take(i + 1).drop_last() =~= all.take(i as int));
        assert(all.take(i + 1).last() == all[i as int]);
        let competing = in_budget(&rows[i]) && (rows[i].state == RuntimeState::Hot || rows[i].state
            == RuntimeState::Warm);
        if competing {
            rows[i].state = if idle_rank < hot {
                RuntimeState::Hot
            } else {
                RuntimeState::Warm
            };
            idle_rank = idle_rank + 1;
        }
        assert(rows@[i as int]@ == goal[i as int]);
        i += 1;
    }
    assert(runtime::row_views(rows@) =~= goal);
}

/// How many rows there are of each sort.
pub fn summary_of(rows: &Vec<RuntimePoolRow>) -> (r: RuntimePoolSummary)
    ensures
        summed_up(runtime::row_views(rows@), r),
{
    let ghost all = runtime::row_views(rows@);
    let mut s = RuntimePoolSummary {
        total_runtimes: rows.len(),
        hot_runtimes: 0,
        warm_runtimes: 0,
        busy_runtimes: 0,
        pinned_runtimes: 0,
        codex_runtimes: 0,
    };
    let mut i: usize = 0;
    while i < rows.len()
        invariant
            i <= rows.len(),
            all == runtime::row_views(rows@),
            s.total_runtimes == rows.len(),
            s.hot_runtimes == how_many(all.take(i as int), RowSort::Hot),
            s.warm_runtimes == how_many(all.take(i as int), RowSort::Warm),
            s.busy_runtimes == how_many(all.take(i as int), RowSort::Busy),
            s.pinned_runtimes == how_many(all.take(i as int), RowSort::Pinned),
            s.codex_runtimes == how_many(all.take(i as int), RowSort::Codex),
            s.hot_runtimes <= i,
            s.warm_runtimes <= i,
            s.busy_runtimes <= i,
            s.pinned_runtimes <= i,
            s.codex_runtimes <= i,
        decreases rows.len() - i,
    {
        assert(all.take(i + 1).drop_last() =~= all.take(i as int));
        assert(all.take(i + 1).last() == rows@[i as int]@);
        match rows[i].state {
            RuntimeState::Hot => {
                s.hot_runtimes = s.hot_runtimes + 1;
            },
            RuntimeState::Warm => {
                s.warm_runtimes = s.warm_runtimes + 1;
            },
            RuntimeState::Busy => {
                s.busy_runtimes = s.busy_runtimes + 1;
            },
            _ => {},
        }
        if rows[i].pinned {
            s.pinned_runtimes = s.pinned_runtimes + 1;
        }
        if text::same(rows[i].engine.as_str(), "codex") {
            s.codex_runtimes = s.codex_runtimes + 1;
        }
        i += 1;
    }
    assert(all.take(rows@.len() as int) =~= all);
    s
}

/// The workspaces whose runtimes are evicted at the given instant.
pub fn idle_evictions(rows: &Vec<RuntimePoolRow>, settings: &AppSettings, now: u64) -> (r: Vec<
    String,
>)
    ensures
        text::texts(r@) == evicted(runtime::row_views(rows@), *settings, now),
{
    let ghost all = runtime::row_views(rows@);
    let ghost fresh = RowSort::Fresh { now, ttl_seconds: settings.codex_warm_ttl_seconds };
    let warm_ttl_ms: u64 = settings.codex_warm_ttl_seconds as u64 * 1000;
    let limit: usize = settings.codex_max_hot_runtimes as usize
        + settings.codex_max_warm_runtimes as usize;
    let mut keep_idle: usize = 0;
    let mut out: Vec<String> = Vec::new();
    assert(text::texts(out@) =~= evicted(all.take(0), *settings, now));
    let mut i: usize = 0;
    while i < rows.len()
        invariant
            i <= rows.len(),
            all == runtime::row_views(rows@),
            fresh == (RowSort::Fresh { now, ttl_seconds: settings.codex_warm_ttl_seconds }),
            warm_ttl_ms == settings.codex_warm_ttl_seconds * 1000,
            limit == keep_limit(*settings),
            keep_idle <= limit,
            keep_idle == limit ==> how_many(all.take(i as int), fresh) >= limit,
            keep_idle < limit ==> how_many(all.take(i as int), fresh) == keep_idle,
            text::texts(out@) == evicted(all.take(i as int), *settings, now),
        decreases rows.len() - i,
    {
        let ghost k = i as int;
        assert(all.take(k + 1).drop_last() =~= all.take(k));
        assert(all.take(k + 1).last() == rows@[k]@);
        let row = &rows[i];
        i += 1;
        if !in_budget(row) || row.state == RuntimeState::Busy {
            continue ;
        }
        let ghost before = text::texts(out@);
        if now.saturating_sub(row.last_used_at_ms) > warm_ttl_ms {
            out.push(row.workspace_id.clone());
            assert(text::texts(out@) =~= before.push(row@.workspace_id));
            continue ;
        }
        if keep_idle < limit {
            keep_idle += 1;
            continue ;
        }
        out.push(row.workspace_id.clone());
        assert(text::texts(out@) =~= before.push(row@.workspace_id));
    }
    assert(all.take(rows@.len() as int) =~= all);
    out
}

impl RuntimeManager {
    /// The rows that are shown at the given instant.
    pub fn snapshot_rows_at(&self, settings: &AppSettings, now: u64) -> (r: Vec<RuntimePoolRow>)
        ensures
            runtime::row_views(r@) == shown(self@.entries, *settings, now),
    {
        let entries = self.entries();
        let ghost all = rows_of(self@.entries, now);
        let mut rows: Vec<RuntimePoolRow> = Vec::new();
        assert(runtime::row_views(rows@) =~= by_last_use(all.take(0)));
        for i in 0..entries.len()
            invariant
                runtime::entry_views(entries@) == self@.entries,
                all == rows_of(self@.entries, now),
                runtime::row_views(rows@) == by_last_use(all.take(i as int)),
        {
            let entry = &entries[i];
            assert(entry@ == self@.entries[i as int]);
            assert(all.take(i + 1).drop_last() =~= all.take(i as int));
            let idle = if now.saturating_sub(entry.last_used_at_ms)
                <= runtime::HOT_IDLE_SECONDS * 1000 {
                RuntimeState::Hot
            } else {
                RuntimeState::Warm
            };
            let row = row_from(entry, state_of(entry, idle));
            assert(row@ == all.take(i + 1).last());
            place(&mut rows, row);
        }
        assert(all.take(entries@.len() as int) =~= all);
        apply_budget(&mut rows, settings.codex_max_hot_runtimes as usize);
        rows
    }

    /// The rows that are shown at this instant.
    pub fn snapshot_rows(&self, settings: &AppSettings) -> (r: Vec<RuntimePoolRow>)
        ensures
            exists|now: u64|
                runtime::row_views(r@) == #[trigger] shown(self@.entries, *settings, now),
    {
        self.snapshot_rows_at(settings, clock::now_millis())
    }

    /// The pool as it is shown at the given instant.
    pub fn snapshot_at(&self, settings: &AppSettings, now: u64) -> (r: RuntimePoolSnapshot)
        ensures
            shows(r, self@, *settings, now),
    {
        let rows = self.snapshot_rows_at(settings, now);
        let summary = summary_of(&rows);
        RuntimePoolSnapshot {
            rows,
            summary,
            budgets: RuntimePoolBudgetSnapshot {
                max_hot_codex: settings.codex_max_hot_runtimes,
                max_warm_codex: settings.codex_max_warm_runtimes,
                warm_ttl_seconds: settings.codex_warm_ttl_seconds,
                restore_threads_only_on_launch: settings.runtime_restore_threads_only_on_launch,
                force_cleanup_on_exit: settings.runtime_force_cleanup_on_exit,
                orphan_sweep_on_launch: settings.runtime_orphan_sweep_on_launch,
            },
            diagnostics: self.diagnostics(),
        }
    }

    /// The pool as it is shown at this instant.
    pub fn snapshot(&self, settings: &AppSettings) -> (r: RuntimePoolSnapshot)
        ensures
            exists|now: u64| #[trigger] shows(r, self@, *settings, now),
    {
        self.snapshot_at(settings, clock::now_millis())
    }

    /// The workspaces whose runtimes are evicted, when the rows are made up at
    /// the instant `shown_at` and judged at the instant `now`.
    pub fn reconcile_pool_at(&self, settings: &AppSettings, shown_at: u64, now: u64) -> (r: Vec<
        String,
    >)
        ensures
            text::texts(r@) == evicted(
                shown(self@.entries, *settings, shown_at),
                *settings,
                now,
            ),
    {
        idle_evictions(&self.snapshot_rows_at(settings, shown_at), settings, now)
    }

    /// The workspaces whose runtimes are to be evicted at this instant.
    pub fn reconcile_pool(&self, settings: &AppSettings) -> (r: Vec<String>)
        ensures
            exists|shown_at: u64, now: u64|
                text::texts(r@) == #[trigger] evicted(
                    shown(self@.entries, *settings, shown_at),
                    *settings,
                    now,
                ),
    {
        let shown_at: u64 = clock::now_millis();
        let now: u64 = clock::now_millis();
        self.reconcile_pool_at(settings, shown_at, now)
    }

    /// What is written down of the pool.
    pub fn ledger(&self) -> (r: PersistedRuntimeLedger)
        ensures
            runtime::row_views(r.rows@) == ledger_rows(self@.entries),
            r.diagnostics == self@.diagnostics,
    {
        let entries = self.entries();
        let ghost all = self@.entries;
        let mut rows: Vec<RuntimePoolRow> = Vec::new();
        assert(runtime::row_views(rows@) =~= ledger_rows(all.take(0)));
        for i in 0..entries.len()
            invariant
                runtime::entry_views(entries@) == all,
                runtime::row_views(rows@) == ledger_rows(all.take(i as int)),
        {
            let entry = &entries[i];
            assert(entry@ == all[i as int]);
            assert(all.take(i + 1).drop_last() =~= all.take(i as int));
            if entry.pid.is_some() || entry.error.is_some() {
                let row = row_from(entry, state_of(entry, RuntimeState::Warm));
                let ghost before = runtime::row_views(rows@);
                rows.push(row);
                assert(runtime::row_views(rows@) =~= before.push(row@));
            }
        }
        assert(all.take(entries@.len() as int) =~= all);
        PersistedRuntimeLedger { rows, diagnostics: self.diagnostics() }
    }
}

} // verus!
