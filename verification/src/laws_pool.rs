//! What each row of the pool shows, which runtimes go and which are written
//! down, said of the rows themselves.
use crate::laws_runtime;
use crate::runtime;
use crate::runtime::{
    AppSettings, EntryView, ManagerView, RowView, RuntimePoolSnapshot, RuntimePoolSummary,
    RuntimeState,
};
use crate::runtime_pool;
use crate::runtime_pool::RowSort;
use vstd::prelude::*;
use vstd::string::*;

verus! {

// ---------------------------------------------------------------------------
// Rows
// ---------------------------------------------------------------------------

/// A runtime shows what is on record of it, and how it is doing: suspected before
/// failed, that before busy, and else hot for thirty seconds after its last use
/// and warm from then on. One that is to be used in the future is hot.
pub proof fn law_rows_show_their_runtimes(entries: Seq<EntryView>, now: u64, i: int)
    requires
        0 <= i < entries.len(),
    ensures
        ({
            let e = entries[i];
            let row = runtime_pool::rows_of(entries, now)[i];
            &&& runtime_pool::rows_of(entries, now).len() == entries.len()
            &&& e.zombie_suspected ==> row.state == RuntimeState::ZombieSuspected
            &&& !e.zombie_suspected && e.error is Some ==> row.state == RuntimeState::Failed
            &&& !e.zombie_suspected && e.error is None && e.busy ==> row.state
                == RuntimeState::Busy
            &&& !e.zombie_suspected && e.error is None && !e.busy && now <= e.last_used_at_ms
                + 30000 ==> row.state == RuntimeState::Hot
            &&& !e.zombie_suspected && e.error is None && !e.busy && now > e.last_used_at_ms
                + 30000 ==> row.state == RuntimeState::Warm
            &&& shows_record(row, e)
        }),
{
}

/// The row shows what is on record of the runtime.
pub open spec fn shows_record(row: RowView, e: EntryView) -> bool {
    &&& row.workspace_id == e.workspace_id
    &&& row.workspace_name == e.workspace_name
    &&& row.workspace_path == e.workspace_path
    &&& row.engine == e.engine
    &&& row.pid == e.pid
    &&& row.wrapper_kind == e.wrapper_kind
    &&& row.resolved_bin == e.resolved_bin
    &&& row.started_at_ms == e.started_at_ms
    &&& row.last_used_at_ms == e.last_used_at_ms
    &&& row.pinned == e.pinned
    &&& row.lease_sources == e.lease_sources
    &&& row.error == e.error
}

/// A row that is added is placed before those that were used earlier and behind
/// all others, so that of rows that were used at the same instant the first stays
/// first.
pub proof fn law_order_is_stable(rows: Seq<RowView>, row: RowView) -> (n: int)
    ensures
        ({
            let before = runtime_pool::by_last_use(rows);
            let after = runtime_pool::by_last_use(rows.push(row));
            &&& 0 <= n <= before.len()
            &&& after == before.insert(n, row)
            &&& forall|i: int|
                0 <= i < n ==> (#[trigger] before[i]).last_used_at_ms >= row.last_used_at_ms
            &&& forall|i: int|
                n <= i < before.len() ==> (#[trigger] before[i]).last_used_at_ms
                    < row.last_used_at_ms
        }),
        runtime_pool::by_last_use(Seq::empty()).len() == 0,
{
    let before = runtime_pool::by_last_use(rows);
    assert(rows.push(row).drop_last() =~= rows);
    laws_runtime::law_order_keeps_the_rows(rows);
    lemma_place(before, row)
}

proof fn lemma_place(rows: Seq<RowView>, row: RowView) -> (n: int)
    requires
        laws_runtime::last_used_first(rows),
    ensures
        0 <= n <= rows.len(),
        runtime_pool::placed(rows, row) == rows.insert(n, row),
        forall|i: int| 0 <= i < n ==> (#[trigger] rows[i]).last_used_at_ms >= row.last_used_at_ms,
        forall|i: int|
            n <= i < rows.len() ==> (#[trigger] rows[i]).last_used_at_ms < row.last_used_at_ms,
    decreases rows.len(),
{
    if rows.len() > 0 && rows.last().last_used_at_ms < row.last_used_at_ms {
        let front = rows.drop_last();
        let n = lemma_place(front, row);
        assert(front.insert(n, row).push(rows.last()) =~= rows.insert(n, row));
        assert forall|i: int| 0 <= i < n implies (#[trigger] rows[i]).last_used_at_ms
            >= row.last_used_at_ms by {
            assert(front[i] == rows[i]);
        }
        assert forall|i: int| n <= i < rows.len() implies (#[trigger] rows[i]).last_used_at_ms
            < row.last_used_at_ms by {
            if i < front.len() {
                assert(front[i] == rows[i]);
            }
        }
        n
    } else {
        let n = rows.len() as int;
        assert(rows.push(row) =~= rows.insert(n, row));
        if n > 0 {
            assert(rows[n - 1] == rows.last());
        }
        n
    }
}

/// How many rows have a property.
pub open spec fn number(rows: Seq<RowView>, p: spec_fn(RowView) -> bool) -> nat
    decreases rows.len(),
{
    if rows.len() == 0 {
        0
    } else {
        number(rows.drop_last(), p) + if p(rows.last()) {
            1nat
        } else {
            0nat
        }
    }
}

proof fn lemma_number(rows: Seq<RowView>, sort: RowSort, p: spec_fn(RowView) -> bool)
    requires
        forall|row: RowView| #[trigger] p(row) == runtime_pool::of_sort(row, sort),
    ensures
        runtime_pool::how_many(rows, sort) == number(rows, p),
    decreases rows.len(),
{
    if rows.len() > 0 {
        lemma_number(rows.drop_last(), sort, p);
        assert(p(rows.last()) == runtime_pool::of_sort(rows.last(), sort));
    }
}

/// Runtimes of codex that are not pinned and are hot or warm.
pub open spec fn idle_codex() -> spec_fn(RowView) -> bool {
    |row: RowView|
        row.engine == "codex"@ && !row.pinned && (row.state == RuntimeState::Hot || row.state
            == RuntimeState::Warm)
}

/// Of the runtimes of codex that are not pinned and are hot or warm, the first
/// are hot, as many as the budget names, and the others warm; all other rows stay
/// as they are.
pub proof fn law_first_are_hot(rows: Seq<RowView>, hot: nat, i: int)
    requires
        0 <= i < rows.len(),
    ensures
        ({
            let out = runtime_pool::budgeted(rows, hot);
            let idle = idle_codex()(rows[i]);
            let earlier = number(rows.take(i), idle_codex());
            &&& out.len() == rows.len()
            &&& idle && earlier < hot ==> out[i] == (RowView {
                state: RuntimeState::Hot,
                ..rows[i]
            })
            &&& idle && earlier >= hot ==> out[i] == (RowView {
                state: RuntimeState::Warm,
                ..rows[i]
            })
            &&& !idle ==> out[i] == rows[i]
        }),
{
    lemma_number(rows.take(i), RowSort::Idle, idle_codex());
}

/// What is shown are the rows of the runtimes, the last used first, with the hot
/// budget of the settings.
pub proof fn law_shown_rows(entries: Seq<EntryView>, settings: AppSettings, now: u64, i: int)
    requires
        0 <= i < entries.len(),
    ensures
        ({
            let rows = runtime_pool::by_last_use(runtime_pool::rows_of(entries, now));
            let out = runtime_pool::shown(entries, settings, now);
            let idle = idle_codex()(rows[i]);
            &&& out.len() == entries.len()
            &&& idle ==> (out[i].state == RuntimeState::Hot <==> number(
                rows.take(i),
                idle_codex(),
            ) < settings.codex_max_hot_runtimes)
            &&& idle ==> out[i].state == RuntimeState::Hot || out[i].state == RuntimeState::Warm
            &&& out[i] == (RowView { state: out[i].state, ..rows[i] })
            &&& !idle ==> out[i] == rows[i]
        }),
{
    laws_runtime::law_every_runtime_is_shown(entries, settings, now);
    let rows = runtime_pool::by_last_use(runtime_pool::rows_of(entries, now));
    laws_runtime::law_order_keeps_the_rows(runtime_pool::rows_of(entries, now));
    law_first_are_hot(rows, settings.codex_max_hot_runtimes as nat, i);
}

/// A summary counts the rows, those in three states, the pinned ones and those of
/// codex.
pub proof fn law_summary_counts(rows: Seq<RowView>, s: RuntimePoolSummary)
    requires
        runtime_pool::summed_up(rows, s),
    ensures
        s.total_runtimes == rows.len(),
        s.hot_runtimes == number(rows, |row: RowView| row.state == RuntimeState::Hot),
        s.warm_runtimes == number(rows, |row: RowView| row.state == RuntimeState::Warm),
        s.busy_runtimes == number(rows, |row: RowView| row.state == RuntimeState::Busy),
        s.pinned_runtimes == number(rows, |row: RowView| row.pinned),
        s.codex_runtimes == number(rows, |row: RowView| row.engine == "codex"@),
{
    lemma_number(rows, RowSort::Hot, |row: RowView| row.state == RuntimeState::Hot);
    lemma_number(rows, RowSort::Warm, |row: RowView| row.state == RuntimeState::Warm);
    lemma_number(rows, RowSort::Busy, |row: RowView| row.state == RuntimeState::Busy);
    lemma_number(rows, RowSort::Pinned, |row: RowView| row.pinned);
    lemma_number(rows, RowSort::Codex, |row: RowView| row.engine == "codex"@);
}

/// What is shown of the pool: the rows of its runtimes, their summary, the budgets
/// of the settings and the counts of what happened.
pub proof fn law_snapshot_shows_the_pool(
    snapshot: RuntimePoolSnapshot,
    m: ManagerView,
    settings: AppSettings,
    now: u64,
)
    requires
        runtime_pool::shows(snapshot, m, settings, now),
    ensures
        runtime::row_views(snapshot.rows@) == runtime_pool::shown(m.entries, settings, now),
        runtime_pool::summed_up(runtime::row_views(snapshot.rows@), snapshot.summary),
        snapshot.budgets.max_hot_codex == settings.codex_max_hot_runtimes,
        snapshot.budgets.max_warm_codex == settings.codex_max_warm_runtimes,
        snapshot.budgets.warm_ttl_seconds == settings.codex_warm_ttl_seconds,
        snapshot.budgets.restore_threads_only_on_launch
            == settings.runtime_restore_threads_only_on_launch,
        snapshot.budgets.force_cleanup_on_exit == settings.runtime_force_cleanup_on_exit,
        snapshot.budgets.orphan_sweep_on_launch == settings.runtime_orphan_sweep_on_launch,
        snapshot.diagnostics == m.diagnostics,
{
}

// ---------------------------------------------------------------------------
// Eviction
// ---------------------------------------------------------------------------

/// A runtime of codex that is neither pinned nor busy.
pub open spec fn may_go(row: RowView) -> bool {
    row.engine == "codex"@ && !row.pinned && row.state != RuntimeState::Busy
}

/// The last use lies further back than the time to live, in seconds, allows.
pub open spec fn too_old(row: RowView, settings: AppSettings, now: u64) -> bool {
    now > row.last_used_at_ms + settings.codex_warm_ttl_seconds * 1000
}

/// Runtimes that may go and were used within the time to live.
pub open spec fn recent(settings: AppSettings, now: u64) -> spec_fn(RowView) -> bool {
    |row: RowView| may_go(row) && !too_old(row, settings, now)
}

/// How many of the runtimes that may go and were used within the time to live
/// are not evicted: those that add nothing to the list of the evicted.
pub open spec fn recent_that_stay(rows: Seq<RowView>, settings: AppSettings, now: u64) -> nat
    decreases rows.len(),
{
    if rows.len() == 0 {
        0
    } else {
        let front = rows.drop_last();
        recent_that_stay(front, settings, now) + if recent(settings, now)(rows.last())
            && runtime_pool::evicted(rows, settings, now).len() == runtime_pool::evicted(
            front,
            settings,
            now,
        ).len() {
            1nat
        } else {
            0nat
        }
    }
}

proof fn lemma_recent(rows: Seq<RowView>, settings: AppSettings, now: u64)
    ensures
        runtime_pool::how_many(
            rows,
            RowSort::Fresh { now, ttl_seconds: settings.codex_warm_ttl_seconds },
        ) == number(rows, recent(settings, now)),
{
    lemma_number(
        rows,
        RowSort::Fresh { now, ttl_seconds: settings.codex_warm_ttl_seconds },
        recent(settings, now),
    );
}

/// A row that is added is evicted exactly if it may go and either is too old or
/// has, before it, as many runtimes that may stay as are kept hot and warm
/// together. Nothing that was decided of the rows before it changes.
pub proof fn law_added_row_goes(rows: Seq<RowView>, row: RowView, settings: AppSettings, now: u64)
    ensures
        ({
            let before = runtime_pool::evicted(rows, settings, now);
            let after = runtime_pool::evicted(rows.push(row), settings, now);
            let full = number(rows, recent(settings, now)) >= settings.codex_max_hot_runtimes
                + settings.codex_max_warm_runtimes;
            let goes = may_go(row) && (too_old(row, settings, now) || full);
            &&& goes ==> after == before.push(row.workspace_id)
            &&& !goes ==> after == before
        }),
        runtime_pool::evicted(Seq::empty(), settings, now).len() == 0,
{
    assert(rows.push(row).drop_last() =~= rows);
    lemma_recent(rows, settings, now);
}

/// Of the runtimes that may go and were used within the time to live, the number
/// that is not evicted is the smaller of their count and of the hot and warm
/// runtimes of the settings together.
pub proof fn law_hot_and_warm_stay(rows: Seq<RowView>, settings: AppSettings, now: u64)
    ensures
        ({
            let count = number(rows, recent(settings, now)) as int;
            let room = settings.codex_max_hot_runtimes + settings.codex_max_warm_runtimes;
            recent_that_stay(rows, settings, now) == if count <= room {
                count
            } else {
                room
            }
        }),
    decreases rows.len(),
{
    if rows.len() > 0 {
        let front = rows.drop_last();
        law_hot_and_warm_stay(front, settings, now);
        law_added_row_goes(front, rows.last(), settings, now);
        assert(front.push(rows.last()) =~= rows);
    }
}

/// Runtimes that may go and are too old.
pub open spec fn stale(settings: AppSettings, now: u64) -> spec_fn(RowView) -> bool {
    |row: RowView| may_go(row) && too_old(row, settings, now)
}

/// As many runtimes are evicted as are too old, and as many more as exceed the
/// hot and warm runtimes of the settings together.
pub proof fn law_number_of_evictions(rows: Seq<RowView>, settings: AppSettings, now: u64)
    ensures
        ({
            let count = number(rows, recent(settings, now)) as int;
            let room = settings.codex_max_hot_runtimes + settings.codex_max_warm_runtimes;
            runtime_pool::evicted(rows, settings, now).len() == number(rows, stale(settings, now))
                + if count <= room {
                0
            } else {
                count - room
            }
        }),
    decreases rows.len(),
{
    if rows.len() > 0 {
        let front = rows.drop_last();
        law_number_of_evictions(front, settings, now);
        law_added_row_goes(front, rows.last(), settings, now);
        assert(front.push(rows.last()) =~= rows);
    }
}

/// Where no other row is of its workspace, the runtime of a row is evicted
/// exactly if it may go and either is too old or comes behind as many that may
/// stay as are kept hot and warm together.
pub proof fn law_which_runtimes_go(
    rows: Seq<RowView>,
    settings: AppSettings,
    now: u64,
    i: int,
)
    requires
        0 <= i < rows.len(),
        forall|j: int|
            0 <= j < rows.len() && j != i ==> (#[trigger] rows[j]).workspace_id
                != rows[i].workspace_id,
    ensures
        runtime_pool::evicted(rows, settings, now).contains(rows[i].workspace_id) <==> may_go(
            rows[i],
        ) && (too_old(rows[i], settings, now) || number(rows.take(i), recent(settings, now))
            >= settings.codex_max_hot_runtimes + settings.codex_max_warm_runtimes),
    decreases rows.len(),
{
    let front = rows.drop_last();
    let before = runtime_pool::evicted(front, settings, now);
    let all = runtime_pool::evicted(rows, settings, now);
    law_added_row_goes(front, rows.last(), settings, now);
    assert(front.push(rows.last()) =~= rows);
    if i < front.len() {
        assert forall|j: int| 0 <= j < front.len() && j != i implies (
        #[trigger] front[j]).workspace_id != front[i].workspace_id by {
            assert(front[j] == rows[j]);
        }
        law_which_runtimes_go(front, settings, now, i);
        assert(front.take(i) =~= rows.take(i));
        assert(rows[rows.len() - 1].workspace_id != rows[i].workspace_id);
        if before.contains(rows[i].workspace_id) {
            let k = before.index_of(rows[i].workspace_id);
            assert(all[k] == rows[i].workspace_id);
        }
        if all.contains(rows[i].workspace_id) {
            let k = all.index_of(rows[i].workspace_id);
            assert(before[k] == rows[i].workspace_id);
        }
    } else {
        assert(rows.take(i) =~= front);
        lemma_not_evicted(front, settings, now, rows[i].workspace_id);
        if all.len() > before.len() {
            assert(all[before.len() as int] == rows[i].workspace_id);
        }
    }
}

proof fn lemma_not_evicted(rows: Seq<RowView>, settings: AppSettings, now: u64, id: Seq<char>)
    requires
        forall|j: int| 0 <= j < rows.len() ==> (#[trigger] rows[j]).workspace_id != id,
    ensures
        !runtime_pool::evicted(rows, settings, now).contains(id),
    decreases rows.len(),
{
    if rows.len() > 0 {
        let front = rows.drop_last();
        assert forall|j: int| 0 <= j < front.len() implies (#[trigger] front[j]).workspace_id
            != id by {
            assert(front[j] == rows[j]);
        }
        lemma_not_evicted(front, settings, now, id);
        assert(rows[rows.len() - 1].workspace_id != id);
        let before = runtime_pool::evicted(front, settings, now);
        let all = runtime_pool::evicted(rows, settings, now);
        if all.contains(id) {
            let k = all.index_of(id);
            if k < before.len() {
                assert(before[k] == id);
            }
        }
    }
}

// ---------------------------------------------------------------------------
// The ledger
// ---------------------------------------------------------------------------

/// A runtime that is added is written down exactly if it has a process or an
/// error, behind those before it: suspected before failed, that before busy, and
/// else warm.
pub proof fn law_added_runtime_is_written_down(entries: Seq<EntryView>, e: EntryView)
    ensures
        ({
            let before = runtime_pool::ledger_rows(entries);
            let after = runtime_pool::ledger_rows(entries.push(e));
            let counts = e.pid is Some || e.error is Some;
            &&& !counts ==> after == before
            &&& counts ==> after.drop_last() == before && after.len() == before.len() + 1
            &&& counts ==> shows_record(after.last(), e)
            &&& counts && e.zombie_suspected ==> after.last().state
                == RuntimeState::ZombieSuspected
            &&& counts && !e.zombie_suspected && e.error is Some ==> after.last().state
                == RuntimeState::Failed
            &&& counts && !e.zombie_suspected && e.error is None && e.busy ==> after.last().state
                == RuntimeState::Busy
            &&& counts && !e.zombie_suspected && e.error is None && !e.busy ==> after.last().state
                == RuntimeState::Warm
        }),
        runtime_pool::ledger_rows(Seq::empty()).len() == 0,
{
    assert(entries.push(e).drop_last() =~= entries);
    let before = runtime_pool::ledger_rows(entries);
    let after = runtime_pool::ledger_rows(entries.push(e));
    if e.pid is Some || e.error is Some {
        assert(after.drop_last() =~= before);
    }
}

} // verus!
