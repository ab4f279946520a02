//! What holds of the pool of runtimes.
use crate::runtime;
use crate::runtime::{
    AppSettings, EntryView, ManagerView, RowView, RuntimePoolDiagnostics, RuntimeState,
    SessionInfoView, WorkspaceView,
};
use crate::runtime_control;
use crate::runtime_pool;
use crate::runtime_pool::RowSort;
use vstd::prelude::*;
use vstd::string::*;

verus! {

// ---------------------------------------------------------------------------
// Records
// ---------------------------------------------------------------------------

/// What was recorded of a workspace is what is found of it, and what was
/// recorded of others stays. No workspace comes to have two runtimes.
pub proof fn law_record_is_found(entries: Seq<EntryView>, e: EntryView, other: Seq<char>)
    requires
        runtime::one_each(entries),
    ensures
        runtime::one_each(runtime::with_entry(entries, e)),
        runtime::entry_of(runtime::with_entry(entries, e), e.workspace_id) == Some(e),
        other != e.workspace_id ==> runtime::entry_of(runtime::with_entry(entries, e), other)
            == runtime::entry_of(entries, other),
{
    let after = runtime::with_entry(entries, e);
    let p = runtime::position(entries, e.workspace_id);
    runtime::lemma_position(entries, e.workspace_id);
    runtime::lemma_position(after, e.workspace_id);
    runtime::lemma_position(entries, other);
    runtime::lemma_position(after, other);
    assert forall|i: int, j: int| 0 <= i < j < after.len() implies (
    #[trigger] after[i]).workspace_id != (#[trigger] after[j]).workspace_id by {
        if i != p {
            assert(after[i] == entries[i]);
        }
        if j != p {
            assert(after[j] == entries[j]);
        }
        if p < entries.len() {
            assert(entries[i].workspace_id != entries[j].workspace_id);
        }
    }
    let q = runtime::position(after, e.workspace_id);
    assert(after[p] == e);
    if q < p {
        assert(after[q] == entries[q]);
    } else if p < q {
        assert(after[p].workspace_id != e.workspace_id);
    }
    if other != e.workspace_id {
        assert forall|i: int|
            0 <= i < entries.len() && (#[trigger] entries[i]).workspace_id
                == other implies after.contains(entries[i]) by {
            assert(after[i] == entries[i]);
        }
        assert forall|i: int|
            0 <= i < after.len() && (#[trigger] after[i]).workspace_id
                == other implies entries.contains(after[i]) by {
            assert(after[i] == entries[i]);
        }
        lemma_same_entry(entries, after, other);
    }
}

/// A list in which the runtime of a workspace stands as before gives it as
/// before.
proof fn lemma_same_entry(entries: Seq<EntryView>, after: Seq<EntryView>, id: Seq<char>)
    requires
        runtime::one_each(entries),
        runtime::one_each(after),
        forall|i: int|
            0 <= i < entries.len() && (#[trigger] entries[i]).workspace_id == id
                ==> after.contains(entries[i]),
        forall|i: int|
            0 <= i < after.len() && (#[trigger] after[i]).workspace_id == id ==> entries.contains(
                after[i],
            ),
    ensures
        runtime::entry_of(after, id) == runtime::entry_of(entries, id),
{
    runtime::lemma_position(entries, id);
    runtime::lemma_position(after, id);
    let p = runtime::position(entries, id);
    let q = runtime::position(after, id);
    if p < entries.len() {
        let i = choose|i: int| 0 <= i < after.len() && after[i] == entries[p];
        assert(after[i].workspace_id == id);
        if q < i {
            assert(after[q].workspace_id != after[i].workspace_id);
        }
        if i < q {
            assert(after[i].workspace_id != id);
        }
    } else if q < after.len() {
        let i = choose|i: int| 0 <= i < entries.len() && entries[i] == after[q];
        assert(entries[i].workspace_id != id);
    }
}

/// What was removed is gone, and what was recorded of others stays.
pub proof fn law_removed_is_gone(entries: Seq<EntryView>, id: Seq<char>, other: Seq<char>)
    requires
        runtime::one_each(entries),
    ensures
        runtime::one_each(runtime::without_entry(entries, id)),
        runtime::entry_of(runtime::without_entry(entries, id), id) is None,
        other != id ==> runtime::entry_of(runtime::without_entry(entries, id), other)
            == runtime::entry_of(entries, other),
{
    runtime::lemma_without_entry(entries, id);
    runtime::lemma_position(entries, id);
    let after = runtime::without_entry(entries, id);
    let p = runtime::position(entries, id);
    if other != id && p < entries.len() {
        assert forall|i: int|
            0 <= i < entries.len() && (#[trigger] entries[i]).workspace_id
                == other implies after.contains(entries[i]) by {
            if i < p {
                assert(after[i] == entries[i]);
            } else {
                assert(after[i - 1] == entries[i]);
            }
        }
        assert forall|i: int|
            0 <= i < after.len() && (#[trigger] after[i]).workspace_id
                == other implies entries.contains(after[i]) by {
            if i < p {
                assert(after[i] == entries[i]);
            } else {
                assert(after[i] == entries[i + 1]);
            }
        }
        lemma_same_entry(entries, after, other);
    }
}

/// A lease source is listed once, and none is dropped.
pub proof fn law_leases_are_listed_once(sources: Seq<Seq<char>>, source: Seq<char>)
    requires
        sources.no_duplicates(),
    ensures
        runtime::leased(sources, source).no_duplicates(),
        runtime::leased(sources, source).contains(source),
        forall|s: Seq<char>|
            sources.contains(s) ==> #[trigger] runtime::leased(sources, source).contains(s),
{
    let after = runtime::leased(sources, source);
    if !sources.contains(source) {
        assert(after[sources.len() as int] == source);
        assert forall|s: Seq<char>| sources.contains(s) implies #[trigger] after.contains(s) by {
            let i = choose|i: int| 0 <= i < sources.len() && sources[i] == s;
            assert(after[i] == s);
        }
    }
}

/// A runtime that is ready has no error and is neither busy nor suspected, its
/// session exists, and it keeps the instant of its first start.
pub proof fn law_ready_is_a_fresh_start(
    m: ManagerView,
    s: SessionInfoView,
    lease: Seq<char>,
    started: u64,
    now: u64,
)
    requires
        runtime::one_each(m.entries),
    ensures
        runtime::entry_of(m.ready(s, lease, started, now).entries, s.entry.id) matches Some(e) && {
            &&& e.error is None
            &&& !e.busy
            &&& !e.zombie_suspected
            &&& e.session_exists
            &&& e.pid == s.pid
            &&& e.last_used_at_ms == now
            &&& e.started_at_ms == match runtime::entry_of(m.entries, s.entry.id) {
                Some(before) => match before.started_at_ms {
                    Some(ms) => Some(ms),
                    None => Some(started),
                },
                None => Some(started),
            }
        },
{
    let e = runtime::entry_or_new(m.entries, s.entry, "codex"@, lease, now);
    runtime::lemma_position(m.entries, s.entry.id);
    let after = EntryView {
        workspace_name: s.entry.name,
        workspace_path: s.entry.path,
        engine: "codex"@,
        pid: s.pid,
        wrapper_kind: Some(s.wrapper_kind),
        resolved_bin: Some(s.resolved_bin),
        started_at_ms: match e.started_at_ms {
            Some(ms) => Some(ms),
            None => Some(started),
        },
        last_used_at_ms: now,
        error: None,
        busy: false,
        session_exists: true,
        zombie_suspected: false,
        lease_sources: runtime::leased(e.lease_sources, lease),
        ..e
    };
    law_record_is_found(m.entries, after, s.entry.id);
}

/// A failure is on record until the runtime is ready again, and is shown as
/// such.
pub proof fn law_failure_is_shown(
    m: ManagerView,
    w: WorkspaceView,
    engine: Seq<char>,
    lease: Seq<char>,
    error: Seq<char>,
    now: u64,
    later: u64,
)
    requires
        runtime::one_each(m.entries),
    ensures
        runtime::entry_of(m.failing(w, engine, lease, error, now).entries, w.id) matches Some(e)
            && {
            &&& e.error == Some(error)
            &&& runtime_pool::state_or(e, runtime_pool::idle_state(e, later))
                == RuntimeState::Failed
        },
{
    let e = runtime::entry_or_new(m.entries, w, engine, lease, now);
    runtime::lemma_position(m.entries, w.id);
    let after = EntryView {
        error: Some(error),
        last_used_at_ms: now,
        busy: false,
        session_exists: false,
        zombie_suspected: false,
        ..e
    };
    law_record_is_found(m.entries, after, w.id);
}

/// Using, pinning or stopping a runtime that is not there changes nothing.
pub proof fn law_unknown_runtime_is_left_alone(
    m: ManagerView,
    id: Seq<char>,
    lease: Seq<char>,
    flag: bool,
    now: u64,
)
    requires
        !runtime::has_entry(m.entries, id),
    ensures
        m.touched(id, lease, flag, now) == m,
        m.with_pin(id, flag, now) == m,
        m.stopping(id) == m,
        m.removed(id) == m,
{
}

/// Nothing that is recorded of a runtime brings a shutdown to a halt.
pub proof fn law_shutdown_goes_on(
    m: ManagerView,
    s: SessionInfoView,
    engine: Seq<char>,
    lease: Seq<char>,
    error: Seq<char>,
    flag: bool,
    now: u64,
)
    ensures
        m.starting(s.entry, engine, lease, now).shutting_down == m.shutting_down,
        m.ready(s, lease, now, now).shutting_down == m.shutting_down,
        m.touched(s.entry.id, lease, flag, now).shutting_down == m.shutting_down,
        m.with_pin(s.entry.id, flag, now).shutting_down == m.shutting_down,
        m.failing(s.entry, engine, lease, error, now).shutting_down == m.shutting_down,
        m.stopping(s.entry.id).shutting_down == m.shutting_down,
        m.terminated(s.entry.id, flag).shutting_down == m.shutting_down,
        m.shut(now).shutting_down == m.shutting_down,
{
}

/// A runtime whose process was terminated is gone, and a kill is counted once.
pub proof fn law_terminated_is_gone(m: ManagerView, id: Seq<char>, forced: bool)
    requires
        runtime::one_each(m.entries),
        forced ==> m.diagnostics.force_kill_count < u32::MAX,
    ensures
        runtime::entry_of(m.terminated(id, forced).entries, id) is None,
        m.terminated(id, forced).diagnostics.force_kill_count
            == m.diagnostics.force_kill_count + if forced {
            1int
        } else {
            0int
        },
{
    law_removed_is_gone(m.entries, id, id);
}

// ---------------------------------------------------------------------------
// Rows
// ---------------------------------------------------------------------------

/// No row was used later than one before it.
pub open spec fn last_used_first(rows: Seq<RowView>) -> bool {
    forall|i: int, j: int|
        0 <= i < j < rows.len() ==> (#[trigger] rows[i]).last_used_at_ms >= (
        #[trigger] rows[j]).last_used_at_ms
}

proof fn lemma_placed_order(rows: Seq<RowView>, row: RowView)
    requires
        last_used_first(rows),
    ensures
        last_used_first(runtime_pool::placed(rows, row)),
        runtime_pool::placed(rows, row).len() == rows.len() + 1,
        forall|i: int|
            0 <= i < runtime_pool::placed(rows, row).len() ==> (#[trigger] runtime_pool::placed(
                rows,
                row,
            )[i]) == row || rows.contains(runtime_pool::placed(rows, row)[i]),
        runtime_pool::placed(rows, row).to_multiset() == rows.to_multiset().insert(row),
    decreases rows.len(),
{
    broadcast use vstd::seq_lib::group_to_multiset_ensures;

    let after = runtime_pool::placed(rows, row);
    if rows.len() > 0 && rows.last().last_used_at_ms < row.last_used_at_ms {
        let front = rows.drop_last();
        let placed = runtime_pool::placed(front, row);
        lemma_placed_order(front, row);
        assert forall|i: int, j: int| 0 <= i < j < after.len() implies (
        #[trigger] after[i]).last_used_at_ms >= (#[trigger] after[j]).last_used_at_ms by {
            assert(after[i] == placed[i]);
            if j < placed.len() {
                assert(after[j] == placed[j]);
            } else if placed[i] != row {
                assert(front.contains(placed[i]));
                let k = choose|k: int| 0 <= k < front.len() && front[k] == placed[i];
                assert(rows[k] == placed[i]);
                assert(rows[rows.len() - 1] == rows.last());
            }
        }
        assert forall|i: int| 0 <= i < after.len() implies (#[trigger] after[i]) == row
            || rows.contains(after[i]) by {
            if i < placed.len() {
                assert(after[i] == placed[i]);
                if placed[i] != row {
                    let k = choose|k: int| 0 <= k < front.len() && front[k] == placed[i];
                    assert(rows[k] == placed[i]);
                }
            } else {
                assert(rows[rows.len() - 1] == after[i]);
            }
        }
        assert(rows =~= front.push(rows.last()));
        assert(after.to_multiset() =~= rows.to_multiset().insert(row));
    } else {
        assert forall|i: int, j: int| 0 <= i < j < after.len() implies (
        #[trigger] after[i]).last_used_at_ms >= (#[trigger] after[j]).last_used_at_ms by {
            assert(after[i] == rows[i]);
            if j < rows.len() {
                assert(after[j] == rows[j]);
            } else {
                assert(rows.last() == rows[rows.len() - 1]);
            }
        }
        assert forall|i: int| 0 <= i < after.len() implies (#[trigger] after[i]) == row
            || rows.contains(after[i]) by {
            if i < rows.len() {
                assert(rows[i] == after[i]);
            }
        }
    }
}

/// Putting rows in order of their last use keeps each row, and puts the last
/// used first.
pub proof fn law_order_keeps_the_rows(rows: Seq<RowView>)
    ensures
        last_used_first(runtime_pool::by_last_use(rows)),
        runtime_pool::by_last_use(rows).to_multiset() == rows.to_multiset(),
        runtime_pool::by_last_use(rows).len() == rows.len(),
    decreases rows.len(),
{
    broadcast use vstd::seq_lib::group_to_multiset_ensures;

    if rows.len() > 0 {
        law_order_keeps_the_rows(rows.drop_last());
        lemma_placed_order(runtime_pool::by_last_use(rows.drop_last()), rows.last());
        assert(rows =~= rows.drop_last().push(rows.last()));
    } else {
        assert(runtime_pool::by_last_use(rows) =~= rows);
    }
}

/// The budget changes nothing of a row but whether it is hot or warm, and that
/// only for idle runtimes of codex that are not pinned.
pub proof fn law_budget_changes_little(rows: Seq<RowView>, hot: nat, i: int)
    requires
        0 <= i < rows.len(),
    ensures
        runtime_pool::budgeted(rows, hot).len() == rows.len(),
        !runtime_pool::competes(rows[i]) ==> runtime_pool::budgeted(rows, hot)[i] == rows[i],
        runtime_pool::competes(rows[i]) ==> runtime_pool::competes(
            runtime_pool::budgeted(rows, hot)[i],
        ),
        runtime_pool::budgeted(rows, hot)[i] == (RowView {
            state: runtime_pool::budgeted(rows, hot)[i].state,
            ..rows[i]
        }),
{
}

/// The rows that are shown are those of the runtimes, the last used first.
pub proof fn law_every_runtime_is_shown(
    entries: Seq<EntryView>,
    settings: AppSettings,
    now: u64,
)
    ensures
        ({
            let rows = runtime_pool::shown(entries, settings, now);
            let ordered = runtime_pool::by_last_use(runtime_pool::rows_of(entries, now));
            &&& rows.len() == entries.len()
            &&& last_used_first(rows)
            &&& ordered.to_multiset() == runtime_pool::rows_of(entries, now).to_multiset()
            &&& forall|i: int|
                0 <= i < rows.len() ==> #[trigger] rows[i] == (RowView {
                    state: rows[i].state,
                    ..ordered[i]
                })
        }),
{
    let plain = runtime_pool::rows_of(entries, now);
    law_order_keeps_the_rows(plain);
    let ordered = runtime_pool::by_last_use(plain);
    let rows = runtime_pool::shown(entries, settings, now);
    assert forall|i: int| 0 <= i < rows.len() implies #[trigger] rows[i] == (RowView {
        state: rows[i].state,
        ..ordered[i]
    }) by {
        law_budget_changes_little(ordered, settings.codex_max_hot_runtimes as nat, i);
    }
    assert forall|i: int, j: int| 0 <= i < j < rows.len() implies (
    #[trigger] rows[i]).last_used_at_ms >= (#[trigger] rows[j]).last_used_at_ms by {
        assert(rows[i].last_used_at_ms == ordered[i].last_used_at_ms);
        assert(rows[j].last_used_at_ms == ordered[j].last_used_at_ms);
    }
}

/// How many rows the budget speaks of are hot.
pub open spec fn hot_idle(rows: Seq<RowView>) -> nat
    decreases rows.len(),
{
    if rows.len() == 0 {
        0
    } else {
        hot_idle(rows.drop_last()) + if runtime_pool::competes(rows.last()) && rows.last().state
            == RuntimeState::Hot {
            1nat
        } else {
            0nat
        }
    }
}

/// As many idle runtimes are hot as the budget allows, and no more: all of
/// them, or exactly the number that it names.
pub proof fn law_budget_is_kept(rows: Seq<RowView>, hot: nat)
    ensures
        hot_idle(runtime_pool::budgeted(rows, hot)) <= hot,
        hot_idle(runtime_pool::budgeted(rows, hot)) == if runtime_pool::how_many(
            rows,
            RowSort::Idle,
        ) <= hot {
            runtime_pool::how_many(rows, RowSort::Idle)
        } else {
            hot
        },
    decreases rows.len(),
{
    let after = runtime_pool::budgeted(rows, hot);
    if rows.len() > 0 {
        let front = rows.drop_last();
        law_budget_is_kept(front, hot);
        assert(after.drop_last() =~= runtime_pool::budgeted(front, hot)) by {
            assert forall|i: int| 0 <= i < front.len() implies after[i] == runtime_pool::budgeted(
                front,
                hot,
            )[i] by {
                assert(rows.take(i) =~= front.take(i));
            }
        }
        assert(rows.take(rows.len() - 1) =~= front);
    }
}

/// No runtime is hot, warm and busy at once.
pub proof fn law_summary_adds_up(rows: Seq<RowView>)
    ensures
        runtime_pool::how_many(rows, RowSort::Hot) + runtime_pool::how_many(rows, RowSort::Warm)
            + runtime_pool::how_many(rows, RowSort::Busy) <= rows.len(),
        runtime_pool::how_many(rows, RowSort::Pinned) <= rows.len(),
        runtime_pool::how_many(rows, RowSort::Codex) <= rows.len(),
    decreases rows.len(),
{
    if rows.len() > 0 {
        law_summary_adds_up(rows.drop_last());
    }
}

// ---------------------------------------------------------------------------
// Eviction
// ---------------------------------------------------------------------------

/// Only runtimes of codex that are neither pinned nor busy are evicted.
pub proof fn law_only_idle_runtimes_are_evicted(
    rows: Seq<RowView>,
    settings: AppSettings,
    now: u64,
    i: int,
)
    requires
        0 <= i < runtime_pool::evicted(rows, settings, now).len(),
    ensures
        exists|j: int|
            0 <= j < rows.len() && runtime_pool::candidate(#[trigger] rows[j])
                && rows[j].workspace_id == runtime_pool::evicted(rows, settings, now)[i],
    decreases rows.len(),
{
    if rows.len() > 0 {
        let front = rows.drop_last();
        let before = runtime_pool::evicted(front, settings, now);
        if i < before.len() {
            law_only_idle_runtimes_are_evicted(front, settings, now, i);
            let j = choose|j: int|
                0 <= j < front.len() && runtime_pool::candidate(#[trigger] front[j])
                    && front[j].workspace_id == before[i];
            assert(rows[j] == front[j]);
        } else {
            assert(rows[rows.len() - 1] == rows.last());
        }
    }
}

/// How many runtimes that may be evicted stay.
pub open spec fn stay(rows: Seq<RowView>, settings: AppSettings, now: u64) -> nat
    decreases rows.len(),
{
    if rows.len() == 0 {
        0
    } else {
        stay(rows.drop_last(), settings, now) + if runtime_pool::candidate(rows.last())
            && !runtime_pool::last_goes(rows, settings, now) {
            1nat
        } else {
            0nat
        }
    }
}

/// Of the runtimes that may be evicted, as many stay as the budget has room
/// for among those that were used lately enough, and all others go.
pub proof fn law_eviction_keeps_the_budget(
    rows: Seq<RowView>,
    settings: AppSettings,
    now: u64,
)
    ensures
        ({
            let fresh = runtime_pool::how_many(
                rows,
                RowSort::Fresh { now, ttl_seconds: settings.codex_warm_ttl_seconds },
            );
            let limit = runtime_pool::keep_limit(settings);
            &&& stay(rows, settings, now) <= limit
            &&& stay(rows, settings, now) == if fresh <= limit {
                fresh as int
            } else {
                limit
            }
        }),
    decreases rows.len(),
{
    if rows.len() > 0 {
        law_eviction_keeps_the_budget(rows.drop_last(), settings, now);
    }
}

/// Nothing is evicted as long as the budget has room and nothing was left
/// unused for too long.
pub proof fn law_nothing_goes_within_the_budget(
    rows: Seq<RowView>,
    settings: AppSettings,
    now: u64,
)
    requires
        runtime_pool::how_many(
            rows,
            RowSort::Fresh { now, ttl_seconds: settings.codex_warm_ttl_seconds },
        ) <= runtime_pool::keep_limit(settings),
        forall|i: int|
            0 <= i < rows.len() && runtime_pool::candidate(#[trigger] rows[i])
                ==> !runtime_pool::expired(rows[i], now, settings.codex_warm_ttl_seconds),
    ensures
        runtime_pool::evicted(rows, settings, now).len() == 0,
    decreases rows.len(),
{
    if rows.len() > 0 {
        let front = rows.drop_last();
        assert forall|i: int|
            0 <= i < front.len() && runtime_pool::candidate(
                #[trigger] front[i],
            ) implies !runtime_pool::expired(front[i], now, settings.codex_warm_ttl_seconds) by {
            assert(front[i] == rows[i]);
        }
        assert(rows.last() == rows[rows.len() - 1]);
        law_nothing_goes_within_the_budget(front, settings, now);
    }
}

/// What was left unused for too long goes, however much room there is.
pub proof fn law_expired_runtimes_go(
    rows: Seq<RowView>,
    settings: AppSettings,
    now: u64,
    i: int,
)
    requires
        0 <= i < rows.len(),
        runtime_pool::candidate(rows[i]),
        runtime_pool::expired(rows[i], now, settings.codex_warm_ttl_seconds),
    ensures
        runtime_pool::evicted(rows, settings, now).contains(rows[i].workspace_id),
    decreases rows.len(),
{
    let all = runtime_pool::evicted(rows, settings, now);
    let front = rows.drop_last();
    let before = runtime_pool::evicted(front, settings, now);
    if i == rows.len() - 1 {
        assert(all[before.len() as int] == rows[i].workspace_id);
    } else {
        law_expired_runtimes_go(front, settings, now, i);
        let k = choose|k: int| 0 <= k < before.len() && before[k] == rows[i].workspace_id;
        assert(all[k] == rows[i].workspace_id);
    }
}

/// The rows that stay.
pub open spec fn staying(rows: Seq<RowView>, settings: AppSettings, now: u64) -> Seq<RowView>
    decreases rows.len(),
{
    if rows.len() == 0 {
        Seq::empty()
    } else {
        let before = staying(rows.drop_last(), settings, now);
        if runtime_pool::last_goes(rows, settings, now) {
            before
        } else {
            before.push(rows.last())
        }
    }
}

proof fn lemma_staying(rows: Seq<RowView>, settings: AppSettings, now: u64)
    ensures
        runtime_pool::how_many(
            staying(rows, settings, now),
            RowSort::Fresh { now, ttl_seconds: settings.codex_warm_ttl_seconds },
        ) == stay(rows, settings, now),
        forall|i: int|
            0 <= i < staying(rows, settings, now).len() && runtime_pool::candidate(
                #[trigger] staying(rows, settings, now)[i],
            ) ==> !runtime_pool::expired(
                staying(rows, settings, now)[i],
                now,
                settings.codex_warm_ttl_seconds,
            ),
    decreases rows.len(),
{
    let fresh = RowSort::Fresh { now, ttl_seconds: settings.codex_warm_ttl_seconds };
    let all = staying(rows, settings, now);
    if rows.len() > 0 {
        let before = staying(rows.drop_last(), settings, now);
        lemma_staying(rows.drop_last(), settings, now);
        if !runtime_pool::last_goes(rows, settings, now) {
            assert(all.drop_last() =~= before);
            assert(all.last() == rows.last());
        }
        assert forall|i: int|
            0 <= i < all.len() && runtime_pool::candidate(
                #[trigger] all[i],
            ) implies !runtime_pool::expired(all[i], now, settings.codex_warm_ttl_seconds) by {
            if i < before.len() {
                assert(all[i] == before[i]);
            }
        }
    }
}

/// Once the evicted runtimes are gone, a second look evicts nothing more.
pub proof fn law_second_look_evicts_nothing(
    rows: Seq<RowView>,
    settings: AppSettings,
    now: u64,
)
    ensures
        runtime_pool::evicted(staying(rows, settings, now), settings, now).len() == 0,
{
    lemma_staying(rows, settings, now);
    law_eviction_keeps_the_budget(rows, settings, now);
    law_nothing_goes_within_the_budget(staying(rows, settings, now), settings, now);
}

// ---------------------------------------------------------------------------
// The ledger
// ---------------------------------------------------------------------------

/// Every row that is written down has a process or an error, and none is
/// called hot.
pub proof fn law_ledger_rows_matter(entries: Seq<EntryView>)
    ensures
        forall|i: int|
            0 <= i < runtime_pool::ledger_rows(entries).len() ==> {
                let row = #[trigger] runtime_pool::ledger_rows(entries)[i];
                &&& row.pid is Some || row.error is Some
                &&& row.state != RuntimeState::Hot
                &&& row.error is Some ==> row.state == RuntimeState::Failed || row.state
                    == RuntimeState::ZombieSuspected
            },
    decreases entries.len(),
{
    if entries.len() > 0 {
        let before = runtime_pool::ledger_rows(entries.drop_last());
        let all = runtime_pool::ledger_rows(entries);
        law_ledger_rows_matter(entries.drop_last());
        assert forall|i: int| 0 <= i < all.len() implies {
            let row = #[trigger] all[i];
            &&& row.pid is Some || row.error is Some
            &&& row.state != RuntimeState::Hot
            &&& row.error is Some ==> row.state == RuntimeState::Failed || row.state
                == RuntimeState::ZombieSuspected
        } by {
            if i < before.len() {
                assert(all[i] == before[i]);
            }
        }
    }
}

/// Every process is written down.
pub proof fn law_every_process_is_written_down(entries: Seq<EntryView>, i: int)
    requires
        0 <= i < entries.len(),
        entries[i].pid is Some,
    ensures
        runtime_control::pids_of(runtime_pool::ledger_rows(entries)).contains(
            entries[i].pid.unwrap(),
        ),
    decreases entries.len(),
{
    let front = entries.drop_last();
    let before = runtime_pool::ledger_rows(front);
    let all = runtime_pool::ledger_rows(entries);
    let pids = runtime_control::pids_of(all);
    if i == entries.len() - 1 {
        assert(all.last().pid == entries[i].pid);
        assert(pids.last() == entries[i].pid.unwrap());
        assert(pids[pids.len() - 1] == entries[i].pid.unwrap());
    } else {
        law_every_process_is_written_down(front, i);
        let known = runtime_control::pids_of(before);
        let k = choose|k: int| 0 <= k < known.len() && known[k] == entries[i].pid.unwrap();
        if all.len() > before.len() {
            assert(all.drop_last() =~= before);
        }
        assert(pids[k] == entries[i].pid.unwrap());
    }
}

/// A sweep counts every process that was tried: those that could be ended and
/// those that could not. No more were killed than ended.
pub proof fn law_sweep_adds_up(
    d: RuntimePoolDiagnostics,
    rows: nat,
    outcomes: Seq<Result<bool, String>>,
    now: u64,
)
    requires
        runtime_control::sweep_fits(d, rows, outcomes),
    ensures
        ({
            let after = runtime_control::swept(d, rows, outcomes, now);
            let cleaned = after.orphan_entries_cleaned - d.orphan_entries_cleaned;
            let failed = after.orphan_entries_failed - d.orphan_entries_failed;
            let killed = after.force_kill_count - d.force_kill_count;
            &&& cleaned + failed == outcomes.len()
            &&& 0 <= killed <= cleaned
            &&& failed >= 0
            &&& after.last_orphan_sweep_at_ms == Some(now)
            &&& after.last_shutdown_at_ms == d.last_shutdown_at_ms
        }),
{
    lemma_outcomes(outcomes);
}

pub proof fn lemma_outcomes(outcomes: Seq<Result<bool, String>>)
    ensures
        runtime_control::forced(outcomes) <= runtime_control::ended(outcomes) <= outcomes.len(),
    decreases outcomes.len(),
{
    if outcomes.len() > 0 {
        lemma_outcomes(outcomes.drop_last());
    }
}

// ---------------------------------------------------------------------------
// Ending a process
// ---------------------------------------------------------------------------

/// The step that is reached after steps that went as given.
pub open spec fn reached(
    step: runtime_control::StepView,
    outcomes: Seq<runtime_control::OutcomeView>,
) -> runtime_control::StepView
    decreases outcomes.len(),
{
    if outcomes.len() == 0 {
        step
    } else {
        runtime_control::next_step(reached(step, outcomes.drop_last()), outcomes.last())
    }
}

/// Every step leaves fewer to be taken, so that four settle the matter.
pub proof fn law_termination_settles(
    step: runtime_control::StepView,
    outcomes: Seq<runtime_control::OutcomeView>,
)
    ensures
        runtime_control::settled(reached(step, outcomes)) || runtime_control::steps_left(
            reached(step, outcomes),
        ) + outcomes.len() <= runtime_control::steps_left(step),
        outcomes.len() >= 4 ==> runtime_control::settled(reached(step, outcomes)),
    decreases outcomes.len(),
{
    if outcomes.len() > 0 {
        law_termination_settles(step, outcomes.drop_last());
    }
}

/// A process counts as ended without force only when it ended by itself within
/// the time that it was given.
pub proof fn law_force_is_told(
    step: runtime_control::StepView,
    outcome: runtime_control::OutcomeView,
)
    requires
        !runtime_control::settled(step),
        runtime_control::next_step(step, outcome) == (runtime_control::StepView::Ended {
            forced: false,
        }),
    ensures
        step is WaitForExit,
        outcome is Worked,
{
}

} // verus!
