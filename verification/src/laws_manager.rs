//! What each record of a runtime changes and keeps, and each step on the way to
//! the end of a process.
use crate::clock;
use crate::laws_runtime;
use crate::runtime;
use crate::runtime::{
    EntryView, ManagerView, RowView, RuntimePoolDiagnostics, SessionInfoView, WorkspaceView,
};
use crate::runtime_control;
use crate::runtime_control::{MutationView, OutcomeView, StepView};
use crate::text;
use vstd::prelude::*;
use vstd::string::*;

verus! {

// ---------------------------------------------------------------------------
// The list of runtimes
// ---------------------------------------------------------------------------

/// The runtime of a workspace is the first that is its own. Recording it puts it
/// in that place, or at the end where there is none, and removing it takes it out
/// of that place.
pub proof fn law_place_of_a_runtime(entries: Seq<EntryView>, e: EntryView, i: int)
    requires
        0 <= i <= entries.len(),
        forall|j: int| 0 <= j < i ==> (#[trigger] entries[j]).workspace_id != e.workspace_id,
        i < entries.len() ==> entries[i].workspace_id == e.workspace_id,
    ensures
        i < entries.len() ==> {
            &&& runtime::has_entry(entries, e.workspace_id)
            &&& runtime::entry_of(entries, e.workspace_id) == Some(entries[i])
            &&& runtime::with_entry(entries, e) == entries.update(i, e)
            &&& runtime::without_entry(entries, e.workspace_id) == entries.remove(i)
        },
        i == entries.len() ==> {
            &&& !runtime::has_entry(entries, e.workspace_id)
            &&& runtime::entry_of(entries, e.workspace_id) is None
            &&& runtime::with_entry(entries, e) == entries.push(e)
            &&& runtime::without_entry(entries, e.workspace_id) == entries
        },
{
    runtime::lemma_position(entries, e.workspace_id);
    let p = runtime::position(entries, e.workspace_id);
    if p < i {
        assert(entries[p].workspace_id != e.workspace_id);
    }
    if i < p {
        assert(entries[i].workspace_id != e.workspace_id);
    }
}

/// A lease source that is listed changes nothing, and one that is not comes last.
pub proof fn law_leases_come_last(sources: Seq<Seq<char>>, source: Seq<char>)
    ensures
        sources.contains(source) ==> runtime::leased(sources, source) == sources,
        !sources.contains(source) ==> runtime::leased(sources, source) == sources.push(source),
{
}

/// Nothing is known of a runtime that was never used but its workspace, its
/// engine, its lease and the instant.
pub proof fn law_new_runtimes(w: WorkspaceView, engine: Seq<char>, lease: Seq<char>, now: u64)
    ensures
        ({
            let e = runtime::new_entry(w, engine, lease, now);
            &&& e.workspace_id == w.id
            &&& e.workspace_name == w.name
            &&& e.workspace_path == w.path
            &&& e.engine == engine
            &&& e.pid is None
            &&& e.wrapper_kind is None
            &&& e.resolved_bin is None
            &&& e.started_at_ms is None
            &&& e.last_used_at_ms == now
            &&& !e.pinned && !e.busy && !e.session_exists && !e.zombie_suspected
            &&& e.lease_sources.len() == 1 && e.lease_sources[0] == lease
            &&& e.error is None
        }),
{
}

// ---------------------------------------------------------------------------
// Records
// ---------------------------------------------------------------------------

/// Everything but the runtime of one workspace is as before: the other runtimes
/// in their places, the counts and whether there is a shutdown. A runtime that is
/// new comes last.
pub open spec fn others_stay(m: ManagerView, a: ManagerView, id: Seq<char>) -> bool {
    &&& a.diagnostics == m.diagnostics
    &&& a.shutting_down == m.shutting_down
    &&& runtime::has_entry(m.entries, id) ==> a.entries.len() == m.entries.len()
    &&& !runtime::has_entry(m.entries, id) ==> a.entries.len() == m.entries.len() + 1
    &&& forall|i: int|
        0 <= i < m.entries.len() && m.entries[i].workspace_id != id ==> #[trigger] a.entries[i]
            == m.entries[i]
}

/// The fields that say what process a runtime has are as before.
pub open spec fn same_process(a: EntryView, b: EntryView) -> bool {
    &&& a.pid == b.pid
    &&& a.wrapper_kind == b.wrapper_kind
    &&& a.resolved_bin == b.resolved_bin
    &&& a.started_at_ms == b.started_at_ms
}

/// The fields that say what a runtime is for are as before.
pub open spec fn same_workspace(a: EntryView, b: EntryView) -> bool {
    &&& a.workspace_id == b.workspace_id
    &&& a.workspace_name == b.workspace_name
    &&& a.workspace_path == b.workspace_path
    &&& a.engine == b.engine
}

proof fn lemma_recorded(m: ManagerView, e: EntryView)
    requires
        runtime::one_each(m.entries),
    ensures
        others_stay(
            m,
            m.with_entries(runtime::with_entry(m.entries, e)),
            e.workspace_id,
        ),
        runtime::entry_of(runtime::with_entry(m.entries, e), e.workspace_id) == Some(e),
{
    runtime::lemma_position(m.entries, e.workspace_id);
    laws_runtime::law_record_is_found(m.entries, e, e.workspace_id);
}

/// A runtime that is being started: its workspace and engine are those given, it
/// is used now, has no session, is neither busy nor suspected, and has the lease.
/// The process that it had, its error and its pin stay on record.
pub proof fn law_starting(
    m: ManagerView,
    w: WorkspaceView,
    engine: Seq<char>,
    lease: Seq<char>,
    now: u64,
)
    requires
        runtime::one_each(m.entries),
    ensures
        ({
            let a = m.starting(w, engine, lease, now);
            &&& others_stay(m, a, w.id)
            &&& runtime::entry_of(a.entries, w.id) matches Some(e) && {
                &&& e.workspace_id == w.id
                &&& e.workspace_name == w.name
                &&& e.workspace_path == w.path
                &&& e.engine == engine
                &&& e.last_used_at_ms == now
                &&& !e.session_exists && !e.busy && !e.zombie_suspected
                &&& match runtime::entry_of(m.entries, w.id) {
                    Some(b) => same_process(e, b) && e.pinned == b.pinned && e.error == b.error
                        && e.lease_sources == runtime::leased(b.lease_sources, lease),
                    None => e.pid is None && e.started_at_ms is None && e.wrapper_kind is None
                        && e.resolved_bin is None && !e.pinned && e.error is None
                        && e.lease_sources == seq![lease],
                }
            }
        }),
{
    let b = runtime::entry_or_new(m.entries, w, engine, lease, now);
    runtime::lemma_position(m.entries, w.id);
    assert(seq![lease][0] == lease);
    let e = EntryView {
        workspace_name: w.name,
        workspace_path: w.path,
        engine,
        last_used_at_ms: now,
        session_exists: false,
        busy: false,
        zombie_suspected: false,
        lease_sources: runtime::leased(b.lease_sources, lease),
        ..b
    };
    lemma_recorded(m, e);
}

/// A runtime that is ready: it is one of codex, has the process, the wrapper and
/// the program of the session, was started at the instant on record or else at
/// the one given, is used now, has a session and no error, is neither busy nor
/// suspected, and has the lease. Its pin stays.
pub proof fn law_ready(
    m: ManagerView,
    s: SessionInfoView,
    lease: Seq<char>,
    started: u64,
    now: u64,
)
    requires
        runtime::one_each(m.entries),
    ensures
        ({
            let a = m.ready(s, lease, started, now);
            &&& others_stay(m, a, s.entry.id)
            &&& runtime::entry_of(a.entries, s.entry.id) matches Some(e) && {
                &&& e.workspace_id == s.entry.id
                &&& e.workspace_name == s.entry.name
                &&& e.workspace_path == s.entry.path
                &&& e.engine == "codex"@
                &&& e.pid == s.pid
                &&& e.wrapper_kind == Some(s.wrapper_kind)
                &&& e.resolved_bin == Some(s.resolved_bin)
                &&& e.last_used_at_ms == now
                &&& e.error is None
                &&& e.session_exists && !e.busy && !e.zombie_suspected
                &&& match runtime::entry_of(m.entries, s.entry.id) {
                    Some(b) => {
                        &&& b.started_at_ms is Some ==> e.started_at_ms == b.started_at_ms
                        &&& b.started_at_ms is None ==> e.started_at_ms == Some(started)
                        &&& e.pinned == b.pinned
                        &&& e.lease_sources == runtime::leased(b.lease_sources, lease)
                    },
                    None => e.started_at_ms == Some(started) && !e.pinned && e.lease_sources
                        == seq![lease],
                }
            }
        }),
{
    let b = runtime::entry_or_new(m.entries, s.entry, "codex"@, lease, now);
    runtime::lemma_position(m.entries, s.entry.id);
    assert(seq![lease][0] == lease);
    let e = EntryView {
        workspace_name: s.entry.name,
        workspace_path: s.entry.path,
        engine: "codex"@,
        pid: s.pid,
        wrapper_kind: Some(s.wrapper_kind),
        resolved_bin: Some(s.resolved_bin),
        started_at_ms: match b.started_at_ms {
            Some(ms) => Some(ms),
            None => Some(started),
        },
        last_used_at_ms: now,
        error: None,
        busy: false,
        session_exists: true,
        zombie_suspected: false,
        lease_sources: runtime::leased(b.lease_sources, lease),
        ..b
    };
    lemma_recorded(m, e);
}

/// A runtime that is used: it is busy or not as given, is used now, has a session
/// and the lease. Everything else of it stays.
pub proof fn law_touching(
    m: ManagerView,
    id: Seq<char>,
    lease: Seq<char>,
    busy: bool,
    now: u64,
    b: EntryView,
)
    requires
        runtime::one_each(m.entries),
        runtime::entry_of(m.entries, id) == Some(b),
    ensures
        ({
            let a = m.touched(id, lease, busy, now);
            &&& others_stay(m, a, id)
            &&& runtime::entry_of(a.entries, id) matches Some(e) && {
                &&& same_workspace(e, b) && same_process(e, b)
                &&& e.last_used_at_ms == now
                &&& e.busy == busy
                &&& e.session_exists
                &&& e.lease_sources == runtime::leased(b.lease_sources, lease)
                &&& e.pinned == b.pinned
                &&& e.error == b.error
                &&& e.zombie_suspected == b.zombie_suspected
            }
        }),
{
    runtime::lemma_position(m.entries, id);
    let e = EntryView {
        last_used_at_ms: now,
        busy,
        session_exists: true,
        lease_sources: runtime::leased(b.lease_sources, lease),
        ..b
    };
    lemma_recorded(m, e);
}

/// A runtime that is pinned, or no longer so, is used now. Everything else of it
/// stays.
pub proof fn law_pinning(m: ManagerView, id: Seq<char>, pinned: bool, now: u64, b: EntryView)
    requires
        runtime::one_each(m.entries),
        runtime::entry_of(m.entries, id) == Some(b),
    ensures
        others_stay(m, m.with_pin(id, pinned, now), id),
        runtime::entry_of(m.with_pin(id, pinned, now).entries, id) matches Some(e) && {
            &&& same_workspace(e, b) && same_process(e, b)
            &&& e.pinned == pinned
            &&& e.last_used_at_ms == now
            &&& e.busy == b.busy
            &&& e.session_exists == b.session_exists
            &&& e.lease_sources == b.lease_sources
            &&& e.error == b.error
            &&& e.zombie_suspected == b.zombie_suspected
        },
{
    runtime::lemma_position(m.entries, id);
    lemma_recorded(m, EntryView { pinned, last_used_at_ms: now, ..b });
}

/// A runtime that failed has the error, is used now, has no session and is neither
/// busy nor suspected. Everything else of it stays, and one that was not there is
/// new.
pub proof fn law_failing(
    m: ManagerView,
    w: WorkspaceView,
    engine: Seq<char>,
    lease: Seq<char>,
    error: Seq<char>,
    now: u64,
)
    requires
        runtime::one_each(m.entries),
    ensures
        ({
            let a = m.failing(w, engine, lease, error, now);
            &&& others_stay(m, a, w.id)
            &&& runtime::entry_of(a.entries, w.id) matches Some(e) && {
                &&& e.error == Some(error)
                &&& e.last_used_at_ms == now
                &&& !e.session_exists && !e.busy && !e.zombie_suspected
                &&& match runtime::entry_of(m.entries, w.id) {
                    Some(b) => same_workspace(e, b) && same_process(e, b) && e.pinned == b.pinned
                        && e.lease_sources == b.lease_sources,
                    None => e.workspace_id == w.id && e.workspace_name == w.name
                        && e.workspace_path == w.path && e.engine == engine && e.pid is None
                        && e.started_at_ms is None && e.wrapper_kind is None && e.resolved_bin
                        is None && !e.pinned && e.lease_sources == seq![lease],
                }
            }
        }),
{
    let b = runtime::entry_or_new(m.entries, w, engine, lease, now);
    runtime::lemma_position(m.entries, w.id);
    let e = EntryView {
        error: Some(error),
        last_used_at_ms: now,
        busy: false,
        session_exists: false,
        zombie_suspected: false,
        ..b
    };
    lemma_recorded(m, e);
}

/// A runtime that is being stopped is not busy and has no session. Everything else
/// of it stays.
pub proof fn law_stopping(m: ManagerView, id: Seq<char>, b: EntryView)
    requires
        runtime::one_each(m.entries),
        runtime::entry_of(m.entries, id) == Some(b),
    ensures
        others_stay(m, m.stopping(id), id),
        runtime::entry_of(m.stopping(id).entries, id) matches Some(e) && {
            &&& same_workspace(e, b) && same_process(e, b)
            &&& !e.busy
            &&& !e.session_exists
            &&& e.last_used_at_ms == b.last_used_at_ms
            &&& e.pinned == b.pinned
            &&& e.lease_sources == b.lease_sources
            &&& e.error == b.error
            &&& e.zombie_suspected == b.zombie_suspected
        },
{
    runtime::lemma_position(m.entries, id);
    lemma_recorded(m, EntryView { busy: false, session_exists: false, ..b });
}

/// Removing a runtime leaves the counts and the shutdown alone.
pub proof fn law_removing(m: ManagerView, id: Seq<char>)
    ensures
        m.removed(id).entries == runtime::without_entry(m.entries, id),
        m.removed(id).diagnostics == m.diagnostics,
        m.removed(id).shutting_down == m.shutting_down,
{
}

/// A kill is counted, and nothing else changes.
pub proof fn law_killing(m: ManagerView)
    requires
        m.diagnostics.force_kill_count < 0xffff_ffff,
    ensures
        m.killed().diagnostics.force_kill_count == m.diagnostics.force_kill_count + 1,
        m.killed().diagnostics == (RuntimePoolDiagnostics {
            force_kill_count: m.killed().diagnostics.force_kill_count,
            ..m.diagnostics
        }),
        m.killed().entries == m.entries,
        m.killed().shutting_down == m.shutting_down,
{
}

/// The instant of a shutdown is noted, and nothing else changes.
pub proof fn law_shutting(m: ManagerView, now: u64)
    ensures
        m.shut(now).diagnostics == (RuntimePoolDiagnostics {
            last_shutdown_at_ms: Some(now),
            ..m.diagnostics
        }),
        m.shut(now).entries == m.entries,
        m.shut(now).shutting_down == m.shutting_down,
{
}

/// A runtime whose process was terminated is removed, and a kill is counted
/// exactly if there was one.
pub proof fn law_terminating(m: ManagerView, id: Seq<char>)
    ensures
        m.terminated(id, true).entries == runtime::without_entry(m.entries, id),
        m.terminated(id, true).diagnostics == m.killed().diagnostics,
        m.terminated(id, true).shutting_down == m.shutting_down,
        m.terminated(id, false).entries == runtime::without_entry(m.entries, id),
        m.terminated(id, false).diagnostics == m.diagnostics,
        m.terminated(id, false).shutting_down == m.shutting_down,
{
}

/// At first nothing has happened.
pub proof fn law_counts_start_at_zero()
    ensures
        ({
            let d = RuntimePoolDiagnostics::none();
            &&& d.orphan_entries_found == 0
            &&& d.orphan_entries_cleaned == 0
            &&& d.orphan_entries_failed == 0
            &&& d.force_kill_count == 0
            &&& d.last_orphan_sweep_at_ms is None
            &&& d.last_shutdown_at_ms is None
        }),
{
}

// ---------------------------------------------------------------------------
// Sweeping up
// ---------------------------------------------------------------------------

/// The processes of rows come in the order of the rows, one for each row that has
/// one.
pub proof fn law_processes_of_rows(rows: Seq<RowView>, row: RowView)
    ensures
        runtime_control::pids_of(Seq::empty()).len() == 0,
        row.pid matches Some(pid) ==> runtime_control::pids_of(rows.push(row))
            == runtime_control::pids_of(rows).push(pid),
        row.pid is None ==> runtime_control::pids_of(rows.push(row)) == runtime_control::pids_of(
            rows,
        ),
{
    assert(rows.push(row).drop_last() =~= rows);
}

/// A process that could be ended counts as such, and one that had to be killed for
/// it also as such; one that could not counts as neither.
pub proof fn law_outcomes_are_counted(
    outcomes: Seq<Result<bool, String>>,
    by_force: bool,
    error: String,
)
    ensures
        runtime_control::ended(Seq::empty()) == 0,
        runtime_control::forced(Seq::empty()) == 0,
        runtime_control::ended(outcomes.push(Ok(by_force))) == runtime_control::ended(outcomes) + 1,
        runtime_control::ended(outcomes.push(Err(error))) == runtime_control::ended(outcomes),
        runtime_control::forced(outcomes.push(Ok(true))) == runtime_control::forced(outcomes) + 1,
        runtime_control::forced(outcomes.push(Ok(false))) == runtime_control::forced(outcomes),
        runtime_control::forced(outcomes.push(Err(error))) == runtime_control::forced(outcomes),
{
    assert(outcomes.push(Ok(by_force)).drop_last() =~= outcomes);
    assert(outcomes.push(Ok(true)).drop_last() =~= outcomes);
    assert(outcomes.push(Ok(false)).drop_last() =~= outcomes);
    assert(outcomes.push(Err(error)).drop_last() =~= outcomes);
}

/// A sweep adds to the counts the rows that were found, the processes that could
/// be ended, those that could not and those that were killed, and notes its
/// instant. Of the number of rows the lower 32 bits count. A sweep can be counted
/// exactly if each of the sums fits in 32 bits.
pub proof fn law_counts_of_a_sweep(
    d: RuntimePoolDiagnostics,
    rows: nat,
    outcomes: Seq<Result<bool, String>>,
    now: u64,
)
    ensures
        ({
            let after = runtime_control::swept(d, rows, outcomes, now);
            let found = rows % 0x1_0000_0000;
            let ended = runtime_control::ended(outcomes);
            let forced = runtime_control::forced(outcomes);
            let fits = {
                &&& d.orphan_entries_found + found <= 0xffff_ffff
                &&& d.orphan_entries_cleaned + ended <= 0xffff_ffff
                &&& d.orphan_entries_failed + outcomes.len() - ended <= 0xffff_ffff
                &&& d.force_kill_count + forced <= 0xffff_ffff
            };
            &&& runtime_control::sweep_fits(d, rows, outcomes) <==> fits
            &&& fits ==> {
                &&& after.orphan_entries_found == d.orphan_entries_found + found
                &&& after.orphan_entries_cleaned == d.orphan_entries_cleaned + ended
                &&& after.orphan_entries_failed == d.orphan_entries_failed + outcomes.len() - ended
                &&& after.force_kill_count == d.force_kill_count + forced
            }
            &&& after.last_orphan_sweep_at_ms == Some(now)
            &&& after.last_shutdown_at_ms == d.last_shutdown_at_ms
        }),
{
    laws_runtime::lemma_outcomes(outcomes);
}

// ---------------------------------------------------------------------------
// Commands
// ---------------------------------------------------------------------------

/// Closing a runtime and releasing it stop its session and leave the pool alone;
/// pinning stops nothing and pins.
pub proof fn law_commands(m: ManagerView, id: Seq<char>, pinned: bool, now: u64)
    ensures
        runtime_control::stopped_by(MutationView::Close { workspace_id: id }) == Some(id),
        runtime_control::stopped_by(MutationView::ReleaseToCold { workspace_id: id }) == Some(id),
        runtime_control::stopped_by(MutationView::Pin { workspace_id: id, pinned }) is None,
        runtime_control::mutated(m, MutationView::Close { workspace_id: id }, now) == m,
        runtime_control::mutated(m, MutationView::ReleaseToCold { workspace_id: id }, now) == m,
        runtime_control::mutated(m, MutationView::Pin { workspace_id: id, pinned }, now)
            == m.with_pin(id, pinned, now),
{
}

/// A workspace is run by codex if it names no engine or names codex, whatever the
/// case of the letters.
pub proof fn law_engines(engine: Seq<char>)
    ensures
        runtime_control::run_by_codex(None),
        runtime_control::run_by_codex(Some(engine)) <==> text::lowered(engine) == "codex"@,
{
    reveal_strlit("codex");
    assert(text::lowered("codex"@) =~= "codex"@);
}

// ---------------------------------------------------------------------------
// Ending a process
// ---------------------------------------------------------------------------

/// A process without an id is killed itself; with one, its tree is killed in the
/// Windows way, and its group is asked to end otherwise.
pub proof fn law_first_steps(pid: u32)
    ensures
        runtime_control::first_step(None, true) is KillChild,
        runtime_control::first_step(None, false) is KillChild,
        runtime_control::first_step(Some(pid), true) == (StepView::KillTree { pid }),
        runtime_control::first_step(Some(pid), false) == (StepView::AskGroup { pid }),
{
}

/// A step that worked: a group that was asked is waited for, a process that ended
/// in that time ended without force, and one that was killed ended by force.
pub proof fn law_steps_that_work(pid: u32)
    ensures
        runtime_control::next_step(StepView::AskGroup { pid }, OutcomeView::Worked) == (
        StepView::WaitForExit { pid }),
        runtime_control::next_step(StepView::WaitForExit { pid }, OutcomeView::Worked) == (
        StepView::Ended { forced: false }),
        runtime_control::next_step(StepView::KillGroup { pid }, OutcomeView::Worked) == (
        StepView::Ended { forced: true }),
        runtime_control::next_step(StepView::KillTree { pid }, OutcomeView::Worked) == (
        StepView::Ended { forced: true }),
        runtime_control::next_step(StepView::KillChild, OutcomeView::Worked) == (StepView::Ended {
            forced: true,
        }),
{
}

/// A step that did not work: a group that could not be asked, or did not end, is
/// killed; where that fails, the process itself is. A tree that was not killed
/// leaves the process itself to be killed, and that is the last that is tried.
pub proof fn law_steps_that_do_not_work(pid: u32, outcome: OutcomeView)
    requires
        !(outcome is Worked),
    ensures
        runtime_control::next_step(StepView::AskGroup { pid }, outcome) == (StepView::KillGroup {
            pid,
        }),
        runtime_control::next_step(StepView::WaitForExit { pid }, outcome) == (
        StepView::KillGroup { pid }),
        runtime_control::next_step(StepView::KillGroup { pid }, outcome) is KillChild,
        outcome is Refused ==> runtime_control::next_step(StepView::KillTree { pid }, outcome)
            is KillChild,
        outcome is Refused ==> runtime_control::next_step(StepView::KillChild, outcome) == (
        StepView::Ended { forced: true }),
        outcome matches OutcomeView::Broke { error } ==> runtime_control::next_step(
            StepView::KillTree { pid },
            outcome,
        ) == (StepView::GiveUp {
            error: "taskkill failed for pid "@ + text::digits(pid as nat) + ": "@ + error,
        }),
        outcome matches OutcomeView::Broke { error } ==> runtime_control::next_step(
            StepView::KillChild,
            outcome,
        ) == (StepView::GiveUp { error: "Failed to kill process: "@ + error }),
{
}

/// What is settled stays so.
pub proof fn law_settled_steps_stay(forced: bool, error: Seq<char>, outcome: OutcomeView)
    ensures
        runtime_control::next_step(StepView::Ended { forced }, outcome) == (StepView::Ended {
            forced,
        }),
        runtime_control::next_step(StepView::GiveUp { error }, outcome) == (StepView::GiveUp {
            error,
        }),
{
}

// ---------------------------------------------------------------------------
// Time and names
// ---------------------------------------------------------------------------

/// The time of day is the lower 64 bits of the milliseconds since the epoch, and
/// zero where the clock stands before it.
pub proof fn law_time_of_day(d: std::time::Duration)
    ensures
        clock::clock_millis(None) == 0,
        clock::clock_millis(Some(d)) == clock::duration_millis(d) % 0x1_0000_0000_0000_0000,
{
}

/// A runtime is hot for thirty seconds, and a process that was asked to end has
/// 150 milliseconds for it.
pub proof fn law_spans_of_time()
    ensures
        runtime::HOT_IDLE_SECONDS == 30,
        runtime_control::TERMINATE_GRACE_MILLIS == 150,
        runtime_control::LEDGER_FILE_NAME@ == "runtime-pool-ledger.json"@,
{
}

/// An identifier has 36 characters: hyphens in four places, the version and the
/// variant in theirs, and lower-case hexadecimal digits everywhere else. Every
/// such text is one.
pub proof fn law_identifiers(s: Seq<char>)
    ensures
        runtime_control::uuid_form(s) <==> {
            &&& s.len() == 36
            &&& s[8] == '-' && s[13] == '-' && s[18] == '-' && s[23] == '-'
            &&& s[14] == '4'
            &&& s[19] == '8' || s[19] == '9' || s[19] == 'a' || s[19] == 'b'
            &&& forall|i: int|
                0 <= i < 36 && i != 8 && i != 13 && i != 18 && i != 23 ==> '0' <= #[trigger] s[i]
                    <= '9' || 'a' <= s[i] <= 'f'
        },
{
}

} // verus!
