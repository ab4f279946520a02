use codemoss::clock::{millis_or_zero, now_millis};
use codemoss::runtime::{
    AppSettings, PersistedRuntimeLedger, RuntimeEntry, RuntimeManager, RuntimePoolDiagnostics,
    RuntimePoolRow, RuntimeState, WorkspaceEntry, WorkspaceSessionInfo, WorkspaceSettings,
};
use codemoss::runtime_control::{
    first_termination_step, fresh_temp_extension, group_kill_outcome, has_room_for_sweep,
    needs_codex_session, next_termination_step, orphan_pids, temp_extension, RuntimePoolMutation,
    StepOutcome, TerminationStep,
};
use codemoss::runtime_pool::{idle_evictions, summary_of};

fn workspace_entry(id: &str) -> WorkspaceEntry {
    let mut settings = WorkspaceSettings::default();
    settings.engine_type = Some("codex".to_string());
    WorkspaceEntry {
        id: id.to_string(),
        name: format!("Workspace {id}"),
        path: format!("/tmp/{id}"),
        settings,
    }
}

fn session(id: &str, pid: Option<u32>) -> WorkspaceSessionInfo {
    WorkspaceSessionInfo {
        entry: workspace_entry(id),
        pid,
        wrapper_kind: "direct".to_string(),
        resolved_bin: "/bin/codex".to_string(),
    }
}

fn app_settings(hot: u8, warm: u8, ttl: u16) -> AppSettings {
    AppSettings {
        codex_max_hot_runtimes: hot,
        codex_max_warm_runtimes: warm,
        codex_warm_ttl_seconds: ttl,
        runtime_restore_threads_only_on_launch: true,
        runtime_force_cleanup_on_exit: false,
        runtime_orphan_sweep_on_launch: true,
    }
}

fn row(id: &str, state: RuntimeState, last_used_at_ms: u64) -> RuntimePoolRow {
    RuntimePoolRow {
        workspace_id: id.to_string(),
        workspace_name: String::new(),
        workspace_path: String::new(),
        engine: "codex".to_string(),
        state,
        pid: None,
        wrapper_kind: None,
        resolved_bin: None,
        started_at_ms: None,
        last_used_at_ms,
        pinned: false,
        lease_sources: Vec::new(),
        error: None,
    }
}

fn ids(rows: &[RuntimePoolRow]) -> Vec<&str> {
    rows.iter().map(|row| row.workspace_id.as_str()).collect()
}

fn states(rows: &[RuntimePoolRow]) -> Vec<RuntimeState> {
    rows.iter().map(|row| row.state).collect()
}

#[test]
fn snapshot_applies_hot_and_warm_budget() {
    let mut manager = RuntimeManager::new();
    let entry_a = workspace_entry("a");
    let entry_b = workspace_entry("b");
    let entry_c = workspace_entry("c");
    manager.record_starting(&entry_a, "codex", "test");
    manager.record_starting(&entry_b, "codex", "test");
    manager.record_starting(&entry_c, "codex", "test");
    let now = now_millis();
    for (offset, key) in ["a", "b", "c"].iter().enumerate() {
        let last_used = now.saturating_sub((offset as u64) * 45_000);
        manager.record_ready_at(&session(key, None), "test", now, last_used);
    }
    let settings = app_settings(1, 1, 300);
    let snapshot = manager.snapshot(&settings);
    assert_eq!(snapshot.rows.len(), 3);
    assert!(matches!(snapshot.rows[0].state, RuntimeState::Hot));
    assert!(matches!(snapshot.rows[1].state, RuntimeState::Warm));
}

#[test]
fn runtime_entry_from_workspace_sets_initial_lease_source() {
    let entry = RuntimeEntry::from_workspace(&workspace_entry("abc"), "codex", "connect");
    assert_eq!(entry.lease_sources, vec!["connect".to_string()]);
    assert_eq!(entry.engine, "codex");
}

#[test]
fn clock_counts_milliseconds() {
    assert_eq!(millis_or_zero(None), 0);
    assert_eq!(millis_or_zero(Some(5)), 5);
    assert_eq!(millis_or_zero(Some((1u128 << 64) + 7)), 7);
    assert!(now_millis() > 1_600_000_000_000);
    assert!(RuntimeEntry::from_workspace(&workspace_entry("a"), "x", "y").last_used_at_ms > 0);
}

#[test]
fn new_entry_holds_the_workspace() {
    let entry = RuntimeEntry::from_workspace_at(&workspace_entry("a"), "codex", "l", 9);
    assert_eq!(entry.workspace_id, "a");
    assert_eq!(entry.workspace_name, "Workspace a");
    assert_eq!(entry.workspace_path, "/tmp/a");
    assert_eq!(entry.last_used_at_ms, 9);
    assert_eq!(entry.pid, None);
    assert!(!entry.session_exists && !entry.busy && !entry.pinned && !entry.zombie_suspected);
}

#[test]
fn recording_keeps_one_runtime_per_workspace() {
    let mut manager = RuntimeManager::new();
    manager.record_starting_at(&workspace_entry("a"), "codex", "x", 1);
    manager.record_starting_at(&workspace_entry("b"), "other", "x", 2);
    let mut renamed = workspace_entry("a");
    renamed.name = "new".to_string();
    manager.record_starting_at(&renamed, "codex", "y", 3);
    manager.record_starting_at(&renamed, "codex", "x", 4);
    assert_eq!(manager.entries().len(), 2);
    let a = &manager.entries()[0];
    assert_eq!(a.workspace_name, "new");
    assert_eq!(a.lease_sources, vec!["x".to_string(), "y".to_string()]);
    assert_eq!(a.last_used_at_ms, 4);
    assert_eq!(manager.entries()[1].engine, "other");
}

#[test]
fn ready_clears_a_failure_and_keeps_the_first_start() {
    let mut manager = RuntimeManager::new();
    manager.record_failure_at(&workspace_entry("a"), "codex", "x", "boom".to_string(), 5);
    assert_eq!(manager.entries()[0].error.as_deref(), Some("boom"));
    assert_eq!(states(&manager.snapshot_rows_at(&app_settings(1, 1, 60), 6)), vec![
        RuntimeState::Failed
    ]);
    manager.record_ready_at(&session("a", Some(7)), "y", 10, 11);
    let entry = &manager.entries()[0];
    assert_eq!(entry.error, None);
    assert_eq!(entry.pid, Some(7));
    assert_eq!(entry.wrapper_kind.as_deref(), Some("direct"));
    assert_eq!(entry.resolved_bin.as_deref(), Some("/bin/codex"));
    assert_eq!(entry.started_at_ms, Some(10));
    assert!(entry.session_exists);
    assert_eq!(entry.lease_sources, vec!["x".to_string(), "y".to_string()]);
    manager.record_ready_at(&session("a", None), "y", 20, 21);
    assert_eq!(manager.entries()[0].started_at_ms, Some(10));
    assert_eq!(manager.entries()[0].pid, None);
    manager.record_failure(&workspace_entry("a"), "ignored", "ignored", "again".to_string());
    assert_eq!(manager.entries()[0].engine, "codex");
    assert_eq!(manager.entries()[0].lease_sources.len(), 2);
    manager.record_ready(&session("a", Some(1)), "z");
    assert_eq!(manager.entries()[0].started_at_ms, Some(10));
}

#[test]
fn touching_pinning_and_stopping() {
    let mut manager = RuntimeManager::new();
    manager.touch_at("none", "x", true, 1);
    manager.pin_runtime("none", true);
    manager.record_stopping("none");
    manager.record_removed("none");
    assert!(manager.entries().is_empty());
    manager.record_starting_at(&workspace_entry("a"), "codex", "x", 1);
    manager.touch_at("a", "y", true, 2);
    assert!(manager.entries()[0].busy && manager.entries()[0].session_exists);
    assert_eq!(manager.entries()[0].last_used_at_ms, 2);
    manager.pin_runtime_at("a", true, 3);
    assert!(manager.entries()[0].pinned);
    assert_eq!(manager.entries()[0].last_used_at_ms, 3);
    manager.record_stopping("a");
    assert!(!manager.entries()[0].busy && !manager.entries()[0].session_exists);
    manager.touch("a", "x", false);
    assert!(manager.entries()[0].last_used_at_ms > 3);
    manager.record_removed("a");
    assert!(manager.entries().is_empty());
}

#[test]
fn shutdown_is_noted() {
    let mut manager = RuntimeManager::new();
    assert!(!manager.is_shutting_down());
    manager.begin_shutdown();
    assert!(manager.is_shutting_down());
    manager.record_starting(&workspace_entry("a"), "codex", "x");
    assert!(manager.is_shutting_down());
    manager.note_shutdown_at(77);
    assert_eq!(manager.diagnostics().last_shutdown_at_ms, Some(77));
    manager.note_shutdown();
    assert!(manager.diagnostics().last_shutdown_at_ms > Some(77));
}

#[test]
fn terminated_runtime_is_gone_and_a_kill_is_counted() {
    let mut manager = RuntimeManager::new();
    manager.record_starting_at(&workspace_entry("a"), "codex", "x", 1);
    manager.record_starting_at(&workspace_entry("b"), "codex", "x", 1);
    manager.session_terminated("a", false);
    assert_eq!(manager.diagnostics().force_kill_count, 0);
    manager.session_terminated("b", true);
    assert_eq!(manager.diagnostics().force_kill_count, 1);
    assert!(manager.entries().is_empty());
    manager.note_force_kill();
    assert_eq!(manager.diagnostics().force_kill_count, 2);
    manager.set_diagnostics(RuntimePoolDiagnostics::default());
    assert_eq!(manager.diagnostics(), RuntimePoolDiagnostics::default());
}

#[test]
fn snapshot_shows_the_last_used_first() {
    let mut manager = RuntimeManager::new();
    for (id, last_used) in [("a", 10u64), ("b", 30), ("c", 30), ("d", 50), ("e", 20)] {
        manager.record_starting_at(&workspace_entry(id), "codex", "x", last_used);
    }
    manager.pin_runtime_at("d", true, 50);
    manager.touch_at("e", "x", true, 20);
    manager.record_starting_at(&workspace_entry("g"), "gemini", "x", 5);
    let now = 30_010;
    let snapshot = manager.snapshot_at(&app_settings(1, 1, 60), now);
    assert_eq!(ids(&snapshot.rows), vec!["d", "b", "c", "e", "a", "g"]);
    assert_eq!(
        states(&snapshot.rows),
        vec![
            RuntimeState::Hot,
            RuntimeState::Hot,
            RuntimeState::Warm,
            RuntimeState::Busy,
            RuntimeState::Warm,
            RuntimeState::Warm,
        ]
    );
    assert_eq!(snapshot.summary.total_runtimes, 6);
    assert_eq!(snapshot.summary.hot_runtimes, 2);
    assert_eq!(snapshot.summary.warm_runtimes, 3);
    assert_eq!(snapshot.summary.busy_runtimes, 1);
    assert_eq!(snapshot.summary.pinned_runtimes, 1);
    assert_eq!(snapshot.summary.codex_runtimes, 5);
    assert_eq!(snapshot.budgets.max_hot_codex, 1);
    assert_eq!(snapshot.budgets.max_warm_codex, 1);
    assert_eq!(snapshot.budgets.warm_ttl_seconds, 60);
    assert!(snapshot.budgets.restore_threads_only_on_launch);
    assert!(!snapshot.budgets.force_cleanup_on_exit);
    assert!(snapshot.budgets.orphan_sweep_on_launch);
    assert_eq!(snapshot.diagnostics, RuntimePoolDiagnostics::default());
    assert_eq!(summary_of(&snapshot.rows), snapshot.summary);
}

#[test]
fn hot_ends_after_thirty_seconds() {
    let mut manager = RuntimeManager::new();
    manager.record_starting_at(&workspace_entry("g"), "gemini", "x", 1_000);
    let settings = app_settings(0, 0, 60);
    assert_eq!(states(&manager.snapshot_rows_at(&settings, 31_000)), vec![RuntimeState::Hot]);
    assert_eq!(states(&manager.snapshot_rows_at(&settings, 31_001)), vec![RuntimeState::Warm]);
    assert_eq!(states(&manager.snapshot_rows_at(&settings, 0)), vec![RuntimeState::Hot]);
}

#[test]
fn idle_runtimes_over_the_budget_are_evicted() {
    let settings = app_settings(1, 1, 10);
    let mut pinned = row("p", RuntimeState::Warm, 0);
    pinned.pinned = true;
    let mut other = row("o", RuntimeState::Warm, 0);
    other.engine = "gemini".to_string();
    let rows = vec![
        row("a", RuntimeState::Hot, 9_000),
        row("b", RuntimeState::Busy, 8_000),
        row("c", RuntimeState::Failed, 7_000),
        row("d", RuntimeState::Warm, 6_000),
        pinned,
        other,
        row("e", RuntimeState::Warm, 100),
    ];
    assert_eq!(idle_evictions(&rows, &settings, 10_000), vec!["d".to_string(), "e".to_string()]);
    assert_eq!(
        idle_evictions(&rows, &settings, 17_001),
        vec!["c".to_string(), "d".to_string(), "e".to_string()]
    );
    let kept = vec![row("a", RuntimeState::Hot, 9_000), row("c", RuntimeState::Failed, 7_000)];
    assert!(idle_evictions(&kept, &settings, 10_000).is_empty());
    assert!(idle_evictions(&kept, &settings, 17_000).is_empty());
    assert_eq!(idle_evictions(&kept, &app_settings(0, 0, 10), 10_000).len(), 2);
}

#[test]
fn reconciling_names_the_workspaces_to_stop() {
    let mut manager = RuntimeManager::new();
    manager.record_starting_at(&workspace_entry("a"), "codex", "x", 100);
    manager.record_starting_at(&workspace_entry("b"), "codex", "x", 200);
    manager.record_starting_at(&workspace_entry("c"), "codex", "x", 300);
    let settings = app_settings(1, 1, 10);
    assert_eq!(manager.reconcile_pool_at(&settings, 400, 400), vec!["a".to_string()]);
    manager.session_terminated("a", false);
    assert!(manager.reconcile_pool_at(&settings, 400, 400).is_empty());
    assert_eq!(manager.reconcile_pool(&settings).len(), 2);
    assert_eq!(ids(&manager.snapshot_rows(&settings)), vec!["c", "b"]);
}

#[test]
fn ledger_holds_processes_and_errors() {
    let mut manager = RuntimeManager::new();
    manager.record_starting_at(&workspace_entry("idle"), "codex", "x", 1);
    manager.record_ready_at(&session("run", Some(11)), "x", 1, 1);
    manager.record_ready_at(&session("busy", Some(12)), "x", 1, 1);
    manager.touch_at("busy", "x", true, 2);
    manager.record_failure_at(&workspace_entry("bad"), "codex", "x", "e".to_string(), 1);
    let ledger = manager.ledger();
    assert_eq!(ids(&ledger.rows), vec!["run", "busy", "bad"]);
    assert_eq!(
        states(&ledger.rows),
        vec![RuntimeState::Warm, RuntimeState::Busy, RuntimeState::Failed]
    );
    assert_eq!(orphan_pids(&ledger.rows), vec![11, 12]);
    assert_eq!(ledger.diagnostics, manager.diagnostics());
}

#[test]
fn orphans_are_swept_up_and_counted() {
    let mut gone = row("a", RuntimeState::Warm, 1);
    gone.pid = Some(5);
    let mut left = row("b", RuntimeState::Warm, 1);
    left.pid = Some(6);
    let stored = PersistedRuntimeLedger {
        rows: vec![gone, row("c", RuntimeState::Failed, 1), left],
        diagnostics: RuntimePoolDiagnostics {
            orphan_entries_found: 10,
            orphan_entries_cleaned: 20,
            orphan_entries_failed: 30,
            force_kill_count: 40,
            last_orphan_sweep_at_ms: None,
            last_shutdown_at_ms: Some(3),
        },
    };
    let outcomes = vec![Ok(true), Err("denied".to_string()), Ok(false)];
    assert!(has_room_for_sweep(&stored, &outcomes));
    let mut manager = RuntimeManager::new();
    let written = manager.orphan_sweep_on_startup_at(&stored, &outcomes, 99);
    assert!(written.rows.is_empty());
    assert_eq!(
        written.diagnostics,
        RuntimePoolDiagnostics {
            orphan_entries_found: 13,
            orphan_entries_cleaned: 22,
            orphan_entries_failed: 31,
            force_kill_count: 41,
            last_orphan_sweep_at_ms: Some(99),
            last_shutdown_at_ms: Some(3),
        }
    );
    assert_eq!(manager.diagnostics(), written.diagnostics);
    let full = PersistedRuntimeLedger {
        rows: Vec::new(),
        diagnostics: RuntimePoolDiagnostics {
            orphan_entries_failed: u32::MAX,
            ..RuntimePoolDiagnostics::default()
        },
    };
    assert!(!has_room_for_sweep(&full, &outcomes));
    assert!(has_room_for_sweep(&full, &vec![Ok(true)]));
}

#[test]
fn mutations_pin_or_name_what_is_to_be_stopped() {
    let mut manager = RuntimeManager::new();
    manager.record_starting_at(&workspace_entry("a"), "codex", "x", 1);
    let pin = RuntimePoolMutation::Pin { workspace_id: "a".to_string(), pinned: true };
    assert_eq!(manager.mutate_at(pin, 8), None);
    assert!(manager.entries()[0].pinned);
    assert_eq!(manager.entries()[0].last_used_at_ms, 8);
    let unpin = RuntimePoolMutation::Pin { workspace_id: "a".to_string(), pinned: false };
    assert_eq!(manager.mutate(unpin), None);
    assert!(!manager.entries()[0].pinned);
    let close = RuntimePoolMutation::Close { workspace_id: "a".to_string() };
    assert_eq!(manager.mutate_at(close, 9).as_deref(), Some("a"));
    let release = RuntimePoolMutation::ReleaseToCold { workspace_id: "b".to_string() };
    assert_eq!(manager.mutate_at(release, 9).as_deref(), Some("b"));
    assert_eq!(manager.entries().len(), 1);
}

#[test]
fn codex_sessions_are_for_codex_workspaces() {
    let mut entry = workspace_entry("a");
    assert_eq!(needs_codex_session(Some(&entry)), Ok(true));
    entry.settings.engine_type = Some("CODEX".to_string());
    assert_eq!(needs_codex_session(Some(&entry)), Ok(true));
    entry.settings.engine_type = Some("gemini".to_string());
    assert_eq!(needs_codex_session(Some(&entry)), Ok(false));
    entry.settings.engine_type = None;
    assert_eq!(needs_codex_session(Some(&entry)), Ok(true));
    assert_eq!(needs_codex_session(None), Err("workspace not found".to_string()));
}

#[test]
fn process_group_is_asked_before_it_is_killed() {
    let broke = StepOutcome::Broke { error: "denied".to_string() };
    let asked = first_termination_step(Some(3), false);
    assert_eq!(asked, TerminationStep::AskGroup { pid: 3 });
    let waiting = next_termination_step(asked.clone(), &StepOutcome::Worked);
    assert_eq!(waiting, TerminationStep::WaitForExit { pid: 3 });
    assert_eq!(
        next_termination_step(asked, &StepOutcome::Refused),
        TerminationStep::KillGroup { pid: 3 }
    );
    assert_eq!(
        next_termination_step(waiting.clone(), &StepOutcome::Worked),
        TerminationStep::Ended { forced: false }
    );
    let killing = next_termination_step(waiting, &StepOutcome::Refused);
    assert_eq!(killing, TerminationStep::KillGroup { pid: 3 });
    assert_eq!(
        next_termination_step(killing.clone(), &StepOutcome::Worked),
        TerminationStep::Ended { forced: true }
    );
    let child = next_termination_step(killing, &StepOutcome::Refused);
    assert_eq!(child, TerminationStep::KillChild);
    assert_eq!(
        next_termination_step(child.clone(), &StepOutcome::Worked),
        TerminationStep::Ended { forced: true }
    );
    let failed = next_termination_step(child, &broke);
    assert_eq!(
        failed,
        TerminationStep::GiveUp { error: "Failed to kill process: denied".to_string() }
    );
    assert_eq!(next_termination_step(failed.clone(), &StepOutcome::Worked), failed);
    assert_eq!(first_termination_step(None, false), TerminationStep::KillChild);
}

#[test]
fn process_tree_is_killed_on_windows() {
    let tree = first_termination_step(Some(120), true);
    assert_eq!(tree, TerminationStep::KillTree { pid: 120 });
    assert_eq!(
        next_termination_step(tree.clone(), &StepOutcome::Worked),
        TerminationStep::Ended { forced: true }
    );
    assert_eq!(
        next_termination_step(tree.clone(), &StepOutcome::Refused),
        TerminationStep::KillChild
    );
    assert_eq!(
        next_termination_step(tree, &StepOutcome::Broke { error: "x".to_string() }),
        TerminationStep::GiveUp { error: "taskkill failed for pid 120: x".to_string() }
    );
    assert_eq!(first_termination_step(None, true), TerminationStep::KillChild);
}

#[test]
fn missing_group_counts_as_gone() {
    assert_eq!(group_kill_outcome(true, false, "e".to_string()), Ok(true));
    assert_eq!(group_kill_outcome(false, true, "e".to_string()), Ok(true));
    assert_eq!(group_kill_outcome(false, false, "e".to_string()), Err("e".to_string()));
}

#[test]
fn temporary_files_have_names_of_their_own() {
    assert_eq!(temp_extension("id"), "id.tmp");
    let first = fresh_temp_extension();
    assert_eq!(first.len(), 40);
    assert!(first.ends_with(".tmp"));
    assert_eq!(&first[14..15], "4");
    for at in [8, 13, 18, 23] {
        assert_eq!(&first[at..at + 1], "-");
    }
    assert!(first[..36].chars().all(|c| c == '-' || c.is_ascii_digit() || ('a'..='f').contains(&c)));
    assert_ne!(first, fresh_temp_extension());
}
