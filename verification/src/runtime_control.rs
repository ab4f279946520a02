//! Starting, stopping and sweeping up runtimes: what is decided on the way.
use crate::clock;
use crate::runtime;
use crate::runtime::{
    PersistedRuntimeLedger, RuntimeManager, RuntimePoolDiagnostics, RuntimePoolRow, WorkspaceEntry,
};
use crate::text;
use vstd::prelude::*;
use vstd::string::*;

verus! {

/// The name of the file that the pool is written down in.
pub const LEDGER_FILE_NAME: &'static str = "runtime-pool-ledger.json";

/// How long a process that was asked to end is waited for.
pub const TERMINATE_GRACE_MILLIS: u64 = 150;

// ---------------------------------------------------------------------------
// Sweeping up what an earlier run left behind
// ---------------------------------------------------------------------------

/// The processes that rows speak of.
pub open spec fn pids_of(rows: Seq<runtime::RowView>) -> Seq<u32>
    decreases rows.len(),
{
    if rows.len() == 0 {
        Seq::empty()
    } else {
        match rows.last().pid {
            Some(pid) => pids_of(rows.drop_last()).push(pid),
            None => pids_of(rows.drop_last()),
        }
    }
}

/// How many processes could be ended.
pub open spec fn ended(outcomes: Seq<Result<bool, String>>) -> nat
    decreases outcomes.len(),
{
    if outcomes.len() == 0 {
        0
    } else {
        ended(outcomes.drop_last()) + if outcomes.last() is Ok {
            1nat
        } else {
            0nat
        }
    }
}

/// How many processes had to be killed.
pub open spec fn forced(outcomes: Seq<Result<bool, String>>) -> nat
    decreases outcomes.len(),
{
    if outcomes.len() == 0 {
        0
    } else {
        forced(outcomes.drop_last()) + if outcomes.last() matches Ok(true) {
            1nat
        } else {
            0nat
        }
    }
}

/// The counts after a sweep have room for it.
pub open spec fn sweep_fits(
    d: RuntimePoolDiagnostics,
    rows: nat,
    outcomes: Seq<Result<bool, String>>,
) -> bool {
    &&& d.orphan_entries_found + rows % 0x1_0000_0000 <= u32::MAX
    &&& d.orphan_entries_cleaned + ended(outcomes) <= u32::MAX
    &&& d.orphan_entries_failed + (outcomes.len() - ended(outcomes)) <= u32::MAX
    &&& d.force_kill_count + forced(outcomes) <= u32::MAX
}

/// The counts after a sweep over `rows` rows.
pub open spec fn swept(
    d: RuntimePoolDiagnostics,
    rows: nat,
    outcomes: Seq<Result<bool, String>>,
    now: u64,
) -> RuntimePoolDiagnostics {
    RuntimePoolDiagnostics {
        orphan_entries_found: (d.orphan_entries_found + rows % 0x1_0000_0000) as u32,
        orphan_entries_cleaned: (d.orphan_entries_cleaned + ended(outcomes)) as u32,
        orphan_entries_failed: (d.orphan_entries_failed + (outcomes.len() - ended(outcomes))) as u32,
        force_kill_count: (d.force_kill_count + forced(outcomes)) as u32,
        last_orphan_sweep_at_ms: Some(now),
        last_shutdown_at_ms: d.last_shutdown_at_ms,
    }
}

/// The processes that rows speak of.
pub fn orphan_pids(rows: &Vec<RuntimePoolRow>) -> (r: Vec<u32>)
    ensures
        r@ == pids_of(runtime::row_views(rows@)),
{
    let ghost all = runtime::row_views(rows@);
    let mut out: Vec<u32> = Vec::new();
    for i in 0..rows.len()
        invariant
            all == runtime::row_views(rows@),
            out@ == pids_of(all.take(i as int)),
    {
        assert(all.take(i + 1).drop_last() =~= all.take(i as int));
        assert(all.take(i + 1).last() == rows@[i as int]@);
        if let Some(pid) = rows[i].pid {
            out.push(pid);
        }
    }
    assert(all.take(rows@.len() as int) =~= all);
    out
}

/// How many processes could be ended, and how many had to be killed.
fn count_outcomes(outcomes: &Vec<Result<bool, String>>) -> (r: (usize, usize))
    ensures
        r.0 == ended(outcomes@),
        r.1 == forced(outcomes@),
        r.0 <= outcomes@.len(),
        r.1 <= outcomes@.len(),
{
    let ghost all = outcomes@;
    let mut ok: usize = 0;
    let mut killed: usize = 0;
    for i in 0..outcomes.len()
        invariant
            all == outcomes@,
            ok == ended(all.take(i as int)),
            killed == forced(all.take(i as int)),
            ok <= i,
            killed <= i,
    {
        assert(all.take(i + 1).drop_last() =~= all.take(i as int));
        match &outcomes[i] {
            Ok(by_force) => {
                ok = ok + 1;
                if *by_force {
                    killed = killed + 1;
                }
            },
            Err(_) => {},
        }
    }
    assert(all.take(outcomes@.len() as int) =~= all);
    (ok, killed)
}

/// The lower 32 bits of a length.
fn low_bits(n: usize) -> (r: u32)
    ensures
        r == n as nat % 0x1_0000_0000,
{
    let wide: u64 = n as u64;
    assert(wide as u32 == wide % 0x1_0000_0000) by (bit_vector);
    #[verifier::truncate]
    (wide as u32)
}

/// Whether the counts after a sweep have room for it.
pub fn has_room_for_sweep(
    stored: &PersistedRuntimeLedger,
    outcomes: &Vec<Result<bool, String>>,
) -> (r: bool)
    ensures
        r == sweep_fits(stored.diagnostics, stored.rows@.len(), outcomes@),
{
    let d = stored.diagnostics;
    let (ok, killed) = count_outcomes(outcomes);
    let failed: usize = outcomes.len() - ok;
    let top: u128 = u32::MAX as u128;
    d.orphan_entries_found as u128 + low_bits(stored.rows.len()) as u128 <= top
        && d.orphan_entries_cleaned as u128 + ok as u128 <= top && d.orphan_entries_failed as u128
        + failed as u128 <= top && d.force_kill_count as u128 + killed as u128 <= top
}

impl RuntimeManager {
    /// Takes over the counts of an earlier run, with those of sweeping up what
    /// it left behind, and returns what is to be written down then.
    pub fn orphan_sweep_on_startup_at(
        &mut self,
        stored: &PersistedRuntimeLedger,
        outcomes: &Vec<Result<bool, String>>,
        now: u64,
    ) -> (r: PersistedRuntimeLedger)
        requires
            sweep_fits(stored.diagnostics, stored.rows@.len(), outcomes@),
        ensures
            r.diagnostics == swept(stored.diagnostics, stored.rows@.len(), outcomes@, now),
            r.rows@.len() == 0,
            final(self)@ == (runtime::ManagerView { diagnostics: r.diagnostics, ..old(self)@ }),
    {
        let d = stored.diagnostics;
        let (ok, killed) = count_outcomes(outcomes);
        let failed: usize = outcomes.len() - ok;
        let diagnostics = RuntimePoolDiagnostics {
            orphan_entries_found: d.orphan_entries_found + low_bits(stored.rows.len()),
            orphan_entries_cleaned: d.orphan_entries_cleaned + ok as u32,
            orphan_entries_failed: d.orphan_entries_failed + failed as u32,
            force_kill_count: d.force_kill_count + killed as u32,
            last_orphan_sweep_at_ms: Some(now),
            last_shutdown_at_ms: d.last_shutdown_at_ms,
        };
        self.set_diagnostics(diagnostics);
        PersistedRuntimeLedger { rows: Vec::new(), diagnostics }
    }
}

// ---------------------------------------------------------------------------
// Commands on the pool
// ---------------------------------------------------------------------------

/// What is asked of the pool.
#[derive(Debug, Clone)]
pub enum RuntimePoolMutation {
    Close { workspace_id: String },
    ReleaseToCold { workspace_id: String },
    Pin { workspace_id: String, pinned: bool },
}

/// What is asked of the pool, as it is.
pub ghost enum MutationView {
    Close { workspace_id: Seq<char> },
    ReleaseToCold { workspace_id: Seq<char> },
    Pin { workspace_id: Seq<char>, pinned: bool },
}

impl View for RuntimePoolMutation {
    type V = MutationView;

    open spec fn view(&self) -> MutationView {
        match *self {
            RuntimePoolMutation::Close { workspace_id } => MutationView::Close {
                workspace_id: workspace_id@,
            },
            RuntimePoolMutation::ReleaseToCold { workspace_id } => MutationView::ReleaseToCold {
                workspace_id: workspace_id@,
            },
            RuntimePoolMutation::Pin { workspace_id, pinned } => MutationView::Pin {
                workspace_id: workspace_id@,
                pinned,
            },
        }
    }
}

/// The workspace whose session is to be stopped.
pub open spec fn stopped_by(m: MutationView) -> Option<Seq<char>> {
    match m {
        MutationView::Close { workspace_id } => Some(workspace_id),
        MutationView::ReleaseToCold { workspace_id } => Some(workspace_id),
        MutationView::Pin { .. } => None,
    }
}

/// The pool after what can be done at once.
pub open spec fn mutated(
    manager: runtime::ManagerView,
    m: MutationView,
    now: u64,
) -> runtime::ManagerView {
    match m {
        MutationView::Pin { workspace_id, pinned } => manager.with_pin(workspace_id, pinned, now),
        _ => manager,
    }
}

impl RuntimeManager {
    /// Pins or unpins a runtime at the given instant if that is asked;
    /// otherwise returns the workspace whose session is to be stopped.
    pub fn mutate_at(&mut self, mutation: RuntimePoolMutation, now: u64) -> (r: Option<String>)
        ensures
            text::opt_string(r) == stopped_by(mutation@),
            final(self)@ == mutated(old(self)@, mutation@, now),
    {
        match mutation {
            RuntimePoolMutation::Close { workspace_id } => Some(workspace_id),
            RuntimePoolMutation::ReleaseToCold { workspace_id } => Some(workspace_id),
            RuntimePoolMutation::Pin { workspace_id, pinned } => {
                self.pin_runtime_at(workspace_id.as_str(), pinned, now);
                None
            },
        }
    }

    /// Pins or unpins a runtime if that is asked; otherwise returns the
    /// workspace whose session is to be stopped.
    pub fn mutate(&mut self, mutation: RuntimePoolMutation) -> (r: Option<String>)
        ensures
            text::opt_string(r) == stopped_by(mutation@),
            exists|now: u64| final(self)@ == #[trigger] mutated(old(self)@, mutation@, now),
    {
        self.mutate_at(mutation, clock::now_millis())
    }
}

/// The workspace is run by codex: it says so, whatever the case of the
/// letters, or names no engine.
pub open spec fn run_by_codex(engine_type: Option<Seq<char>>) -> bool {
    match engine_type {
        Some(engine) => text::lowered(engine) == text::lowered("codex"@),
        None => true,
    }
}

/// Whether a codex session is needed for a workspace to be ready.
pub fn needs_codex_session(entry: Option<&WorkspaceEntry>) -> (r: Result<bool, String>)
    ensures
        match entry {
            Some(w) => r == Ok::<bool, String>(
                run_by_codex(text::opt_string(w.settings.engine_type)),
            ),
            None => r matches Err(e) && e@ == "workspace not found"@,
        },
{
    match entry {
        Some(w) => match &w.settings.engine_type {
            Some(engine) => Ok(text::same_ignoring_case(engine.as_str(), "codex")),
            None => Ok(true),
        },
        None => Err("workspace not found".to_owned()),
    }
}

// ---------------------------------------------------------------------------
// Ending a process
// ---------------------------------------------------------------------------

/// What is to be done next to end the process of a session.
#[derive(Debug, Clone, PartialEq, Eq)]
pub enum TerminationStep {
    /// Ask the process group to end.
    AskGroup { pid: u32 },
    /// Wait, then look whether the process has ended.
    WaitForExit { pid: u32 },
    /// Kill the process group.
    KillGroup { pid: u32 },
    /// Have the system kill the process and all it started.
    KillTree { pid: u32 },
    /// Kill the process itself.
    KillChild,
    /// Wait for the process, which has ended.
    Ended { forced: bool },
    /// Give up.
    GiveUp { error: String },
}

/// How a step went: it worked, it did not, or it could not be tried.
#[derive(Debug, Clone, PartialEq, Eq)]
pub enum StepOutcome {
    Worked,
    Refused,
    Broke { error: String },
}

/// What is to be done next to end a process, as it is.
pub ghost enum StepView {
    AskGroup { pid: u32 },
    WaitForExit { pid: u32 },
    KillGroup { pid: u32 },
    KillTree { pid: u32 },
    KillChild,
    Ended { forced: bool },
    GiveUp { error: Seq<char> },
}

impl View for TerminationStep {
    type V = StepView;

    open spec fn view(&self) -> StepView {
        match *self {
            TerminationStep::AskGroup { pid } => StepView::AskGroup { pid },
            TerminationStep::WaitForExit { pid } => StepView::WaitForExit { pid },
            TerminationStep::KillGroup { pid } => StepView::KillGroup { pid },
            TerminationStep::KillTree { pid } => StepView::KillTree { pid },
            TerminationStep::KillChild => StepView::KillChild,
            TerminationStep::Ended { forced } => StepView::Ended { forced },
            TerminationStep::GiveUp { error } => StepView::GiveUp { error: error@ },
        }
    }
}

/// How a step went, as it is.
pub ghost enum OutcomeView {
    Worked,
    Refused,
    Broke { error: Seq<char> },
}

impl View for StepOutcome {
    type V = OutcomeView;

    open spec fn view(&self) -> OutcomeView {
        match *self {
            StepOutcome::Worked => OutcomeView::Worked,
            StepOutcome::Refused => OutcomeView::Refused,
            StepOutcome::Broke { error } => OutcomeView::Broke { error: error@ },
        }
    }
}

/// The first step to end a process.
pub open spec fn first_step(pid: Option<u32>, windows: bool) -> StepView {
    match pid {
        Some(pid) => if windows {
            StepView::KillTree { pid }
        } else {
            StepView::AskGroup { pid }
        },
        None => StepView::KillChild,
    }
}

/// The step that follows one that went as given.
pub open spec fn next_step(step: StepView, outcome: OutcomeView) -> StepView {
    match (step, outcome) {
        (StepView::AskGroup { pid }, OutcomeView::Worked) => StepView::WaitForExit { pid },
        (StepView::AskGroup { pid }, _) => StepView::KillGroup { pid },
        (StepView::WaitForExit { pid }, OutcomeView::Worked) => StepView::Ended { forced: false },
        (StepView::WaitForExit { pid }, _) => StepView::KillGroup { pid },
        (StepView::KillGroup { pid }, OutcomeView::Worked) => StepView::Ended { forced: true },
        (StepView::KillGroup { pid }, _) => StepView::KillChild,
        (StepView::KillTree { pid }, OutcomeView::Worked) => StepView::Ended { forced: true },
        (StepView::KillTree { pid }, OutcomeView::Refused) => StepView::KillChild,
        (StepView::KillTree { pid }, OutcomeView::Broke { error }) => StepView::GiveUp {
            error: "taskkill failed for pid "@ + text::digits(pid as nat) + ": "@ + error,
        },
        (StepView::KillChild, OutcomeView::Broke { error }) => StepView::GiveUp {
            error: "Failed to kill process: "@ + error,
        },
        (StepView::KillChild, _) => StepView::Ended { forced: true },
        (StepView::Ended { forced }, _) => step,
        (StepView::GiveUp { error }, _) => step,
    }
}

/// Nothing is left to be done.
pub open spec fn settled(step: StepView) -> bool {
    step is Ended || step is GiveUp
}

/// How many steps are left at most.
pub open spec fn steps_left(step: StepView) -> nat {
    match step {
        StepView::AskGroup { .. } => 4,
        StepView::WaitForExit { .. } => 3,
        StepView::KillGroup { .. } => 2,
        StepView::KillTree { .. } => 2,
        StepView::KillChild => 1,
        StepView::Ended { .. } => 0,
        StepView::GiveUp { .. } => 0,
    }
}

/// The first step to end a process.
pub fn first_termination_step(pid: Option<u32>, windows: bool) -> (r: TerminationStep)
    ensures
        r@ == first_step(pid, windows),
{
    match pid {
        Some(pid) => if windows {
            TerminationStep::KillTree { pid }
        } else {
            TerminationStep::AskGroup { pid }
        },
        None => TerminationStep::KillChild,
    }
}

/// The step that follows one that went as given.
pub fn next_termination_step(step: TerminationStep, outcome: &StepOutcome) -> (r: TerminationStep)
    ensures
        r@ == next_step(step@, outcome@),
{
    match step {
        TerminationStep::AskGroup { pid } => match outcome {
            StepOutcome::Worked => TerminationStep::WaitForExit { pid },
            _ => TerminationStep::KillGroup { pid },
        },
        TerminationStep::WaitForExit { pid } => match outcome {
            StepOutcome::Worked => TerminationStep::Ended { forced: false },
            _ => TerminationStep::KillGroup { pid },
        },
        TerminationStep::KillGroup { pid } => match outcome {
            StepOutcome::Worked => TerminationStep::Ended { forced: true },
            _ => TerminationStep::KillChild,
        },
        TerminationStep::KillTree { pid } => match outcome {
            StepOutcome::Worked => TerminationStep::Ended { forced: true },
            StepOutcome::Refused => TerminationStep::KillChild,
            StepOutcome::Broke { error } => {
                let mut message = "taskkill failed for pid ".to_owned();
                message.append(text::decimal(pid).as_str());
                message.append(": ");
                message.append(error.as_str());
                TerminationStep::GiveUp { error: message }
            },
        },
        TerminationStep::KillChild => match outcome {
            StepOutcome::Broke { error } => TerminationStep::GiveUp {
                error: text::concat2("Failed to kill process: ", error.as_str()),
            },
            _ => TerminationStep::Ended { forced: true },
        },
        TerminationStep::Ended { forced } => TerminationStep::Ended { forced },
        TerminationStep::GiveUp { error } => TerminationStep::GiveUp { error },
    }
}

/// What became of a process group that was killed: it is gone if that worked
/// or if there was none, and otherwise the error says why not.
pub fn group_kill_outcome(killed: bool, missing: bool, error: String) -> (r: Result<bool, String>)
    ensures
        killed || missing ==> r == Ok::<bool, String>(true),
        !killed && !missing ==> r == Err::<bool, String>(error),
{
    if !killed && !missing {
        return Err(error);
    }
    Ok(true)
}

// ---------------------------------------------------------------------------
// Files beside the ledger
// ---------------------------------------------------------------------------

/// A lower-case hexadecimal digit.
pub open spec fn hex_digit(c: char) -> bool {
    '0' <= c <= '9' || 'a' <= c <= 'f'
}

/// The form of a version 4 identifier: five groups of lower-case hexadecimal
/// digits with hyphens between them, with the version and the variant in their
/// places.
pub open spec fn uuid_form(s: Seq<char>) -> bool {
    &&& s.len() == 36
    &&& forall|i: int|
        0 <= i < 36 ==> if i == 8 || i == 13 || i == 18 || i == 23 {
            #[trigger] s[i] == '-'
        } else {
            hex_digit(s[i])
        }
    &&& s[14] == '4'
    &&& s[19] == '8' || s[19] == '9' || s[19] == 'a' || s[19] == 'b'
}

/// `uuid::Uuid::new_v4`, written as its `Display` does: a random identifier in
/// the form of a version 4 one. Nothing is claimed of which one it is, nor that
/// the system has randomness to give, without which the call panics.
#[verifier::external_body]
fn random_uuid() -> (r: String)
    ensures
        uuid_form(r@),
{
    uuid::Uuid::new_v4().to_string()
}

/// The extension of a temporary file.
pub fn temp_extension(id: &str) -> (r: String)
    ensures
        r@ == id@ + ".tmp"@,
{
    text::concat2(id, ".tmp")
}

/// The extension of a new temporary file.
pub fn fresh_temp_extension() -> (r: String)
    ensures
        exists|id: Seq<char>| uuid_form(id) && r@ == #[trigger] (id + ".tmp"@),
{
    let id = random_uuid();
    temp_extension(id.as_str())
}

} // verus!
