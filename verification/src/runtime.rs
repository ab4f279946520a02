//! The runtimes that are kept alive for workspaces.
use crate::clock;
use crate::text;
use vstd::prelude::*;
use vstd::string::*;

verus! {

/// For how many seconds after its last use a runtime counts as hot.
pub const HOT_IDLE_SECONDS: u64 = 30;

/// What is read of a workspace's settings.
#[derive(Debug, Clone, Default)]
pub struct WorkspaceSettings {
    pub engine_type: Option<String>,
}

/// What is read of a workspace.
#[derive(Debug, Clone)]
pub struct WorkspaceEntry {
    pub id: String,
    pub name: String,
    pub path: String,
    pub settings: WorkspaceSettings,
}

/// What is read of the session of a workspace.
#[derive(Debug, Clone)]
pub struct WorkspaceSessionInfo {
    pub entry: WorkspaceEntry,
    pub pid: Option<u32>,
    pub wrapper_kind: String,
    pub resolved_bin: String,
}

/// The settings of the pool.
#[derive(Debug, Clone)]
pub struct AppSettings {
    pub codex_max_hot_runtimes: u8,
    pub codex_max_warm_runtimes: u8,
    pub codex_warm_ttl_seconds: u16,
    pub runtime_restore_threads_only_on_launch: bool,
    pub runtime_force_cleanup_on_exit: bool,
    pub runtime_orphan_sweep_on_launch: bool,
}

/// How a runtime is doing.
#[derive(Debug, Clone, Copy, PartialEq, Eq, Structural)]
pub enum RuntimeState {
    Starting,
    Hot,
    Warm,
    Busy,
    Stopping,
    Failed,
    ZombieSuspected,
}

/// A runtime as it is shown.
#[derive(Debug, Clone, PartialEq, Eq)]
pub struct RuntimePoolRow {
    pub workspace_id: String,
    pub workspace_name: String,
    pub workspace_path: String,
    pub engine: String,
    pub state: RuntimeState,
    pub pid: Option<u32>,
    pub wrapper_kind: Option<String>,
    pub resolved_bin: Option<String>,
    pub started_at_ms: Option<u64>,
    pub last_used_at_ms: u64,
    pub pinned: bool,
    pub lease_sources: Vec<String>,
    pub error: Option<String>,
}

/// Counts of what happened to runtimes.
#[derive(Debug, Clone, Copy, PartialEq, Eq, Structural)]
pub struct RuntimePoolDiagnostics {
    pub orphan_entries_found: u32,
    pub orphan_entries_cleaned: u32,
    pub orphan_entries_failed: u32,
    pub force_kill_count: u32,
    pub last_orphan_sweep_at_ms: Option<u64>,
    pub last_shutdown_at_ms: Option<u64>,
}

/// The budgets of the pool.
#[derive(Debug, Clone, Copy, PartialEq, Eq, Structural)]
pub struct RuntimePoolBudgetSnapshot {
    pub max_hot_codex: u8,
    pub max_warm_codex: u8,
    pub warm_ttl_seconds: u16,
    pub restore_threads_only_on_launch: bool,
    pub force_cleanup_on_exit: bool,
    pub orphan_sweep_on_launch: bool,
}

/// How many runtimes there are of each sort.
#[derive(Debug, Clone, Copy, PartialEq, Eq, Structural)]
pub struct RuntimePoolSummary {
    pub total_runtimes: usize,
    pub hot_runtimes: usize,
    pub warm_runtimes: usize,
    pub busy_runtimes: usize,
    pub pinned_runtimes: usize,
    pub codex_runtimes: usize,
}

/// The pool as it is shown.
#[derive(Debug)]
pub struct RuntimePoolSnapshot {
    pub rows: Vec<RuntimePoolRow>,
    pub summary: RuntimePoolSummary,
    pub budgets: RuntimePoolBudgetSnapshot,
    pub diagnostics: RuntimePoolDiagnostics,
}

/// The pool as it is kept on disk.
#[derive(Debug)]
pub struct PersistedRuntimeLedger {
    pub rows: Vec<RuntimePoolRow>,
    pub diagnostics: RuntimePoolDiagnostics,
}

/// A runtime of a workspace.
#[derive(Debug)]
pub struct RuntimeEntry {
    pub workspace_id: String,
    pub workspace_name: String,
    pub workspace_path: String,
    pub engine: String,
    pub pid: Option<u32>,
    pub wrapper_kind: Option<String>,
    pub resolved_bin: Option<String>,
    pub started_at_ms: Option<u64>,
    pub last_used_at_ms: u64,
    pub pinned: bool,
    pub lease_sources: Vec<String>,
    pub error: Option<String>,
    pub busy: bool,
    pub session_exists: bool,
    pub zombie_suspected: bool,
}

/// The runtimes of all workspaces, one for each.
pub struct RuntimeManager {
    entries: Vec<RuntimeEntry>,
    diagnostics: RuntimePoolDiagnostics,
    shutting_down: bool,
}

// ---------------------------------------------------------------------------
// Views
// ---------------------------------------------------------------------------

/// What a workspace holds.
pub struct WorkspaceView {
    pub id: Seq<char>,
    pub name: Seq<char>,
    pub path: Seq<char>,
}

impl View for WorkspaceEntry {
    type V = WorkspaceView;

    open spec fn view(&self) -> WorkspaceView {
        WorkspaceView { id: self.id@, name: self.name@, path: self.path@ }
    }
}

/// What the session of a workspace holds.
pub struct SessionInfoView {
    pub entry: WorkspaceView,
    pub pid: Option<u32>,
    pub wrapper_kind: Seq<char>,
    pub resolved_bin: Seq<char>,
}

impl View for WorkspaceSessionInfo {
    type V = SessionInfoView;

    open spec fn view(&self) -> SessionInfoView {
        SessionInfoView {
            entry: self.entry@,
            pid: self.pid,
            wrapper_kind: self.wrapper_kind@,
            resolved_bin: self.resolved_bin@,
        }
    }
}

/// What a shown runtime holds.
pub struct RowView {
    pub workspace_id: Seq<char>,
    pub workspace_name: Seq<char>,
    pub workspace_path: Seq<char>,
    pub engine: Seq<char>,
    pub state: RuntimeState,
    pub pid: Option<u32>,
    pub wrapper_kind: Option<Seq<char>>,
    pub resolved_bin: Option<Seq<char>>,
    pub started_at_ms: Option<u64>,
    pub last_used_at_ms: u64,
    pub pinned: bool,
    pub lease_sources: Seq<Seq<char>>,
    pub error: Option<Seq<char>>,
}

impl View for RuntimePoolRow {
    type V = RowView;

    open spec fn view(&self) -> RowView {
        RowView {
            workspace_id: self.workspace_id@,
            workspace_name: self.workspace_name@,
            workspace_path: self.workspace_path@,
            engine: self.engine@,
            state: self.state,
            pid: self.pid,
            wrapper_kind: text::opt_string(self.wrapper_kind),
            resolved_bin: text::opt_string(self.resolved_bin),
            started_at_ms: self.started_at_ms,
            last_used_at_ms: self.last_used_at_ms,
            pinned: self.pinned,
            lease_sources: text::texts(self.lease_sources@),
            error: text::opt_string(self.error),
        }
    }
}

/// What a list of shown runtimes holds.
pub open spec fn row_views(rows: Seq<RuntimePoolRow>) -> Seq<RowView> {
    Seq::new(rows.len(), |i: int| rows[i]@)
}

/// What a runtime holds.
pub struct EntryView {
    pub workspace_id: Seq<char>,
    pub workspace_name: Seq<char>,
    pub workspace_path: Seq<char>,
    pub engine: Seq<char>,
    pub pid: Option<u32>,
    pub wrapper_kind: Option<Seq<char>>,
    pub resolved_bin: Option<Seq<char>>,
    pub started_at_ms: Option<u64>,
    pub last_used_at_ms: u64,
    pub pinned: bool,
    pub lease_sources: Seq<Seq<char>>,
    pub error: Option<Seq<char>>,
    pub busy: bool,
    pub session_exists: bool,
    pub zombie_suspected: bool,
}

impl View for RuntimeEntry {
    type V = EntryView;

    open spec fn view(&self) -> EntryView {
        EntryView {
            workspace_id: self.workspace_id@,
            workspace_name: self.workspace_name@,
            workspace_path: self.workspace_path@,
            engine: self.engine@,
            pid: self.pid,
            wrapper_kind: text::opt_string(self.wrapper_kind),
            resolved_bin: text::opt_string(self.resolved_bin),
            started_at_ms: self.started_at_ms,
            last_used_at_ms: self.last_used_at_ms,
            pinned: self.pinned,
            lease_sources: text::texts(self.lease_sources@),
            error: text::opt_string(self.error),
            busy: self.busy,
            session_exists: self.session_exists,
            zombie_suspected: self.zombie_suspected,
        }
    }
}

/// What a list of runtimes holds.
pub open spec fn entry_views(entries: Seq<RuntimeEntry>) -> Seq<EntryView> {
    Seq::new(entries.len(), |i: int| entries[i]@)
}

/// What the runtimes of all workspaces hold.
pub struct ManagerView {
    pub entries: Seq<EntryView>,
    pub diagnostics: RuntimePoolDiagnostics,
    pub shutting_down: bool,
}

impl RuntimeManager {
    /// No workspace has two runtimes.
    #[verifier::type_invariant]
    spec fn well_formed(self) -> bool {
        one_each(entry_views(self.entries@))
    }
}

impl View for RuntimeManager {
    type V = ManagerView;

    closed spec fn view(&self) -> ManagerView {
        ManagerView {
            entries: entry_views(self.entries@),
            diagnostics: self.diagnostics,
            shutting_down: self.shutting_down,
        }
    }
}

// ---------------------------------------------------------------------------
// Models: entries
// ---------------------------------------------------------------------------

/// No workspace has two runtimes.
pub open spec fn one_each(entries: Seq<EntryView>) -> bool {
    forall|i: int, j: int|
        0 <= i < j < entries.len() ==> (#[trigger] entries[i]).workspace_id != (
        #[trigger] entries[j]).workspace_id
}

/// The position of the runtime of a workspace, or the length of the list.
pub open spec fn position(entries: Seq<EntryView>, id: Seq<char>) -> int
    decreases entries.len(),
{
    if entries.len() == 0 || entries[0].workspace_id == id {
        0
    } else {
        1 + position(entries.drop_first(), id)
    }
}

/// The workspace has a runtime.
pub open spec fn has_entry(entries: Seq<EntryView>, id: Seq<char>) -> bool {
    position(entries, id) < entries.len()
}

/// The runtime of a workspace.
pub open spec fn entry_of(entries: Seq<EntryView>, id: Seq<char>) -> Option<EntryView> {
    if has_entry(entries, id) {
        Some(entries[position(entries, id)])
    } else {
        None
    }
}

/// The runtimes with `e` in the place of the one of its workspace, or at the
/// end.
pub open spec fn with_entry(entries: Seq<EntryView>, e: EntryView) -> Seq<EntryView> {
    let p = position(entries, e.workspace_id);
    if p < entries.len() {
        entries.update(p, e)
    } else {
        entries.push(e)
    }
}

/// The runtimes without the one of a workspace.
pub open spec fn without_entry(entries: Seq<EntryView>, id: Seq<char>) -> Seq<EntryView> {
    if has_entry(entries, id) {
        entries.remove(position(entries, id))
    } else {
        entries
    }
}

/// The lease sources with `source` among them, each once.
pub open spec fn leased(sources: Seq<Seq<char>>, source: Seq<char>) -> Seq<Seq<char>> {
    if sources.contains(source) {
        sources
    } else {
        sources.push(source)
    }
}

/// The runtime of a workspace that was never used before.
pub open spec fn new_entry(
    w: WorkspaceView,
    engine: Seq<char>,
    lease: Seq<char>,
    now: u64,
) -> EntryView {
    EntryView {
        workspace_id: w.id,
        workspace_name: w.name,
        workspace_path: w.path,
        engine,
        pid: None,
        wrapper_kind: None,
        resolved_bin: None,
        started_at_ms: None,
        last_used_at_ms: now,
        pinned: false,
        lease_sources: seq![lease],
        error: None,
        busy: false,
        session_exists: false,
        zombie_suspected: false,
    }
}

/// The runtime of a workspace, or a new one.
pub open spec fn entry_or_new(
    entries: Seq<EntryView>,
    w: WorkspaceView,
    engine: Seq<char>,
    lease: Seq<char>,
    now: u64,
) -> EntryView {
    match entry_of(entries, w.id) {
        Some(e) => e,
        None => new_entry(w, engine, lease, now),
    }
}

impl ManagerView {
    /// The runtimes are replaced.
    pub open spec fn with_entries(self, entries: Seq<EntryView>) -> ManagerView {
        ManagerView { entries, ..self }
    }

    /// A runtime is being started.
    pub open spec fn starting(
        self,
        w: WorkspaceView,
        engine: Seq<char>,
        lease: Seq<char>,
        now: u64,
    ) -> ManagerView {
        let e = entry_or_new(self.entries, w, engine, lease, now);
        self.with_entries(
            with_entry(
                self.entries,
                EntryView {
                    workspace_name: w.name,
                    workspace_path: w.path,
                    engine,
                    last_used_at_ms: now,
                    session_exists: false,
                    busy: false,
                    zombie_suspected: false,
                    lease_sources: leased(e.lease_sources, lease),
                    ..e
                },
            ),
        )
    }

    /// A runtime is ready.
    pub open spec fn ready(
        self,
        s: SessionInfoView,
        lease: Seq<char>,
        started: u64,
        now: u64,
    ) -> ManagerView {
        let e = entry_or_new(self.entries, s.entry, "codex"@, lease, now);
        self.with_entries(
            with_entry(
                self.entries,
                EntryView {
                    workspace_name: s.entry.name,
                    workspace_path: s.entry.path,
                    engine: "codex"@,
                    pid: s.pid,
                    wrapper_kind: Some(s.wrapper_kind),
                    resolved_bin: Some(s.resolved_bin),
                    started_at_ms: match e.started_at_ms {
                        Some(ms) => Some(ms),
                        None => Some(started),
                    },
                    last_used_at_ms: now,
                    error: None,
                    busy: false,
                    session_exists: true,
                    zombie_suspected: false,
                    lease_sources: leased(e.lease_sources, lease),
                    ..e
                },
            ),
        )
    }

    /// A runtime is used.
    pub open spec fn touched(self, id: Seq<char>, lease: Seq<char>, busy: bool, now: u64) -> ManagerView {
        match entry_of(self.entries, id) {
            Some(e) => self.with_entries(
                with_entry(
                    self.entries,
                    EntryView {
                        last_used_at_ms: now,
                        busy,
                        session_exists: true,
                        lease_sources: leased(e.lease_sources, lease),
                        ..e
                    },
                ),
            ),
            None => self,
        }
    }

    /// A runtime is pinned or no longer so.
    pub open spec fn with_pin(self, id: Seq<char>, pinned: bool, now: u64) -> ManagerView {
        match entry_of(self.entries, id) {
            Some(e) => self.with_entries(
                with_entry(self.entries, EntryView { pinned, last_used_at_ms: now, ..e }),
            ),
            None => self,
        }
    }

    /// A runtime failed.
    pub open spec fn failing(
        self,
        w: WorkspaceView,
        engine: Seq<char>,
        lease: Seq<char>,
        error: Seq<char>,
        now: u64,
    ) -> ManagerView {
        let e = entry_or_new(self.entries, w, engine, lease, now);
        self.with_entries(
            with_entry(
                self.entries,
                EntryView {
                    error: Some(error),
                    last_used_at_ms: now,
                    busy: false,
                    session_exists: false,
                    zombie_suspected: false,
                    ..e
                },
            ),
        )
    }

    /// A runtime is being stopped.
    pub open spec fn stopping(self, id: Seq<char>) -> ManagerView {
        match entry_of(self.entries, id) {
            Some(e) => self.with_entries(
                with_entry(self.entries, EntryView { busy: false, session_exists: false, ..e }),
            ),
            None => self,
        }
    }

    /// A runtime is gone.
    pub open spec fn removed(self, id: Seq<char>) -> ManagerView {
        self.with_entries(without_entry(self.entries, id))
    }

    /// One more process had to be killed.
    pub open spec fn killed(self) -> ManagerView {
        ManagerView {
            diagnostics: RuntimePoolDiagnostics {
                force_kill_count: (self.diagnostics.force_kill_count + 1) as u32,
                ..self.diagnostics
            },
            ..self
        }
    }

    /// The runtimes were shut down.
    pub open spec fn shut(self, now: u64) -> ManagerView {
        ManagerView {
            diagnostics: RuntimePoolDiagnostics {
                last_shutdown_at_ms: Some(now),
                ..self.diagnostics
            },
            ..self
        }
    }

    /// The process of a runtime was terminated.
    pub open spec fn terminated(self, id: Seq<char>, forced: bool) -> ManagerView {
        if forced {
            self.killed().removed(id)
        } else {
            self.removed(id)
        }
    }
}

// ---------------------------------------------------------------------------
// Facts: entries
// ---------------------------------------------------------------------------

/// The first runtime of a workspace stands at its position.
pub proof fn lemma_position(entries: Seq<EntryView>, id: Seq<char>)
    ensures
        0 <= position(entries, id) <= entries.len(),
        has_entry(entries, id) ==> entries[position(entries, id)].workspace_id == id,
        forall|i: int|
            0 <= i < position(entries, id) ==> (#[trigger] entries[i]).workspace_id != id,
    decreases entries.len(),
{
    if entries.len() > 0 && entries[0].workspace_id != id {
        let rest = entries.drop_first();
        lemma_position(rest, id);
        assert forall|i: int| 0 <= i < position(entries, id) implies (
        #[trigger] entries[i]).workspace_id != id by {
            if i > 0 {
                assert(entries[i] == rest[i - 1]);
            }
        }
    }
}

/// The position of a workspace is the one that nothing of it stands before.
proof fn lemma_position_at(entries: Seq<EntryView>, id: Seq<char>, n: int)
    requires
        0 <= n <= entries.len(),
        forall|i: int| 0 <= i < n ==> (#[trigger] entries[i]).workspace_id != id,
        n < entries.len() ==> entries[n].workspace_id == id,
    ensures
        position(entries, id) == n,
{
    lemma_position(entries, id);
    let p = position(entries, id);
    if p < n {
        assert(entries[p].workspace_id != id);
    }
    if n < p {
        assert(entries[n].workspace_id != id);
    }
}

/// Without the runtime of a workspace, none of it is left.
pub proof fn lemma_without_entry(entries: Seq<EntryView>, id: Seq<char>)
    requires
        one_each(entries),
    ensures
        one_each(without_entry(entries, id)),
        !has_entry(without_entry(entries, id), id),
{
    lemma_position(entries, id);
    let left = without_entry(entries, id);
    let p = position(entries, id);
    lemma_position(left, id);
    let q = position(left, id);
    if p < entries.len() && q < left.len() {
        if q < p {
            assert(left[q] == entries[q]);
        } else {
            assert(left[q] == entries[q + 1]);
            assert(entries[p].workspace_id == entries[q + 1].workspace_id);
        }
    }
    assert forall|i: int, j: int| 0 <= i < j < left.len() implies (
    #[trigger] left[i]).workspace_id != (#[trigger] left[j]).workspace_id by {
        if p < entries.len() {
            let a = if i < p {
                i
            } else {
                i + 1
            };
            let b = if j < p {
                j
            } else {
                j + 1
            };
            assert(left[i] == entries[a]);
            assert(left[j] == entries[b]);
        }
    }
}

/// A runtime of a workspace that had none may stand anywhere.
proof fn lemma_insert_entry(entries: Seq<EntryView>, n: int, e: EntryView)
    requires
        one_each(entries),
        0 <= n <= entries.len(),
        !has_entry(entries, e.workspace_id),
    ensures
        one_each(entries.insert(n, e)),
{
    lemma_position(entries, e.workspace_id);
    let all = entries.insert(n, e);
    assert forall|i: int, j: int| 0 <= i < j < all.len() implies (
    #[trigger] all[i]).workspace_id != (#[trigger] all[j]).workspace_id by {
        if i != n {
            assert(all[i] == entries[if i < n {
                i
            } else {
                i - 1
            }]);
        }
        if j != n {
            assert(all[j] == entries[if j < n {
                j
            } else {
                j - 1
            }]);
        }
    }
}

/// Taking a runtime out and putting another in its place replaces it.
proof fn lemma_put_back(entries: Seq<EntryView>, e: EntryView)
    ensures
        has_entry(entries, e.workspace_id) ==> without_entry(entries, e.workspace_id).insert(
            position(entries, e.workspace_id),
            e,
        ) == with_entry(entries, e),
        !has_entry(entries, e.workspace_id) ==> entries.insert(entries.len() as int, e)
            == with_entry(entries, e),
{
    let p = position(entries, e.workspace_id);
    lemma_position(entries, e.workspace_id);
    if p < entries.len() {
        assert(entries.remove(p).insert(p, e) =~= entries.update(p, e));
    } else {
        assert(entries.insert(entries.len() as int, e) =~= entries.push(e));
    }
}

// ---------------------------------------------------------------------------
// Recording
// ---------------------------------------------------------------------------

/// Puts a lease source on record, unless it already is.
fn add_lease(sources: &mut Vec<String>, source: &str)
    ensures
        text::texts(final(sources)@) == leased(text::texts(old(sources)@), source@),
{
    let ghost before = text::texts(sources@);
    if text::holds(sources, source) {
        return;
    }
    sources.push(source.to_owned());
    assert(text::texts(sources@) =~= before.push(source@));
}

impl RuntimeEntry {
    /// A runtime that was never used before, at the given instant.
    pub fn from_workspace_at(
        entry: &WorkspaceEntry,
        engine: &str,
        lease_source: &str,
        now: u64,
    ) -> (r: RuntimeEntry)
        ensures
            r@ == new_entry(entry@, engine@, lease_source@, now),
    {
        let mut lease_sources: Vec<String> = Vec::new();
        lease_sources.push(lease_source.to_owned());
        assert(text::texts(lease_sources@) =~= seq![lease_source@]);
        RuntimeEntry {
            workspace_id: entry.id.clone(),
            workspace_name: entry.name.clone(),
            workspace_path: entry.path.clone(),
            engine: engine.to_owned(),
            pid: None,
            wrapper_kind: None,
            resolved_bin: None,
            started_at_ms: None,
            last_used_at_ms: now,
            pinned: false,
            lease_sources,
            error: None,
            busy: false,
            session_exists: false,
            zombie_suspected: false,
        }
    }

    /// A runtime that was never used before, at this instant.
    pub fn from_workspace(
        entry: &WorkspaceEntry,
        engine: &str,
        lease_source: &str,
    ) -> (r: RuntimeEntry)
        ensures
            r@ == new_entry(entry@, engine@, lease_source@, r@.last_used_at_ms),
    {
        RuntimeEntry::from_workspace_at(entry, engine, lease_source, clock::now_millis())
    }
}

impl RuntimePoolDiagnostics {
    /// Nothing happened yet.
    pub open spec fn none() -> RuntimePoolDiagnostics {
        RuntimePoolDiagnostics {
            orphan_entries_found: 0,
            orphan_entries_cleaned: 0,
            orphan_entries_failed: 0,
            force_kill_count: 0,
            last_orphan_sweep_at_ms: None,
            last_shutdown_at_ms: None,
        }
    }
}

impl Default for RuntimePoolDiagnostics {
    fn default() -> (r: RuntimePoolDiagnostics)
        ensures
            r == RuntimePoolDiagnostics::none(),
    {
        RuntimePoolDiagnostics {
            orphan_entries_found: 0,
            orphan_entries_cleaned: 0,
            orphan_entries_failed: 0,
            force_kill_count: 0,
            last_orphan_sweep_at_ms: None,
            last_shutdown_at_ms: None,
        }
    }
}

impl RuntimeManager {
    /// No runtimes yet.
    pub fn new() -> (r: RuntimeManager)
        ensures
            r@ == (ManagerView {
                entries: Seq::empty(),
                diagnostics: RuntimePoolDiagnostics::none(),
                shutting_down: false,
            }),
    {
        let r = RuntimeManager {
            entries: Vec::new(),
            diagnostics: RuntimePoolDiagnostics::default(),
            shutting_down: false,
        };
        assert(r@.entries =~= Seq::empty());
        r
    }

    /// Whether the runtimes are being shut down.
    pub fn is_shutting_down(&self) -> (r: bool)
        ensures
            r == self@.shutting_down,
    {
        self.shutting_down
    }

    /// The runtimes are being shut down from now on.
    pub fn begin_shutdown(&mut self)
        ensures
            final(self)@ == (ManagerView { shutting_down: true, ..old(self)@ }),
    {
        proof {
            use_type_invariant(&*self);
        }
        self.shutting_down = true;
    }

    /// The runtimes, in the order in which they came. No workspace has two.
    pub fn entries(&self) -> (r: &Vec<RuntimeEntry>)
        ensures
            entry_views(r@) == self@.entries,
            one_each(self@.entries),
    {
        proof {
            use_type_invariant(self);
        }
        &self.entries
    }

    /// The counts of what happened to runtimes.
    pub fn diagnostics(&self) -> (r: RuntimePoolDiagnostics)
        ensures
            r == self@.diagnostics,
    {
        self.diagnostics
    }

    /// Where the runtime of a workspace stands.
    fn find(&self, workspace_id: &str) -> (r: usize)
        ensures
            r == position(self@.entries, workspace_id@),
            r <= self.entries.len(),
    {
        let ghost views = entry_views(self.entries@);
        let mut i: usize = 0;
        while i < self.entries.len()
            invariant
                i <= self.entries.len(),
                views == entry_views(self.entries@),
                views == self@.entries,
                forall|j: int| 0 <= j < i ==> (#[trigger] views[j]).workspace_id != workspace_id@,
            decreases self.entries.len() - i,
        {
            if text::same(self.entries[i].workspace_id.as_str(), workspace_id) {
                proof {
                    assert(views[i as int].workspace_id == workspace_id@);
                    lemma_position_at(views, workspace_id@, i as int);
                }
                return i;
            }
            assert(views[i as int].workspace_id != workspace_id@);
            i += 1;
        }
        proof {
            lemma_position_at(views, workspace_id@, i as int);
        }
        i
    }

    /// The runtime of a workspace, taken out of the list.
    fn take(&mut self, workspace_id: &str) -> (r: Option<(usize, RuntimeEntry)>)
        ensures
            final(self)@ == old(self)@.removed(workspace_id@),
            !has_entry(final(self)@.entries, workspace_id@),
            match r {
                Some((i, e)) => {
                    &&& i == position(old(self)@.entries, workspace_id@)
                    &&& i < old(self)@.entries.len()
                    &&& e@ == old(self)@.entries[i as int]
                },
                None => !has_entry(old(self)@.entries, workspace_id@),
            },
    {
        let i: usize = self.find(workspace_id);
        let ghost before = self@.entries;
        proof {
            use_type_invariant(&*self);
            lemma_without_entry(before, workspace_id@);
        }
        if i < self.entries.len() {
            let mut entries: Vec<RuntimeEntry> = Vec::new();
            assert(one_each(entry_views(entries@)));
            std::mem::swap(&mut entries, &mut self.entries);
            let e = entries.remove(i);
            assert(entry_views(entries@) =~= before.remove(i as int));
            self.entries = entries;
            Some((i, e))
        } else {
            None
        }
    }

    /// Puts a runtime back where it was.
    fn put_back(&mut self, i: usize, e: RuntimeEntry)
        requires
            i <= old(self)@.entries.len(),
            !has_entry(old(self)@.entries, e@.workspace_id),
        ensures
            final(self)@ == old(self)@.with_entries(old(self)@.entries.insert(i as int, e@)),
    {
        let ghost before = self@.entries;
        proof {
            use_type_invariant(&*self);
            lemma_insert_entry(before, i as int, e@);
        }
        let mut entries: Vec<RuntimeEntry> = Vec::new();
        assert(one_each(entry_views(entries@)));
        std::mem::swap(&mut entries, &mut self.entries);
        entries.insert(i, e);
        assert(entry_views(entries@) =~= before.insert(i as int, e@));
        self.entries = entries;
    }
}

impl RuntimeManager {
    /// The runtime of a workspace, taken out of the list, or a new one.
    fn take_or_new(
        &mut self,
        entry: &WorkspaceEntry,
        engine: &str,
        lease_source: &str,
        now: u64,
    ) -> (r: (usize, RuntimeEntry))
        ensures
            r.0 <= final(self)@.entries.len(),
            r.1@ == entry_or_new(old(self)@.entries, entry@, engine@, lease_source@, now),
            r.1@.workspace_id == entry@.id,
            !has_entry(final(self)@.entries, entry@.id),
            forall|e: EntryView|
                e.workspace_id == entry@.id ==> #[trigger] final(self)@.entries.insert(
                    r.0 as int,
                    e,
                ) == with_entry(old(self)@.entries, e),
            final(self)@.with_entries(old(self)@.entries) == old(self)@,
    {
        let ghost before = self@.entries;
        let taken = self.take(entry.id.as_str());
        proof {
            lemma_position(before, entry@.id);
            assert forall|e: EntryView| e.workspace_id == entry@.id implies (has_entry(
                before,
                entry@.id,
            ) ==> #[trigger] without_entry(before, entry@.id).insert(
                position(before, entry@.id),
                e,
            ) == with_entry(before, e)) && (!has_entry(before, entry@.id)
                ==> #[trigger] before.insert(before.len() as int, e) == with_entry(before, e)) by {
                lemma_put_back(before, e);
            }
        }
        match taken {
            Some((i, e)) => (i, e),
            None => {
                let n: usize = self.entries.len();
                (n, RuntimeEntry::from_workspace_at(entry, engine, lease_source, now))
            },
        }
    }

    /// A runtime is being started, at the given instant.
    pub fn record_starting_at(
        &mut self,
        entry: &WorkspaceEntry,
        engine: &str,
        lease_source: &str,
        now: u64,
    )
        ensures
            final(self)@ == old(self)@.starting(entry@, engine@, lease_source@, now),
    {
        let (i, e) = self.take_or_new(entry, engine, lease_source, now);
        let mut existing = e;
        existing.workspace_name = entry.name.clone();
        existing.workspace_path = entry.path.clone();
        existing.engine = engine.to_owned();
        existing.last_used_at_ms = now;
        existing.session_exists = false;
        existing.busy = false;
        existing.zombie_suspected = false;
        add_lease(&mut existing.lease_sources, lease_source);
        self.put_back(i, existing);
    }

    /// A runtime is being started.
    pub fn record_starting(&mut self, entry: &WorkspaceEntry, engine: &str, lease_source: &str)
        ensures
            exists|now: u64|
                final(self)@ == #[trigger] old(self)@.starting(
                    entry@,
                    engine@,
                    lease_source@,
                    now,
                ),
    {
        self.record_starting_at(entry, engine, lease_source, clock::now_millis());
    }

    /// A runtime is ready: it was started at `started` unless that is on record
    /// already, and is used at `now`.
    pub fn record_ready_at(
        &mut self,
        session: &WorkspaceSessionInfo,
        lease_source: &str,
        started: u64,
        now: u64,
    )
        ensures
            final(self)@ == old(self)@.ready(session@, lease_source@, started, now),
    {
        let (i, e) = self.take_or_new(&session.entry, "codex", lease_source, now);
        let mut runtime = e;
        runtime.workspace_name = session.entry.name.clone();
        runtime.workspace_path = session.entry.path.clone();
        runtime.engine = "codex".to_owned();
        runtime.pid = session.pid;
        runtime.wrapper_kind = Some(session.wrapper_kind.clone());
        runtime.resolved_bin = Some(session.resolved_bin.clone());
        runtime.started_at_ms = match runtime.started_at_ms {
            Some(ms) => Some(ms),
            None => Some(started),
        };
        runtime.last_used_at_ms = now;
        runtime.error = None;
        runtime.busy = false;
        runtime.session_exists = true;
        runtime.zombie_suspected = false;
        add_lease(&mut runtime.lease_sources, lease_source);
        self.put_back(i, runtime);
    }

    /// A runtime is ready.
    pub fn record_ready(&mut self, session: &WorkspaceSessionInfo, lease_source: &str)
        ensures
            exists|started: u64, now: u64|
                final(self)@ == #[trigger] old(self)@.ready(
                    session@,
                    lease_source@,
                    started,
                    now,
                ),
    {
        let started: u64 = clock::now_millis();
        let now: u64 = clock::now_millis();
        self.record_ready_at(session, lease_source, started, now);
    }

    /// A runtime is used at the given instant.
    pub fn touch_at(&mut self, workspace_id: &str, lease_source: &str, busy: bool, now: u64)
        ensures
            final(self)@ == old(self)@.touched(workspace_id@, lease_source@, busy, now),
    {
        let ghost before = self@.entries;
        if let Some((i, e)) = self.take(workspace_id) {
            let mut runtime = e;
            runtime.last_used_at_ms = now;
            runtime.busy = busy;
            runtime.session_exists = true;
            add_lease(&mut runtime.lease_sources, lease_source);
            proof {
                lemma_position(before, workspace_id@);
                lemma_put_back(before, runtime@);
            }
            self.put_back(i, runtime);
        }
    }

    /// A runtime is used.
    pub fn touch(&mut self, workspace_id: &str, lease_source: &str, busy: bool)
        ensures
            exists|now: u64|
                final(self)@ == #[trigger] old(self)@.touched(
                    workspace_id@,
                    lease_source@,
                    busy,
                    now,
                ),
    {
        self.touch_at(workspace_id, lease_source, busy, clock::now_millis());
    }

    /// A runtime is pinned, or no longer so, at the given instant.
    pub fn pin_runtime_at(&mut self, workspace_id: &str, pinned: bool, now: u64)
        ensures
            final(self)@ == old(self)@.with_pin(workspace_id@, pinned, now),
    {
        let ghost before = self@.entries;
        if let Some((i, e)) = self.take(workspace_id) {
            let mut runtime = e;
            runtime.pinned = pinned;
            runtime.last_used_at_ms = now;
            proof {
                lemma_position(before, workspace_id@);
                lemma_put_back(before, runtime@);
            }
            self.put_back(i, runtime);
        }
    }

    /// A runtime is pinned, or no longer so.
    pub fn pin_runtime(&mut self, workspace_id: &str, pinned: bool)
        ensures
            exists|now: u64|
                final(self)@ == #[trigger] old(self)@.with_pin(workspace_id@, pinned, now),
    {
        self.pin_runtime_at(workspace_id, pinned, clock::now_millis());
    }

    /// A runtime failed at the given instant.
    pub fn record_failure_at(
        &mut self,
        entry: &WorkspaceEntry,
        engine: &str,
        lease_source: &str,
        error: String,
        now: u64,
    )
        ensures
            final(self)@ == old(self)@.failing(entry@, engine@, lease_source@, error@, now),
    {
        let (i, e) = self.take_or_new(entry, engine, lease_source, now);
        let mut runtime = e;
        runtime.error = Some(error);
        runtime.last_used_at_ms = now;
        runtime.busy = false;
        runtime.session_exists = false;
        runtime.zombie_suspected = false;
        self.put_back(i, runtime);
    }

    /// A runtime failed.
    pub fn record_failure(
        &mut self,
        entry: &WorkspaceEntry,
        engine: &str,
        lease_source: &str,
        error: String,
    )
        ensures
            exists|now: u64|
                final(self)@ == #[trigger] old(self)@.failing(
                    entry@,
                    engine@,
                    lease_source@,
                    error@,
                    now,
                ),
    {
        self.record_failure_at(entry, engine, lease_source, error, clock::now_millis());
    }

    /// A runtime is being stopped.
    pub fn record_stopping(&mut self, workspace_id: &str)
        ensures
            final(self)@ == old(self)@.stopping(workspace_id@),
    {
        let ghost before = self@.entries;
        if let Some((i, e)) = self.take(workspace_id) {
            let mut runtime = e;
            runtime.busy = false;
            runtime.session_exists = false;
            proof {
                lemma_position(before, workspace_id@);
                lemma_put_back(before, runtime@);
            }
            self.put_back(i, runtime);
        }
    }

    /// A runtime is gone.
    pub fn record_removed(&mut self, workspace_id: &str)
        ensures
            final(self)@ == old(self)@.removed(workspace_id@),
    {
        let _ = self.take(workspace_id);
    }

    /// Replaces the counts.
    pub fn set_diagnostics(&mut self, diagnostics: RuntimePoolDiagnostics)
        ensures
            final(self)@ == (ManagerView { diagnostics, ..old(self)@ }),
    {
        proof {
            use_type_invariant(&*self);
        }
        self.diagnostics = diagnostics;
    }

    /// One more process had to be killed.
    pub fn note_force_kill(&mut self)
        requires
            old(self)@.diagnostics.force_kill_count < u32::MAX,
        ensures
            final(self)@ == old(self)@.killed(),
    {
        proof {
            use_type_invariant(&*self);
        }
        self.diagnostics.force_kill_count = self.diagnostics.force_kill_count + 1;
    }

    /// The runtimes were shut down at the given instant.
    pub fn note_shutdown_at(&mut self, now: u64)
        ensures
            final(self)@ == old(self)@.shut(now),
    {
        proof {
            use_type_invariant(&*self);
        }
        self.diagnostics.last_shutdown_at_ms = Some(now);
    }

    /// The runtimes were shut down.
    pub fn note_shutdown(&mut self)
        ensures
            exists|now: u64| final(self)@ == #[trigger] old(self)@.shut(now),
    {
        self.note_shutdown_at(clock::now_millis());
    }

    /// The process of a runtime was terminated, by force or not.
    pub fn session_terminated(&mut self, workspace_id: &str, forced: bool)
        requires
            forced ==> old(self)@.diagnostics.force_kill_count < u32::MAX,
        ensures
            final(self)@ == old(self)@.terminated(workspace_id@, forced),
    {
        if forced {
            self.note_force_kill();
        }
        self.record_removed(workspace_id);
    }
}

} // verus!
