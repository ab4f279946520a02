//! What the models say of the values that they stand for: lists keep their order
//! and their length, and each value shows what it holds.
use crate::claude;
use crate::events;
use crate::events::{EngineEvent, EventView};
use crate::gemini_auth;
use crate::gemini_auth::{EnvChange, EnvChangeView, GeminiRoot, RootView};
use crate::gemini_command::CommandPlan;
use crate::gemini_event;
use crate::gemini_history;
use crate::gemini_history::GeminiSessionMessage;
use crate::gemini_prompt;
use crate::gemini_session::{GeminiSession, SendMessageParams};
use crate::gemini_turn;
use crate::gemini_turn::{ExitReport, TurnOutcome};
use crate::json;
use crate::json::{Json, JsonTree};
use crate::proxy_guard;
use crate::proxy_guard::ProxyProbe;
use crate::runtime;
use crate::runtime::{RuntimeEntry, RuntimePoolRow, WorkspaceEntry, WorkspaceSessionInfo};
use crate::runtime_control::{
    MutationView, OutcomeView, RuntimePoolMutation, StepOutcome, StepView, TerminationStep,
};
use crate::text;
use vstd::prelude::*;
use vstd::string::*;

verus! {

/// Texts show their characters, and lists of texts each text in its place.
pub proof fn law_texts_show(s: String, list: Seq<String>, values: Seq<Option<String>>, i: int)
    ensures
        text::opt_string(Some(s)) == Some(s@),
        text::opt_string(None) is None,
        text::texts(list).len() == list.len(),
        0 <= i < list.len() ==> text::texts(list)[i] == list[i]@,
        proxy_guard::value_texts(values).len() == values.len(),
        0 <= i < values.len() ==> proxy_guard::value_texts(values)[i] == text::opt_string(
            values[i],
        ),
{
}

/// Borrowed texts show their characters.
pub proof fn law_borrowed_texts_show(s: &str, list: Seq<Option<&str>>, strings: &[String], i: int)
    ensures
        text::opt_text(Some(s)) == Some(s@),
        text::opt_text(None) is None,
        gemini_event::opt_texts(list).len() == list.len(),
        0 <= i < list.len() ==> gemini_event::opt_texts(list)[i] == text::opt_text(list[i]),
        gemini_prompt::opt_texts(Some(strings)) == Some(text::texts(strings@)),
        gemini_prompt::opt_texts(None) is None,
{
}

/// JSON values show what they hold.
pub proof fn law_values_show(
    b: bool,
    n: serde_json::Number,
    s: String,
    items: Vec<Json>,
    entries: Vec<(String, Json)>,
    i: int,
)
    ensures
        Json::Null@ is Null,
        Json::Bool(b)@ == JsonTree::Bool(b),
        Json::Number(n)@ == JsonTree::Number(n),
        Json::Text(s)@ == JsonTree::Text(s@),
        Json::Array(items)@ matches JsonTree::Array(out) && out.len() == items@.len() && (0 <= i
            < items@.len() ==> out[i] == items@[i]@),
        Json::Object(entries)@ matches JsonTree::Object(out) && out.len() == entries@.len() && (0
            <= i < entries@.len() ==> out[i] == (entries@[i].0@, entries@[i].1@)),
{
}

/// Events show what they hold, and lists of events each event in its place.
pub proof fn law_events_show(list: Seq<EngineEvent>, i: int)
    requires
        0 <= i < list.len(),
    ensures
        events::event_views(list).len() == list.len(),
        events::event_views(list)[i] == list[i]@,
        list[i] matches EngineEvent::TextDelta { workspace_id, text } ==> list[i]@ == (
        EventView::TextDelta { workspace_id: workspace_id@, text: text@ }),
        list[i] matches EngineEvent::ReasoningDelta { workspace_id, text } ==> list[i]@ == (
        EventView::ReasoningDelta { workspace_id: workspace_id@, text: text@ }),
        list[i] matches EngineEvent::TurnError { workspace_id, error, code } ==> list[i]@ == (
        EventView::TurnError {
            workspace_id: workspace_id@,
            error: error@,
            code: text::opt_string(code),
        }),
        list[i] matches EngineEvent::TurnCompleted { workspace_id, result } ==> list[i]@ == (
        EventView::TurnCompleted { workspace_id: workspace_id@, result: json::opt_tree(result) }),
        list[i] matches EngineEvent::SessionStarted { workspace_id, session_id, engine }
            ==> list[i]@ == (EventView::SessionStarted {
            workspace_id: workspace_id@,
            session_id: session_id@,
            engine,
        }),
        list[i] matches EngineEvent::TurnStarted { workspace_id, turn_id } ==> list[i]@ == (
        EventView::TurnStarted { workspace_id: workspace_id@, turn_id: turn_id@ }),
        list[i] matches EngineEvent::Raw { workspace_id, engine, data } ==> list[i]@ == (
        EventView::Raw { workspace_id: workspace_id@, engine, data: data@ }),
{
}

/// Events of tools and of usage show what they hold.
pub proof fn law_tool_events_show(e: EngineEvent)
    ensures
        e matches EngineEvent::ToolStarted { workspace_id, tool_id, tool_name, input } ==> e@ == (
        EventView::ToolStarted {
            workspace_id: workspace_id@,
            tool_id: tool_id@,
            tool_name: tool_name@,
            input: json::opt_tree(input),
        }),
        e matches EngineEvent::ToolCompleted { workspace_id, tool_id, tool_name, output, error }
            ==> e@ == (EventView::ToolCompleted {
            workspace_id: workspace_id@,
            tool_id: tool_id@,
            tool_name: text::opt_string(tool_name),
            output: json::opt_tree(output),
            error: text::opt_string(error),
        }),
        e matches EngineEvent::UsageUpdate {
            workspace_id,
            input_tokens,
            output_tokens,
            cached_tokens,
            model_context_window,
        } ==> e@ == (EventView::UsageUpdate {
            workspace_id: workspace_id@,
            input_tokens,
            output_tokens,
            cached_tokens,
            model_context_window,
        }),
        events::opt_event(Some(e)) == Some(e@),
        events::opt_event(None) is None,
{
}

/// Optional JSON values show what they hold.
pub proof fn law_optional_values_show(j: Json, items: Seq<Json>, i: int)
    ensures
        json::opt_tree(Some(j)) == Some(j@),
        json::opt_tree(None) is None,
        json::opt_tree_ref(Some(&j)) == Some(j@),
        json::opt_tree_ref(None) is None,
        json::trees(items).len() == items.len(),
        0 <= i < items.len() ==> json::trees(items)[i] == items[i]@,
{
}

/// How a process and a turn ended shows as it is.
pub proof fn law_ends_show(exit: ExitReport, out: TurnOutcome)
    ensures
        exit@.success == exit.success,
        exit@.status == exit.status@,
        gemini_turn::opt_exit(Some(exit)) == Some(exit@),
        gemini_turn::opt_exit(None) is None,
        out@.events == events::event_views(out.events@),
        out.result matches Ok(s) ==> out@.result == Ok::<Seq<char>, Seq<char>>(s@),
        out.result matches Err(s) ==> out@.result == Err::<Seq<char>, Seq<char>>(s@),
        out@.session == text::opt_string(out.session_id),
        out@.clears_interrupt == out.clears_interrupt,
{
}

/// Recorded messages show who wrote them, of which kind they are and what they
/// say.
pub proof fn law_messages_show(list: Seq<GeminiSessionMessage>, i: int)
    requires
        0 <= i < list.len(),
    ensures
        gemini_history::message_views(list).len() == list.len(),
        gemini_history::message_views(list)[i].role == list[i].role@,
        gemini_history::message_views(list)[i].kind == list[i].kind@,
        gemini_history::message_views(list)[i].text == list[i].text@,
{
}

/// Messages to an engine and sessions show what they hold.
pub proof fn law_sessions_show(params: SendMessageParams, session: GeminiSession)
    ensures
        params@.text == params.text@,
        params@.model == text::opt_string(params.model),
        params@.access_mode == text::opt_string(params.access_mode),
        params.images is None ==> params@.images is None,
        params.images matches Some(list) ==> params@.images == Some(text::texts(list@)),
        params@.continue_session == params.continue_session,
        params@.session_id == text::opt_string(params.session_id),
        params@.custom_spec_root == text::opt_string(params.custom_spec_root),
        session@.workspace_id == session.workspace_id@,
        session@.session_id == text::opt_string(session.session_id),
        session@.bin_path == text::opt_string(session.bin_path),
        session@.home_dir == text::opt_string(session.home_dir),
        session@.custom_args == text::opt_string(session.custom_args),
        session@.interrupted == session.interrupted,
{
}

/// Processes to be started show their program, their arguments and their
/// environment, each change in its place.
pub proof fn law_plans_show(
    plan: CommandPlan,
    changes: Seq<EnvChange>,
    pairs: Seq<(String, String)>,
    i: int,
)
    ensures
        plan@.program == plan.program@,
        plan@.args == text::texts(plan.args@),
        plan@.env == gemini_auth::change_views(plan.env@),
        gemini_auth::change_views(changes).len() == changes.len(),
        0 <= i < changes.len() ==> {
            &&& changes[i] matches EnvChange::Assign(key, value) ==> gemini_auth::change_views(
                changes,
            )[i] == EnvChangeView::Assign(key@, value@)
            &&& changes[i] matches EnvChange::Remove(key) ==> gemini_auth::change_views(changes)[i]
                == EnvChangeView::Remove(key@)
        },
        gemini_auth::pair_texts(pairs).len() == pairs.len(),
        0 <= i < pairs.len() ==> gemini_auth::pair_texts(pairs)[i] == (pairs[i].0@, pairs[i].1@),
{
}

/// Roots show whether they are the home or another path.
pub proof fn law_roots_show(root: GeminiRoot)
    ensures
        root is Home ==> root@ is Home,
        root matches GeminiRoot::Override(path) ==> root@ == RootView::Override(path@),
{
}

/// Results, steps and moves of a turn with a retry show what they hold.
pub proof fn law_retries_show(
    ok: String,
    list: Seq<claude::ClaudeTurnEvent>,
    step: claude::RetryStep,
    m: claude::RetryMove,
    i: int,
)
    ensures
        claude::result_view(Ok(ok)) == Ok::<Seq<char>, Seq<char>>(ok@),
        claude::result_view(Err(ok)) == Err::<Seq<char>, Seq<char>>(ok@),
        claude::claude_event_views(list).len() == list.len(),
        0 <= i < list.len() ==> claude::claude_event_views(list)[i].turn_id == list[i].turn_id@
            && claude::claude_event_views(list)[i].event == list[i].event@,
        step matches claude::RetryStep::Send { phase, params, turn_id } ==> step@ == (
        claude::RetryStepView::Send { phase, params: params@, turn_id: turn_id@ }),
        step matches claude::RetryStep::Finish { result } ==> step@ == (
        claude::RetryStepView::Finish { result: claude::result_view(result) }),
        m@.events == claude::claude_event_views(m.events@),
        m@.step == m.step@,
{
}

/// Proxies to be tried show their variable, their host and their port, and those
/// that were tried also whether they answered.
pub proof fn law_proxies_show(probes: Seq<ProxyProbe>, tried: Seq<(ProxyProbe, bool)>, i: int)
    ensures
        proxy_guard::probe_views(probes).len() == probes.len(),
        0 <= i < probes.len() ==> {
            &&& proxy_guard::probe_views(probes)[i].key == probes[i].key@
            &&& proxy_guard::probe_views(probes)[i].host == probes[i].host@
            &&& proxy_guard::probe_views(probes)[i].port == probes[i].port
        },
        proxy_guard::tried_views(tried).len() == tried.len(),
        0 <= i < tried.len() ==> {
            &&& proxy_guard::tried_views(tried)[i].0.key == tried[i].0.key@
            &&& proxy_guard::tried_views(tried)[i].1 == tried[i].1
        },
{
}

/// Addresses show their host and their port.
pub proof fn law_addresses_show(host: String, port: u16)
    ensures
        proxy_guard::opt_address(Some((host, port))) == Some((host@, port)),
        proxy_guard::opt_address(None) is None,
{
}

/// Rows of the pool show what they hold, each in its place.
pub proof fn law_pool_rows_show(rows: Seq<RuntimePoolRow>, i: int)
    requires
        0 <= i < rows.len(),
    ensures
        ({
            let out = runtime::row_views(rows)[i];
            let row = rows[i];
            &&& runtime::row_views(rows).len() == rows.len()
            &&& out.workspace_id == row.workspace_id@
            &&& out.workspace_name == row.workspace_name@
            &&& out.workspace_path == row.workspace_path@
            &&& out.engine == row.engine@
            &&& out.state == row.state
            &&& out.pid == row.pid
            &&& out.wrapper_kind == text::opt_string(row.wrapper_kind)
            &&& out.resolved_bin == text::opt_string(row.resolved_bin)
            &&& out.started_at_ms == row.started_at_ms
            &&& out.last_used_at_ms == row.last_used_at_ms
            &&& out.pinned == row.pinned
            &&& out.lease_sources == text::texts(row.lease_sources@)
            &&& out.error == text::opt_string(row.error)
        }),
{
}

/// Runtimes show what is on record of them, each in its place.
pub proof fn law_runtimes_show(entries: Seq<RuntimeEntry>, i: int)
    requires
        0 <= i < entries.len(),
    ensures
        ({
            let out = runtime::entry_views(entries)[i];
            let e = entries[i];
            &&& runtime::entry_views(entries).len() == entries.len()
            &&& out.workspace_id == e.workspace_id@
            &&& out.workspace_name == e.workspace_name@
            &&& out.workspace_path == e.workspace_path@
            &&& out.engine == e.engine@
            &&& out.pid == e.pid
            &&& out.wrapper_kind == text::opt_string(e.wrapper_kind)
            &&& out.resolved_bin == text::opt_string(e.resolved_bin)
            &&& out.started_at_ms == e.started_at_ms
            &&& out.last_used_at_ms == e.last_used_at_ms
            &&& out.pinned == e.pinned
            &&& out.lease_sources == text::texts(e.lease_sources@)
            &&& out.error == text::opt_string(e.error)
            &&& out.busy == e.busy
            &&& out.session_exists == e.session_exists
            &&& out.zombie_suspected == e.zombie_suspected
        }),
{
}

/// Workspaces and their sessions show what they hold.
pub proof fn law_workspaces_show(w: WorkspaceEntry, s: WorkspaceSessionInfo)
    ensures
        w@.id == w.id@,
        w@.name == w.name@,
        w@.path == w.path@,
        s@.entry == s.entry@,
        s@.pid == s.pid,
        s@.wrapper_kind == s.wrapper_kind@,
        s@.resolved_bin == s.resolved_bin@,
{
}

/// Commands on the pool show what they ask for.
pub proof fn law_commands_show(m: RuntimePoolMutation)
    ensures
        m matches RuntimePoolMutation::Close { workspace_id } ==> m@ == (MutationView::Close {
            workspace_id: workspace_id@,
        }),
        m matches RuntimePoolMutation::ReleaseToCold { workspace_id } ==> m@ == (
        MutationView::ReleaseToCold { workspace_id: workspace_id@ }),
        m matches RuntimePoolMutation::Pin { workspace_id, pinned } ==> m@ == (MutationView::Pin {
            workspace_id: workspace_id@,
            pinned,
        }),
{
}

/// Steps to end a process, and how they went, show as they are.
pub proof fn law_steps_show(step: TerminationStep, outcome: StepOutcome)
    ensures
        step matches TerminationStep::AskGroup { pid } ==> step@ == (StepView::AskGroup { pid }),
        step matches TerminationStep::WaitForExit { pid } ==> step@ == (StepView::WaitForExit {
            pid,
        }),
        step matches TerminationStep::KillGroup { pid } ==> step@ == (StepView::KillGroup { pid }),
        step matches TerminationStep::KillTree { pid } ==> step@ == (StepView::KillTree { pid }),
        step is KillChild ==> step@ is KillChild,
        step matches TerminationStep::Ended { forced } ==> step@ == (StepView::Ended { forced }),
        step matches TerminationStep::GiveUp { error } ==> step@ == (StepView::GiveUp {
            error: error@,
        }),
        outcome is Worked ==> outcome@ is Worked,
        outcome is Refused ==> outcome@ is Refused,
        outcome matches StepOutcome::Broke { error } ==> outcome@ == (OutcomeView::Broke {
            error: error@,
        }),
{
}

} // verus!
