//! The state of a Gemini session in a workspace.
use crate::events::{EngineEvent, EventView};
use crate::text;
use vstd::prelude::*;
use vstd::string::*;

verus! {

/// `std::path::PathBuf`, carried through as an opaque value.
#[verifier::external_type_specification]
#[verifier::external_body]
pub struct ExPathBuf(std::path::PathBuf);

/// An event of one turn.
#[derive(Debug, Clone)]
pub struct GeminiTurnEvent {
    pub turn_id: String,
    pub event: EngineEvent,
}

/// How an engine is set up.
#[derive(Debug, Clone, Default)]
pub struct EngineConfig {
    pub bin_path: Option<String>,
    pub home_dir: Option<String>,
    pub custom_args: Option<String>,
}

/// What is sent to an engine.
#[derive(Debug)]
pub struct SendMessageParams {
    pub text: String,
    pub model: Option<String>,
    pub access_mode: Option<String>,
    pub images: Option<Vec<String>>,
    pub continue_session: bool,
    pub session_id: Option<String>,
    pub custom_spec_root: Option<String>,
}

/// A Gemini session of a workspace.
pub struct GeminiSession {
    pub workspace_id: String,
    pub workspace_path: std::path::PathBuf,
    pub session_id: Option<String>,
    pub bin_path: Option<String>,
    pub home_dir: Option<String>,
    pub custom_args: Option<String>,
    pub interrupted: bool,
}

/// What an event of a turn holds.
pub struct TurnEventView {
    pub turn_id: Seq<char>,
    pub event: EventView,
}

impl View for GeminiTurnEvent {
    type V = TurnEventView;

    open spec fn view(&self) -> TurnEventView {
        TurnEventView { turn_id: self.turn_id@, event: self.event@ }
    }
}

/// What a message to an engine holds.
pub struct ParamsView {
    pub text: Seq<char>,
    pub model: Option<Seq<char>>,
    pub access_mode: Option<Seq<char>>,
    pub images: Option<Seq<Seq<char>>>,
    pub continue_session: bool,
    pub session_id: Option<Seq<char>>,
    pub custom_spec_root: Option<Seq<char>>,
}

/// The texts of an optional list of strings.
pub open spec fn opt_list(list: Option<Vec<String>>) -> Option<Seq<Seq<char>>> {
    match list {
        Some(v) => Some(text::texts(v@)),
        None => None,
    }
}

impl View for SendMessageParams {
    type V = ParamsView;

    open spec fn view(&self) -> ParamsView {
        ParamsView {
            text: self.text@,
            model: text::opt_string(self.model),
            access_mode: text::opt_string(self.access_mode),
            images: opt_list(self.images),
            continue_session: self.continue_session,
            session_id: text::opt_string(self.session_id),
            custom_spec_root: text::opt_string(self.custom_spec_root),
        }
    }
}

impl Clone for SendMessageParams {
    fn clone(&self) -> (r: SendMessageParams)
        ensures
            r@ == self@,
    {
        let images = match &self.images {
            Some(list) => Some(text::copy_list(list)),
            None => None,
        };
        SendMessageParams {
            text: self.text.clone(),
            model: text::copy_text(&self.model),
            access_mode: text::copy_text(&self.access_mode),
            images,
            continue_session: self.continue_session,
            session_id: text::copy_text(&self.session_id),
            custom_spec_root: text::copy_text(&self.custom_spec_root),
        }
    }
}

/// What a session holds.
pub struct SessionView {
    pub workspace_id: Seq<char>,
    pub workspace_path: std::path::PathBuf,
    pub session_id: Option<Seq<char>>,
    pub bin_path: Option<Seq<char>>,
    pub home_dir: Option<Seq<char>>,
    pub custom_args: Option<Seq<char>>,
    pub interrupted: bool,
}

impl View for GeminiSession {
    type V = SessionView;

    open spec fn view(&self) -> SessionView {
        SessionView {
            workspace_id: self.workspace_id@,
            workspace_path: self.workspace_path,
            session_id: text::opt_string(self.session_id),
            bin_path: text::opt_string(self.bin_path),
            home_dir: text::opt_string(self.home_dir),
            custom_args: text::opt_string(self.custom_args),
            interrupted: self.interrupted,
        }
    }
}

impl GeminiSession {
    /// A session that has not been started.
    pub fn new(
        workspace_id: String,
        workspace_path: std::path::PathBuf,
        config: Option<EngineConfig>,
    ) -> (r: GeminiSession)
        ensures
            r@ == (SessionView {
                workspace_id: workspace_id@,
                workspace_path,
                session_id: None,
                bin_path: match config {
                    Some(c) => text::opt_string(c.bin_path),
                    None => None,
                },
                home_dir: match config {
                    Some(c) => text::opt_string(c.home_dir),
                    None => None,
                },
                custom_args: match config {
                    Some(c) => text::opt_string(c.custom_args),
                    None => None,
                },
                interrupted: false,
            }),
    {
        let (bin_path, home_dir, custom_args) = match config {
            Some(c) => (c.bin_path, c.home_dir, c.custom_args),
            None => (None, None, None),
        };
        GeminiSession {
            workspace_id,
            workspace_path,
            session_id: None,
            bin_path,
            home_dir,
            custom_args,
            interrupted: false,
        }
    }

    /// The id of the session on the Gemini side, once it is known.
    pub fn get_session_id(&self) -> (r: Option<String>)
        ensures
            text::opt_string(r) == self@.session_id,
    {
        text::copy_text(&self.session_id)
    }

    /// Sets the id of the session on the Gemini side.
    pub fn set_session_id(&mut self, id: Option<String>)
        ensures
            final(self)@ == (SessionView { session_id: text::opt_string(id), ..old(self)@ }),
    {
        self.session_id = id;
    }

    /// The event as one of the given turn.
    pub fn emit_turn_event(&self, turn_id: &str, event: EngineEvent) -> (r: GeminiTurnEvent)
        ensures
            r@ == (TurnEventView { turn_id: turn_id@, event: event@ }),
    {
        GeminiTurnEvent { turn_id: turn_id.to_owned(), event }
    }

    /// The event that reports an error of the given turn.
    pub fn emit_error(&self, turn_id: &str, error: String) -> (r: GeminiTurnEvent)
        ensures
            r@ == (TurnEventView {
                turn_id: turn_id@,
                event: EventView::TurnError {
                    workspace_id: self@.workspace_id,
                    error: error@,
                    code: None,
                },
            }),
    {
        self.emit_turn_event(
            turn_id,
            EngineEvent::TurnError { workspace_id: self.workspace_id.clone(), error, code: None },
        )
    }

    /// Notes that the running turns are to be stopped.
    pub fn interrupt(&mut self)
        ensures
            final(self)@ == (SessionView { interrupted: true, ..old(self)@ }),
    {
        self.interrupted = true;
    }

    /// Whether an interruption was noted; it no longer is afterwards.
    pub fn take_interrupt(&mut self) -> (r: bool)
        ensures
            r == old(self)@.interrupted,
            final(self)@ == (SessionView { interrupted: false, ..old(self)@ }),
    {
        let noted = self.interrupted;
        self.interrupted = false;
        noted
    }
}

} // verus!
