//! The process that runs one turn of the Gemini command line.
use crate::gemini_auth;
use crate::gemini_auth::{EnvChange, EnvChangeView, GeminiVendorRuntimeConfig, VendorView};
use crate::gemini_prompt;
use crate::gemini_session::{GeminiSession, ParamsView, SendMessageParams, SessionView};
use crate::text;
use vstd::prelude::*;
use vstd::string::*;

verus! {

/// A process to be started: the program, its arguments and the changes to its
/// environment, in order.
#[derive(Debug)]
pub struct CommandPlan {
    pub program: String,
    pub args: Vec<String>,
    pub env: Vec<EnvChange>,
}

/// What a process to be started holds.
pub struct PlanView {
    pub program: Seq<char>,
    pub args: Seq<Seq<char>>,
    pub env: Seq<EnvChangeView>,
}

impl View for CommandPlan {
    type V = PlanView;

    open spec fn view(&self) -> PlanView {
        PlanView {
            program: self.program@,
            args: text::texts(self.args@),
            env: gemini_auth::change_views(self.env@),
        }
    }
}

// ---------------------------------------------------------------------------
// Models
// ---------------------------------------------------------------------------

/// An option and its value, where there is one.
pub open spec fn option_args(name: Seq<char>, value: Option<Seq<char>>) -> Seq<Seq<char>> {
    match value {
        Some(v) => seq![name, v],
        None => Seq::empty(),
    }
}

/// The prompt of a message.
pub open spec fn prompt_text(params: ParamsView, absolute: bool, windows: bool) -> Seq<char> {
    gemini_prompt::safe_prompt(
        gemini_prompt::with_images(
            gemini_prompt::hinted(params.text, params.custom_spec_root, absolute),
            params.images,
            windows,
        ),
    )
}

/// The session that is to be resumed.
pub open spec fn resumed_session(params: ParamsView) -> Option<Seq<char>> {
    if params.continue_session {
        text::non_blank(params.session_id)
    } else {
        None
    }
}

/// The arguments of the turn.
pub open spec fn turn_args(
    session: SessionView,
    params: ParamsView,
    absolute: bool,
    windows: bool,
) -> Seq<Seq<char>> {
    seq!["--output-format"@, "stream-json"@] + option_args(
        "--model"@,
        text::non_blank(params.model),
    ) + option_args("--approval-mode"@, gemini_prompt::approval_mode(params.access_mode))
        + option_args("--resume"@, resumed_session(params)) + (match session.custom_args {
        Some(args) => text::words(args),
        None => Seq::empty(),
    }) + seq!["--prompt"@, prompt_text(params, absolute, windows)]
}

/// The assignments of a list of variables.
pub open spec fn assignments(pairs: Seq<(Seq<char>, Seq<char>)>) -> Seq<EnvChangeView> {
    Seq::new(pairs.len(), |i: int| EnvChangeView::Assign(pairs[i].0, pairs[i].1))
}

/// The changes to the environment of the turn.
pub open spec fn turn_env(session: SessionView, vendor: VendorView) -> Seq<EnvChangeView> {
    assignments(vendor.env) + gemini_auth::auth_env(vendor.auth_mode) + (match session.home_dir {
        Some(home) => seq![EnvChangeView::Assign("GEMINI_CLI_HOME"@, home)],
        None => Seq::empty(),
    })
}

/// The program of the turn: the configured one, else the one that was found.
pub open spec fn turn_program(session: SessionView, found: Option<Seq<char>>) -> Seq<char> {
    match session.bin_path {
        Some(path) => path,
        None => match found {
            Some(path) => path,
            None => "gemini"@,
        },
    }
}

/// The process of the turn.
pub open spec fn turn_plan(
    session: SessionView,
    params: ParamsView,
    found: Option<Seq<char>>,
    vendor: VendorView,
    absolute: bool,
    windows: bool,
) -> PlanView {
    PlanView {
        program: turn_program(session, found),
        args: turn_args(session, params, absolute, windows),
        env: turn_env(session, vendor),
    }
}

// ---------------------------------------------------------------------------
// Functions
// ---------------------------------------------------------------------------

/// Appends one argument.
fn push_arg(args: &mut Vec<String>, arg: &str)
    ensures
        text::texts(final(args)@) == text::texts(old(args)@).push(arg@),
{
    let ghost before = text::texts(args@);
    args.push(arg.to_owned());
    assert(text::texts(args@) =~= before.push(arg@));
}

/// Appends an option and its value, where there is one.
fn push_option(args: &mut Vec<String>, name: &str, value: Option<&str>)
    ensures
        text::texts(final(args)@) == text::texts(old(args)@) + option_args(
            name@,
            text::opt_text(value),
        ),
{
    let ghost before = text::texts(args@);
    if let Some(v) = value {
        push_arg(args, name);
        push_arg(args, v);
        assert(text::texts(args@) =~= before + seq![name@, v@]);
    } else {
        assert(text::texts(args@) =~= before + Seq::<Seq<char>>::empty());
    }
}

impl GeminiSession {
    /// The prompt of a message, given whether the spec root is absolute and
    /// how paths are written.
    pub fn prompt_for(params: &SendMessageParams, absolute: bool, windows: bool) -> (r: String)
        ensures
            r@ == prompt_text(params@, absolute, windows),
    {
        let message = gemini_prompt::with_checked_spec_hint(
            params.text.as_str(),
            text::as_text(&params.custom_spec_root),
            absolute,
        );
        let images = match &params.images {
            Some(list) => Some(list.as_slice()),
            None => None,
        };
        let message = gemini_prompt::with_image_references_on(message.as_str(), images, windows);
        gemini_prompt::guard_prompt(message)
    }

    /// The arguments of the turn, given whether the spec root is absolute and
    /// how paths are written.
    pub fn args_for(&self, params: &SendMessageParams, absolute: bool, windows: bool) -> (r: Vec<
        String,
    >)
        ensures
            text::texts(r@) == turn_args(self@, params@, absolute, windows),
    {
        let mut args: Vec<String> = Vec::new();
        push_arg(&mut args, "--output-format");
        push_arg(&mut args, "stream-json");
        assert(text::texts(args@) =~= seq!["--output-format"@, "stream-json"@]);
        push_option(&mut args, "--model", text::trim_non_empty(text::as_text(&params.model)));
        push_option(
            &mut args,
            "--approval-mode",
            Self::resolve_approval_mode(text::as_text(&params.access_mode)),
        );
        let resumed = if params.continue_session {
            text::trim_non_empty(text::as_text(&params.session_id))
        } else {
            None
        };
        push_option(&mut args, "--resume", resumed);
        let ghost before = text::texts(args@);
        if let Some(custom) = &self.custom_args {
            let mut extra = text::split_words(custom.as_str());
            let ghost added = extra@;
            let ghost had = args@;
            args.append(&mut extra);
            assert(text::texts(args@) =~= text::texts(had) + text::texts(added));
        } else {
            assert(text::texts(args@) =~= before + Seq::<Seq<char>>::empty());
        }
        let ghost almost = text::texts(args@);
        let prompt = Self::prompt_for(params, absolute, windows);
        push_arg(&mut args, "--prompt");
        push_arg(&mut args, prompt.as_str());
        assert(text::texts(args@) =~= almost + seq!["--prompt"@, prompt@]);
        args
    }

    /// The changes to the environment of the turn.
    pub fn env_for(&self, vendor: &GeminiVendorRuntimeConfig) -> (r: Vec<EnvChange>)
        ensures
            gemini_auth::change_views(r@) == turn_env(self@, vendor@),
    {
        let mut env: Vec<EnvChange> = Vec::new();
        for i in 0..vendor.env.len()
            invariant
                env@.len() == i,
                forall|j: int|
                    0 <= j < i ==> (#[trigger] env@[j])@ == EnvChangeView::Assign(
                        vendor.env@[j].0@,
                        vendor.env@[j].1@,
                    ),
        {
            env.push(EnvChange::Assign(vendor.env[i].0.clone(), vendor.env[i].1.clone()));
        }
        assert(gemini_auth::change_views(env@) =~= assignments(vendor@.env));
        let mut overrides = Self::auth_mode_env_overrides(text::as_text(&vendor.auth_mode));
        let ghost had = env@;
        let ghost added = overrides@;
        env.append(&mut overrides);
        assert(gemini_auth::change_views(env@) =~= gemini_auth::change_views(had)
            + gemini_auth::change_views(added));
        let ghost before = gemini_auth::change_views(env@);
        if let Some(home) = &self.home_dir {
            env.push(EnvChange::Assign("GEMINI_CLI_HOME".to_owned(), home.clone()));
            assert(gemini_auth::change_views(env@) =~= before + seq![
                EnvChangeView::Assign("GEMINI_CLI_HOME"@, home@),
            ]);
        } else {
            assert(gemini_auth::change_views(env@) =~= before + Seq::<EnvChangeView>::empty());
        }
        env
    }

    /// The process of the turn, given the program that was found for it,
    /// whether the spec root is absolute and how paths are written.
    pub fn plan_command(
        &self,
        params: &SendMessageParams,
        found: Option<&str>,
        vendor: &GeminiVendorRuntimeConfig,
        absolute: bool,
        windows: bool,
    ) -> (r: CommandPlan)
        ensures
            r@ == turn_plan(self@, params@, text::opt_text(found), vendor@, absolute, windows),
    {
        let program = match &self.bin_path {
            Some(path) => path.clone(),
            None => match found {
                Some(path) => path.to_owned(),
                None => "gemini".to_owned(),
            },
        };
        CommandPlan {
            program,
            args: self.args_for(params, absolute, windows),
            env: self.env_for(vendor),
        }
    }

    /// The process of the turn, given the program that was found for it.
    pub fn build_command(
        &self,
        params: &SendMessageParams,
        found: Option<&str>,
        vendor: &GeminiVendorRuntimeConfig,
    ) -> (r: CommandPlan)
        ensures
            exists|absolute: bool, windows: bool|
                #![trigger turn_plan(self@, params@, text::opt_text(found), vendor@, absolute, windows)]
                r@ == turn_plan(self@, params@, text::opt_text(found), vendor@, absolute, windows)
                    && (absolute ==> gemini_prompt::absolute_root(params@.custom_spec_root)),
    {
        let absolute = gemini_prompt::spec_root_is_absolute(text::as_text(&params.custom_spec_root));
        let windows = gemini_prompt::on_windows();
        self.plan_command(params, found, vendor, absolute, windows)
    }
}

} // verus!
