//! What settings and configurations come to, and which process is started.
use crate::gemini_auth;
use crate::gemini_auth::{EnvChangeView, RootView, VendorView};
use crate::gemini_command;
use crate::gemini_prompt;
use crate::gemini_session::{ParamsView, SessionView};
use crate::json;
use crate::json::JsonTree;
use crate::laws_prompt;
use crate::text;
use vstd::prelude::*;
use vstd::string::*;

verus! {

// ---------------------------------------------------------------------------
// Modes
// ---------------------------------------------------------------------------

proof fn lemma_mode_names()
    ensures
        "custom"@.len() == 6,
        "login_google"@.len() == 12,
        "gemini_api_key"@.len() == 14,
        "vertex_adc"@.len() == 10,
        "vertex_service_account"@.len() == 22,
        "vertex_api_key"@.len() == 14,
        "vertex_api_key"@[0] == 'v',
        "gemini_api_key"@[0] == 'g',
{
    reveal_strlit("custom");
    reveal_strlit("login_google");
    reveal_strlit("gemini_api_key");
    reveal_strlit("vertex_adc");
    reveal_strlit("vertex_service_account");
    reveal_strlit("vertex_api_key");
}

/// A setting names one of six modes, whatever the case of its letters and the
/// white space at its ends; any other names none.
pub proof fn law_known_modes(raw: Seq<char>, mode: Seq<char>)
    ensures
        gemini_auth::auth_mode(None) is None,
        gemini_auth::auth_mode(Some(raw)) == Some(mode) <==> {
            &&& mode == text::lowered(text::trimmed(raw))
            &&& {
                ||| mode == "custom"@
                ||| mode == "login_google"@
                ||| mode == "gemini_api_key"@
                ||| mode == "vertex_adc"@
                ||| mode == "vertex_service_account"@
                ||| mode == "vertex_api_key"@
            }
        },
{
    lemma_mode_names();
}

/// The type that the settings name for a mode: that of Vertex for three of them,
/// that of a key for two, and that of a login for anything else.
pub proof fn law_types_of_modes(raw: Seq<char>)
    ensures
        gemini_auth::auth_type(None) == "oauth-personal"@,
        ({
            let m = text::lowered(text::trimmed(raw));
            let vertex = m == "vertex_adc"@ || m == "vertex_service_account"@ || m
                == "vertex_api_key"@;
            let key = m == "custom"@ || m == "gemini_api_key"@;
            &&& vertex ==> gemini_auth::auth_type(Some(raw)) == "vertex-ai"@
            &&& key ==> gemini_auth::auth_type(Some(raw)) == "gemini-api-key"@
            &&& !vertex && !key ==> gemini_auth::auth_type(Some(raw)) == "oauth-personal"@
        }),
{
    lemma_mode_names();
}

/// What a mode makes of the two switches of the command line: a login by Google
/// sets the one and clears the other, Vertex the other way round, a key clears
/// both, and anything else leaves them and every other variable alone.
pub proof fn law_switches_of_modes(raw: Seq<char>, key: Seq<char>, before: Option<Seq<char>>)
    ensures
        gemini_auth::auth_env(None).len() == 0,
        ({
            let m = text::lowered(text::trimmed(raw));
            let after = gemini_auth::env_after(gemini_auth::auth_env(Some(raw)), key, before);
            let login = m == "login_google"@;
            let vertex = m == "vertex_adc"@ || m == "vertex_service_account"@ || m
                == "vertex_api_key"@;
            let by_key = m == "custom"@ || m == "gemini_api_key"@;
            let gca = key == "GOOGLE_GENAI_USE_GCA"@;
            let vai = key == "GOOGLE_GENAI_USE_VERTEXAI"@;
            &&& login && gca || vertex && vai ==> after == Some("true"@)
            &&& login && vai || vertex && gca || by_key && (gca || vai) ==> after is None
            &&& !gca && !vai || !login && !vertex && !by_key ==> after == before
        }),
{
    lemma_mode_names();
    laws_prompt::law_mode_settles_the_switches(Some(raw), key, before);
    law_known_modes(raw, text::lowered(text::trimmed(raw)));
    reveal_strlit("GOOGLE_GENAI_USE_GCA");
    reveal_strlit("GOOGLE_GENAI_USE_VERTEXAI");
    assert("GOOGLE_GENAI_USE_GCA"@.len() != "GOOGLE_GENAI_USE_VERTEXAI"@.len());
}

/// The last change of a variable decides: an assignment gives it its value, a
/// removal takes it away, and a change of another variable does neither.
pub proof fn law_last_change_decides(
    changes: Seq<EnvChangeView>,
    name: Seq<char>,
    value: Seq<char>,
    key: Seq<char>,
    before: Option<Seq<char>>,
)
    ensures
        gemini_auth::env_after(Seq::empty(), key, before) == before,
        gemini_auth::env_after(changes.push(EnvChangeView::Assign(key, value)), key, before)
            == Some(value),
        gemini_auth::env_after(changes.push(EnvChangeView::Remove(key)), key, before) is None,
        name != key ==> gemini_auth::env_after(
            changes.push(EnvChangeView::Assign(name, value)),
            key,
            before,
        ) == gemini_auth::env_after(changes, key, before),
        name != key ==> gemini_auth::env_after(
            changes.push(EnvChangeView::Remove(name)),
            key,
            before,
        ) == gemini_auth::env_after(changes, key, before),
{
    assert(changes.push(EnvChangeView::Assign(name, value)).drop_last() =~= changes);
    assert(changes.push(EnvChangeView::Remove(name)).drop_last() =~= changes);
}

// ---------------------------------------------------------------------------
// Settings
// ---------------------------------------------------------------------------

/// Settings are taken as an object; what is no object, or is not there, counts
/// as one without entries.
pub proof fn law_settings_are_an_object(t: JsonTree)
    ensures
        gemini_auth::entries_of(None).len() == 0,
        t matches JsonTree::Object(entries) ==> gemini_auth::entries_of(Some(t)) == entries,
        !(t is Object) ==> gemini_auth::entries_of(Some(t)).len() == 0,
{
}

/// Settings that are not there, or are no JSON text, count as none.
pub proof fn law_settings_are_read(content: Seq<char>)
    ensures
        gemini_auth::settings_tree(None) is None,
        gemini_auth::settings_tree(Some(content)) == json::json_of_text(content),
{
}

/// Where no settings can be read, the hint is all that is written: an object with
/// `security`, that holds `auth`, that holds the two entries of the hint.
pub proof fn law_hint_alone(settings: Option<JsonTree>, kind: Seq<char>)
    requires
        settings matches Some(t) ==> !(t is Object),
    ensures
        gemini_auth::hinted_settings(settings, kind) matches JsonTree::Object(root) && root.len()
            == 1 && root[0].0 == "security"@ && (root[0].1 matches JsonTree::Object(security)
            && security.len() == 1 && security[0].0 == "auth"@ && (
        security[0].1 matches JsonTree::Object(auth) && auth.len() == 2)),
{
    reveal_strlit("selectedType");
    reveal_strlit("useExternal");
    assert("selectedType"@.len() != "useExternal"@.len());
    reveal_with_fuel(json::entries_set, 3);
}

// ---------------------------------------------------------------------------
// The vendor configuration
// ---------------------------------------------------------------------------

/// A variable that is set a second time keeps its place and has the new value; a
/// new one comes last.
pub proof fn law_pairs_are_put(
    pairs: Seq<(Seq<char>, Seq<char>)>,
    key: Seq<char>,
    value: Seq<char>,
    i: int,
)
    requires
        0 <= i <= pairs.len(),
        forall|j: int| 0 <= j < i ==> (#[trigger] pairs[j]).0 != key,
        i < pairs.len() ==> pairs[i].0 == key,
    ensures
        i < pairs.len() ==> gemini_auth::pairs_put(pairs, key, value) == pairs.update(
            i,
            (key, value),
        ),
        i == pairs.len() ==> gemini_auth::pairs_put(pairs, key, value) == pairs.push((key, value)),
    decreases i,
{
    let out = gemini_auth::pairs_put(pairs, key, value);
    if i == 0 {
        if pairs.len() > 0 {
            assert(out =~= pairs.update(0, (key, value)));
        } else {
            assert(out =~= pairs.push((key, value)));
        }
    } else {
        assert(pairs[0].0 != key);
        let rest = pairs.drop_first();
        assert forall|j: int| 0 <= j < i - 1 implies (#[trigger] rest[j]).0 != key by {
            assert(rest[j] == pairs[j + 1]);
        }
        law_pairs_are_put(rest, key, value, i - 1);
        if i < pairs.len() {
            assert(out =~= pairs.update(i, (key, value)));
        } else {
            assert(out =~= pairs.push((key, value)));
        }
    }
}

/// The value of a variable: a string without the white space at its ends, nothing
/// for null, and the JSON text of any other value.
pub proof fn law_values_of_variables(t: JsonTree)
    ensures
        t matches JsonTree::Text(s) ==> gemini_auth::env_value(t) == Some(text::trimmed(s)),
        t is Null ==> gemini_auth::env_value(t) is None,
        !(t is Text) && !(t is Null) ==> gemini_auth::env_value(t) == Some(
            json::display_text(t.settled()),
        ),
{
}

/// The configuration sets its variables in their order: each under its name
/// without the white space at its ends, where neither that nor its value is
/// empty.
pub proof fn law_variables_are_set(
    entries: Seq<(Seq<char>, JsonTree)>,
    name: Seq<char>,
    t: JsonTree,
)
    ensures
        ({
            let before = gemini_auth::env_pairs(entries);
            let after = gemini_auth::env_pairs(entries.push((name, t)));
            let key = text::trimmed(name);
            match gemini_auth::env_value(t) {
                Some(value) => if key.len() > 0 && value.len() > 0 {
                    after == gemini_auth::pairs_put(before, key, value)
                } else {
                    after == before
                },
                None => after == before,
            }
        }),
        gemini_auth::env_pairs(Seq::empty()).len() == 0,
{
    assert(entries.push((name, t)).drop_last() =~= entries);
}

/// A section that is an object counts unless its `enabled` is false. It gives the
/// variables of its `env` and the mode under `auth_mode`, or else `authMode`,
/// without the white space at its ends.
pub proof fn law_vendor_section(root: JsonTree, section: Seq<(Seq<char>, JsonTree)>)
    requires
        root.field("gemini"@) == Some(JsonTree::Object(section)),
    ensures
        ({
            let v = gemini_auth::vendor_config(Some(root));
            let mode = if json::lookup(section, "auth_mode"@) is Some {
                json::lookup(section, "auth_mode"@)
            } else {
                json::lookup(section, "authMode"@)
            };
            let off = json::lookup(section, "enabled"@) == Some(JsonTree::Bool(false));
            &&& off ==> v.env.len() == 0 && v.auth_mode is None
            &&& !off ==> (match json::lookup(section, "env"@) {
                Some(JsonTree::Object(entries)) => v.env == gemini_auth::env_pairs(entries),
                _ => v.env.len() == 0,
            })
            &&& !off ==> (match mode {
                Some(JsonTree::Text(s)) => if text::trimmed(s).len() > 0 {
                    v.auth_mode == Some(text::trimmed(s))
                } else {
                    v.auth_mode is None
                },
                _ => v.auth_mode is None,
            })
        }),
{
}

/// Without a configuration, or without a section that is an object, nothing is
/// set.
pub proof fn law_vendor_section_may_be_missing(root: JsonTree)
    ensures
        gemini_auth::vendor_config(None).env.len() == 0,
        gemini_auth::vendor_config(None).auth_mode is None,
        !(root.field("gemini"@) matches Some(JsonTree::Object(_))) ==> gemini_auth::vendor_config(
            Some(root),
        ).env.len() == 0 && gemini_auth::vendor_config(Some(root)).auth_mode is None,
{
}

/// Without a home directory there is no root; else an override that is not blank
/// is the root, without the white space at its ends, and the home otherwise.
pub proof fn law_roots(over: Seq<char>)
    ensures
        gemini_auth::gemini_root(false, None) is None,
        gemini_auth::gemini_root(false, Some(over)) is None,
        gemini_auth::gemini_root(true, None) == Some(RootView::Home),
        text::trimmed(over).len() == 0 ==> gemini_auth::gemini_root(true, Some(over)) == Some(
            RootView::Home,
        ),
        text::trimmed(over).len() > 0 ==> gemini_auth::gemini_root(true, Some(over)) == Some(
            RootView::Override(text::trimmed(over)),
        ),
{
}

// ---------------------------------------------------------------------------
// The process
// ---------------------------------------------------------------------------

/// An option and its value, or nothing.
pub open spec fn option_is(
    args: Seq<Seq<char>>,
    name: Seq<char>,
    given: bool,
    value: Seq<char>,
) -> bool {
    &&& given ==> args.len() == 2 && args[0] == name && args[1] == value
    &&& !given ==> args.len() == 0
}

/// The arguments of a turn: the output format; the model, the approval mode and
/// the session that is continued, each where it is given; the words of the
/// custom arguments; and the prompt, made of the message, the hint and the
/// images.
pub proof fn law_arguments_of_a_turn(
    session: SessionView,
    params: ParamsView,
    absolute: bool,
    windows: bool,
) -> (parts: (Seq<Seq<char>>, Seq<Seq<char>>, Seq<Seq<char>>, Seq<Seq<char>>))
    ensures
        ({
            let (model, approval, resume, custom) = parts;
            let approved = gemini_prompt::approval_mode(params.access_mode);
            &&& gemini_command::turn_args(session, params, absolute, windows) == seq![
                "--output-format"@,
                "stream-json"@,
            ] + model + approval + resume + custom + seq![
                "--prompt"@,
                gemini_prompt::safe_prompt(
                    gemini_prompt::with_images(
                        gemini_prompt::hinted(params.text, params.custom_spec_root, absolute),
                        params.images,
                        windows,
                    ),
                ),
            ]
            &&& match params.model {
                Some(m) => option_is(
                    model,
                    "--model"@,
                    text::trimmed(m).len() > 0,
                    text::trimmed(m),
                ),
                None => model.len() == 0,
            }
            &&& match approved {
                Some(a) => option_is(approval, "--approval-mode"@, true, a),
                None => approval.len() == 0,
            }
            &&& match params.session_id {
                Some(id) => option_is(
                    resume,
                    "--resume"@,
                    params.continue_session && text::trimmed(id).len() > 0,
                    text::trimmed(id),
                ),
                None => resume.len() == 0,
            }
            &&& match session.custom_args {
                Some(args) => custom == text::words(args),
                None => custom.len() == 0,
            }
        }),
{
    (
        gemini_command::option_args("--model"@, text::non_blank(params.model)),
        gemini_command::option_args(
            "--approval-mode"@,
            gemini_prompt::approval_mode(params.access_mode),
        ),
        gemini_command::option_args("--resume"@, gemini_command::resumed_session(params)),
        match session.custom_args {
            Some(args) => text::words(args),
            None => Seq::empty(),
        },
    )
}

/// The environment of a turn: the variables of the vendor configuration in their
/// order, then the switches of the mode, then the home of the session, where it
/// has one.
pub proof fn law_environment_of_a_turn(session: SessionView, vendor: VendorView, i: int)
    ensures
        ({
            let env = gemini_command::turn_env(session, vendor);
            let switches = gemini_auth::auth_env(vendor.auth_mode);
            let n = vendor.env.len() as int;
            let m = n + switches.len();
            &&& 0 <= i < n ==> env[i] == EnvChangeView::Assign(vendor.env[i].0, vendor.env[i].1)
            &&& n <= i < m ==> env[i] == switches[i - n]
            &&& session.home_dir is None ==> env.len() == m
            &&& session.home_dir matches Some(home) ==> env.len() == m + 1 && env[m]
                == EnvChangeView::Assign("GEMINI_CLI_HOME"@, home)
        }),
{
}

/// The program of a turn is the configured one, else the one that was found,
/// else `gemini` by its name.
pub proof fn law_program_of_a_turn(
    session: SessionView,
    params: ParamsView,
    found: Option<Seq<char>>,
    vendor: VendorView,
    absolute: bool,
    windows: bool,
)
    ensures
        ({
            let plan = gemini_command::turn_plan(
                session,
                params,
                found,
                vendor,
                absolute,
                windows,
            );
            &&& session.bin_path is Some ==> Some(plan.program) == session.bin_path
            &&& session.bin_path is None && found is Some ==> Some(plan.program) == found
            &&& session.bin_path is None && found is None ==> plan.program == "gemini"@
            &&& plan.args == gemini_command::turn_args(session, params, absolute, windows)
            &&& plan.env == gemini_command::turn_env(session, vendor)
        }),
{
}

} // verus!
