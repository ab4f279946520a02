//! What holds of prompts, of the process of a turn and of its environment.
use crate::gemini_auth;
use crate::gemini_auth::{EnvChangeView, VendorView};
use crate::gemini_command;
use crate::gemini_prompt;
use crate::gemini_session::{ParamsView, SessionView};
use crate::json;
use crate::json::JsonTree;
use crate::laws_json;
use crate::text;
use vstd::prelude::*;
use vstd::string::*;

verus! {

// ---------------------------------------------------------------------------
// Prompts
// ---------------------------------------------------------------------------

/// No image is referred to twice.
pub proof fn law_images_are_named_once(images: Seq<Seq<char>>, windows: bool)
    ensures
        gemini_prompt::image_references(images, windows).no_duplicates(),
    decreases images.len(),
{
    if images.len() > 0 {
        law_images_are_named_once(images.drop_last(), windows);
    }
}

/// Every local image is referred to, and nothing else is.
pub proof fn law_local_images_are_named(
    images: Seq<Seq<char>>,
    windows: bool,
    reference: Seq<char>,
)
    ensures
        gemini_prompt::image_references(images, windows).contains(reference) <==> exists|i: int|
            0 <= i < images.len() && (match #[trigger] gemini_prompt::image_path(
                images[i],
                windows,
            ) {
                Some(path) => gemini_prompt::image_reference(path) == reference,
                None => false,
            }),
    decreases images.len(),
{
    if images.len() > 0 {
        let earlier = images.drop_last();
        let before = gemini_prompt::image_references(earlier, windows);
        let all = gemini_prompt::image_references(images, windows);
        law_local_images_are_named(earlier, windows, reference);
        let last = gemini_prompt::image_path(images.last(), windows);
        if all.contains(reference) {
            if before.contains(reference) {
                let i = choose|i: int|
                    0 <= i < earlier.len() && (match #[trigger] gemini_prompt::image_path(
                        earlier[i],
                        windows,
                    ) {
                        Some(path) => gemini_prompt::image_reference(path) == reference,
                        None => false,
                    });
                assert(images[i] == earlier[i]);
            } else {
                let k = choose|k: int| 0 <= k < all.len() && all[k] == reference;
                if k < before.len() {
                    assert(before[k] == reference);
                }
                assert(images[images.len() - 1] == images.last());
            }
        }
        if exists|i: int|
            0 <= i < images.len() && (match #[trigger] gemini_prompt::image_path(
                images[i],
                windows,
            ) {
                Some(path) => gemini_prompt::image_reference(path) == reference,
                None => false,
            }) {
            let i = choose|i: int|
                0 <= i < images.len() && (match #[trigger] gemini_prompt::image_path(
                    images[i],
                    windows,
                ) {
                    Some(path) => gemini_prompt::image_reference(path) == reference,
                    None => false,
                });
            if i < images.len() - 1 {
                assert(earlier[i] == images[i]);
                let k = choose|k: int| 0 <= k < before.len() && before[k] == reference;
                assert(all[k] == reference);
            } else if !before.contains(reference) {
                assert(all[before.len() as int] == reference);
            }
        }
    }
}

/// The first character of a quoted text comes first.
proof fn lemma_quoted_front(s: Seq<char>)
    requires
        s.len() > 0,
    ensures
        gemini_prompt::quoted(s) == gemini_prompt::quoted_char(s[0]) + gemini_prompt::quoted(
            s.drop_first(),
        ),
    decreases s.len(),
{
    if s.len() == 1 {
        assert(s.drop_last() =~= Seq::empty());
        assert(s.drop_first() =~= Seq::empty());
        assert(gemini_prompt::quoted(s) =~= gemini_prompt::quoted_char(s[0])
            + gemini_prompt::quoted(s.drop_first()));
    } else {
        let front = s.drop_last();
        let rest = s.drop_first();
        lemma_quoted_front(front);
        assert(front.drop_first() =~= rest.drop_last());
        assert(gemini_prompt::quoted(s) =~= gemini_prompt::quoted_char(s[0])
            + gemini_prompt::quoted(rest));
    }
}

/// Two paths with the same quoted form are the same path.
pub proof fn law_quoting_is_one_to_one(a: Seq<char>, b: Seq<char>)
    requires
        gemini_prompt::quoted(a) == gemini_prompt::quoted(b),
    ensures
        a == b,
    decreases a.len(),
{
    if a.len() > 0 {
        lemma_quoted_front(a);
    }
    if b.len() > 0 {
        lemma_quoted_front(b);
    }
    if a.len() == 0 || b.len() == 0 {
        assert(a.len() > 0 ==> gemini_prompt::quoted(a).len() >= gemini_prompt::quoted_char(
            a[0],
        ).len());
        assert(b.len() > 0 ==> gemini_prompt::quoted(b).len() >= gemini_prompt::quoted_char(
            b[0],
        ).len());
        assert(a =~= b);
    } else {
        let qa = gemini_prompt::quoted(a);
        let qb = gemini_prompt::quoted(b);
        let ra = gemini_prompt::quoted(a.drop_first());
        let rb = gemini_prompt::quoted(b.drop_first());
        assert(qa[0] == gemini_prompt::quoted_char(a[0])[0]);
        assert(qb[0] == gemini_prompt::quoted_char(b[0])[0]);
        if qa[0] == '\\' {
            assert(qa[1] == a[0]);
            assert(qb[1] == b[0]);
        }
        assert(a[0] == b[0]);
        let n = gemini_prompt::quoted_char(a[0]).len() as int;
        assert(qa.skip(n) =~= ra);
        assert(qb.skip(n) =~= rb);
        law_quoting_is_one_to_one(a.drop_first(), b.drop_first());
        assert(a =~= seq![a[0]] + a.drop_first());
        assert(b =~= seq![b[0]] + b.drop_first());
    }
}

/// References to different paths differ.
pub proof fn law_references_are_one_to_one(a: Seq<char>, b: Seq<char>)
    requires
        gemini_prompt::image_reference(a) == gemini_prompt::image_reference(b),
    ensures
        a == b,
{
    let ra = gemini_prompt::image_reference(a);
    let rb = gemini_prompt::image_reference(b);
    assert(ra.subrange(2, ra.len() - 1) =~= gemini_prompt::quoted(a));
    assert(rb.subrange(2, rb.len() - 1) =~= gemini_prompt::quoted(b));
    law_quoting_is_one_to_one(a, b);
}

/// No prompt starts with a hyphen, and nothing of the message is lost to that.
pub proof fn law_prompt_is_no_option(message: Seq<char>)
    ensures
        !text::has_prefix(gemini_prompt::safe_prompt(message), "-"@),
        gemini_prompt::safe_prompt(message) == message || gemini_prompt::safe_prompt(message)
            == " "@ + message,
{
    reveal_strlit("-");
    reveal_strlit(" ");
    let safe = gemini_prompt::safe_prompt(message);
    if text::has_prefix(message, "-"@) && text::has_prefix(safe, "-"@) {
        assert(safe[0] == ' ');
        assert(safe.subrange(0, 1)[0] == safe[0]);
    }
}

/// The message stands at the end of what a hint makes of it.
pub proof fn law_hint_keeps_the_message(
    message: Seq<char>,
    root: Option<Seq<char>>,
    absolute: bool,
)
    ensures
        ({
            let full = gemini_prompt::hinted(message, root, absolute);
            &&& full.len() >= message.len()
            &&& full.skip(full.len() - message.len()) == message
        }),
{
    let full = gemini_prompt::hinted(message, root, absolute);
    assert(full.skip(full.len() - message.len()) =~= message);
}

// ---------------------------------------------------------------------------
// Processes
// ---------------------------------------------------------------------------

/// The prompt is the last argument, behind the option that names it, and the
/// output format comes first.
pub proof fn law_prompt_comes_last(
    session: SessionView,
    params: ParamsView,
    absolute: bool,
    windows: bool,
)
    ensures
        ({
            let args = gemini_command::turn_args(session, params, absolute, windows);
            &&& args.len() >= 4
            &&& args[0] == "--output-format"@
            &&& args[1] == "stream-json"@
            &&& args[args.len() - 2] == "--prompt"@
            &&& args.last() == gemini_command::prompt_text(params, absolute, windows)
            &&& !text::has_prefix(args.last(), "-"@)
        }),
{
    law_prompt_is_no_option(
        gemini_prompt::with_images(
            gemini_prompt::hinted(params.text, params.custom_spec_root, absolute),
            params.images,
            windows,
        ),
    );
}

/// What a second list of changes makes of a variable builds on what the first
/// made of it.
proof fn lemma_env_after_join(
    a: Seq<EnvChangeView>,
    b: Seq<EnvChangeView>,
    key: Seq<char>,
    before: Option<Seq<char>>,
)
    ensures
        gemini_auth::env_after(a + b, key, before) == gemini_auth::env_after(
            b,
            key,
            gemini_auth::env_after(a, key, before),
        ),
    decreases b.len(),
{
    if b.len() == 0 {
        assert(a + b =~= a);
    } else {
        assert((a + b).drop_last() =~= a + b.drop_last());
        assert((a + b).last() == b.last());
        lemma_env_after_join(a, b.drop_last(), key, before);
    }
}

/// What two changes make of a variable.
proof fn lemma_env_after_two(
    changes: Seq<EnvChangeView>,
    key: Seq<char>,
    before: Option<Seq<char>>,
)
    requires
        changes.len() == 2,
    ensures
        gemini_auth::env_after(changes, key, before) == (match changes[1] {
            EnvChangeView::Assign(k, v) => if k == key {
                Some(v)
            } else {
                gemini_auth::env_after(seq![changes[0]], key, before)
            },
            EnvChangeView::Remove(k) => if k == key {
                None
            } else {
                gemini_auth::env_after(seq![changes[0]], key, before)
            },
        }),
        gemini_auth::env_after(seq![changes[0]], key, before) == (match changes[0] {
            EnvChangeView::Assign(k, v) => if k == key {
                Some(v)
            } else {
                before
            },
            EnvChangeView::Remove(k) => if k == key {
                None
            } else {
                before
            },
        }),
{
    assert(changes.drop_last() =~= seq![changes[0]]);
    assert(seq![changes[0]].drop_last().len() == 0);
    assert(gemini_auth::env_after(seq![changes[0]].drop_last(), key, before) == before);
}

/// A known mode settles both switches of the command line, whatever they were:
/// a login by Google sets the one, Vertex the other, and a key neither. Other
/// variables stay as they are, and an unknown mode changes nothing.
pub proof fn law_mode_settles_the_switches(
    raw: Option<Seq<char>>,
    key: Seq<char>,
    before: Option<Seq<char>>,
)
    ensures
        ({
            let mode = gemini_auth::auth_mode(raw);
            let after = gemini_auth::env_after(gemini_auth::auth_env(raw), key, before);
            let gca = "GOOGLE_GENAI_USE_GCA"@;
            let vertex = "GOOGLE_GENAI_USE_VERTEXAI"@;
            &&& key != gca && key != vertex ==> after == before
            &&& mode is None ==> after == before
            &&& mode is Some && key == gca ==> after == if mode == Some("login_google"@) {
                Some("true"@)
            } else {
                None
            }
            &&& mode is Some && key == vertex ==> after == if gemini_auth::vertex_mode(mode) {
                Some("true"@)
            } else {
                None
            }
        }),
{
    reveal_strlit("GOOGLE_GENAI_USE_GCA");
    reveal_strlit("GOOGLE_GENAI_USE_VERTEXAI");
    reveal_strlit("login_google");
    reveal_strlit("vertex_adc");
    reveal_strlit("vertex_service_account");
    reveal_strlit("vertex_api_key");
    reveal_strlit("custom");
    reveal_strlit("gemini_api_key");
    assert("GOOGLE_GENAI_USE_GCA"@.len() != "GOOGLE_GENAI_USE_VERTEXAI"@.len());
    assert("login_google"@[0] == 'l' && "vertex_adc"@[0] == 'v' && "vertex_service_account"@[0]
        == 'v' && "vertex_api_key"@[0] == 'v' && "custom"@[0] == 'c' && "gemini_api_key"@[0]
        == 'g');
    let changes = gemini_auth::auth_env(raw);
    if changes.len() == 2 {
        lemma_env_after_two(changes, key, before);
    }
}

/// The type that is written into the settings names the same way in as the
/// switches: Vertex exactly for the modes that set the switch of Vertex, and a
/// key exactly for those that clear both.
pub proof fn law_type_agrees_with_the_switches(raw: Option<Seq<char>>)
    ensures
        ({
            let mode = gemini_auth::auth_mode(raw);
            let kind = gemini_auth::auth_type(raw);
            &&& kind == "vertex-ai"@ <==> gemini_auth::vertex_mode(mode)
            &&& kind == "gemini-api-key"@ <==> gemini_auth::key_mode(mode)
            &&& kind == "oauth-personal"@ <==> mode is None || mode == Some("login_google"@)
        }),
{
    reveal_strlit("vertex-ai");
    reveal_strlit("gemini-api-key");
    reveal_strlit("oauth-personal");
    reveal_strlit("login_google");
    reveal_strlit("vertex_adc");
    reveal_strlit("vertex_service_account");
    reveal_strlit("vertex_api_key");
    reveal_strlit("custom");
    reveal_strlit("gemini_api_key");
    assert("vertex-ai"@[0] == 'v' && "gemini-api-key"@[0] == 'g' && "oauth-personal"@[0] == 'o');
    assert("login_google"@[0] == 'l' && "vertex_adc"@[0] == 'v' && "vertex_service_account"@[0]
        == 'v' && "vertex_api_key"@[0] == 'v' && "custom"@[0] == 'c' && "gemini_api_key"@[0]
        == 'g');
}

/// Lowering a character twice is lowering it once.
pub proof fn lemma_lowered_twice(s: Seq<char>)
    ensures
        text::lowered(text::lowered(s)) == text::lowered(s),
{
    assert(text::lowered(text::lowered(s)) =~= text::lowered(s));
}

/// White space is left as it is in lower case, and nothing becomes white space.
pub proof fn lemma_lowered_trimmed(s: Seq<char>)
    ensures
        text::trimmed(text::lowered(s)) == text::lowered(text::trimmed(s)),
{
    let n = text::lowered(s);
    text::lemma_trimmed_start(s);
    let a = s.len() - text::trimmed_start(s).len();
    let t = text::trimmed_start(s);
    if t.len() > 0 {
        assert(t[0] == s[a]);
    }
    text::lemma_trimmed_start_at(n, a);
    assert(n.skip(a) =~= text::lowered(t));
    text::lemma_trimmed_end(t);
    let b = text::trimmed_end(t).len() as int;
    if b > 0 {
        assert(text::trimmed_end(t).last() == t[b - 1]);
    }
    text::lemma_trimmed_end_at(text::lowered(t), b);
    assert(text::lowered(t).take(b) =~= text::lowered(t.take(b)));
}

/// A mode that was recognised is recognised as itself.
pub proof fn law_mode_is_normal(raw: Option<Seq<char>>)
    ensures
        gemini_auth::auth_mode(gemini_auth::auth_mode(raw)) == gemini_auth::auth_mode(raw),
{
    if let Some(s) = raw {
        let t = text::trimmed(s);
        text::lemma_trimmed_twice(s);
        lemma_lowered_trimmed(t);
        lemma_lowered_twice(t);
    }
}

/// The mode of the vendor configuration has the last word on the switches, and
/// the home of the session on the home of the command line, whatever else the
/// configuration sets.
pub proof fn law_mode_and_home_come_last(
    session: SessionView,
    vendor: VendorView,
    before: Option<Seq<char>>,
)
    ensures
        ({
            let mode = gemini_auth::auth_mode(vendor.auth_mode);
            let changes = gemini_command::turn_env(session, vendor);
            let gca = gemini_auth::env_after(changes, "GOOGLE_GENAI_USE_GCA"@, before);
            let vertex = gemini_auth::env_after(changes, "GOOGLE_GENAI_USE_VERTEXAI"@, before);
            let home = gemini_auth::env_after(changes, "GEMINI_CLI_HOME"@, before);
            &&& mode is Some ==> gca == if mode == Some("login_google"@) {
                Some("true"@)
            } else {
                None
            }
            &&& mode is Some ==> vertex == if gemini_auth::vertex_mode(mode) {
                Some("true"@)
            } else {
                None
            }
            &&& session.home_dir is Some ==> home == session.home_dir
        }),
{
    reveal_strlit("GOOGLE_GENAI_USE_GCA");
    reveal_strlit("GOOGLE_GENAI_USE_VERTEXAI");
    reveal_strlit("GEMINI_CLI_HOME");
    let set = gemini_command::assignments(vendor.env);
    let switched = gemini_auth::auth_env(vendor.auth_mode);
    let housed = match session.home_dir {
        Some(home) => seq![EnvChangeView::Assign("GEMINI_CLI_HOME"@, home)],
        None => Seq::empty(),
    };
    lemma_turn_env(set, switched, housed, "GOOGLE_GENAI_USE_GCA"@, before);
    lemma_turn_env(set, switched, housed, "GOOGLE_GENAI_USE_VERTEXAI"@, before);
    lemma_turn_env(set, switched, housed, "GEMINI_CLI_HOME"@, before);
    law_mode_settles_the_switches(
        vendor.auth_mode,
        "GOOGLE_GENAI_USE_GCA"@,
        gemini_auth::env_after(set, "GOOGLE_GENAI_USE_GCA"@, before),
    );
    law_mode_settles_the_switches(
        vendor.auth_mode,
        "GOOGLE_GENAI_USE_VERTEXAI"@,
        gemini_auth::env_after(set, "GOOGLE_GENAI_USE_VERTEXAI"@, before),
    );
    assert("GEMINI_CLI_HOME"@.len() != "GOOGLE_GENAI_USE_GCA"@.len());
    assert("GEMINI_CLI_HOME"@.len() != "GOOGLE_GENAI_USE_VERTEXAI"@.len());
}

/// Three lists of changes, of which the last has at most one.
proof fn lemma_turn_env(
    a: Seq<EnvChangeView>,
    b: Seq<EnvChangeView>,
    c: Seq<EnvChangeView>,
    key: Seq<char>,
    before: Option<Seq<char>>,
)
    requires
        c.len() <= 1,
    ensures
        ({
            let mid = gemini_auth::env_after(b, key, gemini_auth::env_after(a, key, before));
            gemini_auth::env_after(a + b + c, key, before) == if c.len() == 0 {
                mid
            } else {
                match c[0] {
                    EnvChangeView::Assign(k, v) => if k == key {
                        Some(v)
                    } else {
                        mid
                    },
                    EnvChangeView::Remove(k) => if k == key {
                        None
                    } else {
                        mid
                    },
                }
            }
        }),
{
    lemma_env_after_join(a, b, key, before);
    lemma_env_after_join(a + b, c, key, before);
    if c.len() == 1 {
        assert(c.drop_last().len() == 0);
        let mid = gemini_auth::env_after(a + b, key, before);
        assert(gemini_auth::env_after(c.drop_last(), key, mid) == mid);
    }
}

// ---------------------------------------------------------------------------
// Settings
// ---------------------------------------------------------------------------

/// The value under a path of three keys.
pub open spec fn at_path(t: JsonTree, a: Seq<char>, b: Seq<char>, c: Seq<char>) -> Option<JsonTree> {
    match t.field(a) {
        Some(x) => match x.field(b) {
            Some(y) => y.field(c),
            None => None,
        },
        None => None,
    }
}

/// What is written into the settings is read back from them: the type, and that
/// no external login is used.
pub proof fn law_hint_is_read_back(settings: Option<JsonTree>, kind: Seq<char>)
    ensures
        ({
            let after = gemini_auth::hinted_settings(settings, kind);
            &&& at_path(after, "security"@, "auth"@, "selectedType"@) == Some(JsonTree::Text(kind))
            &&& at_path(after, "security"@, "auth"@, "useExternal"@) == Some(
                JsonTree::Bool(false),
            )
        }),
{
    let root = gemini_auth::entries_of(settings);
    let security = gemini_auth::entries_of(json::lookup(root, "security"@));
    let auth = gemini_auth::entries_of(json::lookup(security, "auth"@));
    let typed = json::entries_set(auth, "selectedType"@, JsonTree::Text(kind));
    let full = json::entries_set(typed, "useExternal"@, JsonTree::Bool(false));
    let secured = json::entries_set(security, "auth"@, JsonTree::Object(full));
    reveal_strlit("selectedType");
    reveal_strlit("useExternal");
    assert("selectedType"@.len() != "useExternal"@.len());
    laws_json::law_set_then_read(auth, "selectedType"@, JsonTree::Text(kind), "useExternal"@);
    laws_json::law_set_then_read(typed, "useExternal"@, JsonTree::Bool(false), "selectedType"@);
    laws_json::law_set_then_read(security, "auth"@, JsonTree::Object(full), "auth"@);
    laws_json::law_set_then_read(root, "security"@, JsonTree::Object(secured), "security"@);
}

/// Everything else in the settings stays as it was, at each level.
pub proof fn law_hint_keeps_the_rest(
    settings: Option<JsonTree>,
    kind: Seq<char>,
    key: Seq<char>,
)
    ensures
        ({
            let before = JsonTree::Object(gemini_auth::entries_of(settings));
            let after = gemini_auth::hinted_settings(settings, kind);
            let security = JsonTree::Object(gemini_auth::entries_of(before.field("security"@)));
            let auth = JsonTree::Object(gemini_auth::entries_of(security.field("auth"@)));
            &&& key != "security"@ ==> after.field(key) == before.field(key)
            &&& after.field("security"@) matches Some(s) && (key != "auth"@ ==> s.field(key)
                == security.field(key)) && (s.field("auth"@) matches Some(a) && (key
                != "selectedType"@ && key != "useExternal"@ ==> a.field(key) == auth.field(key)))
        }),
{
    let root = gemini_auth::entries_of(settings);
    let security = gemini_auth::entries_of(json::lookup(root, "security"@));
    let auth = gemini_auth::entries_of(json::lookup(security, "auth"@));
    let typed = json::entries_set(auth, "selectedType"@, JsonTree::Text(kind));
    let full = json::entries_set(typed, "useExternal"@, JsonTree::Bool(false));
    let secured = json::entries_set(security, "auth"@, JsonTree::Object(full));
    laws_json::law_set_then_read(auth, "selectedType"@, JsonTree::Text(kind), key);
    laws_json::law_set_then_read(typed, "useExternal"@, JsonTree::Bool(false), key);
    laws_json::law_set_then_read(security, "auth"@, JsonTree::Object(full), key);
    laws_json::law_set_then_read(root, "security"@, JsonTree::Object(secured), key);
}

// ---------------------------------------------------------------------------
// The vendor configuration
// ---------------------------------------------------------------------------

/// The names and values are not empty, the names are trimmed, and none is
/// there twice.
pub open spec fn proper_env(pairs: Seq<(Seq<char>, Seq<char>)>) -> bool {
    &&& forall|i: int|
        0 <= i < pairs.len() ==> {
            &&& (#[trigger] pairs[i]).0.len() > 0
            &&& pairs[i].1.len() > 0
            &&& text::trimmed(pairs[i].0) == pairs[i].0
        }
    &&& forall|i: int, j: int|
        0 <= i < j < pairs.len() ==> (#[trigger] pairs[i]).0 != (#[trigger] pairs[j]).0
}

/// Putting a variable changes it alone.
proof fn lemma_pairs_put(
    pairs: Seq<(Seq<char>, Seq<char>)>,
    key: Seq<char>,
    value: Seq<char>,
)
    requires
        proper_env(pairs),
        key.len() > 0,
        value.len() > 0,
        text::trimmed(key) == key,
    ensures
        proper_env(gemini_auth::pairs_put(pairs, key, value)),
        forall|i: int|
            0 <= i < gemini_auth::pairs_put(pairs, key, value).len() ==> (
            #[trigger] gemini_auth::pairs_put(pairs, key, value)[i]).0 == key || exists|j: int|
                0 <= j < pairs.len() && (#[trigger] pairs[j]).0 == gemini_auth::pairs_put(
                    pairs,
                    key,
                    value,
                )[i].0,
    decreases pairs.len(),
{
    let after = gemini_auth::pairs_put(pairs, key, value);
    if pairs.len() == 0 {
    } else {
        let rest = pairs.drop_first();
        assert(proper_env(rest)) by {
            assert forall|i: int| 0 <= i < rest.len() implies {
                &&& (#[trigger] rest[i]).0.len() > 0
                &&& rest[i].1.len() > 0
                &&& text::trimmed(rest[i].0) == rest[i].0
            } by {
                assert(rest[i] == pairs[i + 1]);
            }
            assert forall|i: int, j: int| 0 <= i < j < rest.len() implies (#[trigger] rest[i]).0
                != (#[trigger] rest[j]).0 by {
                assert(rest[i] == pairs[i + 1] && rest[j] == pairs[j + 1]);
            }
        }
        lemma_pairs_put(rest, key, value);
        let tail = gemini_auth::pairs_put(rest, key, value);
        if pairs[0].0 == key {
            assert forall|i: int| 0 < i < after.len() implies #[trigger] after[i] == pairs[i] by {}
            assert forall|i: int, j: int| 0 <= i < j < after.len() implies (#[trigger] after[i]).0
                != (#[trigger] after[j]).0 by {
                assert(after[j] == pairs[j]);
                assert(after[i].0 == pairs[i].0);
            }
        } else {
            assert forall|i: int| 0 < i < after.len() implies #[trigger] after[i] == tail[i - 1] by {}
            assert(after[0] == pairs[0]);
            assert forall|i: int| 0 <= i < after.len() implies (#[trigger] after[i]).0 == key
                || exists|j: int|
                0 <= j < pairs.len() && (#[trigger] pairs[j]).0 == after[i].0 by {
                if i > 0 && tail[i - 1].0 != key {
                    let j = choose|j: int|
                        0 <= j < rest.len() && (#[trigger] rest[j]).0 == tail[i - 1].0;
                    assert(pairs[j + 1].0 == after[i].0);
                }
            }
            assert forall|i: int, j: int| 0 <= i < j < after.len() implies (#[trigger] after[i]).0
                != (#[trigger] after[j]).0 by {
                assert(after[j] == tail[j - 1]);
                if i > 0 {
                    assert(after[i] == tail[i - 1]);
                } else if tail[j - 1].0 != key {
                    let k = choose|k: int|
                        0 <= k < rest.len() && (#[trigger] rest[k]).0 == tail[j - 1].0;
                    assert(rest[k] == pairs[k + 1]);
                }
            }
        }
    }
}

/// The variables of the vendor configuration have names and values, and no
/// name is there twice.
pub proof fn law_vendor_env_is_proper(entries: Seq<(Seq<char>, JsonTree)>)
    ensures
        proper_env(gemini_auth::env_pairs(entries)),
    decreases entries.len(),
{
    if entries.len() > 0 {
        law_vendor_env_is_proper(entries.drop_last());
        let before = gemini_auth::env_pairs(entries.drop_last());
        let key = text::trimmed(entries.last().0);
        text::lemma_trimmed_twice(entries.last().0);
        if let Some(value) = gemini_auth::env_value(entries.last().1) {
            if key.len() > 0 && value.len() > 0 {
                lemma_pairs_put(before, key, value);
            }
        }
    }
}

/// A section that is switched off gives nothing.
pub proof fn law_disabled_section_gives_nothing(root: JsonTree, section: JsonTree)
    requires
        root.field("gemini"@) == Some(section),
        section.field("enabled"@) == Some(JsonTree::Bool(false)),
    ensures
        gemini_auth::vendor_config(Some(root)).env.len() == 0,
        gemini_auth::vendor_config(Some(root)).auth_mode is None,
{
}

} // verus!
