//! How the Gemini command line authenticates: modes, settings and environment.
use crate::gemini_event;
use crate::gemini_session::GeminiSession;
use crate::json;
use crate::json::{Json, JsonTree};
use crate::laws_json;
use crate::text;
use vstd::prelude::*;
use vstd::string::*;

verus! {

/// A change to the environment of a process.
#[derive(Debug, Clone, PartialEq)]
pub enum EnvChange {
    Assign(String, String),
    Remove(String),
}

/// What a change to the environment holds.
pub enum EnvChangeView {
    Assign(Seq<char>, Seq<char>),
    Remove(Seq<char>),
}

impl View for EnvChange {
    type V = EnvChangeView;

    open spec fn view(&self) -> EnvChangeView {
        match *self {
            EnvChange::Assign(key, value) => EnvChangeView::Assign(key@, value@),
            EnvChange::Remove(key) => EnvChangeView::Remove(key@),
        }
    }
}

/// What a list of changes holds.
pub open spec fn change_views(changes: Seq<EnvChange>) -> Seq<EnvChangeView> {
    Seq::new(changes.len(), |i: int| changes[i]@)
}

/// The value of a variable after a list of changes, given its value before.
pub open spec fn env_after(
    changes: Seq<EnvChangeView>,
    key: Seq<char>,
    before: Option<Seq<char>>,
) -> Option<Seq<char>>
    decreases changes.len(),
{
    if changes.len() == 0 {
        before
    } else {
        match changes.last() {
            EnvChangeView::Assign(k, v) => if k == key {
                Some(v)
            } else {
                env_after(changes.drop_last(), key, before)
            },
            EnvChangeView::Remove(k) => if k == key {
                None
            } else {
                env_after(changes.drop_last(), key, before)
            },
        }
    }
}

/// The runtime settings of the vendor configuration.
#[derive(Debug)]
pub struct GeminiVendorRuntimeConfig {
    pub env: Vec<(String, String)>,
    pub auth_mode: Option<String>,
}

/// What the vendor configuration holds.
pub struct VendorView {
    pub env: Seq<(Seq<char>, Seq<char>)>,
    pub auth_mode: Option<Seq<char>>,
}

/// The texts of a list of pairs.
pub open spec fn pair_texts(pairs: Seq<(String, String)>) -> Seq<(Seq<char>, Seq<char>)> {
    Seq::new(pairs.len(), |i: int| (pairs[i].0@, pairs[i].1@))
}

impl View for GeminiVendorRuntimeConfig {
    type V = VendorView;

    open spec fn view(&self) -> VendorView {
        VendorView { env: pair_texts(self.env@), auth_mode: text::opt_string(self.auth_mode) }
    }
}

// ---------------------------------------------------------------------------
// Models
// ---------------------------------------------------------------------------

/// The names of the known modes.
pub open spec fn known_mode(mode: Seq<char>) -> bool {
    ||| mode == "custom"@
    ||| mode == "login_google"@
    ||| mode == "gemini_api_key"@
    ||| mode == "vertex_adc"@
    ||| mode == "vertex_service_account"@
    ||| mode == "vertex_api_key"@
}

/// The known mode that a setting names, whatever its case and outer space.
pub open spec fn auth_mode(raw: Option<Seq<char>>) -> Option<Seq<char>> {
    match text::non_blank(raw) {
        Some(s) => if known_mode(text::lowered(s)) {
            Some(text::lowered(s))
        } else {
            None
        },
        None => None,
    }
}

/// The modes that go through Vertex.
pub open spec fn vertex_mode(mode: Option<Seq<char>>) -> bool {
    ||| mode == Some("vertex_adc"@)
    ||| mode == Some("vertex_service_account"@)
    ||| mode == Some("vertex_api_key"@)
}

/// The modes that go by an API key.
pub open spec fn key_mode(mode: Option<Seq<char>>) -> bool {
    mode == Some("custom"@) || mode == Some("gemini_api_key"@)
}

/// The authentication type that the command line's settings name for a mode.
pub open spec fn auth_type(raw: Option<Seq<char>>) -> Seq<char> {
    let mode = auth_mode(raw);
    if vertex_mode(mode) {
        "vertex-ai"@
    } else if key_mode(mode) {
        "gemini-api-key"@
    } else {
        "oauth-personal"@
    }
}

/// The changes to the environment that a mode asks for.
pub open spec fn auth_env(raw: Option<Seq<char>>) -> Seq<EnvChangeView> {
    let mode = auth_mode(raw);
    if mode == Some("login_google"@) {
        seq![
            EnvChangeView::Assign("GOOGLE_GENAI_USE_GCA"@, "true"@),
            EnvChangeView::Remove("GOOGLE_GENAI_USE_VERTEXAI"@),
        ]
    } else if vertex_mode(mode) {
        seq![
            EnvChangeView::Assign("GOOGLE_GENAI_USE_VERTEXAI"@, "true"@),
            EnvChangeView::Remove("GOOGLE_GENAI_USE_GCA"@),
        ]
    } else if key_mode(mode) {
        seq![
            EnvChangeView::Remove("GOOGLE_GENAI_USE_GCA"@),
            EnvChangeView::Remove("GOOGLE_GENAI_USE_VERTEXAI"@),
        ]
    } else {
        Seq::empty()
    }
}

/// The entries of a value that is an object, or none.
pub open spec fn entries_of(t: Option<JsonTree>) -> Seq<(Seq<char>, JsonTree)> {
    match t {
        Some(JsonTree::Object(entries)) => entries,
        _ => Seq::empty(),
    }
}

/// Settings with the authentication type written into `security.auth`.
pub open spec fn hinted_settings(settings: Option<JsonTree>, kind: Seq<char>) -> JsonTree {
    let root = entries_of(settings);
    let security = entries_of(json::lookup(root, "security"@));
    let auth = entries_of(json::lookup(security, "auth"@));
    let typed = json::entries_set(auth, "selectedType"@, JsonTree::Text(kind));
    let full = json::entries_set(typed, "useExternal"@, JsonTree::Bool(false));
    let secured = json::entries_set(security, "auth"@, JsonTree::Object(full));
    JsonTree::Object(json::entries_set(root, "security"@, JsonTree::Object(secured)))
}

/// What a settings text holds, where there is one and it is JSON.
pub open spec fn settings_tree(content: Option<Seq<char>>) -> Option<JsonTree> {
    match content {
        Some(s) => json::json_of_text(s),
        None => None,
    }
}

/// The pairs with `key` set to `value`: in its place if it is there, else at
/// the end.
pub open spec fn pairs_put(
    pairs: Seq<(Seq<char>, Seq<char>)>,
    key: Seq<char>,
    value: Seq<char>,
) -> Seq<(Seq<char>, Seq<char>)>
    decreases pairs.len(),
{
    if pairs.len() == 0 {
        seq![(key, value)]
    } else if pairs[0].0 == key {
        seq![(key, value)] + pairs.drop_first()
    } else {
        seq![pairs[0]] + pairs_put(pairs.drop_first(), key, value)
    }
}

/// The text of a variable in the vendor configuration.
pub open spec fn env_value(t: JsonTree) -> Option<Seq<char>> {
    match t {
        JsonTree::Text(s) => Some(text::trimmed(s)),
        JsonTree::Null => None,
        _ => Some(json::display_text(t.settled())),
    }
}

/// The variables that the entries of the vendor configuration set.
pub open spec fn env_pairs(entries: Seq<(Seq<char>, JsonTree)>) -> Seq<(Seq<char>, Seq<char>)>
    decreases entries.len(),
{
    if entries.len() == 0 {
        Seq::empty()
    } else {
        let before = env_pairs(entries.drop_last());
        let key = text::trimmed(entries.last().0);
        match env_value(entries.last().1) {
            Some(value) => if key.len() == 0 || value.len() == 0 {
                before
            } else {
                pairs_put(before, key, value)
            },
            None => before,
        }
    }
}

/// The section of the vendor configuration is switched on.
pub open spec fn section_enabled(gemini: JsonTree) -> bool {
    match gemini.field("enabled"@) {
        Some(JsonTree::Bool(flag)) => flag,
        _ => true,
    }
}

/// The runtime settings of a vendor configuration.
pub open spec fn vendor_config(root: Option<JsonTree>) -> VendorView {
    let nothing = VendorView { env: Seq::empty(), auth_mode: None };
    match root {
        None => nothing,
        Some(tree) => match tree.field("gemini"@) {
            Some(gemini) => if gemini is Object && section_enabled(gemini) {
                let mode = gemini_event::or_else(gemini.field("auth_mode"@), gemini.field("authMode"@));
                VendorView {
                    env: env_pairs(entries_of(gemini.field("env"@))),
                    auth_mode: match mode {
                        Some(value) => text::non_blank(value.text()),
                        None => None,
                    },
                }
            } else {
                nothing
            },
            None => nothing,
        },
    }
}

/// Where the directory of the command line is rooted.
#[derive(Debug, Clone, PartialEq)]
pub enum GeminiRoot {
    Home,
    Override(String),
}

/// What the root holds.
pub enum RootView {
    Home,
    Override(Seq<char>),
}

impl View for GeminiRoot {
    type V = RootView;

    open spec fn view(&self) -> RootView {
        match *self {
            GeminiRoot::Home => RootView::Home,
            GeminiRoot::Override(path) => RootView::Override(path@),
        }
    }
}

/// The root: none without a home directory, else the override if one is given.
pub open spec fn gemini_root(has_home: bool, home_override: Option<Seq<char>>) -> Option<RootView> {
    if !has_home {
        None
    } else {
        match text::non_blank(home_override) {
            Some(path) => Some(RootView::Override(path)),
            None => Some(RootView::Home),
        }
    }
}

/// The entries of a value in order are in order.
proof fn lemma_entries_neat(t: Option<JsonTree>)
    requires
        match t {
            Some(value) => value.neat(),
            None => true,
        },
    ensures
        JsonTree::Object(entries_of(t)).neat(),
{
}

/// Settings in order stay so when the authentication type is written into
/// them.
proof fn lemma_hinted_neat(settings: Option<JsonTree>, kind: Seq<char>)
    requires
        match settings {
            Some(value) => value.neat(),
            None => true,
        },
    ensures
        hinted_settings(settings, kind).neat(),
{
    let root = entries_of(settings);
    lemma_entries_neat(settings);
    laws_json::law_found_is_neat(root, "security"@);
    lemma_entries_neat(json::lookup(root, "security"@));
    let security = entries_of(json::lookup(root, "security"@));
    laws_json::law_found_is_neat(security, "auth"@);
    lemma_entries_neat(json::lookup(security, "auth"@));
    let auth = entries_of(json::lookup(security, "auth"@));
    let typed = json::entries_set(auth, "selectedType"@, JsonTree::Text(kind));
    let full = json::entries_set(typed, "useExternal"@, JsonTree::Bool(false));
    let secured = json::entries_set(security, "auth"@, JsonTree::Object(full));
    laws_json::law_set_keeps_neat(auth, "selectedType"@, JsonTree::Text(kind));
    laws_json::law_set_keeps_neat(typed, "useExternal"@, JsonTree::Bool(false));
    laws_json::law_set_keeps_neat(security, "auth"@, JsonTree::Object(full));
    laws_json::law_set_keeps_neat(root, "security"@, JsonTree::Object(secured));
}

// ---------------------------------------------------------------------------
// Functions
// ---------------------------------------------------------------------------

impl GeminiSession {
    /// The known mode that a setting names.
    pub fn normalize_auth_mode(raw_mode: Option<&str>) -> (r: Option<&'static str>)
        ensures
            text::opt_text(r) == auth_mode(text::opt_text(raw_mode)),
    {
        match text::trim_non_empty(raw_mode) {
            None => None,
            Some(trimmed) => {
                let lowered = text::lower(trimmed);
                let mode = lowered.as_str();
                if text::same(mode, "custom") {
                    Some("custom")
                } else if text::same(mode, "login_google") {
                    Some("login_google")
                } else if text::same(mode, "gemini_api_key") {
                    Some("gemini_api_key")
                } else if text::same(mode, "vertex_adc") {
                    Some("vertex_adc")
                } else if text::same(mode, "vertex_service_account") {
                    Some("vertex_service_account")
                } else if text::same(mode, "vertex_api_key") {
                    Some("vertex_api_key")
                } else {
                    None
                }
            },
        }
    }

    /// The authentication type that the command line's settings name.
    pub fn selected_auth_type_for_mode(raw_mode: Option<&str>) -> (r: &'static str)
        ensures
            r@ == auth_type(text::opt_text(raw_mode)),
    {
        match Self::normalize_auth_mode(raw_mode) {
            Some(mode) => if text::same(mode, "vertex_adc") || text::same(
                mode,
                "vertex_service_account",
            ) || text::same(mode, "vertex_api_key") {
                "vertex-ai"
            } else if text::same(mode, "custom") || text::same(mode, "gemini_api_key") {
                "gemini-api-key"
            } else {
                "oauth-personal"
            },
            None => "oauth-personal",
        }
    }

    /// The changes to the environment that a mode asks for.
    pub fn auth_mode_env_overrides(auth_mode: Option<&str>) -> (r: Vec<EnvChange>)
        ensures
            change_views(r@) == auth_env(text::opt_text(auth_mode)),
    {
        let mut out: Vec<EnvChange> = Vec::new();
        if let Some(mode) = Self::normalize_auth_mode(auth_mode) {
            if text::same(mode, "login_google") {
                out.push(EnvChange::Assign("GOOGLE_GENAI_USE_GCA".to_owned(), "true".to_owned()));
                out.push(EnvChange::Remove("GOOGLE_GENAI_USE_VERTEXAI".to_owned()));
            } else if text::same(mode, "vertex_adc") || text::same(mode, "vertex_service_account")
                || text::same(mode, "vertex_api_key") {
                out.push(EnvChange::Assign("GOOGLE_GENAI_USE_VERTEXAI".to_owned(), "true".to_owned()));
                out.push(EnvChange::Remove("GOOGLE_GENAI_USE_GCA".to_owned()));
            } else {
                out.push(EnvChange::Remove("GOOGLE_GENAI_USE_GCA".to_owned()));
                out.push(EnvChange::Remove("GOOGLE_GENAI_USE_VERTEXAI".to_owned()));
            }
        }
        assert(change_views(out@) =~= auth_env(text::opt_text(auth_mode)));
        out
    }

    /// Where the directory of the command line is rooted.
    pub fn gemini_root(has_home: bool, home_override: Option<&str>) -> (r: Option<GeminiRoot>)
        ensures
            match r {
                Some(root) => gemini_root(has_home, text::opt_text(home_override)) == Some(root@),
                None => gemini_root(has_home, text::opt_text(home_override)) is None,
            },
    {
        if !has_home {
            return None;
        }
        match text::trim_non_empty(home_override) {
            Some(path) => Some(GeminiRoot::Override(path.to_owned())),
            None => Some(GeminiRoot::Home),
        }
    }

    /// What is to be joined to the root, given the last component of its path:
    /// nothing where the root is the directory itself.
    pub fn gemini_dir_suffix(root_name: Option<&str>) -> (r: Option<&'static str>)
        ensures
            text::opt_text(r) == (if text::opt_text(root_name) == Some(".gemini"@) {
                None
            } else {
                Some(".gemini"@)
            }),
    {
        match root_name {
            Some(name) => if text::same(name, ".gemini") {
                None
            } else {
                Some(".gemini")
            },
            None => Some(".gemini"),
        }
    }

    /// The settings with the authentication type written into them.
    pub fn settings_with_auth_type(settings: Option<&Json>, selected_type: &str) -> (r: Json)
        ensures
            r@ == hinted_settings(json::opt_tree_ref(settings), selected_type@),
    {
        broadcast use json::lemma_object_tree;

        let mut root = copy_entries(settings);
        let mut security = copy_entries(json::find_entry(&root, "security"));
        let mut auth = copy_entries(json::find_entry(&security, "auth"));
        json::set_entry(&mut auth, "selectedType", Json::Text(selected_type.to_owned()));
        json::set_entry(&mut auth, "useExternal", Json::Bool(false));
        json::set_entry(&mut security, "auth", Json::Object(auth));
        json::set_entry(&mut root, "security", Json::Object(security));
        Json::Object(root)
    }

    /// The text of the settings file with the authentication type of the mode
    /// written into it, given the text that the file holds now.
    pub fn auth_mode_hint_settings(content: Option<&str>, auth_mode: Option<&str>) -> (r: Option<
        String,
    >)
        ensures
            text::opt_string(r) == Some(
                json::pretty_text(
                    hinted_settings(
                        settings_tree(text::opt_text(content)),
                        auth_type(text::opt_text(auth_mode)),
                    ),
                ),
            ),
    {
        let selected_type = Self::selected_auth_type_for_mode(auth_mode);
        let settings = match content {
            Some(s) => json::parse_json(s),
            None => None,
        };
        proof {
            lemma_hinted_neat(settings_tree(text::opt_text(content)), selected_type@);
            laws_json::law_neat_values_are_settled(
                hinted_settings(settings_tree(text::opt_text(content)), selected_type@),
            );
        }
        Self::settings_with_auth_type(settings.as_ref(), selected_type).to_pretty()
    }

    /// The runtime settings that a vendor configuration holds.
    pub fn vendor_runtime_config(root: Option<&Json>) -> (r: GeminiVendorRuntimeConfig)
        ensures
            r@ == vendor_config(json::opt_tree_ref(root)),
    {
        broadcast use json::lemma_object_tree;

        let nothing = GeminiVendorRuntimeConfig { env: Vec::new(), auth_mode: None };
        assert(pair_texts(nothing.env@) =~= Seq::empty());
        let gemini = match root {
            Some(tree) => match tree.get("gemini") {
                Some(gemini) => gemini,
                None => return nothing,
            },
            None => return nothing,
        };
        match gemini {
            Json::Object(_) => {},
            _ => return nothing,
        }
        if let Some(Json::Bool(flag)) = gemini.get("enabled") {
            if !*flag {
                return nothing;
            }
        }
        let mode = match gemini.get("auth_mode") {
            Some(value) => Some(value),
            None => gemini.get("authMode"),
        };
        let auth_mode = match mode {
            Some(value) => text::own_text(text::trim_non_empty(value.as_str())),
            None => None,
        };
        let env = match gemini.get("env") {
            Some(Json::Object(entries)) => collect_env(entries),
            _ => {
                let none: Vec<(String, String)> = Vec::new();
                assert(pair_texts(none@) =~= Seq::empty());
                none
            },
        };
        GeminiVendorRuntimeConfig { env, auth_mode }
    }

    /// The runtime settings that the text of a vendor configuration holds.
    pub fn parse_vendor_runtime_config(content: Option<&str>) -> (r: GeminiVendorRuntimeConfig)
        ensures
            r@ == vendor_config(settings_tree(text::opt_text(content))),
    {
        let root = match content {
            Some(s) => json::parse_json(s),
            None => None,
        };
        Self::vendor_runtime_config(root.as_ref())
    }
}

/// A copy of the entries of a value that is an object, or none.
fn copy_entries(value: Option<&Json>) -> (r: Vec<(String, Json)>)
    ensures
        json::entry_trees(r@) == entries_of(json::opt_tree_ref(value)),
{
    broadcast use json::lemma_object_tree;

    match value {
        Some(Json::Object(entries)) => {
            let mut out: Vec<(String, Json)> = Vec::new();
            for i in 0..entries.len()
                invariant
                    out@.len() == i,
                    forall|j: int|
                        0 <= j < i ==> {
                            &&& (#[trigger] out@[j]).0@ == entries@[j].0@
                            &&& out@[j].1@ == entries@[j].1@
                        },
            {
                out.push((entries[i].0.clone(), entries[i].1.clone()));
            }
            assert(json::entry_trees(out@) =~= json::entry_trees(entries@));
            out
        },
        _ => {
            let none: Vec<(String, Json)> = Vec::new();
            assert(json::entry_trees(none@) =~= Seq::empty());
            none
        },
    }
}

proof fn lemma_pairs_put_skips(
    pairs: Seq<(Seq<char>, Seq<char>)>,
    key: Seq<char>,
    value: Seq<char>,
    n: int,
)
    requires
        0 <= n <= pairs.len(),
        forall|j: int| 0 <= j < n ==> (#[trigger] pairs[j]).0 != key,
    ensures
        pairs_put(pairs, key, value) == pairs.take(n) + pairs_put(pairs.skip(n), key, value),
    decreases n,
{
    if n == 0 {
        assert(pairs.skip(0) =~= pairs);
        assert(pairs.take(0) + pairs_put(pairs, key, value) =~= pairs_put(pairs, key, value));
    } else {
        assert(pairs[0].0 != key);
        let rest = pairs.drop_first();
        assert forall|j: int| 0 <= j < n - 1 implies (#[trigger] rest[j]).0 != key by {
            assert(rest[j] == pairs[j + 1]);
        }
        lemma_pairs_put_skips(rest, key, value, n - 1);
        assert(rest.skip(n - 1) =~= pairs.skip(n));
        assert(seq![pairs[0]] + (rest.take(n - 1) + pairs_put(pairs.skip(n), key, value))
            =~= pairs.take(n) + pairs_put(pairs.skip(n), key, value));
    }
}

/// Sets `key` to `value` in a list of pairs.
fn put_pair(pairs: &mut Vec<(String, String)>, key: &str, value: String)
    ensures
        pair_texts(final(pairs)@) == pairs_put(pair_texts(old(pairs)@), key@, value@),
{
    let ghost before = pair_texts(pairs@);
    let mut i: usize = 0;
    while i < pairs.len() && !text::same(pairs[i].0.as_str(), key)
        invariant
            i <= pairs@.len(),
            before == pair_texts(pairs@),
            *pairs == *old(pairs),
            forall|j: int| 0 <= j < i ==> (#[trigger] before[j]).0 != key@,
        decreases pairs@.len() - i,
    {
        i = i + 1;
    }
    proof {
        lemma_pairs_put_skips(before, key@, value@, i as int);
    }
    if i < pairs.len() {
        assert(before.skip(i as int)[0] == before[i as int]);
        pairs.set(i, (key.to_owned(), value));
        assert(pair_texts(pairs@) =~= before.take(i as int) + (seq![(key@, value@)] + before.skip(
            i as int,
        ).drop_first()));
    } else {
        assert(before.skip(i as int).len() == 0);
        pairs.push((key.to_owned(), value));
        assert(pair_texts(pairs@) =~= before.take(i as int) + seq![(key@, value@)]);
    }
}

/// The variables that the entries of the vendor configuration set.
fn collect_env(entries: &Vec<(String, Json)>) -> (r: Vec<(String, String)>)
    ensures
        pair_texts(r@) == env_pairs(json::entry_trees(entries@)),
{
    let ghost all = json::entry_trees(entries@);
    let mut out: Vec<(String, String)> = Vec::new();
    assert(pair_texts(out@) =~= env_pairs(all.take(0)));
    for i in 0..entries.len()
        invariant
            all == json::entry_trees(entries@),
            pair_texts(out@) == env_pairs(all.take(i as int)),
    {
        proof {
            assert(all.take(i + 1).drop_last() =~= all.take(i as int));
            assert(all.take(i + 1).last() == all[i as int]);
        }
        let key = text::trim(entries[i].0.as_str());
        let value = match &entries[i].1 {
            Json::Text(s) => Some(text::trim(s.as_str()).to_owned()),
            Json::Null => None,
            other => Some(other.to_display()),
        };
        if let Some(v) = value {
            if !key.is_empty() && !v.as_str().is_empty() {
                put_pair(&mut out, key, v);
            }
        }
    }
    assert(all.take(entries@.len() as int) =~= all);
    out
}

} // verus!
