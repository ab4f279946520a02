use codemoss::gemini_auth::{EnvChange, GeminiRoot, GeminiVendorRuntimeConfig};
use codemoss::gemini_prompt::{
    guard_prompt, normalize_image_path, on_windows, spec_root_is_absolute, with_checked_spec_hint,
    with_image_references_on,
};
use codemoss::gemini_session::{EngineConfig, GeminiSession, SendMessageParams};
use codemoss::json::{parse_json, Json};
use std::path::PathBuf;

fn json(text: &str) -> Json {
    match parse_json(text) {
        Some(value) => value,
        None => panic!("no JSON: {}", text),
    }
}

fn session(config: Option<EngineConfig>) -> GeminiSession {
    GeminiSession::new("w".to_string(), PathBuf::from("/work"), config)
}

fn params(text: &str) -> SendMessageParams {
    SendMessageParams {
        text: text.to_string(),
        model: None,
        access_mode: None,
        images: None,
        continue_session: false,
        session_id: None,
        custom_spec_root: None,
    }
}

fn nothing() -> GeminiVendorRuntimeConfig {
    GeminiSession::parse_vendor_runtime_config(None)
}

fn assign(key: &str, value: &str) -> EnvChange {
    EnvChange::Assign(key.to_string(), value.to_string())
}

fn remove(key: &str) -> EnvChange {
    EnvChange::Remove(key.to_string())
}

#[test]
fn selected_auth_type_for_api_key_modes() {
    assert_eq!(
        GeminiSession::selected_auth_type_for_mode(Some("custom")),
        "gemini-api-key"
    );
    assert_eq!(
        GeminiSession::selected_auth_type_for_mode(Some("gemini_api_key")),
        "gemini-api-key"
    );
}

#[test]
fn selected_auth_type_for_vertex_modes() {
    assert_eq!(
        GeminiSession::selected_auth_type_for_mode(Some("vertex_api_key")),
        "vertex-ai"
    );
    assert_eq!(
        GeminiSession::selected_auth_type_for_mode(Some("vertex_adc")),
        "vertex-ai"
    );
    assert_eq!(
        GeminiSession::selected_auth_type_for_mode(Some("vertex_service_account")),
        "vertex-ai"
    );
}

#[test]
fn selected_auth_type_for_login_google_mode() {
    assert_eq!(
        GeminiSession::selected_auth_type_for_mode(Some("login_google")),
        "oauth-personal"
    );
    assert_eq!(
        GeminiSession::selected_auth_type_for_mode(Some("unknown")),
        "oauth-personal"
    );
}

#[test]
fn with_image_references_appends_deduped_at_paths() {
    let images = vec![
        "/tmp/screen 1.png".to_string(),
        "/tmp/screen 1.png".to_string(),
        "/tmp/screen-2.jpg".to_string(),
    ];
    let prompt =
        GeminiSession::with_image_references("Describe screenshots", Some(images.as_slice()));
    assert_eq!(
        prompt,
        "Describe screenshots\n\n@\"/tmp/screen 1.png\" @\"/tmp/screen-2.jpg\""
    );
}

#[test]
fn with_image_references_strips_file_uri_prefix() {
    let images = vec!["file:///Users/demo/a.png".to_string()];
    let prompt = GeminiSession::with_image_references("Describe", Some(images.as_slice()));
    assert_eq!(prompt, "Describe\n\n@\"/Users/demo/a.png\"");
}

#[test]
fn with_image_references_skips_unsupported_data_urls() {
    let images = vec!["data:image/png;base64,AAAA".to_string()];
    let prompt = GeminiSession::with_image_references("Describe", Some(images.as_slice()));
    assert_eq!(prompt, "Describe");
}

#[test]
fn approval_mode_current_uses_cli_default() {
    assert_eq!(GeminiSession::resolve_approval_mode(Some("current")), None);
}

#[test]
fn approval_mode_full_access_maps_to_yolo() {
    assert_eq!(
        GeminiSession::resolve_approval_mode(Some("full-access")),
        Some("yolo")
    );
}

#[test]
fn approval_modes_in_all_forms() {
    assert_eq!(GeminiSession::resolve_approval_mode(None), None);
    assert_eq!(GeminiSession::resolve_approval_mode(Some("  ")), None);
    assert_eq!(GeminiSession::resolve_approval_mode(Some(" read-only ")), Some("plan"));
    assert_eq!(GeminiSession::resolve_approval_mode(Some("default")), Some("default"));
    assert_eq!(GeminiSession::resolve_approval_mode(Some("legacy")), Some("auto_edit"));
}

#[test]
fn auth_modes_are_normal() {
    assert_eq!(GeminiSession::normalize_auth_mode(Some(" Vertex_ADC ")), Some("vertex_adc"));
    assert_eq!(GeminiSession::normalize_auth_mode(Some("vertex_adc")), Some("vertex_adc"));
    assert_eq!(GeminiSession::normalize_auth_mode(Some("other")), None);
    assert_eq!(GeminiSession::normalize_auth_mode(None), None);
    assert_eq!(
        GeminiSession::auth_mode_env_overrides(Some("login_google")),
        vec![assign("GOOGLE_GENAI_USE_GCA", "true"), remove("GOOGLE_GENAI_USE_VERTEXAI")]
    );
    assert_eq!(
        GeminiSession::auth_mode_env_overrides(Some("vertex_api_key")),
        vec![assign("GOOGLE_GENAI_USE_VERTEXAI", "true"), remove("GOOGLE_GENAI_USE_GCA")]
    );
    assert_eq!(
        GeminiSession::auth_mode_env_overrides(Some("custom")),
        vec![remove("GOOGLE_GENAI_USE_GCA"), remove("GOOGLE_GENAI_USE_VERTEXAI")]
    );
    assert!(GeminiSession::auth_mode_env_overrides(Some("?")).is_empty());
}

#[test]
fn image_paths_on_both_systems() {
    assert_eq!(normalize_image_path("  ", false), None);
    assert_eq!(normalize_image_path("https://x/y.png", false), None);
    assert_eq!(normalize_image_path("http://x/y.png", false), None);
    assert_eq!(normalize_image_path(" a.png ", false).as_deref(), Some("a.png"));
    assert_eq!(
        normalize_image_path("file://localhost/etc/a.png", false).as_deref(),
        Some("etc/a.png")
    );
    assert_eq!(normalize_image_path("file:///C:/a.png", true).as_deref(), Some("C:/a.png"));
    assert_eq!(normalize_image_path("file:///C:/a.png", false).as_deref(), Some("/C:/a.png"));
    assert_eq!(normalize_image_path("file:///é:/a.png", true).as_deref(), Some("/é:/a.png"));
    assert_eq!(
        GeminiSession::normalize_image_path_for_prompt("file:///tmp/a.png").as_deref(),
        Some("/tmp/a.png")
    );
    assert!(!on_windows());
}

#[test]
fn references_are_quoted_one_to_one() {
    assert_eq!(GeminiSession::escape_image_reference("a\\b\"c"), "@\"a\\\\b\\\"c\"");
    assert_ne!(
        GeminiSession::escape_image_reference("a\\"),
        GeminiSession::escape_image_reference("a\\\\")
    );
    let images = vec!["x.png".to_string()];
    assert_eq!(with_image_references_on("  \n", Some(images.as_slice()), false), "@\"x.png\"");
    assert_eq!(with_image_references_on(" m \n", Some(images.as_slice()), false), " m\n\n@\"x.png\"");
    assert_eq!(with_image_references_on(" m \n", None, false), " m \n");
}

#[test]
fn spec_hint_needs_an_absolute_root() {
    let hinted = "[External OpenSpec Root]\n- Path: /specs\n- Treat this as the active spec root \
                  when checking or reading project specs.\n[/External OpenSpec Root]\n\nhello";
    assert_eq!(GeminiSession::with_external_spec_hint("hello", Some(" /specs ")), hinted);
    assert_eq!(GeminiSession::with_external_spec_hint("hello", Some("specs")), "hello");
    assert_eq!(GeminiSession::with_external_spec_hint("hello", Some("  ")), "hello");
    assert_eq!(GeminiSession::with_external_spec_hint("hello", None), "hello");
    assert_eq!(with_checked_spec_hint("hello", Some("/specs"), true), hinted);
    assert_eq!(with_checked_spec_hint("hello", Some("/specs"), false), "hello");
    assert!(spec_root_is_absolute(Some(" /a")));
    assert!(!spec_root_is_absolute(Some("a")));
    assert!(!spec_root_is_absolute(None));
}

#[test]
fn prompt_is_never_an_option() {
    assert_eq!(guard_prompt("--help".to_string()), " --help");
    assert_eq!(guard_prompt("help".to_string()), "help");
    assert_eq!(guard_prompt(String::new()), "");
}

#[test]
fn plain_command() {
    let plan = session(None).build_command(&params("-x"), None, &nothing());
    assert_eq!(plan.program, "gemini");
    assert_eq!(plan.args, vec!["--output-format", "stream-json", "--prompt", " -x"]);
    assert!(plan.env.is_empty());
    let mut rooted = params("x");
    rooted.custom_spec_root = Some(" specs ".to_string());
    let relative = session(None).build_command(&rooted, None, &nothing());
    assert_eq!(relative.args, vec!["--output-format", "stream-json", "--prompt", "x"]);
    rooted.custom_spec_root = Some("/specs".to_string());
    let absolute = session(None).build_command(&rooted, None, &nothing());
    assert!(absolute.args[3].starts_with("[External OpenSpec Root]\n- Path: /specs\n"));
    let found = session(None).build_command(&params("x"), Some("/bin/gemini"), &nothing());
    assert_eq!(found.program, "/bin/gemini");
}

#[test]
fn full_command() {
    let config = EngineConfig {
        bin_path: Some("/opt/gemini".to_string()),
        home_dir: Some("/home/g".to_string()),
        custom_args: Some("  --a \t b\n".to_string()),
    };
    let mut message = params("hi");
    message.model = Some(" pro ".to_string());
    message.access_mode = Some("read-only".to_string());
    message.images = Some(vec!["/i.png".to_string()]);
    message.continue_session = true;
    message.session_id = Some(" s1 ".to_string());
    let vendor = GeminiSession::parse_vendor_runtime_config(Some(
        r#"{"gemini": {"authMode": "login_google", "env": {" K ": " v ", "N": 3, "Z": null, "E": " ", " ": "x"}}}"#,
    ));
    let plan = session(Some(config)).build_command(&message, Some("/bin/gemini"), &vendor);
    assert_eq!(plan.program, "/opt/gemini");
    assert_eq!(
        plan.args,
        vec![
            "--output-format",
            "stream-json",
            "--model",
            "pro",
            "--approval-mode",
            "plan",
            "--resume",
            "s1",
            "--a",
            "b",
            "--prompt",
            "hi\n\n@\"/i.png\"",
        ]
    );
    assert_eq!(
        plan.env,
        vec![
            assign("K", "v"),
            assign("N", "3"),
            assign("GOOGLE_GENAI_USE_GCA", "true"),
            remove("GOOGLE_GENAI_USE_VERTEXAI"),
            assign("GEMINI_CLI_HOME", "/home/g"),
        ]
    );
    message.continue_session = false;
    let fresh = session(None).plan_command(&message, None, &nothing(), false, true);
    assert!(!fresh.args.contains(&"--resume".to_string()));
}

#[test]
fn vendor_configuration_is_read_where_it_is_enabled() {
    let off = GeminiSession::parse_vendor_runtime_config(Some(
        r#"{"gemini": {"enabled": false, "auth_mode": "custom", "env": {"A": "b"}}}"#,
    ));
    assert!(off.env.is_empty());
    assert_eq!(off.auth_mode, None);
    let on = GeminiSession::parse_vendor_runtime_config(Some(
        r#"{"gemini": {"enabled": "no", "auth_mode": " custom ", "env": {"B": {"x": [1, 2]}, " B": "last", "A": true}}}"#,
    ));
    assert_eq!(on.auth_mode.as_deref(), Some("custom"));
    assert_eq!(
        on.env,
        vec![
            ("B".to_string(), r#"{"x":[1,2]}"#.to_string()),
            ("A".to_string(), "true".to_string()),
        ]
    );
    assert!(nothing().env.is_empty());
    assert_eq!(GeminiSession::parse_vendor_runtime_config(Some("{")).auth_mode, None);
    assert!(GeminiSession::parse_vendor_runtime_config(Some(r#"{"gemini": []}"#)).env.is_empty());
}

#[test]
fn settings_keep_what_they_hold() {
    let before = json(
        r#"{"theme": "dark", "security": {"folder": 1, "auth": {"selectedType": "x", "keep": true}}}"#,
    );
    let after = GeminiSession::settings_with_auth_type(Some(&before), "vertex-ai");
    assert_eq!(
        after,
        json(
            r#"{
                "security": {
                    "auth": {"keep": true, "selectedType": "vertex-ai", "useExternal": false},
                    "folder": 1
                },
                "theme": "dark"
            }"#
        )
    );
    assert_eq!(
        GeminiSession::settings_with_auth_type(Some(&json(r#"{"security": 3}"#)), "k"),
        json(r#"{"security": {"auth": {"selectedType": "k", "useExternal": false}}}"#)
    );
    assert_eq!(
        GeminiSession::settings_with_auth_type(None, "k"),
        json(r#"{"security": {"auth": {"selectedType": "k", "useExternal": false}}}"#)
    );
}

#[test]
fn settings_are_written_indented() {
    let written = "{\n  \"security\": {\n    \"auth\": {\n      \"selectedType\": \"vertex-ai\",\n      \
                   \"useExternal\": false\n    }\n  }\n}";
    assert_eq!(
        GeminiSession::auth_mode_hint_settings(None, Some("vertex_adc")).as_deref(),
        Some(written)
    );
    assert_eq!(
        GeminiSession::auth_mode_hint_settings(Some("not json"), Some("vertex_adc")).as_deref(),
        Some(written)
    );
    assert_eq!(
        GeminiSession::auth_mode_hint_settings(Some(written), Some("vertex_adc")).as_deref(),
        Some(written)
    );
}

#[test]
fn directory_of_the_command_line() {
    assert_eq!(GeminiSession::gemini_root(false, Some("/x")), None);
    assert_eq!(
        GeminiSession::gemini_root(true, Some(" /x ")),
        Some(GeminiRoot::Override("/x".to_string()))
    );
    assert_eq!(GeminiSession::gemini_root(true, Some(" ")), Some(GeminiRoot::Home));
    assert_eq!(GeminiSession::gemini_root(true, None), Some(GeminiRoot::Home));
    assert_eq!(GeminiSession::gemini_dir_suffix(Some(".gemini")), None);
    assert_eq!(GeminiSession::gemini_dir_suffix(Some("home")), Some(".gemini"));
    assert_eq!(GeminiSession::gemini_dir_suffix(None), Some(".gemini"));
}

#[test]
fn session_keeps_its_id_and_its_interruption() {
    let mut s = session(None);
    assert_eq!(s.get_session_id(), None);
    s.set_session_id(Some("s1".to_string()));
    assert_eq!(s.get_session_id().as_deref(), Some("s1"));
    assert!(!s.take_interrupt());
    s.interrupt();
    assert!(s.take_interrupt());
    assert!(!s.take_interrupt());
    let event = s.emit_error("t", "bad".to_string());
    assert_eq!(event.turn_id, "t");
    assert_eq!(
        event.event,
        codemoss::events::EngineEvent::TurnError {
            workspace_id: "w".to_string(),
            error: "bad".to_string(),
            code: None,
        }
    );
}
