//! The prompt and the options that the Gemini command line is started with.
use crate::gemini_session::GeminiSession;
use crate::text;
use vstd::prelude::*;
use vstd::string::*;

verus! {

// ---------------------------------------------------------------------------
// Outside the library
// ---------------------------------------------------------------------------

/// `std::path::Path::is_absolute` on the path that the text writes down. An
/// absolute path starts with the root or has the root behind a prefix such as
/// `C:`. Which of these forms is absolute differs between platforms, so that no
/// path is claimed to be absolute.
#[verifier::external_body]
fn path_is_absolute(path: &str) -> (r: bool)
    ensures
        r ==> absolute_form(path@),
{
    std::path::Path::new(path).is_absolute()
}

/// `std::path::MAIN_SEPARATOR`, the separator of path components on the
/// current platform. Nothing is claimed of which one it is.
#[verifier::external_body]
fn main_separator() -> (r: char) {
    std::path::MAIN_SEPARATOR
}

/// Whether paths are written in the Windows way here. That is up to the platform
/// alone, so nothing is claimed of it.
pub fn on_windows() -> (r: bool) {
    main_separator() == '\\'
}

// ---------------------------------------------------------------------------
// Models
// ---------------------------------------------------------------------------

/// A character that separates the components of a path on some platform.
pub open spec fn path_separator(c: char) -> bool {
    c == '/' || c == '\\'
}

/// The form that every absolute path has: it starts with a separator, or has one
/// behind a colon.
pub open spec fn absolute_form(path: Seq<char>) -> bool {
    ||| path.len() > 0 && path_separator(path[0])
    ||| exists|i: int|
        0 <= i < path.len() - 1 && #[trigger] path[i] == ':' && path_separator(path[i + 1])
}

/// A root is given that has, trimmed, the form of an absolute path.
pub open spec fn absolute_root(root: Option<Seq<char>>) -> bool {
    match text::non_blank(root) {
        Some(path) => absolute_form(path),
        None => false,
    }
}

/// The message with a hint at the root of the specs in front of it, where a
/// root is given and is an absolute path.
pub open spec fn hinted(message: Seq<char>, root: Option<Seq<char>>, absolute: bool) -> Seq<char> {
    match text::non_blank(root) {
        Some(path) => if absolute {
            "[External OpenSpec Root]\n- Path: "@ + path
                + "\n- Treat this as the active spec root when checking or reading project specs.\n[/External OpenSpec Root]\n\n"@
                + message
        } else {
            message
        },
        None => message,
    }
}

/// The local path that an attachment names, if it names one.
pub open spec fn image_path(raw: Seq<char>, windows: bool) -> Option<Seq<char>> {
    let t = text::trimmed(raw);
    if t.len() == 0 || text::has_prefix(t, "data:"@) || text::has_prefix(t, "http://"@)
        || text::has_prefix(t, "https://"@) {
        None
    } else {
        match text::after_prefix(t, "file://"@) {
            Some(path) => {
                let local = match text::after_prefix(path, "localhost/"@) {
                    Some(rest) => rest,
                    None => path,
                };
                if windows && drive_path(local) {
                    Some(local.skip(1))
                } else {
                    Some(local)
                }
            },
            None => Some(t),
        }
    }
}

/// A path such as `/C:/x`: a slash, one ASCII character and a colon.
pub open spec fn drive_path(s: Seq<char>) -> bool {
    s.len() > 2 && s[0] == '/' && (s[1] as u32) < 128 && s[2] == ':'
}

/// One character inside quotes.
pub open spec fn quoted_char(c: char) -> Seq<char> {
    if c == '\\' || c == '"' {
        seq!['\\', c]
    } else {
        seq![c]
    }
}

/// A text inside quotes: backslashes and quotes with a backslash in front.
pub open spec fn quoted(s: Seq<char>) -> Seq<char>
    decreases s.len(),
{
    if s.len() == 0 {
        Seq::empty()
    } else {
        quoted(s.drop_last()) + quoted_char(s.last())
    }
}

/// The reference to an image path in a prompt.
pub open spec fn image_reference(path: Seq<char>) -> Seq<char> {
    seq!['@', '"'] + quoted(path) + seq!['"']
}

/// The references to the local images, each once, in the order in which they
/// are first named.
pub open spec fn image_references(images: Seq<Seq<char>>, windows: bool) -> Seq<Seq<char>>
    decreases images.len(),
{
    if images.len() == 0 {
        Seq::empty()
    } else {
        let before = image_references(images.drop_last(), windows);
        match image_path(images.last(), windows) {
            Some(path) => if before.contains(image_reference(path)) {
                before
            } else {
                before.push(image_reference(path))
            },
            None => before,
        }
    }
}

/// The message with the image references behind it.
pub open spec fn with_images(
    message: Seq<char>,
    images: Option<Seq<Seq<char>>>,
    windows: bool,
) -> Seq<char> {
    match images {
        None => message,
        Some(list) => {
            let references = image_references(list, windows);
            let start = text::trimmed_end(message);
            if references.len() == 0 {
                message
            } else if start.len() == 0 {
                text::joined(references, " "@)
            } else {
                start + "\n\n"@ + text::joined(references, " "@)
            }
        },
    }
}

/// The texts of an optional list.
pub open spec fn opt_texts(list: Option<&[String]>) -> Option<Seq<Seq<char>>> {
    match list {
        Some(v) => Some(text::texts(v@)),
        None => None,
    }
}

/// The prompt that no option parser takes for an option.
pub open spec fn safe_prompt(message: Seq<char>) -> Seq<char> {
    if text::has_prefix(message, "-"@) {
        " "@ + message
    } else {
        message
    }
}

/// The approval mode for an access mode.
pub open spec fn approval_mode(access: Option<Seq<char>>) -> Option<Seq<char>> {
    match text::non_blank(access) {
        None => None,
        Some(mode) => if mode == "full-access"@ {
            Some("yolo"@)
        } else if mode == "read-only"@ {
            Some("plan"@)
        } else if mode == "default"@ {
            Some("default"@)
        } else if mode == "current"@ {
            None
        } else {
            Some("auto_edit"@)
        },
    }
}

// ---------------------------------------------------------------------------
// Functions
// ---------------------------------------------------------------------------

/// The message with the hint at the spec root, given whether the trimmed root
/// is an absolute path.
pub fn with_checked_spec_hint(message: &str, custom_spec_root: Option<&str>, absolute: bool) -> (r:
    String)
    ensures
        r@ == hinted(message@, text::opt_text(custom_spec_root), absolute),
{
    match text::trim_non_empty(custom_spec_root) {
        Some(path) => if absolute {
            let mut out = text::concat2("[External OpenSpec Root]\n- Path: ", path);
            out.append(
                "\n- Treat this as the active spec root when checking or reading project specs.\n[/External OpenSpec Root]\n\n",
            );
            out.append(message);
            out
        } else {
            message.to_owned()
        },
        None => message.to_owned(),
    }
}

/// Whether the root, trimmed, is an absolute path here. No path without the form
/// of one is, and neither is a root that is missing or blank.
pub fn spec_root_is_absolute(custom_spec_root: Option<&str>) -> (r: bool)
    ensures
        r ==> absolute_root(text::opt_text(custom_spec_root)),
{
    match text::trim_non_empty(custom_spec_root) {
        Some(path) => path_is_absolute(path),
        None => false,
    }
}

/// The local path that an attachment names, given how paths are written.
pub fn normalize_image_path(raw: &str, windows: bool) -> (r: Option<String>)
    ensures
        text::opt_string(r) == image_path(raw@, windows),
{
    let t = text::trim(raw);
    if t.is_empty() || text::starts_with(t, "data:") || text::starts_with(t, "http://")
        || text::starts_with(t, "https://") {
        return None;
    }
    match text::strip_prefix(t, "file://") {
        Some(path) => {
            let local = match text::strip_prefix(path, "localhost/") {
                Some(rest) => rest,
                None => path,
            };
            let chars = text::chars_of(local);
            if windows && chars.len() > 2 && chars[0] == '/' && (chars[1] as u32) < 128 && chars[2]
                == ':' {
                Some(text::rest_from(local, 1).to_owned())
            } else {
                Some(local.to_owned())
            }
        },
        None => Some(t.to_owned()),
    }
}

/// The references to the local images, each once.
fn collect_references(images: &[String], windows: bool) -> (r: Vec<String>)
    ensures
        text::texts(r@) == image_references(text::texts(images@), windows),
{
    let ghost all = text::texts(images@);
    let mut out: Vec<String> = Vec::new();
    assert(text::texts(out@) =~= image_references(all.take(0), windows));
    for i in 0..images.len()
        invariant
            all == text::texts(images@),
            text::texts(out@) == image_references(all.take(i as int), windows),
    {
        proof {
            assert(all.take(i + 1).drop_last() =~= all.take(i as int));
            assert(all.take(i + 1).last() == images@[i as int]@);
        }
        if let Some(path) = normalize_image_path(images[i].as_str(), windows) {
            let reference = GeminiSession::escape_image_reference(path.as_str());
            if !text::holds(&out, reference.as_str()) {
                let ghost before = text::texts(out@);
                out.push(reference);
                assert(text::texts(out@) =~= before.push(image_reference(path@)));
            }
        }
    }
    assert(all.take(images@.len() as int) =~= all);
    out
}

/// The message with the image references behind it, given how paths are
/// written.
pub fn with_image_references_on(message: &str, images: Option<&[String]>, windows: bool) -> (r:
    String)
    ensures
        r@ == with_images(message@, opt_texts(images), windows),
{
    let list = match images {
        Some(list) => list,
        None => return message.to_owned(),
    };
    let references = collect_references(list, windows);
    if references.is_empty() {
        return message.to_owned();
    }
    let mut merged = text::trim_end(message).to_owned();
    if !merged.as_str().is_empty() {
        merged.append("\n\n");
    }
    let ghost start = merged@;
    let tail = text::join(&references, " ");
    merged.append(tail.as_str());
    assert(start.len() == 0 ==> merged@ =~= tail@);
    merged
}

/// The prompt that no option parser takes for an option.
pub fn guard_prompt(message: String) -> (r: String)
    ensures
        r@ == safe_prompt(message@),
{
    if text::starts_with(message.as_str(), "-") {
        text::concat2(" ", message.as_str())
    } else {
        message
    }
}

impl GeminiSession {
    /// The message with a hint at the spec root in front of it, where that is an
    /// absolute path here. A root without the form of one gets no hint.
    pub fn with_external_spec_hint(message: &str, custom_spec_root: Option<&str>) -> (r: String)
        ensures
            r@ == hinted(message@, text::opt_text(custom_spec_root), true) || r@ == hinted(
                message@,
                text::opt_text(custom_spec_root),
                false,
            ),
            !absolute_root(text::opt_text(custom_spec_root)) ==> r@ == message@,
    {
        let absolute = spec_root_is_absolute(custom_spec_root);
        with_checked_spec_hint(message, custom_spec_root, absolute)
    }

    /// The local path that an attachment names.
    pub fn normalize_image_path_for_prompt(raw: &str) -> (r: Option<String>)
        ensures
            text::opt_string(r) == image_path(raw@, true) || text::opt_string(r) == image_path(
                raw@,
                false,
            ),
    {
        normalize_image_path(raw, on_windows())
    }

    /// The reference to an image path in a prompt.
    pub fn escape_image_reference(path: &str) -> (r: String)
        ensures
            r@ == image_reference(path@),
    {
        let chars = text::chars_of(path);
        let mut out = String::new();
        out.push('@');
        out.push('"');
        assert(out@ =~= seq!['@', '"'] + quoted(chars@.take(0)));
        for i in 0..chars.len()
            invariant
                out@ == seq!['@', '"'] + quoted(chars@.take(i as int)),
        {
            let ghost start = out@;
            let c = chars[i];
            if c == '\\' || c == '"' {
                out.push('\\');
            }
            out.push(c);
            proof {
                assert(chars@.take(i + 1).drop_last() =~= chars@.take(i as int));
                assert(out@ =~= start + quoted_char(c));
                assert(out@ =~= seq!['@', '"'] + quoted(chars@.take(i + 1)));
            }
        }
        assert(chars@.take(chars@.len() as int) =~= chars@);
        out.push('"');
        assert(out@ =~= image_reference(path@));
        out
    }

    /// The message with the image references behind it.
    pub fn with_image_references(message: &str, images: Option<&[String]>) -> (r: String)
        ensures
            r@ == with_images(message@, opt_texts(images), true) || r@ == with_images(
                message@,
                opt_texts(images),
                false,
            ),
    {
        with_image_references_on(message, images, on_windows())
    }

    /// The approval mode for an access mode.
    pub fn resolve_approval_mode(access_mode: Option<&str>) -> (r: Option<&'static str>)
        ensures
            text::opt_text(r) == approval_mode(text::opt_text(access_mode)),
    {
        match text::trim_non_empty(access_mode) {
            None => None,
            Some(mode) => if text::same(mode, "full-access") {
                Some("yolo")
            } else if text::same(mode, "read-only") {
                Some("plan")
            } else if text::same(mode, "default") {
                Some("default")
            } else if text::same(mode, "current") {
                None
            } else {
                Some("auto_edit")
            },
        }
    }
}

} // verus!
