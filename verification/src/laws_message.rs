//! What a prompt is made of, character by character.
use crate::gemini_prompt;
use crate::laws_prompt;
use crate::laws_text;
use crate::text;
use vstd::prelude::*;
use vstd::string::*;

verus! {

proof fn lemma_local_image(images: Seq<Seq<char>>, windows: bool, i: int)
    requires
        0 <= i < images.len(),
        gemini_prompt::image_path(images[i], windows) is Some,
    ensures
        gemini_prompt::image_references(images, windows).len() > 0,
{
    let path = gemini_prompt::image_path(images[i], windows).unwrap();
    let reference = gemini_prompt::image_reference(path);
    laws_prompt::law_local_images_are_named(images, windows, reference);
    assert(gemini_prompt::image_references(images, windows).contains(reference));
}

/// With at least one local image the prompt starts with the whole message but
/// for the white space at its end. The references to the images follow, with
/// single spaces between them, and with a blank line before them if anything
/// stands before them.
pub proof fn law_images_follow_the_message(
    message: Seq<char>,
    images: Seq<Seq<char>>,
    windows: bool,
    i: int,
)
    requires
        0 <= i < images.len(),
        gemini_prompt::image_path(images[i], windows) is Some,
    ensures
        ({
            let start = text::trimmed_end(message);
            let n = start.len() as int;
            let out = gemini_prompt::with_images(message, Some(images), windows);
            let named = text::joined(gemini_prompt::image_references(images, windows), " "@);
            &&& n <= out.len()
            &&& out.take(n) == start
            &&& n > 0 ==> out.skip(n) == "\n\n"@ + named
            &&& n == 0 ==> out == named
        }),
{
    lemma_local_image(images, windows, i);
    let start = text::trimmed_end(message);
    let n = start.len() as int;
    let out = gemini_prompt::with_images(message, Some(images), windows);
    let named = text::joined(gemini_prompt::image_references(images, windows), " "@);
    assert(out.take(n) =~= start);
    if n > 0 {
        assert(out.skip(n) =~= "\n\n"@ + named);
    }
}

/// Each line of the message stands in the prompt with images: every character of
/// the message that is not part of the white space at its end keeps its place.
pub proof fn law_images_keep_the_characters(
    message: Seq<char>,
    images: Option<Seq<Seq<char>>>,
    windows: bool,
    i: int,
    j: int,
)
    requires
        0 <= i <= j < message.len(),
        !text::is_white(message[j]),
    ensures
        i < gemini_prompt::with_images(message, images, windows).len(),
        gemini_prompt::with_images(message, images, windows)[i] == message[i],
{
    laws_text::law_trimming_the_end(message);
}

/// Without a local image the message is the prompt as it is.
pub proof fn law_no_images_leave_the_message(
    message: Seq<char>,
    images: Seq<Seq<char>>,
    windows: bool,
)
    ensures
        gemini_prompt::with_images(message, None, windows) == message,
        (forall|i: int|
            0 <= i < images.len() ==> #[trigger] gemini_prompt::image_path(images[i], windows)
                is None) ==> gemini_prompt::with_images(message, Some(images), windows) == message,
{
    if forall|i: int|
        0 <= i < images.len() ==> #[trigger] gemini_prompt::image_path(images[i], windows)
            is None {
        let references = gemini_prompt::image_references(images, windows);
        if references.len() > 0 {
            laws_prompt::law_local_images_are_named(images, windows, references[0]);
            assert(references.contains(references[0]));
        }
    }
}

/// A list of images that grows by one: a local image that was not referred to
/// yet is referred to behind the others, any other image changes nothing.
pub proof fn law_references_keep_their_order(
    images: Seq<Seq<char>>,
    image: Seq<char>,
    windows: bool,
)
    ensures
        ({
            let before = gemini_prompt::image_references(images, windows);
            let after = gemini_prompt::image_references(images.push(image), windows);
            match gemini_prompt::image_path(image, windows) {
                None => after == before,
                Some(path) => {
                    let reference = gemini_prompt::image_reference(path);
                    &&& before.contains(reference) ==> after == before
                    &&& !before.contains(reference) ==> after == before.push(reference)
                },
            }
        }),
        gemini_prompt::image_references(Seq::empty(), windows).len() == 0,
{
    assert(images.push(image).drop_last() =~= images);
}

/// A reference is an at sign and the path in quotes. Inside them a backslash
/// stands before each backslash and each quote, and before nothing else.
pub proof fn law_reference_is_quoted(path: Seq<char>, c: char)
    ensures
        gemini_prompt::image_reference(path) == "@\""@ + gemini_prompt::quoted(path) + "\""@,
        gemini_prompt::quoted(Seq::empty()).len() == 0,
        c == '\\' || c == '"' ==> gemini_prompt::quoted(path.push(c)) == gemini_prompt::quoted(
            path,
        ).push('\\').push(c),
        c != '\\' && c != '"' ==> gemini_prompt::quoted(path.push(c)) == gemini_prompt::quoted(
            path,
        ).push(c),
{
    reveal_strlit("@\"");
    reveal_strlit("\"");
    assert(gemini_prompt::image_reference(path) =~= "@\""@ + gemini_prompt::quoted(path) + "\""@);
    assert(path.push(c).drop_last() =~= path);
    let q = gemini_prompt::quoted(path);
    assert(q + gemini_prompt::quoted_char(c) =~= if c == '\\' || c == '"' {
        q.push('\\').push(c)
    } else {
        q.push(c)
    });
}

/// An attachment names no local path if it is blank, holds its data or is on the
/// web; nothing else is left out.
pub proof fn law_local_attachments(raw: Seq<char>, windows: bool)
    ensures
        ({
            let t = text::trimmed(raw);
            gemini_prompt::image_path(raw, windows) is None <==> t.len() == 0 || text::has_prefix(
                t,
                "data:"@,
            ) || text::has_prefix(t, "http://"@) || text::has_prefix(t, "https://"@)
        }),
{
}

/// An attachment that is a file URL names the path behind `file://`, without a
/// `localhost/` in front of it; in the Windows way of writing paths also without
/// the slash before a drive.
pub proof fn law_file_urls(raw: Seq<char>, windows: bool, path: Seq<char>, local: Seq<char>)
    requires
        text::trimmed(raw) == "file://"@ + path,
        path == local || path == "localhost/"@ + local,
        !text::has_prefix(path, "localhost/"@) || path == "localhost/"@ + local,
    ensures
        ({
            let drive = local.len() > 2 && local[0] == '/' && (local[1] as u32) < 128 && local[2]
                == ':';
            &&& windows && drive ==> gemini_prompt::image_path(raw, windows) == Some(local.skip(1))
            &&& !windows || !drive ==> gemini_prompt::image_path(raw, windows) == Some(local)
        }),
{
    let t = text::trimmed(raw);
    reveal_strlit("file://");
    reveal_strlit("data:");
    reveal_strlit("http://");
    reveal_strlit("https://");
    reveal_strlit("localhost/");
    assert(t[0] == 'f');
    if text::has_prefix(t, "data:"@) {
        assert(t.subrange(0, 5)[0] == t[0]);
    }
    if text::has_prefix(t, "http://"@) {
        assert(t.subrange(0, 7)[0] == t[0]);
    }
    if text::has_prefix(t, "https://"@) {
        assert(t.subrange(0, 8)[0] == t[0]);
    }
    laws_text::law_prefix_is_found(t, "file://"@, path);
    laws_text::law_prefix_is_found(path, "localhost/"@, local);
    if !text::has_prefix(path, "localhost/"@) {
        assert(text::after_prefix(path, "localhost/"@) is None);
        assert(path == local);
    }
}

/// Any other attachment that names a path is the path, without the white space at
/// its ends.
pub proof fn law_plain_paths(raw: Seq<char>, windows: bool)
    requires
        gemini_prompt::image_path(raw, windows) is Some,
        !text::has_prefix(text::trimmed(raw), "file://"@),
    ensures
        gemini_prompt::image_path(raw, windows) == Some(text::trimmed(raw)),
{
}

/// The hint at a root of specs, written out. It is given for a root that is not
/// blank and is an absolute path, and the message is left alone otherwise.
pub proof fn law_hint_is_written_out(message: Seq<char>, root: Option<Seq<char>>, absolute: bool)
    ensures
        root matches Some(path) ==> (absolute && text::trimmed(path).len() > 0
            ==> gemini_prompt::hinted(message, root, absolute)
            == "[External OpenSpec Root]\n- Path: "@ + text::trimmed(path)
            + "\n- Treat this as the active spec root when checking or reading project specs.\n[/External OpenSpec Root]\n\n"@
            + message),
        !absolute ==> gemini_prompt::hinted(message, root, absolute) == message,
        root is None ==> gemini_prompt::hinted(message, root, absolute) == message,
        root matches Some(path) && text::trimmed(path).len() == 0 ==> gemini_prompt::hinted(
            message,
            root,
            absolute,
        ) == message,
{
}

/// Only a root that starts with a slash or a backslash, or has one behind a
/// colon, counts as absolute.
pub proof fn law_absolute_roots(root: Seq<char>)
    ensures
        gemini_prompt::absolute_root(None) == false,
        gemini_prompt::absolute_root(Some(root)) <==> ({
            let path = text::trimmed(root);
            ||| path.len() > 0 && (path[0] == '/' || path[0] == '\\')
            ||| text::has_text(path, ":/"@)
            ||| text::has_text(path, ":\\"@)
        }),
{
    reveal_strlit(":/");
    reveal_strlit(":\\");
    let path = text::trimmed(root);
    if exists|i: int|
        0 <= i < path.len() - 1 && #[trigger] path[i] == ':' && gemini_prompt::path_separator(
            path[i + 1],
        ) {
        let i = choose|i: int|
            0 <= i < path.len() - 1 && #[trigger] path[i] == ':' && gemini_prompt::path_separator(
                path[i + 1],
            );
        if path[i + 1] == '/' {
            assert(path.subrange(i, i + 2) =~= ":/"@);
            assert(text::occurs_at(path, ":/"@, i));
        } else {
            assert(path.subrange(i, i + 2) =~= ":\\"@);
            assert(text::occurs_at(path, ":\\"@, i));
        }
    }
    if text::has_text(path, ":/"@) {
        let i = choose|i: int| text::occurs_at(path, ":/"@, i);
        assert(path.subrange(i, i + 2)[0] == path[i] && path.subrange(i, i + 2)[1] == path[i + 1]);
        assert(gemini_prompt::path_separator(path[i + 1]));
    }
    if text::has_text(path, ":\\"@) {
        let i = choose|i: int| text::occurs_at(path, ":\\"@, i);
        assert(path.subrange(i, i + 2)[0] == path[i] && path.subrange(i, i + 2)[1] == path[i + 1]);
        assert(gemini_prompt::path_separator(path[i + 1]));
    }
}

/// A prompt that starts with a hyphen gets a space in front of it, any other is
/// left as it is.
pub proof fn law_hyphens_are_guarded(message: Seq<char>)
    ensures
        message.len() > 0 && message[0] == '-' ==> gemini_prompt::safe_prompt(message)
            == seq![' '] + message,
        message.len() == 0 || message[0] != '-' ==> gemini_prompt::safe_prompt(message) == message,
{
    reveal_strlit("-");
    reveal_strlit(" ");
    if message.len() > 0 {
        assert(message.subrange(0, 1)[0] == message[0]);
        assert(message[0] == '-' ==> message.subrange(0, 1) =~= "-"@);
    }
    assert(" "@ + message =~= seq![' '] + message);
}

/// The approval mode that each access mode stands for.
pub proof fn law_approval_modes(access: Seq<char>)
    ensures
        gemini_prompt::approval_mode(None) is None,
        ({
            let mode = text::trimmed(access);
            let r = gemini_prompt::approval_mode(Some(access));
            &&& mode.len() == 0 ==> r is None
            &&& mode == "full-access"@ ==> r == Some("yolo"@)
            &&& mode == "read-only"@ ==> r == Some("plan"@)
            &&& mode == "default"@ ==> r == Some("default"@)
            &&& mode == "current"@ ==> r is None
            &&& mode.len() > 0 && mode != "full-access"@ && mode != "read-only"@ && mode
                != "default"@ && mode != "current"@ ==> r == Some("auto_edit"@)
        }),
{
    reveal_strlit("full-access");
    reveal_strlit("read-only");
    reveal_strlit("default");
    reveal_strlit("current");
    assert("full-access"@[0] == 'f' && "read-only"@[0] == 'r' && "default"@[0] == 'd'
        && "current"@[0] == 'c');
    assert("full-access"@.len() > 0 && "read-only"@.len() > 0 && "default"@.len() > 0
        && "current"@.len() > 0);
}

} // verus!
