//! Messages of a recorded Gemini session.
use crate::json::Json;
use crate::text;
use vstd::prelude::*;
use vstd::string::*;

verus! {

/// One message of a recorded session.
#[derive(Debug, Clone)]
pub struct GeminiSessionMessage {
    pub id: String,
    pub role: String,
    pub text: String,
    pub images: Option<Vec<String>>,
    pub timestamp: Option<String>,
    pub kind: String,
    pub tool_type: Option<String>,
    pub title: Option<String>,
    pub tool_input: Option<Json>,
    pub tool_output: Option<Json>,
}

/// Who wrote a message, of which kind it is and what it says.
pub struct MessageView {
    pub role: Seq<char>,
    pub kind: Seq<char>,
    pub text: Seq<char>,
}

impl View for GeminiSessionMessage {
    type V = MessageView;

    open spec fn view(&self) -> MessageView {
        MessageView { role: self.role@, kind: self.kind@, text: self.text@ }
    }
}

/// What a list of messages holds.
pub open spec fn message_views(messages: Seq<GeminiSessionMessage>) -> Seq<MessageView> {
    Seq::new(messages.len(), |i: int| messages[i]@)
}

/// The reasoning texts behind the last message of the user, in order.
pub open spec fn latest_reasoning(messages: Seq<MessageView>) -> Seq<Seq<char>>
    decreases messages.len(),
{
    if messages.len() == 0 || text::lowered(messages.last().role) == text::lowered("user"@) {
        Seq::empty()
    } else {
        let before = latest_reasoning(messages.drop_last());
        let last = messages.last();
        if text::lowered(last.kind) == text::lowered("reasoning"@) && text::trimmed(
            last.text,
        ).len() > 0 {
            before.push(text::trimmed(last.text))
        } else {
            before
        }
    }
}

/// Behind a message of the user the search starts anew: only what follows it
/// counts.
pub proof fn lemma_latest_reasoning_from(messages: Seq<MessageView>, n: int)
    requires
        0 <= n <= messages.len(),
        n > 0 ==> text::lowered(messages[n - 1].role) == text::lowered("user"@),
        forall|i: int|
            n <= i < messages.len() ==> text::lowered((#[trigger] messages[i]).role)
                != text::lowered("user"@),
    ensures
        latest_reasoning(messages) == latest_reasoning(messages.skip(n)),
    decreases messages.len() - n,
{
    if n == messages.len() {
        assert(messages.skip(n).len() == 0);
        if n > 0 {
            assert(messages.last() == messages[n - 1]);
        }
    } else {
        let rest = messages.drop_last();
        assert forall|i: int| n <= i < rest.len() implies text::lowered((#[trigger] rest[i]).role)
            != text::lowered("user"@) by {
            assert(rest[i] == messages[i]);
        }
        lemma_latest_reasoning_from(rest, n);
        assert(messages.skip(n).drop_last() =~= rest.skip(n));
        assert(messages.skip(n).last() == messages.last());
        assert(messages.last() == messages[messages.len() - 1]);
    }
}

/// The reasoning texts behind the last message of the user, in order.
pub fn collect_latest_turn_reasoning_texts(messages: &[GeminiSessionMessage]) -> (r: Vec<String>)
    ensures
        text::texts(r@) == latest_reasoning(message_views(messages@)),
{
    let ghost all = message_views(messages@);
    let mut start: usize = messages.len();
    while start > 0 && !text::same_ignoring_case(messages[start - 1].role.as_str(), "user")
        invariant
            start <= messages@.len(),
            all == message_views(messages@),
            forall|i: int|
                start <= i < all.len() ==> text::lowered((#[trigger] all[i]).role)
                    != text::lowered("user"@),
        decreases start,
    {
        assert(all[start - 1] == messages@[start - 1]@);
        start = start - 1;
    }
    proof {
        if start > 0 {
            assert(all[start - 1] == messages@[start - 1]@);
        }
        lemma_latest_reasoning_from(all, start as int);
    }
    let ghost rest = all.skip(start as int);
    let mut out: Vec<String> = Vec::new();
    assert(text::texts(out@) =~= latest_reasoning(rest.take(0)));
    let mut i: usize = start;
    while i < messages.len()
        invariant
            start <= i <= messages@.len(),
            all == message_views(messages@),
            rest == all.skip(start as int),
            forall|j: int|
                start <= j < all.len() ==> text::lowered((#[trigger] all[j]).role)
                    != text::lowered("user"@),
            text::texts(out@) == latest_reasoning(rest.take(i - start)),
        decreases messages@.len() - i,
    {
        proof {
            let next = rest.take(i - start + 1);
            assert(next.drop_last() =~= rest.take(i - start));
            assert(next.last() == all[i as int]);
            assert(all[i as int] == messages@[i as int]@);
        }
        if text::same_ignoring_case(messages[i].kind.as_str(), "reasoning") {
            let trimmed = text::trim(messages[i].text.as_str());
            if !trimmed.is_empty() {
                let ghost before = text::texts(out@);
                out.push(trimmed.to_owned());
                assert(text::texts(out@) =~= before.push(trimmed@));
            }
        }
        i = i + 1;
    }
    assert(rest.take(messages@.len() - start) =~= rest);
    out
}

} // verus!
