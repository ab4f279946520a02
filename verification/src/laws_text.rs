//! What holds of texts: trimming, case, searching, words and digits.
use crate::gemini_event;
use crate::text;
use vstd::prelude::*;
use vstd::string::*;

verus! {

/// White space is what Unicode calls so, and nothing else.
pub proof fn law_white_space(c: char)
    ensures
        ({
            let n = c as u32;
            text::is_white(c) <==> (9 <= n <= 13 || n == 32 || n == 0x85 || n == 0xa0 || n == 0x1680
                || 0x2000 <= n <= 0x200a || n == 0x2028 || n == 0x2029 || n == 0x202f || n == 0x205f
                || n == 0x3000)
        }),
{
}

/// Trimming takes away the white space at both ends, all of it and nothing else.
pub proof fn law_trimming_takes_the_ends(s: Seq<char>)
    ensures
        exists|a: int, b: int|
            0 <= a <= b <= s.len() && text::trimmed(s) == #[trigger] s.subrange(a, b) && (forall|
                i: int,
            |
                0 <= i < a || b <= i < s.len() ==> text::is_white(#[trigger] s[i])),
        text::trimmed(s).len() > 0 ==> !text::is_white(text::trimmed(s)[0]) && !text::is_white(
            text::trimmed(s).last(),
        ),
{
    text::lemma_trimmed_start(s);
    let t = text::trimmed_start(s);
    text::lemma_trimmed_end(t);
    let a = s.len() - t.len();
    let b = a + text::trimmed(s).len();
    assert(t == s.skip(a));
    assert(text::trimmed(s) =~= s.subrange(a, b));
    assert forall|i: int| 0 <= i < a || b <= i < s.len() implies text::is_white(#[trigger] s[i]) by {
        if b <= i {
            assert(t[i - a] == s[i]);
        }
    }
    if text::trimmed(s).len() > 0 {
        assert(text::trimmed(s)[0] == t[0]);
    }
}

/// Trimming the end takes away the white space there, all of it and nothing
/// else.
pub proof fn law_trimming_the_end(s: Seq<char>)
    ensures
        text::trimmed_end(s).len() <= s.len(),
        text::trimmed_end(s) == s.take(text::trimmed_end(s).len() as int),
        forall|i: int| text::trimmed_end(s).len() <= i < s.len() ==> text::is_white(#[trigger] s[i]),
        text::trimmed_end(s).len() > 0 ==> !text::is_white(text::trimmed_end(s).last()),
{
    text::lemma_trimmed_end(s);
}

/// What is trimmed of an optional text is the trimmed text, where anything is
/// left of it.
pub proof fn law_non_blank(s: Option<Seq<char>>)
    ensures
        match text::non_blank(s) {
            Some(t) => s matches Some(x) && t == text::trimmed(x) && t.len() > 0,
            None => s matches Some(x) ==> text::trimmed(x).len() == 0,
        },
{
}

/// Lower case changes the capitals from A to Z, each to the letter that stands
/// 32 places behind it, and nothing else.
pub proof fn law_lower_case(s: Seq<char>)
    ensures
        text::lowered(s).len() == s.len(),
        forall|i: int|
            0 <= i < s.len() ==> {
                let n = (#[trigger] s[i]) as u32;
                if 65 <= n <= 90 {
                    text::lowered(s)[i] as u32 == n + 32
                } else {
                    text::lowered(s)[i] == s[i]
                }
            },
{
}

/// A text has another in it exactly when it is made of something, the other and
/// something.
pub proof fn law_text_is_found(s: Seq<char>, pat: Seq<char>)
    ensures
        text::has_text(s, pat) <==> exists|a: Seq<char>, b: Seq<char>| s == #[trigger] (a + pat + b),
{
    if text::has_text(s, pat) {
        let i = choose|i: int| text::occurs_at(s, pat, i);
        let a = s.take(i);
        let b = s.skip(i + pat.len());
        assert(s =~= s.take(i) + s.subrange(i, i + pat.len()) + b);
        assert(s == a + pat + b);
    }
    if exists|a: Seq<char>, b: Seq<char>| s == #[trigger] (a + pat + b) {
        let (a, b) = choose|a: Seq<char>, b: Seq<char>| s == #[trigger] (a + pat + b);
        assert(s.subrange(a.len() as int, (a.len() + pat.len()) as int) =~= pat);
        assert(text::occurs_at(s, pat, a.len() as int));
    }
}

/// A text starts with another exactly when it is the other and something, and
/// that is what is left of it.
pub proof fn law_prefix_is_found(s: Seq<char>, pat: Seq<char>, rest: Seq<char>)
    ensures
        text::has_prefix(s, pat) <==> text::after_prefix(s, pat) is Some,
        text::after_prefix(s, pat) == Some(rest) <==> s == pat + rest,
{
    if s == pat + rest {
        assert(s.subrange(0, pat.len() as int) =~= pat);
        assert(s.skip(pat.len() as int) =~= rest);
    }
    if text::has_prefix(s, pat) {
        assert(s =~= s.subrange(0, pat.len() as int) + s.skip(pat.len() as int));
    }
}

/// What stands before a character has none of it, and the character follows
/// unless that is all.
pub proof fn law_before_a_character(s: Seq<char>, c: char)
    ensures
        forall|i: int| 0 <= i < text::before(s, c).len() ==> #[trigger] text::before(s, c)[i] != c,
        text::before(s, c).len() <= s.len(),
        text::before(s, c) == s.take(text::before(s, c).len() as int),
        text::before(s, c).len() < s.len() ==> s[text::before(s, c).len() as int] == c,
{
    text::lemma_first_index(s, c);
}

/// Texts are joined in their order, with the separator between neighbours.
pub proof fn law_joined(parts: Seq<Seq<char>>, last: Seq<char>, sep: Seq<char>)
    ensures
        text::joined(Seq::<Seq<char>>::empty(), sep).len() == 0,
        text::joined(seq![last], sep) == last,
        parts.len() > 0 ==> text::joined(parts.push(last), sep) == text::joined(parts, sep) + sep
            + last,
{
    assert(parts.push(last).drop_last() =~= parts);
}

/// Words are the runs without white space: leading white space is passed over,
/// and a word ends where white space or the text ends.
pub proof fn law_words(space: Seq<char>, word: Seq<char>, rest: Seq<char>)
    requires
        forall|i: int| 0 <= i < space.len() ==> text::is_white(#[trigger] space[i]),
        forall|i: int| 0 <= i < word.len() ==> !text::is_white(#[trigger] word[i]),
        rest.len() > 0 ==> text::is_white(rest[0]),
    ensures
        text::words(space).len() == 0,
        word.len() > 0 ==> text::words(space + word + rest) == seq![word] + text::words(rest),
{
    text::lemma_trimmed_start_at(space, space.len() as int);
    if word.len() > 0 {
        let s = space + word + rest;
        let n = space.len() as int;
        assert forall|i: int| 0 <= i < n implies text::is_white(#[trigger] s[i]) by {
            assert(s[i] == space[i]);
        }
        assert(s[n] == word[0]);
        text::lemma_trimmed_start_at(s, n);
        let t = s.skip(n);
        assert(t =~= word + rest);
        text::lemma_word_len(t);
        let w = text::word_len(t) as int;
        if w < word.len() {
            assert(t[w] == word[w]);
        }
        if w > word.len() {
            assert(t[word.len() as int] == rest[0]);
        }
        assert(t.take(w) =~= word);
        assert(t.skip(w) =~= rest);
    }
}

/// A number is written with the digits of its tenth part and its last digit.
pub proof fn law_digits(n: nat, d: nat)
    requires
        d < 10,
    ensures
        text::digits(d) == seq![('0' as u32 + d) as char],
        n > 0 ==> text::digits(n * 10 + d) == text::digits(n).push(('0' as u32 + d) as char),
{
    assert((n * 10 + d) / 10 == n && (n * 10 + d) % 10 == d);
}

/// The result is the first candidate that holds more than white space, without
/// the white space at its ends.
pub open spec fn first_said(candidates: Seq<Option<Seq<char>>>, found: Option<Seq<char>>) -> bool {
    match found {
        Some(t) => t.len() > 0 && exists|i: int|
            0 <= i < candidates.len() && (#[trigger] candidates[i] matches Some(x) && t
                == text::trimmed(x)) && forall|j: int|
                0 <= j < i ==> (#[trigger] candidates[j] matches Some(y) ==> text::trimmed(y).len()
                    == 0),
        None => forall|j: int|
            0 <= j < candidates.len() ==> (#[trigger] candidates[j] matches Some(y)
                ==> text::trimmed(y).len() == 0),
    }
}

/// Of several candidates the first that says something is taken.
pub proof fn law_first_candidate(candidates: Seq<Option<Seq<char>>>)
    ensures
        first_said(candidates, gemini_event::first_non_blank(candidates)),
    decreases candidates.len(),
{
    if candidates.len() > 0 {
        if text::non_blank(candidates[0]) is Some {
            assert(candidates[0] is Some);
        } else {
            let rest = candidates.drop_first();
            law_first_candidate(rest);
            match gemini_event::first_non_blank(rest) {
                Some(t) => {
                    let i = choose|i: int|
                        0 <= i < rest.len() && (#[trigger] rest[i] matches Some(x) && t
                            == text::trimmed(x)) && forall|j: int|
                            0 <= j < i ==> (#[trigger] rest[j] matches Some(y) ==> text::trimmed(
                                y,
                            ).len() == 0);
                    assert(candidates[i + 1] == rest[i]);
                    assert forall|j: int| 0 <= j < i + 1 implies (
                    #[trigger] candidates[j] matches Some(y) ==> text::trimmed(y).len() == 0) by {
                        if j > 0 {
                            assert(rest[j - 1] == candidates[j]);
                        }
                    }
                },
                None => {
                    assert forall|j: int| 0 <= j < candidates.len() implies (
                    #[trigger] candidates[j] matches Some(y) ==> text::trimmed(y).len() == 0) by {
                        if j > 0 {
                            assert(rest[j - 1] == candidates[j]);
                        }
                    }
                },
            }
        }
    }
}

} // verus!
