//! Clean-up of recognised text.

use vstd::prelude::*;
use vstd::std_specs::iter::IteratorSpec;
use vstd::string::*;

verus! {

/// Matches one ideograph or kana: a character of the Han, Hiragana or
/// Katakana script.
pub open spec fn cjk_pattern() -> Seq<char> {
    "[\\p{Han}\\p{Hiragana}\\p{Katakana}]"@
}

/// Whether `pattern`, compiled as a regular expression, matches anywhere in
/// `haystack`; `None` where the pattern does not compile.
pub uninterp spec fn regex_search(pattern: Seq<char>, haystack: Seq<char>) -> Option<bool>;

/// Whether `c` has the Unicode property White_Space: the controls from tab
/// to carriage return, the space, next line, the no-break space, the ogham
/// space mark, the spaces from en quad to hair space, the line and the
/// paragraph separator, the narrow no-break space, the medium mathematical
/// space and the ideographic space.
pub open spec fn white_space(c: char) -> bool {
    let code = c as u32;
    ||| 0x0009 <= code <= 0x000d
    ||| code == 0x0020
    ||| code == 0x0085
    ||| code == 0x00a0
    ||| code == 0x1680
    ||| 0x2000 <= code <= 0x200a
    ||| code == 0x2028
    ||| code == 0x2029
    ||| code == 0x202f
    ||| code == 0x205f
    ||| code == 0x3000
}

/// `regex::Regex::new` on `pattern`, then `Regex::is_match` on `haystack`.
/// Both depend on their arguments alone, so the outcome is the named
/// search result; nothing is claimed of which patterns compile or match.
#[verifier::external_body]
fn search(pattern: &str, haystack: &str) -> (found: Option<bool>)
    ensures
        found == regex_search(pattern@, haystack@),
{
    match regex::Regex::new(pattern) {
        Ok(re) => Some(re.is_match(haystack)),
        Err(_) => None,
    }
}

/// `char::is_whitespace`: true for the characters with the property
/// White_Space, and for no other.
#[verifier::external_body]
fn is_space(c: char) -> (b: bool)
    ensures
        b == white_space(c),
{
    c.is_whitespace()
}

/// `String::push`: appends one character.
#[verifier::external_body]
pub(crate) fn push_char(s: &mut String, c: char)
    ensures
        final(s)@ == old(s)@.push(c),
{
    s.push(c)
}

/// The characters of `text` that are not white space, in order.
pub open spec fn without_whitespace(text: Seq<char>) -> Seq<char> {
    text.filter(|c: char| !white_space(c))
}

/// Whether every character of `text` is white space.
pub open spec fn blank(text: Seq<char>) -> bool {
    forall|i: int| 0 <= i < text.len() ==> white_space(#[trigger] text[i])
}

/// Whether `text` holds an ideograph or a kana.
pub open spec fn has_cjk(text: Seq<char>) -> bool {
    regex_search(cjk_pattern(), text) == Some(true)
}

/// The cleaned form of `text`, given whether it holds an ideograph or kana.
pub open spec fn cleaned(text: Seq<char>, cjk: bool) -> Seq<char> {
    if cjk {
        without_whitespace(text)
    } else {
        text
    }
}

/// Removes every white-space character.
pub fn strip_whitespace(text: &str) -> (out: String)
    ensures
        out@ == without_whitespace(text@),
{
    let mut out = String::new();
    let ghost mut seen: Seq<char> = Seq::empty();
    proof {
        axiom_spec_iter(text);
        reveal(Seq::filter);
    }
    for c in it: text.chars()
        invariant
            it.seq() == text@,
            seen == it.history(),
            seen.len() == it.index(),
            forall|i: int| 0 <= i < seen.len() ==> seen[i] == text@[i],
            out@ == without_whitespace(seen),
    {
        proof {
            reveal(Seq::filter);
            assert(seen.push(c).drop_last() == seen);
            assert(seen.push(c).last() == c);
        }
        if !is_space(c) {
            push_char(&mut out, c);
        }
        proof {
            seen = seen.push(c);
        }
    }
    assert(seen == text@);
    out
}

/// Removes the white space from a text known to hold an ideograph or kana,
/// and leaves any other text as it is.
pub fn clean_text(text: String, cjk: bool) -> (out: String)
    ensures
        out@ == cleaned(text@, cjk),
{
    if cjk {
        strip_whitespace(text.as_str())
    } else {
        text
    }
}

/// Cleans recognised text: where it holds an ideograph or a kana, the
/// recogniser's spaces between the glyphs are removed; any other text is
/// returned unchanged.
pub fn post_process_text(text: String) -> (out: String)
    ensures
        out@ == cleaned(text@, has_cjk(text@)),
{
    let found = search("[\\p{Han}\\p{Hiragana}\\p{Katakana}]", text.as_str());
    let cjk = match found {
        Some(b) => b,
        None => false,
    };
    clean_text(text, cjk)
}

/// Whether a text is empty once the white space at its ends is trimmed.
pub fn is_blank(text: &str) -> (b: bool)
    ensures
        b == blank(text@),
{
    let mut all = true;
    let ghost mut seen: Seq<char> = Seq::empty();
    proof {
        axiom_spec_iter(text);
    }
    for c in it: text.chars()
        invariant
            it.seq() == text@,
            seen == it.history(),
            seen.len() == it.index(),
            forall|i: int| 0 <= i < seen.len() ==> seen[i] == text@[i],
            all == blank(seen),
    {
        let space = is_space(c);
        proof {
            let before = seen;
            let after = before.push(c);
            if blank(before) && space {
                assert forall|i: int| 0 <= i < after.len() implies white_space(
                    #[trigger] after[i],
                ) by {
                    if i < before.len() {
                        assert(after[i] == before[i]);
                    }
                }
            } else if !space {
                assert(after[before.len() as int] == c);
            } else {
                let i = choose|i: int| 0 <= i < before.len() && !white_space(#[trigger] before[i]);
                assert(after[i] == before[i]);
            }
        }
        all = all && space;
        proof {
            seen = seen.push(c);
        }
    }
    assert(seen == text@);
    all
}

/// A text that holds an ideograph or a kana is cleaned to its characters
/// that are not white space, in order: none of what is left is white space,
/// and cleaning it once more changes nothing. Any other text is left as it
/// is.
pub proof fn lemma_cleaned(text: Seq<char>)
    ensures
        has_cjk(text) ==> cleaned(text, has_cjk(text)) == without_whitespace(text),
        !has_cjk(text) ==> cleaned(text, has_cjk(text)) == text,
        forall|i: int|
            0 <= i < without_whitespace(text).len() ==> !white_space(
                #[trigger] without_whitespace(text)[i],
            ),
        without_whitespace(without_whitespace(text)) == without_whitespace(text),
        without_whitespace(text).len() <= text.len(),
{
    let keep = |c: char| !white_space(c);
    let kept = text.filter(keep);
    assert forall|i: int| 0 <= i < kept.len() implies keep(#[trigger] kept[i]) by {
        text.lemma_filter_pred(keep, i);
    }
    lemma_keeps_all(kept);
    text.lemma_filter_len(keep);
}

proof fn lemma_keeps_all(text: Seq<char>)
    requires
        forall|i: int| 0 <= i < text.len() ==> !white_space(#[trigger] text[i]),
    ensures
        without_whitespace(text) == text,
    decreases text.len(),
{
    reveal(Seq::filter);
    if text.len() > 0 {
        lemma_keeps_all(text.drop_last());
        assert(text.drop_last().push(text.last()) == text);
    }
}

} // verus!
