//! The experimental opt-in.
//!
//! One place that says what counts as "on", so that everyone who asks agrees.
//! Callers read the configuration afresh for each question, so that turning the
//! flag off takes effect at once.

use vstd::prelude::*;
use vstd::string::*;

use crate::text;

verus! {

/// The configuration key of the opt-in.
pub const EXPERIMENTAL_KEY: &'static str = "SENTRYUSB_EXPERIMENTAL";

/// The value says yes: `yes`, `true` or `1`, in any case and with any white
/// space around it.
pub open spec fn affirmative(value: Seq<char>) -> bool {
    let v = text::lower(text::trim(value));
    v == "yes"@ || v == "true"@ || v == "1"@
}

/// Whether the opt-in is on, given the configured value of
/// [`EXPERIMENTAL_KEY`]. Where there is none, or the configuration cannot be
/// read, it is off.
pub fn experimental_enabled(value: Option<&str>) -> (res: bool)
    ensures
        res == (value matches Some(v) && affirmative(v@)),
{
    match value {
        Some(v) => {
            let v = text::to_lower(&text::trimmed(v));
            text::same_text(&v, "yes") || text::same_text(&v, "true") || text::same_text(&v, "1")
        },
        None => false,
    }
}

proof fn lemma_lower_trim(s: Seq<char>)
    ensures
        text::trim_start(text::lower(s)) == text::lower(text::trim_start(s)),
        text::trim_end(text::lower(s)) == text::lower(text::trim_end(s)),
    decreases s.len(),
{
    if s.len() > 0 {
        let low = text::lower(s);
        assert(low[0] == text::lower_char(s[0]));
        assert(low.last() == text::lower_char(s.last()));
        assert(low.skip(1) =~= text::lower(s.skip(1)));
        assert(low.drop_last() =~= text::lower(s.drop_last()));
        lemma_lower_trim(s.skip(1));
        lemma_lower_trim(s.drop_last());
    }
}

/// The case of the value's letters does not matter.
pub proof fn law_flag_ignores_case(value: Seq<char>)
    ensures
        affirmative(text::lower(value)) == affirmative(value),
{
    lemma_lower_trim(value);
    lemma_lower_trim(text::trim_start(value));
    lemma_lower_trim(text::trim_end(value));
    assert(text::lower(text::lower(text::trim(value))) =~= text::lower(text::trim(value)));
}

/// White space around the value does not matter.
pub proof fn law_flag_ignores_outer_space(
    before: Seq<char>,
    value: Seq<char>,
    after: Seq<char>,
)
    requires
        text::all_space(before),
        text::all_space(after),
    ensures
        affirmative(before + value + after) == affirmative(value),
{
    text::lemma_trim_padded(before, value, after);
}

/// The opt-in is on for the words `yes`, `true` and `1` alone, in whatever case
/// they are written and whatever white space stands around them.
pub proof fn law_three_words_turn_it_on(value: Seq<char>)
    ensures
        affirmative(value) <==> exists|before: Seq<char>, word: Seq<char>, after: Seq<char>|
            {
                &&& value == #[trigger] (before + word + after)
                &&& text::all_space(before)
                &&& text::all_space(after)
                &&& (text::lower(word) == "yes"@ || text::lower(word) == "true"@ || text::lower(
                    word,
                ) == "1"@)
            },
        EXPERIMENTAL_KEY@ == "SENTRYUSB_EXPERIMENTAL"@,
{
    reveal_strlit("yes");
    reveal_strlit("true");
    reveal_strlit("1");
    if affirmative(value) {
        text::law_trim_takes_outer_space(value);
        let (before, after) = choose|before: Seq<char>, after: Seq<char>|
            #![trigger text::all_space(before), text::all_space(after)]
            text::all_space(before) && text::all_space(after) && value == before + text::trim(value)
                + after;
        assert(value == before + text::trim(value) + after);
    }
    if exists|before: Seq<char>, word: Seq<char>, after: Seq<char>|
        {
            &&& value == #[trigger] (before + word + after)
            &&& text::all_space(before)
            &&& text::all_space(after)
            &&& (text::lower(word) == "yes"@ || text::lower(word) == "true"@ || text::lower(word)
                == "1"@)
        } {
        let (before, word, after) = choose|
            before: Seq<char>,
            word: Seq<char>,
            after: Seq<char>,
        |
            {
                &&& value == #[trigger] (before + word + after)
                &&& text::all_space(before)
                &&& text::all_space(after)
                &&& (text::lower(word) == "yes"@ || text::lower(word) == "true"@ || text::lower(
                    word,
                ) == "1"@)
            };
        let low = text::lower(word);
        assert(low.len() > 0 && low.len() == word.len());
        assert(low[0] == text::lower_char(word[0]));
        assert(low.last() == text::lower_char(word.last()));
        assert(!text::is_space(low[0]) && !text::is_space(low.last()));
        text::law_trim_keeps_the_rest(before, word, after);
    }
}

} // verus!
