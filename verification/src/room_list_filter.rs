//! The room list filter that fuzzy-matches a pattern.

use vstd::prelude::*;
use fuzzy_matcher::FuzzyMatcher;
use fuzzy_matcher::skim::SkimMatcherV2;

verus! {

/// An entry of the room list.
pub enum RoomListEntry {
    /// The list has no room at this place yet.
    Empty,
    /// The room that was at this place, which may have moved since.
    Invalidated(String),
    /// The room at this place.
    Filled(String),
}

/// Whether `c` is an ASCII upper-case letter.
pub open spec fn is_ascii_upper(c: char) -> bool {
    0x41 <= (c as u32) <= 0x5A
}

/// `c` with an ASCII upper-case letter turned to lower case.
pub open spec fn ascii_lower(c: char) -> int {
    if is_ascii_upper(c) {
        (c as u32) + 0x20
    } else {
        c as int
    }
}

/// Whether two characters match, ignoring ASCII case unless
/// `case_sensitive`.
pub open spec fn chars_match(c: char, p: char, case_sensitive: bool) -> bool {
    if case_sensitive {
        c == p
    } else {
        ascii_lower(c) == ascii_lower(p)
    }
}

/// Whether the characters of `pattern` occur in `choice` in order (not
/// necessarily next to each other).
pub open spec fn is_fuzzy_subsequence(pattern: Seq<char>, choice: Seq<char>, case_sensitive: bool) -> bool
    decreases choice.len(),
{
    if pattern.len() == 0 {
        true
    } else if choice.len() == 0 {
        false
    } else if chars_match(choice[0], pattern[0], case_sensitive) {
        is_fuzzy_subsequence(pattern.drop_first(), choice.drop_first(), case_sensitive)
    } else {
        is_fuzzy_subsequence(pattern, choice.drop_first(), case_sensitive)
    }
}

/// Smart case: the match is case-sensitive when the pattern holds an ASCII
/// upper-case letter.
pub open spec fn smart_case_matches(choice: Seq<char>, pattern: Seq<char>) -> bool {
    is_fuzzy_subsequence(
        pattern,
        choice,
        exists|i: int| 0 <= i < pattern.len() && #[trigger] is_ascii_upper(pattern[i]),
    )
}

/// The score that fuzzy-matcher's skim matcher (version 2, smart case) gives
/// `pattern` against `choice`: `None` when they do not match.
pub uninterp spec fn skim_smart_case_score(choice: Seq<char>, pattern: Seq<char>) -> Option<i64>;

/// `FuzzyMatcher::fuzzy_match` of a `SkimMatcherV2` set up as the room list
/// filter sets it up: `ignore_case`, then `smart_case`, with its cache.
/// Trusted: the score is `skim_smart_case_score(choice@, pattern@)`, a
/// function of the two texts; there is a score exactly when the pattern's
/// characters occur in order in the choice, compared with smart case, which
/// is what the matcher's first pass (`cheap_matches`) decides. How the
/// score is computed is not stated here.
#[verifier::external_body]
fn smart_case_fuzzy_match(choice: &str, pattern: &str) -> (score: Option<i64>)
    ensures
        score == skim_smart_case_score(choice@, pattern@),
        score is Some <==> smart_case_matches(choice@, pattern@),
{
    SkimMatcherV2::default().ignore_case().smart_case().use_cache(true).fuzzy_match(choice, pattern)
}

/// The text that the room name filter matches its pattern against.
pub open spec fn filtered_text() -> Seq<char> {
    "room_name"@
}

/// A filter of the room list by room name.
pub struct RoomNameFilter {
    pub pattern: String,
}

/// A filter of the room list that fuzzy-matches `pattern`.
pub fn new_filter_by_room_name(pattern: String) -> (filter: RoomNameFilter)
    ensures
        filter.pattern@ == pattern@,
{
    RoomNameFilter { pattern }
}

impl RoomNameFilter {
    /// Whether the entry passes the filter. The pattern is matched against
    /// the text `room_name`, whatever the entry, so every entry gets the same
    /// answer.
    pub fn matches(&self, entry: &RoomListEntry) -> (keep: bool)
        ensures
            keep == (skim_smart_case_score(filtered_text(), self.pattern@) is Some),
            keep == smart_case_matches(filtered_text(), self.pattern@),
    {
        let score = smart_case_fuzzy_match("room_name", self.pattern.as_str());
        score.is_some()
    }
}

/// The text the room name filter matches against is exactly the nine
/// characters `room_name`.
pub proof fn lemma_filtered_text_is_room_name()
    ensures
        filtered_text().len() == 9,
        filtered_text() =~= seq!['r', 'o', 'o', 'm', '_', 'n', 'a', 'm', 'e'],
{
    reveal_strlit("room_name");
}

/// Every character of a pattern that fuzzy-matches a text matches some
/// character of that text.
pub proof fn lemma_fuzzy_match_uses_text_characters(pattern: Seq<char>, choice: Seq<char>, case_sensitive: bool, i: int)
    requires
        is_fuzzy_subsequence(pattern, choice, case_sensitive),
        0 <= i < pattern.len(),
    ensures
        exists|j: int| 0 <= j < choice.len() && chars_match(#[trigger] choice[j], pattern[i], case_sensitive),
    decreases choice.len(),
{
    if choice.len() > 0 {
        if chars_match(choice[0], pattern[0], case_sensitive) {
            if i == 0 {
                assert(chars_match(choice[0], pattern[i], case_sensitive));
            } else {
                lemma_fuzzy_match_uses_text_characters(pattern.drop_first(), choice.drop_first(), case_sensitive, i - 1);
                let j = choose|j: int| 0 <= j < choice.drop_first().len()
                    && chars_match(#[trigger] choice.drop_first()[j], pattern.drop_first()[i - 1], case_sensitive);
                assert(choice[j + 1] == choice.drop_first()[j]);
            }
        } else {
            lemma_fuzzy_match_uses_text_characters(pattern, choice.drop_first(), case_sensitive, i);
            let j = choose|j: int| 0 <= j < choice.drop_first().len()
                && chars_match(#[trigger] choice.drop_first()[j], pattern[i], case_sensitive);
            assert(choice[j + 1] == choice.drop_first()[j]);
        }
    }
}

/// A pattern holding a character that, ignoring ASCII case, is none of the
/// characters of `room_name` (such as `s`) is rejected by the filter.
pub proof fn lemma_filter_rejects_foreign_character(pattern: Seq<char>, i: int)
    requires
        0 <= i < pattern.len(),
        forall|j: int| 0 <= j < filtered_text().len() ==> ascii_lower(#[trigger] filtered_text()[j]) != ascii_lower(pattern[i]),
    ensures
        !smart_case_matches(filtered_text(), pattern),
{
    let cs = exists|k: int| 0 <= k < pattern.len() && #[trigger] is_ascii_upper(pattern[k]);
    if smart_case_matches(filtered_text(), pattern) {
        lemma_fuzzy_match_uses_text_characters(pattern, filtered_text(), cs, i);
        let j = choose|j: int| 0 <= j < filtered_text().len() && chars_match(#[trigger] filtered_text()[j], pattern[i], cs);
        assert(ascii_lower(filtered_text()[j]) != ascii_lower(pattern[i]));
    }
}

} // verus!
