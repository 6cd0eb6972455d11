//! Tag patterns: regular expressions compiled and run by the `regex` crate.
//!
//! What a compiled expression holds and how it matches is the work of that
//! crate and is not proved here. This module gives those results names, says
//! which call yields which, and proves the rules built on them: when a
//! pattern is usable, and which version a tag name stands for.

use vstd::prelude::*;
use vstd::utf8::*;
use regex::Regex;
use crate::error::{fails_as, fails_with, Failure, FailureKind};
use crate::text::{chars_of, strip_leading, text_of, without_leading};

verus! {

/// `regex::Regex`, a compiled expression. Nothing inside it is visible
/// here; what is known of one is what the names below say.
#[verifier::external_type_specification]
#[verifier::external_body]
pub struct ExRegex(regex::Regex);

/// `regex::Error`, the report on a pattern that was refused. It is only
/// carried through and written out.
#[verifier::external_type_specification]
#[verifier::external_body]
pub struct ExRegexError(regex::Error);

/// The pattern text that `re` was compiled from, which it keeps and
/// `Regex::as_str` gives back.
pub uninterp spec fn regex_source(re: Regex) -> Seq<char>;

/// The number of capture groups of `re`, as `Regex::captures_len` counts
/// them: the whole match is group 0 and is always counted.
pub uninterp spec fn regex_group_count(re: Regex) -> nat;

/// What group `index` holds in the leftmost match of `re` in `haystack`, as
/// `Regex::captures` and `Captures::get` find it: `None` where there is no
/// match, or the group took no part in it.
pub uninterp spec fn regex_group(re: Regex, haystack: Seq<char>, index: nat) -> Option<Seq<char>>;

/// What compiling `pattern` comes to, as `Regex::new` decides it from the
/// pattern text alone: `None` where the pattern is refused, else the number
/// of capture groups of the compiled expression.
pub uninterp spec fn compiled_group_count(pattern: Seq<char>) -> Option<nat>;

/// Whether `c` has a meaning of its own in a pattern. This is the fixed set
/// that `regex` documents for `is_meta_character`.
pub open spec fn is_meta_character(c: char) -> bool {
    ||| c == '\\'
    ||| c == '.'
    ||| c == '+'
    ||| c == '*'
    ||| c == '?'
    ||| c == '('
    ||| c == ')'
    ||| c == '|'
    ||| c == '['
    ||| c == ']'
    ||| c == '{'
    ||| c == '}'
    ||| c == '^'
    ||| c == '$'
    ||| c == '#'
    ||| c == '&'
    ||| c == '-'
    ||| c == '~'
}

/// `text` with a backslash in front of every character that has a meaning
/// of its own in a pattern, so that a pattern reads it as the literal text.
pub open spec fn escaped(text: Seq<char>) -> Seq<char>
    decreases text.len(),
{
    if text.len() == 0 {
        Seq::<char>::empty()
    } else if is_meta_character(text.last()) {
        escaped(text.drop_last()).push('\\').push(text.last())
    } else {
        escaped(text.drop_last()).push(text.last())
    }
}

/// A text without meta characters is its own escaped form.
pub proof fn lemma_escaped_plain(text: Seq<char>)
    requires
        forall|i: int| 0 <= i < text.len() ==> !is_meta_character(text[i]),
    ensures
        escaped(text) == text,
    decreases text.len(),
{
    if text.len() == 0 {
        assert(text =~= Seq::<char>::empty());
    } else {
        lemma_escaped_plain(text.drop_last());
        assert(text =~= text.drop_last().push(text.last()));
    }
}

/// `regex::escape` copies the text and puts a backslash in front of each
/// meta character.
pub assume_specification[ regex::escape ](pattern: &str) -> (quoted: String)
    ensures
        quoted@ == escaped(pattern@),
;

/// `Regex::new` decides from the pattern text alone. It either refuses the
/// pattern, or returns an expression that keeps the pattern text unchanged
/// and has the number of groups that the text calls for.
pub assume_specification[ Regex::new ](re: &str) -> (r: Result<Regex, regex::Error>)
    ensures
        match r {
            Ok(compiled) => regex_source(compiled) == re@ && compiled_group_count(re@) == Some(
                regex_group_count(compiled),
            ),
            Err(_) => compiled_group_count(re@) is None,
        },
;

/// `Regex::captures_len` returns the number of groups, the implicit group
/// of the whole match included.
pub assume_specification[ Regex::captures_len ](re: &Regex) -> (n: usize)
    ensures
        n == regex_group_count(*re),
;

/// Calls `Regex::captures` on `haystack` and `Captures::get` with `index`,
/// and copies the matched text out.
#[verifier::external_body]
fn capture_group(re: &Regex, haystack: &str, index: usize) -> (r: Option<String>)
    ensures
        match r {
            Some(s) => regex_group(*re, haystack@, index as nat) == Some(s@),
            None => regex_group(*re, haystack@, index as nat) is None,
        },
{
    match re.captures(haystack) {
        Some(found) => match found.get(index) {
            Some(m) => Some(m.as_str().to_owned()),
            None => None,
        },
        None => None,
    }
}

/// Writes out what `regex` reports about a pattern it refused. The wording
/// is that crate's.
#[verifier::external_body]
fn describe(e: &regex::Error) -> (m: String) {
    e.to_string()
}

/// `std::str::from_utf8` accepts exactly the byte strings that are valid
/// UTF-8 and returns the text they encode.
#[verifier::external_body]
fn utf8_text(bytes: &[u8]) -> (r: Option<&str>)
    ensures
        match r {
            Some(text) => valid_utf8(bytes@) && text@ == decode_utf8(bytes@),
            None => !valid_utf8(bytes@),
        },
{
    std::str::from_utf8(bytes).ok()
}

/// Whether `re` can yield a version: it has a capture group besides the
/// whole match.
pub open spec fn has_version_group(re: Regex) -> bool {
    regex_group_count(re) >= 2
}

/// Whether the pattern text `pattern` can be used to read tags: it compiles,
/// and to an expression with a capture group besides the whole match.
pub open spec fn is_usable_pattern(pattern: Seq<char>) -> bool {
    compiled_group_count(pattern) matches Some(groups) && groups >= 2
}

/// Decides whether a compiled pattern can be used to read tags.
///
/// A pattern that did not compile is refused, and so is one without a
/// capture group: no tag could ever yield a version through it.
pub fn usable_pattern(compiled: Result<Regex, regex::Error>) -> (r: Result<Regex, Failure>)
    ensures
        match compiled {
            Ok(re) => if has_version_group(re) {
                r == Ok::<Regex, Failure>(re)
            } else {
                fails_with(r, FailureKind::Pattern, "tags pattern has no capture group")
            },
            Err(_) => fails_as(r, FailureKind::Pattern),
        },
{
    match compiled {
        Ok(re) => {
            if re.captures_len() >= 2 {
                Ok(re)
            } else {
                Err(Failure::new(FailureKind::Pattern, "tags pattern has no capture group"))
            }
        },
        Err(e) => Err(Failure { kind: FailureKind::Pattern, message: describe(&e) }),
    }
}

/// The prefix under which a repository lists its tags.
pub open spec fn tag_prefix() -> Seq<char> {
    "refs/tags/"@
}

/// The name of a tag as the pattern sees it: without the leading
/// `refs/tags/`.
pub open spec fn tag_name(reference: Seq<char>) -> Seq<char> {
    without_leading(reference, tag_prefix())
}

/// The version that the tag `reference` stands for under `re`: the first
/// capture group of the match on the tag's name. `None` where the name does
/// not match.
pub open spec fn version_of_tag(re: Regex, reference: Seq<char>) -> Option<Seq<char>> {
    regex_group(re, tag_name(reference), 1)
}

/// Reads the version out of a tag's reference name, if the tag matches.
pub fn tag_version(re: &Regex, reference: &str) -> (r: Option<String>)
    ensures
        match r {
            Some(version) => version_of_tag(*re, reference@) == Some(version@),
            None => version_of_tag(*re, reference@) is None,
        },
{
    let name = strip_leading(&chars_of(reference), &chars_of("refs/tags/"));
    let name = text_of(&name);
    capture_group(re, name.as_str(), 1)
}

/// Reads the version out of a tag's reference name as the repository
/// stores it. A name that is not valid UTF-8 matches nothing.
pub fn tag_version_of_bytes(re: &Regex, reference: &[u8]) -> (r: Option<String>)
    ensures
        match r {
            Some(version) => valid_utf8(reference@) && version_of_tag(
                *re,
                decode_utf8(reference@),
            ) == Some(version@),
            None => !valid_utf8(reference@) || version_of_tag(*re, decode_utf8(reference@))
                is None,
        },
{
    match utf8_text(reference) {
        Some(text) => tag_version(re, text),
        None => None,
    }
}

} // verus!
