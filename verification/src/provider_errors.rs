//! What the error of a provider means: read from the words of its message.

use vstd::prelude::*;
use vstd::string::StringSliceAdditionalSpecFns;
use crate::fetch_logs::ProviderErrorKind;

verus! {

/// A byte with an ASCII capital turned into its small letter.
pub open spec fn small_byte(b: u8) -> u8 {
    if 65 <= b <= 90 {
        (b + 32) as u8
    } else {
        b
    }
}

/// Whether `phrase` stands in `text` at the offset `at`, capitals and small
/// letters of the ASCII alphabet taken as the same.
pub open spec fn stands_at(text: Seq<u8>, phrase: Seq<u8>, at: int) -> bool {
    &&& 0 <= at
    &&& at + phrase.len() <= text.len()
    &&& forall|j: int|
        0 <= j < phrase.len() ==> small_byte(text[at + j]) == small_byte(#[trigger] phrase[j])
}

/// Whether `phrase` stands somewhere in `text`.
pub open spec fn mentions(text: Seq<u8>, phrase: Seq<u8>) -> bool {
    exists|at: int| stands_at(text, phrase, at)
}

fn small(b: u8) -> (r: u8)
    ensures
        r == small_byte(b),
{
    if 65 <= b && b <= 90 {
        b + 32
    } else {
        b
    }
}

fn phrase_stands_at(text: &[u8], phrase: &[u8], at: usize) -> (r: bool)
    requires
        at + phrase@.len() <= text@.len(),
    ensures
        r == stands_at(text@, phrase@, at as int),
{
    let length = text.len();
    let mut j: usize = 0;
    while j < phrase.len()
        invariant
            j <= phrase@.len(),
            at + phrase@.len() <= text@.len(),
            text@.len() == length,
            forall|k: int|
                0 <= k < j ==> small_byte(text@[at + k]) == small_byte(#[trigger] phrase@[k]),
        decreases phrase@.len() - j,
    {
        if small(text[at + j]) != small(phrase[j]) {
            return false;
        }
        j += 1;
    }
    true
}

/// Whether `phrase` stands somewhere in `text`, capitals and small letters of
/// the ASCII alphabet taken as the same.
pub fn mentions_phrase(text: &[u8], phrase: &[u8]) -> (r: bool)
    ensures
        r == mentions(text@, phrase@),
{
    if phrase.len() > text.len() {
        return false;
    }
    let last: usize = text.len() - phrase.len();
    let mut at: usize = 0;
    while at < last
        invariant
            last == text@.len() - phrase@.len(),
            at <= last,
            forall|k: int| 0 <= k < at ==> !stands_at(text@, phrase@, k),
        decreases last - at,
    {
        if phrase_stands_at(text, phrase, at) {
            return true;
        }
        at += 1;
    }
    phrase_stands_at(text, phrase, last)
}

/// Whether the message speaks of a range or a result that is too large.
pub open spec fn speaks_of_range(message: Seq<u8>) -> bool {
    ||| mentions(message, "block range".spec_bytes())
    ||| mentions(message, "too large".spec_bytes())
    ||| mentions(message, "too wide".spec_bytes())
    ||| mentions(message, "query returned more than".spec_bytes())
    ||| mentions(message, "response size exceeded".spec_bytes())
    ||| mentions(message, "exceeds limit".spec_bytes())
    ||| mentions(message, "limited to".spec_bytes())
}

/// Whether the message speaks of a limit on the rate of requests.
pub open spec fn speaks_of_rate(message: Seq<u8>) -> bool {
    ||| mentions(message, "rate limit".spec_bytes())
    ||| mentions(message, "too many requests".spec_bytes())
    ||| mentions(message, "429".spec_bytes())
}

/// Whether the message speaks of a request that will never be served.
pub open spec fn speaks_of_refusal(message: Seq<u8>) -> bool {
    ||| mentions(message, "unauthorized".spec_bytes())
    ||| mentions(message, "forbidden".spec_bytes())
    ||| mentions(message, "invalid api key".spec_bytes())
    ||| mentions(message, "chain id".spec_bytes())
}

/// What an error with this message means. A hint at a limit, or words of a
/// range or a result too large, make it a range too wide; words of a rate
/// limit make it rate-limited; words of a refusal make it fatal; every other
/// error is transient.
pub open spec fn kind_of_error(message: Seq<u8>, limit_hint: bool) -> ProviderErrorKind {
    if limit_hint || speaks_of_range(message) {
        ProviderErrorKind::RangeTooWide
    } else if speaks_of_rate(message) {
        ProviderErrorKind::RateLimited
    } else if speaks_of_refusal(message) {
        ProviderErrorKind::Fatal
    } else {
        ProviderErrorKind::Transient
    }
}

/// Classifies the error of a provider by its message. `limit_hint` says
/// whether the provider named a limit with the error.
pub fn classify_provider_error(message: &str, limit_hint: bool) -> (kind: ProviderErrorKind)
    ensures
        kind == kind_of_error(message.spec_bytes(), limit_hint),
{
    let text = message.as_bytes();
    if limit_hint || mentions_phrase(text, "block range".as_bytes()) || mentions_phrase(
        text,
        "too large".as_bytes(),
    ) || mentions_phrase(text, "too wide".as_bytes()) || mentions_phrase(
        text,
        "query returned more than".as_bytes(),
    ) || mentions_phrase(text, "response size exceeded".as_bytes()) || mentions_phrase(
        text,
        "exceeds limit".as_bytes(),
    ) || mentions_phrase(text, "limited to".as_bytes()) {
        ProviderErrorKind::RangeTooWide
    } else if mentions_phrase(text, "rate limit".as_bytes()) || mentions_phrase(
        text,
        "too many requests".as_bytes(),
    ) || mentions_phrase(text, "429".as_bytes()) {
        ProviderErrorKind::RateLimited
    } else if mentions_phrase(text, "unauthorized".as_bytes()) || mentions_phrase(
        text,
        "forbidden".as_bytes(),
    ) || mentions_phrase(text, "invalid api key".as_bytes()) || mentions_phrase(
        text,
        "chain id".as_bytes(),
    ) {
        ProviderErrorKind::Fatal
    } else {
        ProviderErrorKind::Transient
    }
}

} // verus!
