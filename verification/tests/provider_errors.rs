use rindexer_core::fetch_logs::ProviderErrorKind;
use rindexer_core::provider_errors::{classify_provider_error, mentions_phrase};

#[test]
fn phrases_are_found_whatever_their_case() {
    assert!(mentions_phrase(b"Block Range is too wide", b"block range"));
    assert!(mentions_phrase(b"xxRATE LIMIT", b"rate limit"));
    assert!(mentions_phrase(b"abc", b""));
    assert!(mentions_phrase(b"", b""));
    assert!(!mentions_phrase(b"ab", b"abc"));
    assert!(!mentions_phrase(b"rate-limit", b"rate limit"));
    assert!(mentions_phrase(b"aab", b"ab"));
    assert!(!mentions_phrase(b"@`[{", b"@@"));
}

#[test]
fn provider_errors_are_classified_by_their_words() {
    let range = [
        "range too large",
        "Log response size exceeded. You can make eth_getLogs requests with up to a 2K block range",
        "query returned more than 10000 results",
        "block range is too wide",
        "eth_getLogs is limited to a 10,000 range",
        "logs matched by query exceeds limit of 10000",
    ];
    for message in range {
        assert_eq!(classify_provider_error(message, false), ProviderErrorKind::RangeTooWide);
    }
    assert_eq!(classify_provider_error("boom", true), ProviderErrorKind::RangeTooWide);
    assert_eq!(
        classify_provider_error("429 Too Many Requests", false),
        ProviderErrorKind::RateLimited
    );
    assert_eq!(
        classify_provider_error("daily rate limit reached", false),
        ProviderErrorKind::RateLimited
    );
    assert_eq!(classify_provider_error("401 Unauthorized", false), ProviderErrorKind::Fatal);
    assert_eq!(classify_provider_error("Invalid API key", false), ProviderErrorKind::Fatal);
    assert_eq!(classify_provider_error("connection reset", false), ProviderErrorKind::Transient);
    assert_eq!(classify_provider_error("", false), ProviderErrorKind::Transient);
    assert_eq!(
        classify_provider_error("rate limit: block range too large", false),
        ProviderErrorKind::RangeTooWide
    );
}
