//! What comes from outside and is kept: which texts are safe, which times and addresses are
//! canonical, and which sources and citations hold.

use vstd::prelude::*;

use crate::digest::sha256_hex_of;
use crate::external::{
    candidate_verdict, citation_support, citation_verdicts, collapsed, digit_run, digits,
    display_url_verdict, final_text, fitting, has_unsafe_control, holds_redaction,
    is_bounded_identity, is_date_and_time, is_local_source_id, is_offset, is_timestamp,
    is_unsafe_control, kept_words, month_days, optional_digest_verdict, origin_verdict,
    parsed_url_of, provenance_verdict_for, record_of, source_ids, source_verdict, source_verdicts,
    two_digits, without_sequences, CitationSupportView, ExternalEvidenceLevel,
    ExternalProvenanceEntryView, ExternalSourceFactsView, ExternalSourceRecordView,
    SourceCacheStatus, SourceFreshness, ToolRestartPolicy, UrlFactView, UrlProjectionOutcomeView,
};
use crate::image_attachment::ModelMessageView;
use crate::text::{byte_len, is_white_space};
use crate::value::{lemma_all_pass, repeats};

verus! {

// Characters and texts.

/// A character from outside is unsafe if and only if it is a control character or one of the marks
/// that turn the direction of a text.
pub proof fn law_unsafe_characters_are_exact(c: char)
    ensures
        is_unsafe_control(c) <==> {
            ||| c < ' '
            ||| '\u{7f}' <= c && c <= '\u{9f}'
            ||| c == '\u{61c}' || c == '\u{200e}' || c == '\u{200f}'
            ||| c == '\u{202a}' || c == '\u{202b}' || c == '\u{202c}' || c == '\u{202d}' || c
                == '\u{202e}'
            ||| c == '\u{2066}' || c == '\u{2067}' || c == '\u{2068}' || c == '\u{2069}'
        },
{
}

/// A safe identity: it has a character that is not white space, few enough bytes, and none that is
/// unsafe.
pub open spec fn is_safe_identity(s: Seq<char>, max: nat) -> bool {
    &&& exists|i: int| 0 <= i < s.len() && !is_white_space(#[trigger] s[i])
    &&& byte_len(s) <= max
    &&& forall|i: int| 0 <= i < s.len() ==> !is_unsafe_control(#[trigger] s[i])
}

proof fn lemma_safe_identity(s: Seq<char>, max: nat)
    ensures
        is_bounded_identity(s, max) == is_safe_identity(s, max),
{
    if crate::text::is_blank(s) {
        assert forall|i: int| 0 <= i < s.len() implies is_white_space(#[trigger] s[i]) by {
            assert(crate::text::in_class(crate::text::CharClass::White, s[i]));
        }
    } else {
        let i = choose|i: int|
            0 <= i < s.len() && !crate::text::in_class(crate::text::CharClass::White, #[trigger] s[i]);
        assert(!is_white_space(s[i]));
    }
}

/// What is kept of a text fits in its bytes, starts what was collapsed of it, and is all of that
/// where it fits; one character more would not fit.
pub proof fn law_kept_words_fit(s: Seq<char>, max: nat)
    ensures
        byte_len(kept_words(s, max)) <= max || kept_words(s, max).len() == 0,
        kept_words(s, max).len() <= collapsed(s).len(),
        kept_words(s, max) == collapsed(s).take(kept_words(s, max).len() as int),
        byte_len(collapsed(s)) <= max ==> kept_words(s, max) == collapsed(s),
        forall|n: int|
            kept_words(s, max).len() < n <= collapsed(s).len() ==> byte_len(
                #[trigger] collapsed(s).take(n),
            ) > max,
{
    lemma_fitting(collapsed(s), max);
}

proof fn lemma_fitting(t: Seq<char>, max: nat)
    ensures
        byte_len(fitting(t, max)) <= max || fitting(t, max).len() == 0,
        fitting(t, max).len() <= t.len(),
        fitting(t, max) == t.take(fitting(t, max).len() as int),
        byte_len(t) <= max ==> fitting(t, max) == t,
        forall|n: int| fitting(t, max).len() < n <= t.len() ==> byte_len(#[trigger] t.take(n)) > max,
    decreases t.len(),
{
    if t.len() == 0 || byte_len(t) <= max {
        assert(t.take(t.len() as int) =~= t);
    } else {
        let rest = t.drop_last();
        lemma_fitting(rest, max);
        let k = fitting(rest, max).len() as int;
        assert(t.take(k) =~= rest.take(k));
        assert forall|n: int| k < n <= t.len() implies byte_len(#[trigger] t.take(n)) > max by {
            if n < t.len() {
                assert(t.take(n) =~= rest.take(n));
            } else {
                assert(t.take(n) =~= t);
            }
        }
    }
}

/// Words are joined by single blanks: a character that separates adds nothing by itself; behind
/// one, another word begins with a blank before it, unless it is the first; every other character
/// is kept as it is.
pub proof fn law_words_are_joined_by_one_blank(s: Seq<char>, c: char)
    ensures
        collapsed(Seq::empty()).len() == 0,
        is_unsafe_control(c) || is_white_space(c) ==> collapsed(s.push(c)) == collapsed(s),
        !is_unsafe_control(c) && !is_white_space(c) ==> collapsed(s.push(c)) == if collapsed(s).len() > 0
            && (is_unsafe_control(s.last()) || is_white_space(s.last())) {
            collapsed(s).push(' ').push(c)
        } else {
            collapsed(s).push(c)
        },
{
    assert(s.push(c).drop_last() =~= s);
    assert(s.push(c).last() == c);
}

/// The identity of a source of this session: `src_` and 32 hexadecimal digits, and nothing else.
pub proof fn law_local_identities_are_exact(s: Seq<char>)
    ensures
        is_local_source_id(s) <==> {
            &&& s.len() == 4 + 32
            &&& s.take(4) == "src_"@
            &&& forall|i: int|
                4 <= i < s.len() ==> ('0' <= (#[trigger] s[i]) && s[i] <= '9') || ('a' <= s[i] && s[i]
                    <= 'f') || ('A' <= s[i] && s[i] <= 'F')
        },
{
    reveal_strlit("src_");
    if s.len() == 36 {
        if s[0] == 's' && s[1] == 'r' && s[2] == 'c' && s[3] == '_' {
            assert(s.take(4) =~= "src_"@);
        }
        if s.take(4) == "src_"@ {
            assert(s.take(4)[0] == 's' && s.take(4)[1] == 'r' && s.take(4)[2] == 'c' && s.take(4)[3]
                == '_');
        }
    }
}

/// An origin has from 1 to 64 bytes of lowercase letters, digits and `_-.`, the first a letter or a
/// digit.
pub proof fn law_origins_are_exact(s: Seq<char>)
    ensures
        origin_verdict(s) is Ok <==> {
            &&& s.len() > 0
            &&& byte_len(s) <= 64
            &&& s[0] != '_' && s[0] != '-' && s[0] != '.'
            &&& forall|i: int|
                0 <= i < s.len() ==> ('a' <= (#[trigger] s[i]) && s[i] <= 'z') || ('0' <= s[i] && s[i]
                    <= '9') || s[i] == '_' || s[i] == '-' || s[i] == '.'
        },
{
    if origin_verdict(s) is Ok {
        assert forall|i: int| 0 <= i < s.len() implies ('a' <= (#[trigger] s[i]) && s[i] <= 'z') || ('0'
            <= s[i] && s[i] <= '9') || s[i] == '_' || s[i] == '-' || s[i] == '.' by {
            assert(crate::external::is_origin_character(s[i]));
        }
    }
}

/// A digest, where there is one, has 64 lowercase hexadecimal digits.
pub proof fn law_digests_are_exact(digest: Option<Seq<char>>, field: Seq<char>)
    ensures
        optional_digest_verdict(digest, field) is Ok <==> (digest matches Some(d) ==> byte_len(d) == 64
            && forall|i: int|
            0 <= i < d.len() ==> ('a' <= (#[trigger] d[i]) && d[i] <= 'f') || ('0' <= d[i] && d[i]
                <= '9')),
{
    if let Some(d) = digest {
        assert forall|i: int| 0 <= i < d.len() implies (('a' <= (#[trigger] d[i]) && d[i] <= 'f') || ('0'
            <= d[i] && d[i] <= '9')) == crate::text::in_class(
            crate::text::CharClass::LowerHex,
            d[i],
        ) by {}
    }
}

// Times.

/// A year has 365 days, and 366 where the calendar has a leap day; every month has its own number
/// of them.
pub proof fn law_months_make_years(year: int)
    ensures
        month_days(year, 1) + month_days(year, 2) + month_days(year, 3) + month_days(year, 4)
            + month_days(year, 5) + month_days(year, 6) + month_days(year, 7) + month_days(year, 8)
            + month_days(year, 9) + month_days(year, 10) + month_days(year, 11) + month_days(year, 12)
            == (if year % 4 == 0 && (year % 100 != 0 || year % 400 == 0) {
            366int
        } else {
            365int
        }),
        month_days(year, 1) == 31 && month_days(year, 3) == 31 && month_days(year, 5) == 31
            && month_days(year, 7) == 31 && month_days(year, 8) == 31 && month_days(year, 10) == 31
            && month_days(year, 12) == 31,
        month_days(year, 4) == 30 && month_days(year, 6) == 30 && month_days(year, 9) == 30
            && month_days(year, 11) == 30,
        28 <= month_days(year, 2) <= 29,
{
    assert(year % 400 == 0 ==> year % 4 == 0);
}

/// Two digits at a place of a text write a number.
pub open spec fn writes(s: Seq<char>, at: int, n: int) -> bool {
    &&& 0 <= at && at + 2 <= s.len()
    &&& '0' <= s[at] && s[at] <= '9'
    &&& '0' <= s[at + 1] && s[at + 1] <= '9'
    &&& n == 10 * (s[at] as int - '0' as int) + (s[at + 1] as int - '0' as int)
}

/// A day and a time of the calendar: years 1 to 9999, months, days of the month, hours, minutes and
/// seconds.
pub open spec fn is_calendar_time(
    year: int,
    month: int,
    day: int,
    hour: int,
    minute: int,
    second: int,
) -> bool {
    &&& 1 <= year <= 9999
    &&& 1 <= month <= 12
    &&& 1 <= day <= month_days(year, month)
    &&& 0 <= hour < 24
    &&& 0 <= minute < 60
    &&& 0 <= second < 60
}

proof fn lemma_two(s: Seq<char>, at: int)
    requires
        0 <= at,
        at + 2 <= s.len(),
    ensures
        digits(s, at, at + 2) == writes(s, at, two_digits(s, at)),
        digits(s, at, at + 2) ==> 0 <= two_digits(s, at) <= 99,
{
    if digits(s, at, at + 2) {
        assert(crate::external::is_decimal_digit(s[at]));
        assert(crate::external::is_decimal_digit(s[at + 1]));
    }
}

/// A time is canonical if and only if it has 20 to 35 characters of ASCII that write, in order, a
/// year of four digits, a month, a day, `T`, an hour, a minute and a second of the calendar with
/// their marks between them, then, behind a dot, one to nine digits of a fraction where there is
/// one, and at the end `Z` or a difference of hours and minutes with its sign.
pub proof fn law_times_are_exact(s: Seq<char>)
    requires
        s.len() >= 20,
    ensures
        is_timestamp(s) <==> {
            &&& vstd::utf8::is_ascii_chars(s)
            &&& s.len() <= 35
            &&& s[4] == '-' && s[7] == '-' && s[10] == 'T' && s[13] == ':' && s[16] == ':'
            &&& exists|century: int, rest: int, month: int, day: int, hour: int, minute: int, second: int|
                #![trigger is_calendar_time(100 * century + rest, month, day, hour, minute, second)]
                writes(s, 0, century) && writes(s, 2, rest) && writes(s, 5, month) && writes(s, 8, day)
                    && writes(s, 11, hour) && writes(s, 14, minute) && writes(s, 17, second)
                    && is_calendar_time(100 * century + rest, month, day, hour, minute, second)
            &&& if s[19] == '.' {
                exists|n: int|
                    1 <= n <= 9 && 20 + n <= s.len() && (forall|i: int|
                        20 <= i < 20 + n ==> '0' <= (#[trigger] s[i]) && s[i] <= '9')
                        && #[trigger] ends_time(s, 20 + n)
            } else {
                ends_time(s, 19)
            }
        },
{
    lemma_two(s, 0);
    lemma_two(s, 2);
    lemma_two(s, 5);
    lemma_two(s, 8);
    lemma_two(s, 11);
    lemma_two(s, 14);
    lemma_two(s, 17);
    assert(digits(s, 0, 4) == (digits(s, 0, 2) && digits(s, 2, 4))) by {
        if digits(s, 0, 2) && digits(s, 2, 4) {
            assert forall|i: int| 0 <= i < 4 implies crate::external::is_decimal_digit(
                #[trigger] s[i],
            ) by {}
        }
    }
    let calendar = exists|
        century: int,
        rest: int,
        month: int,
        day: int,
        hour: int,
        minute: int,
        second: int,
    |
        #![trigger is_calendar_time(100 * century + rest, month, day, hour, minute, second)]
        writes(s, 0, century) && writes(s, 2, rest) && writes(s, 5, month) && writes(s, 8, day) && writes(
            s,
            11,
            hour,
        ) && writes(s, 14, minute) && writes(s, 17, second) && is_calendar_time(
            100 * century + rest,
            month,
            day,
            hour,
            minute,
            second,
        );
    let marks = s[4] == '-' && s[7] == '-' && s[10] == 'T' && s[13] == ':' && s[16] == ':';
    assert(is_date_and_time(s) == (marks && calendar)) by {
        if is_date_and_time(s) {
            assert(is_calendar_time(
                100 * two_digits(s, 0) + two_digits(s, 2),
                two_digits(s, 5),
                two_digits(s, 8),
                two_digits(s, 11),
                two_digits(s, 14),
                two_digits(s, 17),
            ));
        }
        if marks && calendar {
            let (century, rest, month, day, hour, minute, second) = choose|
                century: int,
                rest: int,
                month: int,
                day: int,
                hour: int,
                minute: int,
                second: int,
            |
                #![trigger is_calendar_time(100 * century + rest, month, day, hour, minute, second)]
                writes(s, 0, century) && writes(s, 2, rest) && writes(s, 5, month) && writes(s, 8, day)
                    && writes(s, 11, hour) && writes(s, 14, minute) && writes(s, 17, second)
                    && is_calendar_time(100 * century + rest, month, day, hour, minute, second);
            assert(century == two_digits(s, 0) && rest == two_digits(s, 2));
            assert(month == two_digits(s, 5) && day == two_digits(s, 8));
            assert(hour == two_digits(s, 11) && minute == two_digits(s, 14) && second == two_digits(
                s,
                17,
            ));
        }
    }
    lemma_offset(s, 19);
    lemma_digit_run(s, 20);
    let n = digit_run(s, 20);
    lemma_offset(s, 20 + n);
    if s[19] == '.' {
        if 1 <= n <= 9 && is_offset(s, 20 + n) {
            assert(ends_time(s, 20 + n));
        }
        if exists|m: int|
            1 <= m <= 9 && 20 + m <= s.len() && (forall|i: int|
                20 <= i < 20 + m ==> '0' <= (#[trigger] s[i]) && s[i] <= '9') && #[trigger] ends_time(
                s,
                20 + m,
            ) {
            let m = choose|m: int|
                1 <= m <= 9 && 20 + m <= s.len() && (forall|i: int|
                    20 <= i < 20 + m ==> '0' <= (#[trigger] s[i]) && s[i] <= '9')
                    && #[trigger] ends_time(s, 20 + m);
            assert(m == n) by {
                if n < m {
                    assert('0' <= s[20 + n] && s[20 + n] <= '9');
                } else if m < n {
                    assert(crate::external::is_decimal_digit(s[20 + m]));
                }
            }
        }
    }
}

/// A text ends, from a place on, with `Z`, or with a sign, hours below 24, a colon and minutes
/// below 60.
pub open spec fn ends_time(s: Seq<char>, at: int) -> bool {
    ||| s.len() == at + 1 && s[at] == 'Z'
    ||| s.len() == at + 6 && (s[at] == '+' || s[at] == '-') && s[at + 3] == ':' && exists|
        hours: int,
        minutes: int,
    |
        #[trigger] writes(s, at + 1, hours) && #[trigger] writes(s, at + 4, minutes) && hours < 24
            && minutes < 60
}

proof fn lemma_offset(s: Seq<char>, at: int)
    requires
        0 <= at,
    ensures
        is_offset(s, at) == ends_time(s, at),
{
    if s.len() == at + 6 {
        lemma_two(s, at + 1);
        lemma_two(s, at + 4);
        if is_offset(s, at) && s.len() == at + 6 {
            assert(writes(s, at + 1, two_digits(s, at + 1)) && writes(
                s,
                at + 4,
                two_digits(s, at + 4),
            ));
        }
    }
}

proof fn lemma_digit_run(s: Seq<char>, at: int)
    requires
        0 <= at <= s.len(),
    ensures
        0 <= digit_run(s, at) <= s.len() - at,
        forall|i: int|
            at <= i < at + digit_run(s, at) ==> crate::external::is_decimal_digit(#[trigger] s[i]),
        at + digit_run(s, at) < s.len() ==> !crate::external::is_decimal_digit(
            s[at + digit_run(s, at)],
        ),
    decreases s.len() - at,
{
    if at < s.len() && crate::external::is_decimal_digit(s[at]) {
        lemma_digit_run(s, at + 1);
    }
}

// Addresses.

/// An address can be displayed if and only if it is there, has at most 2048 bytes, is safe, was
/// looked at and not rejected, and is in its canonical form without a fragment; either nothing is
/// redacted in it, and it is its own safe projection with the same policy; or its whole query or
/// its whole path is, and nothing else of a query and no part of a path is left, and then it is not
/// used again after a restart.
pub proof fn law_displayed_addresses_are_exact(
    value: Seq<char>,
    policy: ToolRestartPolicy,
    projection: UrlFactView,
    found: Result<(Seq<char>, Seq<char>, Option<Seq<char>>, Option<Seq<char>>), Seq<char>>,
)
    ensures
        display_url_verdict(value, policy, projection, found) is Ok <==> {
            &&& value.len() > 0
            &&& byte_len(value) <= 2048
            &&& forall|i: int| 0 <= i < value.len() ==> !is_unsafe_control(#[trigger] value[i])
            &&& projection.url == value
            &&& projection.outcome matches UrlProjectionOutcomeView::Projected(p)
            &&& found matches Ok((canonical, path, query, fragment))
            &&& canonical == value
            &&& fragment is None
            &&& query is None || query == Some("[redacted]"@)
            &&& path == "/[redacted]"@ || !holds_redaction(path)
            &&& if query is Some || path == "/[redacted]"@ {
                policy == ToolRestartPolicy::InterruptOnRestart
            } else {
                p.safe_display_url == value && p.restart_policy == policy
            }
        },
{
    if has_unsafe_control(value) {
        let i = choose|i: int| 0 <= i < value.len() && is_unsafe_control(#[trigger] value[i]);
        assert(is_unsafe_control(value[i]));
    }
}

// Sources.

/// A candidate is taken if and only if its session has a safe identity, its address has at most
/// 8192 bytes and was looked at and not rejected, with the policy that is claimed; its safe address
/// can be displayed; and its origin, its times, its digest and what is known of its title are good.
pub proof fn law_candidates_are_exact(
    session_scope_id: Seq<char>,
    observed_url: Seq<char>,
    origin: Seq<char>,
    title: Option<Seq<char>>,
    published_at: Option<Seq<char>>,
    retrieved_at: Seq<char>,
    content_sha256: Option<Seq<char>>,
    policy: ToolRestartPolicy,
    facts: ExternalSourceFactsView,
)
    ensures
        candidate_verdict(
            session_scope_id,
            observed_url,
            origin,
            title,
            published_at,
            retrieved_at,
            content_sha256,
            policy,
            facts,
        ) is Ok <==> {
            &&& is_safe_identity(session_scope_id, 256)
            &&& byte_len(observed_url) <= 8192
            &&& facts.observed_url.url == observed_url
            &&& facts.observed_url.outcome matches UrlProjectionOutcomeView::Projected(p)
            &&& p.restart_policy == policy
            &&& display_url_verdict(
                p.safe_display_url,
                policy,
                facts.display_url,
                parsed_url_of(p.safe_display_url),
            ) is Ok
            &&& origin_verdict(origin) is Ok
            &&& published_at matches Some(t) ==> is_timestamp(t)
            &&& is_timestamp(retrieved_at)
            &&& optional_digest_verdict(content_sha256, "content_sha256"@) is Ok
            &&& title matches Some(t) ==> facts.stripped_title == Some(without_sequences(t, 0))
                && facts.safe_title is Some
        },
{
    lemma_safe_identity(session_scope_id, 256);
}

/// The record of a candidate has its safe address, never the one that was observed, with the digest
/// of it, and the words of its title that are safe; all else is as the candidate has it.
pub proof fn law_records_are_made_of_candidates(
    source_id: Seq<char>,
    session_scope_id: Seq<char>,
    evidence_level: ExternalEvidenceLevel,
    origin: Seq<char>,
    title: Option<Seq<char>>,
    published_at: Option<Seq<char>>,
    retrieved_at: Seq<char>,
    content_sha256: Option<Seq<char>>,
    rank: Option<usize>,
    freshness: SourceFreshness,
    cache_status: SourceCacheStatus,
    policy: ToolRestartPolicy,
    facts: ExternalSourceFactsView,
)
    ensures
        ({
            let r = record_of(
                source_id,
                session_scope_id,
                evidence_level,
                origin,
                title,
                published_at,
                retrieved_at,
                content_sha256,
                rank,
                freshness,
                cache_status,
                policy,
                facts,
            );
            &&& r.source_id == source_id
            &&& r.session_scope_id == session_scope_id
            &&& r.evidence_level == evidence_level
            &&& r.origin == origin
            &&& r.published_at == published_at
            &&& r.retrieved_at == retrieved_at
            &&& r.content_sha256 == content_sha256
            &&& r.rank == rank
            &&& r.freshness == freshness
            &&& r.cache_status == cache_status
            &&& r.url_restart_policy == policy
            &&& facts.observed_url.outcome matches UrlProjectionOutcomeView::Projected(p)
                ==> r.safe_display_url == p.safe_display_url
            &&& r.safe_display_url_sha256 == sha256_hex_of(
                vstd::utf8::encode_utf8(r.safe_display_url),
            )
            &&& title is None ==> r.title is None
            &&& title is Some ==> (facts.safe_title matches Some(found) ==> {
                let words = kept_words(found, 512);
                &&& words.len() == 0 ==> r.title is None
                &&& words.len() > 0 ==> r.title == Some(words)
            })
        }),
{
}

/// A record holds if and only if its identities are good, its address can be displayed and has the
/// digest of it, its title is nothing but safe words, and its origin, times and digest are good.
pub proof fn law_records_are_exact(v: ExternalSourceRecordView, facts: ExternalSourceFactsView)
    ensures
        source_verdict(v, facts) is Ok <==> {
            &&& is_safe_identity(v.session_scope_id, 256)
            &&& is_local_source_id(v.source_id)
            &&& display_url_verdict(
                v.safe_display_url,
                v.url_restart_policy,
                facts.display_url,
                parsed_url_of(v.safe_display_url),
            ) is Ok
            &&& v.safe_display_url_sha256 == sha256_hex_of(
                vstd::utf8::encode_utf8(v.safe_display_url),
            )
            &&& optional_digest_verdict(Some(v.safe_display_url_sha256), Seq::empty()) is Ok
            &&& origin_verdict(v.origin) is Ok
            &&& v.title matches Some(t) ==> {
                &&& t.len() > 0
                &&& byte_len(t) <= 512
                &&& facts.stripped_title == Some(without_sequences(t, 0))
                &&& facts.safe_title matches Some(found)
                &&& kept_words(found, 512) == t
            }
            &&& v.published_at matches Some(t) ==> is_timestamp(t)
            &&& is_timestamp(v.retrieved_at)
            &&& optional_digest_verdict(v.content_sha256, "content_sha256"@) is Ok
        },
{
    lemma_safe_identity(v.session_scope_id, 256);
}

// Citations.

/// A text supports a citation if and only if the span holds something, lies within the bytes of the
/// text and starts and ends with whole characters, and all identities are good. The support is
/// bound to that very text.
pub proof fn law_citations_are_supported_exactly(
    session_scope_id: Seq<char>,
    message_id: Seq<char>,
    source_id: Seq<char>,
    text: Seq<char>,
    start_byte: usize,
    end_byte: usize,
)
    ensures
        ({
            let bytes = vstd::utf8::encode_utf8(text);
            let r = citation_support(
                session_scope_id,
                message_id,
                source_id,
                text,
                start_byte,
                end_byte,
            );
            &&& r is Some <==> {
                &&& start_byte < end_byte
                &&& end_byte <= bytes.len()
                &&& vstd::utf8::is_char_boundary(bytes, start_byte as int)
                &&& vstd::utf8::is_char_boundary(bytes, end_byte as int)
                &&& is_safe_identity(session_scope_id, 256)
                &&& is_safe_identity(message_id, 512)
                &&& is_local_source_id(source_id)
            }
            &&& r matches Some(c) ==> c.session_scope_id == session_scope_id && c.message_id
                == message_id && c.source_id == source_id && c.output_text_sha256 == sha256_hex_of(
                bytes,
            ) && c.start_byte == start_byte && c.end_byte == end_byte
        }),
{
    lemma_safe_identity(session_scope_id, 256);
    lemma_safe_identity(message_id, 512);
}

/// What stands beside a message holds if and only if it is of that message; it has at most 64
/// sources and 256 citations; every source holds, is of its session, and has an identity of its
/// own; and every citation is of this message and session, names one of the sources, and has a real
/// span of the very text of the message.
pub proof fn law_entries_are_exact(
    v: ExternalProvenanceEntryView,
    m: ModelMessageView,
    facts: Seq<ExternalSourceFactsView>,
)
    ensures
        provenance_verdict_for(v, m, facts) is Ok <==> {
            &&& is_safe_identity(v.session_scope_id, 256)
            &&& is_safe_identity(v.message_id, 512)
            &&& v.message_id == m.id
            &&& v.sources.len() <= 64
            &&& v.citations.len() <= 256
            &&& forall|i: int|
                0 <= i < v.sources.len() ==> source_verdict(#[trigger] v.sources[i], facts[i]) is Ok
                    && v.sources[i].session_scope_id == v.session_scope_id
            &&& forall|i: int, j: int|
                0 <= i < j < v.sources.len() ==> (#[trigger] v.sources[i]).source_id != (
                #[trigger] v.sources[j]).source_id
            &&& forall|k: int| 0 <= k < v.citations.len() ==> holds_of(v, #[trigger] v.citations[k], m)
        },
{
    lemma_safe_identity(v.session_scope_id, 256);
    lemma_safe_identity(v.message_id, 512);
    let a = source_verdicts(v, facts);
    let b = citation_verdicts(v, final_text(m));
    lemma_all_pass(a);
    lemma_all_pass(b);
    let ids = source_ids(v.sources);
    assert forall|k: int| 0 <= k < v.citations.len() implies holds_of(v, #[trigger] v.citations[k], m)
        == (b[k] is Ok) by {
        let c = v.citations[k];
        lemma_text(m);
        if ids.contains(c.source_id) {
            let i = choose|i: int| 0 <= i < ids.len() && ids[i] == c.source_id;
            assert(v.sources[i].source_id == c.source_id);
        }
        if exists|i: int| 0 <= i < v.sources.len() && (#[trigger] v.sources[i]).source_id == c.source_id {
            let i = choose|i: int|
                0 <= i < v.sources.len() && (#[trigger] v.sources[i]).source_id == c.source_id;
            assert(ids[i] == c.source_id);
        }
        let d = c.output_text_sha256;
        assert forall|i: int| 0 <= i < d.len() implies (('a' <= (#[trigger] d[i]) && d[i] <= 'f') || ('0'
            <= d[i] && d[i] <= '9')) == crate::text::in_class(
            crate::text::CharClass::LowerHex,
            d[i],
        ) by {}
    }
    if forall|i: int| 0 <= i < a.len() ==> (#[trigger] a[i]) is Ok {
        assert forall|i: int| 0 <= i < v.sources.len() implies source_verdict(
            #[trigger] v.sources[i],
            facts[i],
        ) is Ok && v.sources[i].session_scope_id == v.session_scope_id by {
            assert(a[i] is Ok);
        }
        assert forall|i: int, j: int| 0 <= i < j < v.sources.len() implies (
        #[trigger] v.sources[i]).source_id != (#[trigger] v.sources[j]).source_id by {
            assert(a[j] is Ok);
            assert(!repeats(ids, j));
            assert(ids[i] != ids[j]);
        }
    }
    if (forall|i: int|
        0 <= i < v.sources.len() ==> source_verdict(#[trigger] v.sources[i], facts[i]) is Ok
            && v.sources[i].session_scope_id == v.session_scope_id) && (forall|i: int, j: int|
        0 <= i < j < v.sources.len() ==> (#[trigger] v.sources[i]).source_id != (
        #[trigger] v.sources[j]).source_id) {
        assert forall|i: int| 0 <= i < a.len() implies (#[trigger] a[i]) is Ok by {
            assert(source_verdict(v.sources[i], facts[i]) is Ok);
            if repeats(ids, i) {
                let j = choose|j: int| 0 <= j < i && #[trigger] ids[j] == ids[i];
                assert(v.sources[j].source_id == v.sources[i].source_id);
            }
        }
    }
    if forall|i: int| 0 <= i < b.len() ==> (#[trigger] b[i]) is Ok {
        assert forall|k: int| 0 <= k < v.citations.len() implies holds_of(
            v,
            #[trigger] v.citations[k],
            m,
        ) by {
            assert(b[k] is Ok);
        }
    }
    if forall|k: int| 0 <= k < v.citations.len() ==> holds_of(v, #[trigger] v.citations[k], m) {
        assert forall|i: int| 0 <= i < b.len() implies (#[trigger] b[i]) is Ok by {
            assert(holds_of(v, v.citations[i], m));
        }
    }
}

proof fn lemma_text(m: ModelMessageView)
    ensures
        m.content matches Some(text) ==> final_text(m) == text,
        m.content is None ==> final_text(m).len() == 0,
{
}

/// A citation of an entry holds of the message that the entry stands beside.
pub open spec fn holds_of(
    v: ExternalProvenanceEntryView,
    c: CitationSupportView,
    m: ModelMessageView,
) -> bool {
    let text = if m.content is Some {
        m.content->0
    } else {
        Seq::empty()
    };
    let bytes = vstd::utf8::encode_utf8(text);
    &&& c.session_scope_id == v.session_scope_id
    &&& c.message_id == v.message_id
    &&& is_local_source_id(c.source_id)
    &&& exists|i: int| 0 <= i < v.sources.len() && (#[trigger] v.sources[i]).source_id == c.source_id
    &&& byte_len(c.output_text_sha256) == 64
    &&& forall|i: int|
        0 <= i < c.output_text_sha256.len() ==> ('a' <= (#[trigger] c.output_text_sha256[i])
            && c.output_text_sha256[i] <= 'f') || ('0' <= c.output_text_sha256[i]
            && c.output_text_sha256[i] <= '9')
    &&& c.output_text_sha256 == sha256_hex_of(bytes)
    &&& c.start_byte < c.end_byte
    &&& c.end_byte <= bytes.len()
    &&& vstd::utf8::is_char_boundary(bytes, c.start_byte as int)
    &&& vstd::utf8::is_char_boundary(bytes, c.end_byte as int)
}

} // verus!
