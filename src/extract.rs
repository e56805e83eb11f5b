//! Locating the numeric venue ID that a venue's profile page embeds.

use vstd::prelude::*;
use vstd::std_specs::iter::IteratorSpec;
use vstd::string::StrSliceExecFns;
use vstd::string::StringExecFns;

verus! {

broadcast use {vstd::string::axiom_spec_iter, vstd::string::next_postcondition};

/// The escaped venue-detail URL prefix that a profile page holds right before
/// the venue's numeric ID.
pub const VENUE_URL_MARKER: &'static str = "https:\\u002F\\u002Fgoout.net\\u002Fvenue\\u002F";

/// `m` occurs in `h` starting at position `i`.
pub open spec fn occurs_at(h: Seq<char>, m: Seq<char>, i: int) -> bool {
    0 <= i && i + m.len() <= h.len() && h.subrange(i, i + m.len()) == m
}

/// `i` is the first position at which `m` occurs in `h`.
pub open spec fn is_first_occurrence(h: Seq<char>, m: Seq<char>, i: int) -> bool {
    occurs_at(h, m, i) && forall|j: int| 0 <= j < i ==> !occurs_at(h, m, j)
}

/// `k` is the length of the longest prefix of `s` without a double quote.
pub open spec fn is_quote_free_prefix_len(s: Seq<char>, k: int) -> bool {
    0 <= k <= s.len() && (forall|j: int| 0 <= j < k ==> s[j] != '"') && (k == s.len() || s[k]
        == '"')
}

/// The characters of `s` before its first double quote (all of `s` if it has none).
pub open spec fn before_quote(s: Seq<char>) -> Seq<char> {
    s.take(choose|k: int| is_quote_free_prefix_len(s, k))
}

/// What follows the first occurrence of `m` in `h`, up to the next double
/// quote; `None` where `m` does not occur in `h`.
pub open spec fn value_after_marker(h: Seq<char>, m: Seq<char>) -> Option<Seq<char>> {
    if exists|i: int| occurs_at(h, m, i) {
        let i = choose|i: int| is_first_occurrence(h, m, i);
        Some(before_quote(h.skip(i + m.len())))
    } else {
        None
    }
}

/// The venue ID that a profile page holds after the venue URL prefix.
pub open spec fn venue_id_in_page(html: Seq<char>) -> Option<Seq<char>> {
    value_after_marker(html, VENUE_URL_MARKER@)
}

/// The characters of `s`, one element each.
pub fn chars_of(s: &str) -> (r: Vec<char>)
    ensures
        r@ == s@,
{
    let mut r: Vec<char> = Vec::new();
    let mut it = s.chars();
    loop
        invariant
            r@ + it.remaining() == s@,
            it.obeys_prophetic_iter_laws(),
            it.decrease() is Some,
        decreases it.decrease()->0,
    {
        match it.next() {
            Some(c) => {
                proof {
                    assert(r@.push(c) + it.remaining() =~= s@);
                }
                r.push(c);
            },
            None => {
                assert(r@ =~= s@);
                return r;
            },
        }
    }
}

/// Whether `m` occurs in `h` at position `i`.
fn matches_at(h: &Vec<char>, m: &Vec<char>, i: usize) -> (r: bool)
    requires
        i + m.len() <= h.len(),
    ensures
        r == occurs_at(h@, m@, i as int),
{
    let mut k: usize = 0;
    while k < m.len()
        invariant
            i + m.len() <= h.len(),
            k <= m.len(),
            forall|j: int| 0 <= j < k ==> h@[i + j] == m@[j],
        decreases m.len() - k,
    {
        if h[i + k] != m[k] {
            assert(h@.subrange(i as int, i + m.len())[k as int] != m@[k as int]);
            return false;
        }
        k = k + 1;
    }
    assert(h@.subrange(i as int, i + m.len()) =~= m@);
    true
}

/// The first position at which `m` occurs in `h`, if any.
fn find_first(h: &Vec<char>, m: &Vec<char>) -> (r: Option<usize>)
    ensures
        match r {
            Some(i) => is_first_occurrence(h@, m@, i as int),
            None => forall|i: int| !occurs_at(h@, m@, i),
        },
{
    if m.len() > h.len() {
        return None;
    }
    let last: usize = h.len() - m.len();
    let mut i: usize = 0;
    loop
        invariant
            i <= last,
            last + m.len() == h.len(),
            forall|j: int| 0 <= j < i ==> !occurs_at(h@, m@, j),
        decreases last - i,
    {
        if matches_at(h, m, i) {
            return Some(i);
        }
        if i == last {
            return None;
        }
        i = i + 1;
    }
}

/// The position of the first double quote in `s` at or after `from`, or the
/// length of `s` where there is none.
fn quote_from(s: &Vec<char>, from: usize) -> (r: usize)
    requires
        from <= s.len(),
    ensures
        is_quote_free_prefix_len(s@.skip(from as int), r - from),
        from <= r <= s.len(),
{
    let mut k: usize = from;
    while k < s.len() && s[k] != '"'
        invariant
            from <= k <= s.len(),
            forall|j: int| from <= j < k ==> s@[j] != '"',
        decreases s.len() - k,
    {
        k = k + 1;
    }
    k
}

proof fn lemma_first_occurrence_unique(h: Seq<char>, m: Seq<char>, i: int, j: int)
    requires
        is_first_occurrence(h, m, i),
        is_first_occurrence(h, m, j),
    ensures
        i == j,
{
}

proof fn lemma_quote_prefix_unique(s: Seq<char>, a: int, b: int)
    requires
        is_quote_free_prefix_len(s, a),
        is_quote_free_prefix_len(s, b),
    ensures
        a == b,
{
}

/// The text after the first occurrence of `marker` in `html`, up to the next
/// double quote or the end of `html`; `None` where `marker` does not occur.
pub fn value_after(html: &str, marker: &str) -> (r: Option<String>)
    ensures
        match r {
            Some(v) => value_after_marker(html@, marker@) == Some(v@),
            None => value_after_marker(html@, marker@) is None,
        },
{
    let h = chars_of(html);
    let m = chars_of(marker);
    match find_first(&h, &m) {
        None => None,
        Some(i) => {
            assert(occurs_at(h@, m@, i as int));
            assert(i + m.len() <= h.len());
            let start: usize = i + m.len();
            let end = quote_from(&h, start);
            let v = html.substring_char(start, end).to_owned();
            proof {
                let fi = choose|fi: int| is_first_occurrence(h@, m@, fi);
                lemma_first_occurrence_unique(h@, m@, i as int, fi);
                let rest = h@.skip(start as int);
                let k = choose|k: int| is_quote_free_prefix_len(rest, k);
                lemma_quote_prefix_unique(rest, k, end - start);
                assert(v@ =~= before_quote(rest));
            }
            Some(v)
        },
    }
}

/// The numeric venue ID that a venue's profile page embeds: the text between
/// the escaped venue URL prefix and the next double quote.
pub fn parse_venue_id(html: &str) -> (r: Option<String>)
    ensures
        match r {
            Some(v) => venue_id_in_page(html@) == Some(v@),
            None => venue_id_in_page(html@) is None,
        },
{
    value_after(html, VENUE_URL_MARKER)
}

/// Why a venue's numeric ID could not be found.
#[derive(Debug, Clone, PartialEq)]
pub enum ResolveError {
    /// The profile page of the venue with this short ID holds no venue URL.
    VenueIdNotFound { short_id: String },
}

/// The opening words of the message for a venue whose ID was not found.
pub const NOT_FOUND_MESSAGE: &'static str = "Failed to parse venue ID for ";

/// The text that std's `Debug` writes for the string `s`: `s` in double
/// quotes, with quotes, backslashes and unprintable characters escaped.
pub uninterp spec fn debug_text(s: Seq<char>) -> Seq<char>;

/// Every character of `s` is an ASCII letter or digit, `-` or `_`: characters
/// that `Debug` writes as they are.
pub open spec fn is_plain_text(s: Seq<char>) -> bool {
    forall|i: int|
        0 <= i < s.len() ==> {
            let c = #[trigger] s[i];
            ('a' <= c <= 'z') || ('A' <= c <= 'Z') || ('0' <= c <= '9') || c == '-' || c == '_'
        }
}

/// Relies on std's `Debug` for `str` (through `format!("{:?}")`): the string in
/// double quotes, each character escaped as `char::escape_debug` does, which
/// leaves ASCII letters, digits, `-` and `_` as they are.
#[verifier::external_body]
fn debug_quoted(s: &str) -> (r: String)
    ensures
        r@ == debug_text(s@),
        is_plain_text(s@) ==> r@ == seq!['"'] + s@ + seq!['"'],
{
    format!("{s:?}")
}

/// The message for a venue whose ID was not found, given the short ID as
/// `Debug` writes it.
pub fn not_found_message(quoted_short_id: &str) -> (r: String)
    ensures
        r@ == NOT_FOUND_MESSAGE@ + quoted_short_id@,
{
    NOT_FOUND_MESSAGE.to_owned().concat(quoted_short_id)
}

impl ResolveError {
    /// A one-line description of the error, naming the short ID concerned in
    /// its `Debug` form, in double quotes.
    pub fn message(&self) -> (r: String)
        ensures
            match self {
                ResolveError::VenueIdNotFound { short_id } => r@ == NOT_FOUND_MESSAGE@
                    + debug_text(short_id@),
            },
            match self {
                ResolveError::VenueIdNotFound { short_id } => is_plain_text(short_id@) ==> r@
                    == NOT_FOUND_MESSAGE@ + seq!['"'] + short_id@ + seq!['"'],
            },
    {
        match self {
            ResolveError::VenueIdNotFound { short_id } => {
                let quoted = debug_quoted(short_id.as_str());
                let r = not_found_message(quoted.as_str());
                assert(is_plain_text(short_id@) ==> r@ =~= NOT_FOUND_MESSAGE@ + seq!['"'] + short_id@
                    + seq!['"']);
                r
            },
        }
    }
}

/// The numeric ID of the venue with short ID `short_id`, read from its profile
/// page `html`; an error naming `short_id` where the page holds none.
pub fn venue_id_from_page(html: &str, short_id: &str) -> (r: Result<String, ResolveError>)
    ensures
        match r {
            Ok(v) => venue_id_in_page(html@) == Some(v@),
            Err(ResolveError::VenueIdNotFound { short_id: s }) => venue_id_in_page(html@) is None
                && s@ == short_id@,
        },
{
    match parse_venue_id(html) {
        Some(v) => Ok(v),
        None => Err(ResolveError::VenueIdNotFound { short_id: short_id.to_owned() }),
    }
}

/// The address of the platform's web pages and services.
pub const PLATFORM_ORIGIN: &'static str = "https://goout.net";

/// The address of the schedules endpoint.
pub const SCHEDULES_ENDPOINT: &'static str = "https://goout.net/services/entities/v1/schedules";

/// The address of the profile page of the venue with short ID `short_id`, in
/// `language`.
pub fn profile_page_url(language: &str, short_id: &str) -> (r: String)
    ensures
        r@ == PLATFORM_ORIGIN@ + seq!['/'] + language@ + "/venue/"@ + short_id@,
{
    let r = PLATFORM_ORIGIN.to_owned().concat("/").concat(language).concat("/venue/").concat(
        short_id,
    );
    proof {
        reveal_strlit("/");
        assert(r@ =~= PLATFORM_ORIGIN@ + seq!['/'] + language@ + "/venue/"@ + short_id@);
    }
    r
}

/// The query of a schedules request for venue `venue_id` in `language`, which
/// asks for the events and venues to be included.
pub fn schedules_query(language: &str, venue_id: &str) -> (r: Vec<(String, String)>)
    ensures
        r@.len() == 3,
        r@[0].0@ == "venueIds[]"@ && r@[0].1@ == venue_id@,
        r@[1].0@ == "languages[]"@ && r@[1].1@ == language@,
        r@[2].0@ == "include"@ && r@[2].1@ == "events,venues"@,
{
    let mut r: Vec<(String, String)> = Vec::new();
    r.push(("venueIds[]".to_owned(), venue_id.to_owned()));
    r.push(("languages[]".to_owned(), language.to_owned()));
    r.push(("include".to_owned(), "events,venues".to_owned()));
    r
}

} // verus!
