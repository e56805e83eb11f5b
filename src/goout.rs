//! The entity graph that the platform's schedules endpoint returns: schedules,
//! the events and venues they refer to, and their localized texts.

use vstd::prelude::*;

verus! {

/// An untyped JSON value, carried through without being read.
#[verifier::external_type_specification]
#[verifier::external_body]
pub struct ExJsonValue(serde_json::Value);

/// Relies on serde_json's `Clone` for `Value`, which the derived `Clone` impls
/// of the entities call; nothing is claimed of the copy.
pub assume_specification[ <serde_json::Value as Clone>::clone ](v: &serde_json::Value) -> serde_json::Value;

/// An instant in UTC: whole seconds since the Unix epoch, and the nanoseconds
/// past that second.
#[derive(Default, Debug, Clone, Copy, PartialEq, Eq, Structural)]
pub struct UtcInstant {
    pub secs: i64,
    pub nanos: u32,
}

/// The largest nanosecond count plus one: below one second, or below two
/// within a leap second, as chrono counts them.
pub const NANOS_LIMIT: u32 = 2_000_000_000;

impl UtcInstant {
    /// The nanoseconds stay below two seconds' worth (the second one only
    /// within a leap second).
    pub open spec fn is_valid(self) -> bool {
        self.nanos < NANOS_LIMIT
    }
}

/// A reference to another entity of the same response, by ID.
#[derive(Default, Debug, Clone, PartialEq)]
pub struct Rel {
    pub id: i64,
    pub type_field: String,
}

/// Per-language records, keyed by language code. Where no code repeats
/// (`locale_keys_unique`), as in a decoded JSON object, a lookup acts as a
/// map's would (`lemma_locale_lookup_finds_entry`); where one repeats, the
/// first record counts.
pub type Locales<T> = Vec<(String, T)>;

/// The record stored under `lang`, if any (the first one, where keys repeat).
pub open spec fn locale_lookup<T>(entries: Seq<(String, T)>, lang: Seq<char>) -> Option<T>
    decreases entries.len(),
{
    if entries.len() == 0 {
        None
    } else if entries[0].0@ == lang {
        Some(entries[0].1)
    } else {
        locale_lookup(entries.drop_first(), lang)
    }
}

/// No language code occurs twice among `entries`.
pub open spec fn locale_keys_unique<T>(entries: Seq<(String, T)>) -> bool {
    forall|i: int, j: int|
        0 <= i < entries.len() && 0 <= j < entries.len() && i != j ==> entries[i].0@
            != entries[j].0@
}

/// Where no language code repeats, the lookup of an entry's code yields that
/// entry's record, as with a map keyed by language.
pub proof fn lemma_locale_lookup_finds_entry<T>(entries: Seq<(String, T)>, i: int)
    requires
        locale_keys_unique(entries),
        0 <= i < entries.len(),
    ensures
        locale_lookup(entries, entries[i].0@) == Some(entries[i].1),
    decreases i,
{
    if i > 0 {
        let rest = entries.drop_first();
        assert(entries[0].0@ != entries[i].0@);
        assert(rest[i - 1] == entries[i]);
        assert forall|a: int, b: int|
            0 <= a < rest.len() && 0 <= b < rest.len() && a != b implies rest[a].0@
                != rest[b].0@ by {
            assert(rest[a] == entries[a + 1] && rest[b] == entries[b + 1]);
        }
        lemma_locale_lookup_finds_entry(rest, i - 1);
    }
}

/// The record that `entries` holds for language `lang`.
pub fn locale_get<'a, T>(entries: &'a Locales<T>, lang: &str) -> (r: Option<&'a T>)
    ensures
        match r {
            Some(v) => locale_lookup(entries@, lang@) == Some(*v),
            None => locale_lookup(entries@, lang@) is None,
        },
{
    let key = lang.to_owned();
    let mut i: usize = 0;
    assert(entries@.skip(0) =~= entries@);
    while i < entries.len()
        invariant
            i <= entries.len(),
            key@ == lang@,
            locale_lookup(entries@, lang@) == locale_lookup(entries@.skip(i as int), lang@),
        decreases entries.len() - i,
    {
        assert(entries@.skip(i as int).drop_first() =~= entries@.skip(i + 1));
            assert(entries@.skip(i as int)[0] == entries@[i as int]);
        if entries[i].0 == key {
            return Some(&entries[i].1);
        }
        i = i + 1;
    }
    None
}

/// The response of the schedules endpoint: the schedules to show, and the
/// entities they refer to.
#[derive(Default, Debug, Clone, PartialEq)]
pub struct GetSchedules {
    pub schedules: Vec<Schedule>,
    pub included: GetSchedulesInc,
}

/// The entities that the listed schedules refer to.
#[derive(Default, Debug, Clone, PartialEq)]
pub struct GetSchedulesInc {
    pub events: Vec<Event>,
    pub schedules: Vec<Schedule>,
    pub venues: Vec<Venue>,
}

/// The first event of `events` with ID `id`.
pub open spec fn event_with_id(events: Seq<Event>, id: i64) -> Option<Event>
    decreases events.len(),
{
    if events.len() == 0 {
        None
    } else if events[0].id == id {
        Some(events[0])
    } else {
        event_with_id(events.drop_first(), id)
    }
}

/// The first venue of `venues` with ID `id`.
pub open spec fn venue_with_id(venues: Seq<Venue>, id: i64) -> Option<Venue>
    decreases venues.len(),
{
    if venues.len() == 0 {
        None
    } else if venues[0].id == id {
        Some(venues[0])
    } else {
        venue_with_id(venues.drop_first(), id)
    }
}

impl GetSchedules {
    /// The included event with ID `id`.
    pub fn find_event(&self, id: i64) -> (r: Option<&Event>)
        ensures
            match r {
                Some(e) => event_with_id(self.included.events@, id) == Some(*e),
                None => event_with_id(self.included.events@, id) is None,
            },
    {
        let events = &self.included.events;
        let mut i: usize = 0;
        assert(events@.skip(0) =~= events@);
        while i < events.len()
            invariant
                i <= events.len(),
                events == self.included.events,
                event_with_id(events@, id) == event_with_id(events@.skip(i as int), id),
            decreases events.len() - i,
        {
            assert(events@.skip(i as int).drop_first() =~= events@.skip(i + 1));
            assert(events@.skip(i as int)[0] == events@[i as int]);
            if events[i].id == id {
                return Some(&events[i]);
            }
            i = i + 1;
        }
        None
    }

    /// The included venue with ID `id`.
    pub fn find_venue(&self, id: i64) -> (r: Option<&Venue>)
        ensures
            match r {
                Some(v) => venue_with_id(self.included.venues@, id) == Some(*v),
                None => venue_with_id(self.included.venues@, id) is None,
            },
    {
        let venues = &self.included.venues;
        let mut i: usize = 0;
        assert(venues@.skip(0) =~= venues@);
        while i < venues.len()
            invariant
                i <= venues.len(),
                venues == self.included.venues,
                venue_with_id(venues@, id) == venue_with_id(venues@.skip(i as int), id),
            decreases venues.len() - i,
        {
            assert(venues@.skip(i as int).drop_first() =~= venues@.skip(i + 1));
            assert(venues@.skip(i as int)[0] == venues@[i as int]);
            if venues[i].id == id {
                return Some(&venues[i]);
            }
            i = i + 1;
        }
        None
    }
}

/// The tag that marks a schedule as postponed with no new date.
pub const POSTPONED_INDEFINITELY_TAG: &'static str = "postponed_indefinitely";

/// One dated occurrence of an event at a venue.
#[derive(Default, Debug, Clone, PartialEq)]
pub struct Schedule {
    pub id: i64,
    pub attributes: ScheduleAttrs,
    pub relationships: ScheduleRels,
    pub locales: Locales<ScheduleLocale>,
    pub type_field: String,
    pub url: String,
}

/// `s` carries the indefinite-postponement tag.
pub open spec fn postponed_indefinitely(s: Schedule) -> bool {
    exists|i: int|
        0 <= i < s.attributes.tags.len() && s.attributes.tags@[i]@ == POSTPONED_INDEFINITELY_TAG@
}

impl Schedule {
    /// Whether this schedule is tagged as postponed with no new date.
    pub fn is_postponed_indefinitely(&self) -> (r: bool)
        ensures
            r == postponed_indefinitely(*self),
    {
        let tag = POSTPONED_INDEFINITELY_TAG.to_owned();
        let tags = &self.attributes.tags;
        let mut i: usize = 0;
        while i < tags.len()
            invariant
                i <= tags.len(),
                tags == self.attributes.tags,
                tag@ == POSTPONED_INDEFINITELY_TAG@,
                forall|j: int| 0 <= j < i ==> tags@[j]@ != POSTPONED_INDEFINITELY_TAG@,
            decreases tags.len() - i,
        {
            if tags[i] == tag {
                assert(tags@[i as int]@ == POSTPONED_INDEFINITELY_TAG@);
                return true;
            }
            i = i + 1;
        }
        false
    }
}

/// The attributes of a schedule.
#[derive(Default, Debug, Clone, PartialEq)]
pub struct ScheduleAttrs {
    pub state: String,
    pub start_at: UtcInstant,
    pub end_at: UtcInstant,
    pub has_time: bool,
    pub has_time_end: bool,
    pub doors_time_at: Option<String>,
    pub announced_at: String,
    pub published_at: String,
    pub is_permanent: bool,
    pub external_tickets_url: Option<String>,
    pub external_stream_url: Option<String>,
    pub parsed_at: Option<String>,
    pub tags: Vec<String>,
    pub source_urls: Vec<String>,
    pub ticketing_state: String,
    pub pricing: Option<String>,
    pub updated_at: String,
    pub currency: String,
}

/// The references that a schedule holds.
#[derive(Default, Debug, Clone, PartialEq)]
pub struct ScheduleRels {
    pub contacts: Vec<Rel>,
    pub sale: Option<Rel>,
    pub venue: Option<Rel>,
    pub event: Option<Rel>,
    pub parent: Option<Rel>,
    pub parent_inner_schedules: Vec<Rel>,
    pub inner_schedules: Vec<Rel>,
    pub duplicate_schedules: Vec<Rel>,
}

/// The texts of a schedule in one language.
#[derive(Default, Debug, Clone, PartialEq)]
pub struct ScheduleLocale {
    pub stage: Option<String>,
    pub site_url: String,
}

/// What a schedule is an occurrence of: a film, a concert, an exhibition.
#[derive(Default, Debug, Clone, PartialEq)]
pub struct Event {
    pub id: i64,
    pub attributes: EventAttrs,
    pub relationships: EventRels,
    pub locales: Locales<EventLocale>,
    pub type_field: String,
    pub url: String,
}

/// The attributes of an event.
#[derive(Default, Debug, Clone, PartialEq)]
pub struct EventAttrs {
    pub state: String,
    pub main_category: String,
    pub categories: Vec<String>,
    pub keywords: Vec<serde_json::Value>,
    pub tags: Vec<String>,
    pub tags_manual: Vec<String>,
    pub film_meta: FilmMeta,
    pub exhibition_meta: ExhibitionMeta,
    pub minor_performers: Vec<String>,
    pub recommendation: Option<String>,
    pub schedules_range: serde_json::Value,
    pub has_time_slots: bool,
}

/// Film details, carried through unread.
#[derive(Default, Debug, Clone, PartialEq)]
pub struct FilmMeta {
    pub imdb: serde_json::Value,
    pub csfd: serde_json::Value,
    pub filmweb: serde_json::Value,
    pub original_name: serde_json::Value,
    pub released: serde_json::Value,
    pub length: serde_json::Value,
    pub director: serde_json::Value,
    pub author: serde_json::Value,
    pub country_isos: Vec<serde_json::Value>,
    pub rating: serde_json::Value,
}

/// Exhibition details, carried through unread.
#[derive(Default, Debug, Clone, PartialEq)]
pub struct ExhibitionMeta {
    pub curator: serde_json::Value,
}

/// The texts of an event in one language; `description` is Markdown.
#[derive(Default, Debug, Clone, PartialEq)]
pub struct EventLocale {
    pub name: String,
    pub note: String,
    pub description: String,
    pub meta_description: Option<String>,
    pub meta_title: Option<String>,
}

/// The references that an event holds.
#[derive(Default, Debug, Clone, PartialEq)]
pub struct EventRels {
    pub videos: Vec<Rel>,
    pub images: Vec<Rel>,
    pub performers: Vec<Rel>,
    pub revision_parent: Option<Rel>,
    pub revisions: Vec<Rel>,
}

/// A place that hosts schedules.
#[derive(Default, Debug, Clone, PartialEq)]
pub struct Venue {
    pub id: i64,
    pub attributes: VenueAttrs,
    pub locales: Locales<VenueLocale>,
    pub type_field: String,
    pub url: String,
}

/// The attributes of a venue. The coordinates are in millionths of a degree.
#[derive(Default, Debug, Clone, PartialEq)]
pub struct VenueAttrs {
    pub state: String,
    pub main_category: String,
    pub categories: Vec<String>,
    pub address: String,
    pub country_iso: String,
    pub latitude_e6: i64,
    pub longitude_e6: i64,
    pub updated_at: String,
    pub email: String,
    pub phone: String,
    pub url_facebook: Option<String>,
    pub source_url: Option<String>,
}

/// The texts of a venue in one language.
#[derive(Default, Debug, Clone, PartialEq)]
pub struct VenueLocale {
    pub name: String,
    pub description: String,
    pub site_url: String,
    pub meta_description: Option<String>,
    pub meta_title: Option<String>,
}

} // verus!
