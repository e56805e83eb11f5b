//! Projecting a schedules response, in one language, onto calendar events.

use vstd::prelude::*;
use vstd::string::StringExecFns;

use crate::goout::{
    event_with_id, locale_get, locale_lookup, postponed_indefinitely, venue_with_id,
    GetSchedules, Schedule, UtcInstant, Venue,
};

verus! {

/// The HTML that `markdown::to_html` renders from Markdown text `s`.
pub uninterp spec fn markdown_html(s: Seq<char>) -> Seq<char>;

/// Relies on `markdown::to_html`: renders Markdown text as HTML (CommonMark,
/// default options); the result depends on the text alone.
#[verifier::external_body]
fn render_markdown(s: &str) -> (r: String)
    ensures
        r@ == markdown_html(s@),
{
    markdown::to_html(s)
}

/// Who may see a calendar event.
#[derive(Debug, Clone, Copy, PartialEq, Eq, Structural)]
pub enum Class {
    Public,
    Private,
    Confidential,
}

/// One calendar event, ready to be written out.
#[derive(Debug, Clone, PartialEq)]
pub struct CalendarEvent {
    pub url: String,
    pub summary: String,
    pub description: String,
    pub starts: UtcInstant,
    pub ends: UtcInstant,
    pub location: String,
    pub class: Class,
}

/// A calendar event with its texts as character sequences.
pub struct CalendarEventView {
    pub url: Seq<char>,
    pub summary: Seq<char>,
    pub description: Seq<char>,
    pub starts: UtcInstant,
    pub ends: UtcInstant,
    pub location: Seq<char>,
    pub class: Class,
}

impl View for CalendarEvent {
    type V = CalendarEventView;

    open spec fn view(&self) -> CalendarEventView {
        CalendarEventView {
            url: self.url@,
            summary: self.summary@,
            description: self.description@,
            starts: self.starts,
            ends: self.ends,
            location: self.location@,
            class: self.class,
        }
    }
}

/// A calendar: an optional display name and its events, in order.
#[derive(Debug, Clone, PartialEq)]
pub struct Calendar {
    pub name: Option<String>,
    pub events: Vec<CalendarEvent>,
}

/// The location line of a venue: its localized name and street address on two
/// lines, or the address alone where the venue has no name in `lang`.
pub open spec fn location_text(venue: Venue, lang: Seq<char>) -> Seq<char> {
    match locale_lookup(venue.locales@, lang) {
        Some(l) => l.name@ + seq!['\n'] + venue.attributes.address@,
        None => venue.attributes.address@,
    }
}

/// The calendar event that schedule `s` of `env` gives in language `lang`:
/// none where it is postponed indefinitely or where its venue or its event
/// is missing from the included entities.
pub open spec fn entry_for(env: GetSchedules, lang: Seq<char>, s: Schedule) -> Option<
    CalendarEventView,
> {
    if postponed_indefinitely(s) || s.relationships.venue is None
        || s.relationships.event is None {
        None
    } else {
        let venue = venue_with_id(env.included.venues@, s.relationships.venue->0.id);
        let event = event_with_id(env.included.events@, s.relationships.event->0.id);
        if venue is None || event is None {
            None
        } else {
            let text = locale_lookup(event->0.locales@, lang);
            let site = locale_lookup(s.locales@, lang);
            Some(
                CalendarEventView {
                    url: if site is Some {
                        site->0.site_url@
                    } else {
                        Seq::empty()
                    },
                    summary: if text is Some {
                        text->0.name@
                    } else {
                        Seq::empty()
                    },
                    description: if text is Some {
                        markdown_html(text->0.description@)
                    } else {
                        Seq::empty()
                    },
                    starts: s.attributes.start_at,
                    ends: s.attributes.end_at,
                    location: location_text(venue->0, lang),
                    class: Class::Public,
                },
            )
        }
    }
}

/// The calendar events of the first `n` schedules of `env`, in their order.
pub open spec fn entries_upto(env: GetSchedules, lang: Seq<char>, n: int) -> Seq<
    CalendarEventView,
>
    decreases n,
{
    if n <= 0 {
        Seq::empty()
    } else {
        let before = entries_upto(env, lang, n - 1);
        match entry_for(env, lang, env.schedules@[n - 1]) {
            Some(e) => before.push(e),
            None => before,
        }
    }
}

/// The calendar events of all schedules of `env`, in their order.
pub open spec fn calendar_entries(env: GetSchedules, lang: Seq<char>) -> Seq<CalendarEventView> {
    entries_upto(env, lang, env.schedules@.len() as int)
}

/// The calendar's name: the localized name of the first included venue, where
/// there is a venue and it has a name in `lang`.
pub open spec fn calendar_name(env: GetSchedules, lang: Seq<char>) -> Option<Seq<char>> {
    if env.included.venues@.len() > 0 {
        match locale_lookup(env.included.venues@[0].locales@, lang) {
            Some(l) => Some(l.name@),
            None => None,
        }
    } else {
        None
    }
}

/// The location line of `venue` in `language`.
pub fn venue_location(venue: &Venue, language: &str) -> (r: String)
    ensures
        r@ == location_text(*venue, language@),
{
    match locale_get(&venue.locales, language) {
        Some(l) => {
            let with_break = l.name.clone().concat("\n");
            let r = with_break.concat(venue.attributes.address.as_str());
            proof {
                reveal_strlit("\n");
                assert(r@ =~= l.name@ + seq!['\n'] + venue.attributes.address@);
            }
            r
        },
        None => venue.attributes.address.clone(),
    }
}

/// The calendar event that `schedule` gives in `language`, if it is shown.
pub fn calendar_entry(env: &GetSchedules, language: &str, schedule: &Schedule) -> (r: Option<
    CalendarEvent,
>)
    ensures
        match r {
            Some(e) => entry_for(*env, language@, *schedule) == Some(e@),
            None => entry_for(*env, language@, *schedule) is None,
        },
{
    if schedule.is_postponed_indefinitely() {
        return None;
    }
    let venue = match &schedule.relationships.venue {
        Some(rel) => match env.find_venue(rel.id) {
            Some(v) => v,
            None => return None,
        },
        None => return None,
    };
    let event = match &schedule.relationships.event {
        Some(rel) => match env.find_event(rel.id) {
            Some(e) => e,
            None => return None,
        },
        None => return None,
    };
    let (summary, description) = match locale_get(&event.locales, language) {
        Some(l) => (l.name.clone(), render_markdown(l.description.as_str())),
        None => (String::new(), String::new()),
    };
    let url = match locale_get(&schedule.locales, language) {
        Some(l) => l.site_url.clone(),
        None => String::new(),
    };
    let e = CalendarEvent {
        url,
        summary,
        description,
        starts: schedule.attributes.start_at,
        ends: schedule.attributes.end_at,
        location: venue_location(venue, language),
        class: Class::Public,
    };
    Some(e)
}

/// The calendar name for `env` in `language`.
pub fn calendar_title(env: &GetSchedules, language: &str) -> (r: Option<String>)
    ensures
        match r {
            Some(n) => calendar_name(*env, language@) == Some(n@),
            None => calendar_name(*env, language@) is None,
        },
{
    if env.included.venues.len() == 0 {
        return None;
    }
    match locale_get(&env.included.venues[0].locales, language) {
        Some(l) => Some(l.name.clone()),
        None => None,
    }
}

/// The calendar of `schedules` in `language`: named after the first included
/// venue, with one event for each shown schedule, in the schedules' order.
pub fn event_calendar(language: &str, schedules: &GetSchedules) -> (r: Calendar)
    ensures
        r.events@.map_values(|e: CalendarEvent| e@) == calendar_entries(*schedules, language@),
        match r.name {
            Some(n) => calendar_name(*schedules, language@) == Some(n@),
            None => calendar_name(*schedules, language@) is None,
        },
{
    let name = calendar_title(schedules, language);
    let mut events: Vec<CalendarEvent> = Vec::new();
    let mut i: usize = 0;
    while i < schedules.schedules.len()
        invariant
            i <= schedules.schedules.len(),
            events@.map_values(|e: CalendarEvent| e@) == entries_upto(
                *schedules,
                language@,
                i as int,
            ),
        decreases schedules.schedules.len() - i,
    {
        let ghost before = events@;
        match calendar_entry(schedules, language, &schedules.schedules[i]) {
            Some(e) => {
                events.push(e);
                assert(events@.map_values(|e: CalendarEvent| e@) =~= before.map_values(
                    |e: CalendarEvent| e@,
                ).push(e@));
            },
            None => {},
        }
        i = i + 1;
    }
    Calendar { name, events }
}

/// `a` is not later than `b`.
pub open spec fn instant_le(a: UtcInstant, b: UtcInstant) -> bool {
    a.secs < b.secs || (a.secs == b.secs && a.nanos <= b.nanos)
}

/// `idx` maps each of the first `n` schedules' calendar events to the position
/// of the schedule it came from: positions rise strictly, and every schedule
/// among the first `n` that gives an event has its position in `idx`.
pub open spec fn is_source_map(env: GetSchedules, lang: Seq<char>, idx: Seq<int>, n: int) -> bool {
    let entries = entries_upto(env, lang, n);
    &&& idx.len() == entries.len()
    &&& forall|k: int|
        0 <= k < idx.len() ==> 0 <= #[trigger] idx[k] < n && entry_for(
            env,
            lang,
            env.schedules@[idx[k]],
        ) == Some(entries[k])
    &&& forall|k: int, l: int| 0 <= k < l < idx.len() ==> idx[k] < idx[l]
    &&& forall|i: int|
        0 <= i < n && (#[trigger] entry_for(env, lang, env.schedules@[i])) is Some ==> exists|
            k: int,
        |
            0 <= k < idx.len() && idx[k] == i
}

proof fn source_positions(env: GetSchedules, lang: Seq<char>, n: int) -> (idx: Seq<int>)
    requires
        0 <= n <= env.schedules@.len(),
    ensures
        is_source_map(env, lang, idx, n),
    decreases n,
{
    if n == 0 {
        Seq::empty()
    } else {
        let prev = source_positions(env, lang, n - 1);
        match entry_for(env, lang, env.schedules@[n - 1]) {
            Some(e) => {
                let idx = prev.push(n - 1);
                assert forall|i: int|
                    0 <= i < n && (#[trigger] entry_for(env, lang, env.schedules@[i])) is Some implies exists|
                        k: int,
                    |
                        0 <= k < idx.len() && idx[k] == i by {
                    if i == n - 1 {
                        assert(idx[prev.len() as int] == i);
                    } else {
                        let k = choose|k: int| 0 <= k < prev.len() && prev[k] == i;
                        assert(idx[k] == i);
                    }
                }
                idx
            },
            None => prev,
        }
    }
}

/// The calendar lists at most one event per schedule, in the order of the
/// schedules: each event is the one its schedule gives, the schedules they come
/// from rise strictly, and every schedule that gives an event is among them.
pub proof fn lemma_entries_keep_schedule_order(env: GetSchedules, lang: Seq<char>)
    ensures
        calendar_entries(env, lang).len() <= env.schedules@.len(),
        exists|idx: Seq<int>| is_source_map(env, lang, idx, env.schedules@.len() as int),
{
    let idx = source_positions(env, lang, env.schedules@.len() as int);
    assert forall|k: int, l: int| 0 <= k < l < idx.len() implies idx[k] < idx[l] by {}
    lemma_positions_bound(idx, env.schedules@.len() as int);
}

proof fn lemma_positions_bound(idx: Seq<int>, n: int)
    requires
        0 <= n,
        forall|k: int| 0 <= k < idx.len() ==> 0 <= #[trigger] idx[k] < n,
        forall|k: int, l: int| 0 <= k < l < idx.len() ==> idx[k] < idx[l],
    ensures
        idx.len() <= n,
    decreases idx.len(),
{
    if idx.len() > 0 {
        let rest = idx.drop_last();
        assert forall|k: int| 0 <= k < rest.len() implies 0 <= #[trigger] rest[k] < idx.last() by {
            assert(idx[k] < idx[idx.len() - 1]);
        }
        assert forall|k: int, l: int| 0 <= k < l < rest.len() implies rest[k] < rest[l] by {
            assert(idx[k] < idx[l]);
        }
        assert(0 <= idx[idx.len() - 1] < n);
        lemma_positions_bound(rest, idx.last());
    }
}

/// A schedule tagged as postponed indefinitely gives no calendar event, whether
/// or not its venue and event resolve.
pub proof fn lemma_postponed_schedule_not_shown(env: GetSchedules, lang: Seq<char>, s: Schedule)
    requires
        postponed_indefinitely(s),
    ensures
        entry_for(env, lang, s) is None,
{
}

/// A schedule whose venue or event reference is missing, or names no included
/// entity, gives no calendar event.
pub proof fn lemma_unresolved_schedule_not_shown(env: GetSchedules, lang: Seq<char>, s: Schedule)
    requires
        s.relationships.venue is None || s.relationships.event is None || venue_with_id(
            env.included.venues@,
            s.relationships.venue->0.id,
        ) is None || event_with_id(env.included.events@, s.relationships.event->0.id) is None,
    ensures
        entry_for(env, lang, s) is None,
{
}

/// Each calendar event starts and ends at the very instants of a schedule of
/// `env`; so where every schedule starts no later than it ends, so does every
/// calendar event, and where every schedule's instants are valid, so are the
/// calendar events'.
pub proof fn lemma_times_passed_through(env: GetSchedules, lang: Seq<char>)
    ensures
        forall|k: int|
            0 <= k < calendar_entries(env, lang).len() ==> exists|i: int|
                0 <= i < env.schedules@.len() && (#[trigger] calendar_entries(env, lang)[k]).starts
                    == env.schedules@[i].attributes.start_at && calendar_entries(env, lang)[k].ends
                    == env.schedules@[i].attributes.end_at,
        (forall|i: int|
            0 <= i < env.schedules@.len() ==> instant_le(
                #[trigger] env.schedules@[i].attributes.start_at,
                env.schedules@[i].attributes.end_at,
            )) ==> forall|k: int|
            0 <= k < calendar_entries(env, lang).len() ==> instant_le(
                #[trigger] calendar_entries(env, lang)[k].starts,
                calendar_entries(env, lang)[k].ends,
            ),
        (forall|i: int|
            0 <= i < env.schedules@.len() ==> (#[trigger] env.schedules@[i]).attributes.start_at.is_valid()
                && env.schedules@[i].attributes.end_at.is_valid()) ==> forall|k: int|
            0 <= k < calendar_entries(env, lang).len() ==> (#[trigger] calendar_entries(
                env,
                lang,
            )[k]).starts.is_valid() && calendar_entries(env, lang)[k].ends.is_valid(),
{
    let n = env.schedules@.len() as int;
    let idx = source_positions(env, lang, n);
    let entries = calendar_entries(env, lang);
    assert forall|k: int| 0 <= k < entries.len() implies exists|i: int|
        0 <= i < env.schedules@.len() && (#[trigger] calendar_entries(env, lang)[k]).starts
            == env.schedules@[i].attributes.start_at && calendar_entries(env, lang)[k].ends
            == env.schedules@[i].attributes.end_at by {
        assert(entry_for(env, lang, env.schedules@[idx[k]]) == Some(entries[k]));
    }
}

/// Where the event of a shown schedule has no texts in `lang`, its calendar
/// event has an empty summary and an empty description.
pub proof fn lemma_missing_translation_gives_empty_texts(
    env: GetSchedules,
    lang: Seq<char>,
    s: Schedule,
)
    requires
        entry_for(env, lang, s) is Some,
        locale_lookup(
            event_with_id(env.included.events@, s.relationships.event->0.id)->0.locales@,
            lang,
        ) is None,
    ensures
        entry_for(env, lang, s)->0.summary == Seq::<char>::empty(),
        entry_for(env, lang, s)->0.description == Seq::<char>::empty(),
{
}

} // verus!
