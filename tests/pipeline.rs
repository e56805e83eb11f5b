use goout_calendar::extract::{
    not_found_message, parse_venue_id, profile_page_url, schedules_query, value_after, venue_id_from_page,
    ResolveError,
};
use goout_calendar::goout::{
    locale_get, Event, EventLocale, GetSchedules, GetSchedulesInc, Rel, Schedule, ScheduleAttrs,
    ScheduleLocale, ScheduleRels, UtcInstant, Venue, VenueAttrs, VenueLocale,
};
use goout_calendar::ical::{calendar_entry, event_calendar, venue_location, Class};

fn escaped_url(host: &str) -> String {
    let slash = "\\u002F";
    format!("https:{slash}{slash}{host}{slash}venue{slash}")
}

fn goout_url() -> String {
    escaped_url("goout.net")
}

fn rel(id: i64, kind: &str) -> Rel {
    Rel { id, type_field: kind.to_string() }
}

fn at(secs: i64) -> UtcInstant {
    UtcInstant { secs, nanos: 0 }
}

fn schedule(id: i64, venue: Option<i64>, event: Option<i64>, start: i64, end: i64) -> Schedule {
    Schedule {
        id,
        attributes: ScheduleAttrs { start_at: at(start), end_at: at(end), ..Default::default() },
        relationships: ScheduleRels {
            venue: venue.map(|v| rel(v, "venue")),
            event: event.map(|e| rel(e, "event")),
            ..Default::default()
        },
        locales: vec![(
            "en".to_string(),
            ScheduleLocale { stage: None, site_url: format!("https://goout.net/en/s{id}") },
        )],
        type_field: "schedule".to_string(),
        url: String::new(),
    }
}

fn event(id: i64, name: &str, description: &str) -> Event {
    Event {
        id,
        locales: vec![(
            "en".to_string(),
            EventLocale {
                name: name.to_string(),
                description: description.to_string(),
                ..Default::default()
            },
        )],
        ..Default::default()
    }
}

fn venue(id: i64, name: &str, address: &str) -> Venue {
    Venue {
        id,
        attributes: VenueAttrs { address: address.to_string(), ..Default::default() },
        locales: vec![(
            "en".to_string(),
            VenueLocale { name: name.to_string(), ..Default::default() },
        )],
        ..Default::default()
    }
}

fn envelope(schedules: Vec<Schedule>, events: Vec<Event>, venues: Vec<Venue>) -> GetSchedules {
    GetSchedules { schedules, included: GetSchedulesInc { events, schedules: vec![], venues } }
}

#[test]
fn venue_id_found_after_escaped_url() {
    let html = format!(r#"<script>{{"url":"{}12345","x":1}}</script>"#, goout_url());
    assert_eq!(parse_venue_id(&html), Some("12345".to_string()));
}

#[test]
fn venue_id_with_custom_marker() {
    let marker = escaped_url("example.test");
    let html = format!(r#"...{marker}12345"..."#);
    assert_eq!(value_after(&html, &marker), Some("12345".to_string()));
    assert_eq!(value_after("<html></html>", &marker), None);
}

#[test]
fn venue_id_first_occurrence_wins() {
    let html = format!(r#"a {0}7" b {0}8""#, goout_url());
    assert_eq!(parse_venue_id(&html), Some("7".to_string()));
}

#[test]
fn venue_id_runs_to_end_without_quote() {
    let html = format!("{}99", goout_url());
    assert_eq!(parse_venue_id(&html), Some("99".to_string()));
    let empty = format!(r#"{}""#, goout_url());
    assert_eq!(parse_venue_id(&empty), Some(String::new()));
}

#[test]
fn venue_id_missing_names_short_id() {
    let html = "<html><body>https://goout.net/venue/12345</body></html>";
    assert_eq!(parse_venue_id(html), None);
    assert_eq!(parse_venue_id(""), None);
    let err = venue_id_from_page(html, "vzkpbb").unwrap_err();
    assert_eq!(err, ResolveError::VenueIdNotFound { short_id: "vzkpbb".to_string() });
    assert_eq!(err.message(), "Failed to parse venue ID for \"vzkpbb\"");
    assert!(err.message().contains(&format!("{:?}", "vzkpbb")));
}

#[test]
fn not_found_message_escapes_quotes() {
    let err = venue_id_from_page("", "a\"b").unwrap_err();
    assert_eq!(err.message(), "Failed to parse venue ID for \"a\\\"b\"");
    assert_eq!(not_found_message("\"x\""), "Failed to parse venue ID for \"x\"");
}

#[test]
fn venue_id_from_page_ok() {
    let html = format!(r#"x {}42" y"#, goout_url());
    assert_eq!(venue_id_from_page(&html, "abc"), Ok("42".to_string()));
}

#[test]
fn request_addresses() {
    assert_eq!(profile_page_url("cs", "vzkpbb"), "https://goout.net/cs/venue/vzkpbb");
    let q = schedules_query("en", "42");
    assert_eq!(
        q,
        vec![
            ("venueIds[]".to_string(), "42".to_string()),
            ("languages[]".to_string(), "en".to_string()),
            ("include".to_string(), "events,venues".to_string()),
        ]
    );
}

#[test]
fn lookups_by_id() {
    let env = envelope(
        vec![],
        vec![event(1, "A", ""), event(2, "B", ""), event(2, "C", "")],
        vec![venue(5, "V", "Street")],
    );
    assert_eq!(env.find_event(2).map(|e| e.locales[0].1.name.clone()), Some("B".to_string()));
    assert!(env.find_event(3).is_none());
    assert_eq!(env.find_venue(5).map(|v| v.id), Some(5));
    assert!(env.find_venue(1).is_none());
}

#[test]
fn locale_lookup_by_language() {
    let entries = vec![("cs".to_string(), 1u32), ("en".to_string(), 2u32)];
    assert_eq!(locale_get(&entries, "en"), Some(&2));
    assert_eq!(locale_get(&entries, "de"), None);
}

#[test]
fn postponement_tag_detected() {
    let mut s = schedule(1, Some(1), Some(1), 0, 10);
    assert!(!s.is_postponed_indefinitely());
    s.attributes.tags = vec!["sold_out".to_string(), "postponed_indefinitely".to_string()];
    assert!(s.is_postponed_indefinitely());
    s.attributes.tags = vec!["postponed".to_string()];
    assert!(!s.is_postponed_indefinitely());
}

#[test]
fn end_to_end_single_entry() {
    let html = format!(r#"<a href="{}42">"#, goout_url());
    let venue_id = venue_id_from_page(&html, "short").unwrap();
    assert_eq!(venue_id, "42");
    let env = envelope(
        vec![schedule(100, Some(42), Some(7), 1_700_000_000, 1_700_003_600)],
        vec![event(7, "Jazz Night", "")],
        vec![venue(42, "Blue Room", "Main St 1")],
    );
    let cal = event_calendar("en", &env);
    assert_eq!(cal.name, Some("Blue Room".to_string()));
    assert_eq!(cal.events.len(), 1);
    let e = &cal.events[0];
    assert_eq!(e.summary, "Jazz Night");
    assert_eq!(e.location, "Blue Room\nMain St 1");
    assert!(e.location.starts_with("Blue Room"));
    assert!(e.location.ends_with("Main St 1"));
    assert_eq!(e.url, "https://goout.net/en/s100");
    assert_eq!(e.starts, at(1_700_000_000));
    assert_eq!(e.ends, at(1_700_003_600));
    assert_eq!(e.class, Class::Public);
}

#[test]
fn postponed_schedule_is_left_out() {
    let mut s = schedule(1, Some(42), Some(7), 0, 10);
    s.attributes.tags = vec!["postponed_indefinitely".to_string()];
    let env = envelope(
        vec![s, schedule(2, Some(42), Some(7), 20, 30)],
        vec![event(7, "Jazz Night", "")],
        vec![venue(42, "Blue Room", "Main St 1")],
    );
    let cal = event_calendar("en", &env);
    assert_eq!(cal.events.len(), 1);
    assert_eq!(cal.events[0].starts, at(20));
}

#[test]
fn unresolved_references_are_skipped() {
    let env = envelope(
        vec![
            schedule(1, None, Some(7), 0, 1),
            schedule(2, Some(42), None, 0, 1),
            schedule(3, Some(99), Some(7), 0, 1),
            schedule(4, Some(42), Some(98), 0, 1),
            schedule(5, Some(42), Some(7), 5, 6),
        ],
        vec![event(7, "Jazz Night", "")],
        vec![venue(42, "Blue Room", "Main St 1")],
    );
    let cal = event_calendar("en", &env);
    assert_eq!(cal.events.len(), 1);
    assert_eq!(cal.events[0].starts, at(5));
    assert!(calendar_entry(&env, "en", &env.schedules[2]).is_none());
}

#[test]
fn entries_keep_order_and_times() {
    let env = envelope(
        vec![
            schedule(1, Some(42), Some(8), 300, 400),
            schedule(2, Some(1), Some(7), 0, 1),
            schedule(3, Some(42), Some(7), 100, 200),
            schedule(4, Some(42), Some(8), 500, 500),
        ],
        vec![event(7, "Seven", ""), event(8, "Eight", "")],
        vec![venue(42, "Blue Room", "Main St 1")],
    );
    let cal = event_calendar("en", &env);
    let summaries: Vec<&str> = cal.events.iter().map(|e| e.summary.as_str()).collect();
    assert_eq!(summaries, vec!["Eight", "Seven", "Eight"]);
    let times: Vec<(i64, i64)> = cal.events.iter().map(|e| (e.starts.secs, e.ends.secs)).collect();
    assert_eq!(times, vec![(300, 400), (100, 200), (500, 500)]);
    for e in &cal.events {
        assert!(e.starts.secs <= e.ends.secs);
    }
}

#[test]
fn missing_translation_gives_empty_texts() {
    let env = envelope(
        vec![schedule(1, Some(42), Some(7), 0, 10)],
        vec![event(7, "Jazz Night", "**Live**")],
        vec![venue(42, "Blue Room", "Main St 1")],
    );
    let cal = event_calendar("de", &env);
    assert_eq!(cal.name, None);
    assert_eq!(cal.events.len(), 1);
    assert_eq!(cal.events[0].summary, "");
    assert_eq!(cal.events[0].description, "");
    assert_eq!(cal.events[0].url, "");
    assert_eq!(cal.events[0].location, "Main St 1");
}

#[test]
fn description_rendered_as_html() {
    let env = envelope(
        vec![schedule(1, Some(42), Some(7), 0, 10)],
        vec![event(7, "Jazz Night", "An *intimate* evening of **live** jazz")],
        vec![venue(42, "Blue Room", "Main St 1")],
    );
    let cal = event_calendar("en", &env);
    let d = &cal.events[0].description;
    assert_eq!(d, "<p>An <em>intimate</em> evening of <strong>live</strong> jazz</p>");
    assert!(!d.contains('*'));
}

#[test]
fn empty_envelope_gives_empty_calendar() {
    let env = envelope(vec![], vec![], vec![]);
    let cal = event_calendar("en", &env);
    assert_eq!(cal.name, None);
    assert!(cal.events.is_empty());
}

#[test]
fn calendar_named_after_first_venue() {
    let env = envelope(
        vec![],
        vec![],
        vec![venue(1, "First", "A"), venue(2, "Second", "B")],
    );
    assert_eq!(event_calendar("en", &env).name, Some("First".to_string()));
}

#[test]
fn location_without_localized_name() {
    let mut v = venue(1, "Hall", "Long St 5");
    assert_eq!(venue_location(&v, "en"), "Hall\nLong St 5");
    v.locales.clear();
    assert_eq!(venue_location(&v, "en"), "Long St 5");
}
