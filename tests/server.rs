use bevy_contrib_inspector::launch::open_flag;
use bevy_contrib_inspector::record::{Leaf, Record};
use bevy_contrib_inspector::server::{
    apply_event, decide_request, handle_request, parse_body, poll_once, Event, RequestMethod,
    Response, ServerConfig,
};
use bevy_contrib_inspector::{Inspectable, InspectableOptions};
use crossbeam_channel::{bounded, unbounded};

fn counter() -> Record {
    let mut r = Record::new("Data", InspectableOptions::default());
    r.add_field("count", Leaf::U32(0)).unwrap();
    r
}

#[test]
fn body_splits_at_first_colon() {
    assert_eq!(parse_body("b.c:5"), Some((String::from("b.c"), String::from("5"))));
    assert_eq!(parse_body("t:a:b"), Some((String::from("t"), String::from("a:b"))));
    assert_eq!(parse_body("x:"), Some((String::from("x"), String::new())));
    assert_eq!(parse_body("novaluepath"), None);
}

#[test]
fn body_without_separator_queues_nothing() {
    let (tx, rx) = unbounded::<Event>();
    let config = ServerConfig::new(String::from("page"));
    let (resp, sent) = handle_request(&config, RequestMethod::Put, "novaluepath", &tx);
    assert!(matches!(resp, Response::Empty));
    assert!(!sent);
    assert!(rx.try_recv().is_err());
}

#[test]
fn read_returns_page_and_other_methods_are_acknowledged() {
    let (tx, rx) = unbounded::<Event>();
    let config = ServerConfig::new(String::from("<p>page</p>"));
    let (resp, sent) = handle_request(&config, RequestMethod::Get, "count:1", &tx);
    assert!(matches!(resp, Response::Document(ref d) if d == "<p>page</p>"));
    assert!(!sent);
    let (resp, sent) = handle_request(&config, RequestMethod::Other, "count:1", &tx);
    assert!(matches!(resp, Response::Empty));
    assert!(!sent);
    assert!(rx.try_recv().is_err());
    let outcome = decide_request(&config, RequestMethod::Put, "count:3");
    assert!(matches!(outcome.response, Response::Empty));
    assert_eq!(outcome.event, Some((String::from("count"), String::from("3"))));
}

#[test]
fn write_then_poll_then_read_shows_new_value() {
    let (tx, rx) = unbounded::<Event>();
    let mut record = counter();
    let mut config = ServerConfig::new(record.html());
    assert!(config.html().contains("value=\"0\""));
    let (resp, sent) = handle_request(&config, RequestMethod::Put, "count:7", &tx);
    assert!(matches!(resp, Response::Empty));
    assert!(sent);
    let polled = poll_once(&rx, &mut record);
    assert!(matches!(polled, Some((_, Ok(())))));
    assert!(matches!(record.value_at("count"), Some(Leaf::U32(7))));
    config.set_html(record.html());
    let (resp, _) = handle_request(&config, RequestMethod::Get, "", &tx);
    assert!(matches!(resp, Response::Document(ref d) if d.contains("value=\"7\"")));
}

#[test]
fn events_drain_one_per_poll_in_order() {
    let (tx, rx) = unbounded::<Event>();
    let config = ServerConfig::new(String::new());
    let mut record = counter();
    handle_request(&config, RequestMethod::Put, "count:1", &tx);
    handle_request(&config, RequestMethod::Put, "count:2", &tx);
    let first = poll_once(&rx, &mut record);
    assert!(matches!(first, Some(((ref p, ref v), Ok(()))) if p == "count" && v == "1"));
    assert!(matches!(record.value_at("count"), Some(Leaf::U32(1))));
    let second = poll_once(&rx, &mut record);
    assert!(matches!(second, Some(((_, ref v), Ok(()))) if v == "2"));
    assert!(matches!(record.value_at("count"), Some(Leaf::U32(2))));
    assert!(poll_once(&rx, &mut record).is_none());
    assert!(matches!(record.value_at("count"), Some(Leaf::U32(2))));
}

#[test]
fn failed_edit_from_queue_is_reported_and_skipped() {
    let (tx, rx) = unbounded::<Event>();
    let config = ServerConfig::new(String::new());
    let mut record = counter();
    handle_request(&config, RequestMethod::Put, "count:-1", &tx);
    handle_request(&config, RequestMethod::Put, "missing:1", &tx);
    assert!(matches!(poll_once(&rx, &mut record), Some((_, Err(_)))));
    assert!(matches!(poll_once(&rx, &mut record), Some((_, Err(_)))));
    assert!(matches!(record.value_at("count"), Some(Leaf::U32(0))));
}

#[test]
fn applying_no_event_changes_nothing() {
    let mut record = counter();
    assert!(apply_event(&mut record, &None).is_none());
    assert!(matches!(record.value_at("count"), Some(Leaf::U32(0))));
    let r = apply_event(&mut record, &Some((String::from("count"), String::from("9"))));
    assert!(matches!(r, Some(Ok(()))));
    assert!(matches!(record.value_at("count"), Some(Leaf::U32(9))));
}

fn edit<T: Inspectable>(t: &mut T) -> bool {
    t.update("count", "3").is_ok()
}

#[test]
fn inspectable_trait_routes_like_the_record() {
    let mut record = counter();
    assert!(edit(&mut record));
    assert!(matches!(record.value_at("count"), Some(Leaf::U32(3))));
}

#[test]
fn open_flag_reads_yes_and_no() {
    for yes in ["1", "true", "yes", "y"] {
        assert_eq!(open_flag(yes), Some(true));
    }
    for no in ["0", "false", "no", "n"] {
        assert_eq!(open_flag(no), Some(false));
    }
    assert_eq!(open_flag("YES"), None);
    assert_eq!(open_flag(""), None);
    assert_eq!(open_flag("maybe"), None);
}

#[test]
fn full_channel_refuses_without_blocking() {
    let config = ServerConfig::new(String::new());
    let (tx, _rx) = bounded::<Event>(0);
    let (resp, sent) = handle_request(&config, RequestMethod::Put, "a:b", &tx);
    assert!(matches!(resp, Response::Empty));
    assert!(!sent);
    let (tx, rx) = bounded::<Event>(1);
    assert!(handle_request(&config, RequestMethod::Put, "count:1", &tx).1);
    assert!(!handle_request(&config, RequestMethod::Put, "count:2", &tx).1);
    assert_eq!(rx.try_recv().ok(), Some((String::from("count"), String::from("1"))));
    assert!(rx.try_recv().is_err());
}
