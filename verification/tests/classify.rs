use focus_tracker::classify::{classify, Classification, Defect};
use focus_tracker::event::{ChangeType, Event};
use focus_tracker::timestamp::Timestamp;
use serde_json::Value;

fn payload(text: &str) -> Value {
    serde_json::from_str::<Value>(text).unwrap()
}

fn noon() -> Timestamp {
    Timestamp::new(1_700_000_000, 250).unwrap()
}

fn kept(change_type: ChangeType, window_id: i64, app_id: &str) -> Classification {
    Classification::Keep(Event { change_type, timestamp: noon(), window_id, app_id: app_id.to_owned() })
}

#[test]
fn change_type_names() {
    assert_eq!(ChangeType::New.name(), "new");
    assert_eq!(ChangeType::Close.name(), "close");
    assert_eq!(ChangeType::Focus.name(), "focus");
    assert_eq!(ChangeType::from_name("new"), Some(ChangeType::New));
    assert_eq!(ChangeType::from_name("close"), Some(ChangeType::Close));
    assert_eq!(ChangeType::from_name("focus"), Some(ChangeType::Focus));
    assert_eq!(ChangeType::from_name("move"), None);
    assert_eq!(ChangeType::from_name("Focus"), None);
    assert_eq!(ChangeType::from_name(""), None);
    assert_eq!(ChangeType::from_name("focus "), None);
}

#[test]
fn focus_with_app_id_is_kept() {
    let p = payload(r#"{"change":"focus","container":{"id":5,"app_id":"firefox"}}"#);
    assert_eq!(classify(&p, noon()), kept(ChangeType::Focus, 5, "firefox"));
}

#[test]
fn new_and_close_are_kept() {
    let p = payload(r#"{"change":"new","container":{"id":-3,"app_id":"foot"}}"#);
    assert_eq!(classify(&p, noon()), kept(ChangeType::New, -3, "foot"));
    let p = payload(r#"{"change":"close","container":{"id":9223372036854775807,"app_id":""}}"#);
    assert_eq!(classify(&p, noon()), kept(ChangeType::Close, i64::MAX, ""));
}

#[test]
fn kept_event_carries_the_given_instant() {
    let p = payload(r#"{"change":"focus","timestamp":"never","container":{"id":5,"app_id":"a"}}"#);
    let later = Timestamp::new(1_700_000_001, 0).unwrap();
    match classify(&p, later) {
        Classification::Keep(event) => assert_eq!(event.timestamp, later),
        other => panic!("not kept: {:?}", other),
    }
}

#[test]
fn null_app_id_falls_back_to_window_class() {
    let p = payload(
        r#"{"change":"focus","container":{"id":8,"app_id":null,"window_properties":{"class":"Zoom"}}}"#,
    );
    assert_eq!(classify(&p, noon()), kept(ChangeType::Focus, 8, "Zoom"));
}

#[test]
fn string_app_id_wins_over_window_class() {
    let p = payload(
        r#"{"change":"new","container":{"id":8,"app_id":"zoom","window_properties":{"class":"Zoom"}}}"#,
    );
    assert_eq!(classify(&p, noon()), kept(ChangeType::New, 8, "zoom"));
}

#[test]
fn other_change_types_are_ignored() {
    for change in ["move", "title", "fullscreen_mode", "floating", "urgent", "mark", "", "Focus", "NEW"] {
        let text = format!(r#"{{"change":"{}","container":{{"id":5,"app_id":"firefox"}}}}"#, change);
        assert_eq!(classify(&payload(&text), noon()), Classification::Ignore);
    }
}

#[test]
fn other_change_types_are_ignored_whatever_else_is_missing() {
    assert_eq!(classify(&payload(r#"{"change":"move"}"#), noon()), Classification::Ignore);
    assert_eq!(
        classify(&payload(r#"{"change":"move","container":7}"#), noon()),
        Classification::Ignore
    );
}

#[test]
fn missing_or_odd_change_is_malformed() {
    for text in [
        r#"{}"#,
        r#"{"container":{"id":5,"app_id":"firefox"}}"#,
        r#"{"change":null,"container":{"id":5,"app_id":"firefox"}}"#,
        r#"{"change":3,"container":{"id":5,"app_id":"firefox"}}"#,
        r#"{"change":["focus"],"container":{"id":5,"app_id":"firefox"}}"#,
        r#"["focus"]"#,
        r#""focus""#,
    ] {
        assert_eq!(classify(&payload(text), noon()), Classification::Malformed(Defect::Change));
    }
}

#[test]
fn missing_or_odd_container_is_malformed() {
    for text in [
        r#"{"change":"focus"}"#,
        r#"{"change":"focus","container":null}"#,
        r#"{"change":"focus","container":[{"id":5,"app_id":"firefox"}]}"#,
        r#"{"change":"new","container":"firefox"}"#,
    ] {
        assert_eq!(classify(&payload(text), noon()), Classification::Malformed(Defect::Container));
    }
}

#[test]
fn focus_without_window_id_is_malformed() {
    let p = payload(r#"{"change":"focus","container":{"app_id":"firefox"}}"#);
    assert_eq!(classify(&p, noon()), Classification::Malformed(Defect::WindowId));
}

#[test]
fn window_id_that_is_no_i64_is_malformed() {
    for text in [
        r#"{"change":"focus","container":{"id":"5","app_id":"firefox"}}"#,
        r#"{"change":"focus","container":{"id":5.0,"app_id":"firefox"}}"#,
        r#"{"change":"focus","container":{"id":5.5,"app_id":"firefox"}}"#,
        r#"{"change":"focus","container":{"id":9223372036854775808,"app_id":"firefox"}}"#,
        r#"{"change":"focus","container":{"id":null,"app_id":"firefox"}}"#,
        r#"{"change":"focus","container":{}}"#,
    ] {
        assert_eq!(classify(&payload(text), noon()), Classification::Malformed(Defect::WindowId));
    }
}

#[test]
fn missing_app_id_falls_back_to_window_class() {
    let p = payload(r#"{"change":"focus","container":{"id":5,"window_properties":{"class":"Zoom"}}}"#);
    assert_eq!(classify(&p, noon()), kept(ChangeType::Focus, 5, "Zoom"));
}

#[test]
fn odd_app_id_is_malformed() {
    for text in [
        r#"{"change":"focus","container":{"id":5,"app_id":7}}"#,
        r#"{"change":"focus","container":{"id":5,"app_id":false}}"#,
        r#"{"change":"focus","container":{"id":5,"app_id":["firefox"]}}"#,
        r#"{"change":"focus","container":{"id":5,"app_id":{"name":"firefox"}}}"#,
        r#"{"change":"focus","container":{"id":5,"app_id":7,"window_properties":{"class":"Zoom"}}}"#,
    ] {
        assert_eq!(classify(&payload(text), noon()), Classification::Malformed(Defect::AppId));
    }
}

#[test]
fn missing_app_id_without_window_class_is_malformed() {
    for text in [
        r#"{"change":"focus","container":{"id":5}}"#,
        r#"{"change":"focus","container":{"id":5,"window_properties":{}}}"#,
        r#"{"change":"focus","container":{"id":5,"window_properties":{"class":7}}}"#,
        r#"{"change":"focus","container":{"id":5,"window_properties":"Zoom"}}"#,
    ] {
        assert_eq!(
            classify(&payload(text), noon()),
            Classification::Malformed(Defect::WindowClass)
        );
    }
}

#[test]
fn null_app_id_without_window_class_is_malformed() {
    for text in [
        r#"{"change":"focus","container":{"id":5,"app_id":null}}"#,
        r#"{"change":"focus","container":{"id":5,"app_id":null,"window_properties":null}}"#,
        r#"{"change":"focus","container":{"id":5,"app_id":null,"window_properties":{}}}"#,
        r#"{"change":"focus","container":{"id":5,"app_id":null,"window_properties":{"class":null}}}"#,
        r#"{"change":"focus","container":{"id":5,"app_id":null,"window_properties":{"class":4}}}"#,
        r#"{"change":"focus","container":{"id":5,"app_id":null,"window_properties":["Zoom"]}}"#,
    ] {
        assert_eq!(
            classify(&payload(text), noon()),
            Classification::Malformed(Defect::WindowClass)
        );
    }
}

#[test]
fn first_defect_in_order_is_reported() {
    let p = payload(r#"{"change":"focus","container":{"app_id":7}}"#);
    assert_eq!(classify(&p, noon()), Classification::Malformed(Defect::WindowId));
}
