//! Events and logs as JSON documents.
//!
//! An event is written as an object with the members `change_type`,
//! `timestamp`, `id` and `app_id`; a log as the array of its events, oldest
//! first. Reading accepts any object that has these four members in the right
//! shape, whatever else it holds.

use crate::event::{
    change_name, events_view, lemma_change_name_round_trip, named_change, ChangeType, Event,
    EventView,
};
use crate::json::{
    array, distinct_keys, entries_members, integer, member_i64, member_int, member_str,
    member_text, object, text, value_tree, value_trees, Json,
};
use crate::timestamp::{
    lemma_timestamp_round_trip, text_timestamp, timestamp_limit, timestamp_text, Timestamp,
};
use vstd::prelude::*;
use vstd::string::*;

verus! {

/// The members of the object that stands for an event.
pub open spec fn event_members(event: EventView) -> Map<Seq<char>, Json> {
    map![
        "change_type"@ => Json::Text(change_name(event.change_type)),
        "timestamp"@ => Json::Text(timestamp_text(event.timestamp)),
        "id"@ => Json::Int(event.window_id as int),
        "app_id"@ => Json::Text(event.app_id),
    ]
}

/// The document that stands for an event.
pub open spec fn event_tree(event: EventView) -> Json {
    Json::Object(event_members(event))
}

/// The event that a document stands for; `None` where one of the four
/// members is missing or has the wrong shape.
pub open spec fn tree_event(tree: Json) -> Option<EventView> {
    let change = member_text(tree, "change_type"@);
    let stamp = member_text(tree, "timestamp"@);
    let id = member_i64(tree, "id"@);
    let app = member_text(tree, "app_id"@);
    if change is Some && stamp is Some && id is Some && app is Some && named_change(
        change.unwrap(),
    ) is Some && text_timestamp(stamp.unwrap()) is Some {
        Some(
            EventView {
                change_type: named_change(change.unwrap()).unwrap(),
                timestamp: text_timestamp(stamp.unwrap()).unwrap(),
                window_id: id.unwrap(),
                app_id: app.unwrap(),
            },
        )
    } else {
        None
    }
}

/// The document that stands for a log.
pub open spec fn log_tree(events: Seq<EventView>) -> Json {
    Json::Array(events.map_values(|e: EventView| event_tree(e)))
}

/// The log that a document stands for; `None` where the document is no array
/// or one of its elements stands for no event.
pub open spec fn tree_log(tree: Json) -> Option<Seq<EventView>> {
    match tree {
        Json::Array(items) => if forall|i: int|
            0 <= i < items.len() ==> tree_event(#[trigger] items[i]) is Some {
            Some(items.map_values(|item: Json| tree_event(item).unwrap()))
        } else {
            None
        },
        _ => None,
    }
}

/// Whether every event of a sequence has a timestamp that can exist.
pub open spec fn timestamps_bounded(events: Seq<EventView>) -> bool {
    forall|i: int| 0 <= i < events.len() ==> (#[trigger] events[i]).timestamp < timestamp_limit()
}

/// The four member names differ pairwise.
pub proof fn lemma_member_names_differ()
    ensures
        "change_type"@ != "timestamp"@,
        "change_type"@ != "id"@,
        "change_type"@ != "app_id"@,
        "timestamp"@ != "id"@,
        "timestamp"@ != "app_id"@,
        "id"@ != "app_id"@,
{
    reveal_strlit("change_type");
    reveal_strlit("timestamp");
    reveal_strlit("id");
    reveal_strlit("app_id");
    assert("change_type"@.len() == 11);
    assert("timestamp"@.len() == 9);
    assert("id"@.len() == 2);
    assert("app_id"@.len() == 6);
}

/// Reading the document of an event gives the event back.
pub proof fn lemma_event_round_trip(event: EventView)
    requires
        event.timestamp < timestamp_limit(),
    ensures
        tree_event(event_tree(event)) == Some(event),
{
    lemma_member_names_differ();
    lemma_change_name_round_trip(event.change_type);
    lemma_timestamp_round_trip(event.timestamp);
}

/// Reading the document of a log gives the log back, event for event and in
/// the same order.
pub proof fn lemma_log_round_trip(events: Seq<EventView>)
    requires
        timestamps_bounded(events),
    ensures
        tree_log(log_tree(events)) == Some(events),
{
    let items = events.map_values(|e: EventView| event_tree(e));
    assert forall|i: int| 0 <= i < items.len() implies tree_event(#[trigger] items[i]) == Some(
        events[i],
    ) by {
        lemma_event_round_trip(events[i]);
    }
    assert(items.map_values(|item: Json| tree_event(item).unwrap()) =~= events);
}

/// Builds the document of an event.
pub fn event_value(event: &Event) -> (r: serde_json::Value)
    ensures
        value_tree(r) == event_tree(event@),
{
    let mut entries: Vec<(String, serde_json::Value)> = Vec::new();
    entries.push(("change_type".to_owned(), text(event.change_type.name().to_owned())));
    entries.push(("timestamp".to_owned(), text(event.timestamp.to_text())));
    entries.push(("id".to_owned(), integer(event.window_id)));
    entries.push(("app_id".to_owned(), text(event.app_id.clone())));
    proof {
        lemma_member_names_differ();
        assert(entries@[0].0@ == "change_type"@);
        assert(entries@[1].0@ == "timestamp"@);
        assert(entries@[2].0@ == "id"@);
        assert(entries@[3].0@ == "app_id"@);
        assert(distinct_keys(entries@));
        assert(entries_members(entries@) =~= event_members(event@));
    }
    object(entries)
}

/// Builds the document of a log.
pub fn log_value(events: &Vec<Event>) -> (r: serde_json::Value)
    ensures
        value_tree(r) == log_tree(events_view(events@)),
{
    let mut items: Vec<serde_json::Value> = Vec::new();
    let mut i: usize = 0;
    while i < events.len()
        invariant
            i <= events.len(),
            items.len() == i,
            forall|j: int| 0 <= j < i ==> value_tree(#[trigger] items[j]) == event_tree(events[j]@),
        decreases events.len() - i,
    {
        items.push(event_value(&events[i]));
        i = i + 1;
    }
    assert(value_trees(items@) =~= events_view(events@).map_values(|e: EventView| event_tree(e)));
    array(items)
}

/// Reads the event that a document stands for.
pub fn event_from_value(v: &serde_json::Value) -> (r: Option<Event>)
    ensures
        match r {
            Some(event) => tree_event(value_tree(*v)) == Some(event@),
            None => tree_event(value_tree(*v)) is None,
        },
{
    let change_type = match member_str(v, "change_type") {
        Some(name) => match ChangeType::from_name(name) {
            Some(change) => change,
            None => {
                return None;
            },
        },
        None => {
            return None;
        },
    };
    let timestamp = match member_str(v, "timestamp") {
        Some(stamp) => match Timestamp::from_text(stamp) {
            Some(t) => t,
            None => {
                return None;
            },
        },
        None => {
            return None;
        },
    };
    let window_id = match member_int(v, "id") {
        Some(id) => id,
        None => {
            return None;
        },
    };
    let app_id = match member_str(v, "app_id") {
        Some(app) => app.to_owned(),
        None => {
            return None;
        },
    };
    Some(Event { change_type, timestamp, window_id, app_id })
}

/// Reads the log that a document stands for.
pub fn log_from_value(v: &serde_json::Value) -> (r: Option<Vec<Event>>)
    ensures
        match r {
            Some(events) => tree_log(value_tree(*v)) == Some(events_view(events@)),
            None => tree_log(value_tree(*v)) is None,
        },
{
    let items = match v.as_array() {
        Some(items) => items,
        None => {
            return None;
        },
    };
    let ghost trees = value_trees(items@);
    let mut events: Vec<Event> = Vec::new();
    let mut i: usize = 0;
    while i < items.len()
        invariant
            i <= items.len(),
            events.len() == i,
            trees == value_trees(items@),
            value_tree(*v) == Json::Array(trees),
            forall|j: int| 0 <= j < i ==> tree_event(#[trigger] trees[j]) == Some(events[j]@),
        decreases items.len() - i,
    {
        match event_from_value(&items[i]) {
            Some(event) => {
                events.push(event);
            },
            None => {
                assert(tree_event(trees[i as int]) is None);
                return None;
            },
        }
        i = i + 1;
    }
    assert(events_view(events@) =~= trees.map_values(|item: Json| tree_event(item).unwrap()));
    Some(events)
}

} // verus!
