//! Which payloads become events.
//!
//! A payload is one JSON document from the window manager. Its `change`
//! member decides whether it is kept: only `new`, `close` and `focus` are.
//! A kept payload must name its window in `container.id` and its application
//! in `container.app_id`, or, where that is missing or `null`, in
//! `container.window_properties.class`. A kept payload that fails to do so is
//! malformed, which is an error; a payload of another change type is ignored,
//! which is not.

use crate::event::{named_change, ChangeType, Event, EventView};
use crate::json::{
    member, member_i64, member_int, member_of, member_str, member_text, value_tree, Json,
};
use crate::timestamp::Timestamp;
use vstd::prelude::*;
use vstd::string::*;

verus! {

/// What is wrong with a malformed payload: the first member, in the order
/// given here, that is missing or has the wrong shape.
#[derive(Clone, Copy, Debug, PartialEq, Eq, Structural)]
pub enum Defect {
    /// `change` is missing or is no string.
    Change,
    /// `container` is missing or is no object.
    Container,
    /// `container.id` is missing or is no integer that fits `i64`.
    WindowId,
    /// `container.app_id` is there and is neither a string nor `null`.
    AppId,
    /// `container.app_id` is missing or `null`, and
    /// `container.window_properties.class` is missing or is no string.
    WindowClass,
}

/// The outcome of classifying one payload.
#[derive(Debug, PartialEq, Eq)]
pub enum Classification {
    /// The payload is the given event.
    Keep(Event),
    /// The payload has a change type that the log does not keep.
    Ignore,
    /// The payload has a kept change type but lacks what an event needs.
    Malformed(Defect),
}

/// The mathematical value of a [`Classification`].
pub enum ClassificationView {
    Keep(EventView),
    Ignore,
    Malformed(Defect),
}

impl View for Classification {
    type V = ClassificationView;

    open spec fn view(&self) -> ClassificationView {
        match *self {
            Classification::Keep(event) => ClassificationView::Keep(event@),
            Classification::Ignore => ClassificationView::Ignore,
            Classification::Malformed(defect) => ClassificationView::Malformed(defect),
        }
    }
}

/// The window class that a container names in `window_properties.class`.
pub open spec fn window_class(container: Json) -> Result<Seq<char>, Defect> {
    match member_of(container, "window_properties"@) {
        Some(properties) => match member_text(properties, "class"@) {
            Some(class) => Ok(class),
            None => Err(Defect::WindowClass),
        },
        None => Err(Defect::WindowClass),
    }
}

/// The application that a container names: its `app_id` where that is a
/// string, its window class where `app_id` is missing or `null`.
pub open spec fn application(container: Json) -> Result<Seq<char>, Defect> {
    match member_of(container, "app_id"@) {
        Some(Json::Text(name)) => Ok(name),
        Some(Json::Null) => window_class(container),
        None => window_class(container),
        Some(_) => Err(Defect::AppId),
    }
}

/// A container whose `app_id` is missing or `null` names its application by
/// its window class, and fails only where it has none.
pub proof fn lemma_window_class_stands_in(container: Json)
    requires
        member_of(container, "app_id"@) is None || member_of(container, "app_id"@) == Some(
            Json::Null,
        ),
    ensures
        application(container) == window_class(container),
        application(container) is Err ==> application(container) == Err::<Seq<char>, Defect>(
            Defect::WindowClass,
        ),
{
}

/// The outcome of classifying the payload `payload` at the instant `now`.
pub open spec fn classification(payload: Json, now: nat) -> ClassificationView {
    match member_text(payload, "change"@) {
        None => ClassificationView::Malformed(Defect::Change),
        Some(word) => match named_change(word) {
            None => ClassificationView::Ignore,
            Some(change_type) => match member_of(payload, "container"@) {
                Some(Json::Object(members)) => match member_i64(Json::Object(members), "id"@) {
                    None => ClassificationView::Malformed(Defect::WindowId),
                    Some(window_id) => match application(Json::Object(members)) {
                        Ok(app_id) => ClassificationView::Keep(
                            EventView { change_type, timestamp: now, window_id, app_id },
                        ),
                        Err(defect) => ClassificationView::Malformed(defect),
                    },
                },
                _ => ClassificationView::Malformed(Defect::Container),
            },
        },
    }
}

/// A payload whose `change` is a word other than `new`, `close` and `focus`
/// is ignored, whatever else it holds.
pub proof fn lemma_other_change_is_ignored(payload: Json, now: nat)
    requires
        member_text(payload, "change"@) is Some,
        named_change(member_text(payload, "change"@).unwrap()) is None,
    ensures
        classification(payload, now) == ClassificationView::Ignore,
{
}

/// A kept event carries the instant of its classification and the change
/// type that the payload names.
pub proof fn lemma_kept_event(payload: Json, now: nat)
    requires
        classification(payload, now) is Keep,
    ensures
        classification(payload, now)->Keep_0.timestamp == now,
        named_change(member_text(payload, "change"@).unwrap()) == Some(
            classification(payload, now)->Keep_0.change_type,
        ),
{
}

/// Reads the application that a container names.
fn read_application(container: &serde_json::Value) -> (r: Result<String, Defect>)
    ensures
        match r {
            Ok(name) => application(value_tree(*container)) == Ok::<Seq<char>, Defect>(name@),
            Err(defect) => application(value_tree(*container)) == Err::<Seq<char>, Defect>(
                defect,
            ),
        },
{
    if let Some(app_id) = member(container, "app_id") {
        if let Some(name) = app_id.as_str() {
            return Ok(name.to_owned());
        }
        if !app_id.is_null() {
            return Err(Defect::AppId);
        }
    }
    let properties = match member(container, "window_properties") {
        Some(properties) => properties,
        None => {
            return Err(Defect::WindowClass);
        },
    };
    match member_str(properties, "class") {
        Some(class) => Ok(class.to_owned()),
        None => Err(Defect::WindowClass),
    }
}

/// Classifies one payload, stamping a kept event with `now`.
pub fn classify(payload: &serde_json::Value, now: Timestamp) -> (r: Classification)
    ensures
        r@ == classification(value_tree(*payload), now@),
{
    let change_type = match member_str(payload, "change") {
        Some(word) => match ChangeType::from_name(word) {
            Some(change_type) => change_type,
            None => {
                return Classification::Ignore;
            },
        },
        None => {
            return Classification::Malformed(Defect::Change);
        },
    };
    let container = match member(payload, "container") {
        Some(container) => container,
        None => {
            return Classification::Malformed(Defect::Container);
        },
    };
    if !container.is_object() {
        return Classification::Malformed(Defect::Container);
    }
    let window_id = match member_int(container, "id") {
        Some(window_id) => window_id,
        None => {
            return Classification::Malformed(Defect::WindowId);
        },
    };
    match read_application(container) {
        Ok(app_id) => Classification::Keep(
            Event { change_type, timestamp: now, window_id, app_id },
        ),
        Err(defect) => Classification::Malformed(defect),
    }
}

} // verus!
