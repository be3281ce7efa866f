//! The event log and the capture step that feeds it.
//!
//! The log is the ordered sequence of kept events. Each change to it comes
//! with the full JSON text of the new sequence, which the caller writes over
//! the log file; the log itself touches no storage. One `&mut EventLog` is
//! the only way to append and `&EventLog` the only way to read, so a reader
//! sees the sequence before an append or after it, never in between.

use crate::classify::{classification, classify, Classification, ClassificationView, Defect};
use crate::codec::{
    lemma_log_round_trip, log_from_value, log_tree, log_value, timestamps_bounded, tree_log,
};
use crate::event::{copy_events, events_view, named_change, Event, EventView};
use crate::json::{json_parse, json_pretty, member_text, parse, pretty, value_tree, Json};
use crate::timestamp::{timestamp_limit, Timestamp};
use vstd::prelude::*;

verus! {

/// The encoder refused to write the log.
#[derive(Clone, Copy, Debug, PartialEq, Eq, Structural)]
pub struct EncodeError;

/// Why a capture step failed. Each of these ends the capture loop.
#[derive(Clone, Copy, Debug, PartialEq, Eq, Structural)]
pub enum CaptureError {
    /// The output of the subscription command is no JSON object.
    Undecodable,
    /// The payload has a kept change type but lacks what an event needs.
    Malformed(Defect),
    /// The event was appended, but the encoder refused to write the log.
    Encode,
}

/// What a successful capture step did.
#[derive(Debug, PartialEq, Eq)]
pub enum Captured {
    /// The payload was dropped; the log and its file stay as they are.
    Ignored,
    /// The payload was appended; the log file is to hold the given text.
    Recorded(Vec<u8>),
}

/// The text of the empty log, `[]`, with which a missing log file is started.
pub open spec fn empty_log_text() -> Seq<u8> {
    seq![0x5bu8, 0x5du8]
}

/// The log that stored text stands for, given what the JSON reader makes of
/// the text: the events it lists, or the empty log where the text is no JSON
/// or is not the document of a log.
pub open spec fn stored_log(parsed: Option<Json>) -> Seq<EventView> {
    match parsed {
        Some(tree) => match tree_log(tree) {
            Some(events) => events,
            None => Seq::empty(),
        },
        None => Seq::empty(),
    }
}

/// What one capture step does to a log `before` on the payload `payload` at
/// the instant `now`: the log `after` it, and the result `r` that it reports.
pub open spec fn capture_step(
    before: Seq<EventView>,
    payload: Json,
    now: nat,
    after: Seq<EventView>,
    r: Result<Captured, CaptureError>,
) -> bool {
    if !(payload is Object) {
        after == before && r == Err::<Captured, CaptureError>(CaptureError::Undecodable)
    } else {
        match classification(payload, now) {
            ClassificationView::Ignore => after == before && r == Ok::<Captured, CaptureError>(
                Captured::Ignored,
            ),
            ClassificationView::Malformed(defect) => after == before && r == Err::<
                Captured,
                CaptureError,
            >(CaptureError::Malformed(defect)),
            ClassificationView::Keep(event) => after == before.push(event) && match r {
                Ok(Captured::Recorded(contents)) => json_pretty(log_tree(after)) == Some(
                    contents@,
                ),
                Ok(Captured::Ignored) => false,
                Err(error) => error == CaptureError::Encode && json_pretty(log_tree(after))
                    is None,
            },
        }
    }
}

/// A capture step on a payload whose `change` is not one of `new`, `close`
/// and `focus` leaves the log as it was; where `change` is a string, the step
/// reports that it ignored the payload.
pub proof fn lemma_other_change_leaves_log(
    before: Seq<EventView>,
    payload: Json,
    now: nat,
    after: Seq<EventView>,
    r: Result<Captured, CaptureError>,
)
    requires
        capture_step(before, payload, now, after, r),
        member_text(payload, "change"@) matches Some(word) ==> named_change(word) is None,
    ensures
        after == before,
        after.len() == before.len(),
        member_text(payload, "change"@) is Some ==> r == Ok::<Captured, CaptureError>(
            Captured::Ignored,
        ),
{
}

/// A capture step appends at most one event and changes nothing that was
/// recorded before: the old log is a prefix of the new one.
pub proof fn lemma_capture_extends(
    before: Seq<EventView>,
    payload: Json,
    now: nat,
    after: Seq<EventView>,
    r: Result<Captured, CaptureError>,
)
    requires
        capture_step(before, payload, now, after, r),
    ensures
        before.len() <= after.len() <= before.len() + 1,
        after.subrange(0, before.len() as int) == before,
        after.len() == before.len() + 1 <==> classification(payload, now) is Keep
            && payload is Object,
{
    assert(after.subrange(0, before.len() as int) =~= before);
}

/// What the encoder returned, as the log reports it.
pub fn encoded_contents(encoded: Result<Vec<u8>, serde_json::Error>) -> (r: Result<
    Vec<u8>,
    EncodeError,
>)
    ensures
        match encoded {
            Ok(contents) => r == Ok::<Vec<u8>, EncodeError>(contents),
            Err(_) => r == Err::<Vec<u8>, EncodeError>(EncodeError),
        },
{
    match encoded {
        Ok(contents) => Ok(contents),
        Err(_) => Err(EncodeError),
    }
}

/// The ordered log of kept events.
#[derive(Debug)]
pub struct EventLog {
    events: Vec<Event>,
}

impl View for EventLog {
    type V = Seq<EventView>;

    /// The events of the log, oldest first.
    closed spec fn view(&self) -> Seq<EventView> {
        events_view(self.events@)
    }
}

impl EventLog {
    /// The document of a log reads back as the log itself.
    pub proof fn lemma_reads_back(&self)
        ensures
            timestamps_bounded(self@),
            tree_log(log_tree(self@)) == Some(self@),
    {
        assert forall|i: int| 0 <= i < self@.len() implies (#[trigger] self@[i]).timestamp
            < timestamp_limit() by {
            self.events@[i].timestamp.lemma_bounded();
        }
        lemma_log_round_trip(self@);
    }

    /// The empty log.
    pub fn new() -> (log: EventLog)
        ensures
            log@ == Seq::<EventView>::empty(),
    {
        let log = EventLog { events: Vec::new() };
        assert(log@ =~= Seq::<EventView>::empty());
        log
    }

    /// The log that holds the given events, in the given order.
    pub fn from_events(events: Vec<Event>) -> (log: EventLog)
        ensures
            log@ == events_view(events@),
    {
        EventLog { events }
    }

    /// The text with which a missing log file is started: `[]`.
    pub fn initial_contents() -> (contents: Vec<u8>)
        ensures
            contents@ == empty_log_text(),
    {
        let mut contents: Vec<u8> = Vec::new();
        contents.push(0x5bu8);
        contents.push(0x5du8);
        assert(contents@ =~= empty_log_text());
        contents
    }

    /// The log that a decoded log file stands for: its events where the
    /// document lists events, the empty log otherwise.
    pub fn from_document(parsed: Result<serde_json::Value, serde_json::Error>) -> (log: EventLog)
        ensures
            match parsed {
                Ok(document) => log@ == stored_log(Some(value_tree(document))),
                Err(_) => log@ == Seq::<EventView>::empty(),
            },
    {
        match parsed {
            Ok(document) => match log_from_value(&document) {
                Some(events) => EventLog::from_events(events),
                None => EventLog::new(),
            },
            Err(_) => EventLog::new(),
        }
    }

    /// The log that the text of a log file stands for. Text that does not
    /// decode gives the empty log.
    pub fn load(contents: &[u8]) -> (log: EventLog)
        ensures
            log@ == stored_log(json_parse(contents@)),
    {
        EventLog::from_document(parse(contents))
    }

    /// The log at startup, and the text to write to the log file if any.
    /// With the text of an existing file, the log is what the text stands
    /// for and nothing is to be written. With no file, the log is empty and
    /// the file is to be created with `[]`.
    pub fn start(existing: Option<&[u8]>) -> (r: (EventLog, Option<Vec<u8>>))
        ensures
            match existing {
                Some(contents) => r.0@ == stored_log(json_parse(contents@)) && r.1 is None,
                None => r.0@ == Seq::<EventView>::empty() && r.1 is Some && r.1.unwrap()@
                    == empty_log_text(),
            },
    {
        match existing {
            Some(contents) => (EventLog::load(contents), None),
            None => (EventLog::new(), Some(EventLog::initial_contents())),
        }
    }

    /// The number of events in the log.
    pub fn len(&self) -> (n: usize)
        ensures
            n == self@.len(),
    {
        self.events.len()
    }

    /// A copy of the events of the log, oldest first.
    pub fn snapshot(&self) -> (events: Vec<Event>)
        ensures
            events_view(events@) == self@,
    {
        copy_events(&self.events)
    }

    /// The JSON text of the log as it stands: what the encoder makes of the
    /// document of the log, and an error exactly where the encoder gives none.
    pub fn encoded(&self) -> (r: Result<Vec<u8>, EncodeError>)
        ensures
            match r {
                Ok(contents) => json_pretty(log_tree(self@)) == Some(contents@),
                Err(_) => json_pretty(log_tree(self@)) is None,
            },
    {
        encoded_contents(pretty(&log_value(&self.events)))
    }

    /// Appends `event` and returns the JSON text of the whole log, which is
    /// to replace the contents of the log file. The event is appended even
    /// where the encoder then fails. The document that is handed to the
    /// encoder reads back as the log itself.
    pub fn record(&mut self, event: Event) -> (r: Result<Vec<u8>, EncodeError>)
        ensures
            final(self)@ == old(self)@.push(event@),
            tree_log(log_tree(final(self)@)) == Some(final(self)@),
            match r {
                Ok(contents) => json_pretty(log_tree(final(self)@)) == Some(contents@),
                Err(_) => json_pretty(log_tree(final(self)@)) is None,
            },
    {
        self.events.push(event);
        proof {
            assert(events_view(self.events@) =~= events_view(old(self).events@).push(event@));
            self.lemma_reads_back();
        }
        self.encoded()
    }

    /// One capture step on a decoded payload: classifies it at the instant
    /// `now` and records it where it is kept.
    pub fn capture_payload(&mut self, payload: &serde_json::Value, now: Timestamp) -> (r: Result<
        Captured,
        CaptureError,
    >)
        ensures
            capture_step(old(self)@, value_tree(*payload), now@, final(self)@, r),
    {
        if !payload.is_object() {
            return Err(CaptureError::Undecodable);
        }
        match classify(payload, now) {
            Classification::Ignore => Ok(Captured::Ignored),
            Classification::Malformed(defect) => Err(CaptureError::Malformed(defect)),
            Classification::Keep(event) => match self.record(event) {
                Ok(contents) => Ok(Captured::Recorded(contents)),
                Err(_) => Err(CaptureError::Encode),
            },
        }
    }

    /// One capture step on the output of the subscription command: decodes
    /// it, classifies the payload at the instant `now` and records it where
    /// it is kept. Output that is no JSON leaves the log as it is.
    pub fn capture(&mut self, output: &[u8], now: Timestamp) -> (r: Result<Captured, CaptureError>)
        ensures
            match json_parse(output@) {
                Some(payload) => capture_step(old(self)@, payload, now@, final(self)@, r),
                None => final(self)@ == old(self)@ && r == Err::<Captured, CaptureError>(
                    CaptureError::Undecodable,
                ),
            },
    {
        match parse(output) {
            Ok(payload) => self.capture_payload(&payload, now),
            Err(_) => Err(CaptureError::Undecodable),
        }
    }
}

} // verus!
