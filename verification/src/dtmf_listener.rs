//! DTMF digits out of the RTP events of a leg (RFC 4733).
use vstd::prelude::*;
use crate::text::{opt_text, same};

verus! {

/// The digit of an event code.
pub open spec fn event_digit(event: u8) -> Option<char> {
    if event <= 9 {
        Some((48 + event) as char)
    } else if event == 10 {
        Some('*')
    } else if event == 11 {
        Some('#')
    } else if event == 12 {
        Some('A')
    } else if event == 13 {
        Some('B')
    } else if event == 14 {
        Some('C')
    } else if event == 15 {
        Some('D')
    } else {
        None
    }
}

/// The digit that an event payload reports: one that is complete, marks the end
/// of the event, and has the code of a digit.
pub open spec fn reported_digit(data: Seq<u8>) -> Option<char> {
    if data.len() < 4 || data[1] < 128 {
        None
    } else {
        event_digit(data[0])
    }
}

/// The digit that an event payload reports, see [`reported_digit`].
pub fn parse_dtmf_rfc4733(data: &[u8]) -> (r: Option<String>)
    ensures
        opt_text(r) == (match reported_digit(data@) {
            Some(c) => Some(seq![c]),
            None => None,
        }),
{
    if data.len() < 4 {
        return None;
    }
    let event = data[0];
    let flags = data[1];
    assert((flags & 0x80 != 0) == (flags >= 128)) by (bit_vector);
    let end = (flags & 0x80) != 0;
    if !end {
        return None;
    }
    let digit: char = match event {
        0..=9 => (48 + event) as char,
        10 => '*',
        11 => '#',
        12 => 'A',
        13 => 'B',
        14 => 'C',
        15 => 'D',
        _ => return None,
    };
    let mut out = String::new();
    out.push(digit);
    assert(out@ =~= seq![digit]);
    Some(out)
}

/// Whether a payload type is one of DTMF events.
pub open spec fn is_dtmf_type(types: Seq<u8>, payload_type: Option<u8>) -> bool {
    match payload_type {
        Some(pt) => types.contains(pt),
        None => false,
    }
}

/// The digit and timestamp of the last event that was reported.
#[derive(Debug)]
pub struct DtmfReader {
    pub payload_types: Vec<u8>,
    pub last_event: Option<(String, u32)>,
}

impl DtmfReader {
    /// A reader of a track that carries events in these payload types.
    pub fn new(payload_types: Vec<u8>) -> (r: DtmfReader)
        ensures
            r.payload_types == payload_types,
            r.last_event is None,
    {
        DtmfReader { payload_types, last_event: None }
    }

    /// The last event that was reported.
    pub open spec fn last(self) -> Option<(Seq<char>, u32)> {
        match self.last_event {
            Some(e) => Some((e.0@, e.1)),
            None => None,
        }
    }

    /// The digit that a frame gives: that of its event, unless the end of the
    /// same event was reported before.
    pub open spec fn digit_of(self, payload_type: Option<u8>, data: Seq<u8>, timestamp: u32) -> Option<Seq<char>> {
        match reported_digit(data) {
            Some(c) => if is_dtmf_type(self.payload_types@, payload_type) && self.last() != Some(
                (seq![c], timestamp),
            ) {
                Some(seq![c])
            } else {
                None
            },
            None => None,
        }
    }

    /// The digit that a frame gives, see [`DtmfReader::digit_of`].
    pub fn on_frame(&mut self, payload_type: Option<u8>, data: &[u8], timestamp: u32) -> (r: Option<
        String,
    >)
        ensures
            opt_text(r) == old(self).digit_of(payload_type, data@, timestamp),
            final(self).payload_types == old(self).payload_types,
            final(self).last() == (match opt_text(r) {
                Some(d) => Some((d, timestamp)),
                None => old(self).last(),
            }),
    {
        let pt = match payload_type {
            Some(pt) => pt,
            None => return None,
        };
        let mut i: usize = 0;
        while i < self.payload_types.len() && self.payload_types[i] != pt
            invariant
                i <= self.payload_types.len(),
                forall|j: int| 0 <= j < i ==> self.payload_types@[j] != pt,
            decreases self.payload_types.len() - i,
        {
            i += 1;
        }
        if i == self.payload_types.len() {
            return None;
        }
        assert(self.payload_types@.contains(pt)) by {
            assert(self.payload_types@[i as int] == pt);
        }
        match parse_dtmf_rfc4733(data) {
            Some(digit) => {
                if let Some(last) = &self.last_event {
                    if last.1 == timestamp && same(last.0.as_str(), digit.as_str()) {
                        return None;
                    }
                }
                self.last_event = Some((digit.clone(), timestamp));
                Some(digit)
            },
            None => None,
        }
    }
}

/// The end of an event is sent several times; the digit is reported once.
pub proof fn digit_is_reported_once(
    before: DtmfReader,
    after: DtmfReader,
    payload_type: Option<u8>,
    data: Seq<u8>,
    timestamp: u32,
)
    requires
        after.payload_types == before.payload_types,
        after.last() == (match before.digit_of(payload_type, data, timestamp) {
            Some(d) => Some((d, timestamp)),
            None => before.last(),
        }),
    ensures
        after.digit_of(payload_type, data, timestamp) is None,
{
}

/// Each event of a keypad has its own character: the digits, then star and pound, then
/// the letters A to D; other events have none.
pub proof fn events_are_keys(event: u8)
    ensures
        event_digit(event) is Some <==> event <= 15,
        event <= 9 ==> event_digit(event) is Some && event_digit(event)->0 as u32 == '0' as u32 + event,
        event_digit(event) == Some('*') <==> event == 10,
        event_digit(event) == Some('#') <==> event == 11,
        12 <= event <= 15 ==> event_digit(event) is Some && event_digit(event)->0 as u32 == 'A' as u32
            + event - 12,
{
}

/// A digit is reported when the end of its event is marked, and not while the key is
/// held; a payload that is cut short reports none.
pub proof fn digit_is_reported_at_its_end(data: Seq<u8>)
    ensures
        data.len() >= 4 && data[1] >= 128 ==> reported_digit(data) == event_digit(data[0]),
        data.len() >= 4 && data[1] < 128 ==> reported_digit(data) is None,
        data.len() < 4 ==> reported_digit(data) is None,
{
}

/// Frames of other payload types report nothing, and an event with another digit or at
/// another time is another one.
pub proof fn other_events_are_reported(
    reader: DtmfReader,
    payload_type: Option<u8>,
    data: Seq<u8>,
    timestamp: u32,
)
    ensures
        payload_type is None || !reader.payload_types@.contains(payload_type->0) ==> reader.digit_of(
            payload_type,
            data,
            timestamp,
        ) is None,
        payload_type is Some && reader.payload_types@.contains(payload_type->0) && reported_digit(
            data,
        ) is Some && (reader.last_event is None || (reader.last_event->0).1 != timestamp
            || (reader.last_event->0).0@ != seq![reported_digit(data)->0]) ==> reader.digit_of(
            payload_type,
            data,
            timestamp,
        ) == Some(seq![reported_digit(data)->0]),
        reader.digit_of(payload_type, data, timestamp) matches Some(t) ==> t.len() == 1 && Some(t[0])
            == reported_digit(data),
{
}

} // verus!
