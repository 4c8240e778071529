//! The trace loader: from the bytes of a profiling-data file to its events.
//!
//! Decoding is the work of `analyzeme`. The loader hands it only buffers that
//! are well formed ([`decodable`]), reads the events out one by one, and
//! reports everything else as a [`TraceFormatError`]. What the decoder makes of
//! a well-formed buffer is not proved here: the three functions that call it
//! state what is believed of it.

use crate::event::{event_views, Event, EventView, Payload};
use crate::profdata::validate::{decodable, is_decodable};
use analyzeme::{EventPayload, LightweightEvent, ProfilingData, Timestamp};
use vstd::prelude::*;

verus! {

/// Why a buffer has no events.
#[derive(Clone, Copy, Debug, PartialEq, Eq)]
pub enum TraceFormatError {
    /// The buffer is not a well-formed file: its header or its pages are not
    /// recognized, it is cut short, or a string it refers to cannot be read.
    Malformed,
    /// The buffer is well formed, and the decoder refused it.
    Undecodable,
}

impl TraceFormatError {
    /// The text of the error.
    pub fn message(&self) -> (text: String)
        ensures
            text@ == "could not parse profiling data"@,
    {
        "could not parse profiling data".to_owned()
    }
}

/// `analyzeme::ProfilingData`: a decoded file. Verified code only carries it
/// from [`decode`] to [`event_count`] and [`event_at`].
#[verifier::external_type_specification]
#[verifier::external_body]
pub struct ExProfilingData(analyzeme::ProfilingData);

/// What `ProfilingData::from_paged_buffer` makes of a buffer, with no path for
/// diagnostics: the events of the file in recording order, or `None` where it
/// returns an error. A timestamp stands as the nanoseconds from the start time
/// in the file's metadata to it.
pub uninterp spec fn decoded_events(bytes: Seq<u8>) -> Option<Seq<EventView>>;

/// The events that a `ProfilingData` holds, in the order in which
/// `ProfilingData::iter_full` yields them, timestamps as in
/// [`decoded_events`].
pub uninterp spec fn profile_events(profile: ProfilingData) -> Seq<EventView>;

/// The buffer that a `ProfilingData` was decoded from.
pub uninterp spec fn profile_source(profile: ProfilingData) -> Seq<u8>;

/// Calls `ProfilingData::from_paged_buffer(bytes, None)`.
///
/// Believed of it: on a well-formed buffer it returns without a panic; what
/// it returns depends on the bytes alone; the value it returns on success
/// holds the events that [`decoded_events`] names, and was decoded from
/// `bytes`.
#[verifier::external_body]
fn decode(bytes: Vec<u8>) -> (result: Result<ProfilingData, TraceFormatError>)
    requires
        decodable(bytes@),
    ensures
        match result {
            Ok(profile) => decoded_events(bytes@) == Some(profile_events(profile))
                && profile_source(profile) == bytes@,
            Err(error) => decoded_events(bytes@) is None && error == TraceFormatError::Undecodable,
        },
{
    match ProfilingData::from_paged_buffer(bytes, None) {
        Ok(profile) => Ok(profile),
        Err(_) => Err(TraceFormatError::Undecodable),
    }
}

/// Calls `ProfilingData::num_events`.
///
/// Believed of it: for a value decoded from a well-formed buffer it returns,
/// without a panic, the number of events that the value holds.
#[verifier::external_body]
fn event_count(profile: &ProfilingData) -> (count: usize)
    requires
        decodable(profile_source(*profile)),
    ensures
        count == profile_events(*profile).len(),
{
    profile.num_events()
}

/// Calls `ProfilingData::to_full_event` for the event with the given index,
/// and `ProfilingData::metadata` for the start time.
///
/// Believed of it: for a value decoded from a well-formed buffer and an index
/// below the number of events, it returns that event without a panic; the
/// decoder reads nothing but the index from the lightweight event it is
/// handed; the label and the payload are moved over as they are, each
/// timestamp as the nanoseconds from the start time to it, which
/// `SystemTime::duration_since` and `Duration::as_nanos` give and which stay
/// below two to the power of 48.
#[verifier::external_body]
fn event_at(profile: &ProfilingData, index: usize) -> (event: Event)
    requires
        decodable(profile_source(*profile)),
        index < profile_events(*profile).len(),
    ensures
        event@ == profile_events(*profile)[index as int],
{
    let at = LightweightEvent { event_index: index, thread_id: 0, payload: EventPayload::Integer(0) };
    let full = profile.to_full_event(&at);
    let zero = profile.metadata().start_time;
    let nanos = |t: std::time::SystemTime| t.duration_since(zero).unwrap().as_nanos() as u64;
    let payload = match full.payload {
        EventPayload::Timestamp(Timestamp::Interval { start, end }) => Payload::Interval {
            start: nanos(start),
            end: nanos(end),
        },
        EventPayload::Timestamp(Timestamp::Instant(at)) => Payload::Instant(nanos(at)),
        EventPayload::Integer(value) => Payload::Integer(value),
    };
    Event { label: full.label.into_owned(), payload }
}

/// Decodes the bytes of a profiling-data file into its events, in recording
/// order.
///
/// The events are all there or none is: a buffer that is not well formed is
/// `Malformed`, one that the decoder refuses is `Undecodable`.
pub fn extract_profiling_data(bytes: Vec<u8>) -> (result: Result<Vec<Event>, TraceFormatError>)
    ensures
        match result {
            Ok(events) => decodable(bytes@) && decoded_events(bytes@) == Some(
                event_views(events@),
            ),
            Err(TraceFormatError::Malformed) => !decodable(bytes@),
            Err(TraceFormatError::Undecodable) => decodable(bytes@) && decoded_events(bytes@)
                is None,
        },
{
    if !is_decodable(bytes.as_slice()) {
        return Err(TraceFormatError::Malformed);
    }
    let ghost source = bytes@;
    let profile = match decode(bytes) {
        Ok(profile) => profile,
        Err(error) => {
            return Err(error);
        },
    };
    let count = event_count(&profile);
    let mut events: Vec<Event> = Vec::new();
    let mut i: usize = 0;
    while i < count
        invariant
            i <= count,
            count == profile_events(profile).len(),
            decodable(profile_source(profile)),
            event_views(events@) == profile_events(profile).take(i as int),
        decreases count - i,
    {
        let ghost before = event_views(events@);
        let event = event_at(&profile, i);
        events.push(event);
        proof {
            assert(event_views(events@) =~= before.push(event@));
            assert(profile_events(profile).take(i + 1) =~= before.push(event@));
        }
        i += 1;
    }
    proof {
        assert(profile_events(profile).take(i as int) =~= profile_events(profile));
    }
    Ok(events)
}

} // verus!
