use vstd::prelude::*;
use crate::config::GenerateError;
use crate::StreamPhase;

verus! {

/// One increment inside a response unit; `response` holds its new text,
/// never a repetition of earlier fragments.
pub struct Increment {
    pub response: String,
}

/// One message of the endpoint's native streaming protocol, holding zero
/// or more increments.
pub struct ResponseUnit {
    pub increments: Vec<Increment>,
}

/// What the endpoint's stream delivered next: a decoded response unit, or
/// one that could not be decoded.
pub enum UnitEvent {
    Unit(ResponseUnit),
    Malformed,
}

/// The fragments a single response unit contributes: the text of each of
/// its increments, in delivery order.
pub open spec fn unit_frags(unit: ResponseUnit) -> Seq<Seq<char>> {
    unit.increments@.map(|i: int, inc: Increment| inc.response@)
}

/// The fragments one delivered event contributes: a malformed unit is
/// skipped and contributes none.
pub open spec fn event_frags(event: UnitEvent) -> Seq<Seq<char>> {
    match event {
        UnitEvent::Unit(unit) => unit_frags(unit),
        UnitEvent::Malformed => Seq::empty(),
    }
}

/// Every fragment of a whole delivered stream, in delivery order.
pub open spec fn stream_frags(events: Seq<UnitEvent>) -> Seq<Seq<char>>
    decreases events.len(),
{
    if events.len() == 0 {
        Seq::empty()
    } else {
        event_frags(events[0]) + stream_frags(events.drop_first())
    }
}

/// Appending one more event to a delivered stream appends exactly that
/// event's fragments.
pub proof fn lemma_stream_frags_push(events: Seq<UnitEvent>, event: UnitEvent)
    ensures
        stream_frags(events.push(event)) == stream_frags(events) + event_frags(event),
    decreases events.len(),
{
    if events.len() == 0 {
        let p = events.push(event);
        assert(p[0] == event);
        assert(p.drop_first() =~= Seq::<UnitEvent>::empty());
        assert(stream_frags(Seq::<UnitEvent>::empty()) == Seq::<Seq<char>>::empty());
        assert(stream_frags(p) == event_frags(event) + Seq::<Seq<char>>::empty());
        assert(stream_frags(events.push(event)) =~= stream_frags(events) + event_frags(event));
    } else {
        lemma_stream_frags_push(events.drop_first(), event);
        assert(events.push(event)[0] == events[0]);
        assert(events.push(event).drop_first() =~= events.drop_first().push(event));
        assert(stream_frags(events.push(event)) =~= stream_frags(events) + event_frags(event));
    }
}

/// A malformed response unit between any two runs of events is skipped
/// without disturbing the stream: the fragments are exactly those of the
/// surrounding events, still in order.
pub proof fn lemma_malformed_unit_skipped(before: Seq<UnitEvent>, after: Seq<UnitEvent>)
    ensures
        stream_frags(before + seq![UnitEvent::Malformed] + after) == stream_frags(before + after),
    decreases before.len(),
{
    if before.len() == 0 {
        assert(before + seq![UnitEvent::Malformed] + after =~= seq![UnitEvent::Malformed] + after);
        assert((seq![UnitEvent::Malformed] + after).drop_first() =~= after);
        assert(before + after =~= after);
        assert(stream_frags(seq![UnitEvent::Malformed] + after) =~= stream_frags(after));
    } else {
        lemma_malformed_unit_skipped(before.drop_first(), after);
        let whole = before + seq![UnitEvent::Malformed] + after;
        assert(whole[0] == before[0]);
        assert(whole.drop_first() =~= before.drop_first() + seq![UnitEvent::Malformed] + after);
        assert((before + after)[0] == before[0]);
        assert((before + after).drop_first() =~= before.drop_first() + after);
    }
}

/// The text of each of a unit's increments, in delivery order.
pub fn unit_fragments(unit: &ResponseUnit) -> (r: Vec<String>)
    ensures
        r.deep_view() == unit_frags(*unit),
{
    let mut out: Vec<String> = Vec::new();
    let mut i: usize = 0;
    while i < unit.increments.len()
        invariant
            i <= unit.increments@.len(),
            out@.len() == i,
            forall|j: int| 0 <= j < i ==> out@[j]@ == unit.increments@[j].response@,
        decreases unit.increments@.len() - i,
    {
        out.push(unit.increments[i].response.clone());
        i += 1;
    }
    proof {
        assert forall|j: int| 0 <= j < out@.len() implies out.deep_view()[j]
            == unit_frags(*unit)[j] by {
            assert(out.deep_view()[j] == out@[j]@);
        }
        assert(out.deep_view() =~= unit_frags(*unit));
    }
    out
}

/// The fragments one event contributes: those of its unit, or none for a
/// malformed one.
pub fn event_fragments(event: &UnitEvent) -> (r: Vec<String>)
    ensures
        r.deep_view() == event_frags(*event),
{
    match event {
        UnitEvent::Unit(unit) => unit_fragments(unit),
        UnitEvent::Malformed => {
            let r: Vec<String> = Vec::new();
            proof {
                assert(r.deep_view() =~= event_frags(*event));
            }
            r
        }
    }
}

/// Every fragment of a whole delivered stream, in delivery order: valid
/// units contribute each increment's text, malformed units nothing.
pub fn collect_fragments(events: &Vec<UnitEvent>) -> (r: Vec<String>)
    ensures
        r.deep_view() == stream_frags(events@),
{
    let mut out: Vec<String> = Vec::new();
    let mut i: usize = 0;
    while i < events.len()
        invariant
            i <= events@.len(),
            out.deep_view() == stream_frags(events@.subrange(0, i as int)),
        decreases events@.len() - i,
    {
        let frags = event_fragments(&events[i]);
        let ghost out_before = out.deep_view();
        let ghost n0 = out@.len();
        let mut k: usize = 0;
        while k < frags.len()
            invariant
                k <= frags@.len(),
                out@.len() == n0 + k,
                n0 == out_before.len(),
                forall|j: int| 0 <= j < n0 ==> out@[j]@ == out_before[j],
                forall|j: int| 0 <= j < k ==> out@[n0 + j]@ == frags@[j]@,
                frags.deep_view() == event_frags(events@[i as int]),
                i < events@.len(),
            decreases frags@.len() - k,
        {
            let f = frags[k].clone();
            out.push(f);
            k += 1;
        }
        proof {
            assert forall|j: int| 0 <= j < out@.len() implies out.deep_view()[j]
                == (out_before + event_frags(events@[i as int]))[j] by {
                assert(out.deep_view()[j] == out@[j]@);
                if j >= n0 {
                    assert(out@[j]@ == frags@[j - n0]@);
                    assert(frags.deep_view()[j - n0] == frags@[j - n0]@);
                }
            }
            assert(out.deep_view() =~= out_before + event_frags(events@[i as int]));
            lemma_stream_frags_push(events@.subrange(0, i as int), events@[i as int]);
            assert(events@.subrange(0, i as int).push(events@[i as int])
                =~= events@.subrange(0, i as int + 1));
        }
        i += 1;
    }
    proof {
        assert(events@.subrange(0, events@.len() as int) =~= events@);
    }
    out
}

/// One `generate` call's remote-model stream: the endpoint's response
/// units are re-emitted increment by increment, in delivery order.
pub struct RemoteStream {
    /// Where in its life the stream stands.
    pub phase: StreamPhase,
}

impl RemoteStream {
    /// A fresh stream: no request made yet.
    pub fn new() -> (r: RemoteStream)
        ensures
            r.phase == StreamPhase::Idle,
    {
        RemoteStream { phase: StreamPhase::Idle }
    }

    /// The request that opens the endpoint's stream begins; no fragment
    /// can have been produced yet.
    pub fn begin_connect(&mut self)
        requires
            old(self).phase == StreamPhase::Idle,
        ensures
            final(self).phase == StreamPhase::Starting,
    {
        self.phase = StreamPhase::Starting;
    }

    /// The endpoint accepted the request and its stream is open.
    pub fn on_connect_ok(&mut self)
        requires
            old(self).phase == StreamPhase::Starting,
        ensures
            final(self).phase == StreamPhase::Streaming,
    {
        self.phase = StreamPhase::Streaming;
    }

    /// The stream could not be opened: fatal, the stream ends with zero
    /// fragments produced and no retry.
    pub fn on_connect_failure(&mut self) -> (e: GenerateError)
        requires
            old(self).phase == StreamPhase::Starting,
        ensures
            final(self).phase == StreamPhase::Failed,
            e == GenerateError::ConnectionFailure,
    {
        self.phase = StreamPhase::Failed;
        GenerateError::ConnectionFailure
    }

    /// The endpoint delivered one more event: the fragments to re-emit are
    /// exactly that event's, and the stream goes on either way.
    pub fn on_unit(&mut self, event: &UnitEvent) -> (r: Vec<String>)
        requires
            old(self).phase == StreamPhase::Streaming,
        ensures
            final(self).phase == StreamPhase::Streaming,
            r.deep_view() == event_frags(*event),
    {
        event_fragments(event)
    }

    /// The endpoint's stream ended: no more response units, the stream
    /// ends normally.
    pub fn on_stream_end(&mut self)
        requires
            old(self).phase == StreamPhase::Streaming,
        ensures
            final(self).phase == StreamPhase::Completed,
    {
        self.phase = StreamPhase::Completed;
    }
}

} // verus!
