use crate::app::config_data::{BATTERY_INFO_REQUEST, CONNECT};
use std::sync::mpsc::{SendError, Sender};
use vstd::prelude::*;

verus! {

/// The requests that a message on `topic` asks for, if the topic is one
/// that is served.
pub open spec fn topic_requests(topic: Seq<char>) -> Option<Seq<[u16; 4]>> {
    if topic == "gateway/batteryInfo.req"@ {
        Some(BATTERY_INFO_REQUEST@)
    } else if topic == "connect"@ {
        Some(CONNECT@)
    } else {
        None
    }
}

/// The requests that a message on `topic` asks for: the battery information
/// requests on `gateway/batteryInfo.req`, the connect requests on `connect`,
/// none on any other topic.
pub fn requests_for_topic(topic: &str) -> (r: Option<&'static [[u16; 4]]>)
    ensures
        match r {
            Some(req) => topic_requests(topic@) == Some(req@),
            None => topic_requests(topic@) is None,
        },
{
    let owned = topic.to_owned();
    if owned == "gateway/batteryInfo.req".to_owned() {
        Some(BATTERY_INFO_REQUEST.as_slice())
    } else if owned == "connect".to_owned() {
        Some(CONNECT.as_slice())
    } else {
        None
    }
}

/// The receiving end of the request channel was gone when a request was sent.
#[derive(Clone, Copy, Debug, PartialEq, Eq, Structural)]
pub struct ReceiverDropped;

/// The transmitting end of the request channel, with a record of the
/// requests it has handed to the channel so far and of those the channel
/// refused.
pub struct RequestSink<'a> {
    tx: &'a Sender<[u16; 4]>,
    sent: Ghost<Seq<[u16; 4]>>,
    refused: Ghost<Seq<[u16; 4]>>,
}

impl<'a> RequestSink<'a> {
    /// The requests the channel has accepted through this sink, in order.
    pub closed spec fn sent(&self) -> Seq<[u16; 4]> {
        self.sent@
    }

    /// The requests the channel has refused through this sink, in order.
    pub closed spec fn refused(&self) -> Seq<[u16; 4]> {
        self.refused@
    }

    /// A sink on `tx` that has sent nothing yet.
    pub fn new(tx: &'a Sender<[u16; 4]>) -> (sink: Self)
        ensures
            sink.sent() == Seq::<[u16; 4]>::empty(),
            sink.refused() == Seq::<[u16; 4]>::empty(),
    {
        RequestSink { tx, sent: Ghost(Seq::empty()), refused: Ghost(Seq::empty()) }
    }

    /// `Sender::send` on the sink's transmitter. The records `sent` and
    /// `refused` are this item's own model of the channel: `sent` is claimed
    /// to grow by `value` exactly when `send` returns `Ok` (the channel took
    /// the value), and `refused` exactly when `send` returns `Err` (the
    /// receiver is gone and the value comes back in the error, never to be
    /// received). Whether the receiver is alive depends on other threads;
    /// which of the two comes back is not claimed.
    #[verifier::external_body]
    fn send_one(&mut self, value: [u16; 4]) -> (r: Result<(), SendError<[u16; 4]>>)
        ensures
            r is Ok ==> final(self).sent() == old(self).sent().push(value) && final(self).refused()
                == old(self).refused(),
            r is Err ==> final(self).sent() == old(self).sent() && final(self).refused() == old(
                self).refused().push(value),
    {
        self.tx.send(value)
    }
}

/// Sends each request in order, stopping at the first that the channel
/// refuses. With no requests nothing is sent and it succeeds; otherwise
/// whether it succeeds rests on the receiving end.
fn send_request(sink: &mut RequestSink, request: &[[u16; 4]]) -> (r: Result<(), ReceiverDropped>)
    ensures
        request@.len() == 0 ==> r == Ok::<(), ReceiverDropped>(()),
        r is Ok ==> final(sink).sent() == old(sink).sent() + request@ && final(sink).refused()
            == old(sink).refused(),
        r is Err ==> exists|k: int|
            #![trigger request@.take(k)]
            0 <= k < request@.len() && final(sink).sent() == old(sink).sent() + request@.take(k)
                && final(sink).refused() == old(sink).refused().push(request@[k]),
{
    let ghost start = sink.sent();
    let ghost start_refused = sink.refused();
    let mut i: usize = 0;
    while i < request.len()
        invariant
            i <= request.len(),
            start == old(sink).sent(),
            start_refused == old(sink).refused(),
            sink.sent() == start + request@.take(i as int),
            sink.refused() == start_refused,
        decreases request.len() - i,
    {
        let ghost k = i as int;
        if let Err(_) = sink.send_one(request[i]) {
            assert(0 <= k < request@.len() && sink.sent() == start + request@.take(k)
                && sink.refused() == start_refused.push(request@[k]));
            return Err(ReceiverDropped);
        }
        assert(request@.take(i + 1) =~= request@.take(i as int).push(request@[i as int]));
        assert(start + request@.take(i + 1) =~= (start + request@.take(i as int)).push(
            request@[i as int],
        ));
        i += 1;
    }
    assert(request@.take(request.len() as int) =~= request@);
    Ok(())
}

/// What became of an incoming MQTT message.
#[derive(Clone, Copy, Debug, PartialEq, Eq, Structural)]
pub enum HandlerOutcome {
    /// The requests for its topic were all sent.
    Requested,
    /// Its topic is not one that is served; nothing was sent.
    UnexpectedTopic,
    /// There was no message; nothing was sent.
    EmptyPayload,
    /// The channel refused a request for its topic: the receiver is gone.
    ReceiverDropped,
}

/// Handles an incoming MQTT message, given by its topic: sends the requests
/// for the topic, in order, through `sink`, stopping at the first that the
/// channel refuses.
pub fn handler(topic: Option<&str>, sink: &mut RequestSink) -> (r: HandlerOutcome)
    ensures
        r == HandlerOutcome::EmptyPayload <==> topic is None,
        r == HandlerOutcome::UnexpectedTopic <==> (topic matches Some(t) && topic_requests(
            t@,
        ) is None),
        (r == HandlerOutcome::Requested || r == HandlerOutcome::ReceiverDropped) <==> (
        topic matches Some(t) && topic_requests(t@) is Some),
        r == HandlerOutcome::EmptyPayload || r == HandlerOutcome::UnexpectedTopic
            ==> final(sink).sent() == old(sink).sent() && final(sink).refused() == old(
            sink).refused(),
        r == HandlerOutcome::Requested ==> (topic matches Some(t) && final(sink).sent() == old(
            sink).sent() + topic_requests(t@).unwrap() && final(sink).refused() == old(
            sink).refused()),
        r == HandlerOutcome::ReceiverDropped ==> (topic matches Some(t) && exists|k: int|
            #![trigger topic_requests(t@).unwrap().take(k)]
            0 <= k < topic_requests(t@).unwrap().len() && final(sink).sent() == old(sink).sent()
                + topic_requests(t@).unwrap().take(k) && final(sink).refused() == old(
                sink).refused().push(topic_requests(t@).unwrap()[k])),
{
    match topic {
        Some(t) => match requests_for_topic(t) {
            Some(request) => match send_request(sink, request) {
                Ok(()) => HandlerOutcome::Requested,
                Err(_) => {
                    proof {
                        let k = choose|k: int|
                            #![trigger request@.take(k)]
                            0 <= k < request@.len() && sink.sent() == old(sink).sent()
                                + request@.take(k) && sink.refused() == old(sink).refused().push(
                                request@[k]);
                        assert(topic_requests(t@).unwrap().take(k) == request@.take(k));
                    }
                    HandlerOutcome::ReceiverDropped
                },
            },
            None => HandlerOutcome::UnexpectedTopic,
        },
        None => HandlerOutcome::EmptyPayload,
    }
}

} // verus!
