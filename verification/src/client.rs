//! The worker's side of the pipe: requests that wait for the host's reply.

use serde_json::Value;
use std::collections::HashMap;
use vstd::prelude::*;
use vstd::string::*;

use crate::frame::FrameError;
use crate::json::error_result;
use crate::model::{FetchArgs, FetchFrameArgs, Frame};

verus! {

broadcast use vstd::std_specs::hash::group_hash_axioms;

/// The requests that wait, and why no further one can be made, if none can. `S` is where the
/// reply to a request goes.
pub struct Pending<S> {
    pub(crate) senders: HashMap<u64, S>,
    pub(crate) error: Option<String>,
}

/// What a [`Pending`] holds.
#[verifier::ext_equal]
pub struct Waiting<S> {
    pub senders: Map<u64, S>,
    pub error: Option<Seq<char>>,
}

/// The text of an error, if there is one.
pub open spec fn error_text(error: Option<String>) -> Option<Seq<char>> {
    match error {
        Some(text) => Some(text@),
        None => None,
    }
}

impl<S> View for Pending<S> {
    type V = Waiting<S>;

    open(crate) spec fn view(&self) -> Waiting<S> {
        Waiting { senders: self.senders@, error: error_text(self.error) }
    }
}

/// What the worker read from the pipe.
pub enum Incoming {
    Frame(Frame),
    /// The pipe was closed between frames: the parent is gone.
    Closed,
    Failed(FrameError),
}

/// What the reader does next.
pub enum Delivery<S> {
    /// Hands the result to the request that waits for it.
    Deliver(S, Value),
    /// Ends the worker: the script must not outlive the parent.
    Exit,
    /// Stops reading: every request gets this error.
    Fail(String),
}

/// The reply that a frame is, if it is one.
pub open spec fn reply_of(frame: Frame) -> Option<(u64, Value)> {
    match frame {
        Frame::CallResult { id, result } => Some((id, result)),
        Frame::FetchResult { id, result } => Some((id, result)),
        _ => None,
    }
}

/// Why what was read ends the reading, if it does.
pub open spec fn read_error<S>(waiting: Waiting<S>, incoming: Incoming) -> Option<Seq<char>> {
    match incoming {
        Incoming::Frame(frame) => match reply_of(frame) {
            Some(reply) => if waiting.senders.dom().contains(reply.0) {
                None
            } else {
                Some("code mode parent returned an unknown request id"@)
            },
            None => Some("code mode parent sent an unexpected response"@),
        },
        Incoming::Closed => None,
        Incoming::Failed(error) => Some(
            "code mode parent response was invalid: "@ + error.text(),
        ),
    }
}

/// What happens to the requests of a worker.
pub enum ClientStep<S> {
    /// A request is made; after a failure it is refused.
    Register(u64, S),
    /// The reply to a request came.
    Reply(u64),
    /// The pipe failed.
    FailAll(Seq<char>),
    /// A request had no reply.
    Lose(u64, Seq<char>),
}

impl<S> Waiting<S> {
    pub open spec fn step(self, step: ClientStep<S>) -> Waiting<S> {
        match step {
            ClientStep::Register(id, sender) => if self.error is Some {
                self
            } else {
                Waiting { senders: self.senders.insert(id, sender), ..self }
            },
            ClientStep::Reply(id) => Waiting { senders: self.senders.remove(id), ..self },
            ClientStep::FailAll(error) => Waiting { senders: Map::empty(), error: Some(error) },
            ClientStep::Lose(id, error) => Waiting {
                senders: self.senders.remove(id),
                error: Some(error),
            },
        }
    }

    pub open spec fn after(self, steps: Seq<ClientStep<S>>) -> Waiting<S>
        decreases steps.len(),
    {
        if steps.len() == 0 {
            self
        } else {
            self.after(steps.drop_last()).step(steps.last())
        }
    }
}

impl<S> Pending<S> {
    pub fn new() -> (pending: Self)
        ensures
            pending@ == (Waiting::<S> { senders: Map::empty(), error: None }),
    {
        Pending { senders: HashMap::new(), error: None }
    }

    /// Registers a request, unless the pipe failed: then its result is that error.
    pub fn register(&mut self, id: u64, sender: S) -> (refused: Option<Value>)
        ensures
            final(self)@ == old(self)@.step(ClientStep::Register(id, sender)),
            match old(self)@.error {
                Some(error) => {
                    &&& refused is Some
                    &&& crate::json::json_view(refused->0) == crate::json::error_json(error)
                    &&& *final(self) == *old(self)
                },
                None => refused is None,
            },
    {
        match &self.error {
            Some(error) => {
                return Some(error_result(error.as_str()));
            },
            None => {},
        }
        let _ = self.senders.insert(id, sender);
        None
    }

    /// What to do with what was read. A reply goes to the request that waits for it, once.
    pub fn receive(&mut self, incoming: Incoming) -> (delivery: Delivery<S>)
        ensures
            match read_error(old(self)@, incoming) {
                Some(error) => {
                    &&& delivery matches Delivery::Fail(text)
                    &&& text@ == error
                    &&& final(self)@ == old(self)@
                },
                None => match incoming {
                    Incoming::Frame(frame) => {
                        let reply = reply_of(frame)->0;
                        &&& delivery == Delivery::Deliver(old(self)@.senders[reply.0], reply.1)
                        &&& final(self)@ == old(self)@.step(ClientStep::Reply(reply.0))
                    },
                    _ => delivery is Exit && final(self)@ == old(self)@,
                },
            },
    {
        match incoming {
            Incoming::Frame(frame) => match frame {
                Frame::CallResult { id, result } => self.reply(id, result),
                Frame::FetchResult { id, result } => self.reply(id, result),
                _ => Delivery::Fail("code mode parent sent an unexpected response".to_owned()),
            },
            Incoming::Closed => Delivery::Exit,
            Incoming::Failed(error) => {
                let mut text = "code mode parent response was invalid: ".to_owned();
                text.append(error.message().as_str());
                Delivery::Fail(text)
            },
        }
    }

    fn reply(&mut self, id: u64, result: Value) -> (delivery: Delivery<S>)
        ensures
            final(self)@ == old(self)@.step(ClientStep::Reply(id)),
            old(self)@.senders.dom().contains(id) ==> delivery == Delivery::Deliver(
                old(self)@.senders[id],
                result,
            ),
            !old(self)@.senders.dom().contains(id) ==> (delivery matches Delivery::Fail(text)
                && text@ == "code mode parent returned an unknown request id"@) && final(self)@
                == old(self)@,
    {
        match self.senders.remove(&id) {
            Some(sender) => Delivery::Deliver(sender, result),
            None => {
                proof {
                    assert(old(self)@.senders.remove(id) =~= old(self)@.senders);
                }
                Delivery::Fail("code mode parent returned an unknown request id".to_owned())
            },
        }
    }

    /// The pipe failed: every request that waits is taken out, to be told the error, and every
    /// later one is refused with it.
    pub fn fail_all(&mut self, error: String) -> (waiting: HashMap<u64, S>)
        ensures
            final(self)@ == old(self)@.step(ClientStep::FailAll(error@)),
            waiting@ == old(self)@.senders,
    {
        self.error = Some(error);
        let mut waiting: HashMap<u64, S> = HashMap::new();
        std::mem::swap(&mut waiting, &mut self.senders);
        waiting
    }

    /// Why no further request can be made, if none can.
    pub fn error(&self) -> (error: Option<String>)
        ensures
            error_text(error) == self@.error,
    {
        match &self.error {
            Some(error) => Some(error.clone()),
            None => None,
        }
    }

    /// The result of a request, from the reply or from why there is none. Without a reply the
    /// request no longer waits, and every later one is refused with the same error.
    pub fn settle(&mut self, id: u64, reply: Result<Value, String>) -> (result: Value)
        ensures
            match reply {
                Ok(value) => result == value && *final(self) == *old(self),
                Err(error) => {
                    &&& crate::json::json_view(result) == crate::json::error_json(error@)
                    &&& final(self)@ == old(self)@.step(ClientStep::Lose(id, error@))
                },
            },
    {
        match reply {
            Ok(value) => value,
            Err(error) => {
                let _ = self.senders.remove(&id);
                let result = error_result(error.as_str());
                self.error = Some(error);
                result
            },
        }
    }
}

/// The frame that asks for a tool call.
pub fn call_request(id: u64, index: usize, name: &str, args: Value) -> (frame: Frame)
    ensures
        frame matches Frame::Call { id: from, index: at, name: tool, args: passed } && from == id
            && at == index && tool@ == name@ && passed == args,
{
    Frame::Call { id, index, name: name.to_owned(), args }
}

/// The frame that asks for a page of a cached result.
pub fn fetch_request(id: u64, args: FetchArgs) -> (frame: Frame)
    ensures
        crate::supervisor::is_request(frame, crate::supervisor::HostRequest::Fetch { id, args }),
{
    Frame::Fetch {
        id,
        args: FetchFrameArgs {
            cursor: args.cursor,
            offset: args.offset,
            len: args.len,
            projection: args.projection,
        },
    }
}

/// What a request is told that had no reply in time.
pub fn no_answer() -> (error: String)
    ensures
        error@ == "code mode parent did not answer before the deadline"@,
{
    "code mode parent did not answer before the deadline".to_owned()
}

/// What a request is told that could not be sent.
pub fn not_sent(error: &FrameError) -> (text: String)
    ensures
        text@ == "code mode host request failed: "@ + error.text(),
{
    "code mode host request failed: ".to_owned().concat(error.message().as_str())
}

/// Once the pipe has failed it stays failed: no request is taken on any more, so none waits that
/// did not wait already.
pub proof fn law_failure_is_final<S>(waiting: Waiting<S>, steps: Seq<ClientStep<S>>)
    requires
        waiting.error is Some,
    ensures
        waiting.after(steps).error is Some,
        waiting.after(steps).senders.dom().subset_of(waiting.senders.dom()),
    decreases steps.len(),
{
    if steps.len() > 0 {
        law_failure_is_final(waiting, steps.drop_last());
    }
}

/// Whether the step settles the request, or registers another under its id.
pub open spec fn ends_wait<S>(step: ClientStep<S>, id: u64) -> bool {
    match step {
        ClientStep::Register(other, _) => other == id,
        ClientStep::Reply(other) => other == id,
        ClientStep::Lose(other, _) => other == id,
        ClientStep::FailAll(_) => true,
    }
}

/// A request that was registered waits, with the very place that its reply goes to, until it is
/// answered or lost or the pipe fails, whatever becomes of other requests.
pub proof fn law_request_waits_until_settled<S>(
    waiting: Waiting<S>,
    id: u64,
    sender: S,
    steps: Seq<ClientStep<S>>,
)
    requires
        waiting.error is None,
        forall|i: int| 0 <= i < steps.len() ==> !ends_wait(#[trigger] steps[i], id),
    ensures
        ({
            let after = waiting.step(ClientStep::Register(id, sender)).after(steps);
            after.senders.dom().contains(id) && after.senders[id] == sender
        }),
    decreases steps.len(),
{
    if steps.len() > 0 {
        let front = steps.drop_last();
        assert(forall|i: int| 0 <= i < front.len() ==> #[trigger] front[i] == steps[i]);
        law_request_waits_until_settled(waiting, id, sender, front);
        assert(!ends_wait(steps[steps.len() - 1], id));
    }
}

/// A reply, or the loss of one, settles its request and no other; a failed pipe settles all.
pub proof fn law_a_reply_settles_its_request_alone<S>(
    waiting: Waiting<S>,
    id: u64,
    other: u64,
    error: Seq<char>,
)
    requires
        other != id,
    ensures
        !waiting.step(ClientStep::Reply(id)).senders.dom().contains(id),
        !waiting.step(ClientStep::Lose(id, error)).senders.dom().contains(id),
        waiting.senders.dom().contains(other) ==> {
            &&& waiting.step(ClientStep::Reply(id)).senders.dom().contains(other)
            &&& waiting.step(ClientStep::Reply(id)).senders[other] == waiting.senders[other]
            &&& waiting.step(ClientStep::Lose(id, error)).senders.dom().contains(other)
            &&& waiting.step(ClientStep::Lose(id, error)).senders[other] == waiting.senders[other]
        },
        !waiting.senders.dom().contains(other) ==> {
            &&& !waiting.step(ClientStep::Reply(id)).senders.dom().contains(other)
            &&& !waiting.step(ClientStep::Lose(id, error)).senders.dom().contains(other)
        },
        !waiting.step(ClientStep::FailAll(error)).senders.dom().contains(other),
{
}

/// The error that a step tells of, if any.
pub open spec fn told_by<S>(step: ClientStep<S>) -> Option<Seq<char>> {
    match step {
        ClientStep::FailAll(error) => Some(error),
        ClientStep::Lose(_, error) => Some(error),
        _ => None,
    }
}

/// Later requests are refused with the last error: that of the last step that told of one.
pub proof fn law_last_error_is_told<S>(
    waiting: Waiting<S>,
    steps: Seq<ClientStep<S>>,
    last: int,
)
    requires
        0 <= last < steps.len(),
        told_by(steps[last]) is Some,
        forall|i: int| last < i < steps.len() ==> told_by(#[trigger] steps[i]) is None,
    ensures
        waiting.after(steps).error == told_by(steps[last]),
    decreases steps.len(),
{
    let front = steps.drop_last();
    if last < front.len() {
        assert(forall|i: int| 0 <= i < front.len() ==> #[trigger] front[i] == steps[i]);
        law_last_error_is_told(waiting, front, last);
        assert(told_by(steps[steps.len() - 1]) is None);
    }
}

/// Requests and replies tell of no error: without a failure or a loss, requests are taken on.
pub proof fn law_no_error_is_made_up<S>(waiting: Waiting<S>, steps: Seq<ClientStep<S>>)
    requires
        forall|i: int| 0 <= i < steps.len() ==> told_by(#[trigger] steps[i]) is None,
    ensures
        waiting.after(steps).error == waiting.error,
    decreases steps.len(),
{
    if steps.len() > 0 {
        let front = steps.drop_last();
        assert(forall|i: int| 0 <= i < front.len() ==> #[trigger] front[i] == steps[i]);
        law_no_error_is_made_up(waiting, front);
        assert(told_by(steps[steps.len() - 1]) is None);
    }
}

/// A reply is a result frame: it goes to the id that the frame names, with the result that the
/// frame holds. What is read ends the reading where it is no reply, answers a request that does
/// not wait, or is no frame; each is told apart, and a broken frame with its own error.
pub proof fn law_replies_are_read_as_they_are<S>(
    waiting: Waiting<S>,
    frame: Frame,
    error: FrameError,
)
    ensures
        frame matches Frame::CallResult { id, result } ==> reply_of(frame) == Some((id, result)),
        frame matches Frame::FetchResult { id, result } ==> reply_of(frame) == Some((id, result)),
        !(frame is CallResult) && !(frame is FetchResult) ==> reply_of(frame) is None,
        match reply_of(frame) {
            Some((id, _)) => {
                &&& waiting.senders.dom().contains(id) ==> read_error(
                    waiting,
                    Incoming::Frame(frame),
                ) is None
                &&& !waiting.senders.dom().contains(id) ==> read_error(
                    waiting,
                    Incoming::Frame(frame),
                ) == Some("code mode parent returned an unknown request id"@)
            },
            None => read_error(waiting, Incoming::Frame(frame)) == Some(
                "code mode parent sent an unexpected response"@,
            ),
        },
        read_error(waiting, Incoming::Closed) is None,
        read_error(waiting, Incoming::Failed(error)) == Some(
            "code mode parent response was invalid: "@ + error.text(),
        ),
{
}

/// The text of an error is the error's, and there is none where there is no error.
pub proof fn law_error_text_is_the_errors(error: String)
    ensures
        error_text(Some(error)) == Some(error@),
        error_text(None) is None,
{
}

} // verus!
