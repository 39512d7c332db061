use vstd::prelude::*;
use crate::error::ApiError;
use crate::operation::{encode_message, BroadcastOperation, OperationModel};

verus! {

/// Why an announcement did not reach the other replicas.
#[derive(Debug, Clone, PartialEq, Eq)]
pub enum BroadcastError {
    TransportFailure(String),
}

/// What the transport is asked to do: publish `message` on `topic`.
#[derive(Debug, Clone, PartialEq, Eq)]
pub struct PublishRequest {
    pub topic: String,
    pub message: String,
}

/// The process-wide handle on the notification channel: its topic and
/// whether an announcement holds it.
#[derive(Debug)]
pub struct ChannelHandle {
    topic: String,
    busy: bool,
}

/// The mathematical value of a channel handle.
pub struct ChannelModel {
    pub topic: Seq<char>,
    pub busy: bool,
}

impl View for ChannelHandle {
    type V = ChannelModel;

    closed spec fn view(&self) -> ChannelModel {
        ChannelModel { topic: self.topic@, busy: self.busy }
    }
}

/// Starting an announcement: an idle channel is taken and the message that
/// announces `o` is handed to the transport; a taken one hands out nothing.
pub open spec fn begin_step(c: ChannelModel, o: OperationModel) -> (ChannelModel, Option<Seq<char>>) {
    if c.busy {
        (c, None)
    } else {
        (ChannelModel { busy: true, ..c }, Some(encode_message(o)))
    }
}

/// Finishing an announcement: the channel is released, whatever the outcome.
pub open spec fn finish_step(c: ChannelModel) -> ChannelModel {
    ChannelModel { busy: false, ..c }
}

/// How an announcement ends, given what the transport reported.
pub open spec fn announce_result(outcome: Result<(), String>) -> Result<(), BroadcastError> {
    match outcome {
        Ok(()) => Ok(()),
        Err(detail) => Err(BroadcastError::TransportFailure(detail)),
    }
}

/// The messages that the transport receives when `ops` are announced one
/// after the other on the channel `c`, each holding it until it finishes.
pub open spec fn announce_all(c: ChannelModel, ops: Seq<OperationModel>) -> Seq<Seq<char>>
    decreases ops.len(),
{
    if ops.len() == 0 {
        Seq::empty()
    } else {
        let (taken, sent) = begin_step(c, ops[0]);
        let rest = announce_all(finish_step(taken), ops.drop_first());
        match sent {
            Some(m) => seq![m] + rest,
            None => rest,
        }
    }
}

impl ChannelHandle {
    /// An idle handle on the channel `topic`.
    pub fn new(topic: String) -> (r: ChannelHandle)
        ensures
            r@ == (ChannelModel { topic: topic@, busy: false }),
    {
        ChannelHandle { topic, busy: false }
    }

    /// The channel this handle publishes to.
    pub fn topic(&self) -> (r: &str)
        ensures
            r@ == self@.topic,
    {
        self.topic.as_str()
    }

    /// Whether an announcement holds the channel.
    pub fn is_busy(&self) -> (r: bool)
        ensures
            r == self@.busy,
    {
        self.busy
    }

    /// Takes the channel for announcing `operation` and returns what to
    /// publish, or `None` while another announcement holds it.
    pub fn begin_announce(&mut self, operation: &BroadcastOperation) -> (r: Option<PublishRequest>)
        ensures
            final(self)@ == begin_step(old(self)@, operation@).0,
            match r {
                Some(req) => {
                    &&& begin_step(old(self)@, operation@).1 == Some(req.message@)
                    &&& req.topic@ == old(self)@.topic
                },
                None => begin_step(old(self)@, operation@).1 is None,
            },
    {
        if self.busy {
            return None;
        }
        self.busy = true;
        let message = operation.to_message();
        Some(PublishRequest { topic: self.topic.clone(), message })
    }

    /// Releases the channel and reports how the announcement ended: a
    /// transport failure is returned as it came, never retried here.
    pub fn finish_announce(&mut self, outcome: Result<(), String>) -> (r: Result<(), BroadcastError>)
        ensures
            final(self)@ == finish_step(old(self)@),
            r == announce_result(outcome),
    {
        self.busy = false;
        match outcome {
            Ok(()) => Ok(()),
            Err(detail) => Err(BroadcastError::TransportFailure(detail)),
        }
    }
}

impl BroadcastError {
    /// The boundary error that a failed announcement becomes.
    pub fn to_api_error(&self) -> (r: ApiError)
        ensures
            r == (match *self {
                BroadcastError::TransportFailure(d) => ApiError::RequestFailed(d),
            }),
    {
        match self {
            BroadcastError::TransportFailure(d) => ApiError::RequestFailed(d.clone()),
        }
    }
}

/// Announcing operations one after the other on an idle channel hands the
/// transport exactly one whole message per operation, in order: the message
/// that announces it.
pub proof fn lemma_one_publish_per_announce(c: ChannelModel, ops: Seq<OperationModel>)
    requires
        !c.busy,
    ensures
        announce_all(c, ops).len() == ops.len(),
        forall|i: int| 0 <= i < ops.len() ==> #[trigger] announce_all(c, ops)[i] == encode_message(ops[i]),
    decreases ops.len(),
{
    if ops.len() > 0 {
        let (taken, sent) = begin_step(c, ops[0]);
        lemma_one_publish_per_announce(finish_step(taken), ops.drop_first());
        assert forall|i: int| 0 <= i < ops.len() implies #[trigger] announce_all(c, ops)[i] == encode_message(ops[i]) by {
            if i > 0 {
                assert(ops.drop_first()[i - 1] == ops[i]);
            }
        }
    }
}

/// While one announcement holds the channel, another hands nothing to the
/// transport and leaves the channel as it was; once released, the channel is
/// idle again.
pub proof fn lemma_exclusive_use(c: ChannelModel, o: OperationModel, p: OperationModel)
    requires
        !c.busy,
    ensures
        begin_step(begin_step(c, o).0, p).1 is None,
        begin_step(begin_step(c, o).0, p).0 == begin_step(c, o).0,
        !finish_step(begin_step(c, o).0).busy,
{
}

} // verus!
