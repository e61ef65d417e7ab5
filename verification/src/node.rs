//! The node's long-lived state and the dispatch engine: the state
//! machine that, given one inbound message, decides the reply (if any)
//! and how the state changes.  `step_spec` is the transition relation;
//! `Node::step` is proved to implement it exactly.

use vstd::prelude::*;

use crate::ident::{gen_id, unique_id};
use crate::protocol::{opt_nat, Body, BodyV, Message, MessageV, Payload, PayloadV};

verus! {

/// The reply kinds this node can never have solicited: it originates
/// no `Init` or `Generate` requests of its own.
#[derive(Clone, Copy, Debug, PartialEq, Eq, Structural)]
pub enum ReplyKind {
    InitOk,
    GenerateOk,
}

/// Why a dispatch step refuses to proceed.  Every variant is fatal:
/// the surrounding process terminates rather than recovering.
#[derive(Clone, Copy, Debug, PartialEq, Eq, Structural)]
pub enum NodeError {
    /// A request needing the node's identity arrived before `Init` set it.
    Uninitialized,
    /// A reply arrived that this node can never have solicited.
    UnexpectedReply(ReplyKind),
}

/// This process's state for its whole lifetime: its harness-assigned
/// identifier (absent until `Init`), the counter stamped onto each
/// originated message, the broadcast values in arrival order, and the
/// neighbor lists recorded from a `Topology` message.
pub struct Node {
    pub node_id: Option<String>,
    pub msg_id: usize,
    pub messages: Vec<usize>,
    pub topology: Option<Vec<(String, Vec<String>)>>,
}

/// Mathematical model of a `Node`.
#[verifier::ext_equal]
pub ghost struct NodeV {
    pub node_id: Option<Seq<char>>,
    pub msg_id: nat,
    pub messages: Seq<usize>,
    pub topology: Option<Seq<(Seq<char>, Seq<Seq<char>>)>>,
}

impl View for Node {
    type V = NodeV;

    open spec fn view(&self) -> NodeV {
        NodeV {
            node_id: self.node_id.deep_view(),
            msg_id: self.msg_id as nat,
            messages: self.messages@,
            topology: self.topology.deep_view(),
        }
    }
}

impl NodeV {
    /// The state at process start.
    pub open spec fn initial() -> NodeV {
        NodeV { node_id: None, msg_id: 0, messages: Seq::empty(), topology: None }
    }

    /// The state after originating one message: only the counter moves,
    /// by exactly one.
    pub open spec fn bump(self) -> NodeV {
        NodeV { msg_id: self.msg_id + 1, ..self }
    }
}

/// The reply a node in state `n` originates: its own identifier as
/// source, the requester as destination, the pre-increment counter as
/// `msg_id`, and the request's own id as `in_reply_to`.
pub open spec fn reply_msg(n: NodeV, dest: Seq<char>, in_reply_to: Option<nat>, payload: PayloadV) -> MessageV {
    MessageV {
        src: n.node_id.unwrap(),
        dest: dest,
        body: BodyV { msg_id: Some(n.msg_id), in_reply_to: in_reply_to, payload: payload },
    }
}

/// What one dispatch step yields: the node afterwards, and either the
/// reply to emit (if any) or the fatal error.
#[verifier::ext_equal]
pub ghost struct StepOutcome {
    pub node: NodeV,
    pub out: Result<Option<MessageV>, NodeError>,
}

/// A step that answers the request: the reply is built from the
/// (possibly already updated) state `n`, whose counter then bumps.
pub open spec fn emit(n: NodeV, input: MessageV, payload: PayloadV) -> StepOutcome {
    StepOutcome {
        node: n.bump(),
        out: Ok(Some(reply_msg(n, input.src, input.body.msg_id, payload))),
    }
}

/// A step that acknowledges without replying or changing anything.
pub open spec fn silent(n: NodeV) -> StepOutcome {
    StepOutcome { node: n, out: Ok(None) }
}

/// A step that fails fatally, leaving the node unchanged.
pub open spec fn fatal(n: NodeV, e: NodeError) -> StepOutcome {
    StepOutcome { node: n, out: Err(e) }
}

/// The dispatch state machine.  Requests are answered (each answer
/// requires the node to be initialized; `Init` itself establishes
/// that); quiescent replies are acknowledged silently; `InitOk` and
/// `GenerateOk` can never have been solicited and are fatal.
pub open spec fn step_spec(n: NodeV, input: MessageV) -> StepOutcome {
    match input.body.payload {
        PayloadV::Init { node_id, node_ids } => emit(
            NodeV { node_id: Some(node_id), ..n },
            input,
            PayloadV::InitOk,
        ),
        PayloadV::InitOk => fatal(n, NodeError::UnexpectedReply(ReplyKind::InitOk)),
        PayloadV::Echo { echo } => if n.node_id is Some {
            emit(n, input, PayloadV::EchoOk { echo: echo })
        } else {
            fatal(n, NodeError::Uninitialized)
        },
        PayloadV::EchoOk { .. } => silent(n),
        PayloadV::Generate => if n.node_id is Some {
            emit(n, input, PayloadV::GenerateOk { id: gen_id(n.node_id.unwrap(), n.msg_id) })
        } else {
            fatal(n, NodeError::Uninitialized)
        },
        PayloadV::GenerateOk { .. } => fatal(n, NodeError::UnexpectedReply(ReplyKind::GenerateOk)),
        PayloadV::Broadcast { message } => if n.node_id is Some {
            emit(NodeV { messages: n.messages.push(message), ..n }, input, PayloadV::BroadcastOk)
        } else {
            fatal(n, NodeError::Uninitialized)
        },
        PayloadV::BroadcastOk => silent(n),
        PayloadV::Read => if n.node_id is Some {
            emit(n, input, PayloadV::ReadOk { messages: n.messages })
        } else {
            fatal(n, NodeError::Uninitialized)
        },
        PayloadV::ReadOk { .. } => silent(n),
        PayloadV::Topology { topology } => if n.node_id is Some {
            emit(NodeV { topology: Some(topology), ..n }, input, PayloadV::TopologyOk)
        } else {
            fatal(n, NodeError::Uninitialized)
        },
        PayloadV::TopologyOk => silent(n),
    }
}

/// The view of an exec step result, for stating `Node::step` against
/// `step_spec`.
pub open spec fn res_view(r: Result<Option<Message>, NodeError>) -> Result<Option<MessageV>, NodeError> {
    match r {
        Ok(Some(m)) => Ok(Some(m@)),
        Ok(None) => Ok(None),
        Err(e) => Err(e),
    }
}

/// An aliasing-free copy of the stored values, so an emitted reply
/// owns its snapshot and later broadcasts cannot change it.
fn copy_values(v: &Vec<usize>) -> (r: Vec<usize>)
    ensures
        r@ == v@,
{
    let mut r: Vec<usize> = Vec::new();
    let mut i: usize = 0;
    while i < v.len()
        invariant
            i <= v.len(),
            r@ == v@.take(i as int),
        decreases v.len() - i,
    {
        r.push(v[i]);
        i = i + 1;
        proof {
            assert(r@ =~= v@.take(i as int));
        }
    }
    proof {
        assert(r@ =~= v@);
    }
    r
}

impl Message {
    /// Builds the reply a node originates for a request: the whole
    /// correlation discipline (source/destination swap, counter stamp,
    /// `in_reply_to`) lives here, and the counter bumps by exactly one.
    /// No other code path moves the counter.
    pub fn reply(node: &mut Node, dest: String, in_reply_to: Option<usize>, payload: Payload) -> (r: Message)
        requires
            old(node).node_id is Some,
            old(node).msg_id < usize::MAX,
        ensures
            r@ == reply_msg(old(node)@, dest@, opt_nat(in_reply_to), payload@),
            final(node)@ == old(node)@.bump(),
    {
        let src = node.node_id.as_ref().unwrap().clone();
        let r = Message {
            src: src,
            dest: dest,
            body: Body { msg_id: Some(node.msg_id), in_reply_to: in_reply_to, payload: payload },
        };
        node.msg_id = node.msg_id + 1;
        proof {
            assert(r@ =~~= reply_msg(old(node)@, dest@, opt_nat(in_reply_to), payload@));
            assert(node@ =~~= old(node)@.bump());
        }
        r
    }
}

impl Node {
    /// A fresh node: no identity, counter at zero, nothing stored.
    pub fn new() -> (n: Node)
        ensures
            n@ == NodeV::initial(),
    {
        let n = Node { node_id: None, msg_id: 0, messages: Vec::new(), topology: None };
        proof {
            assert(n@ =~~= NodeV::initial());
        }
        n
    }

    /// One step of the dispatch engine: consumes one inbound message,
    /// updates the node, and returns the reply to emit (if any) or the
    /// fatal error, exactly as `step_spec` says.
    pub fn step(&mut self, input: Message) -> (r: Result<Option<Message>, NodeError>)
        requires
            old(self).msg_id < usize::MAX,
        ensures
            final(self)@ == step_spec(old(self)@, input@).node,
            res_view(r) == step_spec(old(self)@, input@).out,
    {
        let Message { src, dest: _, body } = input;
        let Body { msg_id: req_id, in_reply_to: _, payload } = body;
        match payload {
            Payload::Init { node_id, node_ids: _ } => {
                self.node_id = Some(node_id);
                Ok(Some(Message::reply(self, src, req_id, Payload::InitOk)))
            },
            Payload::InitOk => Err(NodeError::UnexpectedReply(ReplyKind::InitOk)),
            Payload::Echo { echo } => {
                if self.node_id.is_some() {
                    Ok(Some(Message::reply(self, src, req_id, Payload::EchoOk { echo })))
                } else {
                    Err(NodeError::Uninitialized)
                }
            },
            Payload::EchoOk { .. } => Ok(None),
            Payload::Generate => {
                match &self.node_id {
                    Some(own_id) => {
                        let id = unique_id(own_id, self.msg_id);
                        Ok(Some(Message::reply(self, src, req_id, Payload::GenerateOk { id })))
                    },
                    None => Err(NodeError::Uninitialized),
                }
            },
            Payload::GenerateOk { .. } => Err(NodeError::UnexpectedReply(ReplyKind::GenerateOk)),
            Payload::Broadcast { message } => {
                if self.node_id.is_some() {
                    self.messages.push(message);
                    Ok(Some(Message::reply(self, src, req_id, Payload::BroadcastOk)))
                } else {
                    Err(NodeError::Uninitialized)
                }
            },
            Payload::BroadcastOk => Ok(None),
            Payload::Read => {
                if self.node_id.is_some() {
                    let messages = copy_values(&self.messages);
                    Ok(Some(Message::reply(self, src, req_id, Payload::ReadOk { messages })))
                } else {
                    Err(NodeError::Uninitialized)
                }
            },
            Payload::ReadOk { .. } => Ok(None),
            Payload::Topology { topology } => {
                if self.node_id.is_some() {
                    self.topology = Some(topology);
                    Ok(Some(Message::reply(self, src, req_id, Payload::TopologyOk)))
                } else {
                    Err(NodeError::Uninitialized)
                }
            },
            Payload::TopologyOk => Ok(None),
        }
    }
}

} // verus!
