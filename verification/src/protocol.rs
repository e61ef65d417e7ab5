//! The wire-level message shapes: the envelope carrying sender and
//! recipient, the body carrying the correlation ids, and the closed
//! tagged union of payload kinds.  Each type has a mathematical view
//! over sequences, which the dispatch contracts are stated in.

use vstd::prelude::*;

verus! {

/// One protocol exchange unit: the closed set of message kinds a node
/// can receive or send, each with its variant-specific fields.
pub enum Payload {
    Init { node_id: String, node_ids: Vec<String> },
    InitOk,
    Echo { echo: String },
    EchoOk { echo: String },
    Generate,
    GenerateOk { id: String },
    Broadcast { message: usize },
    BroadcastOk,
    Read,
    ReadOk { messages: Vec<usize> },
    Topology { topology: Vec<(String, Vec<String>)> },
    TopologyOk,
}

/// Mathematical model of a `Payload`.
#[verifier::ext_equal]
pub ghost enum PayloadV {
    Init { node_id: Seq<char>, node_ids: Seq<Seq<char>> },
    InitOk,
    Echo { echo: Seq<char> },
    EchoOk { echo: Seq<char> },
    Generate,
    GenerateOk { id: Seq<char> },
    Broadcast { message: usize },
    BroadcastOk,
    Read,
    ReadOk { messages: Seq<usize> },
    Topology { topology: Seq<(Seq<char>, Seq<Seq<char>>)> },
    TopologyOk,
}

impl View for Payload {
    type V = PayloadV;

    open spec fn view(&self) -> PayloadV {
        match self {
            Payload::Init { node_id, node_ids } => PayloadV::Init {
                node_id: node_id@,
                node_ids: node_ids.deep_view(),
            },
            Payload::InitOk => PayloadV::InitOk,
            Payload::Echo { echo } => PayloadV::Echo { echo: echo@ },
            Payload::EchoOk { echo } => PayloadV::EchoOk { echo: echo@ },
            Payload::Generate => PayloadV::Generate,
            Payload::GenerateOk { id } => PayloadV::GenerateOk { id: id@ },
            Payload::Broadcast { message } => PayloadV::Broadcast { message: *message },
            Payload::BroadcastOk => PayloadV::BroadcastOk,
            Payload::Read => PayloadV::Read,
            Payload::ReadOk { messages } => PayloadV::ReadOk { messages: messages@ },
            Payload::Topology { topology } => PayloadV::Topology {
                topology: topology.deep_view(),
            },
            Payload::TopologyOk => PayloadV::TopologyOk,
        }
    }
}

/// The inner record of an envelope: the sender's own sequence number
/// (present iff the sender originated this message), the id of the
/// request this answers (present iff this is a reply), and the payload.
pub struct Body {
    pub msg_id: Option<usize>,
    pub in_reply_to: Option<usize>,
    pub payload: Payload,
}

/// Mathematical model of a `Body`.
#[verifier::ext_equal]
pub ghost struct BodyV {
    pub msg_id: Option<nat>,
    pub in_reply_to: Option<nat>,
    pub payload: PayloadV,
}

pub open spec fn opt_nat(o: Option<usize>) -> Option<nat> {
    match o {
        Some(v) => Some(v as nat),
        None => None,
    }
}

impl View for Body {
    type V = BodyV;

    open spec fn view(&self) -> BodyV {
        BodyV {
            msg_id: opt_nat(self.msg_id),
            in_reply_to: opt_nat(self.in_reply_to),
            payload: self.payload@,
        }
    }
}

/// One directed message: who sent it, who it is for, and its body.
pub struct Message {
    pub src: String,
    pub dest: String,
    pub body: Body,
}

/// Mathematical model of a `Message`.
#[verifier::ext_equal]
pub ghost struct MessageV {
    pub src: Seq<char>,
    pub dest: Seq<char>,
    pub body: BodyV,
}

impl View for Message {
    type V = MessageV;

    open spec fn view(&self) -> MessageV {
        MessageV { src: self.src@, dest: self.dest@, body: self.body@ }
    }
}

} // verus!
