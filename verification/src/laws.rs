//! The protocol laws, stated over `step_spec` (the relation that
//! `Node::step` is proved to implement) and over `run_spec`, the fold
//! of `step_spec` along a whole inbound sequence as the surrounding
//! read-dispatch-write loop performs it.

use vstd::prelude::*;

use crate::ident::{gen_id, lemma_gen_id_injective};
use crate::node::{fatal, step_spec, NodeError, NodeV, ReplyKind};
use crate::protocol::{MessageV, PayloadV};

verus! {

/// What a whole run of the dispatch engine yields: the node at the
/// end, every emitted reply in emission order, and whether a fatal
/// error halted the run early (the surrounding process terminates on
/// the first error, so nothing after it is processed).
#[verifier::ext_equal]
pub ghost struct RunOutcome {
    pub node: NodeV,
    pub outs: Seq<MessageV>,
    pub halted: bool,
}

/// Folds `step_spec` over a sequence of inbound messages.
pub open spec fn run_spec(n: NodeV, inputs: Seq<MessageV>) -> RunOutcome
    decreases inputs.len(),
{
    if inputs.len() == 0 {
        RunOutcome { node: n, outs: Seq::empty(), halted: false }
    } else {
        let first = step_spec(n, inputs[0]);
        match first.out {
            Ok(emitted) => {
                let rest = run_spec(first.node, inputs.subrange(1, inputs.len() as int));
                let outs = match emitted {
                    Some(m) => seq![m] + rest.outs,
                    None => rest.outs,
                };
                RunOutcome { node: rest.node, outs: outs, halted: rest.halted }
            },
            Err(_) => RunOutcome { node: first.node, outs: Seq::empty(), halted: true },
        }
    }
}

/// Reply correlation: whenever a step emits a reply, the reply answers
/// the request's own id, goes back to the request's sender, carries
/// the node's own (post-step) identity as source, and is stamped with
/// the node's pre-step counter.
pub proof fn lemma_reply_correlation(n: NodeV, input: MessageV)
    ensures
        step_spec(n, input).out matches Ok(Some(m)) ==> {
            &&& m.body.in_reply_to == input.body.msg_id
            &&& m.dest == input.src
            &&& m.body.msg_id == Some(n.msg_id)
            &&& step_spec(n, input).node.node_id is Some
            &&& m.src == step_spec(n, input).node.node_id.unwrap()
        },
{
}

/// One step either emits exactly one reply — stamped with the pre-step
/// counter, which then bumps by exactly one, and carrying, if it is a
/// `GenerateOk`, an identifier generated at that counter — or leaves
/// the node untouched.
pub proof fn lemma_step_counter(n: NodeV, input: MessageV)
    ensures
        match step_spec(n, input).out {
            Ok(Some(m)) => {
                &&& step_spec(n, input).node.msg_id == n.msg_id + 1
                &&& m.body.msg_id == Some(n.msg_id)
                &&& (m.body.payload matches PayloadV::GenerateOk { id }
                    ==> exists|nid: Seq<char>| id == #[trigger] gen_id(nid, n.msg_id))
            },
            Ok(None) => step_spec(n, input).node == n,
            Err(_) => step_spec(n, input).node == n,
        },
{
    match input.body.payload {
        PayloadV::Generate => {
            if n.node_id is Some {
                let nid = n.node_id.unwrap();
                assert(gen_id(nid, n.msg_id) == gen_id(nid, n.msg_id));
            }
        },
        _ => {},
    }
}

/// Counter monotonicity: a run that emits K replies stamps them with
/// the counter values c, c+1, ..., c+K-1 in emission order (c the
/// counter at the start of the run), with no repeats and no gaps, and
/// leaves the counter at c+K; every emitted `GenerateOk` carries an
/// identifier generated at its own stamp.
pub proof fn lemma_counter_monotonic(n: NodeV, inputs: Seq<MessageV>)
    ensures
        run_spec(n, inputs).node.msg_id == n.msg_id + run_spec(n, inputs).outs.len(),
        forall|k: int| 0 <= k < run_spec(n, inputs).outs.len()
            ==> (#[trigger] run_spec(n, inputs).outs[k]).body.msg_id == Some((n.msg_id + k) as nat),
        forall|k: int| 0 <= k < run_spec(n, inputs).outs.len()
            ==> ((#[trigger] run_spec(n, inputs).outs[k]).body.payload matches PayloadV::GenerateOk { id }
                ==> exists|nid: Seq<char>| id == #[trigger] gen_id(nid, (n.msg_id + k) as nat)),
    decreases inputs.len(),
{
    if inputs.len() == 0 {
    } else {
        let first = step_spec(n, inputs[0]);
        let tail = inputs.subrange(1, inputs.len() as int);
        lemma_step_counter(n, inputs[0]);
        match first.out {
            Ok(emitted) => {
                lemma_counter_monotonic(first.node, tail);
                let rest = run_spec(first.node, tail);
                match emitted {
                    Some(m) => {
                        let outs = run_spec(n, inputs).outs;
                        assert(outs == seq![m] + rest.outs);
                        assert forall|k: int| 0 <= k < outs.len() implies
                            (#[trigger] outs[k]).body.msg_id == Some((n.msg_id + k) as nat) by {
                            if k == 0 {
                                assert(outs[0] == m);
                            } else {
                                assert(outs[k] == rest.outs[k - 1]);
                            }
                        }
                        assert forall|k: int| 0 <= k < outs.len() implies
                            ((#[trigger] outs[k]).body.payload matches PayloadV::GenerateOk { id }
                                ==> exists|nid: Seq<char>| id == #[trigger] gen_id(nid, (n.msg_id + k) as nat)) by {
                            if k == 0 {
                                assert(outs[0] == m);
                            } else {
                                assert(outs[k] == rest.outs[k - 1]);
                            }
                        }
                    },
                    None => {},
                }
            },
            Err(_) => {},
        }
    }
}

/// From process start, the K replies a run emits are stamped exactly
/// 0, 1, ..., K-1, with no repeats and no gaps, and the counter ends
/// at K.
pub proof fn lemma_counter_from_start(inputs: Seq<MessageV>)
    ensures
        run_spec(NodeV::initial(), inputs).node.msg_id == run_spec(
            NodeV::initial(),
            inputs,
        ).outs.len(),
        forall|k: int| 0 <= k < run_spec(NodeV::initial(), inputs).outs.len()
            ==> (#[trigger] run_spec(NodeV::initial(), inputs).outs[k]).body.msg_id == Some(
            k as nat,
        ),
{
    lemma_counter_monotonic(NodeV::initial(), inputs);
}

/// Generate uniqueness along a run: no two emitted replies ever carry
/// the same generated identifier, because each is generated at its own
/// counter stamp and generation is injective in the pair.
pub proof fn lemma_generate_unique_in_run(n: NodeV, inputs: Seq<MessageV>, k: int, l: int)
    requires
        0 <= k < run_spec(n, inputs).outs.len(),
        0 <= l < run_spec(n, inputs).outs.len(),
        k != l,
        run_spec(n, inputs).outs[k].body.payload matches PayloadV::GenerateOk { .. },
        run_spec(n, inputs).outs[l].body.payload matches PayloadV::GenerateOk { .. },
    ensures
        run_spec(n, inputs).outs[k].body.payload != run_spec(n, inputs).outs[l].body.payload,
{
    lemma_counter_monotonic(n, inputs);
    let pk = run_spec(n, inputs).outs[k].body.payload;
    let pl = run_spec(n, inputs).outs[l].body.payload;
    if pk == pl {
        match pk {
            PayloadV::GenerateOk { id } => {
                let nid_k = choose|nid: Seq<char>| id == #[trigger] gen_id(nid, (n.msg_id + k) as nat);
                let nid_l = choose|nid: Seq<char>| id == #[trigger] gen_id(nid, (n.msg_id + l) as nat);
                lemma_gen_id_injective(nid_k, (n.msg_id + k) as nat, nid_l, (n.msg_id + l) as nat);
                assert(false);
            },
            _ => {},
        }
    }
}

/// Echo identity: an initialized node answers `Echo` with an `EchoOk`
/// carrying the very same string.
pub proof fn lemma_echo_identity(n: NodeV, input: MessageV, s: Seq<char>)
    requires
        n.node_id is Some,
        input.body.payload == (PayloadV::Echo { echo: s }),
    ensures
        step_spec(n, input).out matches Ok(Some(m)) && m.body.payload == (PayloadV::EchoOk {
            echo: s,
        }),
{
}

/// Broadcast/Read round trip: after `Broadcast{a}` then `Broadcast{b}`,
/// a `Read` replies with everything already stored followed by `a`
/// then `b` — arrival order, duplicates preserved.
pub proof fn lemma_broadcast_read(n: NodeV, m1: MessageV, m2: MessageV, m3: MessageV, a: usize, b: usize)
    requires
        n.node_id is Some,
        m1.body.payload == (PayloadV::Broadcast { message: a }),
        m2.body.payload == (PayloadV::Broadcast { message: b }),
        m3.body.payload == PayloadV::Read,
    ensures
        ({
            let n1 = step_spec(n, m1).node;
            let n2 = step_spec(n1, m2).node;
            &&& step_spec(n, m1).out matches Ok(Some(r1)) && r1.body.payload
                == PayloadV::BroadcastOk
            &&& step_spec(n1, m2).out matches Ok(Some(r2)) && r2.body.payload
                == PayloadV::BroadcastOk
            &&& step_spec(n2, m3).out matches Ok(Some(r3)) && r3.body.payload == (
            PayloadV::ReadOk { messages: n.messages.push(a).push(b) })
        }),
{
}

/// Topology acceptance: an initialized node answers `Topology` with
/// exactly `TopologyOk`, and the only state change beside the counter
/// bump is recording the neighbor lists.
pub proof fn lemma_topology_acceptance(n: NodeV, input: MessageV, t: Seq<(Seq<char>, Seq<Seq<char>>)>)
    requires
        n.node_id is Some,
        input.body.payload == (PayloadV::Topology { topology: t }),
    ensures
        step_spec(n, input).out matches Ok(Some(m)) && m.body.payload == PayloadV::TopologyOk,
        step_spec(n, input).node == (NodeV { topology: Some(t), msg_id: (n.msg_id + 1) as nat, ..n }),
{
}

/// Uninitialized precondition: `Generate` before any `Init` is fatal —
/// no `GenerateOk` is produced and the node does not change.
pub proof fn lemma_uninitialized_generate(n: NodeV, input: MessageV)
    requires
        n.node_id is None,
        input.body.payload == PayloadV::Generate,
    ensures
        step_spec(n, input) == fatal(n, NodeError::Uninitialized),
{
}

/// Unexpected-reply fatality: receiving `InitOk` or `GenerateOk` is
/// fatal, names the offending kind, and changes nothing.
pub proof fn lemma_unexpected_reply_fatal(n: NodeV, input: MessageV)
    ensures
        input.body.payload == PayloadV::InitOk ==> step_spec(n, input) == fatal(
            n,
            NodeError::UnexpectedReply(ReplyKind::InitOk),
        ),
        (input.body.payload matches PayloadV::GenerateOk { .. }) ==> step_spec(n, input) == fatal(
            n,
            NodeError::UnexpectedReply(ReplyKind::GenerateOk),
        ),
{
}

/// A halted run emits nothing more: whatever inputs follow the one
/// that halted it, no further reply appears and the node stays as the
/// halt left it.
pub proof fn lemma_halt_stops_output(n: NodeV, xs: Seq<MessageV>, ys: Seq<MessageV>)
    requires
        run_spec(n, xs).halted,
    ensures
        run_spec(n, xs + ys).outs == run_spec(n, xs).outs,
        run_spec(n, xs + ys).node == run_spec(n, xs).node,
        run_spec(n, xs + ys).halted,
    decreases xs.len(),
{
    assert(xs.len() > 0);
    let first = step_spec(n, xs[0]);
    let all = xs + ys;
    assert(all[0] == xs[0]);
    assert(all.subrange(1, all.len() as int) =~= xs.subrange(1, xs.len() as int) + ys);
    match first.out {
        Ok(emitted) => {
            lemma_halt_stops_output(first.node, xs.subrange(1, xs.len() as int), ys);
        },
        Err(_) => {},
    }
}

} // verus!
