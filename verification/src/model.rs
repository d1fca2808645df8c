//! The exchange at work, as a state machine, and what holds of every run.
//!
//! Each channel is two queues, taken here as sequences: a send appends to a queue,
//! the one who receives takes its first message. Three kinds of steps happen, in any
//! order: a world sends a message, the router forwards the first message of one
//! world's queue, a worker takes the first message that was delivered to its world.
//! The router's step is [`routing`], the function in which the contract of
//! [`crate::exchange::Router::route`] is written. When the router runs and which
//! queue it takes from is left open; the laws hold of every order.

use crate::exchange::routing;
use crate::identity::WorldIdentifier;
use crate::message::{stamped, MessageView};
use vstd::prelude::*;

verus! {

/// The queues of an exchange, and what went through them so far.
pub struct Network {
    /// The registered worlds.
    pub registry: Seq<WorldIdentifier>,
    /// For each world, what it has sent and the router has not taken yet.
    pub outbound: Map<WorldIdentifier, Seq<MessageView>>,
    /// For each world, what the router has delivered and the worker has not taken yet.
    pub inbound: Map<WorldIdentifier, Seq<MessageView>>,
    /// For each world, everything it has sent, in the order of sending.
    pub sent: Map<WorldIdentifier, Seq<MessageView>>,
    /// For each world, everything its worker has taken, in the order of taking.
    pub received: Map<WorldIdentifier, Seq<MessageView>>,
}

/// One thing that happens in an exchange.
pub enum Step {
    /// World `from` sends `message`.
    Send { from: WorldIdentifier, message: MessageView },
    /// The router takes the first message that world `from` has sent and forwards it.
    Route { from: WorldIdentifier },
    /// The worker of world `at` takes the first message that was delivered to it.
    Receive { at: WorldIdentifier },
}

/// The exchange of `registry` before anything happened.
pub open spec fn initial(registry: Seq<WorldIdentifier>) -> Network {
    Network {
        registry,
        outbound: Map::total(|id: WorldIdentifier| Seq::<MessageView>::empty()),
        inbound: Map::total(|id: WorldIdentifier| Seq::<MessageView>::empty()),
        sent: Map::total(|id: WorldIdentifier| Seq::<MessageView>::empty()),
        received: Map::total(|id: WorldIdentifier| Seq::<MessageView>::empty()),
    }
}

/// Whether `step` can happen in `net`: only registered worlds have channels, and a
/// message can only be taken from a queue that holds one.
pub open spec fn enabled(net: Network, step: Step) -> bool {
    match step {
        Step::Send { from, message } => net.registry.contains(from),
        Step::Route { from } => net.registry.contains(from) && net.outbound[from].len() > 0,
        Step::Receive { at } => net.registry.contains(at) && net.inbound[at].len() > 0,
    }
}

/// The exchange after `step` happened in `net`.
pub open spec fn next(net: Network, step: Step) -> Network {
    match step {
        Step::Send { from, message } => Network {
            outbound: net.outbound.insert(from, net.outbound[from].push(message)),
            sent: net.sent.insert(from, net.sent[from].push(message)),
            ..net
        },
        Step::Route { from } => {
            let message = net.outbound[from].first();
            let outbound = net.outbound.insert(from, net.outbound[from].drop_first());
            match routing(net.registry, from, message) {
                Some(out) => Network {
                    outbound,
                    inbound: net.inbound.insert(
                        message.receiver,
                        net.inbound[message.receiver].push(out),
                    ),
                    ..net
                },
                None => Network { outbound, ..net },
            }
        },
        Step::Receive { at } => Network {
            inbound: net.inbound.insert(at, net.inbound[at].drop_first()),
            received: net.received.insert(at, net.received[at].push(net.inbound[at].first())),
            ..net
        },
    }
}

/// The exchange of `registry` after `steps` happened, one after the other.
pub open spec fn after(registry: Seq<WorldIdentifier>, steps: Seq<Step>) -> Network
    decreases steps.len(),
{
    if steps.len() == 0 {
        initial(registry)
    } else {
        next(after(registry, steps.drop_last()), steps.last())
    }
}

/// Whether `steps` can happen one after the other, starting from nothing.
pub open spec fn possible(registry: Seq<WorldIdentifier>, steps: Seq<Step>) -> bool
    decreases steps.len(),
{
    steps.len() == 0 || (possible(registry, steps.drop_last()) && enabled(
        after(registry, steps.drop_last()),
        steps.last(),
    ))
}

/// Is the message for world `to`?
pub open spec fn goes_to(to: WorldIdentifier) -> spec_fn(MessageView) -> bool {
    |m: MessageView| m.receiver == to
}

/// Does the message bear the stamp of world `source`?
pub open spec fn sent_by(source: WorldIdentifier) -> spec_fn(MessageView) -> bool {
    |m: MessageView| m.sender == Some(source)
}

/// The messages, each as the router stamps what it takes from world `source`.
pub open spec fn stamp_all(messages: Seq<MessageView>, source: WorldIdentifier) -> Seq<
    MessageView,
> {
    messages.map_values(|m: MessageView| stamped(m, source))
}

/// What world `from` has sent to world `to`, in the order of sending, as it looks when
/// it arrives.
pub open spec fn sent_between(net: Network, from: WorldIdentifier, to: WorldIdentifier) -> Seq<
    MessageView,
> {
    stamp_all(net.sent[from].filter(goes_to(to)), from)
}

/// What the worker of world `to` has taken that came from world `from`, in the order of
/// taking.
pub open spec fn received_between(
    net: Network,
    from: WorldIdentifier,
    to: WorldIdentifier,
) -> Seq<MessageView> {
    net.received[to].filter(sent_by(from))
}

/// What is on its way from world `from` to world `to`: delivered and not taken yet, and
/// behind that, sent and not forwarded yet.
pub open spec fn in_flight(net: Network, from: WorldIdentifier, to: WorldIdentifier) -> Seq<
    MessageView,
> {
    net.inbound[to].filter(sent_by(from)) + stamp_all(
        net.outbound[from].filter(goes_to(to)),
        from,
    )
}

/// Between two worlds nothing is lost, doubled or reordered: what was taken, followed
/// by what is on its way, is what was sent.
pub open spec fn conserved(net: Network, from: WorldIdentifier, to: WorldIdentifier) -> bool {
    received_between(net, from, to) + in_flight(net, from, to) == sent_between(net, from, to)
}

/// Every message that was delivered to a world is for that world and bears the stamp
/// of a registered world.
pub open spec fn well_stamped(net: Network) -> bool {
    &&& forall|to: WorldIdentifier, i: int|
        0 <= i < net.inbound[to].len() ==> {
            let m = #[trigger] net.inbound[to][i];
            m.receiver == to && m.sender is Some && net.registry.contains(m.sender->0)
        }
    &&& forall|to: WorldIdentifier, i: int|
        0 <= i < net.received[to].len() ==> {
            let m = #[trigger] net.received[to][i];
            m.receiver == to && m.sender is Some && net.registry.contains(m.sender->0)
        }
}

/// Stamping goes through appending.
proof fn lemma_stamp_all_push(messages: Seq<MessageView>, m: MessageView, source: WorldIdentifier)
    ensures
        stamp_all(messages.push(m), source) == stamp_all(messages, source).push(
            stamped(m, source),
        ),
{
    assert(stamp_all(messages.push(m), source) =~= stamp_all(messages, source).push(
        stamped(m, source),
    ));
}

/// Stamping goes through prepending.
proof fn lemma_stamp_all_prepend(
    messages: Seq<MessageView>,
    m: MessageView,
    source: WorldIdentifier,
)
    ensures
        stamp_all(seq![m] + messages, source) == seq![stamped(m, source)] + stamp_all(
            messages,
            source,
        ),
{
    assert(stamp_all(seq![m] + messages, source) =~= seq![stamped(m, source)] + stamp_all(
        messages,
        source,
    ));
}

/// A step keeps what is between two worlds conserved.
proof fn lemma_step_conserves(net: Network, step: Step, from: WorldIdentifier, to: WorldIdentifier)
    requires
        enabled(net, step),
        net.registry.contains(to),
        conserved(net, from, to),
    ensures
        conserved(next(net, step), from, to),
{
    let after = next(net, step);
    let taken = received_between(net, from, to);
    let delivered = net.inbound[to].filter(sent_by(from));
    let waiting = net.outbound[from].filter(goes_to(to));
    let all = net.sent[from].filter(goes_to(to));
    assert(taken + (delivered + stamp_all(waiting, from)) == stamp_all(all, from));
    match step {
        Step::Send { from: sender, message } => {
            if sender == from {
                net.outbound[from].lemma_filter_push(message, goes_to(to));
                net.sent[from].lemma_filter_push(message, goes_to(to));
                if message.receiver == to {
                    lemma_stamp_all_push(waiting, message, from);
                    lemma_stamp_all_push(all, message, from);
                    let last = stamped(message, from);
                    assert(taken + (delivered + stamp_all(waiting, from).push(last)) =~= (taken
                        + (delivered + stamp_all(waiting, from))).push(last));
                }
            }
        },
        Step::Route { from: sender } => {
            let message = net.outbound[sender].first();
            let rest = net.outbound[sender].drop_first();
            let out = stamped(message, sender);
            assert(net.outbound[sender] =~= seq![message] + rest);
            if sender == from {
                rest.lemma_filter_prepend(message, goes_to(to));
                if message.receiver == to {
                    assert(routing(net.registry, sender, message) == Some(out));
                    net.inbound[to].lemma_filter_push(out, sent_by(from));
                    lemma_stamp_all_prepend(rest.filter(goes_to(to)), message, from);
                    let behind = stamp_all(rest.filter(goes_to(to)), from);
                    assert(waiting =~= seq![message] + rest.filter(goes_to(to)));
                    assert(taken + (delivered.push(out) + behind) =~= taken + (delivered + (
                    seq![out] + behind)));
                } else {
                    assert(waiting =~= rest.filter(goes_to(to)));
                }
            } else {
                if routing(net.registry, sender, message) is Some && message.receiver == to {
                    net.inbound[to].lemma_filter_push(out, sent_by(from));
                }
            }
        },
        Step::Receive { at } => {
            if at == to {
                let first = net.inbound[to].first();
                let rest = net.inbound[to].drop_first();
                assert(net.inbound[to] =~= seq![first] + rest);
                rest.lemma_filter_prepend(first, sent_by(from));
                net.received[to].lemma_filter_push(first, sent_by(from));
                let behind = stamp_all(waiting, from);
                if first.sender == Some(from) {
                    assert(delivered =~= seq![first] + rest.filter(sent_by(from)));
                    assert(taken.push(first) + (rest.filter(sent_by(from)) + behind) =~= taken + ((
                    seq![first] + rest.filter(sent_by(from))) + behind));
                } else {
                    assert(delivered =~= rest.filter(sent_by(from)));
                }
            }
        },
    }
}

/// A step keeps the delivered messages well stamped.
proof fn lemma_step_stamps(net: Network, step: Step)
    requires
        enabled(net, step),
        well_stamped(net),
    ensures
        well_stamped(next(net, step)),
{
    let after = next(net, step);
    assert forall|to: WorldIdentifier, i: int| 0 <= i < after.inbound[to].len() implies {
        let m = #[trigger] after.inbound[to][i];
        m.receiver == to && m.sender is Some && after.registry.contains(m.sender->0)
    } by {
        match step {
            Step::Send { from, message } => {},
            Step::Route { from } => {
                let message = net.outbound[from].first();
                if routing(net.registry, from, message) is Some && message.receiver == to {
                    if i < net.inbound[to].len() {
                        assert(after.inbound[to][i] == net.inbound[to][i]);
                    }
                } else {
                    assert(after.inbound[to][i] == net.inbound[to][i]);
                }
            },
            Step::Receive { at } => {
                if at == to {
                    assert(after.inbound[to][i] == net.inbound[to][i + 1]);
                } else {
                    assert(after.inbound[to][i] == net.inbound[to][i]);
                }
            },
        }
    }
    assert forall|to: WorldIdentifier, i: int| 0 <= i < after.received[to].len() implies {
        let m = #[trigger] after.received[to][i];
        m.receiver == to && m.sender is Some && after.registry.contains(m.sender->0)
    } by {
        match step {
            Step::Send { from, message } => {},
            Step::Route { from } => {},
            Step::Receive { at } => {
                if at == to {
                    if i < net.received[to].len() {
                        assert(after.received[to][i] == net.received[to][i]);
                    } else {
                        assert(after.received[to][i] == net.inbound[to][0]);
                    }
                } else {
                    assert(after.received[to][i] == net.received[to][i]);
                }
            },
        }
    }
}

/// In every run, between every world and every registered world, what was taken and
/// what is on its way make up what was sent; and what was delivered is well stamped.
pub proof fn lemma_runs_conserve(
    registry: Seq<WorldIdentifier>,
    steps: Seq<Step>,
    from: WorldIdentifier,
    to: WorldIdentifier,
)
    requires
        possible(registry, steps),
        registry.contains(to),
    ensures
        after(registry, steps).registry == registry,
        conserved(after(registry, steps), from, to),
        well_stamped(after(registry, steps)),
    decreases steps.len(),
{
    if steps.len() == 0 {
        let net = initial(registry);
        let none = Seq::<MessageView>::empty();
        assert(none.filter(sent_by(from)) =~= none) by {
            none.lemma_filter_len(sent_by(from));
        }
        assert(none.filter(goes_to(to)) =~= none) by {
            none.lemma_filter_len(goes_to(to));
        }
        assert(stamp_all(none, from) =~= none);
        assert(none + (none + none) =~= none);
    } else {
        let before = after(registry, steps.drop_last());
        lemma_runs_conserve(registry, steps.drop_last(), from, to);
        lemma_step_conserves(before, steps.last(), from, to);
        lemma_step_stamps(before, steps.last());
    }
}

/// Stamping. Whatever the run, every message that a worker has taken was for its world
/// and bears the stamp of a registered world, and that world did send it: it is
/// among what that world sent to this one, with the payload it was sent with.
pub proof fn law_taken_messages_bear_their_sender(
    registry: Seq<WorldIdentifier>,
    steps: Seq<Step>,
    to: WorldIdentifier,
    i: int,
)
    requires
        possible(registry, steps),
        registry.contains(to),
        0 <= i < after(registry, steps).received[to].len(),
    ensures
        ({
            let net = after(registry, steps);
            let m = net.received[to][i];
            &&& m.receiver == to
            &&& m.sender is Some
            &&& registry.contains(m.sender->0)
            &&& sent_between(net, m.sender->0, to).contains(m)
            &&& exists|k: int|
                0 <= k < net.sent[m.sender->0].len() && m == stamped(
                    #[trigger] net.sent[m.sender->0][k],
                    m.sender->0,
                )
        }),
{
    let net = after(registry, steps);
    let m = net.received[to][i];
    lemma_runs_conserve(registry, steps, to, to);
    let from = m.sender->0;
    lemma_runs_conserve(registry, steps, from, to);
    let taken = received_between(net, from, to);
    assert(sent_by(from)(m));
    net.received[to].lemma_filter_contains(sent_by(from), i);
    assert(taken.contains(m));
    let at = choose|at: int| 0 <= at < taken.len() && taken[at] == m;
    let all = sent_between(net, from, to);
    let chosen = net.sent[from].filter(goes_to(to));
    assert(all == taken + in_flight(net, from, to));
    assert(all.len() == chosen.len());
    assert(all[at] == m);
    assert(all[at] == stamped(chosen[at], from));
    assert(chosen.contains(chosen[at]));
    net.sent[from].lemma_filter_contains_rev(goes_to(to), chosen[at]);
    let k = choose|k: int| 0 <= k < net.sent[from].len() && net.sent[from][k] == chosen[at];
    assert(m == stamped(net.sent[from][k], from));
}

/// First in, first out. Whatever the run, what the worker of a registered world has
/// taken from one sender is the beginning of what that sender has sent to it: the same
/// messages, in the order in which they were sent, none missing in between and none
/// twice.
pub proof fn law_messages_arrive_in_order(
    registry: Seq<WorldIdentifier>,
    steps: Seq<Step>,
    from: WorldIdentifier,
    to: WorldIdentifier,
)
    requires
        possible(registry, steps),
        registry.contains(to),
    ensures
        received_between(after(registry, steps), from, to).is_prefix_of(
            sent_between(after(registry, steps), from, to),
        ),
{
    lemma_runs_conserve(registry, steps, from, to);
    let net = after(registry, steps);
    let taken = received_between(net, from, to);
    let all = sent_between(net, from, to);
    assert(all.subrange(0, taken.len() as int) =~= taken);
}

/// Delivery. Once nothing is on its way from one world to a registered world, the
/// worker there has taken every message that the first has sent to it, once each and
/// in order, each with the sender's stamp.
pub proof fn law_all_messages_arrive(
    registry: Seq<WorldIdentifier>,
    steps: Seq<Step>,
    from: WorldIdentifier,
    to: WorldIdentifier,
)
    requires
        possible(registry, steps),
        registry.contains(to),
        in_flight(after(registry, steps), from, to).len() == 0,
    ensures
        received_between(after(registry, steps), from, to) == sent_between(
            after(registry, steps),
            from,
            to,
        ),
        forall|i: int|
            0 <= i < sent_between(after(registry, steps), from, to).len() ==> (
            #[trigger] sent_between(after(registry, steps), from, to)[i]).sender == Some(from),
{
    lemma_runs_conserve(registry, steps, from, to);
    let net = after(registry, steps);
    assert(received_between(net, from, to) + in_flight(net, from, to) =~= received_between(
        net,
        from,
        to,
    ));
}

/// `steps`, and then `count` turns of the router on the queue of world `from`.
pub open spec fn then_route(steps: Seq<Step>, from: WorldIdentifier, count: nat) -> Seq<Step>
    decreases count,
{
    if count == 0 {
        steps
    } else {
        then_route(steps, from, (count - 1) as nat).push(Step::Route { from })
    }
}

/// `steps`, and then `count` messages taken by the worker of world `at`.
pub open spec fn then_receive(steps: Seq<Step>, at: WorldIdentifier, count: nat) -> Seq<Step>
    decreases count,
{
    if count == 0 {
        steps
    } else {
        then_receive(steps, at, (count - 1) as nat).push(Step::Receive { at })
    }
}

/// The router can take as many turns on a queue as the queue holds messages; each
/// takes the first message off.
proof fn lemma_then_route(
    registry: Seq<WorldIdentifier>,
    steps: Seq<Step>,
    from: WorldIdentifier,
    count: nat,
)
    requires
        possible(registry, steps),
        registry.contains(from),
        count <= after(registry, steps).outbound[from].len(),
    ensures
        possible(registry, then_route(steps, from, count)),
        after(registry, then_route(steps, from, count)).registry == registry,
        after(registry, then_route(steps, from, count)).outbound[from] == after(
            registry,
            steps,
        ).outbound[from].skip(count as int),
        after(registry, then_route(steps, from, count)).sent == after(registry, steps).sent,
        after(registry, then_route(steps, from, count)).received == after(
            registry,
            steps,
        ).received,
    decreases count,
{
    let start = after(registry, steps);
    if count == 0 {
        lemma_runs_conserve(registry, steps, from, from);
        assert(start.outbound[from].skip(0) =~= start.outbound[from]);
    } else {
        let earlier = then_route(steps, from, (count - 1) as nat);
        lemma_then_route(registry, steps, from, (count - 1) as nat);
        let net = after(registry, earlier);
        let longer = then_route(steps, from, count);
        assert(longer.drop_last() =~= earlier);
        assert(longer.last() == Step::Route { from });
        assert(net.outbound[from].len() > 0);
        assert(net.outbound[from].drop_first() =~= start.outbound[from].skip(count as int));
    }
}

/// A worker can take as many messages as were delivered to it; each step takes the
/// first one, and nothing that waits to be forwarded is touched.
proof fn lemma_then_receive(
    registry: Seq<WorldIdentifier>,
    steps: Seq<Step>,
    at: WorldIdentifier,
    count: nat,
)
    requires
        possible(registry, steps),
        registry.contains(at),
        count <= after(registry, steps).inbound[at].len(),
    ensures
        possible(registry, then_receive(steps, at, count)),
        after(registry, then_receive(steps, at, count)).registry == registry,
        after(registry, then_receive(steps, at, count)).inbound[at] == after(
            registry,
            steps,
        ).inbound[at].skip(count as int),
        after(registry, then_receive(steps, at, count)).outbound == after(
            registry,
            steps,
        ).outbound,
        after(registry, then_receive(steps, at, count)).sent == after(registry, steps).sent,
    decreases count,
{
    let start = after(registry, steps);
    if count == 0 {
        lemma_runs_conserve(registry, steps, at, at);
        assert(start.inbound[at].skip(0) =~= start.inbound[at]);
    } else {
        let earlier = then_receive(steps, at, (count - 1) as nat);
        lemma_then_receive(registry, steps, at, (count - 1) as nat);
        let net = after(registry, earlier);
        let longer = then_receive(steps, at, count);
        assert(longer.drop_last() =~= earlier);
        assert(longer.last() == Step::Receive { at });
        assert(net.inbound[at].len() > 0);
        assert(net.inbound[at].drop_first() =~= start.inbound[at].skip(count as int));
    }
}

/// Nothing gets stuck. From wherever a run has come, let the router take its turns on
/// the sender's queue until it is empty, and let the receiver's worker then take what
/// was delivered: these steps are possible, and after them the worker has taken
/// every message that the sender had sent to it, in order and with the sender's stamp.
///
/// That the router and the worker do take their turns is for the threads that run
/// them; this says that nothing on the way can keep a message from arriving.
pub proof fn law_sent_messages_can_arrive(
    registry: Seq<WorldIdentifier>,
    steps: Seq<Step>,
    from: WorldIdentifier,
    to: WorldIdentifier,
)
    requires
        possible(registry, steps),
        registry.contains(from),
        registry.contains(to),
    ensures
        ({
            let net = after(registry, steps);
            let forwarded = then_route(steps, from, net.outbound[from].len());
            let delivered = after(registry, forwarded).inbound[to].len();
            let done = then_receive(forwarded, to, delivered);
            &&& possible(registry, done)
            &&& received_between(after(registry, done), from, to) == sent_between(net, from, to)
        }),
{
    let net = after(registry, steps);
    let forwarded = then_route(steps, from, net.outbound[from].len());
    lemma_then_route(registry, steps, from, net.outbound[from].len());
    let mid = after(registry, forwarded);
    let done = then_receive(forwarded, to, mid.inbound[to].len());
    lemma_then_receive(registry, forwarded, to, mid.inbound[to].len());
    let end = after(registry, done);
    let none = Seq::<MessageView>::empty();
    assert(end.outbound[from] =~= none);
    assert(end.inbound[to] =~= none);
    assert(none.filter(sent_by(from)) =~= none) by {
        none.lemma_filter_len(sent_by(from));
    }
    assert(none.filter(goes_to(to)) =~= none) by {
        none.lemma_filter_len(goes_to(to));
    }
    assert(stamp_all(none, from) =~= none);
    assert(in_flight(end, from, to) =~= none);
    law_all_messages_arrive(registry, done, from, to);
}

} // verus!
