use world_exchange::bundle::Bundle;
use world_exchange::channel::{SendTo, WorldChannel};
use world_exchange::error::{ExecError, TryRecvError, TrySendError};
use world_exchange::exchange::{RouteOutcome, Router, WorldExchange};
use world_exchange::identity::WorldIdentifier;
use world_exchange::message::{Payload, WorldMessage};
use world_exchange::transfer::{copy_component, insert_component, spawn_bundle, spawn_into};
use world_exchange::value::Value;

const X: u64 = 1;
const ORDER: u64 = 2;

fn world(id: u64) -> WorldIdentifier {
    WorldIdentifier::new(id)
}

fn three_worlds() -> (Router, WorldChannel, WorldChannel, WorldChannel) {
    let mut exchange = WorldExchange::new();
    let a = exchange.create_channel(world(1));
    let b = exchange.create_channel(world(2));
    let c = exchange.create_channel(world(3));
    (exchange.spawn(), a, b, c)
}

fn entity_ids(world: &hecs::World) -> Vec<u64> {
    world.iter().map(|found| found.entity().to_bits().get()).collect()
}

fn numbered(destination: WorldIdentifier, number: i64) -> WorldMessage {
    WorldMessage::to(destination, spawn_bundle(Bundle::single(ORDER, Value::Number(number))))
}

fn number_of(message: WorldMessage) -> i64 {
    match message.message() {
        Payload::Spawn { bundle } => match bundle.get(ORDER) {
            Some(Value::Number(number)) => number,
            other => panic!("no number in the bundle: {:?}", other),
        },
        other => panic!("not a spawn: {:?}", other),
    }
}

#[test]
fn basic_routing_delivers_with_source_and_spawns() {
    let (router, a, b, c) = three_worlds();
    a.send(WorldMessage::to(world(2), spawn_bundle(Bundle::single(X, Value::Number(42))))).unwrap();

    match router.step() {
        RouteOutcome::Delivered { source, destination } => {
            assert_eq!(source, world(1));
            assert_eq!(destination, world(2));
        }
        other => panic!("not delivered: {:?}", other),
    }

    assert_eq!(c.try_recv().err(), Some(TryRecvError::Empty));
    assert_eq!(a.try_recv().err(), Some(TryRecvError::Empty));
    let message = b.try_recv().unwrap();
    assert_eq!(message.source(), Some(world(1)));
    assert_eq!(message.sender(), world(1));
    assert_eq!(message.receiver(), world(2));

    let mut world_b = hecs::World::new();
    assert_eq!(message.message().run(&mut world_b, &b), Ok(()));
    let ids = entity_ids(&world_b);
    assert_eq!(ids.len(), 1);
    assert_eq!(copy_component(&mut world_b, ids[0], X), Ok(Value::Number(42)));
    assert_eq!(b.try_recv().err(), Some(TryRecvError::Empty));
}

#[test]
fn unregistered_destination_is_a_routing_failure() {
    let (router, a, b, c) = three_worlds();
    a.send(WorldMessage::to(world(9), spawn_bundle(Bundle::single(X, Value::Number(7))))).unwrap();

    match router.step() {
        RouteOutcome::Unroutable { failure } => {
            assert_eq!(failure.message.source(), Some(world(1)));
            assert_eq!(failure.message.receiver(), world(9));
            match failure.message.message() {
                Payload::Spawn { bundle } => assert_eq!(bundle.get(X), Some(Value::Number(7))),
                other => panic!("payload changed: {:?}", other),
            }
        }
        other => panic!("not a routing failure: {:?}", other),
    }
    assert_eq!(a.try_recv().err(), Some(TryRecvError::Empty));
    assert_eq!(b.try_recv().err(), Some(TryRecvError::Empty));
    assert_eq!(c.try_recv().err(), Some(TryRecvError::Empty));

    // The router goes on with the next message.
    a.send(numbered(world(3), 1)).unwrap();
    assert!(matches!(router.step(), RouteOutcome::Delivered { .. }));
    assert_eq!(number_of(c.try_recv().unwrap()), 1);
}

#[test]
fn router_lookup_and_route_follow_the_registry() {
    let (router, _a, _b, _c) = three_worlds();
    assert_eq!(router.len(), 3);
    assert_eq!(router.lookup(world(1)), Some(0));
    assert_eq!(router.lookup(world(2)), Some(1));
    assert_eq!(router.lookup(world(3)), Some(2));
    assert_eq!(router.lookup(world(4)), None);

    let (to, out) = router.route(2, numbered(world(1), 5)).unwrap();
    assert_eq!(to, 0);
    assert_eq!(out.source(), Some(world(3)));
    assert_eq!(out.receiver(), world(1));
    assert_eq!(number_of(out), 5);

    let failure = router.route(1, numbered(world(8), 6)).unwrap_err();
    assert_eq!(failure.message.source(), Some(world(2)));
    assert_eq!(failure.message.receiver(), world(8));
}

#[test]
fn forward_puts_the_message_on_the_destination_only() {
    let (router, a, b, c) = three_worlds();
    match router.forward(0, numbered(world(3), 11)) {
        RouteOutcome::Delivered { source, destination } => {
            assert_eq!(source, world(1));
            assert_eq!(destination, world(3));
        }
        other => panic!("not delivered: {:?}", other),
    }
    assert_eq!(a.try_recv().err(), Some(TryRecvError::Empty));
    assert_eq!(b.try_recv().err(), Some(TryRecvError::Empty));
    let message = c.try_recv().unwrap();
    assert_eq!(message.source(), Some(world(1)));
    assert_eq!(number_of(message), 11);
}

#[test]
fn a_world_can_send_to_itself() {
    let (router, a, _b, _c) = three_worlds();
    a.send(numbered(world(1), 3)).unwrap();
    assert!(matches!(router.step(), RouteOutcome::Delivered { .. }));
    let message = a.recv().unwrap();
    assert_eq!(message.source(), Some(world(1)));
    assert_eq!(message.receiver(), world(1));
}

#[test]
fn messages_of_one_sender_keep_their_order() {
    let (router, a, b, _c) = three_worlds();
    for number in 0..50 {
        a.send(numbered(world(2), number)).unwrap();
    }
    for _ in 0..50 {
        assert!(matches!(router.step(), RouteOutcome::Delivered { .. }));
    }
    for number in 0..50 {
        let message = b.try_recv().unwrap();
        assert_eq!(message.source(), Some(world(1)));
        assert_eq!(number_of(message), number);
    }
    assert_eq!(b.try_recv().err(), Some(TryRecvError::Empty));
}

#[test]
fn interleaved_senders_arrive_once_and_in_order() {
    let (router, a, b, c) = three_worlds();
    // The two senders and the router take turns in an irregular pattern.
    let mut sent_by_a = 0;
    let mut sent_by_c = 0;
    let mut routed = 0;
    let mut turn: u64 = 12345;
    while routed < 200 {
        turn = turn.wrapping_mul(6364136223846793005).wrapping_add(1442695040888963407);
        match (turn >> 33) % 3 {
            0 if sent_by_a < 100 => {
                a.send(numbered(world(2), sent_by_a)).unwrap();
                sent_by_a += 1;
            }
            1 if sent_by_c < 100 => {
                c.send(numbered(world(2), 1000 + sent_by_c)).unwrap();
                sent_by_c += 1;
            }
            _ if routed < sent_by_a + sent_by_c => {
                match router.step() {
                    RouteOutcome::Delivered { destination, .. } => assert_eq!(destination, world(2)),
                    other => panic!("not delivered: {:?}", other),
                }
                routed += 1;
            }
            _ => {}
        }
    }

    let mut next_from_a = 0;
    let mut next_from_c = 1000;
    for _ in 0..200 {
        let message = b.try_recv().unwrap();
        let source = message.sender();
        let number = number_of(message);
        if source == world(1) {
            assert_eq!(number, next_from_a);
            next_from_a += 1;
        } else {
            assert_eq!(source, world(3));
            assert_eq!(number, next_from_c);
            next_from_c += 1;
        }
    }
    assert_eq!(next_from_a, 100);
    assert_eq!(next_from_c, 1100);
    assert_eq!(b.try_recv().err(), Some(TryRecvError::Empty));
}

#[test]
fn concurrent_senders_arrive_once_and_in_order() {
    let (router, a, b, c) = three_worlds();
    crossbeam_utils::thread::scope(|scope| {
        scope.spawn(|_| {
            for number in 0..100 {
                a.send(numbered(world(2), number)).unwrap();
            }
        });
        scope.spawn(|_| {
            for number in 0..100 {
                c.send(numbered(world(2), 1000 + number)).unwrap();
            }
        });
        for _ in 0..200 {
            match router.step() {
                RouteOutcome::Delivered { destination, .. } => assert_eq!(destination, world(2)),
                other => panic!("not delivered: {:?}", other),
            }
        }
    })
    .unwrap();

    let mut next_from_a = 0;
    let mut next_from_c = 1000;
    for _ in 0..200 {
        let message = b.try_recv().unwrap();
        let source = message.sender();
        let number = number_of(message);
        if source == world(1) {
            assert_eq!(number, next_from_a);
            next_from_a += 1;
        } else {
            assert_eq!(source, world(3));
            assert_eq!(number, next_from_c);
            next_from_c += 1;
        }
    }
    assert_eq!(next_from_a, 100);
    assert_eq!(next_from_c, 1100);
    assert_eq!(b.try_recv().err(), Some(TryRecvError::Empty));
    assert_eq!(a.try_recv().err(), Some(TryRecvError::Empty));
    assert_eq!(c.try_recv().err(), Some(TryRecvError::Empty));
}

#[test]
fn reply_goes_back_to_the_sender() {
    let (router, a, b, c) = three_worlds();
    a.send(numbered(world(2), 1)).unwrap();
    assert!(matches!(router.step(), RouteOutcome::Delivered { .. }));
    let request = b.recv().unwrap();

    let answer = request.reply(spawn_bundle(Bundle::single(X, Value::Flag(true)))).unwrap();
    assert_eq!(answer.source(), None);
    assert_eq!(answer.receiver(), world(1));
    b.send(answer).unwrap();
    match router.step() {
        RouteOutcome::Delivered { source, destination } => {
            assert_eq!(source, world(2));
            assert_eq!(destination, world(1));
        }
        other => panic!("not delivered: {:?}", other),
    }
    let back = a.recv().unwrap();
    assert_eq!(back.sender(), world(2));
    assert_eq!(c.try_recv().err(), Some(TryRecvError::Empty));

    // A chain of replies keeps going back and forth between the two.
    let again = back.reply(spawn_bundle(Bundle::new())).unwrap();
    assert_eq!(again.receiver(), world(2));
}

#[test]
fn reply_to_an_undelivered_message_fails() {
    let fresh = numbered(world(2), 1);
    assert_eq!(fresh.source(), None);
    match fresh.reply(spawn_bundle(Bundle::new())) {
        Err(error) => assert_eq!(error, ExecError::NotDelivered),
        Ok(message) => panic!("a reply was made: {:?}", message),
    }
}

#[test]
fn exchange_registers_each_world_once() {
    let mut exchange = WorldExchange::default();
    assert!(!exchange.is_registered(world(1)));
    let _a = exchange.create_channel(world(1));
    assert!(exchange.is_registered(world(1)));
    assert!(!exchange.is_registered(world(2)));
    let _b = exchange.create_channel(world(2));
    assert!(exchange.is_registered(world(2)));
    let router = exchange.spawn();
    assert_eq!(router.len(), 2);
    assert_eq!(router.lookup(world(2)), Some(1));
}

#[test]
fn router_without_worlds_is_idle() {
    let router = WorldExchange::new().spawn();
    assert_eq!(router.len(), 0);
    assert!(matches!(router.step(), RouteOutcome::Idle));
}

#[test]
fn a_world_that_left_shows_as_closed() {
    let mut exchange = WorldExchange::new();
    let a = exchange.create_channel(world(1));
    let router = exchange.spawn();
    drop(a);
    match router.step() {
        RouteOutcome::Closed { source } => assert_eq!(source, world(1)),
        other => panic!("not closed: {:?}", other),
    }
}

#[test]
fn a_message_for_a_world_that_left_comes_back() {
    let (router, a, b, _c) = three_worlds();
    drop(b);
    match router.forward(0, numbered(world(2), 21)) {
        RouteOutcome::Undeliverable { source, destination, message } => {
            assert_eq!(source, world(1));
            assert_eq!(destination, world(2));
            assert_eq!(message.source(), Some(world(1)));
            assert_eq!(number_of(message), 21);
        }
        other => panic!("not undeliverable: {:?}", other),
    }
    assert_eq!(a.try_recv().err(), Some(TryRecvError::Empty));
}

#[test]
fn send_hands_the_message_back_when_the_exchange_is_gone() {
    let (router, a, _b, _c) = three_worlds();
    drop(router);
    let error = a.send(numbered(world(2), 33)).unwrap_err();
    assert_eq!(error.message.receiver(), world(2));
    assert_eq!(number_of(error.message), 33);
    match a.try_send(numbered(world(2), 34)) {
        Err(TrySendError::Disconnected(message)) => assert_eq!(number_of(message), 34),
        other => panic!("not disconnected: {:?}", other),
    }
    assert!(a.recv().is_err());
    assert_eq!(a.try_recv().err(), Some(TryRecvError::Disconnected));
    let error = a.send_to(world(3), spawn_bundle(Bundle::new())).unwrap_err();
    assert_eq!(error.message.receiver(), world(3));
    assert!(matches!(
        a.try_send_to(world(3), spawn_bundle(Bundle::new())),
        Err(TrySendError::Disconnected(_))
    ));
}

#[test]
fn send_to_addresses_the_message() {
    let (router, a, _b, c) = three_worlds();
    a.send_to(world(3), spawn_bundle(Bundle::single(X, Value::Number(1)))).unwrap();
    a.try_send_to(world(3), insert_component(5, Bundle::single(X, Value::Number(2)))).unwrap();
    a.try_send(numbered(world(3), 3)).unwrap();
    for _ in 0..3 {
        assert!(matches!(router.step(), RouteOutcome::Delivered { .. }));
    }
    assert!(matches!(c.recv().unwrap().message(), Payload::Spawn { .. }));
    match c.recv().unwrap().message() {
        Payload::Insert { entity, bundle } => {
            assert_eq!(entity, 5);
            assert_eq!(bundle.get(X), Some(Value::Number(2)));
        }
        other => panic!("not an insert: {:?}", other),
    }
    assert_eq!(number_of(c.recv().unwrap()), 3);
}

#[test]
fn channel_ends_are_crossed() {
    let (left, right) = WorldChannel::pair();
    left.send(numbered(world(1), 1)).unwrap();
    right.send(numbered(world(1), 2)).unwrap();
    assert_eq!(number_of(right.recv().unwrap()), 1);
    assert_eq!(number_of(left.recv().unwrap()), 2);
    left.tx().send(numbered(world(1), 3)).unwrap();
    assert_eq!(number_of(right.rx().recv().unwrap()), 3);
    right.tx().send(numbered(world(1), 4)).unwrap();
    assert_eq!(number_of(left.recv().unwrap()), 4);
    left.send(numbered(world(1), 5)).unwrap();
    assert_eq!(number_of(right.rx().try_recv().unwrap()), 5);
    assert!(left.rx().try_recv().is_err());
}

#[test]
fn spawned_entities_are_distinct() {
    let mut world = hecs::World::new();
    let first = spawn_into(&mut world, Bundle::single(X, Value::Number(1))).unwrap();
    let second = spawn_into(&mut world, Bundle::single(X, Value::Number(2))).unwrap();
    assert_ne!(first, second);
    assert_eq!(copy_component(&mut world, first, X), Ok(Value::Number(1)));
    assert_eq!(copy_component(&mut world, second, X), Ok(Value::Number(2)));
}
