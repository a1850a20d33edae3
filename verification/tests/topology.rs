use payment_gateway::amqp::broker::{BrokerModel, DeclarationError, ExchangeRecord};
use payment_gateway::amqp::topology::{
    dead_letter_argument_key, declare_topology_plan, setup_dead_letter_exchange,
    setup_payments_exchange, setup_payments_queue, ExchangeKind, ExchangeName, QueueName,
    TopologyStep,
};

#[test]
fn the_consumer_identity_and_prefetch_limit_are_fixed() {
    assert_eq!(
        payment_gateway::amqp::config::consumer_identity(),
        "consumer"
    );
    assert_eq!(payment_gateway::amqp::config::consumer_prefetch_limit(), 1);
}

#[test]
fn wire_names_match_the_broker_protocol() {
    assert_eq!(ExchangeName::Payments.wire_name(), "payments.exchange");
    assert_eq!(
        ExchangeName::PaymentsDeadLetter.wire_name(),
        "payments-dead-letter.exchange"
    );
    assert_eq!(QueueName::Payments.wire_name(), "payments.queue");
    assert_eq!(
        QueueName::PaymentsDeadLetter.wire_name(),
        "payments-dead-letter.queue"
    );
    assert_eq!(dead_letter_argument_key(), "x-dead-letter-exchange");
}

#[test]
fn the_plan_declares_the_whole_topology_in_order() {
    let plan = declare_topology_plan();
    assert_eq!(plan.len(), 6);
    match &plan[0] {
        TopologyStep::DeclareExchange(e) => {
            assert_eq!(e.name, ExchangeName::PaymentsDeadLetter);
            assert_eq!(e.kind, ExchangeKind::Direct);
            assert!(e.durable);
        }
        other => panic!("unexpected first step: {:?}", other),
    }
    match &plan[1] {
        TopologyStep::DeclareQueue(q) => {
            assert_eq!(q.name, QueueName::PaymentsDeadLetter);
            assert!(q.durable);
            assert!(q.dead_letter_exchange.is_none());
        }
        other => panic!("unexpected second step: {:?}", other),
    }
    match &plan[2] {
        TopologyStep::BindQueue(b) => {
            assert_eq!(b.exchange, ExchangeName::PaymentsDeadLetter);
            assert_eq!(b.queue, QueueName::PaymentsDeadLetter);
            assert_eq!(b.routing_key, "");
        }
        other => panic!("unexpected third step: {:?}", other),
    }
    match &plan[3] {
        TopologyStep::DeclareExchange(e) => {
            assert_eq!(e.name, ExchangeName::Payments);
            assert_eq!(e.kind, ExchangeKind::Direct);
            assert!(e.durable);
        }
        other => panic!("unexpected fourth step: {:?}", other),
    }
    match &plan[4] {
        TopologyStep::DeclareQueue(q) => {
            assert_eq!(q.name, QueueName::Payments);
            assert!(q.durable);
            assert_eq!(
                q.dead_letter_exchange,
                Some(ExchangeName::PaymentsDeadLetter)
            );
        }
        other => panic!("unexpected fifth step: {:?}", other),
    }
    match &plan[5] {
        TopologyStep::BindQueue(b) => {
            assert_eq!(b.exchange, ExchangeName::Payments);
            assert_eq!(b.queue, QueueName::Payments);
            assert_eq!(b.routing_key, "");
        }
        other => panic!("unexpected sixth step: {:?}", other),
    }
}

#[test]
fn the_plan_is_the_three_setup_halves_in_order() {
    let plan = declare_topology_plan();
    let mut assembled = setup_dead_letter_exchange();
    assembled.extend(setup_payments_exchange());
    assembled.extend(setup_payments_queue());
    assert_eq!(plan.len(), assembled.len());
    for (a, b) in plan.iter().zip(assembled.iter()) {
        assert_eq!(format!("{:?}", a), format!("{:?}", b));
    }
}

#[test]
fn declaring_the_topology_twice_succeeds_and_changes_nothing() {
    let mut broker = BrokerModel::new();
    broker.declare_topology().expect("first run must succeed");
    let exchanges_before = (broker.payments_exchange, broker.dead_letter_exchange);
    let bindings_before = broker.bindings.len();
    let payments_before = format!("{:?}", broker.payments_queue);
    let dead_letter_before = format!("{:?}", broker.dead_letter_queue);

    broker.declare_topology().expect("second run must succeed");
    assert_eq!(
        (broker.payments_exchange, broker.dead_letter_exchange),
        exchanges_before
    );
    assert_eq!(broker.bindings.len(), bindings_before);
    assert_eq!(format!("{:?}", broker.payments_queue), payments_before);
    assert_eq!(format!("{:?}", broker.dead_letter_queue), dead_letter_before);
}

#[test]
fn the_declared_topology_is_durable_and_dead_lettered() {
    let mut broker = BrokerModel::new();
    broker.declare_topology().expect("declaration must succeed");
    assert_eq!(
        broker.payments_exchange,
        Some(ExchangeRecord {
            kind: ExchangeKind::Direct,
            durable: true,
        })
    );
    assert_eq!(
        broker.dead_letter_exchange,
        Some(ExchangeRecord {
            kind: ExchangeKind::Direct,
            durable: true,
        })
    );
    let q = broker.payments_queue.as_ref().unwrap();
    assert!(q.durable);
    assert_eq!(
        q.dead_letter_exchange,
        Some(ExchangeName::PaymentsDeadLetter)
    );
    let d = broker.dead_letter_queue.as_ref().unwrap();
    assert!(d.durable);
    assert!(d.dead_letter_exchange.is_none());
    assert_eq!(broker.bindings.len(), 2);
}

#[test]
fn a_conflicting_exchange_makes_declaration_fail() {
    let mut broker = BrokerModel::new();
    broker
        .declare_exchange(&payment_gateway::amqp::topology::ExchangeDecl {
            name: ExchangeName::PaymentsDeadLetter,
            kind: ExchangeKind::Fanout,
            durable: true,
        })
        .expect("the conflicting declaration itself is fine");
    let r = broker.declare_topology();
    assert_eq!(r, Err(DeclarationError::ExchangeMismatch));
}
