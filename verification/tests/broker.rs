use payment_gateway::amqp::broker::{AckError, BrokerModel, Envelope, Message, PublishError};
use payment_gateway::amqp::payment::{
    decide_acknowledgment, process_payment_message, AckDecision,
};
use payment_gateway::amqp::schema::PaymentMessage;
use payment_gateway::amqp::topology::{ExchangeName, QueueName};

fn configured_broker() -> BrokerModel {
    let mut broker = BrokerModel::new();
    broker.declare_topology().expect("declaration must succeed");
    broker
}

fn payment_event(payload: &[u8]) -> Message {
    Message {
        routing_key: String::new(),
        payload: payload.to_vec(),
    }
}

#[test]
fn publishing_to_a_missing_exchange_is_refused() {
    let mut broker = BrokerModel::new();
    let r = broker.publish(ExchangeName::Payments, payment_event(b"{}"));
    assert_eq!(r, Err(PublishError::ExchangeNotFound));
}

#[test]
fn a_published_message_reaches_the_bound_queue() {
    let mut broker = configured_broker();
    broker
        .publish(ExchangeName::Payments, payment_event(b"event"))
        .unwrap();
    let q = broker.payments_queue.as_ref().unwrap();
    assert_eq!(q.ready.len(), 1);
    assert_eq!(q.ready[0].payload, b"event".to_vec());
    assert!(broker.dead_letter_queue.as_ref().unwrap().ready.is_empty());
}

#[test]
fn delivering_from_an_empty_queue_yields_nothing() {
    let mut broker = configured_broker();
    assert!(broker.deliver(QueueName::Payments).is_none());
}

#[test]
fn delivery_moves_the_message_to_the_outstanding_set() {
    let mut broker = configured_broker();
    broker
        .publish(ExchangeName::Payments, payment_event(b"event"))
        .unwrap();
    let envelope = broker.deliver(QueueName::Payments).unwrap();
    assert_eq!(envelope.queue, QueueName::Payments);
    assert_eq!(envelope.payload, b"event".to_vec());
    let q = broker.payments_queue.as_ref().unwrap();
    assert!(q.ready.is_empty());
    assert_eq!(q.unacked.len(), 1);
    assert_eq!(q.unacked[0].0, envelope.delivery_tag);
}

#[test]
fn acknowledging_settles_the_delivery_and_dead_letters_nothing() {
    let mut broker = configured_broker();
    broker
        .publish(ExchangeName::Payments, payment_event(b"good"))
        .unwrap();
    let envelope = broker.deliver(QueueName::Payments).unwrap();
    broker.ack(envelope).unwrap();
    let q = broker.payments_queue.as_ref().unwrap();
    assert!(q.ready.is_empty());
    assert!(q.unacked.is_empty());
    assert!(broker.dead_letter_queue.as_ref().unwrap().ready.is_empty());
}

#[test]
fn acknowledging_an_unknown_tag_is_refused() {
    let mut broker = configured_broker();
    let stray = Envelope {
        queue: QueueName::Payments,
        delivery_tag: 99,
        routing_key: String::new(),
        payload: Vec::new(),
    };
    assert_eq!(broker.ack(stray), Err(AckError::UnknownDeliveryTag));
}

#[test]
fn nack_without_requeue_routes_to_the_dead_letter_queue() {
    let mut broker = configured_broker();
    broker
        .publish(ExchangeName::Payments, payment_event(b"poison"))
        .unwrap();
    let envelope = broker.deliver(QueueName::Payments).unwrap();
    broker.nack(envelope, false).unwrap();
    let q = broker.payments_queue.as_ref().unwrap();
    assert!(q.ready.is_empty());
    assert!(q.unacked.is_empty());
    let d = broker.dead_letter_queue.as_ref().unwrap();
    assert_eq!(d.ready.len(), 1);
    assert_eq!(d.ready[0].payload, b"poison".to_vec());
}

#[test]
fn nack_with_requeue_returns_the_message_to_its_queue() {
    let mut broker = configured_broker();
    broker
        .publish(ExchangeName::Payments, payment_event(b"again"))
        .unwrap();
    let envelope = broker.deliver(QueueName::Payments).unwrap();
    broker.nack(envelope, true).unwrap();
    let q = broker.payments_queue.as_ref().unwrap();
    assert_eq!(q.ready.len(), 1);
    assert_eq!(q.ready[0].payload, b"again".to_vec());
    assert!(broker.dead_letter_queue.as_ref().unwrap().ready.is_empty());
}

#[test]
fn nack_on_a_queue_without_dead_letter_path_drops_the_message() {
    let mut broker = configured_broker();
    // Feed the dead-letter queue, whose own dead-letter path is empty.
    broker
        .publish(ExchangeName::PaymentsDeadLetter, payment_event(b"settled"))
        .unwrap();
    let envelope = broker.deliver(QueueName::PaymentsDeadLetter).unwrap();
    broker.nack(envelope, false).unwrap();
    let d = broker.dead_letter_queue.as_ref().unwrap();
    assert!(d.ready.is_empty());
    assert!(d.unacked.is_empty());
}

#[test]
fn successful_widget_event_is_acked_and_never_dead_lettered() {
    let mut broker = configured_broker();
    broker
        .publish(ExchangeName::Payments, payment_event(b"widget"))
        .unwrap();
    let envelope = broker.deliver(QueueName::Payments).unwrap();
    let decoded = Some(PaymentMessage {
        name: "Widget".to_string(),
        description: None,
        price_bits: Some(9.99f64.to_bits()),
        user_id: Some(
            uuid::Uuid::parse_str("6f2b29cc-2f35-45a9-b2ea-5bd02e208c0d")
                .unwrap()
                .as_u128(),
        ),
        category_id: Some(
            uuid::Uuid::parse_str("c1f0aa30-8b5e-4d4e-9f89-7a1717a40095")
                .unwrap()
                .as_u128(),
        ),
    });
    let verdict = process_payment_message(decoded, true);
    let decision = decide_acknowledgment(&verdict);
    assert_eq!(decision, AckDecision::Ack);
    broker.settle_delivery(envelope, decision).unwrap();
    let q = broker.payments_queue.as_ref().unwrap();
    assert!(q.ready.is_empty());
    assert!(q.unacked.is_empty());
    assert!(broker.dead_letter_queue.as_ref().unwrap().ready.is_empty());
}

#[test]
fn rejected_bad_event_lands_on_the_dead_letter_queue() {
    let mut broker = configured_broker();
    broker
        .publish(ExchangeName::Payments, payment_event(b"bad"))
        .unwrap();
    let envelope = broker.deliver(QueueName::Payments).unwrap();
    // Payload `{"name":"Bad"}`: the request decodes, the price is simply
    // absent, and the capability then reports a failure.
    let decoded = Some(PaymentMessage {
        name: "Bad".to_string(),
        description: None,
        price_bits: None,
        user_id: None,
        category_id: None,
    });
    let verdict = process_payment_message(decoded, false);
    let decision = decide_acknowledgment(&verdict);
    assert_eq!(decision, AckDecision::Nack { requeue: false });
    broker.settle_delivery(envelope, decision).unwrap();
    let d = broker.dead_letter_queue.as_ref().unwrap();
    assert_eq!(d.ready.len(), 1);
    assert_eq!(d.ready[0].payload, b"bad".to_vec());
    assert!(broker.payments_queue.as_ref().unwrap().unacked.is_empty());
}

#[test]
fn malformed_payload_is_nacked_and_dead_lettered_without_reaching_the_capability() {
    let mut broker = configured_broker();
    broker
        .publish(ExchangeName::Payments, payment_event(b"not json"))
        .unwrap();
    let envelope = broker.deliver(QueueName::Payments).unwrap();
    let verdict = process_payment_message(None, true);
    let decision = decide_acknowledgment(&verdict);
    assert_eq!(decision, AckDecision::Nack { requeue: false });
    broker.settle_delivery(envelope, decision).unwrap();
    let d = broker.dead_letter_queue.as_ref().unwrap();
    assert_eq!(d.ready.len(), 1);
    assert_eq!(d.ready[0].payload, b"not json".to_vec());
}
