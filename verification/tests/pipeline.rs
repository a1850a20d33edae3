use payment_gateway::amqp::payment::{
    decide_acknowledgment, interpret_capability_outcome, prepare_payment_command,
    process_payment_message, AckDecision, ProcessingError,
};
use payment_gateway::amqp::schema::PaymentMessage;

fn widget_message() -> PaymentMessage {
    PaymentMessage {
        name: "Widget".to_string(),
        description: None,
        price_bits: Some(9.99f64.to_bits()),
        user_id: Some(
            uuid::Uuid::parse_str("6f2b29cc-2f35-45a9-b2ea-5bd02e208c0d")
                .unwrap()
                .as_u128(),
        ),
        category_id: Some(
            uuid::Uuid::parse_str("c1f0aa30-8b5e-4d4e-9f89-7a1717a40095")
                .unwrap()
                .as_u128(),
        ),
    }
}

#[test]
fn normalize_fills_every_missing_field_with_its_type_default() {
    let m = PaymentMessage {
        name: "Bare".to_string(),
        description: None,
        price_bits: None,
        user_id: None,
        category_id: None,
    };
    let c = m.normalize();
    assert_eq!(c.name, "Bare");
    assert_eq!(c.description, "");
    assert_eq!(c.price_bits, 0);
    assert_eq!(f64::from_bits(c.price_bits), 0.0);
    assert_eq!(c.user_id, 0);
    assert_eq!(c.category_id, 0);
    assert_eq!(uuid::Uuid::from_u128(c.user_id), uuid::Uuid::nil());
}

#[test]
fn normalize_keeps_every_present_field() {
    let m = PaymentMessage {
        name: "Full".to_string(),
        description: Some("a widget".to_string()),
        price_bits: Some(12.5f64.to_bits()),
        user_id: Some(7),
        category_id: Some(8),
    };
    let c = m.normalize();
    assert_eq!(c.name, "Full");
    assert_eq!(c.description, "a widget");
    assert_eq!(f64::from_bits(c.price_bits), 12.5);
    assert_eq!(c.user_id, 7);
    assert_eq!(c.category_id, 8);
}

#[test]
fn required_field_only_payload_is_accepted() {
    let m = PaymentMessage {
        name: "OnlyName".to_string(),
        description: None,
        price_bits: None,
        user_id: None,
        category_id: None,
    };
    let r = prepare_payment_command(Some(m));
    let c = r.expect("a request with only the required field must be accepted");
    assert_eq!(c.name, "OnlyName");
    assert_eq!(c.description, "");
}

#[test]
fn widget_without_description_normalizes_to_empty_description() {
    let c = widget_message().normalize();
    assert_eq!(c.description, "");
    assert_eq!(f64::from_bits(c.price_bits), 9.99);
}

#[test]
fn malformed_payload_yields_no_command() {
    let r = prepare_payment_command(None);
    assert!(r.is_err());
    assert_eq!(r.unwrap_err(), ProcessingError::Malformed);
}

#[test]
fn capability_success_reads_as_ok() {
    assert_eq!(interpret_capability_outcome(true), Ok(()));
}

#[test]
fn capability_failure_reads_as_domain_rejection() {
    assert_eq!(
        interpret_capability_outcome(false),
        Err(ProcessingError::DomainRejected)
    );
}

#[test]
fn verdict_table_covers_every_case() {
    assert_eq!(
        process_payment_message(None, true),
        Err(ProcessingError::Malformed)
    );
    assert_eq!(
        process_payment_message(None, false),
        Err(ProcessingError::Malformed)
    );
    assert_eq!(process_payment_message(Some(widget_message()), true), Ok(()));
    assert_eq!(
        process_payment_message(Some(widget_message()), false),
        Err(ProcessingError::DomainRejected)
    );
}

#[test]
fn success_verdict_is_acknowledged() {
    assert_eq!(decide_acknowledgment(&Ok(())), AckDecision::Ack);
}

#[test]
fn malformed_verdict_is_nacked_without_requeue() {
    assert_eq!(
        decide_acknowledgment(&Err(ProcessingError::Malformed)),
        AckDecision::Nack { requeue: false }
    );
}

#[test]
fn rejected_verdict_is_nacked_without_requeue() {
    assert_eq!(
        decide_acknowledgment(&Err(ProcessingError::DomainRejected)),
        AckDecision::Nack { requeue: false }
    );
}
