use vstd::prelude::*;

use crate::amqp::schema::PaymentMessage;
use crate::amqp::schema::PaymentMessageView;
use crate::amqp::schema::normalized;
use crate::payments::schema::CreatePaymentSchema;
use crate::payments::schema::CreatePaymentSchemaView;

verus! {

/// Why one delivery failed processing. Both ways end in a negative
/// acknowledgment without requeue, so the broker reroutes the message to
/// the dead-letter path instead of redelivering it.
#[derive(Debug, Clone, Copy, PartialEq, Eq, Structural)]
pub enum ProcessingError {
    /// The payload did not decode into a payment request.
    Malformed,
    /// The domain capability reported a non-success outcome.
    DomainRejected,
}

/// How one delivery is settled: a received envelope ends in exactly one
/// of these two terminal outcomes.
#[derive(Debug, Clone, Copy, PartialEq, Eq, Structural)]
pub enum AckDecision {
    /// Remove the message from the queue for good.
    Ack,
    /// Refuse the message; with `requeue` false the broker reroutes it to
    /// the queue's dead-letter exchange instead of redelivering it.
    Nack { requeue: bool },
}

/// Value of a decode outcome: the decoded request, or `None` for a payload
/// that was not a well-formed request.
pub open spec fn decoded_view(decoded: Option<PaymentMessage>) -> Option<PaymentMessageView> {
    match decoded {
        Some(m) => Some(m@),
        None => None,
    }
}

/// What the processing step makes of a decode outcome: the normalized
/// command for the capability, or `Malformed` for a payload that must
/// never reach it.
pub open spec fn spec_prepare(decoded: Option<PaymentMessageView>) -> Result<
    CreatePaymentSchemaView,
    ProcessingError,
> {
    match decoded {
        Some(m) => Ok(normalized(m)),
        None => Err(ProcessingError::Malformed),
    }
}

/// What the processing step makes of the capability's report.
pub open spec fn spec_interpret(capability_success: bool) -> Result<(), ProcessingError> {
    if capability_success {
        Ok(())
    } else {
        Err(ProcessingError::DomainRejected)
    }
}

/// The verdict of the whole processing step, given the decode outcome and
/// — for a payload that decoded — the capability's report.
pub open spec fn spec_verdict(
    decoded: Option<PaymentMessageView>,
    capability_success: bool,
) -> Result<(), ProcessingError> {
    match decoded {
        Some(_) => spec_interpret(capability_success),
        None => Err(ProcessingError::Malformed),
    }
}

/// How one settled verdict maps to the broker: `Ack` on success, and
/// `Nack` with `requeue` false on every processing error.
pub open spec fn spec_ack_decision(verdict: Result<(), ProcessingError>) -> AckDecision {
    match verdict {
        Ok(_) => AckDecision::Ack,
        Err(_) => AckDecision::Nack { requeue: false },
    }
}

/// Turn a decode outcome into the command the capability is to be invoked
/// with, or into the error of a payload that never reaches it.
pub fn prepare_payment_command(decoded: Option<PaymentMessage>) -> (r: Result<
    CreatePaymentSchema,
    ProcessingError,
>)
    ensures
        r matches Ok(c) ==> (spec_prepare(decoded_view(decoded)) matches Ok(v) && c@ == v),
        r matches Err(e) ==> spec_prepare(decoded_view(decoded)) == Err::<
            CreatePaymentSchemaView,
            ProcessingError,
        >(e),
{
    match decoded {
        Some(m) => Ok(m.normalize()),
        None => Err(ProcessingError::Malformed),
    }
}

/// Read the capability's report: a success report closes the delivery
/// well, any other is a domain rejection.
pub fn interpret_capability_outcome(capability_success: bool) -> (r: Result<(), ProcessingError>)
    ensures
        r == spec_interpret(capability_success),
{
    if capability_success {
        Ok(())
    } else {
        Err(ProcessingError::DomainRejected)
    }
}

/// The decision table of the processing step for one delivery, given the
/// decode outcome and the capability's report. For a payload that did not
/// decode the report is immaterial: the verdict is `Malformed` whatever it
/// says, because the capability is never invoked.
pub fn process_payment_message(decoded: Option<PaymentMessage>, capability_success: bool) -> (r:
    Result<(), ProcessingError>)
    ensures
        r == spec_verdict(decoded_view(decoded), capability_success),
{
    match prepare_payment_command(decoded) {
        Ok(_) => interpret_capability_outcome(capability_success),
        Err(e) => Err(e),
    }
}

/// Decide the acknowledgment owed for a verdict.
pub fn decide_acknowledgment(verdict: &Result<(), ProcessingError>) -> (d: AckDecision)
    ensures
        d == spec_ack_decision(*verdict),
{
    match verdict {
        Ok(_) => AckDecision::Ack,
        Err(_) => AckDecision::Nack { requeue: false },
    }
}

/// A malformed payload is never handed to the domain capability — the
/// processing step yields no command for it — and its verdict, whatever
/// the capability would have reported, is settled by a negative
/// acknowledgment without requeue.
pub proof fn lemma_malformed_isolated(capability_success: bool)
    ensures
        spec_prepare(None) is Err,
        spec_verdict(None, capability_success) == Err::<(), ProcessingError>(
            ProcessingError::Malformed,
        ),
        spec_ack_decision(spec_verdict(None, capability_success)) == (AckDecision::Nack {
            requeue: false,
        }),
{
}

/// A delivery the capability reports as successful is acknowledged, and
/// one it rejects is negatively acknowledged without requeue.
pub proof fn lemma_capability_report_settles(m: PaymentMessageView, capability_success: bool)
    ensures
        capability_success ==> spec_ack_decision(spec_verdict(Some(m), capability_success))
            == AckDecision::Ack,
        !capability_success ==> spec_ack_decision(spec_verdict(Some(m), capability_success))
            == (AckDecision::Nack { requeue: false }),
{
}

} // verus!
