use vstd::prelude::*;

use crate::amqp::payment::AckDecision;
use crate::amqp::payment::ProcessingError;
use crate::amqp::payment::spec_ack_decision;
use crate::amqp::payment::spec_verdict;
use crate::amqp::schema::PaymentMessageView;
use crate::amqp::topology::BindingDecl;
use crate::amqp::topology::BindingDeclView;
use crate::amqp::topology::ExchangeDecl;
use crate::amqp::topology::ExchangeKind;
use crate::amqp::topology::ExchangeName;
use crate::amqp::topology::QueueDecl;
use crate::amqp::topology::QueueName;
use crate::amqp::topology::TopologyStep;
use crate::amqp::topology::TopologyStepView;
use crate::amqp::topology::dead_letter_binding_view;
use crate::amqp::topology::dead_letter_exchange_decl;
use crate::amqp::topology::dead_letter_queue_decl;
use crate::amqp::topology::declare_topology_plan;
use crate::amqp::topology::gateway_topology_plan;
use crate::amqp::topology::payments_binding_view;
use crate::amqp::topology::payments_exchange_decl;
use crate::amqp::topology::payments_queue_decl;
use crate::amqp::topology::step_views;

verus! {

/// One message as the broker holds it: the routing key it was published
/// under and the opaque payload bytes.
#[derive(Debug, Clone)]
pub struct Message {
    pub routing_key: String,
    pub payload: Vec<u8>,
}

/// Mathematical value of a [`Message`].
#[verifier::ext_equal]
pub ghost struct MessageView {
    pub routing_key: Seq<char>,
    pub payload: Seq<u8>,
}

impl View for Message {
    type V = MessageView;

    open spec fn view(&self) -> MessageView {
        MessageView { routing_key: self.routing_key@, payload: self.payload@ }
    }
}

/// Properties of a declared exchange.
#[derive(Debug, Clone, Copy, PartialEq, Eq, Structural)]
pub struct ExchangeRecord {
    pub kind: ExchangeKind,
    pub durable: bool,
}

/// State of a declared queue: its properties, the messages ready for
/// delivery in order, and the delivered but not yet settled messages,
/// each under its delivery tag.
#[derive(Debug, Clone)]
pub struct QueueRecord {
    pub durable: bool,
    pub dead_letter_exchange: Option<ExchangeName>,
    pub ready: Vec<Message>,
    pub unacked: Vec<(u64, Message)>,
}

/// Mathematical value of a [`QueueRecord`].
#[verifier::ext_equal]
pub ghost struct QueueRecordView {
    pub durable: bool,
    pub dead_letter_exchange: Option<ExchangeName>,
    pub ready: Seq<MessageView>,
    pub unacked: Seq<(u64, MessageView)>,
}

impl View for QueueRecord {
    type V = QueueRecordView;

    open spec fn view(&self) -> QueueRecordView {
        QueueRecordView {
            durable: self.durable,
            dead_letter_exchange: self.dead_letter_exchange,
            ready: self.ready@.map_values(|m: Message| m@),
            unacked: self.unacked@.map_values(|p: (u64, Message)| (p.0, p.1@)),
        }
    }
}

/// An in-memory model of the broker over the namespace the gateway's
/// topology lives in: what each name is declared as, which bindings exist,
/// and what every queue holds. The pipeline's delivery and acknowledgment
/// guarantees are stated and proved against this model.
pub struct BrokerModel {
    pub payments_exchange: Option<ExchangeRecord>,
    pub dead_letter_exchange: Option<ExchangeRecord>,
    pub payments_queue: Option<QueueRecord>,
    pub dead_letter_queue: Option<QueueRecord>,
    pub bindings: Vec<BindingDecl>,
    pub next_delivery_tag: u64,
}

/// Mathematical value of a [`BrokerModel`].
#[verifier::ext_equal]
pub ghost struct BrokerModelView {
    pub payments_exchange: Option<ExchangeRecord>,
    pub dead_letter_exchange: Option<ExchangeRecord>,
    pub payments_queue: Option<QueueRecordView>,
    pub dead_letter_queue: Option<QueueRecordView>,
    pub bindings: Seq<BindingDeclView>,
    pub next_delivery_tag: u64,
}

impl View for BrokerModel {
    type V = BrokerModelView;

    open spec fn view(&self) -> BrokerModelView {
        BrokerModelView {
            payments_exchange: self.payments_exchange,
            dead_letter_exchange: self.dead_letter_exchange,
            payments_queue: match self.payments_queue {
                Some(q) => Some(q@),
                None => None,
            },
            dead_letter_queue: match self.dead_letter_queue {
                Some(q) => Some(q@),
                None => None,
            },
            bindings: self.bindings@.map_values(|b: BindingDecl| b@),
            next_delivery_tag: self.next_delivery_tag,
        }
    }
}

impl BrokerModelView {
    /// The record declared under an exchange name, if any.
    pub open spec fn exchange(self, name: ExchangeName) -> Option<ExchangeRecord> {
        match name {
            ExchangeName::Payments => self.payments_exchange,
            ExchangeName::PaymentsDeadLetter => self.dead_letter_exchange,
        }
    }

    /// The state of the queue declared under a name, if any.
    pub open spec fn queue(self, name: QueueName) -> Option<QueueRecordView> {
        match name {
            QueueName::Payments => self.payments_queue,
            QueueName::PaymentsDeadLetter => self.dead_letter_queue,
        }
    }

    /// This state with the exchange under `name` replaced.
    pub open spec fn with_exchange(self, name: ExchangeName, r: ExchangeRecord) -> BrokerModelView {
        match name {
            ExchangeName::Payments => BrokerModelView { payments_exchange: Some(r), ..self },
            ExchangeName::PaymentsDeadLetter => BrokerModelView {
                dead_letter_exchange: Some(r),
                ..self
            },
        }
    }

    /// This state with the queue under `name` replaced.
    pub open spec fn with_queue(self, name: QueueName, q: QueueRecordView) -> BrokerModelView {
        match name {
            QueueName::Payments => BrokerModelView { payments_queue: Some(q), ..self },
            QueueName::PaymentsDeadLetter => BrokerModelView { dead_letter_queue: Some(q), ..self },
        }
    }

    /// Whether this binding exists.
    pub open spec fn has_binding(self, b: BindingDeclView) -> bool {
        exists|i: int| 0 <= i < self.bindings.len() && self.bindings[i] == b
    }

    /// Whether the exchange routes a message published under `key` to the
    /// queue: direct routing, so exactly when a binding with that routing
    /// key connects the two.
    pub open spec fn routes_to(
        self,
        exchange: ExchangeName,
        key: Seq<char>,
        queue: QueueName,
    ) -> bool {
        self.has_binding(BindingDeclView { exchange, queue, routing_key: key })
    }
}

/// The broker state a fresh model starts from: nothing declared, no
/// bindings, delivery tags starting at one.
pub open spec fn empty_broker() -> BrokerModelView {
    BrokerModelView {
        payments_exchange: None,
        dead_letter_exchange: None,
        payments_queue: None,
        dead_letter_queue: None,
        bindings: Seq::empty(),
        next_delivery_tag: 1u64,
    }
}

/// Why a topology declaration is refused by the broker.
#[derive(Debug, Clone, Copy, PartialEq, Eq, Structural)]
pub enum DeclarationError {
    /// The exchange exists with other properties than the declaration's.
    ExchangeMismatch,
    /// The queue exists with other properties than the declaration's.
    QueueMismatch,
    /// A binding names an exchange or a queue that does not exist.
    NotFound,
}

/// Declaring an exchange: idempotent when it already exists with the same
/// properties, refused when it exists with others, created otherwise.
pub open spec fn spec_declare_exchange(s: BrokerModelView, d: ExchangeDecl) -> Result<
    BrokerModelView,
    DeclarationError,
> {
    match s.exchange(d.name) {
        Some(r) => if r.kind == d.kind && r.durable == d.durable {
            Ok(s)
        } else {
            Err(DeclarationError::ExchangeMismatch)
        },
        None => Ok(s.with_exchange(d.name, ExchangeRecord { kind: d.kind, durable: d.durable })),
    }
}

/// Declaring a queue: idempotent when it already exists with the same
/// properties — its contents are untouched —, refused when it exists with
/// others, created empty otherwise.
pub open spec fn spec_declare_queue(s: BrokerModelView, d: QueueDecl) -> Result<
    BrokerModelView,
    DeclarationError,
> {
    match s.queue(d.name) {
        Some(q) => if q.durable == d.durable && q.dead_letter_exchange == d.dead_letter_exchange {
            Ok(s)
        } else {
            Err(DeclarationError::QueueMismatch)
        },
        None => Ok(
            s.with_queue(
                d.name,
                QueueRecordView {
                    durable: d.durable,
                    dead_letter_exchange: d.dead_letter_exchange,
                    ready: Seq::empty(),
                    unacked: Seq::empty(),
                },
            ),
        ),
    }
}

/// Binding a queue to an exchange: refused while either is missing,
/// idempotent when the same binding already exists, recorded otherwise.
pub open spec fn spec_bind_queue(s: BrokerModelView, b: BindingDeclView) -> Result<
    BrokerModelView,
    DeclarationError,
> {
    if s.exchange(b.exchange) is None || s.queue(b.queue) is None {
        Err(DeclarationError::NotFound)
    } else if s.has_binding(b) {
        Ok(s)
    } else {
        Ok(BrokerModelView { bindings: s.bindings.push(b), ..s })
    }
}

/// One step of the declaration plan against the broker state.
pub open spec fn spec_apply_step(s: BrokerModelView, step: TopologyStepView) -> Result<
    BrokerModelView,
    DeclarationError,
> {
    match step {
        TopologyStepView::DeclareExchange(d) => spec_declare_exchange(s, d),
        TopologyStepView::DeclareQueue(d) => spec_declare_queue(s, d),
        TopologyStepView::BindQueue(b) => spec_bind_queue(s, b),
    }
}

/// A whole plan against the broker state, stopping at the first refusal —
/// a refused declaration is fatal at startup, nothing later is attempted.
pub open spec fn spec_apply_plan(s: BrokerModelView, plan: Seq<TopologyStepView>) -> Result<
    BrokerModelView,
    DeclarationError,
>
    decreases plan.len(),
{
    if plan.len() == 0 {
        Ok(s)
    } else {
        match spec_apply_step(s, plan[0]) {
            Ok(t) => spec_apply_plan(t, plan.subrange(1, plan.len() as int)),
            Err(e) => Err(e),
        }
    }
}

/// Extending a plan by one step at its end.
pub proof fn lemma_apply_plan_snoc(
    s: BrokerModelView,
    plan: Seq<TopologyStepView>,
    step: TopologyStepView,
)
    ensures
        spec_apply_plan(s, plan.push(step)) == match spec_apply_plan(s, plan) {
            Ok(t) => spec_apply_step(t, step),
            Err(e) => Err(e),
        },
    decreases plan.len(),
{
    if plan.len() == 0 {
        assert(plan.push(step)[0] == step);
        assert(plan.push(step).subrange(1, 1) =~= Seq::<TopologyStepView>::empty());
        assert(spec_apply_plan(s, plan) == Ok::<BrokerModelView, DeclarationError>(s));
        match spec_apply_step(s, step) {
            Ok(t) => {
                assert(spec_apply_plan(t, plan.push(step).subrange(1, 1)) == Ok::<
                    BrokerModelView,
                    DeclarationError,
                >(t));
            },
            Err(_) => {},
        }
    } else {
        let rest = plan.subrange(1, plan.len() as int);
        assert(plan.push(step)[0] == plan[0]);
        assert(plan.push(step).subrange(1, plan.len() as int + 1) =~= rest.push(step));
        match spec_apply_step(s, plan[0]) {
            Ok(t) => {
                lemma_apply_plan_snoc(t, rest, step);
                assert(spec_apply_plan(s, plan.push(step)) == spec_apply_plan(
                    t,
                    rest.push(step),
                ));
                assert(spec_apply_plan(s, plan) == spec_apply_plan(t, rest));
            },
            Err(e) => {
                assert(spec_apply_plan(s, plan.push(step)) == Err::<
                    BrokerModelView,
                    DeclarationError,
                >(e));
            },
        }
    }
}

/// Splitting a plan anywhere: the back half runs on what the front half
/// produced, and a refusal in the front half is a refusal of the whole.
pub proof fn lemma_apply_plan_concat(
    s: BrokerModelView,
    a: Seq<TopologyStepView>,
    b: Seq<TopologyStepView>,
)
    ensures
        spec_apply_plan(s, a + b) == match spec_apply_plan(s, a) {
            Ok(t) => spec_apply_plan(t, b),
            Err(e) => Err(e),
        },
    decreases a.len(),
{
    if a.len() == 0 {
        assert(a + b =~= b);
        assert(spec_apply_plan(s, a) == Ok::<BrokerModelView, DeclarationError>(s));
    } else {
        let rest = a.subrange(1, a.len() as int);
        assert((a + b)[0] == a[0]);
        assert((a + b).subrange(1, (a + b).len() as int) =~= rest + b);
        match spec_apply_step(s, a[0]) {
            Ok(t) => {
                lemma_apply_plan_concat(t, rest, b);
                assert(spec_apply_plan(s, a + b) == spec_apply_plan(t, rest + b));
                assert(spec_apply_plan(s, a) == spec_apply_plan(t, rest));
            },
            Err(e) => {
                assert(spec_apply_plan(s, a + b) == Err::<BrokerModelView, DeclarationError>(e));
            },
        }
    }
}

/// One delivery as the consumer receives it: the payload, the routing key
/// it was published under, and the one-shot handle — queue and delivery
/// tag — with which it must be settled. Settling consumes the envelope,
/// so no envelope is ever acknowledged twice.
#[derive(Debug)]
pub struct Envelope {
    pub queue: QueueName,
    pub delivery_tag: u64,
    pub routing_key: String,
    pub payload: Vec<u8>,
}

/// Mathematical value of an [`Envelope`].
#[verifier::ext_equal]
pub ghost struct EnvelopeView {
    pub queue: QueueName,
    pub delivery_tag: u64,
    pub routing_key: Seq<char>,
    pub payload: Seq<u8>,
}

impl View for Envelope {
    type V = EnvelopeView;

    open spec fn view(&self) -> EnvelopeView {
        EnvelopeView {
            queue: self.queue,
            delivery_tag: self.delivery_tag,
            routing_key: self.routing_key@,
            payload: self.payload@,
        }
    }
}

/// Why the broker refuses a publication.
#[derive(Debug, Clone, Copy, PartialEq, Eq, Structural)]
pub enum PublishError {
    /// The named exchange does not exist.
    ExchangeNotFound,
}

/// Why the broker refuses an acknowledgment.
#[derive(Debug, Clone, Copy, PartialEq, Eq, Structural)]
pub enum AckError {
    /// The envelope's queue does not exist.
    QueueNotFound,
    /// No outstanding delivery carries the envelope's tag.
    UnknownDeliveryTag,
}

/// Whether some outstanding delivery carries the tag.
pub open spec fn has_tag(u: Seq<(u64, MessageView)>, tag: u64) -> bool {
    exists|i: int| 0 <= i < u.len() && u[i].0 == tag
}

/// No two outstanding deliveries share a tag, and every tag is below the
/// next one the broker will assign.
pub open spec fn unacked_wf(u: Seq<(u64, MessageView)>, next_tag: u64) -> bool {
    &&& forall|i: int, j: int| 0 <= i < j < u.len() ==> u[i].0 != u[j].0
    &&& forall|i: int| 0 <= i < u.len() ==> u[i].0 < next_tag
}

/// The broker state's own invariant: both queues' outstanding deliveries
/// are well formed.
pub open spec fn broker_wf(s: BrokerModelView) -> bool {
    &&& match s.payments_queue {
        Some(q) => unacked_wf(q.unacked, s.next_delivery_tag),
        None => true,
    }
    &&& match s.dead_letter_queue {
        Some(q) => unacked_wf(q.unacked, s.next_delivery_tag),
        None => true,
    }
}

/// Routing one message through an exchange: a copy reaches every queue
/// that a binding with the message's routing key connects to the
/// exchange, in queue order — the main queue first.
pub open spec fn spec_route(
    s: BrokerModelView,
    exchange: ExchangeName,
    m: MessageView,
) -> BrokerModelView {
    let s1 = match s.queue(QueueName::Payments) {
        Some(qr) => if s.routes_to(exchange, m.routing_key, QueueName::Payments) {
            s.with_queue(QueueName::Payments, QueueRecordView { ready: qr.ready.push(m), ..qr })
        } else {
            s
        },
        None => s,
    };
    match s1.queue(QueueName::PaymentsDeadLetter) {
        Some(qr) => if s.routes_to(exchange, m.routing_key, QueueName::PaymentsDeadLetter) {
            s1.with_queue(
                QueueName::PaymentsDeadLetter,
                QueueRecordView { ready: qr.ready.push(m), ..qr },
            )
        } else {
            s1
        },
        None => s1,
    }
}

/// Publishing: refused while the exchange is missing, otherwise the
/// message is routed to the bound queues — to none, if no binding
/// matches, and the message is gone.
pub open spec fn spec_publish(
    s: BrokerModelView,
    exchange: ExchangeName,
    m: MessageView,
) -> Result<BrokerModelView, PublishError> {
    if s.exchange(exchange) is None {
        Err(PublishError::ExchangeNotFound)
    } else {
        Ok(spec_route(s, exchange, m))
    }
}

/// Delivering from a queue: the head ready message, if any, moves to the
/// outstanding set under the next delivery tag.
pub open spec fn spec_deliver(s: BrokerModelView, q: QueueName) -> Option<
    (EnvelopeView, BrokerModelView),
> {
    match s.queue(q) {
        Some(qr) => if qr.ready.len() == 0 {
            None
        } else {
            let m = qr.ready[0];
            let e = EnvelopeView {
                queue: q,
                delivery_tag: s.next_delivery_tag,
                routing_key: m.routing_key,
                payload: m.payload,
            };
            let t = BrokerModelView {
                next_delivery_tag: (s.next_delivery_tag + 1) as u64,
                ..s.with_queue(
                    q,
                    QueueRecordView {
                        ready: qr.ready.drop_first(),
                        unacked: qr.unacked.push((s.next_delivery_tag, m)),
                        ..qr
                    },
                )
            };
            Some((e, t))
        },
        None => None,
    }
}

/// Acknowledging: the outstanding delivery under the tag is settled for
/// good — nothing else changes, in particular no queue's messages.
pub open spec fn spec_ack(s: BrokerModelView, q: QueueName, tag: u64) -> Result<
    BrokerModelView,
    AckError,
> {
    match s.queue(q) {
        Some(qr) => if has_tag(qr.unacked, tag) {
            let j = choose|j: int| 0 <= j < qr.unacked.len() && qr.unacked[j].0 == tag;
            Ok(s.with_queue(q, QueueRecordView { unacked: qr.unacked.remove(j), ..qr }))
        } else {
            Err(AckError::UnknownDeliveryTag)
        },
        None => Err(AckError::QueueNotFound),
    }
}

/// Negatively acknowledging: the outstanding delivery under the tag is
/// removed; with `requeue` it returns to the back of its own queue, and
/// without it is rerouted through the queue's dead-letter exchange — or
/// dropped, if the queue has none or the exchange is missing.
pub open spec fn spec_nack(s: BrokerModelView, q: QueueName, tag: u64, requeue: bool) -> Result<
    BrokerModelView,
    AckError,
> {
    match s.queue(q) {
        Some(qr) => if has_tag(qr.unacked, tag) {
            let j = choose|j: int| 0 <= j < qr.unacked.len() && qr.unacked[j].0 == tag;
            let m = qr.unacked[j].1;
            let s1 = s.with_queue(
                q,
                QueueRecordView {
                    unacked: qr.unacked.remove(j),
                    ready: if requeue {
                        qr.ready.push(m)
                    } else {
                        qr.ready
                    },
                    ..qr
                },
            );
            if requeue {
                Ok(s1)
            } else {
                match qr.dead_letter_exchange {
                    Some(x) => if s1.exchange(x) is Some {
                        Ok(spec_route(s1, x, m))
                    } else {
                        Ok(s1)
                    },
                    None => Ok(s1),
                }
            }
        } else {
            Err(AckError::UnknownDeliveryTag)
        },
        None => Err(AckError::QueueNotFound),
    }
}

/// A copy of a byte vector.
fn clone_bytes(v: &Vec<u8>) -> (r: Vec<u8>)
    ensures
        r@ == v@,
{
    let mut r: Vec<u8> = Vec::new();
    let mut i: usize = 0;
    while i < v.len()
        invariant
            0 <= i <= v@.len(),
            r@ == v@.subrange(0, i as int),
        decreases v@.len() - i,
    {
        r.push(v[i]);
        proof {
            assert(r@ =~= v@.subrange(0, i as int + 1));
        }
        i += 1;
    }
    proof {
        assert(r@ =~= v@);
    }
    r
}

/// A copy of a message.
fn clone_message(m: &Message) -> (r: Message)
    ensures
        r@ == m@,
{
    let r = Message { routing_key: m.routing_key.clone(), payload: clone_bytes(&m.payload) };
    proof {
        assert(r@ =~= m@);
    }
    r
}

/// Whether two binding declarations are the same binding.
fn binding_eq(a: &BindingDecl, b: &BindingDecl) -> (r: bool)
    ensures
        r <==> a@ == b@,
{
    let same = a.exchange == b.exchange && a.queue == b.queue && a.routing_key == b.routing_key;
    proof {
        if same {
            assert(a@ =~= b@);
        }
    }
    same
}

impl QueueRecord {
    /// Hand out the head ready message under `tag`, moving it into the
    /// outstanding set.
    fn take_next(&mut self, tag: u64) -> (r: Option<Message>)
        ensures
            old(self)@.ready.len() == 0 ==> r is None && final(self)@ == old(self)@,
            old(self)@.ready.len() > 0 ==> (r matches Some(m) && m@ == old(self)@.ready[0]
                && final(self)@ == (QueueRecordView {
                ready: old(self)@.ready.drop_first(),
                unacked: old(self)@.unacked.push((tag, old(self)@.ready[0])),
                ..old(self)@
            })),
    {
        if self.ready.len() == 0 {
            return None;
        }
        let m = self.ready.remove(0);
        let copy = clone_message(&m);
        self.unacked.push((tag, m));
        proof {
            assert(self@.ready =~= old(self)@.ready.drop_first());
            assert(self@.unacked =~= old(self)@.unacked.push((tag, old(self)@.ready[0])));
            assert(self@ =~~= (QueueRecordView {
                ready: old(self)@.ready.drop_first(),
                unacked: old(self)@.unacked.push((tag, old(self)@.ready[0])),
                ..old(self)@
            }));
        }
        Some(copy)
    }

    /// Remove the outstanding delivery under the tag and hand its message
    /// back.
    fn remove_tag(&mut self, tag: u64) -> (r: Result<Message, AckError>)
        requires
            forall|i: int, j: int|
                0 <= i < j < old(self)@.unacked.len() ==> old(self)@.unacked[i].0 != old(
                    self,
                )@.unacked[j].0,
        ensures
            match r {
                Ok(m) => has_tag(old(self)@.unacked, tag) && ({
                    let j = choose|j: int|
                        0 <= j < old(self)@.unacked.len() && old(self)@.unacked[j].0 == tag;
                    m@ == old(self)@.unacked[j].1 && final(self)@ == (QueueRecordView {
                        unacked: old(self)@.unacked.remove(j),
                        ..old(self)@
                    })
                }),
                Err(e) => e == AckError::UnknownDeliveryTag && !has_tag(old(self)@.unacked, tag)
                    && final(self)@ == old(self)@,
            },
    {
        let n = self.unacked.len();
        let mut i: usize = 0;
        while i < n
            invariant
                0 <= i <= n,
                n == self.unacked@.len(),
                *self == *old(self),
                forall|a: int, b: int|
                    0 <= a < b < old(self)@.unacked.len() ==> old(self)@.unacked[a].0 != old(
                        self,
                    )@.unacked[b].0,
                forall|k: int| 0 <= k < i ==> self@.unacked[k].0 != tag,
            decreases n - i,
        {
            proof {
                assert(self@.unacked[i as int] == (
                    self.unacked@[i as int].0,
                    self.unacked@[i as int].1@,
                ));
            }
            if self.unacked[i].0 == tag {
                let pair = self.unacked.remove(i);
                proof {
                    let u = old(self)@.unacked;
                    assert(has_tag(u, tag));
                    let j = choose|j: int| 0 <= j < u.len() && u[j].0 == tag;
                    assert(u[i as int].0 == tag);
                    assert(j == i as int);
                    assert(self@.unacked =~= u.remove(i as int));
                    assert(self@ =~~= (QueueRecordView { unacked: u.remove(j), ..old(self)@ }));
                }
                return Ok(pair.1);
            }
            i += 1;
        }
        proof {
            assert(!has_tag(old(self)@.unacked, tag));
        }
        Err(AckError::UnknownDeliveryTag)
    }
}

impl BrokerModel {
    /// A model of a broker on which nothing has been declared yet.
    pub fn new() -> (b: BrokerModel)
        ensures
            b@ == empty_broker(),
    {
        let b = BrokerModel {
            payments_exchange: None,
            dead_letter_exchange: None,
            payments_queue: None,
            dead_letter_queue: None,
            bindings: Vec::new(),
            next_delivery_tag: 1,
        };
        proof {
            assert(b@ =~= empty_broker());
        }
        b
    }

    /// Declare an exchange, as the broker would.
    pub fn declare_exchange(&mut self, d: &ExchangeDecl) -> (r: Result<(), DeclarationError>)
        ensures
            match r {
                Ok(_) => spec_declare_exchange(old(self)@, *d) == Ok::<
                    BrokerModelView,
                    DeclarationError,
                >(final(self)@),
                Err(e) => spec_declare_exchange(old(self)@, *d) == Err::<
                    BrokerModelView,
                    DeclarationError,
                >(e) && final(self)@ == old(self)@,
            },
    {
        let record = ExchangeRecord { kind: d.kind, durable: d.durable };
        let slot: &mut Option<ExchangeRecord> = match d.name {
            ExchangeName::Payments => &mut self.payments_exchange,
            ExchangeName::PaymentsDeadLetter => &mut self.dead_letter_exchange,
        };
        let r = match slot {
            Some(existing) => {
                if existing.kind == d.kind && existing.durable == d.durable {
                    Ok(())
                } else {
                    Err(DeclarationError::ExchangeMismatch)
                }
            },
            None => {
                *slot = Some(record);
                Ok(())
            },
        };
        proof {
            assert(self@ =~= match spec_declare_exchange(old(self)@, *d) {
                Ok(t) => t,
                Err(_) => old(self)@,
            });
        }
        r
    }

    /// Declare a queue, as the broker would.
    pub fn declare_queue(&mut self, d: &QueueDecl) -> (r: Result<(), DeclarationError>)
        ensures
            match r {
                Ok(_) => spec_declare_queue(old(self)@, *d) == Ok::<
                    BrokerModelView,
                    DeclarationError,
                >(final(self)@),
                Err(e) => spec_declare_queue(old(self)@, *d) == Err::<
                    BrokerModelView,
                    DeclarationError,
                >(e) && final(self)@ == old(self)@,
            },
    {
        let slot: &mut Option<QueueRecord> = match d.name {
            QueueName::Payments => &mut self.payments_queue,
            QueueName::PaymentsDeadLetter => &mut self.dead_letter_queue,
        };
        let r = match slot {
            Some(existing) => {
                let dlx_same = match (existing.dead_letter_exchange, d.dead_letter_exchange) {
                    (Some(a), Some(b)) => a == b,
                    (None, None) => true,
                    _ => false,
                };
                if existing.durable == d.durable && dlx_same {
                    Ok(())
                } else {
                    Err(DeclarationError::QueueMismatch)
                }
            },
            None => {
                *slot = Some(QueueRecord {
                    durable: d.durable,
                    dead_letter_exchange: d.dead_letter_exchange,
                    ready: Vec::new(),
                    unacked: Vec::new(),
                });
                Ok(())
            },
        };
        proof {
            assert(self@ =~= match spec_declare_queue(old(self)@, *d) {
                Ok(t) => t,
                Err(_) => old(self)@,
            });
        }
        r
    }

    /// Record a binding, as the broker would.
    pub fn bind_queue(&mut self, b: &BindingDecl) -> (r: Result<(), DeclarationError>)
        ensures
            match r {
                Ok(_) => spec_bind_queue(old(self)@, b@) == Ok::<
                    BrokerModelView,
                    DeclarationError,
                >(final(self)@),
                Err(e) => spec_bind_queue(old(self)@, b@) == Err::<
                    BrokerModelView,
                    DeclarationError,
                >(e) && final(self)@ == old(self)@,
            },
    {
        let exchange_known = match b.exchange {
            ExchangeName::Payments => self.payments_exchange.is_some(),
            ExchangeName::PaymentsDeadLetter => self.dead_letter_exchange.is_some(),
        };
        let queue_known = match b.queue {
            QueueName::Payments => self.payments_queue.is_some(),
            QueueName::PaymentsDeadLetter => self.dead_letter_queue.is_some(),
        };
        if !exchange_known || !queue_known {
            return Err(DeclarationError::NotFound);
        }
        let n = self.bindings.len();
        let mut i: usize = 0;
        let mut present = false;
        while i < n
            invariant
                0 <= i <= n,
                n == self.bindings@.len(),
                present <==> exists|k: int| 0 <= k < i && self@.bindings[k] == b@,
            decreases n - i,
        {
            if binding_eq(&self.bindings[i], b) {
                proof {
                    assert(self@.bindings[i as int] == self.bindings@[i as int]@);
                }
                present = true;
            }
            proof {
                assert(self@.bindings[i as int] == self.bindings@[i as int]@);
            }
            i += 1;
        }
        if present {
            proof {
                assert(self@.has_binding(b@));
            }
            Ok(())
        } else {
            proof {
                assert(!self@.has_binding(b@));
            }
            self.bindings.push(BindingDecl {
                exchange: b.exchange,
                queue: b.queue,
                routing_key: b.routing_key.clone(),
            });
            proof {
                assert(self@ =~= match spec_bind_queue(old(self)@, b@) {
                    Ok(t) => t,
                    Err(_) => old(self)@,
                });
            }
            Ok(())
        }
    }

    /// One step of a declaration plan against the model.
    pub fn apply_topology_step(&mut self, step: &TopologyStep) -> (r: Result<(), DeclarationError>)
        ensures
            match r {
                Ok(_) => spec_apply_step(old(self)@, step@) == Ok::<
                    BrokerModelView,
                    DeclarationError,
                >(final(self)@),
                Err(e) => spec_apply_step(old(self)@, step@) == Err::<
                    BrokerModelView,
                    DeclarationError,
                >(e) && final(self)@ == old(self)@,
            },
    {
        match step {
            TopologyStep::DeclareExchange(d) => self.declare_exchange(d),
            TopologyStep::DeclareQueue(d) => self.declare_queue(d),
            TopologyStep::BindQueue(b) => self.bind_queue(b),
        }
    }

    /// A whole declaration plan against the model, stopping at the first
    /// refusal, which at startup is fatal. On a refusal the model holds
    /// what the steps before the refused one produced, as the broker
    /// would.
    pub fn apply_plan(&mut self, plan: &Vec<TopologyStep>) -> (r: Result<(), DeclarationError>)
        ensures
            match r {
                Ok(_) => spec_apply_plan(old(self)@, step_views(plan@)) == Ok::<
                    BrokerModelView,
                    DeclarationError,
                >(final(self)@),
                Err(e) => spec_apply_plan(old(self)@, step_views(plan@)) == Err::<
                    BrokerModelView,
                    DeclarationError,
                >(e) && (exists|k: int|
                    0 <= k < step_views(plan@).len() && spec_apply_plan(
                        old(self)@,
                        step_views(plan@).subrange(0, k),
                    ) == Ok::<BrokerModelView, DeclarationError>(final(self)@) && spec_apply_step(
                        final(self)@,
                        step_views(plan@)[k],
                    ) == Err::<BrokerModelView, DeclarationError>(e)),
            },
    {
        let ghost s0 = self@;
        let ghost full = step_views(plan@);
        let n = plan.len();
        let mut i: usize = 0;
        while i < n
            invariant
                0 <= i <= n,
                n == plan@.len(),
                s0 == old(self)@,
                full == step_views(plan@),
                spec_apply_plan(s0, full.subrange(0, i as int)) == Ok::<
                    BrokerModelView,
                    DeclarationError,
                >(self@),
            decreases n - i,
        {
            let ghost prefix = full.subrange(0, i as int);
            let ghost before = self@;
            let step_result = self.apply_topology_step(&plan[i]);
            proof {
                assert(full[i as int] == plan@[i as int]@);
            }
            match step_result {
                Ok(_) => {
                    proof {
                        lemma_apply_plan_snoc(s0, prefix, full[i as int]);
                        assert(prefix.push(full[i as int]) =~= full.subrange(0, i as int + 1));
                    }
                },
                Err(e) => {
                    proof {
                        let suffix = full.subrange(i as int, full.len() as int);
                        assert(full =~= prefix + suffix);
                        lemma_apply_plan_concat(s0, prefix, suffix);
                        assert(suffix[0] == full[i as int]);
                        assert(spec_apply_plan(before, suffix) == Err::<
                            BrokerModelView,
                            DeclarationError,
                        >(e));
                        assert(spec_apply_plan(s0, full.subrange(0, i as int)) == Ok::<
                            BrokerModelView,
                            DeclarationError,
                        >(self@) && spec_apply_step(self@, full[i as int]) == Err::<
                            BrokerModelView,
                            DeclarationError,
                        >(e));
                    }
                    return Err(e);
                },
            }
            i += 1;
        }
        proof {
            assert(full.subrange(0, n as int) =~= full);
        }
        Ok(())
    }

    /// Declare the gateway's whole topology against the model: the
    /// dead-letter exchange, queue and binding, then the main exchange,
    /// and the main queue — carrying the dead-letter argument — with its
    /// binding. On a refusal the model holds what the steps before the
    /// refused one produced.
    pub fn declare_topology(&mut self) -> (r: Result<(), DeclarationError>)
        ensures
            match r {
                Ok(_) => spec_apply_plan(old(self)@, gateway_topology_plan()) == Ok::<
                    BrokerModelView,
                    DeclarationError,
                >(final(self)@),
                Err(e) => spec_apply_plan(old(self)@, gateway_topology_plan()) == Err::<
                    BrokerModelView,
                    DeclarationError,
                >(e) && (exists|k: int|
                    0 <= k < gateway_topology_plan().len() && spec_apply_plan(
                        old(self)@,
                        gateway_topology_plan().subrange(0, k),
                    ) == Ok::<BrokerModelView, DeclarationError>(final(self)@) && spec_apply_step(
                        final(self)@,
                        gateway_topology_plan()[k],
                    ) == Err::<BrokerModelView, DeclarationError>(e)),
            },
    {
        let plan = declare_topology_plan();
        self.apply_plan(&plan)
    }

    /// Whether a binding routes messages published on the exchange under
    /// this key to the queue.
    fn route_flag(&self, exchange: ExchangeName, key: &String, queue: QueueName) -> (r: bool)
        ensures
            r == self@.routes_to(exchange, key@, queue),
    {
        let n = self.bindings.len();
        let mut i: usize = 0;
        let mut found = false;
        while i < n
            invariant
                0 <= i <= n,
                n == self.bindings@.len(),
                found <==> exists|k: int|
                    0 <= k < i && self@.bindings[k] == (BindingDeclView {
                        exchange,
                        queue,
                        routing_key: key@,
                    }),
            decreases n - i,
        {
            proof {
                assert(self@.bindings[i as int] == self.bindings@[i as int]@);
            }
            let b = &self.bindings[i];
            if b.exchange == exchange && b.queue == queue && b.routing_key == *key {
                proof {
                    assert(b@ =~= (BindingDeclView { exchange, queue, routing_key: key@ }));
                }
                found = true;
            }
            i += 1;
        }
        found
    }

    /// Publish a message to an exchange, as the broker would: a copy
    /// reaches every queue bound under the message's routing key.
    pub fn publish(&mut self, exchange: ExchangeName, message: Message) -> (r: Result<
        (),
        PublishError,
    >)
        ensures
            broker_wf(old(self)@) ==> broker_wf(final(self)@),
            match r {
                Ok(_) => spec_publish(old(self)@, exchange, message@) == Ok::<
                    BrokerModelView,
                    PublishError,
                >(final(self)@),
                Err(e) => spec_publish(old(self)@, exchange, message@) == Err::<
                    BrokerModelView,
                    PublishError,
                >(e) && final(self)@ == old(self)@,
            },
    {
        let known = match exchange {
            ExchangeName::Payments => self.payments_exchange.is_some(),
            ExchangeName::PaymentsDeadLetter => self.dead_letter_exchange.is_some(),
        };
        if !known {
            return Err(PublishError::ExchangeNotFound);
        }
        let to_payments = self.route_flag(exchange, &message.routing_key, QueueName::Payments);
        let to_dead_letter = self.route_flag(
            exchange,
            &message.routing_key,
            QueueName::PaymentsDeadLetter,
        );
        if to_payments {
            match &mut self.payments_queue {
                Some(q) => q.ready.push(clone_message(&message)),
                None => (),
            }
        }
        if to_dead_letter {
            match &mut self.dead_letter_queue {
                Some(q) => q.ready.push(clone_message(&message)),
                None => (),
            }
        }
        proof {
            assert(self@ =~~= spec_route(old(self)@, exchange, message@));
        }
        Ok(())
    }

    /// Deliver the next ready message of a queue, if any, as an envelope
    /// that must be settled exactly once.
    pub fn deliver(&mut self, queue: QueueName) -> (r: Option<Envelope>)
        requires
            old(self).next_delivery_tag < u64::MAX,
        ensures
            broker_wf(old(self)@) ==> broker_wf(final(self)@),
            match r {
                Some(e) => spec_deliver(old(self)@, queue) matches Some(p) && p.0 == e@ && p.1
                    == final(self)@,
                None => spec_deliver(old(self)@, queue) is None && final(self)@ == old(self)@,
            },
    {
        let tag = self.next_delivery_tag;
        let taken: Option<Message> = match queue {
            QueueName::Payments => match &mut self.payments_queue {
                Some(q) => q.take_next(tag),
                None => None,
            },
            QueueName::PaymentsDeadLetter => match &mut self.dead_letter_queue {
                Some(q) => q.take_next(tag),
                None => None,
            },
        };
        match taken {
            Some(m) => {
                self.next_delivery_tag = tag + 1;
                let e = Envelope {
                    queue,
                    delivery_tag: tag,
                    routing_key: m.routing_key,
                    payload: m.payload,
                };
                proof {
                    let p = spec_deliver(old(self)@, queue);
                    assert(p matches Some(pair) && pair.0 == e@ && pair.1 =~~= self@);
                }
                Some(e)
            },
            None => None,
        }
    }

    /// Acknowledge an outstanding delivery: it is settled for good, and
    /// nothing else on the broker changes — in particular, the message
    /// reaches no queue, dead-letter or otherwise. Consuming the envelope
    /// makes a second acknowledgment of the same delivery impossible.
    pub fn ack(&mut self, envelope: Envelope) -> (r: Result<(), AckError>)
        requires
            broker_wf(old(self)@),
        ensures
            broker_wf(final(self)@),
            match r {
                Ok(_) => spec_ack(old(self)@, envelope.queue, envelope.delivery_tag) == Ok::<
                    BrokerModelView,
                    AckError,
                >(final(self)@),
                Err(e) => spec_ack(old(self)@, envelope.queue, envelope.delivery_tag) == Err::<
                    BrokerModelView,
                    AckError,
                >(e) && final(self)@ == old(self)@,
            },
    {
        let removed: Result<Message, AckError> = match envelope.queue {
            QueueName::Payments => match &mut self.payments_queue {
                Some(q) => q.remove_tag(envelope.delivery_tag),
                None => Err(AckError::QueueNotFound),
            },
            QueueName::PaymentsDeadLetter => match &mut self.dead_letter_queue {
                Some(q) => q.remove_tag(envelope.delivery_tag),
                None => Err(AckError::QueueNotFound),
            },
        };
        match removed {
            Ok(_) => {
                proof {
                    assert(spec_ack(old(self)@, envelope.queue, envelope.delivery_tag) matches Ok(
                        t,
                    ) && t =~~= self@);
                }
                Ok(())
            },
            Err(e) => Err(e),
        }
    }

    /// Negatively acknowledge an outstanding delivery. With `requeue` the
    /// message returns to the back of its own queue; without it the
    /// message is rerouted through the queue's dead-letter exchange — or
    /// dropped for a queue that has none.
    pub fn nack(&mut self, envelope: Envelope, requeue: bool) -> (r: Result<(), AckError>)
        requires
            broker_wf(old(self)@),
        ensures
            broker_wf(final(self)@),
            match r {
                Ok(_) => spec_nack(old(self)@, envelope.queue, envelope.delivery_tag, requeue)
                    == Ok::<BrokerModelView, AckError>(final(self)@),
                Err(e) => spec_nack(old(self)@, envelope.queue, envelope.delivery_tag, requeue)
                    == Err::<BrokerModelView, AckError>(e) && final(self)@ == old(self)@,
            },
    {
        let removed: Result<Message, AckError> = match envelope.queue {
            QueueName::Payments => match &mut self.payments_queue {
                Some(q) => q.remove_tag(envelope.delivery_tag),
                None => Err(AckError::QueueNotFound),
            },
            QueueName::PaymentsDeadLetter => match &mut self.dead_letter_queue {
                Some(q) => q.remove_tag(envelope.delivery_tag),
                None => Err(AckError::QueueNotFound),
            },
        };
        let message = match removed {
            Ok(m) => m,
            Err(e) => {
                return Err(e);
            },
        };
        if requeue {
            match envelope.queue {
                QueueName::Payments => match &mut self.payments_queue {
                    Some(q) => q.ready.push(message),
                    None => (),
                },
                QueueName::PaymentsDeadLetter => match &mut self.dead_letter_queue {
                    Some(q) => q.ready.push(message),
                    None => (),
                },
            }
            proof {
                assert(spec_nack(old(self)@, envelope.queue, envelope.delivery_tag, true) matches
                    Ok(t) && t =~~= self@);
            }
            return Ok(());
        }
        let dead_letter: Option<ExchangeName> = match envelope.queue {
            QueueName::Payments => match &self.payments_queue {
                Some(q) => q.dead_letter_exchange,
                None => None,
            },
            QueueName::PaymentsDeadLetter => match &self.dead_letter_queue {
                Some(q) => q.dead_letter_exchange,
                None => None,
            },
        };
        let exchange = match dead_letter {
            Some(x) => x,
            None => {
                proof {
                    assert(spec_nack(old(self)@, envelope.queue, envelope.delivery_tag, false)
                        matches Ok(t) && t =~~= self@);
                }
                return Ok(());
            },
        };
        let known = match exchange {
            ExchangeName::Payments => self.payments_exchange.is_some(),
            ExchangeName::PaymentsDeadLetter => self.dead_letter_exchange.is_some(),
        };
        if !known {
            proof {
                assert(spec_nack(old(self)@, envelope.queue, envelope.delivery_tag, false) matches
                    Ok(t) && t =~~= self@);
            }
            return Ok(());
        }
        let to_payments = self.route_flag(exchange, &message.routing_key, QueueName::Payments);
        let to_dead_letter = self.route_flag(
            exchange,
            &message.routing_key,
            QueueName::PaymentsDeadLetter,
        );
        if to_payments {
            match &mut self.payments_queue {
                Some(q) => q.ready.push(clone_message(&message)),
                None => (),
            }
        }
        if to_dead_letter {
            match &mut self.dead_letter_queue {
                Some(q) => q.ready.push(clone_message(&message)),
                None => (),
            }
        }
        proof {
            assert(spec_nack(old(self)@, envelope.queue, envelope.delivery_tag, false) matches Ok(
                t,
            ) && t =~~= self@);
        }
        Ok(())
    }

    /// Close one delivery with the acknowledgment policy's decision.
    pub fn settle_delivery(&mut self, envelope: Envelope, decision: AckDecision) -> (r: Result<
        (),
        AckError,
    >)
        requires
            broker_wf(old(self)@),
        ensures
            broker_wf(final(self)@),
            match r {
                Ok(_) => spec_settle(old(self)@, envelope.queue, envelope.delivery_tag, decision)
                    == Ok::<BrokerModelView, AckError>(final(self)@),
                Err(e) => spec_settle(old(self)@, envelope.queue, envelope.delivery_tag, decision)
                    == Err::<BrokerModelView, AckError>(e) && final(self)@ == old(self)@,
            },
    {
        match decision {
            AckDecision::Ack => self.ack(envelope),
            AckDecision::Nack { requeue } => self.nack(envelope, requeue),
        }
    }
}

/// Settling one delivery with a policy decision: an acknowledgment or a
/// negative acknowledgment with the decision's requeue flag.
pub open spec fn spec_settle(
    s: BrokerModelView,
    q: QueueName,
    tag: u64,
    d: AckDecision,
) -> Result<BrokerModelView, AckError> {
    match d {
        AckDecision::Ack => spec_ack(s, q, tag),
        AckDecision::Nack { requeue } => spec_nack(s, q, tag, requeue),
    }
}

/// What a successful topology run leaves on the broker: every entity of
/// the plan present with the declared properties, and both bindings in
/// place.
pub open spec fn gateway_configured(s: BrokerModelView) -> bool {
    &&& s.exchange(ExchangeName::PaymentsDeadLetter) == Some(
        ExchangeRecord { kind: ExchangeKind::Direct, durable: true },
    )
    &&& s.exchange(ExchangeName::Payments) == Some(
        ExchangeRecord { kind: ExchangeKind::Direct, durable: true },
    )
    &&& (s.queue(QueueName::PaymentsDeadLetter) matches Some(q) && q.durable
        && q.dead_letter_exchange is None)
    &&& (s.queue(QueueName::Payments) matches Some(q) && q.durable && q.dead_letter_exchange
        == Some(ExchangeName::PaymentsDeadLetter))
    &&& s.has_binding(dead_letter_binding_view())
    &&& s.has_binding(payments_binding_view())
}

/// A successful run of the declaration plan leaves the gateway topology
/// configured, whatever else already stood on the broker.
pub proof fn lemma_gateway_run_configures(s: BrokerModelView)
    ensures
        spec_apply_plan(s, gateway_topology_plan()) matches Ok(t) ==> gateway_configured(t),
{
    let p = gateway_topology_plan();
    let p1 = p.subrange(1, 6);
    let p2 = p.subrange(2, 6);
    let p3 = p.subrange(3, 6);
    let p4 = p.subrange(4, 6);
    let p5 = p.subrange(5, 6);
    assert(p1.subrange(1, 5) =~= p2);
    assert(p2.subrange(1, 4) =~= p3);
    assert(p3.subrange(1, 3) =~= p4);
    assert(p4.subrange(1, 2) =~= p5);
    assert(p5.subrange(1, 1) =~= Seq::<TopologyStepView>::empty());
    assert(p1[0] == p[1] && p2[0] == p[2] && p3[0] == p[3] && p4[0] == p[4] && p5[0] == p[5]);
    if spec_apply_plan(s, p) is Ok {
        match spec_apply_step(s, p[0]) {
            Err(_) => {
                assert(spec_apply_plan(s, p) is Err);
            },
            Ok(s1) => {
                assert(spec_apply_plan(s, p) == spec_apply_plan(s1, p1));
                match spec_apply_step(s1, p[1]) {
                    Err(_) => {
                        assert(spec_apply_plan(s1, p1) is Err);
                    },
                    Ok(s2) => {
                        assert(spec_apply_plan(s1, p1) == spec_apply_plan(s2, p2));
                        match spec_apply_step(s2, p[2]) {
                            Err(_) => {
                                assert(spec_apply_plan(s2, p2) is Err);
                            },
                            Ok(s3) => {
                                assert(spec_apply_plan(s2, p2) == spec_apply_plan(s3, p3));
                                match spec_apply_step(s3, p[3]) {
                                    Err(_) => {
                                        assert(spec_apply_plan(s3, p3) is Err);
                                    },
                                    Ok(s4) => {
                                        assert(spec_apply_plan(s3, p3) == spec_apply_plan(
                                            s4,
                                            p4,
                                        ));
                                        match spec_apply_step(s4, p[4]) {
                                            Err(_) => {
                                                assert(spec_apply_plan(s4, p4) is Err);
                                            },
                                            Ok(s5) => {
                                                assert(spec_apply_plan(s4, p4)
                                                    == spec_apply_plan(s5, p5));
                                                match spec_apply_step(s5, p[5]) {
                                                    Err(_) => {
                                                        assert(spec_apply_plan(s5, p5) is Err);
                                                    },
                                                    Ok(s6) => {
                                                        assert(spec_apply_plan(
                                                            s6,
                                                            p5.subrange(1, 1),
                                                        ) == Ok::<
                                                            BrokerModelView,
                                                            DeclarationError,
                                                        >(s6));
                                                        assert(spec_apply_plan(s5, p5) == Ok::<
                                                            BrokerModelView,
                                                            DeclarationError,
                                                        >(s6));
                                                        lemma_walk_facts(
                                                            s, s1, s2, s3, s4, s5, s6,
                                                        );
                                                    },
                                                }
                                            },
                                        }
                                    },
                                }
                            },
                        }
                    },
                }
            },
        }
    }
}

/// The facts each plan step adds hold of the final state: later steps
/// leave earlier declarations and bindings alone.
proof fn lemma_walk_facts(
    s: BrokerModelView,
    s1: BrokerModelView,
    s2: BrokerModelView,
    s3: BrokerModelView,
    s4: BrokerModelView,
    s5: BrokerModelView,
    s6: BrokerModelView,
)
    requires
        spec_apply_step(s, TopologyStepView::DeclareExchange(dead_letter_exchange_decl())) == Ok::<
            BrokerModelView,
            DeclarationError,
        >(s1),
        spec_apply_step(s1, TopologyStepView::DeclareQueue(dead_letter_queue_decl())) == Ok::<
            BrokerModelView,
            DeclarationError,
        >(s2),
        spec_apply_step(s2, TopologyStepView::BindQueue(dead_letter_binding_view())) == Ok::<
            BrokerModelView,
            DeclarationError,
        >(s3),
        spec_apply_step(s3, TopologyStepView::DeclareExchange(payments_exchange_decl())) == Ok::<
            BrokerModelView,
            DeclarationError,
        >(s4),
        spec_apply_step(s4, TopologyStepView::DeclareQueue(payments_queue_decl())) == Ok::<
            BrokerModelView,
            DeclarationError,
        >(s5),
        spec_apply_step(s5, TopologyStepView::BindQueue(payments_binding_view())) == Ok::<
            BrokerModelView,
            DeclarationError,
        >(s6),
    ensures
        gateway_configured(s6),
{
    assert(s1.exchange(ExchangeName::PaymentsDeadLetter) == Some(
        ExchangeRecord { kind: ExchangeKind::Direct, durable: true },
    ));
    assert(s2.queue(QueueName::PaymentsDeadLetter) matches Some(q) && q.durable
        && q.dead_letter_exchange is None);
    assert(s3.has_binding(dead_letter_binding_view())) by {
        if !s2.has_binding(dead_letter_binding_view()) {
            assert(s3.bindings[s3.bindings.len() - 1] == dead_letter_binding_view());
        }
    }
    assert(s4.exchange(ExchangeName::Payments) == Some(
        ExchangeRecord { kind: ExchangeKind::Direct, durable: true },
    ));
    assert(s5.queue(QueueName::Payments) matches Some(q) && q.durable && q.dead_letter_exchange
        == Some(ExchangeName::PaymentsDeadLetter));
    assert(s6.has_binding(payments_binding_view())) by {
        if !s5.has_binding(payments_binding_view()) {
            assert(s6.bindings[s6.bindings.len() - 1] == payments_binding_view());
        }
    }
    assert(s6.has_binding(dead_letter_binding_view())) by {
        assert(s5.has_binding(dead_letter_binding_view())) by {
            let k = choose|k: int|
                0 <= k < s3.bindings.len() && s3.bindings[k] == dead_letter_binding_view();
            assert(s5.bindings[k] == dead_letter_binding_view());
        }
        let k = choose|k: int|
            0 <= k < s5.bindings.len() && s5.bindings[k] == dead_letter_binding_view();
        assert(s6.bindings[k] == dead_letter_binding_view());
    }
}

/// On a broker that already carries the configured topology, every step
/// of the plan finds its entity in place and changes nothing.
pub proof fn lemma_configured_reapply(t: BrokerModelView)
    requires
        gateway_configured(t),
    ensures
        spec_apply_plan(t, gateway_topology_plan()) == Ok::<BrokerModelView, DeclarationError>(t),
{
    let p = gateway_topology_plan();
    let p1 = p.subrange(1, 6);
    let p2 = p.subrange(2, 6);
    let p3 = p.subrange(3, 6);
    let p4 = p.subrange(4, 6);
    let p5 = p.subrange(5, 6);
    assert(p1.subrange(1, 5) =~= p2);
    assert(p2.subrange(1, 4) =~= p3);
    assert(p3.subrange(1, 3) =~= p4);
    assert(p4.subrange(1, 2) =~= p5);
    assert(p5.subrange(1, 1) =~= Seq::<TopologyStepView>::empty());
    assert(p1[0] == p[1] && p2[0] == p[2] && p3[0] == p[3] && p4[0] == p[4] && p5[0] == p[5]);
    assert(spec_apply_step(t, p[0]) == Ok::<BrokerModelView, DeclarationError>(t));
    assert(spec_apply_step(t, p[1]) == Ok::<BrokerModelView, DeclarationError>(t));
    assert(spec_apply_step(t, p[2]) == Ok::<BrokerModelView, DeclarationError>(t));
    assert(spec_apply_step(t, p[3]) == Ok::<BrokerModelView, DeclarationError>(t));
    assert(spec_apply_step(t, p[4]) == Ok::<BrokerModelView, DeclarationError>(t));
    assert(spec_apply_step(t, p[5]) == Ok::<BrokerModelView, DeclarationError>(t));
    assert(spec_apply_plan(t, p) == spec_apply_plan(t, p1));
    assert(spec_apply_plan(t, p1) == spec_apply_plan(t, p2));
    assert(spec_apply_plan(t, p2) == spec_apply_plan(t, p3));
    assert(spec_apply_plan(t, p3) == spec_apply_plan(t, p4));
    assert(spec_apply_plan(t, p4) == spec_apply_plan(t, p5));
    assert(spec_apply_plan(t, p5.subrange(1, 1)) == Ok::<BrokerModelView, DeclarationError>(t));
    assert(spec_apply_plan(t, p5) == Ok::<BrokerModelView, DeclarationError>(t));
}

/// Declaring the topology is idempotent: where a first run against some
/// broker state succeeds, a second run against the state it left behind
/// succeeds as well and leaves that state exactly as it found it.
pub proof fn lemma_declare_topology_idempotent(s: BrokerModelView)
    ensures
        spec_apply_plan(s, gateway_topology_plan()) matches Ok(t) ==> spec_apply_plan(
            t,
            gateway_topology_plan(),
        ) == Ok::<BrokerModelView, DeclarationError>(t),
{
    match spec_apply_plan(s, gateway_topology_plan()) {
        Ok(t) => {
            lemma_gateway_run_configures(s);
            lemma_configured_reapply(t);
        },
        Err(_) => {},
    }
}

/// A delivery whose verdict is success is acknowledged, the
/// acknowledgment settles it for good — the dead-letter queue is left
/// untouched and no message returns to the main queue — and a second
/// acknowledgment of the same delivery tag is refused.
pub proof fn lemma_success_acknowledged_once(
    s: BrokerModelView,
    m: PaymentMessageView,
    tag: u64,
)
    requires
        broker_wf(s),
    ensures
        spec_ack_decision(spec_verdict(Some(m), true)) == AckDecision::Ack,
        spec_ack(s, QueueName::Payments, tag) matches Ok(t) ==> {
            &&& t.dead_letter_queue == s.dead_letter_queue
            &&& (match (s.queue(QueueName::Payments), t.queue(QueueName::Payments)) {
                (Some(sq), Some(tq)) => tq.ready == sq.ready,
                _ => false,
            })
            &&& spec_ack(t, QueueName::Payments, tag) == Err::<BrokerModelView, AckError>(
                AckError::UnknownDeliveryTag,
            )
        },
{
    if spec_ack(s, QueueName::Payments, tag) is Ok {
        match s.queue(QueueName::Payments) {
            Some(qr) => {
                assert(has_tag(qr.unacked, tag));
                let j = choose|j: int| 0 <= j < qr.unacked.len() && qr.unacked[j].0 == tag;
                let u2 = qr.unacked.remove(j);
                assert forall|k: int| 0 <= k < u2.len() implies u2[k].0 != tag by {
                    if k < j {
                        assert(u2[k] == qr.unacked[k]);
                    } else {
                        assert(u2[k] == qr.unacked[k + 1]);
                    }
                }
                assert(!has_tag(u2, tag));
            },
            None => {},
        }
    }
}

/// A delivery whose verdict is a processing error — malformed or rejected
/// by the domain capability — is negatively acknowledged without requeue,
/// and with the dead-letter binding of the gateway topology in place its
/// message becomes visible at the back of the dead-letter queue.
pub proof fn lemma_rejection_dead_letters(s: BrokerModelView, e: ProcessingError, tag: u64)
    requires
        broker_wf(s),
        s.queue(QueueName::Payments) matches Some(sq) && sq.dead_letter_exchange == Some(
            ExchangeName::PaymentsDeadLetter,
        ) && (forall|k: int|
            0 <= k < sq.unacked.len() ==> s.routes_to(
                ExchangeName::PaymentsDeadLetter,
                sq.unacked[k].1.routing_key,
                QueueName::PaymentsDeadLetter,
            )),
        s.exchange(ExchangeName::PaymentsDeadLetter) is Some,
        s.queue(QueueName::PaymentsDeadLetter) is Some,
    ensures
        spec_ack_decision(Err(e)) == (AckDecision::Nack { requeue: false }),
        spec_nack(s, QueueName::Payments, tag, false) matches Ok(t) ==> (match (
            s.queue(QueueName::Payments),
            s.queue(QueueName::PaymentsDeadLetter),
            t.queue(QueueName::PaymentsDeadLetter),
        ) {
            (Some(sq), Some(sd), Some(td)) => {
                let j = choose|j: int| 0 <= j < sq.unacked.len() && sq.unacked[j].0 == tag;
                td.ready == sd.ready.push(sq.unacked[j].1)
            },
            _ => false,
        }),
{
}

} // verus!
