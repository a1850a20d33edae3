use vstd::prelude::*;

verus! {

/// The exchanges the gateway declares before consuming.
#[derive(Debug, Clone, Copy, PartialEq, Eq, Structural)]
pub enum ExchangeName {
    Payments,
    PaymentsDeadLetter,
}

/// The queues the gateway declares before consuming.
#[derive(Debug, Clone, Copy, PartialEq, Eq, Structural)]
pub enum QueueName {
    Payments,
    PaymentsDeadLetter,
}

/// Routing discipline of an exchange. The gateway only declares direct
/// exchanges, but a broker distinguishes the kinds, and re-declaring an
/// exchange under another kind is a declaration error.
#[derive(Debug, Clone, Copy, PartialEq, Eq, Structural)]
pub enum ExchangeKind {
    Direct,
    Fanout,
    Topic,
    Headers,
}

impl ExchangeName {
    /// The name under which the exchange is declared on the broker.
    pub open spec fn spec_wire_name(self) -> Seq<char> {
        match self {
            ExchangeName::Payments => "payments.exchange"@,
            ExchangeName::PaymentsDeadLetter => "payments-dead-letter.exchange"@,
        }
    }

    /// The name under which the exchange is declared on the broker.
    pub fn wire_name(&self) -> (r: String)
        ensures
            r@ == self.spec_wire_name(),
    {
        match self {
            ExchangeName::Payments => "payments.exchange".to_owned(),
            ExchangeName::PaymentsDeadLetter => "payments-dead-letter.exchange".to_owned(),
        }
    }
}

impl QueueName {
    /// The name under which the queue is declared on the broker.
    pub open spec fn spec_wire_name(self) -> Seq<char> {
        match self {
            QueueName::Payments => "payments.queue"@,
            QueueName::PaymentsDeadLetter => "payments-dead-letter.queue"@,
        }
    }

    /// The name under which the queue is declared on the broker.
    pub fn wire_name(&self) -> (r: String)
        ensures
            r@ == self.spec_wire_name(),
    {
        match self {
            QueueName::Payments => "payments.queue".to_owned(),
            QueueName::PaymentsDeadLetter => "payments-dead-letter.queue".to_owned(),
        }
    }
}

/// The queue argument that names the exchange a rejected message is
/// rerouted to.
pub fn dead_letter_argument_key() -> (r: String)
    ensures
        r@ == "x-dead-letter-exchange"@,
{
    "x-dead-letter-exchange".to_owned()
}

/// One exchange declaration.
#[derive(Debug, Clone, Copy, PartialEq, Eq, Structural)]
pub struct ExchangeDecl {
    pub name: ExchangeName,
    pub kind: ExchangeKind,
    pub durable: bool,
}

/// One queue declaration. `dead_letter_exchange` is the exchange a message
/// nacked without requeue is rerouted to, or `None` for a queue without a
/// dead-letter path.
#[derive(Debug, Clone, Copy)]
pub struct QueueDecl {
    pub name: QueueName,
    pub durable: bool,
    pub dead_letter_exchange: Option<ExchangeName>,
}

/// One binding of a queue to an exchange under a routing key.
#[derive(Debug, Clone)]
pub struct BindingDecl {
    pub exchange: ExchangeName,
    pub queue: QueueName,
    pub routing_key: String,
}

/// Mathematical value of a [`BindingDecl`].
#[verifier::ext_equal]
pub ghost struct BindingDeclView {
    pub exchange: ExchangeName,
    pub queue: QueueName,
    pub routing_key: Seq<char>,
}

impl View for BindingDecl {
    type V = BindingDeclView;

    open spec fn view(&self) -> BindingDeclView {
        BindingDeclView {
            exchange: self.exchange,
            queue: self.queue,
            routing_key: self.routing_key@,
        }
    }
}

/// One declaration the topology initializer issues against the broker.
#[derive(Debug, Clone)]
pub enum TopologyStep {
    DeclareExchange(ExchangeDecl),
    DeclareQueue(QueueDecl),
    BindQueue(BindingDecl),
}

/// Mathematical value of a [`TopologyStep`].
#[verifier::ext_equal]
pub ghost enum TopologyStepView {
    DeclareExchange(ExchangeDecl),
    DeclareQueue(QueueDecl),
    BindQueue(BindingDeclView),
}

impl View for TopologyStep {
    type V = TopologyStepView;

    open spec fn view(&self) -> TopologyStepView {
        match self {
            TopologyStep::DeclareExchange(e) => TopologyStepView::DeclareExchange(*e),
            TopologyStep::DeclareQueue(q) => TopologyStepView::DeclareQueue(*q),
            TopologyStep::BindQueue(b) => TopologyStepView::BindQueue(b@),
        }
    }
}

/// The values of a sequence of steps.
pub open spec fn step_views(steps: Seq<TopologyStep>) -> Seq<TopologyStepView> {
    steps.map_values(|s: TopologyStep| s@)
}

/// The dead-letter exchange: direct routing, durable.
pub open spec fn dead_letter_exchange_decl() -> ExchangeDecl {
    ExchangeDecl {
        name: ExchangeName::PaymentsDeadLetter,
        kind: ExchangeKind::Direct,
        durable: true,
    }
}

/// The dead-letter queue: durable, itself without a dead-letter path.
pub open spec fn dead_letter_queue_decl() -> QueueDecl {
    QueueDecl { name: QueueName::PaymentsDeadLetter, durable: true, dead_letter_exchange: None }
}

/// The dead-letter binding: empty routing key.
pub open spec fn dead_letter_binding_view() -> BindingDeclView {
    BindingDeclView {
        exchange: ExchangeName::PaymentsDeadLetter,
        queue: QueueName::PaymentsDeadLetter,
        routing_key: Seq::<char>::empty(),
    }
}

/// The main exchange: direct routing, durable.
pub open spec fn payments_exchange_decl() -> ExchangeDecl {
    ExchangeDecl { name: ExchangeName::Payments, kind: ExchangeKind::Direct, durable: true }
}

/// The main queue: durable, rejected messages rerouted to the dead-letter
/// exchange.
pub open spec fn payments_queue_decl() -> QueueDecl {
    QueueDecl {
        name: QueueName::Payments,
        durable: true,
        dead_letter_exchange: Some(ExchangeName::PaymentsDeadLetter),
    }
}

/// The main binding: empty routing key.
pub open spec fn payments_binding_view() -> BindingDeclView {
    BindingDeclView {
        exchange: ExchangeName::Payments,
        queue: QueueName::Payments,
        routing_key: Seq::<char>::empty(),
    }
}

/// The full declaration plan, in the order the initializer issues it: the
/// dead-letter half first, so that the main queue never exists without the
/// exchange its rejected messages are rerouted to.
pub open spec fn gateway_topology_plan() -> Seq<TopologyStepView> {
    seq![
        TopologyStepView::DeclareExchange(dead_letter_exchange_decl()),
        TopologyStepView::DeclareQueue(dead_letter_queue_decl()),
        TopologyStepView::BindQueue(dead_letter_binding_view()),
        TopologyStepView::DeclareExchange(payments_exchange_decl()),
        TopologyStepView::DeclareQueue(payments_queue_decl()),
        TopologyStepView::BindQueue(payments_binding_view()),
    ]
}

/// Declarations of the dead-letter half of the topology: the dead-letter
/// exchange, the dead-letter queue, and the binding between them.
pub fn setup_dead_letter_exchange() -> (steps: Vec<TopologyStep>)
    ensures
        step_views(steps@) =~= gateway_topology_plan().subrange(0, 3),
{
    let mut steps: Vec<TopologyStep> = Vec::new();
    steps.push(TopologyStep::DeclareExchange(ExchangeDecl {
        name: ExchangeName::PaymentsDeadLetter,
        kind: ExchangeKind::Direct,
        durable: true,
    }));
    steps.push(TopologyStep::DeclareQueue(QueueDecl {
        name: QueueName::PaymentsDeadLetter,
        durable: true,
        dead_letter_exchange: None,
    }));
    steps.push(TopologyStep::BindQueue(BindingDecl {
        exchange: ExchangeName::PaymentsDeadLetter,
        queue: QueueName::PaymentsDeadLetter,
        routing_key: String::new(),
    }));
    steps
}

/// Declaration of the main exchange.
pub fn setup_payments_exchange() -> (steps: Vec<TopologyStep>)
    ensures
        step_views(steps@) =~= gateway_topology_plan().subrange(3, 4),
{
    let mut steps: Vec<TopologyStep> = Vec::new();
    steps.push(TopologyStep::DeclareExchange(ExchangeDecl {
        name: ExchangeName::Payments,
        kind: ExchangeKind::Direct,
        durable: true,
    }));
    steps
}

/// Declarations of the main queue, carrying the dead-letter-exchange
/// argument, and of its binding to the main exchange.
pub fn setup_payments_queue() -> (steps: Vec<TopologyStep>)
    ensures
        step_views(steps@) =~= gateway_topology_plan().subrange(4, 6),
{
    let mut steps: Vec<TopologyStep> = Vec::new();
    steps.push(TopologyStep::DeclareQueue(QueueDecl {
        name: QueueName::Payments,
        durable: true,
        dead_letter_exchange: Some(ExchangeName::PaymentsDeadLetter),
    }));
    steps.push(TopologyStep::BindQueue(BindingDecl {
        exchange: ExchangeName::Payments,
        queue: QueueName::Payments,
        routing_key: String::new(),
    }));
    steps
}

/// The whole declaration plan, as issued before consumption starts.
pub fn declare_topology_plan() -> (plan: Vec<TopologyStep>)
    ensures
        step_views(plan@) =~= gateway_topology_plan(),
{
    let mut plan = setup_dead_letter_exchange();
    let mut middle = setup_payments_exchange();
    let mut tail = setup_payments_queue();
    let ghost head0 = plan@;
    let ghost middle0 = middle@;
    let ghost tail0 = tail@;
    plan.append(&mut middle);
    plan.append(&mut tail);
    proof {
        let g = gateway_topology_plan();
        assert(head0.len() == step_views(head0).len());
        assert(middle0.len() == step_views(middle0).len());
        assert(tail0.len() == step_views(tail0).len());
        assert(head0.len() == 3 && middle0.len() == 1 && tail0.len() == 2);
        assert(plan@ =~= head0 + middle0 + tail0);
        assert forall|i: int| 0 <= i < plan@.len() implies #[trigger] step_views(plan@)[i]
            == g[i] by {
            if i < 3 {
                assert(step_views(head0)[i] == g.subrange(0, 3)[i]);
                assert(plan@[i] == head0[i]);
            } else if i < 4 {
                assert(step_views(middle0)[i - 3] == g.subrange(3, 4)[i - 3]);
                assert(plan@[i] == middle0[i - 3]);
            } else {
                assert(step_views(tail0)[i - 4] == g.subrange(4, 6)[i - 4]);
                assert(plan@[i] == tail0[i - 4]);
            }
        }
        assert(step_views(plan@) =~= g);
    }
    plan
}

/// The structural invariant of the topology: every entity is durable, and
/// the main queue carries a dead-letter argument naming the dead-letter
/// exchange, which the plan also declares and binds to the dead-letter
/// queue.
pub open spec fn plan_well_formed(plan: Seq<TopologyStepView>) -> bool {
    &&& forall|i: int|
        0 <= i < plan.len() ==> match #[trigger] plan[i] {
            TopologyStepView::DeclareExchange(e) => e.durable,
            TopologyStepView::DeclareQueue(q) => q.durable,
            TopologyStepView::BindQueue(_) => true,
        }
    &&& exists|i: int|
        0 <= i < plan.len() && (#[trigger] plan[i] matches TopologyStepView::DeclareQueue(q)
            && q.name == QueueName::Payments && q.dead_letter_exchange == Some(
            ExchangeName::PaymentsDeadLetter,
        ))
    &&& exists|i: int|
        0 <= i < plan.len() && (#[trigger] plan[i] matches TopologyStepView::DeclareExchange(e)
            && e.name == ExchangeName::PaymentsDeadLetter)
    &&& exists|i: int|
        0 <= i < plan.len() && (#[trigger] plan[i] matches TopologyStepView::BindQueue(b)
            && b.exchange == ExchangeName::PaymentsDeadLetter && b.queue
            == QueueName::PaymentsDeadLetter)
}

/// The gateway's plan satisfies the structural invariant.
pub proof fn lemma_gateway_plan_well_formed()
    ensures
        plan_well_formed(gateway_topology_plan()),
{
    let plan = gateway_topology_plan();
    assert(plan[4] matches TopologyStepView::DeclareQueue(q) && q.name == QueueName::Payments
        && q.dead_letter_exchange == Some(ExchangeName::PaymentsDeadLetter));
    assert(plan[0] matches TopologyStepView::DeclareExchange(e) && e.name
        == ExchangeName::PaymentsDeadLetter);
    assert(plan[2] matches TopologyStepView::BindQueue(b) && b.exchange
        == ExchangeName::PaymentsDeadLetter && b.queue == QueueName::PaymentsDeadLetter);
}

} // verus!
