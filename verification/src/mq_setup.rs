//! Declarative broker topology: queues, exchanges and bindings collected by
//! builders. Applying a topology to a live channel lives with the
//! application.

use vstd::prelude::*;

verus! {

/// A queue declaration.
pub struct Queue<Name> {
    name: Name,
}

impl<Name> Queue<Name> {
    /// The declared queue name.
    pub closed spec fn spec_name(&self) -> Name {
        self.name
    }

    pub fn new(name: Name) -> (r: Self)
        ensures
            r.spec_name() == name,
    {
        Queue { name }
    }

    pub fn name(&self) -> (r: &Name)
        ensures
            *r == self.spec_name(),
    {
        &self.name
    }
}

/// The kind of an exchange.
#[derive(Clone, Copy, Debug, PartialEq, Eq, Structural)]
pub enum ExchangeType {
    Direct,
    Topic,
}

/// An exchange declaration: its name, kind, and durability.
pub struct Exchange<Name> {
    name: Name,
    kind: ExchangeType,
    durable: bool,
}

impl<Name> Exchange<Name> {
    /// The declared exchange name.
    pub closed spec fn spec_name(&self) -> Name {
        self.name
    }

    /// The declared exchange kind.
    pub closed spec fn spec_kind(&self) -> ExchangeType {
        self.kind
    }

    /// Whether the exchange is declared durable.
    pub closed spec fn spec_durable(&self) -> bool {
        self.durable
    }

    pub fn new(name: Name, kind: ExchangeType, durable: bool) -> (r: Self)
        ensures
            r.spec_name() == name,
            r.spec_kind() == kind,
            r.spec_durable() == durable,
    {
        Exchange { name, kind, durable }
    }

    /// A draft exchange with the defaults: a durable direct exchange.
    pub fn builder(name: Name) -> (r: Exchange<Name>)
        ensures
            r.spec_name() == name,
            r.spec_kind() == ExchangeType::Direct,
            r.spec_durable() == true,
    {
        Exchange::new(name, ExchangeType::Direct, true)
    }

    pub fn name(&self) -> (r: &Name)
        ensures
            *r == self.spec_name(),
    {
        &self.name
    }

    pub fn kind(&self) -> (r: ExchangeType)
        ensures
            r == self.spec_kind(),
    {
        self.kind
    }

    pub fn durable(&self) -> (r: bool)
        ensures
            r == self.spec_durable(),
    {
        self.durable
    }
}

/// Completes an exchange declaration from a draft.
pub trait ExchangeBuilder<Name>: Sized {
    /// The draft's name.
    spec fn draft_name(&self) -> Name;

    /// The draft's kind.
    spec fn draft_kind(&self) -> ExchangeType;

    /// The draft's durability.
    spec fn draft_durable(&self) -> bool;

    fn with_kind(self, kind: ExchangeType) -> (r: Self)
        ensures
            r.draft_name() == self.draft_name(),
            r.draft_kind() == kind,
            r.draft_durable() == self.draft_durable(),
    ;

    fn with_durable(self, durable: bool) -> (r: Self)
        ensures
            r.draft_name() == self.draft_name(),
            r.draft_kind() == self.draft_kind(),
            r.draft_durable() == durable,
    ;

    fn build(self) -> (e: Exchange<Name>)
        ensures
            e.spec_name() == self.draft_name(),
            e.spec_kind() == self.draft_kind(),
            e.spec_durable() == self.draft_durable(),
    ;
}

impl<Name> ExchangeBuilder<Name> for Exchange<Name> {
    closed spec fn draft_name(&self) -> Name {
        self.name
    }

    closed spec fn draft_kind(&self) -> ExchangeType {
        self.kind
    }

    closed spec fn draft_durable(&self) -> bool {
        self.durable
    }

    fn with_kind(self, kind: ExchangeType) -> (r: Self) {
        Exchange { kind, ..self }
    }

    fn with_durable(self, durable: bool) -> (r: Self) {
        Exchange { durable, ..self }
    }

    fn build(self) -> (e: Exchange<Name>) {
        self
    }
}

/// A binding from an exchange to a queue, or from an exchange to another
/// exchange, with an optional routing key.
pub enum Binding<Name> {
    ToQueue { src_exchange_name: Name, target_queue_name: Name, routing_key: Option<Name> },
    ToExchange { src_exchange_name: Name, target_exchange_name: Name, routing_key: Option<Name> },
}

/// Everything to declare on a channel: queues, exchanges, and bindings, in
/// the order they were added.
pub struct Topology<Name> {
    queues: Vec<Queue<Name>>,
    exchanges: Vec<Exchange<Name>>,
    bindings: Vec<Binding<Name>>,
}

impl<Name> Topology<Name> {
    /// The declared queues, in insertion order.
    pub closed spec fn spec_queues(&self) -> Seq<Queue<Name>> {
        self.queues@
    }

    /// The declared exchanges, in insertion order.
    pub closed spec fn spec_exchanges(&self) -> Seq<Exchange<Name>> {
        self.exchanges@
    }

    /// The declared bindings, in insertion order.
    pub closed spec fn spec_bindings(&self) -> Seq<Binding<Name>> {
        self.bindings@
    }

    /// An empty topology.
    pub fn new() -> (r: Self)
        ensures
            r.spec_queues() == Seq::<Queue<Name>>::empty(),
            r.spec_exchanges() == Seq::<Exchange<Name>>::empty(),
            r.spec_bindings() == Seq::<Binding<Name>>::empty(),
    {
        Topology { queues: Vec::new(), exchanges: Vec::new(), bindings: Vec::new() }
    }

    /// An empty draft to build a topology from.
    pub fn builder() -> (r: Topology<Name>)
        ensures
            r.spec_queues() == Seq::<Queue<Name>>::empty(),
            r.spec_exchanges() == Seq::<Exchange<Name>>::empty(),
            r.spec_bindings() == Seq::<Binding<Name>>::empty(),
    {
        Topology::new()
    }

    pub fn queues(&self) -> (r: &Vec<Queue<Name>>)
        ensures
            r@ == self.spec_queues(),
    {
        &self.queues
    }

    pub fn exchanges(&self) -> (r: &Vec<Exchange<Name>>)
        ensures
            r@ == self.spec_exchanges(),
    {
        &self.exchanges
    }

    pub fn bindings(&self) -> (r: &Vec<Binding<Name>>)
        ensures
            r@ == self.spec_bindings(),
    {
        &self.bindings
    }
}

/// Collects a topology declaration by declaration.
pub trait TopologyBuilder<Name>: Sized {
    /// The queues collected so far.
    spec fn draft_queues(&self) -> Seq<Queue<Name>>;

    /// The exchanges collected so far.
    spec fn draft_exchanges(&self) -> Seq<Exchange<Name>>;

    /// The bindings collected so far.
    spec fn draft_bindings(&self) -> Seq<Binding<Name>>;

    fn with_queue(self, queue: Queue<Name>) -> (r: Self)
        ensures
            r.draft_queues() == self.draft_queues().push(queue),
            r.draft_exchanges() == self.draft_exchanges(),
            r.draft_bindings() == self.draft_bindings(),
    ;

    fn with_exchange(self, exchange: Exchange<Name>) -> (r: Self)
        ensures
            r.draft_queues() == self.draft_queues(),
            r.draft_exchanges() == self.draft_exchanges().push(exchange),
            r.draft_bindings() == self.draft_bindings(),
    ;

    fn with_binding(self, binding: Binding<Name>) -> (r: Self)
        ensures
            r.draft_queues() == self.draft_queues(),
            r.draft_exchanges() == self.draft_exchanges(),
            r.draft_bindings() == self.draft_bindings().push(binding),
    ;

    fn build(self) -> (t: Topology<Name>)
        ensures
            t.spec_queues() == self.draft_queues(),
            t.spec_exchanges() == self.draft_exchanges(),
            t.spec_bindings() == self.draft_bindings(),
    ;
}

impl<Name> TopologyBuilder<Name> for Topology<Name> {
    closed spec fn draft_queues(&self) -> Seq<Queue<Name>> {
        self.queues@
    }

    closed spec fn draft_exchanges(&self) -> Seq<Exchange<Name>> {
        self.exchanges@
    }

    closed spec fn draft_bindings(&self) -> Seq<Binding<Name>> {
        self.bindings@
    }

    fn with_queue(self, queue: Queue<Name>) -> (r: Self) {
        let mut t = self;
        t.queues.push(queue);
        t
    }

    fn with_exchange(self, exchange: Exchange<Name>) -> (r: Self) {
        let mut t = self;
        t.exchanges.push(exchange);
        t
    }

    fn with_binding(self, binding: Binding<Name>) -> (r: Self) {
        let mut t = self;
        t.bindings.push(binding);
        t
    }

    fn build(self) -> (t: Topology<Name>) {
        self
    }
}

} // verus!
