use launchpad::auth::Authorization;
use launchpad::func::compose;
use launchpad::grouping::index;
use launchpad::mq::{Envelope, Exchange as MqExchange, ProcessorError, Queue as MqQueue};
use launchpad::mq_setup::{
    Binding, Exchange, ExchangeBuilder, ExchangeType, Queue, Topology, TopologyBuilder,
};
use launchpad::numeral::dec_str;

#[derive(Debug, PartialEq, Eq)]
struct Thing {
    i: i32,
}

impl Thing {
    fn new(i: i32) -> Self {
        Self { i }
    }
}

#[test]
fn test_compose() {
    let create = compose(Thing::new, Some);
    let something = create.apply(1);
    assert_eq!(something, Some(Thing { i: 1 }));
}

#[test]
fn test_index() {
    let items = vec![
        ("a".to_string(), 1),
        ("b".to_string(), 2),
        ("a".to_string(), 3),
    ];
    let ix = index(items);
    assert_eq!(ix.len(), 2);
    assert!(ix[0].0 == "a");
    assert_eq!(ix[0].1, vec![1, 3]);
    assert!(ix[1].0 == "b");
    assert_eq!(ix[1].1, vec![2]);
}

#[test]
fn index_keeps_first_seen_order() {
    let items = vec![
        ("blue".to_string(), 10),
        ("red".to_string(), 20),
        ("blue".to_string(), 30),
        ("green".to_string(), 40),
        ("red".to_string(), 50),
    ];
    let ix = index(items);
    let names: Vec<&str> = ix.iter().map(|g| g.0.as_str()).collect();
    assert_eq!(names, vec!["blue", "red", "green"]);
    assert_eq!(ix[0].1, vec![10, 30]);
    assert_eq!(ix[1].1, vec![20, 50]);
    assert_eq!(ix[2].1, vec![40]);
}

#[test]
fn setup_usage() {
    let topology: Topology<&str> = Topology::builder()
        .with_queue(Queue::new("test.queue"))
        .with_exchange(Exchange::builder("test.exchange").build())
        .with_binding(Binding::ToQueue {
            src_exchange_name: "test.exchange",
            target_queue_name: "test.queue",
            routing_key: None,
        })
        .build();

    assert_eq!(topology.queues().len(), 1);
    assert!(*topology.queues()[0].name() == "test.queue");
    assert_eq!(topology.exchanges().len(), 1);
    assert!(*topology.exchanges()[0].name() == "test.exchange");
    assert!(topology.exchanges()[0].kind() == ExchangeType::Direct);
    assert!(topology.exchanges()[0].durable());
    assert_eq!(topology.bindings().len(), 1);
    match &topology.bindings()[0] {
        Binding::ToQueue { src_exchange_name, target_queue_name, routing_key } => {
            assert!(*src_exchange_name == "test.exchange");
            assert!(*target_queue_name == "test.queue");
            assert!(routing_key.is_none());
        }
        Binding::ToExchange { .. } => panic!("expected a queue binding"),
    }
}

#[test]
fn exchange_builder_overrides_defaults() {
    let exchange = Exchange::builder("events")
        .with_kind(ExchangeType::Topic)
        .with_durable(false)
        .build();
    assert!(*exchange.name() == "events");
    assert!(exchange.kind() == ExchangeType::Topic);
    assert!(!exchange.durable());
}

#[test]
fn envelope_and_channel_names() {
    let envelope = Envelope::new(41);
    assert_eq!(envelope.message, 41);

    let queue = MqQueue::new("usage-queue");
    assert_eq!(queue.name, "usage-queue");

    let exchange = MqExchange::new("usage-exchange", Some("rk"));
    assert_eq!(exchange.name, "usage-exchange");
    assert_eq!(exchange.routing_key, Some("rk"));

    let err = ProcessorError::TemporaryError("busy".to_string());
    assert!(matches!(err, ProcessorError::TemporaryError(_)));
}

#[test]
fn decimal_rendering_is_exact() {
    assert_eq!(dec_str(0), "0");
    assert_eq!(dec_str(7), "7");
    assert_eq!(dec_str(10), "10");
    assert_eq!(dec_str(105), "105");
    assert_eq!(dec_str(98761), "98761");
}

#[test]
fn authorization_carries_principle_and_permissions() {
    let auth = Authorization::new("user-7".to_string(), vec!["read".to_string()]);
    assert!(auth.principle() == "user-7");
    assert_eq!(auth.permissions().len(), 1);
    assert!(auth.permissions()[0] == "read");
}
