use mqtt_client::mqtt::packet::{Publish, QoS};
use mqtt_client::runtime::module::{
    Interval, Listener, Listening, ModulePair, MqttModule, NoopModule, PublishOutbox,
    TopicCollector,
};
use mqtt_client::runtime::publisher::{BufferedOutbox, PublishRequest};
use mqtt_client::runtime::registry::{TopicRegistry, MAX_TOPIC_LEN};

struct Light {
    topic: &'static str,
    heard: usize,
    every: u64,
}

impl MqttModule for Light {
    fn register<C: TopicCollector + ?Sized>(&self, collector: &mut C) {
        collector.add(self.topic);
    }
    fn on_message(&mut self, msg: &Publish<'_>) {
        if msg.topic == self.topic {
            self.heard += 1;
        }
    }
    fn on_tick<O: PublishOutbox + ?Sized>(&mut self, outbox: &mut O) -> Interval {
        outbox.publish(self.topic, b"on", QoS::AtLeastOnce);
        Interval { millis: self.every }
    }
    fn on_start<O: PublishOutbox + ?Sized>(&mut self, outbox: &mut O) {
        outbox.publish_with_retain(self.topic, b"online", QoS::AtLeastOnce, true);
    }
    fn needs_immediate_publish(&self) -> bool {
        self.heard > 0
    }
    fn on_publish<O: PublishOutbox + ?Sized>(&mut self, outbox: &mut O) {
        outbox.publish(self.topic, b"heard", QoS::AtMostOnce);
        self.heard = 0;
    }
}

struct Counter {
    heard: usize,
}

impl Listener for Counter {
    fn subscribe<C: TopicCollector + ?Sized>(&self, collector: &mut C) {
        collector.add("count");
    }
    fn hear(&mut self, _msg: &Publish<'_>) {
        self.heard += 1;
    }
}

fn message(topic: &str) -> Publish<'_> {
    Publish {
        topic,
        qos: QoS::AtMostOnce,
        retain: false,
        payload: b"",
        packet_id: None,
        properties: heapless::Vec::new(),
    }
}

fn queued<M: MqttModule>(
    module: &mut M,
    call: fn(&mut M, &mut BufferedOutbox<4, 16, 16>),
) -> Vec<(String, Vec<u8>, bool)> {
    let mut o: BufferedOutbox<4, 16, 16> = BufferedOutbox::new();
    call(module, &mut o);
    o.drain().into_iter().map(|q| (q.topic, q.payload.to_vec(), q.retain)).collect()
}

#[test]
fn registries_hold_what_fits() {
    let mut r = TopicRegistry::<2>::new();
    assert!(r.is_empty());
    assert!(r.add_topic("a"));
    assert!(!r.add_topic(&"x".repeat(MAX_TOPIC_LEN + 1)));
    assert!(r.add(&"y".repeat(MAX_TOPIC_LEN)));
    assert!(!r.add_topic("b"));
    assert_eq!(r.len(), 2);
    assert_eq!(r.iter()[0], "a");
    r.clear();
    assert!(r.is_empty());
}

#[test]
fn outboxes_hold_what_fits() {
    let mut o: BufferedOutbox<2, 4, 3> = BufferedOutbox::new();
    o.publish("topic", b"x", QoS::AtMostOnce);
    o.publish("t", b"long", QoS::AtMostOnce);
    assert!(o.is_empty());
    o.publish("t", b"abc", QoS::AtMostOnce);
    o.publish_with_retain("u", b"", QoS::ExactlyOnce, true);
    o.publish("v", b"", QoS::AtMostOnce);
    assert_eq!(o.len(), 2);
    let out = o.drain();
    assert!(o.is_empty());
    assert_eq!((out[0].topic.as_str(), &out[0].payload[..], out[0].retain), ("t", &b"abc"[..], false));
    assert_eq!((out[1].topic.as_str(), out[1].qos, out[1].retain), ("u", QoS::ExactlyOnce, true));
    o.publish("w", b"", QoS::AtMostOnce);
    o.clear();
    assert_eq!(o.len(), 0);
}

#[test]
fn modules_do_nothing_by_default() {
    let mut n = NoopModule;
    let mut o: BufferedOutbox<4, 16, 16> = BufferedOutbox::default();
    assert_eq!(n.on_tick(&mut o).millis, 60_000);
    n.on_start(&mut o);
    n.on_publish(&mut o);
    assert!(o.is_empty());
    assert!(!n.needs_immediate_publish());
}

#[test]
fn pairs_run_both_modules() {
    let mut p = ModulePair::new(
        Light { topic: "a", heard: 0, every: 700 },
        Light { topic: "b", heard: 0, every: 500 },
    );
    let mut r = TopicRegistry::<4>::default();
    p.register(&mut r);
    assert_eq!(r.iter(), vec!["a", "b"]);
    let mut o: BufferedOutbox<4, 16, 16> = BufferedOutbox::new();
    assert_eq!(p.on_tick(&mut o).millis, 500);
    let topics: Vec<String> = o.drain().into_iter().map(|q| q.topic).collect();
    assert_eq!(topics, vec!["a", "b"]);
    assert!(!p.needs_immediate_publish());
    p.on_message(&message("b"));
    assert_eq!((p.first.heard, p.second.heard), (0, 1));
    assert!(p.needs_immediate_publish());
    p.on_message(&message("a"));
    p.second.heard = 0;
    assert!(p.needs_immediate_publish());
}

#[test]
fn pairs_start_and_publish_for_both_modules() {
    let mut p = ModulePair::new(
        Light { topic: "a", heard: 1, every: 700 },
        Light { topic: "b", heard: 1, every: 500 },
    );
    assert_eq!(
        queued(&mut p, |m, o| m.on_start(o)),
        vec![
            ("a".to_string(), b"online".to_vec(), true),
            ("b".to_string(), b"online".to_vec(), true),
        ]
    );
    assert_eq!(
        queued(&mut p, |m, o| m.on_publish(o)),
        vec![
            ("a".to_string(), b"heard".to_vec(), false),
            ("b".to_string(), b"heard".to_vec(), false),
        ]
    );
    assert_eq!((p.first.heard, p.second.heard), (0, 0));
    assert!(!p.needs_immediate_publish());
}

#[test]
fn listeners_are_quiet_modules() {
    let mut p = ModulePair::new(
        Listening { listener: Counter { heard: 0 } },
        Light { topic: "b", heard: 0, every: 90_000 },
    );
    let mut r = TopicRegistry::<4>::default();
    p.register(&mut r);
    assert_eq!(r.iter(), vec!["count", "b"]);
    p.on_message(&message("x"));
    assert_eq!(p.first.listener.heard, 1);
    let mut o: BufferedOutbox<4, 16, 16> = BufferedOutbox::new();
    assert_eq!(p.on_tick(&mut o).millis, 60_000);
    assert_eq!(o.len(), 1);
    assert!(queued(&mut p.first, |m, o| m.on_start(o)).is_empty());
    assert!(queued(&mut p.first, |m, o| m.on_publish(o)).is_empty());
    assert!(!p.needs_immediate_publish());
}

#[test]
fn requests_borrow() {
    let q = PublishRequest { topic: "t", payload: b"p", qos: QoS::AtMostOnce, retain: true };
    assert_eq!(q.clone().topic, "t");
}
