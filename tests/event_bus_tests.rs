use rumt::event_bus::{
    RuntimeEvent, RuntimeEventBus, RuntimeEventListener, RuntimeEventListenerHandlerArg,
};

fn static_key(name: &str) -> RuntimeEvent {
    RuntimeEvent::Static { event_name: name.to_string() }
}

fn once_key(name: &str) -> RuntimeEvent {
    RuntimeEvent::OnceTriggered { event_name: name.to_string() }
}

fn listener(tag: &str, payload_type: &str, id: u32) -> RuntimeEventListener<u32> {
    RuntimeEventListener::new(tag.to_string(), payload_type.to_string(), id)
}

fn arg<T>(payload_type: &str, value: T) -> RuntimeEventListenerHandlerArg<T> {
    RuntimeEventListenerHandlerArg::new(payload_type.to_string(), value)
}

/// Runs one emission: the handlers it delivers to, in order, then its end.
fn emit<T>(bus: &mut RuntimeEventBus<u32>, event: &RuntimeEvent, payload: &RuntimeEventListenerHandlerArg<T>) -> Vec<u32> {
    let fired: Vec<u32> = bus.listeners_for(event, payload).into_iter().copied().collect();
    bus.finish_emission(event);
    fired
}

struct TestPayload {
    data: String,
}

#[test]
fn test_event_bus_flow() {
    let mut bus: RuntimeEventBus<u32> = RuntimeEventBus::new();
    let mut storage: Vec<String> = Vec::new();
    bus.add_listener(static_key("order.created"), listener("InventoryService", "TestPayload", 0));

    let event = RuntimeEvent::Static { event_name: "order.created".into() };
    let payload = arg("TestPayload", TestPayload { data: "Merhaba Rust!".into() });
    for _id in emit(&mut bus, &event, &payload) {
        let p = payload.downcast("TestPayload").unwrap();
        storage.push(p.data.clone());
    }

    assert_eq!(storage.len(), 1);
    assert_eq!(storage[0], "Merhaba Rust!");
}

#[test]
fn listeners_fire_in_registration_order() {
    let mut bus: RuntimeEventBus<u32> = RuntimeEventBus::new();
    for id in 1..=4u32 {
        bus.add_listener(static_key("log"), listener("Logger", "u8", id));
    }
    let mut log: Vec<u32> = Vec::new();
    for id in emit(&mut bus, &static_key("log"), &arg("u8", 7u8)) {
        log.push(id);
    }
    assert_eq!(log, vec![1, 2, 3, 4]);
    assert_eq!(emit(&mut bus, &static_key("log"), &arg("u8", 8u8)), vec![1, 2, 3, 4]);
}

#[test]
fn duplicate_registrations_both_fire() {
    let mut bus: RuntimeEventBus<u32> = RuntimeEventBus::new();
    bus.add_listener(static_key("x"), listener("A", "u8", 5));
    bus.add_listener(static_key("x"), listener("A", "u8", 5));
    assert_eq!(emit(&mut bus, &static_key("x"), &arg("u8", 0u8)), vec![5, 5]);
}

#[test]
fn once_key_fires_once() {
    let mut bus: RuntimeEventBus<u32> = RuntimeEventBus::new();
    bus.add_listener(once_key("x"), listener("A", "u8", 1));
    bus.add_listener(once_key("x"), listener("B", "u8", 2));
    let first = emit(&mut bus, &once_key("x"), &arg("u8", 0u8));
    let second = emit(&mut bus, &once_key("x"), &arg("u8", 0u8));
    assert_eq!(first, vec![1, 2]);
    assert!(second.is_empty());
    assert_eq!(first.len() + second.len(), 2);
}

#[test]
fn static_and_once_keys_are_independent() {
    let mut bus: RuntimeEventBus<u32> = RuntimeEventBus::new();
    bus.add_listener(static_key("x"), listener("S", "u8", 1));
    bus.add_listener(once_key("x"), listener("O", "u8", 2));
    assert!(static_key("x") != once_key("x"));
    assert_eq!(emit(&mut bus, &once_key("x"), &arg("u8", 0u8)), vec![2]);
    assert_eq!(emit(&mut bus, &static_key("x"), &arg("u8", 0u8)), vec![1]);
    assert_eq!(emit(&mut bus, &static_key("x"), &arg("u8", 0u8)), vec![1]);
    assert!(emit(&mut bus, &once_key("x"), &arg("u8", 0u8)).is_empty());
}

#[test]
fn removing_a_tag_leaves_the_others() {
    let mut bus: RuntimeEventBus<u32> = RuntimeEventBus::new();
    bus.add_listener(static_key("e"), listener("A", "u8", 1));
    bus.add_listener(static_key("e"), listener("A", "u8", 2));
    bus.add_listener(static_key("e"), listener("B", "u8", 3));
    bus.remove_all_listeners_by_tag("A");
    assert_eq!(emit(&mut bus, &static_key("e"), &arg("u8", 0u8)), vec![3]);
}

#[test]
fn removing_a_tag_spans_keys_and_is_idempotent() {
    let mut bus: RuntimeEventBus<u32> = RuntimeEventBus::new();
    bus.add_listener(static_key("e"), listener("A", "u8", 1));
    bus.add_listener(once_key("f"), listener("A", "u8", 2));
    bus.add_listener(static_key("f"), listener("B", "u8", 3));
    bus.add_listener(static_key("e"), listener("C", "u8", 4));
    bus.remove_all_listeners_by_tag("Z");
    bus.remove_all_listeners_by_tag("A");
    bus.remove_all_listeners_by_tag("A");
    assert_eq!(emit(&mut bus, &static_key("e"), &arg("u8", 0u8)), vec![4]);
    assert!(emit(&mut bus, &once_key("f"), &arg("u8", 0u8)).is_empty());
    assert_eq!(emit(&mut bus, &static_key("f"), &arg("u8", 0u8)), vec![3]);
}

#[test]
fn mismatched_payload_type_is_skipped() {
    let mut bus: RuntimeEventBus<u32> = RuntimeEventBus::new();
    bus.add_listener(static_key("k"), listener("A", "P", 1));
    bus.add_listener(static_key("k"), listener("B", "Q", 2));
    assert_eq!(emit(&mut bus, &static_key("k"), &arg("Q", 0u8)), vec![2]);
    assert!(emit(&mut bus, &static_key("k"), &arg("R", 0u8)).is_empty());
    assert_eq!(emit(&mut bus, &static_key("k"), &arg("P", 0u8)), vec![1]);
}

#[test]
fn order_created_delivers_each_payload() {
    let mut bus: RuntimeEventBus<u32> = RuntimeEventBus::new();
    bus.add_listener(static_key("order.created"), listener("Inventory", "TestPayload", 9));
    let mut observed: Vec<String> = Vec::new();
    for data in ["hello", "world"] {
        let payload = arg("TestPayload", TestPayload { data: data.to_string() });
        for id in emit(&mut bus, &static_key("order.created"), &payload) {
            assert_eq!(id, 9);
            observed.push(payload.downcast("TestPayload").unwrap().data.clone());
        }
    }
    assert_eq!(observed, vec!["hello".to_string(), "world".to_string()]);
}

#[test]
fn emitting_without_listeners_does_nothing() {
    let mut bus: RuntimeEventBus<u32> = RuntimeEventBus::new();
    assert!(emit(&mut bus, &static_key("nobody"), &arg("u8", 0u8)).is_empty());
    bus.add_listener(static_key("someone"), listener("A", "u8", 1));
    assert!(emit(&mut bus, &static_key("nobody"), &arg("u8", 0u8)).is_empty());
    assert!(emit(&mut bus, &once_key("someone"), &arg("u8", 0u8)).is_empty());
    assert_eq!(emit(&mut bus, &static_key("someone"), &arg("u8", 0u8)), vec![1]);
}

#[test]
fn downcast_checks_the_type_key() {
    let a = arg("Arc<u64>", 42u64);
    assert_eq!(a.downcast("Arc<u64>"), Some(&42u64));
    assert_eq!(a.downcast("u64"), None);
    assert_eq!(a.downcast(""), None);
}

#[test]
fn event_keys_compare_by_form_and_name() {
    assert!(static_key("a") == static_key("a"));
    assert!(once_key("a") == once_key("a"));
    assert!(static_key("a") != static_key("b"));
    assert!(static_key("a") != once_key("a"));
    assert!(once_key("a").is_once());
    assert!(!static_key("a").is_once());
    assert_eq!(once_key("n").event_name(), "n");
}
