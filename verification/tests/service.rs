use host_notify::bus::Bus;
use host_notify::bus::Signal;
use host_notify::codec::Field;
use host_notify::codec::Value;
use host_notify::errors::ServiceError;
use host_notify::events::Event;
use host_notify::events::HostMetricsNotificationEvent;
use host_notify::publisher::host_metrics_binding;
use host_notify::publisher::well_known_name;
use host_notify::publisher::Greeter;
use host_notify::subscriber::consume_signals;
use host_notify::tick::TickSchedule;

/// A 1-second publisher emits two fixed readings on ticks one and two; a
/// subscriber opened before the first tick receives exactly those two
/// records, in that order, and each tick fires at its due instant.
#[test]
fn end_to_end_two_ticks() {
    let g = Greeter;
    let mut bus = Bus::new();
    bus.claim_name(well_known_name()).unwrap();
    let binding = host_metrics_binding();
    let mut sub = bus.subscribe(&binding);

    let e1 = HostMetricsNotificationEvent {
        cpu_usage: 1250, // 12.5%
        total_memory: 16_000_000_000,
        available_memory: 9_000_000_000,
    };
    let e2 = HostMetricsNotificationEvent {
        cpu_usage: 4000, // 40.0%
        total_memory: 16_000_000_000,
        available_memory: 8_000_000_000,
    };

    let mut sched = TickSchedule::new(1000, 1000);
    let t1 = sched.fire(1000);
    assert_eq!(g.get_host_metrics(&mut bus, &binding, &vec![Some(e1)]), 1);
    let t2 = sched.fire(2000);
    assert_eq!(g.get_host_metrics(&mut bus, &binding, &vec![Some(e2)]), 1);

    // each tick fires at its due instant: well within 1.5 s of it
    assert_eq!(t1, 1000);
    assert_eq!(t2, 2000);

    let events = consume_signals(&bus, &mut sub).unwrap();
    assert_eq!(events.len(), 2);
    match &events[0] {
        Event::HostMetrics(m) => assert_eq!(*m, e1),
        _ => panic!("first delivery is not a host-metrics record"),
    }
    match &events[1] {
        Event::HostMetrics(m) => assert_eq!(*m, e2),
        _ => panic!("second delivery is not a host-metrics record"),
    }
    // nothing further is due
    assert!(consume_signals(&bus, &mut sub).unwrap().is_empty());
}

#[test]
fn undecodable_payload_terminates_the_consumer() {
    let mut bus = Bus::new();
    let binding = host_metrics_binding();
    let mut sub = bus.subscribe(&binding);
    let junk = vec![Field {
        name: String::from("volume"),
        value: Value::U32(11),
    }];
    bus.emit_signal(Signal {
        binding: binding.clone(),
        payload: junk,
    })
    .unwrap();
    assert_eq!(
        consume_signals(&bus, &mut sub).unwrap_err(),
        ServiceError::Decode
    );
}

#[test]
fn consumer_decodes_in_delivery_order_until_failure() {
    let g = Greeter;
    let mut bus = Bus::new();
    let binding = host_metrics_binding();
    let mut sub = bus.subscribe(&binding);
    let good = HostMetricsNotificationEvent {
        cpu_usage: 1,
        total_memory: 2,
        available_memory: 1,
    };
    g.get_host_metrics(&mut bus, &binding, &vec![Some(good)]);
    let events = consume_signals(&bus, &mut sub).unwrap();
    assert_eq!(events.len(), 1);
}
