use host_notify::bus::Bus;
use host_notify::codec::decode_host_metrics;
use host_notify::errors::ServiceError;
use host_notify::events::HostMetricsNotificationEvent;
use host_notify::publisher::host_metrics_binding;
use host_notify::publisher::step;
use host_notify::publisher::Greeter;
use host_notify::publisher::PublisherAction;
use host_notify::publisher::PublisherInput;
use host_notify::publisher::PublisherState;

#[test]
fn say_hello_greets_by_name() {
    let g = Greeter;
    assert_eq!(g.say_hello("World"), "Hello World!");
    assert_eq!(g.say_hello(""), "Hello !");
}

#[test]
fn startup_transitions() {
    assert_eq!(
        step(PublisherState::Unregistered, PublisherInput::ConnectOk),
        (PublisherState::Connected, PublisherAction::ClaimName)
    );
    assert_eq!(
        step(PublisherState::Unregistered, PublisherInput::ConnectFailed),
        (
            PublisherState::Stopped,
            PublisherAction::Fail(ServiceError::Connection)
        )
    );
    assert_eq!(
        step(PublisherState::Connected, PublisherInput::NameClaimed),
        (PublisherState::Registered, PublisherAction::WaitTick)
    );
}

#[test]
fn taken_name_is_fatal_at_startup() {
    let (s, a) = step(PublisherState::Connected, PublisherInput::NameTaken);
    assert_eq!(s, PublisherState::Stopped);
    assert_eq!(a, PublisherAction::Fail(ServiceError::NameTaken));
    assert!(ServiceError::NameTaken.is_fatal());
}

#[test]
fn sampling_failure_skips_the_tick() {
    let (s, a) = step(PublisherState::Running, PublisherInput::SampleFailed);
    assert_eq!(s, PublisherState::Registered);
    assert_eq!(a, PublisherAction::WaitTick);
    assert!(!ServiceError::Sampling.is_fatal());
}

#[test]
fn tick_samples_then_emits_then_waits() {
    let m = HostMetricsNotificationEvent {
        cpu_usage: 5,
        total_memory: 10,
        available_memory: 5,
    };
    assert_eq!(
        step(PublisherState::Registered, PublisherInput::TickFired),
        (PublisherState::Running, PublisherAction::Sample)
    );
    assert_eq!(
        step(PublisherState::Running, PublisherInput::SampleOk(m)),
        (PublisherState::Running, PublisherAction::Emit(m))
    );
    assert_eq!(
        step(PublisherState::Running, PublisherInput::EmitOk),
        (PublisherState::Registered, PublisherAction::WaitTick)
    );
    assert_eq!(
        step(PublisherState::Running, PublisherInput::EmitFailed),
        (
            PublisherState::Stopped,
            PublisherAction::Fail(ServiceError::Transport)
        )
    );
}

#[test]
fn interrupt_releases_and_stops() {
    assert_eq!(
        step(PublisherState::Registered, PublisherInput::Interrupted),
        (PublisherState::ShuttingDown, PublisherAction::ReleaseName)
    );
    assert_eq!(
        step(PublisherState::ShuttingDown, PublisherInput::EmitOk),
        (PublisherState::Stopped, PublisherAction::Idle)
    );
}

#[test]
fn batch_emits_readings_in_tick_order_and_skips_failures() {
    let g = Greeter;
    let mut bus = Bus::new();
    let binding = host_metrics_binding();
    let e1 = HostMetricsNotificationEvent {
        cpu_usage: 100,
        total_memory: 2000,
        available_memory: 1500,
    };
    let e2 = HostMetricsNotificationEvent {
        cpu_usage: 200,
        total_memory: 2000,
        available_memory: 1400,
    };
    let samples = vec![Some(e1), None, Some(e2)];
    let emitted = g.get_host_metrics(&mut bus, &binding, &samples);
    assert_eq!(emitted, 2);
    assert_eq!(bus.log.len(), 2);
    assert_eq!(decode_host_metrics(&bus.log[0].payload).unwrap(), e1);
    assert_eq!(decode_host_metrics(&bus.log[1].payload).unwrap(), e2);
    assert!(bus.log[0].binding.agrees_with(&binding));
    assert!(bus.log[1].binding.agrees_with(&binding));
}

#[test]
fn fresh_reading_respects_invariants() {
    let e = HostMetricsNotificationEvent::new(1250, 16_000_000_000, 9_000_000_000).unwrap();
    assert!(e.available_memory <= e.total_memory);
    assert!(e.cpu_usage <= 10000);
    assert_eq!(
        HostMetricsNotificationEvent::new(10001, 10, 5).unwrap_err(),
        ServiceError::Sampling
    );
    assert_eq!(
        HostMetricsNotificationEvent::new(0, 10, 11).unwrap_err(),
        ServiceError::Sampling
    );
}

#[test]
fn error_taxonomy_fatality() {
    assert!(ServiceError::Connection.is_fatal());
    assert!(ServiceError::NameTaken.is_fatal());
    assert!(!ServiceError::Sampling.is_fatal());
    assert!(ServiceError::Transport.is_fatal());
    assert!(ServiceError::Decode.is_fatal());
}

#[test]
fn empty_batch_emits_nothing() {
    let g = Greeter;
    let mut bus = Bus::new();
    let binding = host_metrics_binding();
    let emitted = g.get_host_metrics(&mut bus, &binding, &Vec::new());
    assert_eq!(emitted, 0);
    assert!(bus.log.is_empty());
}

#[test]
fn boundary_readings_are_accepted() {
    // a fully loaded CPU and fully available memory are valid readings
    let e = HostMetricsNotificationEvent::new(10000, u64::MAX, u64::MAX).unwrap();
    assert_eq!(e.cpu_usage, 10000);
    assert_eq!(e.available_memory, e.total_memory);
    let idle = HostMetricsNotificationEvent::new(0, 0, 0).unwrap();
    assert_eq!(idle.cpu_usage, 0);
}
