use host_notify::codec::decode_bluetooth;
use host_notify::codec::decode_event;
use host_notify::codec::decode_host_metrics;
use host_notify::codec::decode_power;
use host_notify::codec::decode_wireless;
use host_notify::codec::encode_bluetooth;
use host_notify::codec::encode_event;
use host_notify::codec::encode_host_metrics;
use host_notify::codec::encode_power;
use host_notify::codec::encode_wireless;
use host_notify::codec::Field;
use host_notify::codec::Value;
use host_notify::errors::ServiceError;
use host_notify::events::BluetoothNotificationEvent;
use host_notify::events::Event;
use host_notify::events::HostMetricsNotificationEvent;
use host_notify::events::PowerNotificationEvent;
use host_notify::events::WirelessNotificationEvent;

#[test]
fn host_metrics_round_trip() {
    let e = HostMetricsNotificationEvent {
        cpu_usage: 1250,
        total_memory: 16_000_000_000,
        available_memory: 9_000_000_000,
    };
    let p = encode_host_metrics(&e);
    let d = decode_host_metrics(&p).unwrap();
    assert_eq!(d, e);
}

#[test]
fn host_metrics_payload_is_self_describing() {
    let e = HostMetricsNotificationEvent {
        cpu_usage: 0,
        total_memory: 1,
        available_memory: 1,
    };
    let p = encode_host_metrics(&e);
    assert_eq!(p.len(), 3);
    assert_eq!(p[0].name, "cpu_usage");
    assert_eq!(p[0].value, Value::U32(0));
    assert_eq!(p[1].name, "total_memory");
    assert_eq!(p[1].value, Value::U64(1));
    assert_eq!(p[2].name, "available_memory");
    assert_eq!(p[2].value, Value::U64(1));
}

#[test]
fn power_round_trip() {
    let e = PowerNotificationEvent {
        status: String::from("charging"),
        percentage: 5000,
    };
    let p = encode_power(&e);
    let d = decode_power(&p).unwrap();
    assert_eq!(d.status, "charging");
    assert_eq!(d.percentage, 5000);
}

#[test]
fn wireless_round_trip() {
    let e = WirelessNotificationEvent {
        signal_strength: String::from("-52 dBm"),
        is_connected: true,
        is_enabled: true,
        frequency: String::from("5.18 GHz"),
        ssid: String::from("lab"),
    };
    let p = encode_wireless(&e);
    let d = decode_wireless(&p).unwrap();
    assert_eq!(d.signal_strength, "-52 dBm");
    assert!(d.is_connected);
    assert!(d.is_enabled);
    assert_eq!(d.frequency, "5.18 GHz");
    assert_eq!(d.ssid, "lab");
}

#[test]
fn bluetooth_round_trip() {
    let e = BluetoothNotificationEvent {
        is_connected: false,
        is_enabled: true,
    };
    let p = encode_bluetooth(&e);
    let d = decode_bluetooth(&p).unwrap();
    assert_eq!(d, e);
}

#[test]
fn tagged_event_round_trip_all_kinds() {
    let events = vec![
        Event::HostMetrics(HostMetricsNotificationEvent {
            cpu_usage: 10000,
            total_memory: u64::MAX,
            available_memory: u64::MAX,
        }),
        Event::Power(PowerNotificationEvent {
            status: String::from("full"),
            percentage: 10000,
        }),
        Event::Wireless(WirelessNotificationEvent {
            signal_strength: String::new(),
            is_connected: false,
            is_enabled: false,
            frequency: String::new(),
            ssid: String::new(),
        }),
        Event::Bluetooth(BluetoothNotificationEvent {
            is_connected: true,
            is_enabled: true,
        }),
    ];
    for ev in &events {
        let p = encode_event(ev);
        let d = decode_event(&p).unwrap();
        match (ev, &d) {
            (Event::HostMetrics(a), Event::HostMetrics(b)) => assert_eq!(a, b),
            (Event::Power(a), Event::Power(b)) => {
                assert_eq!(a.status, b.status);
                assert_eq!(a.percentage, b.percentage);
            }
            (Event::Wireless(a), Event::Wireless(b)) => {
                assert_eq!(a.signal_strength, b.signal_strength);
                assert_eq!(a.is_connected, b.is_connected);
                assert_eq!(a.is_enabled, b.is_enabled);
                assert_eq!(a.frequency, b.frequency);
                assert_eq!(a.ssid, b.ssid);
            }
            (Event::Bluetooth(a), Event::Bluetooth(b)) => assert_eq!(a, b),
            _ => panic!("decoded event has the wrong kind"),
        }
    }
}

#[test]
fn decode_rejects_empty_payload() {
    let p: Vec<Field> = Vec::new();
    assert_eq!(decode_host_metrics(&p).unwrap_err(), ServiceError::Decode);
    assert_eq!(decode_event(&p).unwrap_err(), ServiceError::Decode);
}

#[test]
fn decode_rejects_wrong_field_name() {
    let e = HostMetricsNotificationEvent {
        cpu_usage: 1,
        total_memory: 2,
        available_memory: 2,
    };
    let mut p = encode_host_metrics(&e);
    p[0] = Field {
        name: String::from("cpu"),
        value: Value::U32(1),
    };
    assert_eq!(decode_host_metrics(&p).unwrap_err(), ServiceError::Decode);
}

#[test]
fn decode_rejects_wrong_value_type() {
    let e = HostMetricsNotificationEvent {
        cpu_usage: 1,
        total_memory: 2,
        available_memory: 2,
    };
    let mut p = encode_host_metrics(&e);
    p[0] = Field {
        name: String::from("cpu_usage"),
        value: Value::Bool(true),
    };
    assert_eq!(decode_host_metrics(&p).unwrap_err(), ServiceError::Decode);
}

#[test]
fn decode_event_tells_power_from_bluetooth() {
    let bt = encode_bluetooth(&BluetoothNotificationEvent {
        is_connected: true,
        is_enabled: false,
    });
    match decode_event(&bt).unwrap() {
        Event::Bluetooth(b) => {
            assert!(b.is_connected);
            assert!(!b.is_enabled);
        }
        _ => panic!("two-field bluetooth payload decoded as the wrong kind"),
    }
    let pw = encode_power(&PowerNotificationEvent {
        status: String::from("discharging"),
        percentage: 1,
    });
    match decode_event(&pw).unwrap() {
        Event::Power(p) => assert_eq!(p.status, "discharging"),
        _ => panic!("two-field power payload decoded as the wrong kind"),
    }
}
