//! The typed event records of the notification service.
//!
//! Each event kind is a closed, flat record with a fixed field set. CPU and
//! battery percentages are carried as hundredths of a percent, so that the
//! range invariant `0 <= value <= 100.00%` is an exact integer bound.

use vstd::prelude::*;

use crate::errors::ServiceError;

verus! {

/// 100.00%, in hundredths of a percent.
pub const MAX_CENTI_PERCENT: u32 = 10000;

/// A fresh host-metrics reading: instantaneous CPU load and the memory
/// state of the machine, in bytes.
#[derive(Clone, Copy, Debug, PartialEq, Eq, Structural)]
pub struct HostMetricsNotificationEvent {
    /// Instantaneous CPU load, in hundredths of a percent (0..=10000).
    pub cpu_usage: u32,
    /// Total memory of the host, in bytes.
    pub total_memory: u64,
    /// Memory currently available, in bytes; never exceeds `total_memory`.
    pub available_memory: u64,
}

impl HostMetricsNotificationEvent {
    /// The record's invariant: the CPU load is a percentage and the
    /// available memory does not exceed the total.
    pub open spec fn wf(self) -> bool {
        &&& self.cpu_usage <= MAX_CENTI_PERCENT
        &&& self.available_memory <= self.total_memory
    }

    /// Assembles a reading from raw sampled values, rejecting a reading
    /// that breaks the invariant as a sampling failure.
    pub fn new(cpu_usage: u32, total_memory: u64, available_memory: u64) -> (r: Result<
        Self,
        ServiceError,
    >)
        ensures
            r is Ok <==> (cpu_usage <= MAX_CENTI_PERCENT && available_memory <= total_memory),
            r matches Ok(e) ==> e == (HostMetricsNotificationEvent {
                cpu_usage,
                total_memory,
                available_memory,
            }) && e.wf(),
            r matches Err(er) ==> er == ServiceError::Sampling,
    {
        if cpu_usage <= MAX_CENTI_PERCENT && available_memory <= total_memory {
            Ok(HostMetricsNotificationEvent { cpu_usage, total_memory, available_memory })
        } else {
            Err(ServiceError::Sampling)
        }
    }
}

/// Every well-formed host-metrics reading keeps its available memory within
/// the total and its CPU load within 0..=100.00%.
pub proof fn lemma_host_metrics_in_range(e: HostMetricsNotificationEvent)
    requires
        e.wf(),
    ensures
        e.available_memory <= e.total_memory,
        e.cpu_usage <= MAX_CENTI_PERCENT,
{
}

/// A power-supply state change: a status word and a battery percentage in
/// hundredths of a percent.
#[derive(Debug)]
pub struct PowerNotificationEvent {
    /// Status word, e.g. "charging", "discharging" or "full".
    pub status: String,
    /// Battery level, in hundredths of a percent (0..=10000).
    pub percentage: u32,
}

impl PowerNotificationEvent {
    /// The record's invariant: the battery level is a percentage.
    pub open spec fn wf(self) -> bool {
        self.percentage <= MAX_CENTI_PERCENT
    }

    /// Field-by-field equality; string fields compare by their characters.
    pub open spec fn eq_fields(self, other: Self) -> bool {
        &&& self.status@ == other.status@
        &&& self.percentage == other.percentage
    }
}

impl Clone for PowerNotificationEvent {
    fn clone(&self) -> (r: Self)
        ensures
            r == *self,
    {
        PowerNotificationEvent { status: self.status.clone(), percentage: self.percentage }
    }
}

/// A wireless-interface state change.
#[derive(Debug)]
pub struct WirelessNotificationEvent {
    pub signal_strength: String,
    pub is_connected: bool,
    pub is_enabled: bool,
    pub frequency: String,
    pub ssid: String,
}

impl WirelessNotificationEvent {
    /// Field-by-field equality; string fields compare by their characters.
    pub open spec fn eq_fields(self, other: Self) -> bool {
        &&& self.signal_strength@ == other.signal_strength@
        &&& self.is_connected == other.is_connected
        &&& self.is_enabled == other.is_enabled
        &&& self.frequency@ == other.frequency@
        &&& self.ssid@ == other.ssid@
    }
}

impl Clone for WirelessNotificationEvent {
    fn clone(&self) -> (r: Self)
        ensures
            r == *self,
    {
        WirelessNotificationEvent {
            signal_strength: self.signal_strength.clone(),
            is_connected: self.is_connected,
            is_enabled: self.is_enabled,
            frequency: self.frequency.clone(),
            ssid: self.ssid.clone(),
        }
    }
}

/// A bluetooth-adapter state change.
#[derive(Clone, Copy, Debug, PartialEq, Eq, Structural)]
pub struct BluetoothNotificationEvent {
    pub is_connected: bool,
    pub is_enabled: bool,
}

/// The closed set of event kinds of the service, as a tagged union at the
/// binding layer. Only host metrics are wired to a runnable emission path;
/// the other kinds are a declared extension of the taxonomy.
#[derive(Debug)]
pub enum Event {
    HostMetrics(HostMetricsNotificationEvent),
    Power(PowerNotificationEvent),
    Wireless(WirelessNotificationEvent),
    Bluetooth(BluetoothNotificationEvent),
}

/// Field-by-field equality of two events of the same kind.
pub open spec fn eq_events(a: Event, b: Event) -> bool {
    match a {
        Event::HostMetrics(x) => b matches Event::HostMetrics(y) && x == y,
        Event::Power(x) => b matches Event::Power(y) && x.eq_fields(y),
        Event::Wireless(x) => b matches Event::Wireless(y) && x.eq_fields(y),
        Event::Bluetooth(x) => b matches Event::Bluetooth(y) && x == y,
    }
}

impl Clone for Event {
    fn clone(&self) -> (r: Self)
        ensures
            r == *self,
    {
        match self {
            Event::HostMetrics(e) => Event::HostMetrics(*e),
            Event::Power(e) => Event::Power(e.clone()),
            Event::Wireless(e) => Event::Wireless(e.clone()),
            Event::Bluetooth(e) => Event::Bluetooth(*e),
        }
    }
}

} // verus!
