//! Decisions of the low-disk-space alert monitor: how its threshold setting is
//! read, whether it starts, when a notification may be shown again, and what
//! stopping it answers.
use vstd::prelude::*;
use crate::text::{owned, str_eq};

verus! {

/// The event name under which alerts are emitted to the interface.
pub const DISK_SPACE_ALERT: &'static str = "disk-space-alert";

/// At least this long (ten minutes) passes between two notifications.
pub const NOTIFICATION_COOLDOWN_MS: u64 = 600000;

/// How the alert threshold is measured.
#[derive(Debug, Clone, Copy, PartialEq, Eq, Structural)]
pub enum AlertThresholdType {
    /// A percentage of the drive left free.
    Percentage,
    /// A number of gigabytes left free.
    AbsoluteGB,
}

/// The threshold kind named by the settings: `absolute_gb`, and a percentage
/// for any other value.
pub fn threshold_type_from_setting(setting: &str) -> (r: AlertThresholdType)
    ensures
        r == (if setting@ == "absolute_gb"@ {
            AlertThresholdType::AbsoluteGB
        } else {
            AlertThresholdType::Percentage
        }),
{
    if str_eq(setting, "absolute_gb") {
        AlertThresholdType::AbsoluteGB
    } else {
        AlertThresholdType::Percentage
    }
}

/// What a request to start the monitor leads to.
#[derive(Debug, Clone, Copy, PartialEq, Eq, Structural)]
pub enum AlertStart {
    /// Alerts are switched off in the settings; nothing starts.
    Disabled,
    /// A monitor is already running; nothing starts.
    AlreadyRunning,
    /// A monitor thread is started.
    Start,
}

/// Whether to start the monitor, given the setting and whether one runs.
pub fn plan_alert_start(enabled: bool, running: bool) -> (r: AlertStart)
    ensures
        r == (if !enabled {
            AlertStart::Disabled
        } else if running {
            AlertStart::AlreadyRunning
        } else {
            AlertStart::Start
        }),
{
    if !enabled {
        AlertStart::Disabled
    } else if running {
        AlertStart::AlreadyRunning
    } else {
        AlertStart::Start
    }
}

pub open spec fn start_message(plan: AlertStart) -> Seq<char> {
    match plan {
        AlertStart::Disabled => "alerts disabled in settings"@,
        AlertStart::AlreadyRunning => "alert monitor already running"@,
        AlertStart::Start => "alert monitor started"@,
    }
}

/// The answer to a start request.
pub fn alert_start_message(plan: AlertStart) -> (r: String)
    ensures
        r@ == start_message(plan),
{
    match plan {
        AlertStart::Disabled => owned("alerts disabled in settings"),
        AlertStart::AlreadyRunning => owned("alert monitor already running"),
        AlertStart::Start => owned("alert monitor started"),
    }
}

/// A notification may be shown at `now_ms` when at least the cooldown has
/// passed since the last one (a clock that went back counts as no time).
pub fn notification_due(now_ms: u64, last_notification_ms: u64) -> (r: bool)
    ensures
        r == (now_ms >= last_notification_ms && now_ms - last_notification_ms
            >= NOTIFICATION_COOLDOWN_MS),
{
    now_ms.saturating_sub(last_notification_ms) >= NOTIFICATION_COOLDOWN_MS
}

pub open spec fn alert_stopped_message() -> Seq<char> {
    "alert monitor stopped"@
}

pub open spec fn no_alert_monitor_message() -> Seq<char> {
    "no alert monitor running"@
}

/// Stop the monitor, given whether one runs; the caller then signals the
/// running monitor to stop.
pub fn stop_alert_monitor(running: bool) -> (r: Result<String, String>)
    ensures
        r matches Ok(m) && m@ == (if running {
            alert_stopped_message()
        } else {
            no_alert_monitor_message()
        }),
{
    if running {
        Ok(owned("alert monitor stopped"))
    } else {
        Ok(owned("no alert monitor running"))
    }
}

} // verus!
