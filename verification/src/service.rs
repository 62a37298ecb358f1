//! The background service: its states, its command protocol and the answers
//! it gives where the Windows service control manager is not available.
use vstd::prelude::*;
use crate::scanner::DriveMeta;
use crate::text::{concat, concat3, decimal, has_sub, owned, str_contains, str_eq, u64_to_string};

verus! {

pub const SERVICE_NAME: &'static str = "DiskPulseService";

pub const SERVICE_DISPLAY_NAME: &'static str = "DiskPulse Background Service";

/// State of the background service.
#[derive(Debug, Clone, Copy, PartialEq, Eq, Structural)]
pub enum ServiceState {
    NotInstalled,
    Stopped,
    StartPending,
    Running,
    StopPending,
    Paused,
    Unknown,
}

#[derive(Debug, Clone)]
pub struct ServiceStatus {
    pub installed: bool,
    pub state: ServiceState,
    pub message: String,
}

#[derive(Debug, Clone)]
pub struct ServiceRequest {
    pub command: String,
    pub drive: Option<String>,
}

#[derive(Debug, Clone)]
pub struct ServiceResponse {
    pub ok: bool,
    pub message: String,
}

/// The command line that the service control manager runs.
pub fn service_binary_path(exe_path: &str) -> (r: String)
    ensures
        r@ == seq!['"'] + exe_path@ + "\" --service"@,
{
    let r = concat3("\"", exe_path, "\" --service");
    proof {
        reveal_strlit("\"");
    }
    r
}

/// The service control manager's codes for the current state of a service.
pub const SERVICE_STOPPED_CODE: u32 = 1;

pub const SERVICE_START_PENDING_CODE: u32 = 2;

pub const SERVICE_STOP_PENDING_CODE: u32 = 3;

pub const SERVICE_RUNNING_CODE: u32 = 4;

pub const SERVICE_PAUSED_CODE: u32 = 7;

pub open spec fn state_of_code(raw: u32) -> ServiceState {
    if raw == SERVICE_STOPPED_CODE {
        ServiceState::Stopped
    } else if raw == SERVICE_START_PENDING_CODE {
        ServiceState::StartPending
    } else if raw == SERVICE_RUNNING_CODE {
        ServiceState::Running
    } else if raw == SERVICE_STOP_PENDING_CODE {
        ServiceState::StopPending
    } else if raw == SERVICE_PAUSED_CODE {
        ServiceState::Paused
    } else {
        ServiceState::Unknown
    }
}

/// Decode a state code reported by the service control manager.
pub fn state_from_raw(raw: u32) -> (r: ServiceState)
    ensures
        r == state_of_code(raw),
{
    if raw == SERVICE_STOPPED_CODE {
        ServiceState::Stopped
    } else if raw == SERVICE_START_PENDING_CODE {
        ServiceState::StartPending
    } else if raw == SERVICE_RUNNING_CODE {
        ServiceState::Running
    } else if raw == SERVICE_STOP_PENDING_CODE {
        ServiceState::StopPending
    } else if raw == SERVICE_PAUSED_CODE {
        ServiceState::Paused
    } else {
        ServiceState::Unknown
    }
}

/// The name of a state as it is printed.
pub open spec fn state_name(s: ServiceState) -> Seq<char> {
    match s {
        ServiceState::NotInstalled => "NotInstalled"@,
        ServiceState::Stopped => "Stopped"@,
        ServiceState::StartPending => "StartPending"@,
        ServiceState::Running => "Running"@,
        ServiceState::StopPending => "StopPending"@,
        ServiceState::Paused => "Paused"@,
        ServiceState::Unknown => "Unknown"@,
    }
}

pub fn state_label(s: ServiceState) -> (r: &'static str)
    ensures
        r@ == state_name(s),
{
    let r = match s {
        ServiceState::NotInstalled => "NotInstalled",
        ServiceState::Stopped => "Stopped",
        ServiceState::StartPending => "StartPending",
        ServiceState::Running => "Running",
        ServiceState::StopPending => "StopPending",
        ServiceState::Paused => "Paused",
        ServiceState::Unknown => "Unknown",
    };
    proof {
        reveal_strlit("NotInstalled");
        reveal_strlit("Stopped");
        reveal_strlit("StartPending");
        reveal_strlit("Running");
        reveal_strlit("StopPending");
        reveal_strlit("Paused");
        reveal_strlit("Unknown");
    }
    r
}

pub open spec fn windows_only_message() -> Seq<char> {
    "Windows Service mode is only supported on Windows"@
}

pub open spec fn pipe_only_message() -> Seq<char> {
    "Named Pipe service client is only supported on Windows"@
}

fn windows_only() -> (r: String)
    ensures
        r@ == windows_only_message(),
{
    owned("Windows Service mode is only supported on Windows")
}

/// Install the service; only the Windows service control manager can.
pub fn install() -> (r: Result<ServiceStatus, String>)
    ensures
        r matches Err(e) && e@ == windows_only_message(),
{
    Err(windows_only())
}

/// Remove the service; only the Windows service control manager can.
pub fn uninstall() -> (r: Result<ServiceStatus, String>)
    ensures
        r matches Err(e) && e@ == windows_only_message(),
{
    Err(windows_only())
}

/// Start the service; only the Windows service control manager can.
pub fn start() -> (r: Result<ServiceStatus, String>)
    ensures
        r matches Err(e) && e@ == windows_only_message(),
{
    Err(windows_only())
}

/// Stop the service; only the Windows service control manager can.
pub fn stop() -> (r: Result<ServiceStatus, String>)
    ensures
        r matches Err(e) && e@ == windows_only_message(),
{
    Err(windows_only())
}

/// The service status: without a service control manager the service is
/// reported as not installed.
pub fn status() -> (r: Result<ServiceStatus, String>)
    ensures
        r matches Ok(s) && !s.installed && s.state == ServiceState::NotInstalled
            && s.message@ == windows_only_message(),
{
    Ok(ServiceStatus { installed: false, state: ServiceState::NotInstalled, message: windows_only() })
}

/// Send a request over the service pipe; only Windows has the pipe.
pub fn send_request(request: &ServiceRequest) -> (r: Result<ServiceResponse, String>)
    ensures
        r matches Err(e) && e@ == pipe_only_message(),
{
    Err(owned("Named Pipe service client is only supported on Windows"))
}

/// Whether the service was asked to stop; without a service control
/// manager nothing asks it to.
pub fn service_should_stop() -> (r: bool)
    ensures
        !r,
{
    false
}

/// What the service does with a request: either it answers at once, or it
/// needs the metadata of a drive first.
#[derive(Debug, Clone)]
pub enum ServiceReply {
    Answer(ServiceResponse),
    NeedsDriveMeta(String),
}

pub open spec fn cleanup_refusal() -> Seq<char> {
    "Cleanup commands are not allowed in service mode"@
}

pub open spec fn unsupported_message(command: Seq<char>) -> Seq<char> {
    "Unsupported service command: "@ + command
}

/// The answer the protocol gives to `command`, with `drive` where given.
pub open spec fn reply_for(command: Seq<char>, drive: Option<Seq<char>>) -> (bool, bool, Seq<char>) {
    if command == "ping"@ {
        (true, true, "pong"@)
    } else if command == "status"@ {
        (true, true, state_name(ServiceState::NotInstalled))
    } else if command == "scan_meta"@ {
        (false, true, match drive {
            Some(d) => d,
            None => "C"@,
        })
    } else if has_sub(command, "clean"@) || has_sub(command, "cleanup"@) {
        (true, false, cleanup_refusal())
    } else {
        (true, false, unsupported_message(command))
    }
}

pub open spec fn drive_view(d: Option<String>) -> Option<Seq<char>> {
    match d {
        Some(s) => Some(s@),
        None => None,
    }
}

/// The reply agrees with the protocol: an answer with `(ok, message)` where
/// the first flag is set, else a request for the metadata of that drive.
pub open spec fn reply_agrees(r: ServiceReply, req: ServiceRequest) -> bool {
    let (answered, ok, text) = reply_for(req.command@, drive_view(req.drive));
    match r {
        ServiceReply::Answer(resp) => answered && resp.ok == ok && resp.message@ == text,
        ServiceReply::NeedsDriveMeta(d) => !answered && d@ == text,
    }
}

fn answer(ok: bool, message: String) -> (r: ServiceReply)
    ensures
        r matches ServiceReply::Answer(resp) && resp.ok == ok && resp.message@ == message@,
{
    ServiceReply::Answer(ServiceResponse { ok, message })
}

/// Decide how to answer a service request. Cleanup commands are refused.
pub fn service_reply(request: &ServiceRequest) -> (r: ServiceReply)
    ensures
        reply_agrees(r, *request),
{
    let command = request.command.as_str();
    proof {
        reveal_strlit("ping");
        reveal_strlit("status");
        reveal_strlit("scan_meta");
        reveal_strlit("pong");
        reveal_strlit("C");
    }
    if str_eq(command, "ping") {
        answer(true, owned("pong"))
    } else if str_eq(command, "status") {
        match status() {
            Ok(st) => answer(true, owned(state_label(st.state))),
            Err(e) => answer(false, e),
        }
    } else if str_eq(command, "scan_meta") {
        match &request.drive {
            Some(d) => ServiceReply::NeedsDriveMeta(d.clone()),
            None => ServiceReply::NeedsDriveMeta(owned("C")),
        }
    } else if str_contains(command, "clean") || str_contains(command, "cleanup") {
        answer(false, owned("Cleanup commands are not allowed in service mode"))
    } else {
        answer(false, concat("Unsupported service command: ", command))
    }
}

/// The answer to a `scan_meta` request once the drive metadata was read:
/// the drive letter and used bytes, or the error.
pub fn drive_meta_response(meta: Result<DriveMeta, String>) -> (r: ServiceResponse)
    ensures
        match meta {
            Ok(m) => r.ok && r.message@ == m.drive_letter@ + seq![':'] + decimal(m.used_bytes as nat),
            Err(e) => !r.ok && r.message@ == e@,
        },
{
    match meta {
        Ok(m) => {
            let used = u64_to_string(m.used_bytes);
            let message = concat3(m.drive_letter.as_str(), ":", used.as_str());
            proof {
                reveal_strlit(":");
            }
            ServiceResponse { ok: true, message }
        },
        Err(e) => ServiceResponse { ok: false, message: e },
    }
}

} // verus!
