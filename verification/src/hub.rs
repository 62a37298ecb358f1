//! The device hub: discovery records, the remote commands it accepts, and
//! the state behind pairing and the device list.
use vstd::prelude::*;
use crate::pairing::{
    PairingManager, PairingToken, code_index, consume_result, live_at, now_epoch_ms, put_token, take_token,
};
use crate::registry::{
    DeviceInfo, DeviceRegistry, lookup, sort_devices_by_name, sorted_by_name, unpaired, upserted,
};
use crate::text::{
    before_char, chars_of, concat, concat3, decimal, is_ascii_alnum, owned, str_eq, string_of,
    trim_end_char, trim_start_char, u64_to_string,
};

verus! {

pub const DISKPULSE_SERVICE_TYPE: &'static str = "_diskpulse._tcp.local.";

pub const DEVICE_CONNECTED_EVENT: &'static str = "device-connected";

pub const DEVICE_DISCONNECTED_EVENT: &'static str = "device-disconnected";

pub const REMOTE_ALERT_EVENT: &'static str = "remote-alert";

#[derive(Debug, Clone, Copy, PartialEq, Eq, Structural)]
pub enum DiscoveryMode {
    Mdns,
    Manual,
}

#[derive(Debug, Clone)]
pub struct DiscoveryInfo {
    pub service_name: String,
    pub mode: DiscoveryMode,
    pub port: u16,
    pub address_hint: String,
}

pub open spec fn service_name_text() -> Seq<char> {
    "_diskpulse._tcp.local"@
}

fn port_text(port: u16) -> (r: String)
    ensures
        r@ == decimal(port as nat),
{
    u64_to_string(port as u64)
}

/// The discovery record when only manual connection on this machine is possible.
pub fn local_service(port: u16) -> (info: DiscoveryInfo)
    ensures
        info.service_name@ == service_name_text(),
        info.mode == DiscoveryMode::Manual,
        info.port == port,
        info.address_hint@ == "127.0.0.1:"@ + decimal(port as nat),
{
    let p = port_text(port);
    DiscoveryInfo {
        service_name: owned("_diskpulse._tcp.local"),
        mode: DiscoveryMode::Manual,
        port,
        address_hint: concat("127.0.0.1:", p.as_str()),
    }
}

/// The discovery record advertised over mDNS for `instance_name`.
pub fn mdns_service(instance_name: &str, port: u16) -> (info: DiscoveryInfo)
    ensures
        info.service_name@ == service_name_text(),
        info.mode == DiscoveryMode::Mdns,
        info.port == port,
        info.address_hint@ == instance_name@ + ".local:"@ + decimal(port as nat),
{
    let p = port_text(port);
    DiscoveryInfo {
        service_name: owned("_diskpulse._tcp.local"),
        mode: DiscoveryMode::Mdns,
        port,
        address_hint: concat3(instance_name, ".local:", p.as_str()),
    }
}

/// The name shown for a resolved service: the first dot-separated label of
/// its full name, or the host without trailing dots when that label is empty.
pub open spec fn resolved_name(fullname: Seq<char>, host: Seq<char>) -> Seq<char> {
    let first = before_char(fullname, '.');
    if first.len() > 0 {
        first
    } else {
        trim_end_char(host, '.')
    }
}

fn first_label(s: &str) -> (r: Vec<char>)
    ensures
        r@ == before_char(s@, '.'),
{
    let cs = chars_of(s);
    let mut out: Vec<char> = Vec::new();
    let mut i: usize = 0;
    assert(cs@.skip(0) =~= cs@);
    assert(cs@.take(0) + before_char(cs@, '.') =~= before_char(cs@, '.'));
    while i < cs.len() && cs[i] != '.'
        invariant
            cs@ == s@,
            i <= cs@.len(),
            out@ == cs@.take(i as int),
            forall|k: int| 0 <= k < i ==> cs@[k] != '.',
            before_char(cs@, '.') == cs@.take(i as int) + before_char(cs@.skip(i as int), '.'),
        decreases cs.len() - i,
    {
        out.push(cs[i]);
        proof {
            let rest = cs@.skip(i as int);
            assert(rest[0] == cs@[i as int]);
            assert(rest.drop_first() =~= cs@.skip(i + 1));
            assert(cs@.take(i + 1) =~= cs@.take(i as int).push(cs@[i as int]));
            assert(before_char(rest, '.') == seq![cs@[i as int]] + before_char(cs@.skip(i + 1), '.'));
            assert(cs@.take(i as int) + (seq![cs@[i as int]] + before_char(cs@.skip(i + 1), '.'))
                =~= cs@.take(i + 1) + before_char(cs@.skip(i + 1), '.'));
        }
        i = i + 1;
    }
    proof {
        if i < cs.len() {
            assert(cs@.skip(i as int)[0] == '.');
        } else {
            assert(cs@.skip(i as int) =~= Seq::<char>::empty());
        }
        assert(cs@.take(i as int) + Seq::<char>::empty() =~= cs@.take(i as int));
    }
    out
}

fn trim_end_dots(s: &str) -> (r: Vec<char>)
    ensures
        r@ == trim_end_char(s@, '.'),
{
    let cs = chars_of(s);
    let mut n = cs.len();
    assert(cs@.take(n as int) =~= cs@);
    while n > 0 && cs[n - 1] == '.'
        invariant
            cs@ == s@,
            n <= cs@.len(),
            trim_end_char(cs@, '.') == trim_end_char(cs@.take(n as int), '.'),
        decreases n,
    {
        assert(cs@.take(n as int).drop_last() =~= cs@.take(n - 1));
        n = n - 1;
    }
    let mut out: Vec<char> = Vec::new();
    let mut k: usize = 0;
    while k < n
        invariant
            n <= cs@.len(),
            k <= n,
            out@ == cs@.take(k as int),
        decreases n - k,
    {
        out.push(cs[k]);
        assert(cs@.take(k + 1) =~= cs@.take(k as int).push(cs@[k as int]));
        k = k + 1;
    }
    proof {
        if n > 0 {
            assert(cs@.take(n as int).last() != '.');
        }
    }
    out
}

/// A device found on the network. It is connected but not paired; its
/// last-seen time is the current time.
pub fn device_from_resolved_parts(fullname: &str, host: &str, address: &str, port: u16) -> (d: DeviceInfo)
    ensures
        d.device_id@ == fullname@,
        d.name@ == resolved_name(fullname@, host@),
        d.address@ == address@ + seq![':'] + decimal(port as nat),
        !d.paired,
        d.connected,
{
    let label = first_label(fullname);
    let name = if label.len() > 0 {
        string_of(label.as_slice())
    } else {
        let h = trim_end_dots(host);
        string_of(h.as_slice())
    };
    let p = port_text(port);
    let address = concat3(address, ":", p.as_str());
    proof {
        reveal_strlit(":");
    }
    DeviceInfo {
        device_id: owned(fullname),
        name,
        address,
        paired: false,
        connected: true,
        last_seen_epoch_ms: now_epoch_ms(),
    }
}

/// A DNS label made from a name: characters other than ASCII letters, digits
/// and `-` become `-`, dashes are trimmed from both ends, and an empty result
/// becomes `diskpulse`.
pub open spec fn dns_label(value: Seq<char>) -> Seq<char> {
    let mapped = value.map_values(|c: char| if is_ascii_alnum(c) || c == '-' { c } else { '-' });
    let trimmed = trim_end_char(trim_start_char(mapped, '-'), '-');
    if trimmed.len() == 0 {
        "diskpulse"@
    } else {
        trimmed
    }
}

pub fn sanitize_dns_label(value: &str) -> (r: String)
    ensures
        r@ == dns_label(value@),
{
    let cs = chars_of(value);
    let ghost mapped = value@.map_values(|c: char| if is_ascii_alnum(c) || c == '-' { c } else { '-' });
    let mut m: Vec<char> = Vec::new();
    let mut i: usize = 0;
    while i < cs.len()
        invariant
            cs@ == value@,
            i <= cs@.len(),
            m@ == mapped.take(i as int),
            mapped.len() == cs@.len(),
            forall|k: int| 0 <= k < mapped.len() ==> #[trigger] mapped[k] == (if is_ascii_alnum(cs@[k]) || cs@[k] == '-' { cs@[k] } else { '-' }),
        decreases cs.len() - i,
    {
        let c = cs[i];
        let alnum = ('a' <= c && c <= 'z') || ('A' <= c && c <= 'Z') || ('0' <= c && c <= '9');
        m.push(if alnum || c == '-' { c } else { '-' });
        assert(mapped.take(i + 1) =~= mapped.take(i as int).push(mapped[i as int]));
        i = i + 1;
    }
    assert(mapped.take(i as int) =~= mapped);
    let mut start: usize = 0;
    while start < m.len() && m[start] == '-'
        invariant
            m@ == mapped,
            start <= m@.len(),
            trim_start_char(mapped, '-') == trim_start_char(mapped.skip(start as int), '-'),
        decreases m.len() - start,
    {
        assert(mapped.skip(start as int).drop_first() =~= mapped.skip(start + 1));
        start = start + 1;
    }
    let ghost front = mapped.skip(start as int);
    proof {
        if start == m.len() {
            assert(front =~= Seq::<char>::empty());
        }
    }
    let mut end: usize = m.len();
    assert(front.take((end - start) as int) =~= front);
    while end > start && m[end - 1] == '-'
        invariant
            m@ == mapped,
            start <= end <= m@.len(),
            front == mapped.skip(start as int),
            trim_end_char(front, '-') == trim_end_char(front.take((end - start) as int), '-'),
        decreases end,
    {
        assert(front.take((end - start) as int).drop_last() =~= front.take((end - 1 - start) as int));
        end = end - 1;
    }
    proof {
        if end > start {
            assert(front.take((end - start) as int).last() == m@[end - 1]);
        }
    }
    let mut out: Vec<char> = Vec::new();
    let mut k: usize = start;
    while k < end
        invariant
            m@ == mapped,
            start <= k <= end,
            end <= m@.len(),
            front == mapped.skip(start as int),
            out@ == front.take((k - start) as int),
        decreases end - k,
    {
        out.push(m[k]);
        assert(front.take((k + 1 - start) as int) =~= front.take((k - start) as int).push(front[(k - start) as int]));
        k = k + 1;
    }
    if out.len() == 0 {
        proof {
            reveal_strlit("diskpulse");
        }
        owned("diskpulse")
    } else {
        string_of(out.as_slice())
    }
}

// ── Discovery results ──────────────────────────────────────

/// `ds` with each run of consecutive devices sharing an id cut down to its first.
pub open spec fn dedup_ids(ds: Seq<DeviceInfo>) -> Seq<DeviceInfo>
    decreases ds.len(),
{
    if ds.len() == 0 {
        Seq::empty()
    } else {
        let r = dedup_ids(ds.drop_last());
        if r.len() > 0 && r.last().device_id@ == ds.last().device_id@ {
            r
        } else {
            r.push(ds.last())
        }
    }
}

/// The devices found while browsing, ordered by name, with consecutive
/// entries for the same device id reduced to one.
pub fn discover_devices(found: Vec<DeviceInfo>) -> (out: Vec<DeviceInfo>)
    ensures
        exists|s: Seq<DeviceInfo>| #[trigger] sorted_by_name(found@, s) && out@ == dedup_ids(s),
{
    let sorted = sort_devices_by_name(&found);
    let mut out: Vec<DeviceInfo> = Vec::new();
    let mut i: usize = 0;
    while i < sorted.len()
        invariant
            i <= sorted@.len(),
            out@ == dedup_ids(sorted@.take(i as int)),
        decreases sorted.len() - i,
    {
        assert(sorted@.take(i + 1).drop_last() =~= sorted@.take(i as int));
        let n = out.len();
        if n > 0 && str_eq(out[n - 1].device_id.as_str(), sorted[i].device_id.as_str()) {
        } else {
            out.push(sorted[i].clone_device());
        }
        i = i + 1;
    }
    assert(sorted@.take(i as int) =~= sorted@);
    out
}

// ── Remote commands ────────────────────────────────────────

/// The commands a remote device may run without local confirmation.
pub open spec fn read_only_command(command: Seq<char>) -> bool {
    command == "ping"@ || command == "scan_meta"@ || command == "scan_drive"@ || command
        == "get_disk_health"@ || command == "detect_anomalies"@
}

pub fn is_allowed_remote_command(command: &str) -> (r: bool)
    ensures
        r == read_only_command(command@),
{
    str_eq(command, "ping") || str_eq(command, "scan_meta") || str_eq(command, "scan_drive") || str_eq(
        command,
        "get_disk_health",
    ) || str_eq(command, "detect_anomalies")
}

/// What a remote request asks the hub to compute, for a drive where it names one.
#[derive(Debug, Clone)]
pub enum RemoteCall {
    Ping,
    ScanMeta(String),
    ScanDrive(String),
    DiskHealth(String),
    DetectAnomalies(String),
}

pub open spec fn refused_message(command: Seq<char>) -> Seq<char> {
    "Remote command '"@ + command + "' is not allowed without local confirmation"@
}

/// The drive a request names, `C` by default.
pub open spec fn drive_or_default(drive: Option<Seq<char>>) -> Seq<char> {
    match drive {
        Some(d) => d,
        None => "C"@,
    }
}

pub open spec fn call_agrees(c: RemoteCall, command: Seq<char>, drive: Seq<char>) -> bool {
    match c {
        RemoteCall::Ping => command == "ping"@,
        RemoteCall::ScanMeta(d) => command == "scan_meta"@ && d@ == drive,
        RemoteCall::ScanDrive(d) => command == "scan_drive"@ && d@ == drive,
        RemoteCall::DiskHealth(d) => command == "get_disk_health"@ && d@ == drive,
        RemoteCall::DetectAnomalies(d) => command == "detect_anomalies"@ && d@ == drive,
    }
}

/// Decide a remote request: a read-only command becomes the call it asks
/// for, with the drive given in its payload or `C`; any other command is
/// refused.
pub fn route_remote_command(command: &str, drive: Option<&str>) -> (r: Result<RemoteCall, String>)
    ensures
        read_only_command(command@) <==> r is Ok,
        r matches Ok(c) ==> call_agrees(
            c,
            command@,
            drive_or_default(
                match drive {
                    Some(d) => Some(d@),
                    None => None,
                },
            ),
        ),
        r matches Err(e) ==> e@ == refused_message(command@),
{
    if !is_allowed_remote_command(command) {
        return Err(concat3("Remote command '", command, "' is not allowed without local confirmation"));
    }
    let d = match drive {
        Some(d) => owned(d),
        None => owned("C"),
    };
    proof {
        reveal_strlit("C");
    }
    if str_eq(command, "ping") {
        Ok(RemoteCall::Ping)
    } else if str_eq(command, "scan_meta") {
        Ok(RemoteCall::ScanMeta(d))
    } else if str_eq(command, "scan_drive") {
        Ok(RemoteCall::ScanDrive(d))
    } else if str_eq(command, "get_disk_health") {
        Ok(RemoteCall::DiskHealth(d))
    } else {
        Ok(RemoteCall::DetectAnomalies(d))
    }
}

// ── Hub state ──────────────────────────────────────────────

/// What the hub keeps between requests: whether its server runs, the
/// discovery record, the paired devices and the pending pairing tokens.
pub struct HubState {
    pub running: bool,
    pub discovery: Option<DiscoveryInfo>,
    pub registry: DeviceRegistry,
    pub pairing: PairingManager,
    pub next_device_id: u64,
}

impl HubState {
    pub open spec fn wf(&self) -> bool {
        self.registry.wf() && self.pairing.wf()
    }

    /// A stopped hub with no devices and no tokens.
    pub fn new() -> (s: HubState)
        ensures
            s.wf(),
            !s.running,
            s.discovery is None,
            s.registry.devices().len() == 0,
            s.pairing.tokens().len() == 0,
            s.next_device_id == 1,
    {
        HubState {
            running: false,
            discovery: None,
            registry: DeviceRegistry::new(),
            pairing: PairingManager::new(),
            next_device_id: 1,
        }
    }
}

pub open spec fn already_running_message() -> Seq<char> {
    "Hub is already running"@
}

pub open spec fn zero_port_message() -> Seq<char> {
    "Hub port must be greater than 0"@
}

/// Whether the hub may start its server on `port`: not while it runs, and
/// not on port zero.
pub fn check_start(state: &HubState, port: u16) -> (r: Result<(), String>)
    ensures
        match r {
            Ok(()) => !state.running && port != 0,
            Err(e) => if state.running {
                e@ == already_running_message()
            } else {
                port == 0 && e@ == zero_port_message()
            },
        },
{
    if state.running {
        return Err(owned("Hub is already running"));
    }
    if port == 0 {
        return Err(owned("Hub port must be greater than 0"));
    }
    Ok(())
}

/// Record that the server runs on `port`: advertised over mDNS as
/// `instance_name` where that succeeded, else reachable locally only.
pub fn mark_started(state: &mut HubState, port: u16, instance_name: &str, advertised: bool)
    ensures
        final(state).running,
        final(state).registry == old(state).registry,
        final(state).pairing == old(state).pairing,
        final(state).next_device_id == old(state).next_device_id,
        final(state).discovery matches Some(info) && info.port == port && info.mode == (if advertised {
            DiscoveryMode::Mdns
        } else {
            DiscoveryMode::Manual
        }) && info.service_name@ == service_name_text() && info.address_hint@ == (if advertised {
            instance_name@ + ".local:"@ + decimal(port as nat)
        } else {
            "127.0.0.1:"@ + decimal(port as nat)
        }),
{
    let info = if advertised {
        mdns_service(instance_name, port)
    } else {
        local_service(port)
    };
    state.discovery = Some(info);
    state.running = true;
}

/// Stop the hub: the server no longer runs and nothing is advertised.
pub fn stop(state: &mut HubState) -> (r: Result<(), String>)
    ensures
        r is Ok,
        !final(state).running,
        final(state).discovery is None,
        final(state).registry == old(state).registry,
        final(state).pairing == old(state).pairing,
        final(state).next_device_id == old(state).next_device_id,
{
    state.running = false;
    state.discovery = None;
    Ok(())
}

fn clone_info(info: &DiscoveryInfo) -> (r: DiscoveryInfo)
    ensures
        r == *info,
{
    DiscoveryInfo {
        service_name: info.service_name.clone(),
        mode: info.mode,
        port: info.port,
        address_hint: info.address_hint.clone(),
    }
}

/// The discovery record, while the hub is advertised.
pub fn discovery_info(state: &HubState) -> (r: Option<DiscoveryInfo>)
    ensures
        r == state.discovery,
{
    match &state.discovery {
        Some(info) => Some(clone_info(info)),
        None => None,
    }
}

/// The paired devices, ordered by name.
pub fn connected_devices(state: &HubState) -> (r: Vec<DeviceInfo>)
    ensures
        sorted_by_name(state.registry.devices(), r@),
{
    state.registry.list_devices()
}

/// Issue a pairing token for a device name.
pub fn create_pairing_token(state: &mut HubState, device_name: String, ttl_seconds: u64) -> (r: Result<PairingToken, String>)
    requires
        old(state).wf(),
    ensures
        final(state).wf(),
        final(state).registry == old(state).registry,
        r matches Ok(t) && t.device_name == device_name && t.code@.len() == 6
            && crate::text::all_digits(t.code@) && exists|now: u64|
            t.expires_at_epoch_ms == crate::pairing::expiry(now, ttl_seconds)
                && #[trigger] final(state).pairing.tokens() == put_token(live_at(old(state).pairing.tokens(), now), t)
                && crate::pairing::is_code_search(
                live_at(old(state).pairing.tokens(), now),
                now,
                old(state).pairing.counter(),
                final(state).pairing.counter(),
                t.code@,
            ),
{
    Ok(state.pairing.create_token(device_name, ttl_seconds))
}

pub open spec fn invalid_token_message() -> Seq<char> {
    "Invalid or expired pairing token"@
}

pub open spec fn manual_address() -> Seq<char> {
    "paired-manually"@
}

/// What pairing with `token` at time `now` does to the hub state `old`,
/// giving `new` and the result `r`: the token is used up; a live token adds a
/// connected, paired device with the token's name under the next device id,
/// last seen `now`; an unknown or expired one is refused and nothing else
/// changes.
pub open spec fn pairing_outcome(
    old: HubState,
    new: HubState,
    token: Seq<char>,
    now: u64,
    r: Result<DeviceInfo, String>,
) -> bool {
    &&& new.pairing.tokens() == take_token(old.pairing.tokens(), token)
    &&& new.running == old.running
    &&& new.discovery == old.discovery
    &&& (r is Ok <==> consume_result(old.pairing.tokens(), token, now) is Some)
    &&& match r {
        Ok(d) => {
            &&& consume_result(old.pairing.tokens(), token, now) matches Some(t) && d.name == t.device_name
            &&& d.device_id@ == "device-"@ + decimal(old.next_device_id as nat)
            &&& d.address@ == manual_address()
            &&& d.paired && d.connected
            &&& d.last_seen_epoch_ms == now
            &&& new.registry.devices() == upserted(old.registry.devices(), d)
            &&& new.next_device_id == vstd::wrapping::u64_specs::wrapping_add(old.next_device_id, 1)
        },
        Err(e) => {
            &&& e@ == invalid_token_message()
            &&& new.registry == old.registry
            &&& new.next_device_id == old.next_device_id
        },
    }
}

/// Pair the device that presents `token` at time `now` (milliseconds since
/// the epoch): see `pairing_outcome`.
pub fn pair_device_at(state: &mut HubState, token: &str, now: u64) -> (r: Result<DeviceInfo, String>)
    requires
        old(state).wf(),
    ensures
        final(state).wf(),
        pairing_outcome(*old(state), *final(state), token@, now, r),
{
    let consumed = state.pairing.consume_token_at(token, now);
    match consumed {
        None => {
            proof {
                reveal_strlit("Invalid or expired pairing token");
            }
            Err(owned("Invalid or expired pairing token"))
        },
        Some(t) => {
            let id = state.next_device_id;
            state.next_device_id = state.next_device_id.wrapping_add(1);
            proof {
                reveal_strlit("paired-manually");
            }
            let device = DeviceInfo::new_paired_at(t.device_name, owned("paired-manually"), id, now);
            state.registry.upsert(device.clone_device());
            Ok(device)
        },
    }
}

/// Pair the device that presents `token` now: the token is used up, and a
/// device with the token's name is added under the next device id. The
/// outcome is that of `pair_device_at` at the time read from the clock; an
/// unknown token is refused whatever the time.
pub fn pair_device(state: &mut HubState, token: &str) -> (r: Result<DeviceInfo, String>)
    requires
        old(state).wf(),
    ensures
        final(state).wf(),
        exists|now: u64| #[trigger] pairing_outcome(*old(state), *final(state), token@, now, r),
        code_index(old(state).pairing.tokens(), token@) is None ==> r is Err,
{
    let now = now_epoch_ms();
    let r = pair_device_at(state, token, now);
    assert(pairing_outcome(*old(state), *final(state), token@, now, r));
    r
}

pub open spec fn device_not_found_message(id: Seq<char>) -> Seq<char> {
    "Device not found: "@ + id
}

/// Forget a paired device.
pub fn unpair_device(state: &mut HubState, device_id: &str) -> (r: Result<(), String>)
    requires
        old(state).wf(),
    ensures
        final(state).wf(),
        final(state).registry.devices() == unpaired(old(state).registry.devices(), device_id@),
        final(state).pairing == old(state).pairing,
        r is Ok <==> lookup(old(state).registry.devices(), device_id@) is Some,
        r matches Err(e) ==> e@ == device_not_found_message(device_id@),
{
    if state.registry.unpair(device_id) {
        Ok(())
    } else {
        Err(concat("Device not found: ", device_id))
    }
}


// ── Messages to the interface ──────────────────────────────

/// An alert raised on a paired device; the alert itself is kept as the JSON
/// text it arrived as.
#[derive(Debug, Clone)]
pub struct RemoteAlertPayload {
    pub device_id: String,
    pub alert_payload: String,
}

/// What the hub tells the interface.
#[derive(Debug, Clone)]
pub enum HubMessage {
    DeviceConnected(DeviceInfo),
    DeviceDisconnected { device_id: String },
    RemoteAlert(RemoteAlertPayload),
}

impl HubMessage {
    /// The event a message is emitted under.
    pub fn event_name(&self) -> (r: &'static str)
        ensures
            r@ == match self {
                HubMessage::DeviceConnected(_) => DEVICE_CONNECTED_EVENT@,
                HubMessage::DeviceDisconnected { .. } => DEVICE_DISCONNECTED_EVENT@,
                HubMessage::RemoteAlert(_) => REMOTE_ALERT_EVENT@,
            },
    {
        match self {
            HubMessage::DeviceConnected(_) => DEVICE_CONNECTED_EVENT,
            HubMessage::DeviceDisconnected { .. } => DEVICE_DISCONNECTED_EVENT,
            HubMessage::RemoteAlert(_) => REMOTE_ALERT_EVENT,
        }
    }

    /// The device a message is about.
    pub fn device_id(&self) -> (r: Option<&str>)
        ensures
            r matches Some(id) && id@ == match self {
                HubMessage::DeviceConnected(device) => device.device_id@,
                HubMessage::DeviceDisconnected { device_id } => device_id@,
                HubMessage::RemoteAlert(payload) => payload.device_id@,
            },
    {
        match self {
            HubMessage::DeviceConnected(device) => Some(device.device_id.as_str()),
            HubMessage::DeviceDisconnected { device_id } => Some(device_id.as_str()),
            HubMessage::RemoteAlert(payload) => Some(payload.device_id.as_str()),
        }
    }
}

} // verus!
