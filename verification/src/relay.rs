//! The relay client: which relay addresses are accepted, which relayed
//! messages pass, and the connection state kept between calls.
use std::hash::{Hash, Hasher};
use vstd::prelude::*;
use crate::hub::{is_allowed_remote_command, read_only_command};
use crate::text::{chars_of, concat, has_prefix, owned, str_eq, string_of, trim, trimmed};

verus! {

#[derive(Debug, Clone)]
pub struct RelayStatus {
    pub connected: bool,
    pub url: Option<String>,
    pub device_id: Option<String>,
    pub device_name: Option<String>,
    pub peer_count: usize,
    pub last_error: Option<String>,
    pub mode: String,
}

#[derive(Debug, Clone)]
pub struct CloudDevice {
    pub device_id: String,
    pub name: String,
    pub relay_url: String,
    pub connected: bool,
    pub last_seen_epoch_ms: u64,
}

/// The status of a relay client that is not connected.
pub open spec fn is_idle_status(s: RelayStatus) -> bool {
    &&& !s.connected
    &&& s.url is None
    &&& s.device_id is None
    &&& s.device_name is None
    &&& s.peer_count == 0
    &&& s.last_error is None
    &&& s.mode@ == "local_ready"@
}

impl Default for RelayStatus {
    fn default() -> (s: RelayStatus)
        ensures
            is_idle_status(s),
    {
        let mode = owned("local_ready");
        proof {
            reveal_strlit("local_ready");
        }
        RelayStatus {
            connected: false,
            url: None,
            device_id: None,
            device_name: None,
            peer_count: 0,
            last_error: None,
            mode,
        }
    }
}

pub open spec fn bad_url_message() -> Seq<char> {
    "Relay URL must start with ws:// or wss://"@
}

/// A relay address: `ws://` or `wss://` followed by something, once
/// surrounding white space is removed.
pub open spec fn relay_url_ok(url: Seq<char>) -> bool {
    let t = trimmed(url);
    (has_prefix(t, "ws://"@) && t.len() > 5) || (has_prefix(t, "wss://"@) && t.len() > 6)
}

pub fn validate_relay_url(url: &str) -> (r: Result<(), String>)
    ensures
        r is Ok <==> relay_url_ok(url@),
        r matches Err(e) ==> e@ == bad_url_message(),
{
    let cs = chars_of(url);
    let t = trim(cs.as_slice());
    let ts = string_of(t.as_slice());
    proof {
        reveal_strlit("ws://");
        reveal_strlit("wss://");
    }
    if crate::text::str_starts_with(ts.as_str(), "ws://") && t.len() > 5 {
        return Ok(());
    }
    if crate::text::str_starts_with(ts.as_str(), "wss://") && t.len() > 6 {
        return Ok(());
    }
    Err(owned("Relay URL must start with ws:// or wss://"))
}

pub open spec fn envelope_fields_message() -> Seq<char> {
    "Relay envelope requires id and from_device_id"@
}

pub open spec fn missing_command_message() -> Seq<char> {
    "Hub command envelope requires payload.command"@
}

pub open spec fn refused_command_message(command: Seq<char>) -> Seq<char> {
    "Relay refuses non-read-only hub command '"@ + command + "' without local confirmation"@
}

/// Whether a relayed message passes: it names its id and sender, and a hub
/// command in it is one of the read-only commands.
pub open spec fn envelope_verdict(
    id: Seq<char>,
    from: Seq<char>,
    kind: Seq<char>,
    command: Option<Seq<char>>,
) -> Result<(), Seq<char>> {
    if trimmed(id).len() == 0 || trimmed(from).len() == 0 {
        Err(envelope_fields_message())
    } else if kind == "hub_command"@ {
        match command {
            None => Err(missing_command_message()),
            Some(c) => if read_only_command(c) {
                Ok(())
            } else {
                Err(refused_command_message(c))
            },
        }
    } else {
        Ok(())
    }
}

/// Check a relayed message: its id, its sender, its kind and, where its
/// payload names one, the command it carries.
pub fn check_relay_envelope(id: &str, from_device_id: &str, kind: &str, command: Option<&str>) -> (r: Result<(), String>)
    ensures
        match envelope_verdict(
            id@,
            from_device_id@,
            kind@,
            match command {
                Some(c) => Some(c@),
                None => None,
            },
        ) {
            Ok(()) => r is Ok,
            Err(e) => r matches Err(m) && m@ == e,
        },
{
    let idc = chars_of(id);
    let fromc = chars_of(from_device_id);
    if trim(idc.as_slice()).len() == 0 || trim(fromc.as_slice()).len() == 0 {
        return Err(owned("Relay envelope requires id and from_device_id"));
    }
    proof {
        reveal_strlit("hub_command");
    }
    if str_eq(kind, "hub_command") {
        match command {
            None => Err(owned("Hub command envelope requires payload.command")),
            Some(c) => {
                if is_allowed_remote_command(c) {
                    Ok(())
                } else {
                    let m = concat("Relay refuses non-read-only hub command '", c);
                    Err(concat(m.as_str(), "' without local confirmation"))
                }
            },
        }
    } else {
        Ok(())
    }
}

/// What `DefaultHasher` gives for a string hashed with `Hash`.
pub uninterp spec fn default_hash_of(s: Seq<char>) -> u64;

/// `str::hash` into a fresh `DefaultHasher`, then `finish`. The contract
/// names the result; nothing is claimed of the hash function itself.
#[verifier::external_body]
fn default_hash(s: &str) -> (h: u64)
    ensures
        h == default_hash_of(s@),
{
    let mut hasher = std::collections::hash_map::DefaultHasher::new();
    s.hash(&mut hasher);
    hasher.finish()
}

pub open spec fn hex_digit(d: nat) -> char {
    if d < 10 {
        ((d + 48) as u32) as char
    } else {
        ((d - 10 + 97) as u32) as char
    }
}

/// The lowest `width` hexadecimal digits of `n`, most significant first.
pub open spec fn hex_digits(n: nat, width: nat) -> Seq<char>
    decreases width,
{
    if width == 0 {
        Seq::empty()
    } else {
        hex_digits(n / 16, (width - 1) as nat).push(hex_digit(n % 16))
    }
}

fn hex_char(d: u64) -> (c: char)
    requires
        d < 16,
    ensures
        c == hex_digit(d as nat),
{
    if d < 10 {
        let b: u8 = (d as u8) + 48;
        b as char
    } else {
        let b: u8 = (d as u8) + 87;
        b as char
    }
}

fn hex16(n: u64) -> (r: String)
    ensures
        r@ == hex_digits(n as nat, 16),
{
    let mut out: Vec<char> = Vec::new();
    let mut m: u64 = n;
    let mut k: usize = 0;
    assert(hex_digits(n as nat, 16) =~= hex_digits(m as nat, 16) + out@);
    while k < 16
        invariant
            k <= 16,
            hex_digits(n as nat, 16) == hex_digits(m as nat, (16 - k) as nat) + out@,
        decreases 16 - k,
    {
        let c = hex_char(m % 16);
        let ghost w = (16 - k) as nat;
        assert(hex_digits(m as nat, w) == hex_digits((m / 16) as nat, (w - 1) as nat).push(hex_digit((m % 16) as nat)));
        let ghost before = out@;
        out.insert(0, c);
        assert(out@ =~= seq![c] + before);
        assert(hex_digits(m as nat, w) + before =~= hex_digits((m / 16) as nat, (w - 1) as nat) + out@);
        m = m / 16;
        k = k + 1;
    }
    assert(hex_digits(m as nat, 0) =~= Seq::<char>::empty());
    assert(out@ =~= hex_digits(n as nat, 16));
    string_of(out.as_slice())
}

/// The relay device id derived from a device name: `relay-device-` and the
/// 16 hexadecimal digits of the name's hash.
pub fn stable_device_id(name: &str) -> (r: String)
    ensures
        r@ == "relay-device-"@ + hex_digits(default_hash_of(name@) as nat, 16),
{
    let h = default_hash(name);
    let hex = hex16(h);
    let r = concat("relay-device-", hex.as_str());
    proof {
        reveal_strlit("relay-device-");
    }
    r
}

/// What a connection attempt sends to the relay: where, and as which device.
#[derive(Debug, Clone)]
pub struct RelayRegistration {
    pub relay_url: String,
    pub device_id: String,
    pub device_name: String,
}

/// The name a device registers under: its trimmed name, or `DiskPulse
/// Device` when that is empty.
pub open spec fn registered_name(device_name: Seq<char>) -> Seq<char> {
    if trimmed(device_name).len() == 0 {
        "DiskPulse Device"@
    } else {
        trimmed(device_name)
    }
}

/// Prepare a connection: the address must be a relay address.
pub fn prepare_connect(url: &str, device_name: &str) -> (r: Result<RelayRegistration, String>)
    ensures
        r is Ok <==> relay_url_ok(url@),
        r matches Err(e) ==> e@ == bad_url_message(),
        r matches Ok(reg) ==> {
            &&& reg.relay_url@ == trimmed(url@)
            &&& reg.device_name@ == registered_name(device_name@)
            &&& reg.device_id@ == "relay-device-"@ + hex_digits(default_hash_of(registered_name(device_name@)) as nat, 16)
        },
{
    validate_relay_url(url)?;
    let nc = chars_of(device_name);
    let t = trim(nc.as_slice());
    let name = if t.len() == 0 {
        proof {
            reveal_strlit("DiskPulse Device");
        }
        owned("DiskPulse Device")
    } else {
        string_of(t.as_slice())
    };
    let device_id = stable_device_id(name.as_str());
    let uc = chars_of(url);
    let ut = trim(uc.as_slice());
    Ok(RelayRegistration { relay_url: string_of(ut.as_slice()), device_id, device_name: name })
}

/// The relay connection state kept between calls.
pub struct RelayState {
    pub status: RelayStatus,
    pub devices: Vec<CloudDevice>,
}

impl RelayState {
    pub fn new() -> (s: RelayState)
        ensures
            is_idle_status(s.status),
            s.devices@.len() == 0,
    {
        RelayState { status: RelayStatus::default(), devices: Vec::new() }
    }
}

/// Record the outcome of the register handshake with the relay. On success
/// the client is connected to that relay as the device the relay confirmed.
pub fn connect(
    state: &mut RelayState,
    registration: &RelayRegistration,
    handshake: Result<CloudDevice, String>,
) -> (r: Result<RelayStatus, String>)
    ensures
        match handshake {
            Err(e) => r matches Err(m) && m@ == e@ && final(state).status == old(state).status
                && final(state).devices@ == old(state).devices@,
            Ok(d) => r matches Ok(s) && {
                &&& s.connected
                &&& s.url matches Some(u) && u@ == registration.relay_url@
                &&& s.device_id matches Some(x) && x@ == d.device_id@
                &&& s.device_name matches Some(x) && x@ == d.name@
                &&& s.peer_count == 1
                &&& s.last_error is None
                &&& s.mode@ == "local_ready"@
                &&& final(state).status == s
                &&& final(state).devices@.len() == 1
                &&& final(state).devices@[0].relay_url@ == registration.relay_url@
                &&& final(state).devices@[0].device_id == d.device_id
                &&& final(state).devices@[0].name == d.name
                &&& final(state).devices@[0].connected == d.connected
                &&& final(state).devices@[0].last_seen_epoch_ms == d.last_seen_epoch_ms
            },
        },
{
    let device = match handshake {
        Err(e) => {
            return Err(e);
        },
        Ok(d) => d,
    };
    proof {
        reveal_strlit("local_ready");
    }
    let status = RelayStatus {
        connected: true,
        url: Some(registration.relay_url.clone()),
        device_id: Some(device.device_id.clone()),
        device_name: Some(device.name.clone()),
        peer_count: 1,
        last_error: None,
        mode: owned("local_ready"),
    };
    let copy = clone_status(&status);
    state.status = status;
    let mut devices: Vec<CloudDevice> = Vec::new();
    devices.push(CloudDevice { relay_url: registration.relay_url.clone(), ..device });
    state.devices = devices;
    Ok(copy)
}

fn clone_opt(o: &Option<String>) -> (r: Option<String>)
    ensures
        r == *o,
{
    match o {
        Some(s) => Some(s.clone()),
        None => None,
    }
}

fn clone_status(s: &RelayStatus) -> (r: RelayStatus)
    ensures
        r == *s,
{
    RelayStatus {
        connected: s.connected,
        url: clone_opt(&s.url),
        device_id: clone_opt(&s.device_id),
        device_name: clone_opt(&s.device_name),
        peer_count: s.peer_count,
        last_error: clone_opt(&s.last_error),
        mode: s.mode.clone(),
    }
}

fn clone_device(d: &CloudDevice) -> (r: CloudDevice)
    ensures
        r == *d,
{
    CloudDevice {
        device_id: d.device_id.clone(),
        name: d.name.clone(),
        relay_url: d.relay_url.clone(),
        connected: d.connected,
        last_seen_epoch_ms: d.last_seen_epoch_ms,
    }
}

/// Drop the relay connection: the status is idle again and no cloud
/// devices are known.
pub fn disconnect(state: &mut RelayState) -> (r: Result<RelayStatus, String>)
    ensures
        is_idle_status(final(state).status),
        final(state).devices@.len() == 0,
        r == Ok::<RelayStatus, String>(final(state).status),
{
    state.status = RelayStatus::default();
    state.devices = Vec::new();
    Ok(clone_status(&state.status))
}

/// The current relay status.
pub fn status(state: &RelayState) -> (r: RelayStatus)
    ensures
        r == state.status,
{
    clone_status(&state.status)
}

/// The devices known through the relay.
pub fn list_cloud_devices(state: &RelayState) -> (r: Vec<CloudDevice>)
    ensures
        r@ == state.devices@,
{
    let mut out: Vec<CloudDevice> = Vec::new();
    let mut i: usize = 0;
    while i < state.devices.len()
        invariant
            i <= state.devices@.len(),
            out@ == state.devices@.take(i as int),
        decreases state.devices.len() - i,
    {
        out.push(clone_device(&state.devices[i]));
        assert(state.devices@.take(i + 1) =~= state.devices@.take(i as int).push(state.devices@[i as int]));
        i = i + 1;
    }
    assert(state.devices@.take(i as int) =~= state.devices@);
    out
}

// ── The relay server ───────────────────────────────────────

/// A relay listens on a port other than 0.
pub fn check_relay_port(port: u16) -> (r: Result<(), String>)
    ensures
        port > 0 <==> r is Ok,
        r matches Err(e) ==> e@ == "Relay port must be greater than 0"@,
{
    if port == 0 {
        Err(owned("Relay port must be greater than 0"))
    } else {
        Ok(())
    }
}

/// The position of the registered device with this id.
pub open spec fn device_slot(ds: Seq<CloudDevice>, id: Seq<char>) -> Option<int>
    decreases ds.len(),
{
    if ds.len() == 0 {
        None
    } else {
        match device_slot(ds.drop_last(), id) {
            Some(k) => Some(k),
            None => if ds.last().device_id@ == id {
                Some(ds.len() - 1)
            } else {
                None
            },
        }
    }
}

proof fn lemma_device_slot(ds: Seq<CloudDevice>, id: Seq<char>)
    ensures
        device_slot(ds, id) matches Some(k) ==> 0 <= k < ds.len() && ds[k].device_id@ == id,
        device_slot(ds, id) is None ==> forall|j: int| 0 <= j < ds.len() ==> ds[j].device_id@ != id,
    decreases ds.len(),
{
    if ds.len() > 0 {
        lemma_device_slot(ds.drop_last(), id);
        assert forall|j: int| 0 <= j < ds.len() - 1 implies ds[j] == ds.drop_last()[j] by {}
    }
}

/// Whether a device entry is the one a relay server records for a register
/// request: the id and name sent, the local relay, connected, seen at `now`.
pub open spec fn registered_entry(d: CloudDevice, id: Seq<char>, name: Seq<char>, now_ms: u64) -> bool {
    &&& d.device_id@ == id
    &&& d.name@ == name
    &&& d.relay_url@ == "local-relay"@
    &&& d.connected
    &&& d.last_seen_epoch_ms == now_ms
}

/// Record a device that registered with the relay server: it replaces the
/// entry with the same id, or is added. Gives the entry's position.
pub fn register_device(devices: &mut Vec<CloudDevice>, device_id: &str, name: &str, now_ms: u64) -> (r: usize)
    ensures
        r < final(devices)@.len(),
        registered_entry(final(devices)@[r as int], device_id@, name@, now_ms),
        device_slot(old(devices)@, device_id@) matches Some(k) ==> r == k && final(devices)@.len() == old(
            devices,
        )@.len() && forall|j: int|
            0 <= j < old(devices)@.len() && j != k ==> #[trigger] final(devices)@[j] == old(devices)@[j],
        device_slot(old(devices)@, device_id@) is None ==> r == old(devices)@.len() && final(devices)@.len()
            == old(devices)@.len() + 1 && forall|j: int|
            0 <= j < old(devices)@.len() ==> #[trigger] final(devices)@[j] == old(devices)@[j],
{
    let ghost orig = devices@;
    proof {
        lemma_device_slot(orig, device_id@);
        reveal_strlit("local-relay");
    }
    let entry = CloudDevice {
        device_id: owned(device_id),
        name: owned(name),
        relay_url: owned("local-relay"),
        connected: true,
        last_seen_epoch_ms: now_ms,
    };
    let mut i: usize = 0;
    while i < devices.len()
        invariant
            devices@ == orig,
            orig == old(devices)@,
            registered_entry(entry, device_id@, name@, now_ms),
            i <= devices@.len(),
            forall|j: int| 0 <= j < i ==> devices@[j].device_id@ != device_id@,
        decreases devices.len() - i,
    {
        if str_eq(devices[i].device_id.as_str(), device_id) {
            proof {
                lemma_device_slot(orig, device_id@);
                assert(device_slot(orig, device_id@) == Some(i as int)) by {
                    lemma_first_slot(orig, device_id@, i as int);
                }
            }
            devices.set(i, entry);
            return i;
        }
        i = i + 1;
    }
    devices.push(entry);
    devices.len() - 1
}

proof fn lemma_first_slot(ds: Seq<CloudDevice>, id: Seq<char>, i: int)
    requires
        0 <= i < ds.len(),
        ds[i].device_id@ == id,
        forall|j: int| 0 <= j < i ==> ds[j].device_id@ != id,
    ensures
        device_slot(ds, id) == Some(i),
    decreases ds.len(),
{
    if i < ds.len() - 1 {
        lemma_first_slot(ds.drop_last(), id, i);
    } else {
        lemma_device_slot(ds.drop_last(), id);
    }
}


/// The relay never passes a hub command that is not read-only.
pub proof fn law_relay_refuses_writes(id: Seq<char>, from: Seq<char>, command: Seq<char>)
    requires
        !read_only_command(command),
    ensures
        envelope_verdict(id, from, "hub_command"@, Some(command)) is Err,
{
}

} // verus!
