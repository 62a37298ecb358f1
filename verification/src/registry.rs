//! The devices known to the hub, at most one per device id.
use vstd::prelude::*;
use crate::order::{adjacent_text, is_index_perm, string_views, text_le, text_order};
use crate::pairing::now_epoch_ms;
use crate::text::{concat, str_eq, u64_to_string, decimal};

verus! {

/// A device seen by or paired with this hub.
#[derive(Debug, Clone)]
pub struct DeviceInfo {
    pub device_id: String,
    pub name: String,
    pub address: String,
    pub paired: bool,
    pub connected: bool,
    pub last_seen_epoch_ms: u64,
}

impl DeviceInfo {
    /// A device paired by hand, connected, with id `device-<id>` and last
    /// seen at `now`.
    pub fn new_paired_at(name: String, address: String, id: u64, now: u64) -> (d: DeviceInfo)
        ensures
            d.device_id@ == "device-"@ + decimal(id as nat),
            d.name == name,
            d.address == address,
            d.paired,
            d.connected,
            d.last_seen_epoch_ms == now,
    {
        let n = u64_to_string(id);
        let device_id = concat("device-", n.as_str());
        proof {
            reveal_strlit("device-");
        }
        DeviceInfo { device_id, name, address, paired: true, connected: true, last_seen_epoch_ms: now }
    }

    /// A device paired by hand, connected, with id `device-<id>`, last seen now.
    pub fn new_paired(name: String, address: String, id: u64) -> (d: DeviceInfo)
        ensures
            d.device_id@ == "device-"@ + decimal(id as nat),
            d.name == name,
            d.address == address,
            d.paired,
            d.connected,
    {
        let now = now_epoch_ms();
        DeviceInfo::new_paired_at(name, address, id, now)
    }

    pub fn clone_device(&self) -> (r: DeviceInfo)
        ensures
            r == *self,
    {
        DeviceInfo {
            device_id: self.device_id.clone(),
            name: self.name.clone(),
            address: self.address.clone(),
            paired: self.paired,
            connected: self.connected,
            last_seen_epoch_ms: self.last_seen_epoch_ms,
        }
    }
}

/// Position of the device with this id.
pub open spec fn device_index(ds: Seq<DeviceInfo>, id: Seq<char>) -> Option<int>
    decreases ds.len(),
{
    if ds.len() == 0 {
        None
    } else if ds.last().device_id@ == id {
        Some(ds.len() - 1)
    } else {
        device_index(ds.drop_last(), id)
    }
}

/// The device registered under `id`.
pub open spec fn lookup(ds: Seq<DeviceInfo>, id: Seq<char>) -> Option<DeviceInfo> {
    match device_index(ds, id) {
        Some(i) => Some(ds[i]),
        None => None,
    }
}

pub open spec fn ids_unique(ds: Seq<DeviceInfo>) -> bool {
    forall|i: int, j: int|
        0 <= i < j < ds.len() ==> #[trigger] ds[i].device_id@ != #[trigger] ds[j].device_id@
}

/// The registry after `upsert(d)`.
pub open spec fn upserted(ds: Seq<DeviceInfo>, d: DeviceInfo) -> Seq<DeviceInfo> {
    match device_index(ds, d.device_id@) {
        Some(i) => ds.update(i, d),
        None => ds.push(d),
    }
}

/// The registry after `unpair(id)`.
pub open spec fn unpaired(ds: Seq<DeviceInfo>, id: Seq<char>) -> Seq<DeviceInfo> {
    match device_index(ds, id) {
        Some(i) => ds.remove(i),
        None => ds,
    }
}

/// A device with its connection flag and last-seen time set.
pub open spec fn with_connection(d: DeviceInfo, connected: bool, now: u64) -> DeviceInfo {
    DeviceInfo { connected, last_seen_epoch_ms: now, ..d }
}

/// The registry after `mark_connected(id, connected)` at `now`.
pub open spec fn marked(ds: Seq<DeviceInfo>, id: Seq<char>, connected: bool, now: u64) -> Seq<DeviceInfo> {
    match device_index(ds, id) {
        Some(i) => ds.update(i, with_connection(ds[i], connected, now)),
        None => ds,
    }
}

/// `out` lists the devices of `ds`, each once, ordered by name.
pub open spec fn sorted_by_name(ds: Seq<DeviceInfo>, out: Seq<DeviceInfo>) -> bool {
    &&& exists|p: Seq<usize>|
        #![trigger is_index_perm(p, ds.len())]
        is_index_perm(p, ds.len()) && out.len() == p.len() && forall|k: int|
            0 <= k < out.len() ==> #[trigger] out[k] == ds[p[k] as int]
    &&& forall|k: int| 0 <= k < out.len() - 1 ==> text_le(#[trigger] out[k].name@, out[k + 1].name@)
}

pub proof fn lemma_device_index(ds: Seq<DeviceInfo>, id: Seq<char>)
    ensures
        device_index(ds, id) matches Some(i) ==> 0 <= i < ds.len() && ds[i].device_id@ == id,
        device_index(ds, id) is None ==> forall|k: int| 0 <= k < ds.len() ==> #[trigger] ds[k].device_id@ != id,
    decreases ds.len(),
{
    if ds.len() > 0 {
        lemma_device_index(ds.drop_last(), id);
        if ds.last().device_id@ != id {
            assert forall|k: int| 0 <= k < ds.len() - 1 implies #[trigger] ds[k].device_id@ == ds.drop_last()[k].device_id@ by {}
        }
    }
}

pub proof fn lemma_device_index_unique(ds: Seq<DeviceInfo>, id: Seq<char>, k: int)
    requires
        ids_unique(ds),
        0 <= k < ds.len(),
        ds[k].device_id@ == id,
    ensures
        device_index(ds, id) == Some(k),
    decreases ds.len(),
{
    if k < ds.len() - 1 {
        assert(ds[k].device_id@ != ds[ds.len() - 1].device_id@);
        let t = ds.drop_last();
        assert(t[k] == ds[k]);
        assert forall|a: int, b: int| 0 <= a < b < t.len() implies #[trigger] t[a].device_id@ != #[trigger] t[b].device_id@ by {
            assert(t[a] == ds[a] && t[b] == ds[b]);
        }
        lemma_device_index_unique(t, id, k);
    }
}

/// Writing at position `i` a device with the same id keeps ids unique, and
/// lookups of other ids are unchanged.
proof fn lemma_update_same_id(ds: Seq<DeviceInfo>, i: int, d: DeviceInfo)
    requires
        ids_unique(ds),
        0 <= i < ds.len(),
        ds[i].device_id@ == d.device_id@,
    ensures
        ids_unique(ds.update(i, d)),
        lookup(ds.update(i, d), d.device_id@) == Some(d),
        forall|x: Seq<char>| x != d.device_id@ ==> #[trigger] lookup(ds.update(i, d), x) == lookup(ds, x),
{
    let r = ds.update(i, d);
    assert forall|a: int, b: int| 0 <= a < b < r.len() implies #[trigger] r[a].device_id@ != #[trigger] r[b].device_id@ by {
        assert(r[a].device_id@ == ds[a].device_id@ && r[b].device_id@ == ds[b].device_id@);
        assert(ds[a].device_id@ != ds[b].device_id@);
    }
    lemma_device_index_unique(r, d.device_id@, i);
    assert forall|x: Seq<char>| x != d.device_id@ implies #[trigger] lookup(r, x) == lookup(ds, x) by {
        lemma_device_index(ds, x);
        lemma_device_index(r, x);
        match device_index(ds, x) {
            Some(j) => {
                assert(j != i);
                assert(r[j] == ds[j]);
                lemma_device_index_unique(r, x, j);
            },
            None => {
                if device_index(r, x) is Some {
                    let m = device_index(r, x)->0;
                    assert(m != i);
                    assert(r[m] == ds[m]);
                }
            },
        }
    }
}

/// Upserting keeps ids unique; the device is then found under its id, and
/// every other id finds what it found before.
pub proof fn lemma_upserted(ds: Seq<DeviceInfo>, d: DeviceInfo)
    requires
        ids_unique(ds),
    ensures
        ids_unique(upserted(ds, d)),
        lookup(upserted(ds, d), d.device_id@) == Some(d),
        forall|x: Seq<char>| x != d.device_id@ ==> #[trigger] lookup(upserted(ds, d), x) == lookup(ds, x),
{
    lemma_device_index(ds, d.device_id@);
    match device_index(ds, d.device_id@) {
        Some(i) => {
            lemma_update_same_id(ds, i, d);
        },
        None => {
            let r = ds.push(d);
            assert forall|a: int, b: int| 0 <= a < b < r.len() implies #[trigger] r[a].device_id@ != #[trigger] r[b].device_id@ by {
                if b == r.len() - 1 {
                    assert(device_index(ds, d.device_id@) is None);
                    assert(r[a] == ds[a] && r[b] == d);
                    assert(ds[a].device_id@ != d.device_id@);
                } else {
                    assert(r[a] == ds[a] && r[b] == ds[b]);
                    assert(ds[a].device_id@ != ds[b].device_id@);
                }
            }
            assert(r.drop_last() =~= ds);
            assert forall|x: Seq<char>| x != d.device_id@ implies #[trigger] lookup(r, x) == lookup(ds, x) by {
                lemma_device_index(ds, x);
            }
        },
    }
}

/// Unpairing keeps ids unique; the id is then unknown, and every other id
/// finds what it found before.
pub proof fn lemma_unpaired(ds: Seq<DeviceInfo>, id: Seq<char>)
    requires
        ids_unique(ds),
    ensures
        ids_unique(unpaired(ds, id)),
        lookup(unpaired(ds, id), id) is None,
        forall|x: Seq<char>| x != id ==> #[trigger] lookup(unpaired(ds, id), x) == lookup(ds, x),
{
    lemma_device_index(ds, id);
    let r = unpaired(ds, id);
    match device_index(ds, id) {
        Some(i) => {
            assert forall|a: int, b: int| 0 <= a < b < r.len() implies #[trigger] r[a].device_id@ != #[trigger] r[b].device_id@ by {
                let ia = if a < i { a } else { a + 1 };
                let ib = if b < i { b } else { b + 1 };
                assert(r[a] == ds[ia] && r[b] == ds[ib]);
            }
            assert forall|k: int| 0 <= k < r.len() implies #[trigger] r[k].device_id@ != id by {
                let ik = if k < i { k } else { k + 1 };
                assert(r[k] == ds[ik]);
            }
            lemma_device_index(r, id);
            assert forall|x: Seq<char>| x != id implies #[trigger] lookup(r, x) == lookup(ds, x) by {
                lemma_device_index(ds, x);
                lemma_device_index(r, x);
                match device_index(ds, x) {
                    Some(j) => {
                        let jr = if j < i { j } else { j - 1 };
                        assert(j != i);
                        assert(r[jr] == ds[j]);
                        lemma_device_index_unique(r, x, jr);
                    },
                    None => {
                        if device_index(r, x) is Some {
                            let m = device_index(r, x)->0;
                            let im = if m < i { m } else { m + 1 };
                            assert(r[m] == ds[im]);
                        }
                    },
                }
            }
        },
        None => {},
    }
}

/// The devices ordered by name.
pub fn sort_devices_by_name(ds: &Vec<DeviceInfo>) -> (out: Vec<DeviceInfo>)
    ensures
        sorted_by_name(ds@, out@),
{
    let mut names: Vec<String> = Vec::new();
    let mut i: usize = 0;
    while i < ds.len()
        invariant
            i <= ds@.len(),
            names@.len() == i,
            forall|k: int| 0 <= k < i ==> #[trigger] names@[k]@ == ds@[k].name@,
        decreases ds.len() - i,
    {
        names.push(ds[i].name.clone());
        i = i + 1;
    }
    let order = text_order(&names);
    let mut out: Vec<DeviceInfo> = Vec::new();
    let mut k: usize = 0;
    while k < order.len()
        invariant
            names@.len() == ds@.len(),
            forall|j: int| 0 <= j < ds@.len() ==> #[trigger] names@[j]@ == ds@[j].name@,
            is_index_perm(order@, ds@.len()),
            adjacent_text(string_views(names@), order@),
            k <= order@.len(),
            out@.len() == k,
            forall|j: int| 0 <= j < k ==> #[trigger] out@[j] == ds@[order@[j] as int],
        decreases order.len() - k,
    {
        out.push(ds[order[k]].clone_device());
        k = k + 1;
    }
    assert forall|j: int| 0 <= j < out@.len() - 1 implies text_le(#[trigger] out@[j].name@, out@[j + 1].name@) by {
        assert(out@[j] == ds@[order@[j] as int]);
        assert(out@[j + 1] == ds@[order@[j + 1] as int]);
        assert(string_views(names@)[order@[j] as int] == names@[order@[j] as int]@);
        assert(string_views(names@)[order@[j + 1] as int] == names@[order@[j + 1] as int]@);
    }
    out
}

/// The devices known to the hub.
#[derive(Debug)]
pub struct DeviceRegistry {
    devices: Vec<DeviceInfo>,
}

impl DeviceRegistry {
    pub closed spec fn devices(&self) -> Seq<DeviceInfo> {
        self.devices@
    }

    /// No two devices share an id.
    pub open spec fn wf(&self) -> bool {
        ids_unique(self.devices())
    }

    /// An empty registry.
    pub fn new() -> (r: DeviceRegistry)
        ensures
            r.wf(),
            r.devices().len() == 0,
    {
        DeviceRegistry { devices: Vec::new() }
    }

    fn find(&self, id: &str) -> (r: Option<usize>)
        ensures
            match r {
                Some(i) => device_index(self.devices(), id@) == Some(i as int),
                None => device_index(self.devices(), id@) is None,
            },
    {
        let mut i = self.devices.len();
        assert(self.devices@.take(i as int) =~= self.devices@);
        while i > 0
            invariant
                i <= self.devices@.len(),
                device_index(self.devices@, id@) == device_index(self.devices@.take(i as int), id@),
            decreases i,
        {
            assert(self.devices@.take(i as int).drop_last() =~= self.devices@.take(i - 1));
            if str_eq(self.devices[i - 1].device_id.as_str(), id) {
                return Some(i - 1);
            }
            i = i - 1;
        }
        None
    }

    /// Add a device, or replace the one with the same id.
    pub fn upsert(&mut self, device: DeviceInfo)
        requires
            old(self).wf(),
        ensures
            final(self).wf(),
            final(self).devices() == upserted(old(self).devices(), device),
    {
        proof {
            lemma_upserted(self.devices@, device);
            lemma_device_index(self.devices@, device.device_id@);
        }
        match self.find(device.device_id.as_str()) {
            Some(i) => {
                self.devices.set(i, device);
            },
            None => {
                self.devices.push(device);
            },
        }
    }

    /// The devices, ordered by name.
    pub fn list_devices(&self) -> (out: Vec<DeviceInfo>)
        ensures
            sorted_by_name(self.devices(), out@),
    {
        sort_devices_by_name(&self.devices)
    }

    /// Set a device's connection flag and last-seen time to `now`; the
    /// updated device is returned, nothing when the id is unknown.
    pub fn mark_connected_at(&mut self, device_id: &str, connected: bool, now: u64) -> (r: Option<DeviceInfo>)
        requires
            old(self).wf(),
        ensures
            final(self).wf(),
            final(self).devices() == marked(old(self).devices(), device_id@, connected, now),
            r == lookup(final(self).devices(), device_id@),
            r is Some <==> lookup(old(self).devices(), device_id@) is Some,
    {
        proof {
            lemma_device_index(self.devices@, device_id@);
        }
        match self.find(device_id) {
            None => None,
            Some(i) => {
                let mut d = self.devices[i].clone_device();
                d.connected = connected;
                d.last_seen_epoch_ms = now;
                proof {
                    lemma_update_same_id(self.devices@, i as int, d);
                }
                let copy = d.clone_device();
                self.devices.set(i, d);
                Some(copy)
            },
        }
    }

    /// Set a device's connection flag and last-seen time to the current time.
    pub fn mark_connected(&mut self, device_id: &str, connected: bool) -> (r: Option<DeviceInfo>)
        requires
            old(self).wf(),
        ensures
            final(self).wf(),
            exists|now: u64| #[trigger] final(self).devices() == marked(old(self).devices(), device_id@, connected, now),
            r == lookup(final(self).devices(), device_id@),
            r is Some <==> lookup(old(self).devices(), device_id@) is Some,
    {
        let now = now_epoch_ms();
        self.mark_connected_at(device_id, connected, now)
    }

    /// Forget a device; whether it was known.
    pub fn unpair(&mut self, device_id: &str) -> (r: bool)
        requires
            old(self).wf(),
        ensures
            final(self).wf(),
            final(self).devices() == unpaired(old(self).devices(), device_id@),
            r == lookup(old(self).devices(), device_id@) is Some,
    {
        proof {
            lemma_unpaired(self.devices@, device_id@);
            lemma_device_index(self.devices@, device_id@);
        }
        match self.find(device_id) {
            None => false,
            Some(i) => {
                self.devices.remove(i);
                true
            },
        }
    }
}

impl Default for DeviceRegistry {
    fn default() -> (r: DeviceRegistry)
        ensures
            r.wf(),
            r.devices().len() == 0,
    {
        DeviceRegistry::new()
    }
}

/// What a read gives back of a write: after `upsert(d)` the registry finds
/// `d` under its id and nothing changes for other ids.
pub proof fn law_upsert_then_lookup(ds: Seq<DeviceInfo>, d: DeviceInfo, other: Seq<char>)
    requires
        ids_unique(ds),
    ensures
        lookup(upserted(ds, d), d.device_id@) == Some(d),
        other != d.device_id@ ==> lookup(upserted(ds, d), other) == lookup(ds, other),
{
    lemma_upserted(ds, d);
}

/// After `unpair(id)` the id is unknown; a second unpair reports nothing removed.
pub proof fn law_unpair_forgets(ds: Seq<DeviceInfo>, id: Seq<char>, other: Seq<char>)
    requires
        ids_unique(ds),
    ensures
        lookup(unpaired(ds, id), id) is None,
        unpaired(unpaired(ds, id), id) == unpaired(ds, id),
        other != id ==> lookup(unpaired(ds, id), other) == lookup(ds, other),
{
    lemma_unpaired(ds, id);
    lemma_device_index(unpaired(ds, id), id);
}

/// After `mark_connected(id, c)` on a known id, the device reads back with
/// that flag, its other fields as before.
pub proof fn law_mark_connected(ds: Seq<DeviceInfo>, id: Seq<char>, connected: bool, now: u64)
    requires
        ids_unique(ds),
        lookup(ds, id) is Some,
    ensures
        lookup(marked(ds, id, connected, now), id) == Some(with_connection(lookup(ds, id)->0, connected, now)),
{
    lemma_device_index(ds, id);
    let i = device_index(ds, id)->0;
    lemma_update_same_id(ds, i, with_connection(ds[i], connected, now));
}

} // verus!
