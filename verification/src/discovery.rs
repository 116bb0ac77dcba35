//! LAN device discovery: turning mDNS service records into devices, the
//! registry of discovered devices and the events it reports, and the
//! instance names this device advertises under.
use crate::protocol::{Capabilities, DeviceInfo, DeviceView};
use vstd::prelude::*;

verus! {

/// A change in the set of discovered devices.
#[derive(Clone, Debug, PartialEq, Eq)]
pub enum DiscoveryEvent {
    DeviceAdded(DeviceInfo),
    /// The id of the removed device.
    DeviceRemoved(String),
    DeviceUpdated(DeviceInfo),
}

// ─── Strings ───────────────────────────────────────────────────────

/// Appends a character to a string (`String::push`).
pub assume_specification[ String::push ](s: &mut String, ch: char)
    ensures
        final(s)@ == old(s)@.push(ch),
;

/// The characters of a string.
fn chars_of(s: &str) -> (out: Vec<char>)
    ensures
        out@ == s@,
{
    let n = s.unicode_len();
    let mut out: Vec<char> = Vec::new();
    let mut i: usize = 0;
    while i < n
        invariant
            n == s@.len(),
            i <= n,
            out@ == s@.subrange(0, i as int),
        decreases n - i,
    {
        out.push(s.get_char(i));
        i = i + 1;
        assert(out@ =~= s@.subrange(0, i as int));
    }
    assert(s@.subrange(0, n as int) =~= s@);
    out
}

/// `needle` occurs in `hay` as a contiguous run of characters.
pub open spec fn is_substring(needle: Seq<char>, hay: Seq<char>) -> bool {
    exists|i: int| 0 <= i && i + needle.len() <= hay.len() && #[trigger] hay.subrange(i, i + needle.len()) == needle
}

/// Whether `needle` occurs in `hay` at position `at`.
fn occurs_at(hay: &Vec<char>, needle: &Vec<char>, at: usize) -> (found: bool)
    requires
        at + needle@.len() <= hay@.len(),
    ensures
        found == (hay@.subrange(at as int, at + needle@.len()) == needle@),
{
    let hay_len = hay.len();
    let mut j: usize = 0;
    while j < needle.len()
        invariant
            hay_len == hay@.len(),
            at + needle@.len() <= hay@.len(),
            j <= needle@.len(),
            forall|k: int| 0 <= k < j ==> hay@[at + k] == needle@[k],
        decreases needle@.len() - j,
    {
        if hay[at + j] != needle[j] {
            assert(hay@.subrange(at as int, at + needle@.len())[j as int] != needle@[j as int]);
            return false;
        }
        j = j + 1;
    }
    assert(hay@.subrange(at as int, at + needle@.len()) =~= needle@);
    true
}

/// Whether `needle` occurs in `hay` (`str::contains`).
pub fn str_contains(hay: &str, needle: &str) -> (found: bool)
    ensures
        found == is_substring(needle@, hay@),
{
    let h = chars_of(hay);
    let n = chars_of(needle);
    if n.len() > h.len() {
        return false;
    }
    let last = h.len() - n.len();
    let mut i: usize = 0;
    loop
        invariant
            h@ == hay@,
            n@ == needle@,
            last == h@.len() - n@.len(),
            i <= last,
            forall|k: int| 0 <= k < i ==> #[trigger] h@.subrange(k, k + n@.len()) != n@,
        decreases last - i,
    {
        if occurs_at(&h, &n, i) {
            return true;
        }
        if i == last {
            return false;
        }
        i = i + 1;
    }
}

/// Whether two strings hold the same characters.
pub(crate) fn same_text(a: &str, b: &str) -> (same: bool)
    ensures
        same == (a@ == b@),
{
    a.to_owned() == b.to_owned()
}

// ─── Service records ───────────────────────────────────────────────

/// What an mDNS service record tells about a device: the values of its TXT
/// properties (looked up case-insensitively by key) and its addresses.
pub struct ServiceRecord {
    pub device_id: Option<String>,
    pub device_name: Option<String>,
    pub platform: Option<String>,
    pub screen_share: Option<String>,
    pub file_transfer: Option<String>,
    pub addresses: Vec<String>,
}

/// A capability flag: present and equal to `true`, or absent.
pub open spec fn flag_value(v: Option<String>) -> bool {
    match v {
        Some(s) => s@ == "true"@,
        None => true,
    }
}

/// The text of an optional property, or a default.
pub open spec fn text_or(v: Option<String>, default: Seq<char>) -> Seq<char> {
    match v {
        Some(s) => s@,
        None => default,
    }
}

/// The device a service record describes, if it names a device id.
pub open spec fn device_of_record(r: ServiceRecord) -> Option<DeviceView> {
    match r.device_id {
        Some(id) => Some(DeviceView {
            device_id: id@,
            device_name: text_or(r.device_name, "Unknown"@),
            platform: text_or(r.platform, "unknown"@),
            ip_addresses: r.addresses@.map_values(|a: String| a@),
            capabilities: Capabilities {
                screen_share: flag_value(r.screen_share),
                file_transfer: flag_value(r.file_transfer),
                max_resolution: (1920u32, 1080u32),
            },
        }),
        None => None,
    }
}

fn flag(v: Option<String>) -> (b: bool)
    ensures
        b == flag_value(v),
{
    match v {
        Some(s) => same_text(s.as_str(), "true"),
        None => true,
    }
}

/// The device a resolved mDNS service describes. A record without a
/// `device_id` describes none; a missing name or platform reads `Unknown` /
/// `unknown`; a missing capability flag counts as present.
pub fn service_info_to_device(record: ServiceRecord) -> (device: Option<DeviceInfo>)
    ensures
        match device {
            Some(d) => device_of_record(record) == Some(d@),
            None => device_of_record(record) is None,
        },
        device matches Some(d) ==> d.ip_addresses@.len() == record.addresses@.len() && forall|i: int|
            0 <= i < record.addresses@.len() ==> (#[trigger] d.ip_addresses@[i])@ == record.addresses@[i]@,
{
    let ghost rec = record;
    let ServiceRecord { device_id, device_name, platform, screen_share, file_transfer, addresses } =
        record;
    let device_id = match device_id {
        Some(id) => id,
        None => return None,
    };
    let device_name = match device_name {
        Some(n) => n,
        None => "Unknown".to_owned(),
    };
    let platform = match platform {
        Some(p) => p,
        None => "unknown".to_owned(),
    };
    let screen_share = flag(screen_share);
    let file_transfer = flag(file_transfer);
    let d = DeviceInfo {
        device_id,
        device_name,
        platform,
        ip_addresses: addresses,
        capabilities: Capabilities { screen_share, file_transfer, max_resolution: (1920, 1080) },
    };
    assert(device_of_record(rec) == Some(d@));
    Some(d)
}

/// Law: a record describes a device exactly when it carries a device id, and
/// that device takes from the record: the id; the name and platform when
/// present (`Unknown` and `unknown` otherwise); every address, in order, as
/// the same text; a capability as present unless the record gives that flag
/// with another value than `true`; and a maximum resolution of 1920x1080.
pub proof fn lemma_record_device(r: ServiceRecord)
    ensures
        device_of_record(r) is Some <==> r.device_id is Some,
        device_of_record(r) matches Some(d) ==> {
            &&& d.device_id == r.device_id->0@
            &&& r.device_name matches Some(n) ==> d.device_name == n@
            &&& r.device_name is None ==> d.device_name == "Unknown"@
            &&& r.platform matches Some(p) ==> d.platform == p@
            &&& r.platform is None ==> d.platform == "unknown"@
            &&& d.ip_addresses.len() == r.addresses@.len()
            &&& forall|i: int| 0 <= i < r.addresses@.len() ==> d.ip_addresses[i] == (#[trigger] r.addresses@[i])@
            &&& d.capabilities.screen_share == (r.screen_share is None || r.screen_share->0@ == "true"@)
            &&& d.capabilities.file_transfer == (r.file_transfer is None || r.file_transfer->0@ == "true"@)
            &&& d.capabilities.max_resolution == (1920u32, 1080u32)
        },
{
}

/// The TXT properties this device advertises, as (key, value) pairs.
pub open spec fn advertised(device_id: Seq<char>, device_name: Seq<char>, platform: Seq<char>, version: Seq<char>) -> Seq<(Seq<char>, Seq<char>)> {
    seq![
        ("device_id"@, device_id),
        ("device_name"@, device_name),
        ("platform"@, platform),
        ("version"@, version),
        ("screen_share"@, "true"@),
        ("file_transfer"@, "true"@),
    ]
}

/// The TXT properties this device advertises over mDNS: its id, name,
/// platform and software version, and both capabilities as `true`.
pub fn advertised_properties(device_id: &str, device_name: &str, platform: &str, version: &str) -> (props: Vec<(String, String)>)
    ensures
        props@.map_values(|p: (String, String)| (p.0@, p.1@)) == advertised(device_id@, device_name@, platform@, version@),
{
    let mut props: Vec<(String, String)> = Vec::new();
    props.push(("device_id".to_owned(), device_id.to_owned()));
    props.push(("device_name".to_owned(), device_name.to_owned()));
    props.push(("platform".to_owned(), platform.to_owned()));
    props.push(("version".to_owned(), version.to_owned()));
    props.push(("screen_share".to_owned(), "true".to_owned()));
    props.push(("file_transfer".to_owned(), "true".to_owned()));
    assert(props@.map_values(|p: (String, String)| (p.0@, p.1@)) =~= advertised(device_id@, device_name@, platform@, version@));
    props
}

// ─── Registry of discovered devices ────────────────────────────────

/// `id` is the id of one of the devices.
pub open spec fn has_id(devices: Seq<DeviceView>, id: Seq<char>) -> bool {
    exists|i: int| 0 <= i < devices.len() && (#[trigger] devices[i]).device_id == id
}

/// No two devices share an id.
pub open spec fn ids_unique(devices: Seq<DeviceView>) -> bool {
    forall|i: int, j: int|
        0 <= i < j < devices.len() ==> (#[trigger] devices[i]).device_id != (#[trigger] devices[j]).device_id
}

/// The devices after one is resolved: it replaces the device with its id, or
/// is appended when its id is new.
pub open spec fn devices_after_resolve(devices: Seq<DeviceView>, d: DeviceView) -> Seq<DeviceView> {
    if has_id(devices, d.device_id) {
        devices.map_values(|e: DeviceView| if e.device_id == d.device_id { d } else { e })
    } else {
        devices.push(d)
    }
}

/// Whether the mDNS removal of service `fullname` removes device `d`: its
/// name is the service name, or its id occurs in the service name.
pub open spec fn removed_by(d: DeviceView, fullname: Seq<char>) -> bool {
    d.device_name == fullname || is_substring(d.device_id, fullname)
}

proof fn lemma_filter_ids_unique(s: Seq<DeviceView>, p: spec_fn(DeviceView) -> bool)
    requires
        ids_unique(s),
    ensures
        ids_unique(s.filter(p)),
    decreases s.len(),
{
    reveal_with_fuel(Seq::filter, 1);
    if s.len() > 0 {
        let rest = s.drop_last();
        assert(ids_unique(rest)) by {
            assert forall|i: int, j: int| 0 <= i < j < rest.len() implies (#[trigger] rest[i]).device_id
                != (#[trigger] rest[j]).device_id by {
                assert(rest[i] == s[i] && rest[j] == s[j]);
            }
        }
        lemma_filter_ids_unique(rest, p);
        let fr = rest.filter(p);
        if p(s.last()) {
            let f = fr.push(s.last());
            assert forall|i: int, j: int| 0 <= i < j < f.len() implies (#[trigger] f[i]).device_id
                != (#[trigger] f[j]).device_id by {
                if j == f.len() - 1 {
                    assert(fr.contains(f[i]));
                    rest.lemma_filter_contains_rev(p, f[i]);
                    let k = choose|k: int| 0 <= k < rest.len() && rest[k] == f[i];
                    assert(s[k] == f[i]);
                    assert(s[s.len() - 1] == s.last());
                }
            }
        }
    }
}

/// Law: resolving a device records it exactly as resolved, in every field:
/// afterwards it is among the devices, every device with its id equals it
/// (the resolved record replaces the old one rather than merging with it),
/// every device with another id was there before, and every device there
/// before with another id is still there. A new id adds one device; a known
/// one keeps the count.
pub proof fn lemma_resolve_records_device(devices: Seq<DeviceView>, d: DeviceView)
    ensures
        devices_after_resolve(devices, d).contains(d),
        forall|i: int|
            0 <= i < devices_after_resolve(devices, d).len() && (#[trigger] devices_after_resolve(
                devices,
                d,
            )[i]).device_id == d.device_id ==> devices_after_resolve(devices, d)[i] == d,
        forall|i: int|
            0 <= i < devices_after_resolve(devices, d).len() && (#[trigger] devices_after_resolve(
                devices,
                d,
            )[i]).device_id != d.device_id ==> devices.contains(devices_after_resolve(devices, d)[i]),
        forall|j: int|
            0 <= j < devices.len() && (#[trigger] devices[j]).device_id != d.device_id
                ==> devices_after_resolve(devices, d).contains(devices[j]),
        has_id(devices, d.device_id) ==> devices_after_resolve(devices, d).len() == devices.len(),
        !has_id(devices, d.device_id) ==> devices_after_resolve(devices, d).len() == devices.len() + 1,
{
    let r = devices_after_resolve(devices, d);
    if has_id(devices, d.device_id) {
        let k = choose|k: int| 0 <= k < devices.len() && (#[trigger] devices[k]).device_id == d.device_id;
        assert(r[k] == d);
        assert forall|i: int| 0 <= i < r.len() && (#[trigger] r[i]).device_id != d.device_id implies devices.contains(
            r[i],
        ) by {
            assert(r[i] == devices[i]);
        }
        assert forall|j: int| 0 <= j < devices.len() && (#[trigger] devices[j]).device_id != d.device_id implies r.contains(
            devices[j],
        ) by {
            assert(r[j] == devices[j]);
        }
    } else {
        assert(r[devices.len() as int] == d);
        assert forall|i: int| 0 <= i < r.len() && (#[trigger] r[i]).device_id != d.device_id implies devices.contains(
            r[i],
        ) by {
            assert(r[i] == devices[i]);
        }
        assert forall|j: int| 0 <= j < devices.len() && (#[trigger] devices[j]).device_id != d.device_id implies r.contains(
            devices[j],
        ) by {
            assert(r[j] == devices[j]);
        }
        assert forall|i: int| 0 <= i < r.len() && (#[trigger] r[i]).device_id == d.device_id implies r[i] == d by {
            if i < devices.len() {
                assert(r[i] == devices[i]);
                assert(has_id(devices, d.device_id));
            }
        }
    }
}

/// Law: once a device is resolved its id is known, so resolving the same
/// device again reports an update and leaves the devices as they were.
pub proof fn lemma_resolve_again(devices: Seq<DeviceView>, d: DeviceView)
    ensures
        has_id(devices_after_resolve(devices, d), d.device_id),
        devices_after_resolve(devices_after_resolve(devices, d), d) == devices_after_resolve(devices, d),
{
    let once = devices_after_resolve(devices, d);
    if has_id(devices, d.device_id) {
        let i = choose|i: int| 0 <= i < devices.len() && (#[trigger] devices[i]).device_id == d.device_id;
        assert(once[i] == d);
        assert(has_id(once, d.device_id));
    } else {
        assert(once[devices.len() as int] == d);
        assert(has_id(once, d.device_id));
    }
    let twice = devices_after_resolve(once, d);
    assert forall|k: int| 0 <= k < once.len() implies #[trigger] twice[k] == once[k] by {
        if once[k].device_id == d.device_id {
            if has_id(devices, d.device_id) {
                if devices[k].device_id != d.device_id {
                    assert(once[k] == devices[k]);
                }
            } else if k < devices.len() {
                assert(once[k] == devices[k]);
                assert(devices[k].device_id == d.device_id);
            }
        }
    }
    assert(twice =~= once);
}

/// The devices that remain after the removal of service `fullname`, in order.
pub open spec fn devices_after_removal(devices: Seq<DeviceView>, fullname: Seq<char>) -> Seq<DeviceView> {
    devices.filter(|d: DeviceView| !removed_by(d, fullname))
}

/// Law: after the removal of a service, no remaining device is one that the
/// removal concerns, and every remaining device was there before.
pub proof fn lemma_removal_complete(devices: Seq<DeviceView>, fullname: Seq<char>)
    ensures
        forall|i: int|
            0 <= i < devices_after_removal(devices, fullname).len() ==> !removed_by(
                #[trigger] devices_after_removal(devices, fullname)[i],
                fullname,
            ),
        forall|i: int|
            0 <= i < devices_after_removal(devices, fullname).len() ==> devices.contains(
                #[trigger] devices_after_removal(devices, fullname)[i],
            ),
{
    let p = |d: DeviceView| !removed_by(d, fullname);
    let f = devices.filter(p);
    assert(f == devices_after_removal(devices, fullname));
    assert forall|i: int| 0 <= i < f.len() implies !removed_by(#[trigger] f[i], fullname) by {
        devices.lemma_filter_pred(p, i);
    }
    assert forall|i: int| 0 <= i < f.len() implies devices.contains(#[trigger] f[i]) by {
        assert(f.contains(f[i]));
        devices.lemma_filter_contains_rev(p, f[i]);
    }
}

/// The devices discovered so far, each id once, in order of discovery.
pub struct DeviceRegistry {
    devices: Vec<DeviceInfo>,
}

impl View for DeviceRegistry {
    type V = Seq<DeviceView>;

    closed spec fn view(&self) -> Seq<DeviceView> {
        self.devices@.map_values(|d: DeviceInfo| d@)
    }
}

impl DeviceRegistry {
    /// Every discovered device id is held once.
    #[verifier::type_invariant]
    spec fn unique(&self) -> bool {
        ids_unique(self@)
    }

    /// No device discovered.
    pub fn new() -> (r: DeviceRegistry)
        ensures
            r@ == Seq::<DeviceView>::empty(),
    {
        let r = DeviceRegistry { devices: Vec::new() };
        assert(r@ =~= Seq::<DeviceView>::empty());
        r
    }

    /// Records a resolved device. Reports it as added when its id is new and
    /// as updated when a device with its id was known, which it replaces.
    pub fn resolve(&mut self, device: DeviceInfo) -> (event: DiscoveryEvent)
        ensures
            ids_unique(final(self)@),
            final(self)@ == devices_after_resolve(old(self)@, device@),
            final(self)@.contains(device@),
            forall|i: int|
                0 <= i < final(self)@.len() && (#[trigger] final(self)@[i]).device_id == device@.device_id
                    ==> final(self)@[i] == device@,
            has_id(old(self)@, device@.device_id) ==> (event matches DiscoveryEvent::DeviceUpdated(d)
                && d@ == device@),
            !has_id(old(self)@, device@.device_id) ==> (event matches DiscoveryEvent::DeviceAdded(d)
                && d@ == device@),
    {
        proof {
            use_type_invariant(&*self);
        }
        let ghost old_view = self@;
        let ghost dv = device@;
        proof {
            lemma_resolve_records_device(old_view, dv);
        }
        let mut devices: Vec<DeviceInfo> = Vec::new();
        std::mem::swap(&mut devices, &mut self.devices);
        let mut i: usize = 0;
        while i < devices.len()
            invariant
                devices@.map_values(|d: DeviceInfo| d@) == old_view,
                old_view == old(self)@,
                dv == device@,
                ids_unique(old_view),
                i <= devices@.len(),
                forall|k: int| 0 <= k < i ==> (#[trigger] old_view[k]).device_id != dv.device_id,
            decreases devices@.len() - i,
        {
            assert(old_view[i as int] == devices@[i as int]@);
            if same_text(devices[i].device_id.as_str(), device.device_id.as_str()) {
                let event = DiscoveryEvent::DeviceUpdated(device.duplicate());
                proof {
                    assert(old_view[i as int].device_id == dv.device_id);
                    assert(has_id(old_view, dv.device_id));
                }
                devices[i] = device;
                let ghost expected = old_view.map_values(
                    |e: DeviceView| if e.device_id == dv.device_id { dv } else { e },
                );
                proof {
                    let now = devices@.map_values(|d: DeviceInfo| d@);
                    assert forall|k: int| 0 <= k < old_view.len() implies #[trigger] now[k] == expected[k] by {
                        if k != i {
                            assert(old_view[k].device_id != dv.device_id);
                        }
                    }
                    assert(now =~= expected);
                    assert forall|a: int, b: int| 0 <= a < b < expected.len() implies (
                    #[trigger] expected[a]).device_id != (#[trigger] expected[b]).device_id by {
                        assert(old_view[a].device_id != old_view[b].device_id);
                    }
                }
                self.devices = devices;
                assert(self@[i as int] == dv);
                return event;
            }
            i = i + 1;
        }
        assert(!has_id(old_view, dv.device_id));
        let event = DiscoveryEvent::DeviceAdded(device.duplicate());
        devices.push(device);
        assert(devices@.map_values(|d: DeviceInfo| d@) =~= old_view.push(dv));
        assert(ids_unique(old_view.push(dv))) by {
            assert forall|a: int, b: int| 0 <= a < b < old_view.push(dv).len() implies (
            #[trigger] old_view.push(dv)[a]).device_id != (#[trigger] old_view.push(dv)[b]).device_id by {
                if b == old_view.len() {
                    assert(old_view[a].device_id != dv.device_id);
                }
            }
        }
        self.devices = devices;
        event
    }

    /// Removes the devices that the mDNS removal of service `fullname`
    /// concerns (see `removed_by`), reporting one removal per device, in
    /// order, with its id.
    pub fn remove_service(&mut self, fullname: &str) -> (events: Vec<DiscoveryEvent>)
        ensures
            ids_unique(final(self)@),
            final(self)@ == devices_after_removal(old(self)@, fullname@),
            events@.len() == old(self)@.filter(|d: DeviceView| removed_by(d, fullname@)).len(),
            forall|i: int|
                0 <= i < events@.len() ==> (#[trigger] events@[i] matches DiscoveryEvent::DeviceRemoved(id)
                    && id@ == old(self)@.filter(|d: DeviceView| removed_by(d, fullname@))[i].device_id),
    {
        proof {
            use_type_invariant(&*self);
        }
        let ghost old_view = self@;
        let ghost keep_pred = |d: DeviceView| !removed_by(d, fullname@);
        let ghost drop_pred = |d: DeviceView| removed_by(d, fullname@);
        let mut kept: Vec<DeviceInfo> = Vec::new();
        let mut events: Vec<DiscoveryEvent> = Vec::new();
        let mut i: usize = 0;
        let n = self.devices.len();
        while i < n
            invariant
                n == self.devices@.len(),
                self@ == old_view,
                keep_pred == (|d: DeviceView| !removed_by(d, fullname@)),
                drop_pred == (|d: DeviceView| removed_by(d, fullname@)),
                i <= n,
                kept@.map_values(|d: DeviceInfo| d@) == old_view.take(i as int).filter(keep_pred),
                events@.len() == old_view.take(i as int).filter(drop_pred).len(),
                forall|k: int|
                    0 <= k < events@.len() ==> (#[trigger] events@[k] matches DiscoveryEvent::DeviceRemoved(id)
                        && id@ == old_view.take(i as int).filter(drop_pred)[k].device_id),
            decreases n - i,
        {
            let d = &self.devices[i];
            let gone = same_text(d.device_name.as_str(), fullname) || str_contains(
                fullname,
                d.device_id.as_str(),
            );
            let ghost t = old_view.take(i + 1);
            let ghost cur = old_view[i as int];
            proof {
                assert(cur == self.devices@[i as int]@);
                assert(t.drop_last() =~= old_view.take(i as int));
                assert(t.last() == cur);
                assert(gone == removed_by(cur, fullname@));
                reveal_with_fuel(Seq::filter, 1);
                assert(t.filter(keep_pred) == (if keep_pred(cur) {
                    old_view.take(i as int).filter(keep_pred).push(cur)
                } else {
                    old_view.take(i as int).filter(keep_pred)
                }));
                assert(t.filter(drop_pred) == (if drop_pred(cur) {
                    old_view.take(i as int).filter(drop_pred).push(cur)
                } else {
                    old_view.take(i as int).filter(drop_pred)
                }));
            }
            let ghost kept_before = kept@.map_values(|d: DeviceInfo| d@);
            if gone {
                events.push(DiscoveryEvent::DeviceRemoved(d.device_id.clone()));
            } else {
                let copy = d.duplicate();
                kept.push(copy);
                assert(kept@.map_values(|d: DeviceInfo| d@) =~= kept_before.push(cur));
            }
            i = i + 1;
        }
        assert(old_view.take(n as int) =~= old_view);
        proof {
            lemma_filter_ids_unique(old_view, keep_pred);
        }
        self.devices = kept;
        events
    }

    /// The devices discovered so far, in order of discovery; no two share an
    /// id.
    pub fn get_devices(&self) -> (devices: Vec<DeviceInfo>)
        ensures
            devices@.map_values(|d: DeviceInfo| d@) == self@,
            ids_unique(self@),
    {
        proof {
            use_type_invariant(self);
        }
        let mut out: Vec<DeviceInfo> = Vec::new();
        let mut i: usize = 0;
        while i < self.devices.len()
            invariant
                i <= self.devices@.len(),
                out@.map_values(|d: DeviceInfo| d@) == self@.take(i as int),
            decreases self.devices@.len() - i,
        {
            let ghost before = out@.map_values(|d: DeviceInfo| d@);
            let copy = self.devices[i].duplicate();
            assert(copy@ == self@[i as int]);
            out.push(copy);
            assert(out@.map_values(|d: DeviceInfo| d@) =~= before.push(self@[i as int]));
            assert(self@.take(i + 1) =~= self@.take(i as int).push(self@[i as int]));
            i = i + 1;
        }
        assert(self@.take(self.devices@.len() as int) =~= self@);
        out
    }
}


// ─── Names this device advertises under ────────────────────────────

/// The lowercase hexadecimal digit of `n` (0 <= n < 16).
pub open spec fn hex_digit(n: int) -> char {
    if n < 10 {
        (48 + n) as char
    } else {
        (87 + n) as char
    }
}

/// The two hexadecimal digits of a byte.
pub open spec fn hex_byte(x: u8) -> Seq<char> {
    seq![hex_digit((x / 16) as int), hex_digit((x % 16) as int)]
}

/// Byte 6 of a version-4 UUID: the version nibble 4 over the low nibble.
pub open spec fn uuid_version_byte(x: u8) -> u8 {
    (x % 16 + 64) as u8
}

/// Byte 8 of a version-4 UUID: the variant bits `10` over the low six bits.
pub open spec fn uuid_variant_byte(x: u8) -> u8 {
    (x % 64 + 128) as u8
}

/// The text of the version-4 UUID made of 16 random bytes:
/// `xxxxxxxx-xxxx-4xxx-Vxxx-xxxxxxxxxxxx` in lowercase hexadecimal.
pub open spec fn uuid_text(b: Seq<u8>) -> Seq<char> {
    hex_byte(b[0]) + hex_byte(b[1]) + hex_byte(b[2]) + hex_byte(b[3]) + seq!['-'] + hex_byte(b[4])
        + hex_byte(b[5]) + seq!['-'] + hex_byte(uuid_version_byte(b[6])) + hex_byte(b[7]) + seq!['-']
        + hex_byte(uuid_variant_byte(b[8])) + hex_byte(b[9]) + seq!['-'] + hex_byte(b[10]) + hex_byte(
        b[11],
    ) + hex_byte(b[12]) + hex_byte(b[13]) + hex_byte(b[14]) + hex_byte(b[15])
}

fn hex_char(n: u8) -> (c: char)
    requires
        n < 16,
    ensures
        c == hex_digit(n as int),
{
    if n < 10 {
        (48u8 + n) as char
    } else {
        (87u8 + n) as char
    }
}

fn push_hex_byte(s: &mut String, x: u8)
    ensures
        final(s)@ == old(s)@ + hex_byte(x),
{
    s.push(hex_char(x / 16));
    s.push(hex_char(x % 16));
    assert(final(s)@ =~= old(s)@ + hex_byte(x));
}

/// Formats 16 bytes as a version-4 UUID, setting the version nibble to 4 and
/// the variant bits to `10`.
pub fn format_uuid_v4(bytes: [u8; 16]) -> (text: String)
    ensures
        text@ == uuid_text(bytes@),
{
    let version: u8 = (bytes[6] & 0x0f) | 0x40;
    let variant: u8 = (bytes[8] & 0x3f) | 0x80;
    let b6 = bytes[6];
    let b8 = bytes[8];
    assert(version == uuid_version_byte(b6)) by (bit_vector)
        requires
            version == (b6 & 0x0f) | 0x40,
    ;
    assert(variant == uuid_variant_byte(b8)) by (bit_vector)
        requires
            variant == (b8 & 0x3f) | 0x80,
    ;
    let mut s = String::new();
    push_hex_byte(&mut s, bytes[0]);
    push_hex_byte(&mut s, bytes[1]);
    push_hex_byte(&mut s, bytes[2]);
    push_hex_byte(&mut s, bytes[3]);
    s.push('-');
    push_hex_byte(&mut s, bytes[4]);
    push_hex_byte(&mut s, bytes[5]);
    s.push('-');
    push_hex_byte(&mut s, version);
    push_hex_byte(&mut s, bytes[7]);
    s.push('-');
    push_hex_byte(&mut s, variant);
    push_hex_byte(&mut s, bytes[9]);
    s.push('-');
    push_hex_byte(&mut s, bytes[10]);
    push_hex_byte(&mut s, bytes[11]);
    push_hex_byte(&mut s, bytes[12]);
    push_hex_byte(&mut s, bytes[13]);
    push_hex_byte(&mut s, bytes[14]);
    push_hex_byte(&mut s, bytes[15]);
    assert(s@ =~= uuid_text(bytes@));
    s
}

/// Sixteen random bytes from `rand::thread_rng()` through `Rng::gen`.
/// Nothing is promised of their values.
#[verifier::external_body]
fn random_uuid_bytes() -> [u8; 16] {
    rand::Rng::gen(&mut rand::thread_rng())
}

/// A fresh random version-4 UUID.
pub fn uuid_v4() -> (text: String)
    ensures
        exists|b: Seq<u8>| b.len() == 16 && text@ == #[trigger] uuid_text(b),
{
    let bytes = random_uuid_bytes();
    let text = format_uuid_v4(bytes);
    assert(bytes@.len() == 16 && text@ == uuid_text(bytes@));
    text
}

/// `t` is the text of a version-4 UUID made of some 16 bytes.
pub open spec fn is_uuid_text(t: Seq<char>) -> bool {
    exists|b: Seq<u8>| b.len() == 16 && t == #[trigger] uuid_text(b)
}

/// A fresh random UUID from `uuid::Uuid::new_v4`, as its `Display` writes
/// it: lowercase hexadecimal grouped 8-4-4-4-12. `new_v4` sets the version
/// nibble to 4 and the variant bits to `10` over random bits, so the text is
/// `uuid_text` of the UUID's 16 bytes; which bytes is left open.
#[verifier::external_body]
fn uuid_crate_v4_text() -> (text: String)
    ensures
        is_uuid_text(text@),
{
    uuid::Uuid::new_v4().to_string()
}

/// A fresh device id: `iris-` followed by a random version-4 UUID.
pub fn new_device_id() -> (id: String)
    ensures
        exists|b: Seq<u8>| b.len() == 16 && id@ == "iris-"@ + #[trigger] uuid_text(b),
{
    let u = uuid_crate_v4_text();
    let ghost b = choose|b: Seq<u8>| b.len() == 16 && u@ == #[trigger] uuid_text(b);
    let mut id = "iris-".to_owned();
    id.append(u.as_str());
    assert(id@ == "iris-"@ + uuid_text(b));
    id
}

/// The mDNS instance name this device advertises under: its name, a hyphen
/// and a fresh random UUID.
pub fn our_service_name(device_name: &str) -> (name: String)
    ensures
        exists|b: Seq<u8>| b.len() == 16 && name@ == device_name@ + "-"@ + #[trigger] uuid_text(b),
{
    let id = uuid_v4();
    let ghost b = choose|b: Seq<u8>| b.len() == 16 && id@ == #[trigger] uuid_text(b);
    let mut name = device_name.to_owned();
    name.append("-");
    name.append(id.as_str());
    assert(name@ == device_name@ + "-"@ + uuid_text(b));
    name
}

/// Law: a UUID text is 36 characters, with hyphens at 8, 13, 18 and 23, the
/// version digit `4` at 14 and a variant digit `8`, `9`, `a` or `b` at 19.
pub proof fn lemma_uuid_shape(b: Seq<u8>)
    requires
        b.len() == 16,
    ensures
        uuid_text(b).len() == 36,
        uuid_text(b)[8] == '-' && uuid_text(b)[13] == '-' && uuid_text(b)[18] == '-'
            && uuid_text(b)[23] == '-',
        uuid_text(b)[14] == '4',
        uuid_text(b)[19] == '8' || uuid_text(b)[19] == '9' || uuid_text(b)[19] == 'a'
            || uuid_text(b)[19] == 'b',
{
    let t = uuid_text(b);
    assert(t[14] == hex_digit((uuid_version_byte(b[6]) / 16) as int));
    assert(t[19] == hex_digit((uuid_variant_byte(b[8]) / 16) as int));
    assert(uuid_version_byte(b[6]) / 16 == 4);
    let v = uuid_variant_byte(b[8]) / 16;
    assert(8 <= v <= 11);
    assert(hex_digit(4) == '4');
    assert(v == 8 ==> hex_digit(v as int) == '8');
    assert(v == 9 ==> hex_digit(v as int) == '9');
    assert(v == 10 ==> hex_digit(v as int) == 'a');
    assert(v == 11 ==> hex_digit(v as int) == 'b');
}

/// The host name from `hostname::get`, converted lossily to UTF-8, or
/// `None` when the lookup fails. Nothing is promised of the name: it is the
/// machine's.
#[verifier::external_body]
fn system_hostname() -> Option<String> {
    match hostname::get() {
        Ok(h) => Some(h.to_string_lossy().to_string()),
        Err(_) => None,
    }
}

/// The host name a lookup gave, or `unknown` when the lookup failed.
pub fn host_name_or_unknown(lookup: Option<String>) -> (name: String)
    ensures
        name@ == text_or(lookup, "unknown"@),
{
    match lookup {
        Some(h) => h,
        None => "unknown".to_owned(),
    }
}

/// This machine's host name, or `unknown` when it cannot be read.
pub fn hostname() -> String {
    host_name_or_unknown(system_hostname())
}

/// The mDNS host name of a machine: its host name followed by `.local.`.
pub fn mdns_host_name(host: &str) -> (name: String)
    ensures
        name@ == host@ + ".local."@,
{
    let mut name = host.to_owned();
    name.append(".local.");
    name
}

} // verus!
