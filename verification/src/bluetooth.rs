//! Bluetooth: reading the device list that `bluetoothctl devices` prints, the
//! proximity lock that locks the session when the phone goes out of range, and
//! the status that the daemon reports.
use crate::text::{
    from_utf8_lossy, is_ws, join_from, seq_of_option, lemma_split_joined_words, lemma_split_ws_words, newline_segments, seq_join, split_newlines,
    split_whitespace, split_ws, str_eq, strings_view, to_string, utf8_lossy,
};
use crate::types::{devices_view, BluetoothDevice, BluetoothStatus, DeviceView, PhoneConfig};
use vstd::prelude::*;

verus! {

/// The device that one line of `bluetoothctl devices` output describes: the
/// line reads `Device <mac> <name words...>`, with at least one name word;
/// the name is its words joined by single spaces.
pub open spec fn device_of_line(line: Seq<char>) -> Option<DeviceView> {
    let parts = split_ws(line);
    if parts.len() >= 3 && parts[0] == "Device"@ {
        Some(DeviceView { mac: parts[1], name: seq_join(parts.subrange(2, parts.len() as int), " "@) })
    } else {
        None
    }
}

/// The devices that a sequence of lines describes, in order.
pub open spec fn devices_of_lines(lines: Seq<Seq<char>>) -> Seq<DeviceView>
    decreases lines.len(),
{
    if lines.len() == 0 {
        Seq::empty()
    } else {
        let rest = devices_of_lines(lines.drop_last());
        match device_of_line(lines.last()) {
            Some(d) => rest.push(d),
            None => rest,
        }
    }
}

/// Reading lines in two parts gives the devices of the first part followed
/// by those of the second: no line is dropped or counted twice, and the order
/// of the lines is kept.
pub proof fn lemma_devices_of_lines_append(a: Seq<Seq<char>>, b: Seq<Seq<char>>)
    ensures
        devices_of_lines(a + b) == devices_of_lines(a) + devices_of_lines(b),
    decreases b.len(),
{
    if b.len() == 0 {
        assert(a + b =~= a);
        assert(devices_of_lines(a) + devices_of_lines(b) =~= devices_of_lines(a));
    } else {
        lemma_devices_of_lines_append(a, b.drop_last());
        assert((a + b).drop_last() =~= a + b.drop_last());
        assert((a + b).last() == b.last());
        match device_of_line(b.last()) {
            Some(d) => {
                assert(devices_of_lines(a) + devices_of_lines(b) =~= (devices_of_lines(a) + devices_of_lines(
                    b.drop_last(),
                )).push(d));
            },
            None => {},
        }
    }
}

/// A single line yields exactly the device it describes, or none.
pub proof fn lemma_devices_of_one_line(line: Seq<char>)
    ensures
        devices_of_lines(seq![line]) == seq_of_option(device_of_line(line)),
{
    let one = seq![line];
    assert(one.drop_last() =~= Seq::<Seq<char>>::empty());
    assert(one.last() == line);
    assert(devices_of_lines(one.drop_last()) =~= Seq::<DeviceView>::empty());
    match device_of_line(line) {
        Some(d) => {
            assert(devices_of_lines(one) == devices_of_lines(one.drop_last()).push(d));
            assert(Seq::<DeviceView>::empty().push(d) =~= seq![d]);
        },
        None => {
            assert(devices_of_lines(one) == devices_of_lines(one.drop_last()));
            assert(seq_of_option(device_of_line(line)) =~= Seq::<DeviceView>::empty());
        },
    }
}

/// Every line of the output that describes a device yields one device, in
/// line order: the devices of lines `ls` then `l` are those of `ls`, then the
/// device of `l` if it describes one.
pub proof fn lemma_each_device_line_counts(ls: Seq<Seq<char>>, l: Seq<char>)
    ensures
        devices_of_lines(ls.push(l)) == devices_of_lines(ls) + seq_of_option(device_of_line(l)),
        devices_of_lines(ls.push(l)).len() == devices_of_lines(ls).len() + (if device_of_line(l) is Some {
            1int
        } else {
            0
        }),
{
    lemma_devices_of_lines_append(ls, seq![l]);
    lemma_devices_of_one_line(l);
    assert(ls + seq![l] =~= ls.push(l));
}

/// The device that one output line describes, if any.
pub fn parse_device_line(line: &str) -> (r: Option<BluetoothDevice>)
    ensures
        match r {
            Some(d) => device_of_line(line@) == Some(d@),
            None => device_of_line(line@) is None,
        },
{
    let parts = split_whitespace(line);
    if parts.len() >= 3 && str_eq(parts[0].as_str(), "Device") {
        let mac = to_string(parts[1].as_str());
        let name = join_from(&parts, 2, " ");
        let d = BluetoothDevice { mac, name };
        assert(strings_view(parts@)[0] == parts@[0]@);
        assert(strings_view(parts@)[1] == parts@[1]@);
        Some(d)
    } else {
        proof {
            if parts@.len() >= 3 {
                assert(strings_view(parts@)[0] == parts@[0]@);
            }
        }
        None
    }
}

/// The devices listed in the output of `bluetoothctl devices`, one per line
/// that describes a device, in the order of the lines.
pub fn parse_device_list(output: &str) -> (devices: Vec<BluetoothDevice>)
    ensures
        devices_view(devices@) == devices_of_lines(newline_segments(output@)),
{
    let lines = split_newlines(output);
    let ghost segs = newline_segments(output@);
    let mut devices: Vec<BluetoothDevice> = Vec::new();
    let mut i: usize = 0;
    assert(segs.subrange(0, 0) =~= Seq::<Seq<char>>::empty());
    while i < lines.len()
        invariant
            i <= lines@.len(),
            strings_view(lines@) == segs,
            devices_view(devices@) == devices_of_lines(segs.subrange(0, i as int)),
        decreases lines@.len() - i,
    {
        let ghost sub = segs.subrange(0, i as int + 1);
        assert(sub.drop_last() =~= segs.subrange(0, i as int));
        assert(sub.last() == lines@[i as int]@);
        let parsed = parse_device_line(lines[i].as_str());
        match parsed {
            Some(d) => {
                let ghost old_devices = devices@;
                devices.push(d);
                assert(devices_view(devices@) =~= devices_view(old_devices).push(d@));
            },
            None => {},
        }
        i = i + 1;
    }
    assert(segs.subrange(0, lines@.len() as int) =~= segs);
    devices
}

/// The devices listed in the raw bytes that `bluetoothctl devices` wrote to
/// its standard output, decoded as `String::from_utf8_lossy` does.
pub fn parse_scan_output(stdout: &[u8]) -> (devices: Vec<BluetoothDevice>)
    ensures
        devices_view(devices@) == devices_of_lines(newline_segments(utf8_lossy(stdout@))),
{
    let text = from_utf8_lossy(stdout);
    parse_device_list(text.as_str())
}

proof fn lemma_seq_join_last_len(list: Seq<Seq<char>>, sep: Seq<char>)
    requires
        list.len() > 0,
    ensures
        seq_join(list, sep).len() >= list.last().len(),
{
    if list.len() == 1 {
        assert(list[0] == list.last());
    }
}

/// Every device that the parser reports has a non-empty address without
/// whitespace and a non-empty name.
pub proof fn lemma_parsed_device_shape(lines: Seq<Seq<char>>)
    ensures
        forall|k: int|
            0 <= k < devices_of_lines(lines).len() ==> {
                let d = #[trigger] devices_of_lines(lines)[k];
                &&& d.mac.len() > 0
                &&& forall|j: int| 0 <= j < d.mac.len() ==> !is_ws(#[trigger] d.mac[j])
                &&& d.name.len() > 0
            },
    decreases lines.len(),
{
    if lines.len() > 0 {
        lemma_parsed_device_shape(lines.drop_last());
        let rest = devices_of_lines(lines.drop_last());
        let line = lines.last();
        match device_of_line(line) {
            Some(d) => {
                let parts = split_ws(line);
                lemma_split_ws_words(line);
                let tail = parts.subrange(2, parts.len() as int);
                assert(tail.last() == parts[parts.len() - 1]);
                lemma_seq_join_last_len(tail, " "@);
                assert forall|k: int| 0 <= k < devices_of_lines(lines).len() implies {
                    let e = #[trigger] devices_of_lines(lines)[k];
                    &&& e.mac.len() > 0
                    &&& forall|j: int| 0 <= j < e.mac.len() ==> !is_ws(#[trigger] e.mac[j])
                    &&& e.name.len() > 0
                } by {
                    if k < rest.len() {
                        assert(devices_of_lines(lines)[k] == rest[k]);
                    } else {
                        assert(devices_of_lines(lines)[k] == d);
                        assert(d.mac == parts[1]);
                    }
                }
            },
            None => {},
        }
    }
}

/// A line describes a device exactly when its first word is `Device` and at
/// least two words follow; the address is the second word.
pub proof fn lemma_device_line_fields(line: Seq<char>)
    ensures
        device_of_line(line) is Some <==> split_ws(line).len() >= 3 && split_ws(line)[0] == "Device"@,
        device_of_line(line) matches Some(d) ==> d.mac == split_ws(line)[1],
{
}

/// A device's name holds the words that follow its address on the line,
/// separated by single spaces: splitting the name at whitespace gives those
/// words back.
pub proof fn lemma_device_name_words(line: Seq<char>)
    ensures
        device_of_line(line) matches Some(d) ==> split_ws(d.name) == split_ws(line).subrange(
            2,
            split_ws(line).len() as int,
        ),
{
    if let Some(d) = device_of_line(line) {
        let parts = split_ws(line);
        lemma_split_ws_words(line);
        let tail = parts.subrange(2, parts.len() as int);
        assert forall|k: int| 0 <= k < tail.len() implies #[trigger] tail[k].len() > 0 by {
            assert(tail[k] == parts[k + 2]);
        }
        assert forall|k: int, j: int| 0 <= k < tail.len() && 0 <= j < tail[k].len() implies !is_ws(
            #[trigger] tail[k][j],
        ) by {
            assert(tail[k] == parts[k + 2]);
        }
        lemma_split_joined_words(tail);
    }
}

/// One check of the proximity lock: `was_connected` is what the previous check
/// saw, `connected` what this one sees. The result is what the next check
/// starts from, and whether to lock the session now: only when the phone was
/// reachable and no longer is.
pub open spec fn proximity_step(was_connected: bool, connected: bool) -> (bool, bool) {
    (connected, was_connected && !connected)
}

/// The proximity lock's memory between two checks.
pub struct ProximityMonitor {
    pub was_connected: bool,
}

impl ProximityMonitor {
    /// A monitor that assumes the phone reachable, so that no lock comes at
    /// start-up.
    pub fn new() -> (m: ProximityMonitor)
        ensures
            m.was_connected,
    {
        ProximityMonitor { was_connected: true }
    }

    /// Decides what a check does with the current settings: with the lock
    /// disabled the monitor forgets and assumes the phone reachable, and nothing
    /// is pinged; with it enabled and a phone configured, that phone's address is
    /// returned to be pinged; otherwise nothing changes.
    pub fn plan(&mut self, enabled: bool, phone_mac: &Option<String>) -> (target: Option<String>)
        ensures
            !enabled ==> target is None && final(self).was_connected,
            enabled ==> final(self).was_connected == old(self).was_connected,
            enabled && phone_mac is None ==> target is None,
            enabled && phone_mac is Some ==> target is Some && target->0@ == phone_mac->0@,
    {
        if !enabled {
            self.was_connected = true;
            None
        } else {
            match phone_mac {
                Some(mac) => Some(to_string(mac.as_str())),
                None => None,
            }
        }
    }

    /// Takes the result of a ping and says whether to lock the session.
    pub fn observe(&mut self, connected: bool) -> (lock: bool)
        ensures
            (final(self).was_connected, lock) == proximity_step(old(self).was_connected, connected),
    {
        let lock = self.was_connected && !connected;
        self.was_connected = connected;
        lock
    }
}

/// The lock fires once per departure: after a check that locks, further checks
/// that still find the phone unreachable do not lock again, and a lock needs a
/// check that found the phone reachable before it.
pub proof fn lemma_lock_once_per_departure(was_connected: bool)
    ensures
        proximity_step(was_connected, false).1 ==> !proximity_step(proximity_step(was_connected, false).0, false).1,
        proximity_step(was_connected, false).1 ==> was_connected,
        !proximity_step(was_connected, true).1,
{
}

/// What the daemon reports of the proximity lock: the configured phone, whether
/// the lock is on, and whether the phone answered a ping; with no phone
/// configured it is never connected.
pub fn bluetooth_status(phone_mac: Option<String>, enabled: bool, ping_answered: bool) -> (s: BluetoothStatus)
    ensures
        s.mac_address == phone_mac,
        s.enabled == enabled,
        s.is_connected == (phone_mac is Some && ping_answered),
{
    let is_connected = phone_mac.is_some() && ping_answered;
    BluetoothStatus { mac_address: phone_mac, enabled, is_connected }
}

/// The view of an optional string.
pub open spec fn opt_view(o: Option<String>) -> Option<Seq<char>> {
    match o {
        Some(s) => Some(s@),
        None => None,
    }
}

fn copy_opt(o: &Option<String>) -> (r: Option<String>)
    ensures
        opt_view(r) == opt_view(*o),
{
    match o {
        Some(s) => Some(to_string(s.as_str())),
        None => None,
    }
}

/// The view of the proximity-lock settings: the phone and whether the lock is
/// on.
pub struct SettingsView {
    pub phone_mac: Option<Seq<char>>,
    pub enabled: bool,
}

/// The daemon's proximity-lock settings.
pub struct ProximitySettings {
    phone_mac: Option<String>,
    enabled: bool,
}

impl View for ProximitySettings {
    type V = SettingsView;

    closed spec fn view(&self) -> SettingsView {
        SettingsView { phone_mac: opt_view(self.phone_mac), enabled: self.enabled }
    }
}

impl ProximitySettings {
    /// The settings at start-up: those stored on disk when they could be read,
    /// else no phone and the lock off.
    pub fn from_stored(stored: Option<PhoneConfig>) -> (s: ProximitySettings)
        ensures
            match stored {
                Some(c) => s@ == (SettingsView { phone_mac: opt_view(c.mac_address), enabled: c.enabled }),
                None => s@ == (SettingsView { phone_mac: None, enabled: false }),
            },
    {
        match stored {
            Some(c) => ProximitySettings { phone_mac: c.mac_address, enabled: c.enabled },
            None => ProximitySettings { phone_mac: None, enabled: false },
        }
    }

    /// The configured phone.
    pub fn phone_mac(&self) -> (m: Option<String>)
        ensures
            opt_view(m) == self@.phone_mac,
    {
        copy_opt(&self.phone_mac)
    }

    /// Whether the lock is on.
    pub fn enabled(&self) -> (e: bool)
        ensures
            e == self@.enabled,
    {
        self.enabled
    }

    /// Replaces the settings, and gives them back as they are to be stored.
    pub fn configure(&mut self, phone_mac: Option<String>, enabled: bool) -> (c: PhoneConfig)
        ensures
            final(self)@ == (SettingsView { phone_mac: opt_view(phone_mac), enabled }),
            opt_view(c.mac_address) == opt_view(phone_mac),
            c.enabled == enabled,
    {
        let stored = copy_opt(&phone_mac);
        self.phone_mac = phone_mac;
        self.enabled = enabled;
        PhoneConfig { mac_address: stored, enabled }
    }
}

} // verus!
