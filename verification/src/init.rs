//! Decisions of the init process: the search for the system medium, which
//! block devices may hold it, where the offline models come from, waiting for
//! the display server, and launching and restarting the desktop client.
use crate::text::{concat2, starts_with, strings_view, to_string};
use vstd::prelude::*;

verus! {

/// Whether a block device of this name may hold the system medium: an optical
/// drive (`sr`), a SCSI/SATA disk (`sd`) or a virtio disk (`vd`).
pub open spec fn candidate_device(name: Seq<char>) -> bool {
    "sr"@.is_prefix_of(name) || "sd"@.is_prefix_of(name) || "vd"@.is_prefix_of(name)
}

/// Whether the block device `name` is worth trying to mount.
pub fn is_candidate_block_device(name: &str) -> (r: bool)
    ensures
        r == candidate_device(name@),
{
    starts_with(name, "sr") || starts_with(name, "sd") || starts_with(name, "vd")
}

/// The directory of offline models to link, given whether the live medium
/// holds one, whether the system medium was mounted, and whether the mounted
/// medium holds one: the live medium's first, then the mounted medium's.
pub fn model_source(live_medium_has_models: bool, medium_mounted: bool, medium_has_models: bool) -> (r: Option<
    String,
>)
    ensures
        live_medium_has_models ==> r is Some && r->0@ == "/run/live/medium/.ollama"@,
        !live_medium_has_models && medium_mounted && medium_has_models ==> r is Some && r->0@
            == "/media/iso/.ollama"@,
        !live_medium_has_models && !(medium_mounted && medium_has_models) ==> r is None,
{
    if live_medium_has_models {
        Some(to_string("/run/live/medium/.ollama"))
    } else if medium_mounted && medium_has_models {
        Some(to_string("/media/iso/.ollama"))
    } else {
        None
    }
}

/// The program and arguments that start the desktop client: through `runuser`
/// as the user `aura` where `runuser` is installed, else directly.
pub fn gui_command(runuser_available: bool) -> (r: (String, Vec<String>))
    ensures
        runuser_available ==> r.0@ == "runuser"@ && crate::text::strings_view(r.1@) == seq![
            "-u"@,
            "aura"@,
            "--"@,
            "/usr/bin/aura-gui"@,
        ],
        !runuser_available ==> r.0@ == "/usr/bin/aura-gui"@ && r.1@.len() == 0,
{
    let mut args: Vec<String> = Vec::new();
    if runuser_available {
        args.push(to_string("-u"));
        args.push(to_string("aura"));
        args.push(to_string("--"));
        args.push(to_string("/usr/bin/aura-gui"));
        assert(crate::text::strings_view(args@) =~= seq!["-u"@, "aura"@, "--"@, "/usr/bin/aura-gui"@]);
        (to_string("runuser"), args)
    } else {
        (to_string("/usr/bin/aura-gui"), args)
    }
}

/// Whether the child that was reaped is the desktop client, which is then
/// started again: `waitpid` reported a child, and it has the client's id.
pub fn must_restart_gui(reaped_pid: i32, gui_pid: u32) -> (r: bool)
    ensures
        r == (reaped_pid > 0 && reaped_pid == gui_pid as i32),
{
    reaped_pid > 0 && reaped_pid == gui_pid as i32
}

/// How many times the init process looks for the display server's socket.
pub const XORG_WAIT_ROUNDS: u32 = 30;

/// What to do after one look for the display server's socket.
#[derive(Debug, Clone, Copy, PartialEq, Eq, Structural)]
pub enum SocketWait {
    /// The socket is there: the server is ready.
    Ready,
    /// Wait, then look again.
    Retry,
    /// Wait, then go on without the socket.
    GiveUp,
}

/// The decision after the look numbered `round` (from 0) for the display
/// server's socket: done once it is there, else wait and look again, at most
/// `XORG_WAIT_ROUNDS` looks in all.
pub fn xorg_wait(round: u32, socket_present: bool) -> (r: SocketWait)
    ensures
        socket_present ==> r == SocketWait::Ready,
        !socket_present && round + 1 < XORG_WAIT_ROUNDS ==> r == SocketWait::Retry,
        !socket_present && round + 1 >= XORG_WAIT_ROUNDS ==> r == SocketWait::GiveUp,
{
    if socket_present {
        SocketWait::Ready
    } else if round < XORG_WAIT_ROUNDS - 1 {
        SocketWait::Retry
    } else {
        SocketWait::GiveUp
    }
}

/// How many rounds the search looks for the labelled system medium.
pub const LABEL_ROUNDS: u32 = 10;

/// How long the search waits between two looks for the label, in milliseconds.
pub const LABEL_WAIT_MS: u64 = 500;

/// The device node of the system medium, found by its label.
pub open spec fn label_device() -> Seq<char> {
    "/dev/disk/by-label/AURAOS"@
}

/// The device node of the block device `name`.
pub open spec fn device_path(name: Seq<char>) -> Seq<char> {
    "/dev/"@ + name
}

/// A file system that the search tries to mount.
#[derive(Debug, Clone, Copy, PartialEq, Eq, Structural)]
pub enum FsType {
    Iso9660,
    Vfat,
}

/// What the init process does next in its search for the system medium. The
/// medium is mounted on `/media/iso`; it holds the models when
/// `/media/iso/models` exists.
#[derive(Debug, Clone)]
pub enum MountAction {
    /// Look whether the labelled device exists.
    CheckLabel,
    /// Mount this device with this file system.
    Mount { device: String, fs: FsType },
    /// Wait this many milliseconds.
    Sleep(u64),
    /// List the names of the block devices.
    ListDevices,
    /// Look whether the mounted medium holds the models.
    CheckModels,
    /// Unmount the medium.
    Unmount,
    /// The search is over; whether a medium is mounted.
    Done(bool),
}

/// The view of an action.
pub enum ActionView {
    CheckLabel,
    Mount { device: Seq<char>, fs: FsType },
    Sleep(u64),
    ListDevices,
    CheckModels,
    Unmount,
    Done(bool),
}

impl View for MountAction {
    type V = ActionView;

    open spec fn view(&self) -> ActionView {
        match self {
            MountAction::CheckLabel => ActionView::CheckLabel,
            MountAction::Mount { device, fs } => ActionView::Mount { device: device@, fs: *fs },
            MountAction::Sleep(ms) => ActionView::Sleep(*ms),
            MountAction::ListDevices => ActionView::ListDevices,
            MountAction::CheckModels => ActionView::CheckModels,
            MountAction::Unmount => ActionView::Unmount,
            MountAction::Done(m) => ActionView::Done(*m),
        }
    }
}

/// What came of the last action.
#[derive(Debug, Clone)]
pub enum MountEvent {
    LabelPresent(bool),
    Mounted(bool),
    Slept,
    Devices(Vec<String>),
    ModelsPresent(bool),
    Unmounted,
}

/// The view of an event.
pub enum EventView {
    LabelPresent(bool),
    Mounted(bool),
    Slept,
    Devices(Seq<Seq<char>>),
    ModelsPresent(bool),
    Unmounted,
}

impl View for MountEvent {
    type V = EventView;

    open spec fn view(&self) -> EventView {
        match self {
            MountEvent::LabelPresent(b) => EventView::LabelPresent(*b),
            MountEvent::Mounted(b) => EventView::Mounted(*b),
            MountEvent::Slept => EventView::Slept,
            MountEvent::Devices(d) => EventView::Devices(strings_view(d@)),
            MountEvent::ModelsPresent(b) => EventView::ModelsPresent(*b),
            MountEvent::Unmounted => EventView::Unmounted,
        }
    }
}

/// The steps of a round of looking for the labelled medium.
#[derive(Debug, Clone, Copy, PartialEq, Eq, Structural)]
pub enum LabelStage {
    Check,
    MountIso,
    MountVfat,
    Wait,
}

/// The steps of trying one block device.
#[derive(Debug, Clone, Copy, PartialEq, Eq, Structural)]
pub enum ScanStage {
    MountIso,
    MountVfat,
    CheckModels,
    Unmounting,
}

/// Where the search stands: in a round of looking for the label, listing the
/// block devices, trying one of them, or over.
pub enum SearchView {
    Label { round: nat, stage: LabelStage },
    Listing,
    Scan { devices: Seq<Seq<char>>, index: nat, stage: ScanStage },
    Finished(bool),
}

/// Trying the devices from position `i` on: the first candidate is mounted as
/// ISO 9660 first; with none left the search ends without a medium.
pub open spec fn first_candidate(devices: Seq<Seq<char>>, i: nat) -> SearchView
    decreases devices.len() - i,
{
    if i >= devices.len() {
        SearchView::Finished(false)
    } else if candidate_device(devices[i as int]) {
        SearchView::Scan { devices, index: i, stage: ScanStage::MountIso }
    } else {
        first_candidate(devices, i + 1)
    }
}

/// The action that the search takes where it stands.
pub open spec fn expected_action(s: SearchView) -> ActionView {
    match s {
        SearchView::Label { round, stage } => match stage {
            LabelStage::Check => ActionView::CheckLabel,
            LabelStage::MountIso => ActionView::Mount { device: label_device(), fs: FsType::Iso9660 },
            LabelStage::MountVfat => ActionView::Mount { device: label_device(), fs: FsType::Vfat },
            LabelStage::Wait => ActionView::Sleep(LABEL_WAIT_MS),
        },
        SearchView::Listing => ActionView::ListDevices,
        SearchView::Scan { devices, index, stage } => match stage {
            ScanStage::MountIso => ActionView::Mount { device: device_path(devices[index as int]), fs: FsType::Iso9660 },
            ScanStage::MountVfat => ActionView::Mount { device: device_path(devices[index as int]), fs: FsType::Vfat },
            ScanStage::CheckModels => ActionView::CheckModels,
            ScanStage::Unmounting => ActionView::Unmount,
        },
        SearchView::Finished(m) => ActionView::Done(m),
    }
}

/// The search's transition table. Looking for the label: when it is there,
/// mount it as ISO 9660, and failing that as FAT; a mount that works ends the
/// search with the medium; otherwise wait and look again, for `LABEL_ROUNDS`
/// rounds in all, then list the block devices. Each candidate device is
/// mounted as ISO 9660, and failing that as FAT; a mounted device is kept only
/// when it holds the models, else it is unmounted; then the next candidate is
/// tried; when none is left the search ends without a medium. An event that
/// does not answer the action taken changes nothing.
pub open spec fn search_step(s: SearchView, e: EventView) -> SearchView {
    match s {
        SearchView::Label { round, stage } => match (stage, e) {
            (LabelStage::Check, EventView::LabelPresent(true)) => SearchView::Label { round, stage: LabelStage::MountIso },
            (LabelStage::Check, EventView::LabelPresent(false)) => SearchView::Label { round, stage: LabelStage::Wait },
            (LabelStage::MountIso, EventView::Mounted(true)) => SearchView::Finished(true),
            (LabelStage::MountIso, EventView::Mounted(false)) => SearchView::Label { round, stage: LabelStage::MountVfat },
            (LabelStage::MountVfat, EventView::Mounted(true)) => SearchView::Finished(true),
            (LabelStage::MountVfat, EventView::Mounted(false)) => SearchView::Label { round, stage: LabelStage::Wait },
            (LabelStage::Wait, EventView::Slept) => if round + 1 < LABEL_ROUNDS {
                SearchView::Label { round: round + 1, stage: LabelStage::Check }
            } else {
                SearchView::Listing
            },
            _ => s,
        },
        SearchView::Listing => match e {
            EventView::Devices(d) => first_candidate(d, 0),
            _ => s,
        },
        SearchView::Scan { devices, index, stage } => match (stage, e) {
            (ScanStage::MountIso, EventView::Mounted(true)) => SearchView::Scan { devices, index, stage: ScanStage::CheckModels },
            (ScanStage::MountIso, EventView::Mounted(false)) => SearchView::Scan { devices, index, stage: ScanStage::MountVfat },
            (ScanStage::MountVfat, EventView::Mounted(true)) => SearchView::Scan { devices, index, stage: ScanStage::CheckModels },
            (ScanStage::MountVfat, EventView::Mounted(false)) => first_candidate(devices, index + 1),
            (ScanStage::CheckModels, EventView::ModelsPresent(true)) => SearchView::Finished(true),
            (ScanStage::CheckModels, EventView::ModelsPresent(false)) => SearchView::Scan { devices, index, stage: ScanStage::Unmounting },
            (ScanStage::Unmounting, EventView::Unmounted) => first_candidate(devices, index + 1),
            _ => s,
        },
        SearchView::Finished(_) => s,
    }
}

/// A search state that can arise: within the rounds for the label, and trying
/// a device that is a candidate.
pub open spec fn search_wf(s: SearchView) -> bool {
    match s {
        SearchView::Label { round, stage } => round < LABEL_ROUNDS,
        SearchView::Scan { devices, index, stage } => index < devices.len() && candidate_device(
            devices[index as int],
        ),
        _ => true,
    }
}

proof fn lemma_first_candidate(devices: Seq<Seq<char>>, i: nat)
    ensures
        search_wf(first_candidate(devices, i)),
        first_candidate(devices, i) is Finished ==> first_candidate(devices, i) == SearchView::Finished(false),
        first_candidate(devices, i) matches SearchView::Scan { devices: d, index: j, stage: st } ==> d == devices
            && i <= j && st == ScanStage::MountIso && forall|k: int| i <= k < j ==> !candidate_device(#[trigger] devices[k]),
        first_candidate(devices, i) is Finished ==> forall|k: int| i <= k < devices.len() ==> !candidate_device(#[trigger] devices[k]),
        !(first_candidate(devices, i) is Label) && !(first_candidate(devices, i) is Listing),
    decreases devices.len() - i,
{
    if i < devices.len() && !candidate_device(devices[i as int]) {
        lemma_first_candidate(devices, i + 1);
    }
}

/// The search keeps to the states that can arise: at most `LABEL_ROUNDS`
/// rounds of looking for the label, and only candidate devices tried.
pub proof fn lemma_search_wf(s: SearchView, e: EventView)
    requires
        search_wf(s),
    ensures
        search_wf(search_step(s, e)),
{
    match s {
        SearchView::Listing => {
            if let EventView::Devices(d) = e {
                lemma_first_candidate(d, 0);
            }
        },
        SearchView::Scan { devices, index, stage } => {
            lemma_first_candidate(devices, index + 1);
        },
        _ => {},
    }
}

/// Rounds of looking for the label only advance one at a time, each after a
/// wait, and never start again once the search left them; with `search_wf`
/// this bounds them to `LABEL_ROUNDS`.
pub proof fn lemma_label_rounds_advance(s: SearchView, e: EventView)
    requires
        search_wf(s),
    ensures
        search_step(s, e) matches SearchView::Label { round: r2, stage: _ } ==> s matches SearchView::Label {
            round: r1,
            stage: st,
        } && (r2 == r1 || (r2 == r1 + 1 && st == LabelStage::Wait && e == EventView::Slept)),
{
    match s {
        SearchView::Listing => {
            if let EventView::Devices(d) = e {
                lemma_first_candidate(d, 0);
            }
        },
        SearchView::Scan { devices, index, stage } => {
            lemma_first_candidate(devices, index + 1);
        },
        _ => {},
    }
}

/// ISO 9660 comes before FAT: the search moves on to mounting a device as FAT
/// only right after mounting the same device as ISO 9660 failed.
pub proof fn lemma_iso_before_vfat(s: SearchView, e: EventView)
    requires
        search_wf(s),
        search_step(s, e) != s,
        expected_action(search_step(s, e)) matches ActionView::Mount { device, fs } && fs == FsType::Vfat,
    ensures
        expected_action(s) matches ActionView::Mount { device: d0, fs: f0 } && f0 == FsType::Iso9660
            && expected_action(search_step(s, e))->device == d0,
        e == EventView::Mounted(false),
{
    match s {
        SearchView::Listing => {
            if let EventView::Devices(d) = e {
                lemma_first_candidate(d, 0);
            }
        },
        SearchView::Scan { devices, index, stage } => {
            lemma_first_candidate(devices, index + 1);
        },
        _ => {},
    }
}

/// A block device found by the fallback scan is kept only when it holds the
/// models; one that does not is unmounted before the scan goes on.
pub proof fn lemma_fallback_needs_models(s: SearchView, e: EventView)
    requires
        search_wf(s),
        s is Scan,
    ensures
        search_step(s, e) == SearchView::Finished(true) ==> s->Scan_stage == ScanStage::CheckModels
            && e == EventView::ModelsPresent(true),
        s->Scan_stage == ScanStage::CheckModels && e == EventView::ModelsPresent(false) ==> expected_action(
            search_step(s, e),
        ) == ActionView::Unmount,
{
    lemma_first_candidate(s->Scan_devices, s->Scan_index + 1);
}

/// The search ends with the medium mounted exactly when a mount worked and was
/// kept: a label mount that works ends the search with `Done(true)` at once; a
/// device mount that works is followed by the look for the models (never by
/// the end); the search ends with `Done(true)` only on a mount that worked or
/// on finding the models on a mounted device; and it ends with `Done(false)`
/// only when nothing is mounted: after a failed mount, after unmounting, or on
/// an empty device list.
pub proof fn lemma_outcome_matches_mount(s: SearchView, e: EventView)
    requires
        search_wf(s),
    ensures
        s is Label && expected_action(s) is Mount && e == EventView::Mounted(true) ==> search_step(s, e)
            == SearchView::Finished(true) && expected_action(search_step(s, e)) == ActionView::Done(true),
        s is Scan && expected_action(s) is Mount && e == EventView::Mounted(true) ==> expected_action(
            search_step(s, e),
        ) == ActionView::CheckModels,
        !(s is Finished) && search_step(s, e) == SearchView::Finished(true) ==> (expected_action(s) is Mount
            && e == EventView::Mounted(true)) || (expected_action(s) == ActionView::CheckModels && e
            == EventView::ModelsPresent(true)),
        !(s is Finished) && search_step(s, e) == SearchView::Finished(false) ==> (expected_action(s) is Mount
            && e == EventView::Mounted(false)) || (expected_action(s) == ActionView::Unmount && e
            == EventView::Unmounted) || (expected_action(s) == ActionView::ListDevices && e is Devices),
{
    match s {
        SearchView::Listing => {
            if let EventView::Devices(d) = e {
                lemma_first_candidate(d, 0);
            }
        },
        SearchView::Scan { devices, index, stage } => {
            lemma_first_candidate(devices, index + 1);
        },
        _ => {},
    }
}

/// The search after `k` rounds in which the label was absent: each round looks
/// for the label and then waits.
pub open spec fn after_absent_rounds(k: nat) -> SearchView
    decreases k,
{
    if k == 0 {
        SearchView::Label { round: 0, stage: LabelStage::Check }
    } else {
        search_step(search_step(after_absent_rounds((k - 1) as nat), EventView::LabelPresent(false)), EventView::Slept)
    }
}

/// While the label stays absent the search looks for it ten times, waiting
/// 500 ms after each look, and only then lists the block devices.
pub proof fn lemma_ten_label_rounds(k: nat)
    requires
        k <= 10,
    ensures
        k < 10 ==> after_absent_rounds(k) == (SearchView::Label { round: k, stage: LabelStage::Check }),
        k < 10 ==> expected_action(search_step(after_absent_rounds(k), EventView::LabelPresent(false)))
            == ActionView::Sleep(500),
        k == 10 ==> after_absent_rounds(k) == SearchView::Listing,
    decreases k,
{
    if k > 0 {
        lemma_ten_label_rounds((k - 1) as nat);
    }
}

/// Once over, the search stays over with its outcome.
pub proof fn lemma_search_finished(m: bool, e: EventView)
    ensures
        search_step(SearchView::Finished(m), e) == SearchView::Finished(m),
        expected_action(SearchView::Finished(m)) == ActionView::Done(m),
{
}

enum SearchPhase {
    Label { round: u32, stage: LabelStage },
    Listing,
    Scan { devices: Vec<String>, index: usize, stage: ScanStage },
    Finished(bool),
}

/// The init process's search for the system medium.
pub struct MediumSearch {
    phase: SearchPhase,
}

impl View for MediumSearch {
    type V = SearchView;

    closed spec fn view(&self) -> SearchView {
        match self.phase {
            SearchPhase::Label { round, stage } => SearchView::Label { round: round as nat, stage },
            SearchPhase::Listing => SearchView::Listing,
            SearchPhase::Scan { devices, index, stage } => SearchView::Scan {
                devices: strings_view(devices@),
                index: index as nat,
                stage,
            },
            SearchPhase::Finished(m) => SearchView::Finished(m),
        }
    }
}

/// The phase of trying the devices from position `i` on.
fn scan_from(devices: Vec<String>, i: usize) -> (p: SearchPhase)
    ensures
        (MediumSearch { phase: p })@ == first_candidate(strings_view(devices@), i as nat),
    decreases devices@.len() - i,
{
    let ghost d = strings_view(devices@);
    let mut j = i;
    while j < devices.len() && !is_candidate_block_device(devices[j].as_str())
        invariant
            i <= j,
            d == strings_view(devices@),
            first_candidate(d, j as nat) == first_candidate(d, i as nat),
        decreases devices@.len() - j,
    {
        assert(d[j as int] == devices@[j as int]@);
        j = j + 1;
    }
    if j < devices.len() {
        assert(d[j as int] == devices@[j as int]@);
        SearchPhase::Scan { devices, index: j, stage: ScanStage::MountIso }
    } else {
        SearchPhase::Finished(false)
    }
}

impl MediumSearch {
    /// The search at its start, with its first action: look for the label.
    pub fn start() -> (r: (MediumSearch, MountAction))
        ensures
            r.0@ == (SearchView::Label { round: 0, stage: LabelStage::Check }),
            r.1@ == ActionView::CheckLabel,
            search_wf(r.0@),
    {
        (MediumSearch { phase: SearchPhase::Label { round: 0, stage: LabelStage::Check } }, MountAction::CheckLabel)
    }

    /// The action that the search takes where it stands.
    pub fn action(&self) -> (a: MountAction)
        requires
            search_wf(self@),
        ensures
            a@ == expected_action(self@),
    {
        match &self.phase {
            SearchPhase::Label { round, stage } => match stage {
                LabelStage::Check => MountAction::CheckLabel,
                LabelStage::MountIso => MountAction::Mount {
                    device: to_string("/dev/disk/by-label/AURAOS"),
                    fs: FsType::Iso9660,
                },
                LabelStage::MountVfat => MountAction::Mount {
                    device: to_string("/dev/disk/by-label/AURAOS"),
                    fs: FsType::Vfat,
                },
                LabelStage::Wait => MountAction::Sleep(LABEL_WAIT_MS),
            },
            SearchPhase::Listing => MountAction::ListDevices,
            SearchPhase::Scan { devices, index, stage } => {
                assert(strings_view(devices@)[*index as int] == devices@[*index as int]@);
                match stage {
                    ScanStage::MountIso => MountAction::Mount {
                        device: concat2("/dev/", devices[*index].as_str()),
                        fs: FsType::Iso9660,
                    },
                    ScanStage::MountVfat => MountAction::Mount {
                        device: concat2("/dev/", devices[*index].as_str()),
                        fs: FsType::Vfat,
                    },
                    ScanStage::CheckModels => MountAction::CheckModels,
                    ScanStage::Unmounting => MountAction::Unmount,
                }
            },
            SearchPhase::Finished(m) => MountAction::Done(*m),
        }
    }

    /// Takes what came of the last action, moves on as `search_step` says, and
    /// gives the next action.
    pub fn next(&mut self, event: MountEvent) -> (a: MountAction)
        requires
            search_wf(old(self)@),
        ensures
            final(self)@ == search_step(old(self)@, event@),
            search_wf(final(self)@),
            a@ == expected_action(final(self)@),
    {
        proof {
            lemma_search_wf(self@, event@);
        }
        let ghost before = self@;
        let mut cur = SearchPhase::Finished(false);
        core::mem::swap(&mut cur, &mut self.phase);
        let next = match cur {
            SearchPhase::Label { round, stage } => match (stage, event) {
                (LabelStage::Check, MountEvent::LabelPresent(true)) => SearchPhase::Label { round, stage: LabelStage::MountIso },
                (LabelStage::Check, MountEvent::LabelPresent(false)) => SearchPhase::Label { round, stage: LabelStage::Wait },
                (LabelStage::MountIso, MountEvent::Mounted(true)) => SearchPhase::Finished(true),
                (LabelStage::MountIso, MountEvent::Mounted(false)) => SearchPhase::Label { round, stage: LabelStage::MountVfat },
                (LabelStage::MountVfat, MountEvent::Mounted(true)) => SearchPhase::Finished(true),
                (LabelStage::MountVfat, MountEvent::Mounted(false)) => SearchPhase::Label { round, stage: LabelStage::Wait },
                (LabelStage::Wait, MountEvent::Slept) => if round + 1 < LABEL_ROUNDS {
                    SearchPhase::Label { round: round + 1, stage: LabelStage::Check }
                } else {
                    SearchPhase::Listing
                },
                _ => SearchPhase::Label { round, stage },
            },
            SearchPhase::Listing => match event {
                MountEvent::Devices(d) => scan_from(d, 0),
                _ => SearchPhase::Listing,
            },
            SearchPhase::Scan { devices, index, stage } => {
                let count = devices.len();
                assert(index < count) by {
                    assert(before == SearchView::Scan { devices: strings_view(devices@), index: index as nat, stage });
                }
                match (stage, event) {
                (ScanStage::MountIso, MountEvent::Mounted(true)) => SearchPhase::Scan { devices, index, stage: ScanStage::CheckModels },
                (ScanStage::MountIso, MountEvent::Mounted(false)) => SearchPhase::Scan { devices, index, stage: ScanStage::MountVfat },
                (ScanStage::MountVfat, MountEvent::Mounted(true)) => SearchPhase::Scan { devices, index, stage: ScanStage::CheckModels },
                (ScanStage::MountVfat, MountEvent::Mounted(false)) => scan_from(devices, index + 1),
                (ScanStage::CheckModels, MountEvent::ModelsPresent(true)) => SearchPhase::Finished(true),
                (ScanStage::CheckModels, MountEvent::ModelsPresent(false)) => SearchPhase::Scan { devices, index, stage: ScanStage::Unmounting },
                (ScanStage::Unmounting, MountEvent::Unmounted) => scan_from(devices, index + 1),
                _ => SearchPhase::Scan { devices, index, stage },
                }
            },
            SearchPhase::Finished(m) => SearchPhase::Finished(m),
        };
        self.phase = next;
        self.action()
    }
}

} // verus!
