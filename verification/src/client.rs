//! The desktop client's state: the conversation shown to the user, what the
//! daemon last reported, the Bluetooth panel, and how the client reacts to the
//! prompt and to the updates that reach it.
use crate::spotlight::{launch_target, launches, AppInfo};
use crate::text::{concat2, contains, starts_with, str_eq, strings_view, to_string, trim, trim_spec, occurs_in};
use crate::types::{
    devices_view, messages_view, BluetoothDevice, ChatMessage, DaemonStatus, DeviceView, MessageView, PhoneConfig,
};
use vstd::prelude::*;

verus! {

/// The words with which the assistant greets the user.
pub open spec fn greeting() -> Seq<char> {
    "Hello! I am Aura, your system AI. How can I help you today? I have full root control and macro playback capabilities."@
}

/// The model name shown while the daemon has not answered.
pub open spec fn detecting() -> Seq<char> {
    "Detecting..."@
}

/// Whether a model name reported by the daemon names a model that is ready.
pub open spec fn model_usable(name: Seq<char>) -> bool {
    name.len() > 0 && name != detecting() && name != "No model detected"@
}

/// The view of the client's state.
pub struct ClientView {
    pub messages: Seq<MessageView>,
    pub is_waiting: bool,
    pub is_recording: bool,
    pub current_macro_name: Seq<char>,
    pub available_macros: Seq<Seq<char>>,
    pub model_name: Seq<char>,
    pub model_ready: bool,
    pub phone_mac: Seq<char>,
    pub bluetooth_enabled: bool,
    pub is_connected: bool,
    pub is_scanning: bool,
    pub scanned_devices: Seq<DeviceView>,
}

/// The desktop client's state. Messages have the role `User` or `Aura`.
pub struct ClientState {
    pub messages: Vec<ChatMessage>,
    pub is_waiting: bool,
    pub is_recording: bool,
    pub current_macro_name: String,
    pub available_macros: Vec<String>,
    pub model_name: String,
    pub model_ready: bool,
    pub phone_mac: String,
    pub bluetooth_enabled: bool,
    pub is_connected: bool,
    pub is_scanning: bool,
    pub scanned_devices: Vec<BluetoothDevice>,
}

impl View for ClientState {
    type V = ClientView;

    open spec fn view(&self) -> ClientView {
        ClientView {
            messages: messages_view(self.messages@),
            is_waiting: self.is_waiting,
            is_recording: self.is_recording,
            current_macro_name: self.current_macro_name@,
            available_macros: strings_view(self.available_macros@),
            model_name: self.model_name@,
            model_ready: self.model_ready,
            phone_mac: self.phone_mac@,
            bluetooth_enabled: self.bluetooth_enabled,
            is_connected: self.is_connected,
            is_scanning: self.is_scanning,
            scanned_devices: devices_view(self.scanned_devices@),
        }
    }
}

/// A message of the user.
pub open spec fn user_says(text: Seq<char>) -> MessageView {
    MessageView { role: "User"@, content: text }
}

/// A message of the assistant.
pub open spec fn aura_says(text: Seq<char>) -> MessageView {
    MessageView { role: "Aura"@, content: text }
}

fn says(role: &str, text: &str) -> (m: ChatMessage)
    ensures
        m@ == (MessageView { role: role@, content: text@ }),
{
    ChatMessage { role: to_string(role), content: to_string(text) }
}

/// What became of a submitted prompt.
#[derive(Debug, Clone)]
pub enum PromptOutcome {
    /// Nothing: the prompt was blank, or an answer is awaited.
    Ignored,
    /// The prompt was arithmetic, answered on the spot.
    Calculated,
    /// The prompt named the application at this position, to be launched.
    Launched(usize),
    /// The prompt goes to the daemon.
    Sent(String),
}

impl ClientState {
    /// The state at start-up: the greeting, and no model known yet.
    pub fn new() -> (s: ClientState)
        ensures
            s@ == (ClientView {
                messages: seq![aura_says(greeting())],
                is_waiting: false,
                is_recording: false,
                current_macro_name: Seq::empty(),
                available_macros: Seq::empty(),
                model_name: detecting(),
                model_ready: false,
                phone_mac: Seq::empty(),
                bluetooth_enabled: false,
                is_connected: false,
                is_scanning: false,
                scanned_devices: Seq::empty(),
            }),
    {
        let mut messages: Vec<ChatMessage> = Vec::new();
        messages.push(
            says(
                "Aura",
                "Hello! I am Aura, your system AI. How can I help you today? I have full root control and macro playback capabilities.",
            ),
        );
        let s = ClientState {
            messages,
            is_waiting: false,
            is_recording: false,
            current_macro_name: String::new(),
            available_macros: Vec::new(),
            model_name: to_string("Detecting..."),
            model_ready: false,
            phone_mac: String::new(),
            bluetooth_enabled: false,
            is_connected: false,
            is_scanning: false,
            scanned_devices: Vec::new(),
        };
        assert(s@.messages =~= seq![aura_says(greeting())]);
        assert(s@.available_macros =~= Seq::<Seq<char>>::empty());
        assert(s@.scanned_devices =~= Seq::<DeviceView>::empty());
        s
    }

    /// Takes a status report of the daemon. Once a usable model is reported the
    /// client counts as ready; a later report does not undo that.
    pub fn apply_status(&mut self, status: DaemonStatus)
        ensures
            final(self)@ == (ClientView {
                is_recording: status.is_recording,
                current_macro_name: status.current_macro_name@,
                model_name: status.model@,
                available_macros: strings_view(status.available_macros@),
                model_ready: old(self)@.model_ready || model_usable(status.model@),
                ..old(self)@
            }),
    {
        self.is_recording = status.is_recording;
        self.current_macro_name = status.current_macro_name;
        self.model_name = status.model;
        self.available_macros = status.available_macros;
        let name = self.model_name.as_str();
        if name.unicode_len() > 0 && !str_eq(name, "Detecting...") && !str_eq(name, "No model detected") {
            self.model_ready = true;
        }
    }

    /// Takes the daemon's answer to the prompt: the answer, when it could be
    /// read, joins the conversation, and the client stops waiting.
    pub fn apply_chat_reply(&mut self, reply: Option<ChatMessage>)
        ensures
            final(self)@ == (ClientView {
                messages: match reply {
                    Some(m) => old(self)@.messages.push(m@),
                    None => old(self)@.messages,
                },
                is_waiting: false,
                ..old(self)@
            }),
    {
        match reply {
            Some(m) => {
                let ghost before = self.messages@;
                self.messages.push(m);
                assert(messages_view(self.messages@) =~= messages_view(before).push(self.messages@.last()@));
            },
            None => {},
        }
        self.is_waiting = false;
    }

    /// Takes the daemon's report on the proximity lock.
    pub fn apply_bluetooth_status(&mut self, mac: String, enabled: bool, connected: bool)
        ensures
            final(self)@ == (ClientView {
                phone_mac: mac@,
                bluetooth_enabled: enabled,
                is_connected: connected,
                ..old(self)@
            }),
    {
        self.phone_mac = mac;
        self.bluetooth_enabled = enabled;
        self.is_connected = connected;
    }

    /// Takes the devices that a Bluetooth scan found.
    pub fn apply_scan_results(&mut self, devices: Vec<BluetoothDevice>)
        ensures
            final(self)@ == (ClientView { scanned_devices: devices_view(devices@), ..old(self)@ }),
    {
        self.scanned_devices = devices;
    }

    /// Starts a Bluetooth scan: the list empties until results come.
    pub fn begin_scan(&mut self)
        ensures
            final(self)@ == (ClientView { is_scanning: true, scanned_devices: Seq::empty(), ..old(self)@ }),
    {
        self.is_scanning = true;
        self.scanned_devices = Vec::new();
        assert(devices_view(self.scanned_devices@) =~= Seq::<DeviceView>::empty());
    }

    /// Takes a plain-text update. An error that says the daemon cannot be
    /// reached sends the client back to waiting for a model; any other error is
    /// shown in the conversation; either way no answer is awaited any more. The
    /// text `ScanFinished` ends a scan. Other texts change nothing.
    pub fn apply_text(&mut self, text: &str)
        ensures
            "Error:"@.is_prefix_of(text@) && (occurs_in("unreachable"@, text@) || occurs_in(
                "Connection refused"@,
                text@,
            )) ==> final(self)@ == (ClientView {
                model_name: detecting(),
                model_ready: false,
                is_waiting: false,
                ..old(self)@
            }),
            "Error:"@.is_prefix_of(text@) && !(occurs_in("unreachable"@, text@) || occurs_in(
                "Connection refused"@,
                text@,
            )) ==> final(self)@ == (ClientView {
                messages: old(self)@.messages.push(aura_says(text@)),
                is_waiting: false,
                ..old(self)@
            }),
            !"Error:"@.is_prefix_of(text@) && text@ == "ScanFinished"@ ==> final(self)@ == (ClientView {
                is_scanning: false,
                ..old(self)@
            }),
            !"Error:"@.is_prefix_of(text@) && text@ != "ScanFinished"@ ==> final(self)@ == old(self)@,
    {
        if starts_with(text, "Error:") {
            if contains(text, "unreachable") || contains(text, "Connection refused") {
                self.model_name = to_string("Detecting...");
                self.model_ready = false;
            } else {
                let ghost before = self.messages@;
                self.messages.push(says("Aura", text));
                assert(messages_view(self.messages@) =~= messages_view(before).push(aura_says(text@)));
            }
            self.is_waiting = false;
        } else if str_eq(text, "ScanFinished") {
            self.is_scanning = false;
        }
    }

    /// Clears the conversation down to the greeting.
    pub fn clear_chat(&mut self)
        ensures
            final(self)@ == (ClientView {
                messages: old(self)@.messages.subrange(
                    0,
                    if old(self)@.messages.len() > 0 { 1 } else { 0 },
                ),
                ..old(self)@
            }),
    {
        let ghost before = self.messages@;
        self.messages.truncate(1);
        assert(messages_view(self.messages@) =~= messages_view(before).subrange(
            0,
            if before.len() > 0 { 1 } else { 0 },
        ));
    }

    /// Records in the conversation that the application `app` was launched.
    pub fn record_launch(&mut self, app: &AppInfo)
        ensures
            final(self)@ == (ClientView {
                messages: old(self)@.messages.push(user_says("Launch "@ + app.name@)).push(
                    aura_says("Launched "@ + app.name@ + " ("@ + app.executable@ + ")"@),
                ),
                ..old(self)@
            }),
    {
        let ghost before = self.messages@;
        let asked = concat2("Launch ", app.name.as_str());
        self.messages.push(says("User", asked.as_str()));
        let mut done = concat2("Launched ", app.name.as_str());
        done.append(" (");
        done.append(app.executable.as_str());
        done.append(")");
        self.messages.push(says("Aura", done.as_str()));
        assert(messages_view(self.messages@) =~= messages_view(before).push(
            user_says("Launch "@ + app.name@),
        ).push(aura_says("Launched "@ + app.name@ + " ("@ + app.executable@ + ")"@)));
    }

    /// Submits the prompt. A blank prompt, or one made while an answer is
    /// awaited, is ignored. Otherwise the trimmed prompt is answered on the
    /// spot when it is arithmetic (`math_value` holds its value, as the client
    /// prints it; it comes only with a prompt that `math_input` accepts), else launches the first application that it names, else
    /// goes to the daemon as typed, and the client waits for the answer.
    pub fn submit_prompt(&mut self, prompt: &str, apps: &Vec<AppInfo>, math_value: Option<String>) -> (r:
        PromptOutcome)
        requires
            math_value is Some ==> crate::spotlight::math_input(prompt@) is Some,
        ensures
            ({
                let q = trim_spec(prompt@);
                if q.len() == 0 || old(self)@.is_waiting {
                    r is Ignored && final(self)@ == old(self)@
                } else if math_value is Some {
                    r is Calculated && final(self)@ == (ClientView {
                        messages: old(self)@.messages.push(user_says(q)).push(
                            aura_says("= "@ + math_value->0@),
                        ),
                        ..old(self)@
                    })
                } else if exists|j: int| 0 <= j < apps@.len() && launches(#[trigger] apps@[j]@, q) {
                    r matches PromptOutcome::Launched(i) && i < apps@.len() && launches(apps@[i as int]@, q)
                        && (forall|j: int| 0 <= j < i ==> !launches(#[trigger] apps@[j]@, q))
                        && final(self)@ == (ClientView {
                        messages: old(self)@.messages.push(user_says("Launch "@ + apps@[i as int].name@)).push(
                            aura_says(
                                "Launched "@ + apps@[i as int].name@ + " ("@ + apps@[i as int].executable@
                                    + ")"@,
                            ),
                        ),
                        ..old(self)@
                    })
                } else {
                    r matches PromptOutcome::Sent(p) && p@ == prompt@ && final(self)@ == (ClientView {
                        messages: old(self)@.messages.push(user_says(prompt@)),
                        is_waiting: true,
                        ..old(self)@
                    })
                }
            }),
    {
        let query = trim(prompt);
        if query.unicode_len() == 0 || self.is_waiting {
            return PromptOutcome::Ignored;
        }
        match math_value {
            Some(v) => {
                let ghost before = self.messages@;
                self.messages.push(says("User", query.as_str()));
                let answer = concat2("= ", v.as_str());
                self.messages.push(says("Aura", answer.as_str()));
                assert(messages_view(self.messages@) =~= messages_view(before).push(user_says(query@)).push(
                    aura_says("= "@ + v@),
                ));
                return PromptOutcome::Calculated;
            },
            None => {},
        }
        match launch_target(apps, query.as_str()) {
            Some(i) => {
                self.record_launch(&apps[i]);
                PromptOutcome::Launched(i)
            },
            None => {
                let ghost before = self.messages@;
                self.messages.push(says("User", prompt));
                assert(messages_view(self.messages@) =~= messages_view(before).push(user_says(prompt@)));
                self.is_waiting = true;
                PromptOutcome::Sent(to_string(prompt))
            },
        }
    }

    /// The proximity-lock setting to send to the daemon: no phone when the
    /// address is empty.
    pub fn phone_setting(&self) -> (c: PhoneConfig)
        ensures
            c.enabled == self.bluetooth_enabled,
            self.phone_mac@.len() == 0 ==> c.mac_address is None,
            self.phone_mac@.len() > 0 ==> c.mac_address is Some && c.mac_address->0@ == self.phone_mac@,
    {
        let mac = if self.phone_mac.as_str().unicode_len() == 0 {
            None
        } else {
            Some(to_string(self.phone_mac.as_str()))
        };
        PhoneConfig { mac_address: mac, enabled: self.bluetooth_enabled }
    }

    /// The line shown on the loading screen while no model is ready.
    pub fn loading_status(&self) -> (t: String)
        ensures
            self.model_name@ == detecting() ==> t@ == "Waiting for background system daemon to boot..."@,
            self.model_name@ != detecting() && (self.model_name@.len() == 0 || self.model_name@
                == "No model detected"@) ==> t@ == "Booting local Ollama server & allocating memory..."@,
            model_usable(self.model_name@) ==> t@ == "Spinning up model: "@ + self.model_name@
                + " (loading weights to CPU)..."@,
    {
        let name = self.model_name.as_str();
        if str_eq(name, "Detecting...") {
            to_string("Waiting for background system daemon to boot...")
        } else if name.unicode_len() == 0 || str_eq(name, "No model detected") {
            to_string("Booting local Ollama server & allocating memory...")
        } else {
            let mut t = concat2("Spinning up model: ", name);
            t.append(" (loading weights to CPU)...");
            t
        }
    }
}

/// Whether bytes received on the client's control socket ask it to show or hide
/// its window: they are exactly `toggle`.
pub fn is_toggle_request(bytes: &[u8]) -> (r: bool)
    ensures
        r == (bytes@ == seq![116u8, 111u8, 103u8, 103u8, 108u8, 101u8]),
{
    let expected: [u8; 6] = [116u8, 111u8, 103u8, 103u8, 108u8, 101u8];
    if bytes.len() != 6 {
        return false;
    }
    let mut i: usize = 0;
    while i < 6
        invariant
            bytes@.len() == 6,
            expected@ == seq![116u8, 111u8, 103u8, 103u8, 108u8, 101u8],
            i <= 6,
            forall|j: int| 0 <= j < i ==> bytes@[j] == expected@[j],
        decreases 6 - i,
    {
        if bytes[i] != expected[i] {
            return false;
        }
        i = i + 1;
    }
    assert(bytes@ =~= seq![116u8, 111u8, 103u8, 103u8, 108u8, 101u8]);
    true
}

} // verus!
