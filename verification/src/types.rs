//! The records exchanged between the agent daemon, the desktop client and the
//! local model, with their mathematical views.
use vstd::prelude::*;

verus! {

/// The path of the daemon's local socket.
pub const SOCKET_PATH: &'static str = "/tmp/aura.sock";

/// One message of a conversation with the model.
#[derive(Debug, Clone)]
pub struct ChatMessage {
    pub role: String,
    pub content: String,
}

/// The view of a message: its role and its text.
pub struct MessageView {
    pub role: Seq<char>,
    pub content: Seq<char>,
}

impl View for ChatMessage {
    type V = MessageView;

    open spec fn view(&self) -> MessageView {
        MessageView { role: self.role@, content: self.content@ }
    }
}

/// The views of a sequence of messages.
pub open spec fn messages_view(v: Seq<ChatMessage>) -> Seq<MessageView> {
    v.map_values(|m: ChatMessage| m@)
}

/// The phone used for the proximity lock, as stored on disk.
#[derive(Debug, Clone)]
pub struct PhoneConfig {
    pub mac_address: Option<String>,
    pub enabled: bool,
}

/// One input event of a recorded macro, with the time since the previous one.
#[derive(Debug, Clone, Copy, PartialEq, Eq, Structural)]
pub struct RecordedEvent {
    pub delay_ms: u64,
    pub event_type: u16,
    pub code: u16,
    pub value: i32,
}

/// The answer to a chat request: the final text and the whole conversation.
#[derive(Debug, Clone)]
pub struct ChatResponse {
    pub response: String,
    pub history: Vec<ChatMessage>,
}

/// The combined state of the daemon and of the proximity lock.
#[derive(Debug, Clone, PartialEq)]
pub struct StatusResponse {
    pub is_recording: bool,
    pub current_macro_name: String,
    pub model: String,
    pub available_macros: Vec<String>,
    pub phone_mac: String,
    pub bt_enabled: bool,
    pub is_connected: bool,
}

/// A Bluetooth device seen by a scan.
#[derive(Debug, Clone)]
pub struct BluetoothDevice {
    pub mac: String,
    pub name: String,
}

/// The view of a Bluetooth device: its address and its name.
pub struct DeviceView {
    pub mac: Seq<char>,
    pub name: Seq<char>,
}

impl View for BluetoothDevice {
    type V = DeviceView;

    open spec fn view(&self) -> DeviceView {
        DeviceView { mac: self.mac@, name: self.name@ }
    }
}

/// The views of a sequence of devices.
pub open spec fn devices_view(v: Seq<BluetoothDevice>) -> Seq<DeviceView> {
    v.map_values(|d: BluetoothDevice| d@)
}

/// A request to the daemon over its local socket.
#[derive(Debug)]
pub enum IpcRequest {
    GetStatus,
    GetBluetoothStatus,
    ScanBluetooth,
    SetupBluetooth { mac_address: Option<String>, enabled: bool },
    SendChat { prompt: String },
    RecordMacro { name: String },
    StopRecordMacro,
    PlayMacro { name: String },
}

/// A reply of the daemon over its local socket.
#[derive(Debug)]
pub enum IpcResponse {
    Status(StatusResponse),
    BluetoothStatus { mac: String, enabled: bool, is_connected: bool },
    BluetoothScan { devices: Vec<BluetoothDevice> },
    SetupBluetoothResult { success: bool },
    Chat(ChatResponse),
    MacroRecordResult { success: bool, message: String },
    MacroPlayResult { success: bool, message: String },
    Error(String),
}

/// What the daemon reports of itself: the recorder, the model and the stored
/// macros.
#[derive(Debug, Clone)]
pub struct DaemonStatus {
    pub is_recording: bool,
    pub current_macro_name: String,
    pub model: String,
    pub available_macros: Vec<String>,
}

/// What the daemon reports of the proximity lock.
#[derive(Debug, Clone)]
pub struct BluetoothStatus {
    pub mac_address: Option<String>,
    pub enabled: bool,
    pub is_connected: bool,
}

/// One step that the model asks the agent to take.
#[derive(Debug, Clone)]
pub struct AgentAction {
    pub thought: String,
    pub action: String,
    pub command: String,
    pub macro_name: String,
    pub response: String,
}

/// The answer of a daemon endpoint: whether it succeeded, and a message.
#[derive(Debug, Clone)]
pub struct ApiReply {
    pub success: bool,
    pub message: String,
}

impl ApiReply {
    /// The word that tells a client whether the request succeeded: `success`
    /// or `error`.
    pub fn status_word(&self) -> (w: String)
        ensures
            self.success ==> w@ == "success"@,
            !self.success ==> w@ == "error"@,
    {
        if self.success {
            "success".to_owned()
        } else {
            "error".to_owned()
        }
    }
}

} // verus!
