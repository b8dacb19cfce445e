//! Records, enums, errors and callback interfaces exchanged with the mobile
//! bindings, with the conversions between the binding records and the
//! library's own telephony, media and filesystem models.

use vstd::prelude::*;

verus! {

/// A media transport command.
#[derive(Debug, Clone, Copy, PartialEq, Eq, Structural)]
pub enum MediaCommand {
    Play,
    Pause,
    PlayPause,
    Next,
    Previous,
    Stop,
    VolumeUp,
    VolumeDown,
}

/// What a media player is currently playing.
#[derive(Debug, Clone)]
pub struct MediaState {
    pub title: Option<String>,
    pub artist: Option<String>,
    pub album: Option<String>,
    pub playing: bool,
}

/// The kind of a contact's phone number.
#[derive(Debug, Clone, Copy, PartialEq, Eq, Structural)]
pub enum PhoneNumberType {
    Mobile,
    Home,
    Work,
    Main,
    Other,
}

/// A phone number with its kind.
#[derive(Debug, Clone)]
pub struct FfiPhoneNumber {
    pub number: String,
    pub label: PhoneNumberType,
}

/// An address-book contact.
#[derive(Debug, Clone)]
pub struct FfiContact {
    pub id: String,
    pub name: String,
    pub phone_numbers: Vec<FfiPhoneNumber>,
    pub emails: Vec<String>,
    pub photo: Option<String>,
    pub starred: bool,
}

/// Delivery state of a text message.
#[derive(Debug, Clone, Copy, PartialEq, Eq, Structural)]
pub enum SmsStatus {
    Pending,
    Sent,
    Delivered,
    Failed,
    Received,
}

/// An attachment of a multimedia message.
#[derive(Debug, Clone)]
pub struct FfiMmsAttachment {
    pub id: String,
    pub content_type: String,
    pub filename: Option<String>,
    /// Base64 encoded data for small attachments, or a reference ID for larger ones
    pub data: Option<String>,
}

/// A text or multimedia message.
#[derive(Debug, Clone)]
pub struct FfiSmsMessage {
    pub id: String,
    pub thread_id: String,
    pub address: String,
    pub contact_name: Option<String>,
    pub body: String,
    pub timestamp: u64,
    pub is_outgoing: bool,
    pub is_read: bool,
    pub status: SmsStatus,
    pub attachments: Vec<FfiMmsAttachment>,
}

/// A message thread.
#[derive(Debug, Clone)]
pub struct FfiConversation {
    pub id: String,
    pub addresses: Vec<String>,
    pub contact_names: Vec<String>,
    pub last_message: Option<String>,
    pub last_timestamp: u64,
    pub unread_count: u32,
}

/// The kind of a call-log entry.
#[derive(Debug, Clone, Copy, PartialEq, Eq, Structural)]
pub enum CallType {
    Incoming,
    Outgoing,
    Missed,
    Rejected,
    Blocked,
    Voicemail,
}

/// One entry of the call log.
#[derive(Debug, Clone)]
pub struct FfiCallLogEntry {
    pub id: String,
    pub number: String,
    pub contact_name: Option<String>,
    pub call_type: CallType,
    pub timestamp: u64,
    pub duration: u32,
    pub is_read: bool,
}

/// Progress of an ongoing call.
#[derive(Debug, Clone, Copy, PartialEq, Eq, Structural)]
pub enum ActiveCallState {
    Ringing,
    Dialing,
    Connected,
    OnHold,
    Ended,
}

/// The call in progress.
#[derive(Debug, Clone)]
pub struct FfiActiveCall {
    pub number: String,
    pub contact_name: Option<String>,
    pub state: ActiveCallState,
    pub duration: u32,
    pub is_incoming: bool,
}

/// An action on the call in progress.
#[derive(Debug, Clone)]
pub enum CallAction {
    Answer,
    Reject,
    HangUp,
    Mute,
    Unmute,
    Hold,
    Unhold,
    SendDtmf { digit: String },
}

/// The tone a DTMF action sends: the first character of its digit, `'0'`
/// when the digit is empty; none for the other actions.
pub open spec fn dtmf_tone_spec(a: CallAction) -> Option<char> {
    match a {
        CallAction::SendDtmf { digit } => Some(
            if digit@.len() > 0 {
                digit@[0]
            } else {
                '0'
            },
        ),
        _ => None,
    }
}

impl CallAction {
    /// The tone a DTMF action sends (see `dtmf_tone_spec`).
    pub fn dtmf_tone(&self) -> (r: Option<char>)
        ensures
            r == dtmf_tone_spec(*self),
    {
        match self {
            CallAction::SendDtmf { digit } => {
                let cs = crate::text::chars_of(digit.as_str());
                if cs.len() > 0 {
                    Some(cs[0])
                } else {
                    Some('0')
                }
            },
            _ => None,
        }
    }

    /// The action that sends the tone `tone`.
    pub fn send_dtmf(tone: char) -> (a: CallAction)
        ensures
            a matches CallAction::SendDtmf { digit } && digit@ == seq![tone],
    {
        let mut digit = String::new();
        crate::text::push_char(&mut digit, tone);
        CallAction::SendDtmf { digit }
    }
}

/// A device seen on the network.
#[derive(Debug, Clone)]
pub struct DiscoveredDevice {
    pub id: String,
    pub name: String,
    pub ip: String,
    pub port: u16,
    pub device_type: String,
}

/// A paired peer.
#[derive(Debug, Clone)]
pub struct TrustedPeer {
    pub fingerprint: String,
    pub name: String,
    pub device_id: String,
}

/// Errors reported across the binding boundary.
#[derive(Debug, Clone)]
pub enum ConnectedFfiError {
    InitializationError { msg: String },
    DiscoveryError { msg: String },
    ConnectionError { msg: String },
    NotInitialized,
    InvalidArgument { msg: String },
}

/// The text shown for a binding error.
pub open spec fn ffi_error_message(e: ConnectedFfiError) -> Seq<char> {
    match e {
        ConnectedFfiError::InitializationError { msg } => "Initialization error: "@ + msg@,
        ConnectedFfiError::DiscoveryError { msg } => "Discovery error: "@ + msg@,
        ConnectedFfiError::ConnectionError { msg } => "Connection error: "@ + msg@,
        ConnectedFfiError::NotInitialized => "Not initialized"@,
        ConnectedFfiError::InvalidArgument { msg } => "Invalid argument: "@ + msg@,
    }
}

fn prefixed(prefix: &str, msg: &String) -> (s: String)
    ensures
        s@ == prefix@ + msg@,
{
    let mut s = String::from_str(prefix);
    s.append(msg.as_str());
    s
}

impl ConnectedFfiError {
    /// The text shown for the error.
    pub fn message(&self) -> (s: String)
        ensures
            s@ == ffi_error_message(*self),
    {
        match self {
            ConnectedFfiError::InitializationError { msg } => prefixed("Initialization error: ", msg),
            ConnectedFfiError::DiscoveryError { msg } => prefixed("Discovery error: ", msg),
            ConnectedFfiError::ConnectionError { msg } => prefixed("Connection error: ", msg),
            ConnectedFfiError::NotInitialized => String::from_str("Not initialized"),
            ConnectedFfiError::InvalidArgument { msg } => prefixed("Invalid argument: ", msg),
        }
    }
}

/// Kind of a filesystem entry.
#[derive(Debug, Clone, Copy, PartialEq, Eq, Structural)]
pub enum FfiFsEntryType {
    File,
    Directory,
    Symlink,
    Unknown,
}

/// A filesystem entry.
#[derive(Debug, Clone)]
pub struct FfiFsEntry {
    pub name: String,
    pub path: String,
    pub entry_type: FfiFsEntryType,
    pub size: u64,
    pub modified: Option<u64>,
}

/// Error of a filesystem provider.
#[derive(Debug, Clone)]
pub enum FilesystemError {
    Generic { msg: String },
}

impl FilesystemError {
    /// The text shown for the error: "Filesystem error: <msg>".
    pub fn message(&self) -> (s: String)
        ensures
            match self {
                FilesystemError::Generic { msg } => s@ == "Filesystem error: "@ + msg@,
            },
    {
        match self {
            FilesystemError::Generic { msg } => prefixed("Filesystem error: ", msg),
        }
    }
}

/// Result of an update check.
#[derive(Debug, Clone)]
pub struct UpdateInfo {
    pub has_update: bool,
    pub latest_version: String,
    pub current_version: String,
    pub download_url: Option<String>,
    pub release_notes: Option<String>,
}

/// Receives discovery events.
pub trait DiscoveryCallback {
    fn on_device_found(&self, device: DiscoveredDevice);

    fn on_device_lost(&self, device_id: String);

    fn on_error(&self, error_msg: String);
}

/// Receives file-transfer events.
pub trait FileTransferCallback {
    fn on_transfer_request(
        &self,
        transfer_id: String,
        filename: String,
        file_size: u64,
        from_device: String,
    );

    fn on_transfer_starting(&self, filename: String, total_size: u64);

    fn on_transfer_progress(&self, bytes_transferred: u64, total_size: u64);

    fn on_transfer_completed(&self, filename: String, total_size: u64);

    fn on_transfer_failed(&self, error_msg: String);

    fn on_transfer_cancelled(&self);

    fn on_compression_progress(
        &self,
        filename: String,
        current_file: String,
        files_processed: u64,
        total_files: u64,
        bytes_processed: u64,
        total_bytes: u64,
        speed_bytes_per_sec: u64,
    );
}

/// Receives progress of a download from a remote file browser.
pub trait BrowserDownloadCallback {
    /// For file downloads `current_file` is the file name; for folder
    /// downloads it is the file currently being downloaded.
    fn on_download_progress(&self, bytes_downloaded: u64, total_bytes: u64, current_file: String);

    fn on_download_completed(&self, total_bytes: u64);

    fn on_download_failed(&self, error_msg: String);
}

/// Receives clipboard events.
pub trait ClipboardCallback {
    fn on_clipboard_received(&self, text: String, from_device: String);

    fn on_clipboard_sent(&self, success: bool, error_msg: Option<String>);
}

/// Receives pairing events.
pub trait PairingCallback {
    fn on_pairing_request(&self, device_name: String, fingerprint: String, device_id: String);

    fn on_pairing_rejected(&self, device_name: String, device_id: String);

    fn on_pairing_mode_changed(&self, enabled: bool);
}

/// Receives unpairing events.
pub trait UnpairCallback {
    fn on_device_unpaired(&self, device_id: String, device_name: String, reason: String);
}

/// Receives media-control events.
pub trait MediaControlCallback {
    fn on_media_command(&self, from_device: String, command: MediaCommand);

    fn on_media_state_update(&self, from_device: String, state: MediaState);
}

/// Receives telephony events.
pub trait TelephonyCallback {
    fn on_contacts_sync_request(&self, from_device: String, from_ip: String, from_port: u16);

    fn on_contacts_received(&self, from_device: String, contacts: Vec<FfiContact>);

    fn on_conversations_sync_request(&self, from_device: String, from_ip: String, from_port: u16);

    fn on_conversations_received(&self, from_device: String, conversations: Vec<FfiConversation>);

    fn on_messages_request(
        &self,
        from_device: String,
        from_ip: String,
        from_port: u16,
        thread_id: String,
        limit: u32,
    );

    fn on_messages_received(
        &self,
        from_device: String,
        thread_id: String,
        messages: Vec<FfiSmsMessage>,
    );

    fn on_send_sms_request(
        &self,
        from_device: String,
        from_ip: String,
        from_port: u16,
        to: String,
        body: String,
    );

    fn on_sms_send_result(&self, success: bool, message_id: Option<String>, error: Option<String>);

    fn on_new_sms(&self, from_device: String, message: FfiSmsMessage);

    fn on_call_log_request(&self, from_device: String, from_ip: String, from_port: u16, limit: u32);

    fn on_call_log_received(&self, from_device: String, entries: Vec<FfiCallLogEntry>);

    fn on_initiate_call_request(
        &self,
        from_device: String,
        from_ip: String,
        from_port: u16,
        number: String,
    );

    fn on_call_action_request(
        &self,
        from_device: String,
        from_ip: String,
        from_port: u16,
        action: CallAction,
    );

    fn on_active_call_update(&self, from_device: String, call: Option<FfiActiveCall>);
}

/// Serves a local filesystem to remote peers.
pub trait FilesystemProviderCallback {
    fn list_dir(&self, path: String) -> Result<Vec<FfiFsEntry>, FilesystemError>;

    fn read_file(&self, path: String, offset: u64, size: u64) -> Result<Vec<u8>, FilesystemError>;

    fn write_file(&self, path: String, offset: u64, data: Vec<u8>) -> Result<u64, FilesystemError>;

    fn get_metadata(&self, path: String) -> Result<FfiFsEntry, FilesystemError>;

    fn get_thumbnail(&self, path: String) -> Result<Vec<u8>, FilesystemError>;
}

/// A tone survives the trip through a DTMF action: the action made for a
/// tone (as `CallAction::send_dtmf` makes it) sends that tone.
pub proof fn lemma_dtmf_round_trip(tone: char, a: CallAction)
    requires
        a matches CallAction::SendDtmf { digit } && digit@ == seq![tone],
    ensures
        dtmf_tone_spec(a) == Some(tone),
{
}

} // verus!
