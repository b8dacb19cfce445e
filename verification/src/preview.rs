//! Previewing a remote file: the media type guessed from its name, the
//! extension its temporary copy gets, whether it goes to a media player,
//! what the user is told as the preview loads, and how the loaded preview
//! is shown (an image, text, audio or video, or its size).

use vstd::prelude::*;
use base64::Engine;
use crate::format::{file_size_text, format_file_size};
use crate::fs_provider::{extension_chars, extension_spec, file_name_chars, file_name_spec};
use crate::proximity::{decode_utf8_lossy, utf8_lossy};
use crate::remote::{has_prefix, starts_with_chars};
use crate::state::{add_notification, notification_added, AppState, PreviewData};
use crate::text::{chars_of, string_of};

verus! {

/// The media type that the `mime_guess` table gives for an extension, or
/// `application/octet-stream` when it has none.
pub uninterp spec fn mime_of_extension(ext: Seq<char>) -> Seq<char>;

/// `mime_guess::from_ext(ext).first_or_octet_stream()`, as text. Its result
/// is named `mime_of_extension` of the extension (the crate looks it up in a
/// fixed table); for the empty extension the crate gives no type, hence
/// `application/octet-stream`.
#[verifier::external_body]
fn guess_mime(ext: &str) -> (m: String)
    ensures
        m@ == mime_of_extension(ext@),
        ext@.len() == 0 ==> m@ == "application/octet-stream"@,
{
    mime_guess::from_ext(ext).first_or_octet_stream().to_string()
}

/// The character of a 6-bit value in the standard base64 alphabet
/// (`A`-`Z`, `a`-`z`, `0`-`9`, `+`, `/`).
pub open spec fn base64_char(v: int) -> char {
    if v < 26 {
        (65 + v) as char
    } else if v < 52 {
        (97 + v - 26) as char
    } else if v < 62 {
        (48 + v - 52) as char
    } else if v == 62 {
        '+'
    } else {
        '/'
    }
}

/// The standard base64 text of the bytes (RFC 4648): each group of three
/// bytes becomes four characters of six bits each, and a last group of one
/// or two bytes is padded with `=` to four characters.
pub open spec fn base64_encoded(data: Seq<u8>) -> Seq<char>
    decreases data.len(),
{
    if data.len() == 0 {
        seq![]
    } else if data.len() == 1 {
        let a = data[0] as int;
        seq![base64_char(a / 4), base64_char((a % 4) * 16), '=', '=']
    } else if data.len() == 2 {
        let a = data[0] as int;
        let b = data[1] as int;
        seq![base64_char(a / 4), base64_char((a % 4) * 16 + b / 16), base64_char((b % 16) * 4), '=']
    } else {
        let a = data[0] as int;
        let b = data[1] as int;
        let c = data[2] as int;
        seq![
            base64_char(a / 4),
            base64_char((a % 4) * 16 + b / 16),
            base64_char((b % 16) * 4 + c / 64),
            base64_char(c % 64),
        ] + base64_encoded(data.skip(3))
    }
}

/// `base64::engine::general_purpose::STANDARD.encode(data)`: the standard
/// alphabet with padding, as the crate documents it. The crate panics when
/// the encoded length overflows `usize`, which a length below half of
/// `usize::MAX` rules out.
#[verifier::external_body]
pub(crate) fn encode_base64(data: &[u8]) -> (s: String)
    requires
        data@.len() <= usize::MAX / 2,
    ensures
        s@ == base64_encoded(data@),
{
    base64::engine::general_purpose::STANDARD.encode(data)
}

/// The extension of a path (as `Path::extension`).
pub open spec fn path_extension(p: Seq<char>) -> Option<Seq<char>> {
    match file_name_spec(p) {
        Some(n) => extension_spec(n),
        None => None,
    }
}

fn path_extension_chars(cs: &[char]) -> (r: Option<Vec<char>>)
    ensures
        match path_extension(cs@) {
            Some(e) => r matches Some(v) && v@ == e,
            None => r is None,
        },
{
    match file_name_chars(cs) {
        Some(n) => extension_chars(&n),
        None => None,
    }
}

/// The media type guessed from a file's name: that of its extension, or
/// `application/octet-stream` when it has none.
pub open spec fn preview_mime_spec(filename: Seq<char>) -> Seq<char> {
    match path_extension(filename) {
        Some(e) => mime_of_extension(e),
        None => "application/octet-stream"@,
    }
}

/// The extension of the temporary copy: the file's own when it has a
/// non-empty one, else `bin`.
pub open spec fn temp_extension_spec(filename: Seq<char>) -> Seq<char> {
    match path_extension(filename) {
        Some(e) => if e.len() > 0 {
            e
        } else {
            "bin"@
        },
        None => "bin"@,
    }
}

/// Whether a media type is audio or video, which a media player opens.
pub open spec fn is_media_mime_spec(mime: Seq<char>) -> bool {
    has_prefix(mime, "audio/"@) || has_prefix(mime, "video/"@)
}

/// How a remote file is previewed.
#[derive(Clone, Debug)]
pub struct PreviewPlan {
    pub mime_type: String,
    pub temp_extension: String,
    pub is_media: bool,
}

/// Whether a media type is audio or video.
pub fn is_media_mime(mime: &str) -> (b: bool)
    ensures
        b == is_media_mime_spec(mime@),
{
    let m = chars_of(mime);
    let audio = chars_of("audio/");
    let video = chars_of("video/");
    starts_with_chars(m.as_slice(), audio.as_slice()) || starts_with_chars(m.as_slice(), video.as_slice())
}

/// How the file named `filename` is previewed: its guessed media type, the
/// extension of its temporary copy, and whether a media player opens it.
pub fn preview_plan(filename: &str) -> (p: PreviewPlan)
    ensures
        p.mime_type@ == preview_mime_spec(filename@),
        p.temp_extension@ == temp_extension_spec(filename@),
        p.is_media == is_media_mime_spec(preview_mime_spec(filename@)),
{
    let cs = chars_of(filename);
    let ext = path_extension_chars(cs.as_slice());
    let (mime, temp) = match &ext {
        Some(e) => {
            let es = string_of(e.as_slice());
            let mime = guess_mime(es.as_str());
            let temp = if e.len() > 0 {
                es
            } else {
                String::from_str("bin")
            };
            (mime, temp)
        },
        None => {
            proof {
                reveal_strlit("");
            }
            (guess_mime(""), String::from_str("bin"))
        },
    };
    let is_media = is_media_mime(mime.as_str());
    PreviewPlan { mime_type: mime, temp_extension: temp, is_media }
}

/// The preview of `filename` starts loading: the user is told.
pub fn on_preview_started(state: &mut AppState, filename: &str, now: u64)
    requires
        old(state).wf(),
        old(state).notification_counter < u64::MAX,
    ensures
        final(state).wf(),
        notification_added(*old(state), *final(state), "Preview"@, "Loading "@ + filename@ + "..."@, ""@, now),
        *final(state) == (AppState {
            notifications: final(state).notifications,
            notification_counter: final(state).notification_counter,
            ..*old(state)
        }),
{
    let mut msg = String::from_str("Loading ");
    msg.append(filename);
    msg.append("...");
    add_notification(state, "Preview", msg.as_str(), "", now);
}

/// Fetching the file for preview failed: the user is told why.
pub fn on_preview_failed(state: &mut AppState, error: &str, now: u64)
    requires
        old(state).wf(),
        old(state).notification_counter < u64::MAX,
    ensures
        final(state).wf(),
        notification_added(*old(state), *final(state), "Preview Failed"@, error@, ""@, now),
        *final(state) == (AppState {
            notifications: final(state).notifications,
            notification_counter: final(state).notification_counter,
            ..*old(state)
        }),
{
    add_notification(state, "Preview Failed", error, "", now);
}

/// The fetched copy of a file that is not audio or video was read, or
/// could not be (`None`): its contents are shown, or the user is told.
pub fn on_preview_read(state: &mut AppState, filename: String, mime_type: String, data: Option<Vec<u8>>, now: u64)
    requires
        old(state).wf(),
        old(state).notification_counter < u64::MAX,
    ensures
        final(state).wf(),
        match data {
            Some(d) => *final(state) == (AppState {
                preview_data: Some(PreviewData { filename, mime_type, data: d }),
                ..*old(state)
            }),
            None => {
                &&& notification_added(*old(state), *final(state), "Preview"@, "Failed to read file"@, ""@, now)
                &&& *final(state) == (AppState {
                    notifications: final(state).notifications,
                    notification_counter: final(state).notification_counter,
                    ..*old(state)
                })
            },
        },
{
    match data {
        Some(d) => {
            state.preview_data = Some(PreviewData { filename, mime_type, data: d });
        },
        None => {
            add_notification(state, "Preview", "Failed to read file", "", now);
        },
    }
}

/// The message when no media player could open the file: where it was
/// saved instead, if it was.
pub open spec fn no_player_message(saved_to: Option<String>) -> Seq<char> {
    match saved_to {
        Some(p) => "No media player found. Saved to "@ + p@,
        None => "No media player found to open this file"@,
    }
}

/// No media player opened an audio or video file; it was saved to
/// `saved_to` when a download folder is set. The user is told, and an empty
/// preview of the file is shown so that the window answers too.
pub fn on_no_media_player(
    state: &mut AppState,
    filename: String,
    mime_type: String,
    saved_to: Option<String>,
    now: u64,
)
    requires
        old(state).wf(),
        old(state).notification_counter < u64::MAX,
    ensures
        final(state).wf(),
        final(state).preview_data matches Some(p) && p.filename == filename && p.mime_type == mime_type
            && p.data@.len() == 0,
        notification_added(*old(state), *final(state), "Preview"@, no_player_message(saved_to), ""@, now),
        *final(state) == (AppState {
            notifications: final(state).notifications,
            notification_counter: final(state).notification_counter,
            preview_data: final(state).preview_data,
            ..*old(state)
        }),
{
    match &saved_to {
        Some(p) => {
            let mut msg = String::from_str("No media player found. Saved to ");
            msg.append(p.as_str());
            add_notification(state, "Preview", msg.as_str(), "", now);
        },
        None => {
            add_notification(state, "Preview", "No media player found to open this file", "", now);
        },
    }
    state.preview_data = Some(PreviewData { filename, mime_type, data: Vec::new() });
}

/// How a loaded preview is shown.
#[derive(Clone, Debug)]
pub enum PreviewView {
    Image { data_url: String },
    Text { text: String },
    Audio { data_url: String },
    Video { data_url: String },
    Unsupported { mime_type: String, size_text: String },
}

/// The `data:` URL of a preview: its media type and its base64 text.
pub open spec fn preview_data_url(p: PreviewData) -> Seq<char> {
    "data:"@ + p.mime_type@ + ";base64,"@ + base64_encoded(p.data@)
}

/// How a preview is shown, by the kind of its media type: images, audio
/// and video from a `data:` URL, text decoded (invalid UTF-8 replaced), and
/// anything else by its type and size.
pub open spec fn preview_view_matches(v: PreviewView, p: PreviewData) -> bool {
    if has_prefix(p.mime_type@, "image/"@) {
        v matches PreviewView::Image { data_url } && data_url@ == preview_data_url(p)
    } else if has_prefix(p.mime_type@, "text/"@) {
        v matches PreviewView::Text { text } && text@ == utf8_lossy(p.data@)
    } else if has_prefix(p.mime_type@, "audio/"@) {
        v matches PreviewView::Audio { data_url } && data_url@ == preview_data_url(p)
    } else if has_prefix(p.mime_type@, "video/"@) {
        v matches PreviewView::Video { data_url } && data_url@ == preview_data_url(p)
    } else {
        v matches PreviewView::Unsupported { mime_type, size_text } && mime_type@ == p.mime_type@
            && size_text@ == file_size_text(p.data@.len())
    }
}

fn data_url(p: &PreviewData) -> (s: String)
    requires
        p.data@.len() <= usize::MAX / 2,
    ensures
        s@ == preview_data_url(*p),
{
    let mut s = String::from_str("data:");
    s.append(p.mime_type.as_str());
    s.append(";base64,");
    let enc = encode_base64(p.data.as_slice());
    s.append(enc.as_str());
    s
}

/// How the loaded preview is shown.
pub fn preview_view(p: &PreviewData) -> (v: PreviewView)
    requires
        p.data@.len() <= usize::MAX / 2,
    ensures
        preview_view_matches(v, *p),
{
    let m = chars_of(p.mime_type.as_str());
    let image = chars_of("image/");
    let text = chars_of("text/");
    let audio = chars_of("audio/");
    let video = chars_of("video/");
    if starts_with_chars(m.as_slice(), image.as_slice()) {
        PreviewView::Image { data_url: data_url(p) }
    } else if starts_with_chars(m.as_slice(), text.as_slice()) {
        PreviewView::Text { text: decode_utf8_lossy(p.data.as_slice()) }
    } else if starts_with_chars(m.as_slice(), audio.as_slice()) {
        PreviewView::Audio { data_url: data_url(p) }
    } else if starts_with_chars(m.as_slice(), video.as_slice()) {
        PreviewView::Video { data_url: data_url(p) }
    } else {
        PreviewView::Unsupported {
            mime_type: p.mime_type.clone(),
            size_text: format_file_size(p.data.len() as u64),
        }
    }
}

/// The desktop system the application runs on.
#[derive(Clone, Copy, Debug, PartialEq, Eq, Structural)]
pub enum DesktopSystem {
    Windows,
    MacOs,
    /// Linux and any other system.
    Linux,
}

/// A program tried to open a media file, with the arguments put before the
/// file's path.
#[derive(Clone, Debug)]
pub struct PlayerCommand {
    pub program: String,
    pub args: Vec<String>,
}

/// The players tried, in order, to open an audio or video file: VLC and
/// mpv first, then the system's own way of opening a file.
pub open spec fn player_commands_spec(system: DesktopSystem) -> Seq<(Seq<char>, Seq<Seq<char>>)> {
    match system {
        DesktopSystem::Windows => seq![
            ("vlc"@, seq![]),
            ("mpv"@, seq![]),
            ("cmd"@, seq!["/c"@, "start"@, ""@]),
        ],
        DesktopSystem::MacOs => seq![("vlc"@, seq![]), ("mpv"@, seq![]), ("open"@, seq![])],
        DesktopSystem::Linux => seq![
            ("vlc"@, seq![]),
            ("mpv"@, seq![]),
            ("totem"@, seq![]),
            ("smplayer"@, seq![]),
            ("xdg-open"@, seq![]),
            ("gio"@, seq!["open"@]),
        ],
    }
}

fn player(program: &str, args: Vec<String>) -> (c: PlayerCommand)
    ensures
        c.program@ == program@,
        c.args == args,
{
    PlayerCommand { program: String::from_str(program), args }
}

/// The commands tried, in order, to open an audio or video file; the first
/// that starts is used.
pub fn media_player_commands(system: DesktopSystem) -> (r: Vec<PlayerCommand>)
    ensures
        r@.len() == player_commands_spec(system).len(),
        forall|i: int| 0 <= i < r@.len() ==> (#[trigger] r@[i]).program@ == player_commands_spec(system)[i].0
            && r@[i].args@.map_values(|a: String| a@) == player_commands_spec(system)[i].1,
{
    let mut r: Vec<PlayerCommand> = Vec::new();
    r.push(player("vlc", Vec::new()));
    r.push(player("mpv", Vec::new()));
    match system {
        DesktopSystem::Windows => {
            let args = vec![String::from_str("/c"), String::from_str("start"), String::from_str("")];
            r.push(player("cmd", args));
        },
        DesktopSystem::MacOs => {
            r.push(player("open", Vec::new()));
        },
        DesktopSystem::Linux => {
            r.push(player("totem", Vec::new()));
            r.push(player("smplayer", Vec::new()));
            r.push(player("xdg-open", Vec::new()));
            let args = vec![String::from_str("open")];
            r.push(player("gio", args));
        },
    }
    r
}

} // verus!
