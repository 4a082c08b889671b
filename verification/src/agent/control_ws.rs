//! The control channel of the agent: texts for the clipboard and files come in over it.

use crate::outside::json;
use crate::text;
use vstd::prelude::*;

verus! {

/// The address of the control channel: the backend's, over a web socket.
pub open spec fn channel_url(base: Seq<char>, device_key: Seq<char>) -> Seq<char> {
    text::replaced_first(
        text::replaced_first(base, "https://"@, "wss://"@),
        "http://"@,
        "ws://"@,
    ) + "/api/agent/ws/"@ + device_key
}

/// Writes the address of the control channel.
pub fn control_url(base: &str, device_key: &str) -> (s: String)
    ensures
        s@ == channel_url(base@, device_key@),
{
    proof {
        reveal_strlit("https://");
        reveal_strlit("http://");
    }
    let v: Vec<char> = text::chars_of(base);
    let secure: Vec<char> = text::replace_first(&v, "https://", "wss://");
    let socket: Vec<char> = text::replace_first(&secure, "http://", "ws://");
    let mut s: String = text::string_of(&socket);
    s.append("/api/agent/ws/");
    s.append(device_key);
    s
}

/// The pause after the first failed connection, in seconds.
pub const FIRST_BACKOFF_SECS: u64 = 1;

/// The longest pause after a failed connection, in seconds.
pub const MAX_BACKOFF_SECS: u64 = 30;

/// The pause that follows a pause: twice as long, up to the longest.
pub open spec fn doubled(secs: int) -> int {
    if 2 * secs < MAX_BACKOFF_SECS {
        2 * secs
    } else {
        MAX_BACKOFF_SECS as int
    }
}

/// Gives the pause that follows a pause, in seconds.
pub fn next_backoff(secs: u64) -> (next: u64)
    ensures
        next == doubled(secs as int),
{
    if secs < MAX_BACKOFF_SECS / 2 {
        2 * secs
    } else {
        MAX_BACKOFF_SECS
    }
}

/// The pause after so many failed connections in a row.
pub open spec fn backoff_after(failures: nat) -> int
    decreases failures,
{
    if failures == 0 {
        FIRST_BACKOFF_SECS as int
    } else {
        doubled(backoff_after((failures - 1) as nat))
    }
}

/// The pauses grow from one second to thirty and stay there: 1, 2, 4, 8, 16, 30, 30, ...
pub proof fn backoff_grows_to_limit(failures: nat)
    ensures
        1 <= backoff_after(failures) <= MAX_BACKOFF_SECS,
        backoff_after(failures) <= backoff_after(failures + 1),
        failures >= 5 ==> backoff_after(failures) == MAX_BACKOFF_SECS,
    decreases failures,
{
    if failures > 0 {
        backoff_grows_to_limit((failures - 1) as nat);
    }
    if failures <= 5 {
        reveal_with_fuel(backoff_after, 7);
    }
}

/// What a control message asks for.
#[derive(Debug)]
pub enum ControlAction {
    /// The text is put on the clipboard and pasted.
    Paste(String),
    /// The file is fetched and stored under this name.
    Fetch { file_id: String, filename: String },
    /// Nothing.
    Nothing,
}

/// A step of fetching a file.
#[derive(Clone, Copy, Debug, PartialEq, Eq, Structural)]
pub enum FetchStep {
    /// The file is downloaded.
    Download,
    /// The data is stored.
    Store,
    /// The backend is told that the file has arrived.
    Confirm,
    /// There is nothing more to do.
    Done,
}

/// Gives the step that follows one: a file is stored once it is downloaded, and confirmed once it is
/// stored. A step that failed is the last.
pub fn next_fetch_step(step: FetchStep, succeeded: bool) -> (next: FetchStep)
    ensures
        next == match step {
            FetchStep::Download if succeeded => FetchStep::Store,
            FetchStep::Store if succeeded => FetchStep::Confirm,
            _ => FetchStep::Done,
        },
{
    if !succeeded {
        return FetchStep::Done;
    }
    match step {
        FetchStep::Download => FetchStep::Store,
        FetchStep::Store => FetchStep::Confirm,
        FetchStep::Confirm => FetchStep::Done,
        FetchStep::Done => FetchStep::Done,
    }
}

/// The message is no JSON document.
#[derive(Clone, Copy, Debug, PartialEq, Eq, Structural)]
pub struct BadMessage {
}

/// A text, or another one where it is missing.
pub open spec fn given_or(t: Option<Seq<char>>, other: Seq<char>) -> Seq<char> {
    match t {
        Some(s) => s,
        None => other,
    }
}

/// What an optional text holds.
pub open spec fn held(t: Option<String>) -> Option<Seq<char>> {
    match t {
        Some(s) => Some(s@),
        None => None,
    }
}

/// What a control message of this type, with this text, file and file name, asks for.
pub open spec fn asks_for(
    action: ControlAction,
    kind: Option<Seq<char>>,
    content: Option<Seq<char>>,
    id: Option<Seq<char>>,
    name: Option<Seq<char>>,
) -> bool {
    let pastes = kind == Some("clipboard"@) && given_or(content, ""@).len() > 0;
    let fetches = kind == Some("file_ready"@) && given_or(id, ""@).len() > 0;
    match action {
        ControlAction::Paste(t) => pastes && t@ == given_or(content, ""@),
        ControlAction::Fetch { file_id, filename } => {
            &&& fetches
            &&& file_id@ == given_or(id, ""@)
            &&& filename@ == given_or(name, "file"@)
        },
        ControlAction::Nothing => !pastes && !fetches,
    }
}

fn or_else(t: Option<String>, other: &str) -> (s: String)
    ensures
        s@ == given_or(held(t), other@),
{
    match t {
        Some(s) => s,
        None => other.to_string(),
    }
}

/// Decides what a control message asks for, from its type, its text, and its file and file name.
/// An empty text or file asks for nothing.
pub fn sort_message(
    kind: Option<String>,
    content: Option<String>,
    file_id: Option<String>,
    filename: Option<String>,
) -> (a: ControlAction)
    ensures
        asks_for(a, held(kind), held(content), held(file_id), held(filename)),
{
    proof {
        reveal_strlit("clipboard");
        reveal_strlit("file_ready");
        assert("clipboard"@.len() != "file_ready"@.len());
    }
    match kind {
        None => ControlAction::Nothing,
        Some(kind) => {
            let k: Vec<char> = text::chars_of(kind.as_str());
            if text::same(&k, "clipboard") {
                let t: String = or_else(content, "");
                if text::is_empty(&t) {
                    ControlAction::Nothing
                } else {
                    ControlAction::Paste(t)
                }
            } else if text::same(&k, "file_ready") {
                let id: String = or_else(file_id, "");
                if text::is_empty(&id) {
                    ControlAction::Nothing
                } else {
                    ControlAction::Fetch { file_id: id, filename: or_else(filename, "file") }
                }
            } else {
                ControlAction::Nothing
            }
        },
    }
}

/// The member of a message with this name, where it is there and a string.
pub open spec fn member(m: Map<Seq<char>, Seq<char>>, name: Seq<char>) -> Option<Seq<char>> {
    if m.dom().contains(name) {
        Some(m[name])
    } else {
        None
    }
}

/// Reads a control message, a JSON document.
pub fn handle_message(message: &str) -> (r: Result<ControlAction, BadMessage>)
    ensures
        match json::parsed_members(message@) {
            Some(m) => r is Ok && asks_for(
                r->Ok_0,
                member(m, "type"@),
                member(m, "text"@),
                member(m, "fileId"@),
                member(m, "filename"@),
            ),
            None => r is Err,
        },
{
    match json::parse(message) {
        Ok(v) => Ok(
            sort_message(
                json::string_member(&v, "type"),
                json::string_member(&v, "text"),
                json::string_member(&v, "fileId"),
                json::string_member(&v, "filename"),
            ),
        ),
        Err(_) => Err(BadMessage {  }),
    }
}

/// The UTF-16 form of a character: one word, or two beyond the basic plane.
pub open spec fn utf16_char(c: char) -> Seq<u16> {
    let n = c as int;
    if n < 0x1_0000 {
        seq![n as u16]
    } else {
        seq![(0xD800 + (n - 0x1_0000) / 0x400) as u16, (0xDC00 + (n - 0x1_0000) % 0x400) as u16]
    }
}

/// The UTF-16 form of a text.
pub open spec fn utf16_of(s: Seq<char>) -> Seq<u16>
    decreases s.len(),
{
    if s.len() == 0 {
        seq![]
    } else {
        utf16_of(s.drop_last()) + utf16_char(s.last())
    }
}

fn push_utf16(out: &mut Vec<u16>, c: char)
    ensures
        final(out)@ == old(out)@ + utf16_char(c),
{
    let n: u32 = c as u32;
    if n < 0x1_0000 {
        out.push(n as u16);
    } else {
        out.push((0xD800 + (n - 0x1_0000) / 0x400) as u16);
        out.push((0xDC00 + (n - 0x1_0000) % 0x400) as u16);
    }
}

/// Writes a text as the clipboard takes it: in UTF-16, with a zero at the end.
pub fn clipboard_words(s: &str) -> (out: Vec<u16>)
    ensures
        out@ == utf16_of(s@).push(0),
{
    let v: Vec<char> = text::chars_of(s);
    let mut out: Vec<u16> = Vec::new();
    let mut i: usize = 0;
    assert(v@.take(0) =~= Seq::<char>::empty());
    while i < v.len()
        invariant
            i <= v.len(),
            out@ == utf16_of(v@.take(i as int)),
        decreases v.len() - i,
    {
        assert(v@.take(i + 1).drop_last() =~= v@.take(i as int));
        push_utf16(&mut out, v[i]);
        i = i + 1;
        assert(out@ =~= utf16_of(v@.take(i as int)));
    }
    assert(v@.take(v@.len() as int) =~= v@);
    out.push(0);
    out
}

/// A key event: the virtual key, and whether it is released.
#[derive(Clone, Copy, Debug, PartialEq, Eq, Structural)]
pub struct PasteKey {
    pub vk: u8,
    pub flags: u32,
}

/// `VK_CONTROL`.
pub const VK_CONTROL: u8 = 0x11;

/// The virtual key of the letter V.
pub const VK_V: u8 = 0x56;

/// `KEYEVENTF_KEYUP`.
pub const KEYEVENTF_KEYUP: u32 = 0x0002;

/// The key events that paste: control and V down, V and control up.
pub fn paste_keys() -> (out: Vec<PasteKey>)
    ensures
        out@ == seq![
            PasteKey { vk: VK_CONTROL, flags: 0 },
            PasteKey { vk: VK_V, flags: 0 },
            PasteKey { vk: VK_V, flags: KEYEVENTF_KEYUP },
            PasteKey { vk: VK_CONTROL, flags: KEYEVENTF_KEYUP },
        ],
{
    let mut out: Vec<PasteKey> = Vec::new();
    out.push(PasteKey { vk: VK_CONTROL, flags: 0 });
    out.push(PasteKey { vk: VK_V, flags: 0 });
    out.push(PasteKey { vk: VK_V, flags: KEYEVENTF_KEYUP });
    out.push(PasteKey { vk: VK_CONTROL, flags: KEYEVENTF_KEYUP });
    out
}

} // verus!
