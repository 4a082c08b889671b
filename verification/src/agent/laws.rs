//! What holds of the agent's talk with the backend, and of what comes in over its control channel.

use crate::agent::api::{path_of, AgentCall};
use crate::agent::control_ws;
use crate::agent::control_ws::ControlAction;
use crate::agent::lifecycle;
use crate::agent::state::Stage;
use crate::outside::unique;
use crate::text_laws;
use vstd::prelude::*;

verus! {

/// The pause after a failed connection is a second at first and doubles each time, up to thirty
/// seconds.
pub proof fn pauses_double(failures: nat, secs: int)
    requires
        0 <= secs,
    ensures
        control_ws::backoff_after(0) == 1,
        control_ws::backoff_after(failures) <= 15 ==> control_ws::backoff_after(failures + 1) == 2
            * control_ws::backoff_after(failures),
        control_ws::backoff_after(failures) >= 15 ==> control_ws::backoff_after(failures + 1) == 30,
        secs <= 15 ==> control_ws::doubled(secs) == secs + secs,
        secs >= 15 ==> control_ws::doubled(secs) == 30,
{
}

/// The control channel of a secure backend is a secure web socket of the same host, under the key of
/// the device.
pub proof fn secure_backend_has_secure_channel(host: Seq<char>, device_key: Seq<char>)
    requires
        text_laws::not_before(host, "http://"@, host.len() as int),
    ensures
        control_ws::channel_url("https://"@ + host, device_key) == "wss://"@ + host
            + "/api/agent/ws/"@ + device_key,
{
    reveal_strlit("https://");
    reveal_strlit("http://");
    reveal_strlit("wss://");
    let empty = Seq::<char>::empty();
    assert(empty + "https://"@ + host =~= "https://"@ + host);
    text_laws::pattern_gives_way(empty, "https://"@, "wss://"@, host);
    assert(empty + "wss://"@ + host =~= "wss://"@ + host);
    lemma_not_behind("wss://"@, host);
    text_laws::nothing_else_is_replaced("wss://"@ + host, "http://"@, "ws://"@);
}

/// The pattern `http://` stands nowhere behind a beginning without the letter h.
proof fn lemma_not_behind(start: Seq<char>, host: Seq<char>)
    requires
        text_laws::not_before(host, "http://"@, host.len() as int),
        forall|i: int| 0 <= i < start.len() ==> #[trigger] start[i] != 'h',
    ensures
        text_laws::not_before(start + host, "http://"@, (start + host).len() as int),
{
    reveal_strlit("http://");
    let s = start + host;
    let n = start.len() as int;
    assert forall|i: int|
        #![trigger s.subrange(i, i + "http://"@.len())]
        0 <= i < s.len() && i + "http://"@.len() <= s.len() implies s.subrange(
        i,
        i + "http://"@.len(),
    ) != "http://"@ by {
        let t = s.subrange(i, i + "http://"@.len());
        if i < n {
            assert(t[0] == start[i]);
        } else {
            assert(t =~= host.subrange(i - n, i - n + "http://"@.len()));
        }
    }
}

/// The control channel of any other backend is a plain web socket of the same host, under the key of
/// the device.
pub proof fn plain_backend_has_plain_channel(host: Seq<char>, device_key: Seq<char>)
    requires
        text_laws::not_before("http://"@ + host, "https://"@, host.len() as int + 7),
    ensures
        control_ws::channel_url("http://"@ + host, device_key) == "ws://"@ + host
            + "/api/agent/ws/"@ + device_key,
{
    reveal_strlit("https://");
    reveal_strlit("http://");
    let empty = Seq::<char>::empty();
    let base = "http://"@ + host;
    text_laws::nothing_else_is_replaced(base, "https://"@, "wss://"@);
    assert(empty + "http://"@ + host =~= base);
    text_laws::pattern_gives_way(empty, "http://"@, "ws://"@, host);
    assert(empty + "ws://"@ + host =~= "ws://"@ + host);
}

/// A message of the type `clipboard` with a text pastes that text.
pub proof fn clipboard_message_pastes(
    action: ControlAction,
    content: Seq<char>,
    id: Option<Seq<char>>,
    name: Option<Seq<char>>,
)
    requires
        content.len() > 0,
        control_ws::asks_for(action, Some("clipboard"@), Some(content), id, name),
    ensures
        action matches ControlAction::Paste(t) && t@ == content,
{
    lemma_kinds();
}

proof fn lemma_kinds()
    ensures
        "clipboard"@ != "file_ready"@,
        ""@.len() == 0,
{
    reveal_strlit("clipboard");
    reveal_strlit("file_ready");
    reveal_strlit("");
    assert("clipboard"@.len() != "file_ready"@.len());
}

/// A message of the type `file_ready` with a file fetches that file, under the name that it gives, or
/// under the name `file`.
pub proof fn file_message_fetches(
    action: ControlAction,
    content: Option<Seq<char>>,
    id: Seq<char>,
    name: Option<Seq<char>>,
)
    requires
        id.len() > 0,
        control_ws::asks_for(action, Some("file_ready"@), content, Some(id), name),
    ensures
        ({
            &&& action matches ControlAction::Fetch { file_id, filename }
            &&& file_id@ == id
            &&& name matches Some(n) ==> filename@ == n
            &&& name is None ==> filename@ == "file"@
        }),
{
    lemma_kinds();
}

/// A message of another type asks for nothing, and neither does one without its text or its file.
pub proof fn other_messages_ask_for_nothing(
    action: ControlAction,
    kind: Option<Seq<char>>,
    content: Option<Seq<char>>,
    id: Option<Seq<char>>,
    name: Option<Seq<char>>,
)
    requires
        control_ws::asks_for(action, kind, content, id, name),
        ({
            ||| kind is None
            ||| kind != Some("clipboard"@) && kind != Some("file_ready"@)
            ||| kind == Some("clipboard"@) && (content is None || content->0.len() == 0)
            ||| kind == Some("file_ready"@) && (id is None || id->0.len() == 0)
        }),
    ensures
        action is Nothing,
{
    lemma_kinds();
}

/// A character on the clipboard can be read back: one word is the character itself; two are a high
/// and a low half, each with ten bits of what the character lies beyond the first 65536.
pub proof fn character_is_read_back(c: char)
    ensures
        ({
            let w = control_ws::utf16_char(c);
            let n = c as int;
            &&& w.len() == 1 <==> n < 65536
            &&& w.len() == 1 || w.len() == 2
            &&& w.len() == 1 ==> w[0] == n
            &&& w.len() == 2 ==> {
                &&& 0xD800 <= w[0] < 0xDC00
                &&& 0xDC00 <= w[1] < 0xE000
                &&& (w[0] - 0xD800) * 1024 + (w[1] - 0xDC00) + 65536 == n
            }
        }),
{
}

/// A text on the clipboard is its characters, one after the other.
pub proof fn text_is_written_character_by_character(s: Seq<char>, c: char)
    ensures
        control_ws::utf16_of(Seq::empty()) == Seq::<u16>::empty(),
        control_ws::utf16_of(s.push(c)) == control_ws::utf16_of(s) + control_ws::utf16_char(c),
{
    assert(s.push(c).drop_last() =~= s);
}

/// A viewer that connects to a pending session streams that session. A pending session that is not
/// wanted any more, or that no viewer took up in time, leaves the agent idle; one that is still wanted
/// stays.
pub proof fn pending_session_is_taken_up_or_given_up(session: Seq<char>, device: Seq<char>)
    ensures
        ({
            let s = Stage::Pending { session, device };
            &&& s.connected() == (Stage::Streaming { session })
            &&& s.checked(true) == Stage::Idle
            &&& s.checked(false) == s
            &&& s.timed_out() == Stage::Idle
            &&& s.session() == Some(session)
        }),
        Stage::Idle.connected() == Stage::Idle,
        Stage::Idle.timed_out() == Stage::Idle,
        Stage::Idle.session() is None,
        (Stage::Streaming { session }).session() == Some(session),
{
}

/// The name of a machine is `box` and the first sixteen digits of the identifier, in their order,
/// without the hyphens between them.
pub proof fn machine_is_named_by_digits(id: Seq<char>, i: int)
    requires
        unique::is_uuid_v4(id),
        0 <= i < 16,
    ensures
        ({
            let name = lifecycle::box_name(id);
            let place = if i < 8 {
                i
            } else if i < 12 {
                i + 1
            } else {
                i + 2
            };
            &&& name.len() == 19
            &&& name[0] == 'b'
            &&& name[1] == 'o'
            &&& name[2] == 'x'
            &&& name[3 + i] == id[place]
            &&& id[place] != '-'
        }),
{
    reveal_strlit("box");
    lifecycle::box_name_is_plain(id);
}

/// The backend takes each request at an address of its own; that of an activation ends in the key of
/// the session.
pub proof fn requests_have_their_addresses(session_key: &str)
    ensures
        path_of(AgentCall::Register) == "/api/agent/register"@,
        path_of(AgentCall::Heartbeat) == "/api/agent/heartbeat"@,
        path_of(AgentCall::Poll) == "/api/agent/session/poll"@,
        path_of(AgentCall::CheckPending) == "/api/agent/session/check-pending"@,
        path_of(AgentCall::EndSession) == "/api/agent/session/end"@,
        path_of(AgentCall::Activate(session_key)) == "/api/agent/session/activate/"@ + session_key@,
{
}

/// The agent reports every ten seconds, and on a session every fifteen. It pauses three seconds where
/// it is idle and one where it has a session, gives the display driver a second and a half after one,
/// and waits five minutes for a viewer. The end of a session is reported up to three times, half a
/// second apart.
pub proof fn times_of_the_agent()
    ensures
        lifecycle::HEARTBEAT_MILLIS == 10 * 1000,
        lifecycle::SESSION_REPORT_MILLIS == 15 * 1000,
        lifecycle::IDLE_PAUSE_MILLIS == 3 * 1000,
        lifecycle::BUSY_PAUSE_MILLIS == 1000,
        2 * lifecycle::SETTLE_MILLIS == 3 * 1000,
        lifecycle::PENDING_MILLIS == 5 * 60 * 1000,
        lifecycle::END_ATTEMPTS == 3,
        2 * lifecycle::END_PAUSE_MILLIS == 1000,
{
}

/// Pasting is done with the control key and the letter V, by their virtual keys; the flag for a
/// release is 2.
pub proof fn paste_keys_are_control_and_v()
    ensures
        control_ws::VK_CONTROL == 0x11,
        control_ws::VK_V == 'V' as u8,
        control_ws::KEYEVENTF_KEYUP == 2,
{
}

} // verus!
