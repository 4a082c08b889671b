//! What holds of the viewer's way to its agent, and of the colours of a decoded picture.

use crate::settings;
use crate::text;
use crate::text_laws;
use crate::viewer::api::{path_of, ViewerCall};
use crate::viewer::connection;
use crate::viewer::decoder;
use crate::viewer::launch;
use crate::viewer::launch::{Fields, UriError};
use crate::viewer::session as viewing;
use vstd::prelude::*;

verus! {

/// An argument is a link where it begins with `vdesk://`.
pub proof fn link_begins_with_its_scheme(arg: Seq<char>, rest: Seq<char>)
    ensures
        launch::is_link("vdesk://"@ + rest),
        launch::is_link(arg) ==> arg == "vdesk://"@ + arg.skip(8),
        arg.len() < 8 ==> !launch::is_link(arg),
{
    reveal_strlit("vdesk://");
    let s = "vdesk://"@ + rest;
    assert(s.subrange(0, 8) =~= "vdesk://"@);
    if launch::is_link(arg) {
        assert(arg =~= arg.subrange(0, 8) + arg.skip(8));
    }
}

/// A link without a question mark tells nothing; one with parameters needs a session first, and an
/// agent next.
pub proof fn link_needs_session_and_agent(uri: Seq<char>)
    ensures
        (forall|i: int| 0 <= i < uri.len() ==> #[trigger] uri[i] != '?') <==> launch::link_of(uri)
            == Err::<Fields, UriError>(UriError::NoQuery),
        launch::link_of(uri) matches Ok(f) ==> f.session_key.len() > 0 && f.relay_ip.len() > 0 && f
            == launch::fields_of(launch::pairs_of(uri)),
        (exists|i: int| 0 <= i < uri.len() && #[trigger] uri[i] == '?') ==> {
            let f = launch::fields_of(launch::pairs_of(uri));
            &&& f.session_key.len() == 0 <==> launch::link_of(uri) == Err::<
                Fields,
                UriError,
            >(UriError::NoSessionKey)
            &&& f.session_key.len() > 0 && f.relay_ip.len() == 0 <==> launch::link_of(uri) == Err::<
                Fields,
                UriError,
            >(UriError::NoRelayIp)
        },
{
    if forall|i: int| 0 <= i < uri.len() ==> #[trigger] uri[i] != '?' {
        text::lemma_index_none(uri, '?', 0);
    } else {
        let k = choose|k: int| 0 <= k < uri.len() && #[trigger] uri[k] == '?';
        lemma_found(uri, '?', 0, k);
    }
}

proof fn lemma_found(s: Seq<char>, c: char, from: int, k: int)
    requires
        0 <= from <= k < s.len(),
        s[k] == c,
    ensures
        text::index_from(s, c, from) <= k,
    decreases k - from,
{
    if s[from] != c {
        lemma_found(s, c, from + 1, k);
    }
}

/// A link that does not give them has no texts, the port 20020 and the session number 0.
pub proof fn missing_parameters_have_their_defaults()
    ensures
        ({
            let f = launch::fields_of(seq![]);
            &&& f.session_key.len() == 0
            &&& f.connect_token.len() == 0
            &&& f.relay_ip.len() == 0
            &&& f.relay_port == 20020
            &&& f.session_id == 0
        }),
{
}

/// The number of a session is the one that the text says, and 0 where it says none.
pub proof fn session_number_is_read(s: Seq<char>, n: nat)
    requires
        n <= 0xFFFF_FFFF_FFFF_FFFF,
    ensures
        launch::session_number(text::decimal(n)) == n,
        text::parsed_unsigned(s, 0xFFFF_FFFF_FFFF_FFFF) is None ==> launch::session_number(s) == 0,
{
    text::decimal_roundtrip(n, 0xFFFF_FFFF_FFFF_FFFF);
}

/// The characters that a link gives by their numbers come back in a value: colon, plus and slash.
pub proof fn numbered_characters_come_back(a: Seq<char>)
    requires
        forall|i: int| 0 <= i < a.len() ==> #[trigger] a[i] != '%',
    ensures
        launch::decoded(a) == a,
        launch::decoded("%3A"@ + a) == ":"@ + a,
        launch::decoded("%2B"@ + a) == "+"@ + a,
        launch::decoded("%2F"@ + a) == "/"@ + a,
{
    reveal_strlit("%3A");
    reveal_strlit("%2B");
    reveal_strlit("%2F");
    reveal_strlit(":");
    reveal_strlit("+");
    reveal_strlit("/");
    lemma_no_percent(a);
    lemma_no_percent(":"@ + a);
    lemma_no_percent("+"@ + a);
    lemma_no_percent("/"@ + a);
    lemma_leading("%3A"@, ":"@, a);
    lemma_leading("%2B"@, "+"@, a);
    lemma_leading("%2F"@, "/"@, a);
    lemma_other_leading("%2B"@ + a, "%3A"@, ":"@);
    lemma_other_leading("%2F"@ + a, "%3A"@, ":"@);
    lemma_other_leading("%2F"@ + a, "%2B"@, "+"@);
}

proof fn lemma_no_percent(s: Seq<char>)
    requires
        forall|i: int| 0 <= i < s.len() ==> #[trigger] s[i] != '%',
    ensures
        text::replaced(s, "%3A"@, ":"@) == s,
        text::replaced(s, "%2B"@, "+"@) == s,
        text::replaced(s, "%2F"@, "/"@) == s,
{
    reveal_strlit("%3A");
    reveal_strlit("%2B");
    reveal_strlit("%2F");
    text::lemma_replace_nothing(s, "%3A"@, ":"@, 0);
    text::lemma_replace_nothing(s, "%2B"@, "+"@, 0);
    text::lemma_replace_nothing(s, "%2F"@, "/"@, 0);
    assert(s.skip(0) =~= s);
}

proof fn lemma_leading(pat: Seq<char>, to: Seq<char>, a: Seq<char>)
    requires
        pat.len() == 3,
        pat[0] == '%',
        forall|i: int| 0 <= i < a.len() ==> #[trigger] a[i] != '%',
    ensures
        text::replaced(pat + a, pat, to) == to + a,
{
    let empty = Seq::<char>::empty();
    assert(empty + pat + a =~= pat + a);
    text_laws::pattern_gives_way(empty, pat, to, a);
    text::lemma_replace_nothing(a, pat, to, 0);
    assert(a.skip(0) =~= a);
    assert(empty + to + a =~= to + a);
}

proof fn lemma_other_leading(s: Seq<char>, pat: Seq<char>, to: Seq<char>)
    requires
        pat.len() == 3,
        s.len() >= 3,
        pat[0] == '%',
        s[1] != pat[1] || s[2] != pat[2],
        forall|i: int| 1 <= i < s.len() ==> #[trigger] s[i] != '%',
    ensures
        text::replaced(s, pat, to) == s,
{
    assert forall|i: int|
        #![trigger s.subrange(i, i + pat.len())]
        0 <= i < s.len() && i + pat.len() <= s.len() implies s.subrange(i, i + pat.len()) != pat by {
        let t = s.subrange(i, i + pat.len());
        assert(t[0] == s[i]);
        assert(t[1] == s[i + 1]);
        assert(t[2] == s[i + 2]);
    }
    text_laws::nothing_else_is_replaced(s, pat, to);
}

/// The machine is the number behind the first `--device`; behind a text that is no number the search
/// goes on.
pub proof fn machine_is_named_behind_its_switch(args: Seq<Seq<char>>, from: int, i: int)
    requires
        0 <= from <= i < args.len() - 1,
        forall|j: int| from <= j < i ==> #[trigger] args[j] != "--device"@,
        args[i] == "--device"@,
    ensures
        launch::device_named(args, from) == match text::parsed_unsigned(
            args[i + 1],
            0xFFFF_FFFF_FFFF_FFFF,
        ) {
            Some(n) => Some(n),
            None => launch::device_named(args, i + 2),
        },
    decreases i - from,
{
    if from < i {
        assert(args[from] != "--device"@);
        machine_is_named_behind_its_switch(args, from + 1, i);
    }
}

/// No machine is named where no argument behind which another stands is `--device`.
pub proof fn no_machine_is_named_without_the_switch(args: Seq<Seq<char>>, from: int)
    requires
        0 <= from,
        forall|j: int| from <= j < args.len() - 1 ==> #[trigger] args[j] != "--device"@,
    ensures
        launch::device_named(args, from) is None,
    decreases args.len() - from,
{
    if from < args.len() - 1 {
        assert(args[from] != "--device"@);
        no_machine_is_named_without_the_switch(args, from + 1);
    } else if from == args.len() - 1 {
        if args[from] != "--device"@ {
            no_machine_is_named_without_the_switch(args, from + 1);
        }
    }
}

/// The line of a machine shows its number between square brackets, its name, and what else is known
/// between round ones.
pub proof fn line_shows_the_machine(id: nat, name: Seq<char>, more: Seq<char>)
    ensures
        ({
            let line = launch::device_line(id, name, more);
            let d = text::decimal(id).len() as int;
            let n = name.len() as int;
            &&& line.len() == d + n + more.len() + 8
            &&& line[0] == ' ' && line[1] == ' ' && line[2] == '['
            &&& line.subrange(3, 3 + d) == text::decimal(id)
            &&& line[3 + d] == ']' && line[4 + d] == ' '
            &&& line.subrange(5 + d, 5 + d + n) == name
            &&& line[5 + d + n] == ' ' && line[6 + d + n] == '('
            &&& line.subrange(7 + d + n, 7 + d + n + more.len()) == more
            &&& line.last() == ')'
        }),
{
    reveal_strlit("  [");
    reveal_strlit("] ");
    reveal_strlit(" (");
    reveal_strlit(")");
    let line = launch::device_line(id, name, more);
    let d = text::decimal(id).len() as int;
    let n = name.len() as int;
    assert(line.subrange(3, 3 + d) =~= text::decimal(id));
    assert(line.subrange(5 + d, 5 + d + n) =~= name);
    assert(line.subrange(7 + d + n, 7 + d + n + more.len()) =~= more);
}

/// The system opens a link by the program, its path between quotation marks, with the link as its one
/// argument; and it takes the program's first icon.
pub proof fn links_open_the_program(path: Seq<char>)
    ensures
        ({
            let es = launch::scheme_entries(path);
            &&& es.len() == 4
            &&& es[0].0 == "HKCU\\SOFTWARE\\Classes\\vdesk"@
            &&& es[0].1 == "/ve"@
            &&& es[1].0 == "HKCU\\SOFTWARE\\Classes\\vdesk"@
            &&& es[1].1 == "URL Protocol"@
            &&& es[1].2.len() == 0
            &&& es[2].0 == "HKCU\\SOFTWARE\\Classes\\vdesk\\DefaultIcon"@
            &&& es[2].1 == "/ve"@
            &&& es[2].2 == seq!['"'] + path + seq!['"', ',', '0']
            &&& es[3].0 == "HKCU\\SOFTWARE\\Classes\\vdesk\\shell\\open\\command"@
            &&& es[3].1 == "/ve"@
            &&& es[3].2 == seq!['"'] + path + seq!['"', ' ', '"', '%', '1', '"']
        }),
{
    reveal_strlit("\"");
    reveal_strlit(",0");
    reveal_strlit(" \"%1\"");
    reveal_strlit("");
    let es = launch::scheme_entries(path);
    assert(es[2].2 =~= seq!['"'] + path + seq!['"', ',', '0']);
    assert(es[3].2 =~= seq!['"'] + path + seq!['"', ' ', '"', '%', '1', '"']);
}

/// The backend takes each request at an address of its own, which ends in the number or the key of the
/// session that it is about.
pub proof fn requests_have_their_addresses(id: u64, key: &str)
    ensures
        path_of(ViewerCall::Login) == "/api/auth/login"@,
        path_of(ViewerCall::ListDevices) == "/api/user/device/list"@,
        path_of(ViewerCall::DiscoverDevices) == "/api/user/device/discover"@,
        path_of(ViewerCall::LinkDevice) == "/api/user/device/link"@,
        path_of(ViewerCall::CreateSession) == "/api/remote/session/create"@,
        path_of(ViewerCall::Heartbeat(id)) == "/api/remote/session/viewer/heartbeat/"@
            + text::decimal(id as nat),
        path_of(ViewerCall::HeartbeatByKey(id)) == "/api/remote/session/viewer/heartbeat-by-key/"@
            + text::decimal(id as nat),
        path_of(ViewerCall::EndSession(id)) == "/api/remote/session/end/"@ + text::decimal(
            id as nat,
        ),
        path_of(ViewerCall::Alive(key)) == "/api/remote/session/alive/"@ + key@,
        path_of(ViewerCall::EndSessionByKey(key)) == "/api/remote/session/end-by-key/"@ + key@,
{
}

/// An agent is called for a minute, with a second between two calls. Whether a session is alive is
/// asked after ten seconds and then every five, and reports on it are sent after eight seconds and
/// then every ten. A round trip of 150 milliseconds is slow.
pub proof fn times_of_the_viewer()
    ensures
        launch::CONNECT_SECS * 1000 == 60 * connection::RETRY_PAUSE_MILLIS,
        connection::RETRY_PAUSE_MILLIS == 1000,
        launch::ALIVE_DELAY_SECS == 10,
        launch::ALIVE_PAUSE_SECS == 5,
        launch::REPORT_DELAY_SECS == 8,
        launch::REPORT_PAUSE_SECS == 10,
        viewing::SLOW_MILLIS == 150,
{
}

/// A pixel keeps its colours: red in the third byte from the right, green in the second, blue in the
/// first, and nothing above.
pub proof fn colours_are_kept(r: u8, g: u8, b: u8)
    ensures
        decoder::xrgb(r, g, b) as int / 65536 == r,
        decoder::xrgb(r, g, b) as int / 256 % 256 == g,
        decoder::xrgb(r, g, b) as int % 256 == b,
{
}

/// A decoded picture keeps its pixels: each three bytes are one, red, green and blue.
pub proof fn pixels_are_kept(rgb: Seq<u8>, i: int)
    requires
        0 <= i,
        3 * i + 3 <= rgb.len(),
    ensures
        decoder::xrgb_of(rgb).len() == rgb.len() / 3,
        decoder::xrgb_of(rgb)[i] as int / 65536 == rgb[3 * i],
        decoder::xrgb_of(rgb)[i] as int / 256 % 256 == rgb[3 * i + 1],
        decoder::xrgb_of(rgb)[i] as int % 256 == rgb[3 * i + 2],
{
    colours_are_kept(rgb[3 * i], rgb[3 * i + 1], rgb[3 * i + 2]);
}

proof fn lemma_trailing(s: Seq<char>, c: char, n: nat)
    ensures
        text::without_trailing(s + Seq::new(n, |i: int| c), c) == text::without_trailing(s, c),
    decreases n,
{
    let tail = Seq::new(n, |i: int| c);
    if n == 0 {
        assert(s + tail =~= s);
    } else {
        let less = Seq::new((n - 1) as nat, |i: int| c);
        lemma_trailing(s, c, (n - 1) as nat);
        assert((s + tail).last() == c);
        assert((s + tail).drop_last() =~= s + less);
    }
}

/// Slashes at the end of a link do not count.
pub proof fn slashes_at_the_end_do_not_count(head: Seq<char>, tail: Seq<char>, n: nat)
    requires
        forall|i: int| 0 <= i < head.len() ==> #[trigger] head[i] != '?',
    ensures
        launch::pairs_of(head.push('?') + tail + Seq::new(n, |i: int| '/')) == launch::pairs_of(
            head.push('?') + tail,
        ),
{
    let slashes = Seq::new(n, |i: int| '/');
    let uri = head.push('?') + tail;
    let k = head.len() as int + 1;
    text::lemma_index_behind(head, '?', tail, 0);
    text::lemma_index_behind(head, '?', tail + slashes, 0);
    assert(uri + slashes =~= head.push('?') + (tail + slashes));
    assert((head.push('?') + (tail + slashes)).skip(k) =~= tail + slashes);
    assert(uri.skip(k) =~= tail);
    lemma_trailing(tail, '/', n);
}

/// White space around the name and around the value of a pair does not count. The name ends at the
/// first equals sign.
pub proof fn white_space_in_pairs_does_not_count(
    a: Seq<char>,
    name: Seq<char>,
    b: Seq<char>,
    c: Seq<char>,
    value: Seq<char>,
    d: Seq<char>,
)
    requires
        text_laws::all_blank(a),
        text_laws::all_blank(b),
        text_laws::all_blank(c),
        text_laws::all_blank(d),
        forall|i: int| 0 <= i < name.len() ==> #[trigger] name[i] != '=',
        name.len() == 0 || (!text_laws::blank(name[0]) && !text_laws::blank(name.last())),
        value.len() == 0 || (!text_laws::blank(value[0]) && !text_laws::blank(value.last())),
    ensures
        launch::name_in((a + name + b).push('=') + (c + value + d)) == name,
        launch::value_in((a + name + b).push('=') + (c + value + d)) == launch::decoded(value),
{
    let left = a + name + b;
    let right = c + value + d;
    let pair = left.push('=') + right;
    assert forall|i: int| 0 <= i < left.len() implies #[trigger] left[i] != '=' by {
        if i < a.len() {
            assert(left[i] == a[i]);
        } else if i < a.len() + name.len() {
            assert(left[i] == name[i - a.len()]);
        } else {
            assert(left[i] == b[i - a.len() - name.len()]);
        }
    }
    text::lemma_index_behind(left, '=', right, 0);
    assert(pair.take(left.len() as int) =~= left);
    assert(pair.skip(left.len() as int + 1) =~= right);
    text_laws::trimming_leaves_the_inside(a, name, b);
    text_laws::trimming_leaves_the_inside(c, value, d);
}

/// A pair without an equals sign is a name with an empty value.
pub proof fn pair_without_equals_sign_has_no_value(pair: Seq<char>)
    requires
        forall|i: int| 0 <= i < pair.len() ==> #[trigger] pair[i] != '=',
    ensures
        launch::name_in(pair) == text::trimmed(pair),
        launch::value_in(pair).len() == 0,
{
    text::lemma_index_none(pair, '=', 0);
    assert(pair.take(pair.len() as int) =~= pair);
    let empty = Seq::<char>::empty();
    text_laws::trimming_leaves_the_inside(empty, empty, empty);
    assert(empty + empty + empty =~= empty);
    numbered_characters_come_back(empty);
}

/// Each parameter of a link has its name, and takes nothing but its own value.
pub proof fn parameters_have_their_names(f: Fields, pair: Seq<char>)
    ensures
        ({
            let name = launch::name_in(pair);
            let value = launch::value_in(pair);
            let g = launch::with_pair(f, pair);
            &&& name == "sessionKey"@ ==> g == (Fields { session_key: value, ..f })
            &&& name == "connectToken"@ ==> g == (Fields { connect_token: value, ..f })
            &&& name == "relayIp"@ ==> g == (Fields { relay_ip: value, ..f })
            &&& name == "relayPort"@ ==> g == (Fields { relay_port: g.relay_port, ..f })
            &&& name == "sessionId"@ ==> g == (Fields { session_id: g.session_id, ..f })
            &&& name != "sessionKey"@ && name != "connectToken"@ && name != "relayIp"@ && name
                != "relayPort"@ && name != "sessionId"@ ==> g == f
        }),
        launch::name_in(pair) == "relayPort"@ ==> launch::with_pair(f, pair).relay_port
            == settings::port_of(launch::value_in(pair)),
        launch::name_in(pair) == "sessionId"@ ==> launch::with_pair(f, pair).session_id
            == launch::session_number(launch::value_in(pair)),
{
    lemma_names_differ();
}

/// The names of the parameters are different texts.
proof fn lemma_names_differ()
    ensures
        "sessionKey"@ != "connectToken"@,
        "sessionKey"@ != "relayIp"@,
        "sessionKey"@ != "relayPort"@,
        "sessionKey"@ != "sessionId"@,
        "connectToken"@ != "relayIp"@,
        "connectToken"@ != "relayPort"@,
        "connectToken"@ != "sessionId"@,
        "relayIp"@ != "relayPort"@,
        "relayIp"@ != "sessionId"@,
        "relayPort"@ != "sessionId"@,
{
    reveal_strlit("sessionKey");
    reveal_strlit("connectToken");
    reveal_strlit("relayIp");
    reveal_strlit("relayPort");
    reveal_strlit("sessionId");
    assert("sessionKey"@.len() == 10 && "connectToken"@.len() == 12);
    assert("relayIp"@.len() == 7 && "relayPort"@.len() == 9 && "sessionId"@.len() == 9);
    assert("relayPort"@[0] != "sessionId"@[0]);
}

} // verus!
