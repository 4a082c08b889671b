//! How the viewer is started: by a link, directly, or through the backend.

use crate::settings;
use crate::settings::LISTEN_PORT;
use crate::text;
use crate::viewer::api::{DeviceInfo, DiscoverDevice, ViewerHeartbeatData};
use vstd::prelude::*;

verus! {

/// What a link tells of a session.
#[derive(Debug)]
pub struct UriParams {
    pub session_key: String,
    pub connect_token: String,
    pub relay_ip: String,
    pub relay_port: u16,
    pub session_id: u64,
}

/// Why a link cannot be followed.
#[derive(Clone, Copy, Debug, PartialEq, Eq, Structural)]
pub enum UriError {
    /// It has no parameters.
    NoQuery,
    /// It names no session.
    NoSessionKey,
    /// It does not say where the agent is.
    NoRelayIp,
}

/// The parameters of a link.
#[verifier::ext_equal]
pub struct Fields {
    pub session_key: Seq<char>,
    pub connect_token: Seq<char>,
    pub relay_ip: Seq<char>,
    pub relay_port: nat,
    pub session_id: nat,
}

/// The parameters before any is given.
pub open spec fn no_fields() -> Fields {
    Fields {
        session_key: seq![],
        connect_token: seq![],
        relay_ip: seq![],
        relay_port: LISTEN_PORT as nat,
        session_id: 0,
    }
}

/// A value with the characters that were written by their numbers: colon, plus and slash.
pub open spec fn decoded(s: Seq<char>) -> Seq<char> {
    text::replaced(text::replaced(text::replaced(s, "%3A"@, ":"@), "%2B"@, "+"@), "%2F"@, "/"@)
}

/// The name in a pair: what stands before the first equals sign.
pub open spec fn name_in(pair: Seq<char>) -> Seq<char> {
    text::trimmed(pair.take(text::index_from(pair, '=', 0)))
}

/// The value in a pair: what stands after the first equals sign, if there is one.
pub open spec fn value_in(pair: Seq<char>) -> Seq<char> {
    let i = text::index_from(pair, '=', 0);
    decoded(
        text::trimmed(
            if i < pair.len() {
                pair.skip(i + 1)
            } else {
                seq![]
            },
        ),
    )
}

/// The number of a session that a text gives, or 0.
pub open spec fn session_number(s: Seq<char>) -> nat {
    match text::parsed_unsigned(s, u64::MAX as nat) {
        Some(n) => n,
        None => 0,
    }
}

/// The parameters after a pair. A pair with another name changes nothing.
pub open spec fn with_pair(f: Fields, pair: Seq<char>) -> Fields {
    let name = name_in(pair);
    let value = value_in(pair);
    if name == "sessionKey"@ {
        Fields { session_key: value, ..f }
    } else if name == "connectToken"@ {
        Fields { connect_token: value, ..f }
    } else if name == "relayIp"@ {
        Fields { relay_ip: value, ..f }
    } else if name == "relayPort"@ {
        Fields { relay_port: settings::port_of(value), ..f }
    } else if name == "sessionId"@ {
        Fields { session_id: session_number(value), ..f }
    } else {
        f
    }
}

/// The parameters after pairs, one after the other: of two pairs with one name the later counts.
pub open spec fn fields_of(pairs: Seq<Seq<char>>) -> Fields
    decreases pairs.len(),
{
    if pairs.len() == 0 {
        no_fields()
    } else {
        with_pair(fields_of(pairs.drop_last()), pairs.last())
    }
}

/// The pairs of a link: they stand after the first question mark, with ampersands between and
/// slashes at the end left out.
pub open spec fn pairs_of(uri: Seq<char>) -> Seq<Seq<char>> {
    text::pieces(
        text::without_trailing(uri.skip(text::index_from(uri, '?', 0) + 1), '/'),
        '&',
    )
}

/// What a link tells: the parameters, where it has any and they name the session and the agent.
pub open spec fn link_of(uri: Seq<char>) -> Result<Fields, UriError> {
    let f = fields_of(pairs_of(uri));
    if text::index_from(uri, '?', 0) >= uri.len() {
        Err(UriError::NoQuery)
    } else if f.session_key.len() == 0 {
        Err(UriError::NoSessionKey)
    } else if f.relay_ip.len() == 0 {
        Err(UriError::NoRelayIp)
    } else {
        Ok(f)
    }
}

impl UriParams {
    /// The parameters.
    pub open spec fn fields(self) -> Fields {
        Fields {
            session_key: self.session_key@,
            connect_token: self.connect_token@,
            relay_ip: self.relay_ip@,
            relay_port: self.relay_port as nat,
            session_id: self.session_id as nat,
        }
    }
}

fn decode(v: &Vec<char>) -> (r: Vec<char>)
    ensures
        r@ == decoded(v@),
{
    proof {
        reveal_strlit("%3A");
        reveal_strlit("%2B");
        reveal_strlit("%2F");
    }
    let a: Vec<char> = text::replace(v, "%3A", ":");
    let b: Vec<char> = text::replace(&a, "%2B", "+");
    text::replace(&b, "%2F", "/")
}

fn take_pair(params: &mut UriParams, pair: &Vec<char>)
    ensures
        final(params).fields() == with_pair(old(params).fields(), pair@),
{
    let i: usize = text::find_from(pair, '=', 0);
    let name: Vec<char> = text::trim(&text::part(pair, 0, i));
    let raw: Vec<char> = if i < pair.len() {
        text::part(pair, i + 1, pair.len())
    } else {
        Vec::new()
    };
    let value: Vec<char> = decode(&text::trim(&raw));
    proof {
        assert(pair@.subrange(0, i as int) =~= pair@.take(i as int));
        if i < pair.len() {
            assert(pair@.subrange(i + 1, pair@.len() as int) =~= pair@.skip(i + 1));
        } else {
            assert(raw@ =~= seq![]);
        }
    }
    if text::same(&name, "sessionKey") {
        params.session_key = text::string_of(&value);
    } else if text::same(&name, "connectToken") {
        params.connect_token = text::string_of(&value);
    } else if text::same(&name, "relayIp") {
        params.relay_ip = text::string_of(&value);
    } else if text::same(&name, "relayPort") {
        params.relay_port = settings::port_from(&value);
    } else if text::same(&name, "sessionId") {
        params.session_id = match text::parse_unsigned(&value, u64::MAX) {
            Some(n) => n,
            None => 0,
        };
    }
}

/// Reads a link: `vdesk://connect?sessionKey=...&connectToken=...&relayIp=...&relayPort=...`.
pub fn parse_uri(uri: &str) -> (r: Result<UriParams, UriError>)
    ensures
        match r {
            Ok(params) => link_of(uri@) == Ok::<Fields, UriError>(params.fields()),
            Err(e) => link_of(uri@) == Err::<Fields, UriError>(e),
        },
{
    let v: Vec<char> = text::chars_of(uri);
    let i: usize = text::find_from(&v, '?', 0);
    if i >= v.len() {
        return Err(UriError::NoQuery);
    }
    let query: Vec<char> = text::part(&v, i + 1, v.len());
    assert(v@.subrange(i + 1, v@.len() as int) =~= v@.skip(i + 1));
    let pairs: Vec<Vec<char>> = text::split(&text::trim_trailing(&query, '/'), '&');
    let mut params: UriParams = UriParams {
        session_key: String::new(),
        connect_token: String::new(),
        relay_ip: String::new(),
        relay_port: LISTEN_PORT,
        session_id: 0,
    };
    let ghost all = text::views(pairs@);
    assert(all == pairs_of(uri@));
    assert(params.fields() =~= no_fields());
    assert(all.take(0) =~= Seq::<Seq<char>>::empty());
    let mut k: usize = 0;
    while k < pairs.len()
        invariant
            k <= pairs.len(),
            all == text::views(pairs@),
            params.fields() == fields_of(all.take(k as int)),
        decreases pairs.len() - k,
    {
        take_pair(&mut params, &pairs[k]);
        proof {
            assert(all.take(k + 1).drop_last() =~= all.take(k as int));
            assert(all.take(k + 1).last() == pairs@[k as int]@);
        }
        k = k + 1;
    }
    assert(all.take(all.len() as int) =~= all);
    if text::is_empty(&params.session_key) {
        return Err(UriError::NoSessionKey);
    }
    if text::is_empty(&params.relay_ip) {
        return Err(UriError::NoRelayIp);
    }
    Ok(params)
}

/// A name and a value with an equals sign between.
pub open spec fn pair(name: Seq<char>, value: Seq<char>) -> Seq<char> {
    name.push('=') + value
}

/// A link with these texts and numbers in it.
pub open spec fn link(
    session_key: Seq<char>,
    connect_token: Seq<char>,
    relay_ip: Seq<char>,
    relay_port: nat,
    session_id: nat,
) -> Seq<char> {
    "vdesk://connect"@.push('?') + (pair("sessionKey"@, session_key).push('&') + (pair(
        "connectToken"@,
        connect_token,
    ).push('&') + (pair("relayIp"@, relay_ip).push('&') + (pair(
        "relayPort"@,
        text::decimal(relay_port),
    ).push('&') + pair("sessionId"@, text::decimal(session_id))))))
}

/// A text that can stand as a value in a link: without white space and ampersands.
pub open spec fn one_value(s: Seq<char>) -> bool {
    text::unbroken(s) && text::lacks(s, '&')
}

/// A text that can stand in a link as it is: percent signs would be read as something else.
pub open spec fn plain(s: Seq<char>) -> bool {
    one_value(s) && text::lacks(s, '%')
}

proof fn lemma_pair(name: Seq<char>, value: Seq<char>)
    requires
        plain(name),
        one_value(value),
        text::lacks(name, '='),
    ensures
        name_in(pair(name, value)) == name,
        value_in(pair(name, value)) == decoded(value),
        text::lacks(pair(name, value), '&'),
{
    let p = pair(name, value);
    text::lemma_index_behind(name, '=', value, 0);
    assert(p.take(name.len() as int) =~= name);
    assert(p.skip(name.len() as int + 1) =~= value);
    text::lemma_trim_nothing(name);
    text::lemma_trim_nothing(value);
}

proof fn lemma_plain_decoded(value: Seq<char>)
    requires
        text::lacks(value, '%'),
    ensures
        decoded(value) == value,
{
    reveal_strlit("%3A");
    reveal_strlit("%2B");
    reveal_strlit("%2F");
    text::lemma_replace_nothing(value, "%3A"@, ":"@, 0);
    text::lemma_replace_nothing(value, "%2B"@, "+"@, 0);
    text::lemma_replace_nothing(value, "%2F"@, "/"@, 0);
    assert(value.skip(0) =~= value);
}

proof fn lemma_decimal_plain(n: nat)
    ensures
        plain(text::decimal(n)),
        text::decimal(n).len() > 0,
        text::decimal(n).last() != '/',
{
    text::lemma_decimal(n);
    let d = text::decimal(n);
    assert forall|i: int| 0 <= i < d.len() implies !text::is_white(#[trigger] d[i]) && d[i] != '&'
        && d[i] != '%' && d[i] != '/' by {
        assert(text::is_digit(d[i]));
    }
}

proof fn lemma_names_plain()
    ensures
        plain("sessionKey"@) && text::lacks("sessionKey"@, '='),
        plain("connectToken"@) && text::lacks("connectToken"@, '='),
        plain("relayIp"@) && text::lacks("relayIp"@, '='),
        plain("relayPort"@) && text::lacks("relayPort"@, '='),
        plain("sessionId"@) && text::lacks("sessionId"@, '='),
{
    reveal_strlit("sessionKey");
    reveal_strlit("connectToken");
    reveal_strlit("relayIp");
    reveal_strlit("relayPort");
    reveal_strlit("sessionId");
}

proof fn lemma_names_differ()
    ensures
        "connectToken"@ != "sessionKey"@,
        "relayIp"@ != "sessionKey"@,
        "relayIp"@ != "connectToken"@,
        "relayPort"@ != "sessionKey"@,
        "relayPort"@ != "connectToken"@,
        "relayPort"@ != "relayIp"@,
        "sessionId"@ != "sessionKey"@,
        "sessionId"@ != "connectToken"@,
        "sessionId"@ != "relayIp"@,
        "sessionId"@ != "relayPort"@,
{
    reveal_strlit("sessionKey");
    reveal_strlit("connectToken");
    reveal_strlit("relayIp");
    reveal_strlit("relayPort");
    reveal_strlit("sessionId");
    assert("sessionKey"@.len() == 10);
    assert("connectToken"@.len() == 12);
    assert("relayIp"@.len() == 7);
    assert("relayPort"@.len() == 9 && "relayPort"@[0] == 'r');
    assert("sessionId"@.len() == 9 && "sessionId"@[0] == 's');
}

proof fn lemma_five(a: Seq<char>, b: Seq<char>, c: Seq<char>, d: Seq<char>, e: Seq<char>)
    ensures
        fields_of(seq![a, b, c, d, e]) == with_pair(
            with_pair(with_pair(with_pair(with_pair(no_fields(), a), b), c), d),
            e,
        ),
{
    reveal_with_fuel(fields_of, 6);
    assert(seq![a, b, c, d, e].drop_last() =~= seq![a, b, c, d]);
    assert(seq![a, b, c, d].drop_last() =~= seq![a, b, c]);
    assert(seq![a, b, c].drop_last() =~= seq![a, b]);
    assert(seq![a, b].drop_last() =~= seq![a]);
    assert(seq![a].drop_last() =~= Seq::<Seq<char>>::empty());
}

/// The pairs of a link.
#[verifier::rlimit(40)]
proof fn lemma_link_pairs(
    a: Seq<char>,
    b: Seq<char>,
    c: Seq<char>,
    d: Seq<char>,
    e: Seq<char>,
)
    requires
        text::lacks(a, '&'),
        text::lacks(b, '&'),
        text::lacks(c, '&'),
        text::lacks(d, '&'),
        text::lacks(e, '&'),
        e.len() > 0,
        e.last() != '/',
    ensures
        ({
            let query = a.push('&') + (b.push('&') + (c.push('&') + (d.push('&') + e)));
            let uri = "vdesk://connect"@.push('?') + query;
            &&& text::index_from(uri, '?', 0) < uri.len()
            &&& pairs_of(uri) == seq![a, b, c, d, e]
        }),
{
    let de = d.push('&') + e;
    let ce = c.push('&') + de;
    let be = b.push('&') + ce;
    let query = a.push('&') + be;
    let head = "vdesk://connect"@;
    let uri = head.push('?') + query;
    assert(text::lacks(head, '?')) by {
        reveal_strlit("vdesk://connect");
    }
    text::lemma_index_behind(head, '?', query, 0);
    assert(uri.skip(head.len() as int + 1) =~= query);
    assert(query.last() == e.last());
    assert(text::without_trailing(query, '/') == query);
    text::lemma_first_piece(a, '&', be);
    text::lemma_first_piece(b, '&', ce);
    text::lemma_first_piece(c, '&', de);
    text::lemma_first_piece(d, '&', e);
    text::lemma_one_piece(e, '&');
    assert(pairs_of(uri) =~= seq![a, b, c, d, e]);
}

/// A link is read back as the fields that its values decode to.
proof fn lemma_link(key: Seq<char>, token: Seq<char>, ip: Seq<char>, f: Fields)
    requires
        one_value(key),
        one_value(token),
        one_value(ip),
        decoded(key) == f.session_key,
        decoded(token) == f.connect_token,
        decoded(ip) == f.relay_ip,
        f.session_key.len() > 0,
        f.relay_ip.len() > 0,
        f.relay_port <= u16::MAX,
        f.session_id <= u64::MAX,
    ensures
        link_of(link(key, token, ip, f.relay_port, f.session_id)) == Ok::<Fields, UriError>(f),
{
    let port = text::decimal(f.relay_port);
    let id = text::decimal(f.session_id);
    let a = pair("sessionKey"@, key);
    let b = pair("connectToken"@, token);
    let c = pair("relayIp"@, ip);
    let d = pair("relayPort"@, port);
    let e = pair("sessionId"@, id);
    lemma_names_plain();
    lemma_names_differ();
    lemma_decimal_plain(f.relay_port);
    lemma_decimal_plain(f.session_id);
    lemma_pair("sessionKey"@, key);
    lemma_pair("connectToken"@, token);
    lemma_pair("relayIp"@, ip);
    lemma_pair("relayPort"@, port);
    lemma_pair("sessionId"@, id);
    lemma_plain_decoded(port);
    lemma_plain_decoded(id);
    lemma_link_pairs(a, b, c, d, e);
    lemma_five(a, b, c, d, e);
    text::decimal_roundtrip(f.relay_port, u16::MAX as nat);
    text::decimal_roundtrip(f.session_id, u64::MAX as nat);
    assert(fields_of(seq![a, b, c, d, e]) =~= f);
}

/// A link is read back: whatever plain texts and numbers stand in it, they are what it tells.
pub proof fn link_is_read_back(f: Fields)
    requires
        plain(f.session_key) && f.session_key.len() > 0,
        plain(f.connect_token),
        plain(f.relay_ip) && f.relay_ip.len() > 0,
        f.relay_port <= u16::MAX,
        f.session_id <= u64::MAX,
    ensures
        link_of(link(f.session_key, f.connect_token, f.relay_ip, f.relay_port, f.session_id)) == Ok::<
            Fields,
            UriError,
        >(f),
{
    lemma_plain_decoded(f.session_key);
    lemma_plain_decoded(f.connect_token);
    lemma_plain_decoded(f.relay_ip);
    lemma_link(f.session_key, f.connect_token, f.relay_ip, f);
}

/// The value of the last pair with a name, if there is one.
pub open spec fn last_value(pairs: Seq<Seq<char>>, name: Seq<char>) -> Option<Seq<char>>
    decreases pairs.len(),
{
    if pairs.len() == 0 {
        None
    } else if name_in(pairs.last()) == name {
        Some(value_in(pairs.last()))
    } else {
        last_value(pairs.drop_last(), name)
    }
}

/// A name that means something in a link.
pub open spec fn is_known(name: Seq<char>) -> bool {
    ||| name == "sessionKey"@
    ||| name == "connectToken"@
    ||| name == "relayIp"@
    ||| name == "relayPort"@
    ||| name == "sessionId"@
}

/// The parameters that the last values of the known names make.
pub open spec fn fields_from(pairs: Seq<Seq<char>>) -> Fields {
    Fields {
        session_key: match last_value(pairs, "sessionKey"@) {
            Some(v) => v,
            None => seq![],
        },
        connect_token: match last_value(pairs, "connectToken"@) {
            Some(v) => v,
            None => seq![],
        },
        relay_ip: match last_value(pairs, "relayIp"@) {
            Some(v) => v,
            None => seq![],
        },
        relay_port: match last_value(pairs, "relayPort"@) {
            Some(v) => settings::port_of(v),
            None => LISTEN_PORT as nat,
        },
        session_id: match last_value(pairs, "sessionId"@) {
            Some(v) => session_number(v),
            None => 0,
        },
    }
}

/// Of each known name the last value counts, and nothing else does.
pub proof fn last_values_make_the_fields(pairs: Seq<Seq<char>>)
    ensures
        fields_of(pairs) == fields_from(pairs),
    decreases pairs.len(),
{
    lemma_names_differ();
    if pairs.len() > 0 {
        last_values_make_the_fields(pairs.drop_last());
    }
    assert(fields_of(pairs) =~= fields_from(pairs));
}

/// Links with the same last value for each known name tell the same.
pub proof fn same_last_values_same_link(uri1: Seq<char>, uri2: Seq<char>)
    requires
        text::index_from(uri1, '?', 0) < uri1.len(),
        text::index_from(uri2, '?', 0) < uri2.len(),
        forall|name: Seq<char>| #[trigger]
            is_known(name) ==> last_value(pairs_of(uri1), name) == last_value(pairs_of(uri2), name),
    ensures
        link_of(uri1) == link_of(uri2),
{
    last_values_make_the_fields(pairs_of(uri1));
    last_values_make_the_fields(pairs_of(uri2));
    assert(is_known("sessionKey"@));
    assert(is_known("connectToken"@));
    assert(is_known("relayIp"@));
    assert(is_known("relayPort"@));
    assert(is_known("sessionId"@));
}

/// Pairs with ampersands between.
pub open spec fn joined(pairs: Seq<Seq<char>>) -> Seq<char>
    decreases pairs.len(),
{
    if pairs.len() == 0 {
        seq![]
    } else if pairs.len() == 1 {
        pairs[0]
    } else {
        pairs[0].push('&') + joined(pairs.drop_first())
    }
}

/// A link that consists of what stands before the question mark and of pairs.
pub open spec fn link_with(head: Seq<char>, pairs: Seq<Seq<char>>) -> Seq<char> {
    head.push('?') + joined(pairs)
}

/// The pairs can stand in a link: there is one, none has an ampersand in it, and none ends in a
/// slash.
pub open spec fn can_be_joined(pairs: Seq<Seq<char>>) -> bool {
    &&& pairs.len() > 0
    &&& forall|i: int|
        0 <= i < pairs.len() ==> {
            &&& #[trigger] text::lacks(pairs[i], '&')
            &&& pairs[i].len() > 0 ==> pairs[i].last() != '/'
        }
}

proof fn lemma_joined(pairs: Seq<Seq<char>>)
    requires
        can_be_joined(pairs),
    ensures
        joined(pairs).len() > 0 ==> joined(pairs).last() != '/',
        text::pieces(joined(pairs), '&') == pairs,
    decreases pairs.len(),
{
    assert(text::lacks(pairs[0], '&'));
    if pairs.len() == 1 {
        text::lemma_one_piece(pairs[0], '&');
        assert(pairs =~= seq![pairs[0]]);
    } else {
        let rest = pairs.drop_first();
        assert forall|i: int| 0 <= i < rest.len() implies {
            &&& #[trigger] text::lacks(rest[i], '&')
            &&& rest[i].len() > 0 ==> rest[i].last() != '/'
        } by {
            assert(text::lacks(pairs[i + 1], '&'));
        }
        lemma_joined(rest);
        text::lemma_first_piece(pairs[0], '&', joined(rest));
        let all = joined(pairs);
        if joined(rest).len() > 0 {
            assert(all.last() == joined(rest).last());
        } else {
            assert(all.last() == '&');
        }
        assert(seq![pairs[0]] + rest =~= pairs);
    }
}

/// The pairs of a link are those that it was made of.
pub proof fn pairs_are_read_back(head: Seq<char>, pairs: Seq<Seq<char>>)
    requires
        text::lacks(head, '?'),
        can_be_joined(pairs),
    ensures
        text::index_from(link_with(head, pairs), '?', 0) < link_with(head, pairs).len(),
        pairs_of(link_with(head, pairs)) == pairs,
{
    let query = joined(pairs);
    lemma_joined(pairs);
    text::lemma_index_behind(head, '?', query, 0);
    assert(link_with(head, pairs).skip(head.len() as int + 1) =~= query);
    assert(text::without_trailing(query, '/') == query);
}

proof fn lemma_last_value(pairs: Seq<Seq<char>>, name: Seq<char>)
    ensures
        match last_value(pairs, name) {
            Some(v) => exists|i: int|
                0 <= i < pairs.len() && name_in(#[trigger] pairs[i]) == name && value_in(pairs[i])
                    == v,
            None => forall|i: int| 0 <= i < pairs.len() ==> name_in(#[trigger] pairs[i]) != name,
        },
    decreases pairs.len(),
{
    if pairs.len() > 0 {
        let rest = pairs.drop_last();
        if name_in(pairs.last()) == name {
            assert(name_in(pairs[pairs.len() - 1]) == name);
        } else {
            lemma_last_value(rest, name);
            match last_value(rest, name) {
                Some(v) => {
                    let i = choose|i: int|
                        0 <= i < rest.len() && name_in(#[trigger] rest[i]) == name && value_in(
                            rest[i],
                        ) == v;
                    assert(name_in(pairs[i]) == name);
                },
                None => {
                    assert forall|i: int| 0 <= i < pairs.len() implies name_in(
                        #[trigger] pairs[i],
                    ) != name by {
                        if i < rest.len() {
                            assert(name_in(rest[i]) != name);
                        }
                    }
                },
            }
        }
    }
}

/// The order of pairs with different names does not matter.
pub proof fn order_of_pairs_is_free(
    head: Seq<char>,
    pairs1: Seq<Seq<char>>,
    pairs2: Seq<Seq<char>>,
)
    requires
        text::lacks(head, '?'),
        can_be_joined(pairs1),
        can_be_joined(pairs2),
        forall|i: int, j: int|
            0 <= i < j < pairs1.len() ==> name_in(#[trigger] pairs1[i]) != name_in(
                #[trigger] pairs1[j],
            ),
        forall|p: Seq<char>|
            #![trigger pairs1.contains(p)]
            #![trigger pairs2.contains(p)]
            pairs1.contains(p) <==> pairs2.contains(p),
    ensures
        link_of(link_with(head, pairs1)) == link_of(link_with(head, pairs2)),
{
    pairs_are_read_back(head, pairs1);
    pairs_are_read_back(head, pairs2);
    assert forall|name: Seq<char>| #[trigger] is_known(name) implies last_value(pairs1, name)
        == last_value(pairs2, name) by {
        lemma_last_value(pairs1, name);
        lemma_last_value(pairs2, name);
        match last_value(pairs1, name) {
            Some(v) => {
                let i = choose|i: int|
                    0 <= i < pairs1.len() && name_in(#[trigger] pairs1[i]) == name && value_in(
                        pairs1[i],
                    ) == v;
                assert(pairs1.contains(pairs1[i]));
                let k = choose|k: int| 0 <= k < pairs2.len() && pairs2[k] == pairs1[i];
                assert(name_in(pairs2[k]) == name);
                assert(last_value(pairs2, name) is Some);
                let v2 = last_value(pairs2, name)->0;
                let j = choose|j: int|
                    0 <= j < pairs2.len() && name_in(#[trigger] pairs2[j]) == name && value_in(
                        pairs2[j],
                    ) == v2;
                assert(pairs2.contains(pairs2[j]));
                let m = choose|m: int| 0 <= m < pairs1.len() && pairs1[m] == pairs2[j];
                assert(m == i);
            },
            None => {
                if last_value(pairs2, name) is Some {
                    let v2 = last_value(pairs2, name)->0;
                    let j = choose|j: int|
                        0 <= j < pairs2.len() && name_in(#[trigger] pairs2[j]) == name && value_in(
                            pairs2[j],
                        ) == v2;
                    assert(pairs2.contains(pairs2[j]));
                    let m = choose|m: int| 0 <= m < pairs1.len() && pairs1[m] == pairs2[j];
                    assert(name_in(pairs1[m]) == name);
                }
            },
        }
    }
    same_last_values_same_link(link_with(head, pairs1), link_with(head, pairs2));
}

proof fn lemma_inserted(pairs: Seq<Seq<char>>, i: int, p: Seq<char>, name: Seq<char>)
    requires
        0 <= i <= pairs.len(),
        name_in(p) == name ==> exists|j: int|
            i <= j < pairs.len() && name_in(#[trigger] pairs[j]) == name,
    ensures
        last_value(pairs.insert(i, p), name) == last_value(pairs, name),
    decreases pairs.len(),
{
    let more = pairs.insert(i, p);
    if i == pairs.len() {
        assert(more.last() == p);
        assert(more.drop_last() =~= pairs);
    } else {
        let rest = pairs.drop_last();
        assert(more.last() == pairs.last());
        assert(more.drop_last() =~= rest.insert(i, p));
        if name_in(pairs.last()) != name {
            if name_in(p) == name {
                let j = choose|j: int|
                    i <= j < pairs.len() && name_in(#[trigger] pairs[j]) == name;
                assert(name_in(rest[j]) == name);
            }
            lemma_inserted(rest, i, p, name);
        }
    }
}

proof fn lemma_inserted_joined(pairs: Seq<Seq<char>>, i: int, p: Seq<char>)
    requires
        can_be_joined(pairs),
        can_be_joined(seq![p]),
        0 <= i <= pairs.len(),
    ensures
        can_be_joined(pairs.insert(i, p)),
{
    let more = pairs.insert(i, p);
    assert(text::lacks(seq![p][0], '&'));
    assert forall|k: int| 0 <= k < more.len() implies {
        &&& #[trigger] text::lacks(more[k], '&')
        &&& more[k].len() > 0 ==> more[k].last() != '/'
    } by {
        if k < i {
            assert(text::lacks(pairs[k], '&'));
        } else if k > i {
            assert(text::lacks(pairs[k - 1], '&'));
        }
    }
}

/// A pair with an unknown name changes nothing, wherever it stands.
pub proof fn unknown_pair_changes_nothing(
    head: Seq<char>,
    pairs: Seq<Seq<char>>,
    i: int,
    p: Seq<char>,
)
    requires
        text::lacks(head, '?'),
        can_be_joined(pairs),
        can_be_joined(seq![p]),
        0 <= i <= pairs.len(),
        !is_known(name_in(p)),
    ensures
        link_of(link_with(head, pairs.insert(i, p))) == link_of(link_with(head, pairs)),
{
    lemma_inserted_joined(pairs, i, p);
    pairs_are_read_back(head, pairs);
    pairs_are_read_back(head, pairs.insert(i, p));
    assert forall|name: Seq<char>| #[trigger] is_known(name) implies last_value(
        pairs.insert(i, p),
        name,
    ) == last_value(pairs, name) by {
        lemma_inserted(pairs, i, p, name);
    }
    same_last_values_same_link(link_with(head, pairs.insert(i, p)), link_with(head, pairs));
}

/// Of a repeated name the last pair counts: one that stands before another with its name changes
/// nothing.
pub proof fn last_of_a_name_counts(
    head: Seq<char>,
    pairs: Seq<Seq<char>>,
    i: int,
    j: int,
    p: Seq<char>,
)
    requires
        text::lacks(head, '?'),
        can_be_joined(pairs),
        can_be_joined(seq![p]),
        0 <= i <= j < pairs.len(),
        name_in(pairs[j]) == name_in(p),
    ensures
        link_of(link_with(head, pairs.insert(i, p))) == link_of(link_with(head, pairs)),
{
    lemma_inserted_joined(pairs, i, p);
    pairs_are_read_back(head, pairs);
    pairs_are_read_back(head, pairs.insert(i, p));
    assert forall|name: Seq<char>| #[trigger] is_known(name) implies last_value(
        pairs.insert(i, p),
        name,
    ) == last_value(pairs, name) by {
        lemma_inserted(pairs, i, p, name);
    }
    same_last_values_same_link(link_with(head, pairs.insert(i, p)), link_with(head, pairs));
}

/// What a character becomes where the first `level` of slash, plus and colon are written by their
/// numbers.
pub open spec fn escape(c: char, level: int) -> Seq<char> {
    if c == ':' && level >= 3 {
        "%3A"@
    } else if c == '+' && level >= 2 {
        "%2B"@
    } else if c == '/' && level >= 1 {
        "%2F"@
    } else {
        seq![c]
    }
}

/// A text where the first `level` of slash, plus and colon are written by their numbers.
pub open spec fn escaped(s: Seq<char>, level: int) -> Seq<char>
    decreases s.len(),
{
    if s.len() == 0 {
        seq![]
    } else {
        escape(s[0], level) + escaped(s.drop_first(), level)
    }
}

/// The number of the last of those characters.
spec fn escape_text(level: int) -> Seq<char> {
    if level == 3 {
        "%3A"@
    } else if level == 2 {
        "%2B"@
    } else {
        "%2F"@
    }
}

/// The last of those characters.
spec fn escape_char(level: int) -> char {
    if level == 3 {
        ':'
    } else if level == 2 {
        '+'
    } else {
        '/'
    }
}

/// One character does not begin a pattern, so replacing goes on behind it.
proof fn lemma_replace_step(c: char, rest: Seq<char>, pat: Seq<char>, to: Seq<char>)
    requires
        pat.len() > 0,
        !text::stands_at(seq![c] + rest, pat, 0),
    ensures
        text::replaced(seq![c] + rest, pat, to) == seq![c] + text::replaced(rest, pat, to),
{
    let s = seq![c] + rest;
    text::lemma_replace_skip(s, pat, to, 1, 0);
    assert(s.skip(1) =~= rest);
}

proof fn lemma_replace_match(rest: Seq<char>, pat: Seq<char>, to: Seq<char>)
    requires
        pat.len() > 0,
    ensures
        text::replaced(pat + rest, pat, to) == to + text::replaced(rest, pat, to),
{
    let s = pat + rest;
    assert(s.subrange(0, pat.len() as int) =~= pat);
    text::lemma_replace_skip(s, pat, to, pat.len() as int, 0);
    assert(s.skip(pat.len() as int) =~= rest);
}

/// A pattern of a percent sign and two other characters is passed over where another one stands.
proof fn lemma_replace_other(other: Seq<char>, rest: Seq<char>, pat: Seq<char>, to: Seq<char>)
    requires
        pat.len() == 3,
        pat[0] == '%',
        other.len() == 3,
        other[0] == '%',
        other[1] != '%',
        other[2] != '%',
        other != pat,
    ensures
        text::replaced(other + rest, pat, to) == other + text::replaced(rest, pat, to),
{
    let s0 = other + rest;
    let s1 = seq![other[1]] + (seq![other[2]] + rest);
    let s2 = seq![other[2]] + rest;
    assert(s0 =~= seq![other[0]] + s1);
    if text::stands_at(s0, pat, 0) {
        assert(s0.subrange(0, 3) =~= other);
        assert(false);
    }
    lemma_replace_step(other[0], s1, pat, to);
    if text::stands_at(s1, pat, 0) {
        assert(s1.subrange(0, 3)[0] == s1[0]);
    }
    lemma_replace_step(other[1], s2, pat, to);
    if text::stands_at(s2, pat, 0) {
        assert(s2.subrange(0, 3)[0] == s2[0]);
    }
    lemma_replace_step(other[2], rest, pat, to);
    assert(other =~= seq![other[0], other[1], other[2]]);
    assert(text::replaced(s0, pat, to) =~= other + text::replaced(rest, pat, to));
}

/// Taking back the last of the characters that are written by their numbers.
proof fn lemma_unescape(s: Seq<char>, level: int)
    requires
        text::lacks(s, '%'),
        1 <= level <= 3,
    ensures
        text::replaced(escaped(s, level), escape_text(level), seq![escape_char(level)]) == escaped(
            s,
            level - 1,
        ),
    decreases s.len(),
{
    reveal_strlit("%3A");
    reveal_strlit("%2B");
    reveal_strlit("%2F");
    assert("%3A"@.len() == 3 && "%3A"@[1] == '3');
    assert("%2B"@.len() == 3 && "%2B"@[1] == '2' && "%2B"@[2] == 'B');
    assert("%2F"@.len() == 3 && "%2F"@[1] == '2' && "%2F"@[2] == 'F');
    let pat = escape_text(level);
    let to = seq![escape_char(level)];
    if s.len() == 0 {
        assert(text::replaced(escaped(s, level), pat, to) =~= escaped(s, level - 1));
    } else {
        let c = s[0];
        let tail = s.drop_first();
        let rest = escaped(tail, level);
        assert(text::lacks(tail, '%')) by {
            assert forall|i: int| 0 <= i < tail.len() implies #[trigger] tail[i] != '%' by {
                assert(tail[i] == s[i + 1]);
            }
        }
        lemma_unescape(tail, level);
        let unit = escape(c, level);
        if unit == pat {
            assert(c == escape_char(level));
            lemma_replace_match(rest, pat, to);
            assert(escape(c, level - 1) =~= to);
        } else if unit.len() == 3 {
            assert(unit[0] == '%' && unit[1] != '%' && unit[2] != '%');
            lemma_replace_other(unit, rest, pat, to);
            assert(escape(c, level - 1) == unit);
        } else {
            assert(c != '%');
            if text::stands_at(unit + rest, pat, 0) {
                assert((unit + rest).subrange(0, 3)[0] == c);
            }
            lemma_replace_step(c, rest, pat, to);
        }
    }
}

proof fn lemma_escaped_nothing(s: Seq<char>)
    ensures
        escaped(s, 0) == s,
    decreases s.len(),
{
    if s.len() > 0 {
        lemma_escaped_nothing(s.drop_first());
        assert(seq![s[0]] + s.drop_first() =~= s);
    }
}

proof fn lemma_escaped_value(s: Seq<char>)
    requires
        one_value(s),
    ensures
        one_value(escaped(s, 3)),
    decreases s.len(),
{
    reveal_strlit("%3A");
    reveal_strlit("%2B");
    reveal_strlit("%2F");
    if s.len() > 0 {
        let tail = s.drop_first();
        assert forall|i: int| 0 <= i < tail.len() implies !text::is_white(#[trigger] tail[i])
            && tail[i] != '&' by {
            assert(tail[i] == s[i + 1]);
        }
        lemma_escaped_value(tail);
        let unit = escape(s[0], 3);
        assert(!text::is_white(s[0]) && s[0] != '&');
        assert(one_value(unit));
        let e = escaped(s, 3);
        assert forall|i: int| 0 <= i < e.len() implies !text::is_white(#[trigger] e[i]) && e[i]
            != '&' by {
            if i < unit.len() {
                assert(e[i] == unit[i]);
            } else {
                assert(e[i] == escaped(tail, 3)[i - unit.len()]);
            }
        }
    }
}

proof fn lemma_escaped_decoded(s: Seq<char>)
    requires
        text::lacks(s, '%'),
    ensures
        decoded(escaped(s, 3)) == s,
{
    reveal_strlit(":");
    reveal_strlit("+");
    reveal_strlit("/");
    assert(":"@ =~= seq![':']);
    assert("+"@ =~= seq!['+']);
    assert("/"@ =~= seq!['/']);
    lemma_unescape(s, 3);
    lemma_unescape(s, 2);
    lemma_unescape(s, 1);
    lemma_escaped_nothing(s);
}

/// A link is read back too where colons, plus signs and slashes in its texts are written by their
/// numbers, as browsers do.
pub proof fn escaped_link_is_read_back(f: Fields)
    requires
        plain(f.session_key) && f.session_key.len() > 0,
        plain(f.connect_token),
        plain(f.relay_ip) && f.relay_ip.len() > 0,
        f.relay_port <= u16::MAX,
        f.session_id <= u64::MAX,
    ensures
        link_of(
            link(
                escaped(f.session_key, 3),
                escaped(f.connect_token, 3),
                escaped(f.relay_ip, 3),
                f.relay_port,
                f.session_id,
            ),
        ) == Ok::<Fields, UriError>(f),
{
    lemma_escaped_value(f.session_key);
    lemma_escaped_value(f.connect_token);
    lemma_escaped_value(f.relay_ip);
    lemma_escaped_decoded(f.session_key);
    lemma_escaped_decoded(f.connect_token);
    lemma_escaped_decoded(f.relay_ip);
    lemma_link(
        escaped(f.session_key, 3),
        escaped(f.connect_token, 3),
        escaped(f.relay_ip, 3),
        f,
    );
}

/// What the arguments hold.
pub open spec fn texts(args: Seq<String>) -> Seq<Seq<char>> {
    args.map_values(|s: String| s@)
}

/// An argument is a link.
pub open spec fn is_link(arg: Seq<char>) -> bool {
    text::stands_at(arg, "vdesk://"@, 0)
}

/// Finds the first link among the arguments; the name of the program is passed over.
pub fn find_link(args: &Vec<String>) -> (r: Option<usize>)
    ensures
        match r {
            Some(i) => {
                &&& 1 <= i < args@.len()
                &&& is_link(texts(args@)[i as int])
                &&& forall|j: int| 1 <= j < i ==> !is_link(#[trigger] texts(args@)[j])
            },
            None => forall|j: int|
                1 <= j < args@.len() ==> !is_link(#[trigger] texts(args@)[j]),
        },
{
    let mut i: usize = 1;
    while i < args.len()
        invariant
            1 <= i,
            forall|j: int| 1 <= j < i && j < args@.len() ==> !is_link(#[trigger] texts(args@)[j]),
        decreases args.len() - i,
    {
        let v: Vec<char> = text::chars_of(args[i].as_str());
        assert(v@ == texts(args@)[i as int]);
        if text::starts_with(&v, "vdesk://") {
            return Some(i);
        }
        i = i + 1;
    }
    None
}

/// How the viewer finds its agent.
#[derive(Clone, Copy, Debug, PartialEq, Eq, Structural)]
pub enum LaunchMode {
    /// The argument with this number is a link.
    Link(usize),
    /// The settings say where the agent is.
    Direct,
    /// The backend is asked.
    Backend,
}

/// Decides how the viewer finds its agent: a link comes first, then the switch for the direct way.
pub fn launch_mode(args: &Vec<String>, direct: Option<&str>) -> (m: LaunchMode)
    ensures
        match m {
            LaunchMode::Link(i) => {
                &&& 1 <= i < args@.len()
                &&& is_link(texts(args@)[i as int])
                &&& forall|j: int| 1 <= j < i ==> !is_link(#[trigger] texts(args@)[j])
            },
            _ => {
                &&& forall|j: int| 1 <= j < args@.len() ==> !is_link(#[trigger] texts(args@)[j])
                &&& m == LaunchMode::Direct <==> settings::switched_on(direct)
            },
        },
{
    match find_link(args) {
        Some(i) => LaunchMode::Link(i),
        None => if settings::is_on(direct) {
            LaunchMode::Direct
        } else {
            LaunchMode::Backend
        },
    }
}

/// Tells whether the pointer is sent by its place on the virtual screen: on the direct way, and
/// where the switch for it is on.
pub fn sends_global(mode: LaunchMode, setting: Option<&str>) -> (b: bool)
    ensures
        b == (mode == LaunchMode::Direct || settings::switched_on(setting)),
{
    if mode == LaunchMode::Direct {
        true
    } else {
        settings::is_on(setting)
    }
}

/// The agent that the settings name.
#[derive(Debug)]
pub struct DirectTarget {
    pub host: String,
    pub port: u16,
    pub session_key: String,
    pub connect_token: String,
}

/// Reads the settings of the direct way.
pub fn direct_target(
    host: Option<&str>,
    port: Option<&str>,
    session_key: Option<&str>,
    connect_token: Option<&str>,
) -> (t: DirectTarget)
    ensures
        t.host@ == match host {
            Some(s) => s@,
            None => "127.0.0.1"@,
        },
        t.port == match port {
            Some(s) => settings::port_of(s@),
            None => LISTEN_PORT as nat,
        },
        t.session_key@ == match session_key {
            Some(s) => s@,
            None => "direct"@,
        },
        t.connect_token@ == match connect_token {
            Some(s) => s@,
            None => "direct"@,
        },
{
    DirectTarget {
        host: settings::text_or(host, "127.0.0.1"),
        port: settings::listen_port(port),
        session_key: settings::text_or(session_key, "direct"),
        connect_token: settings::text_or(connect_token, "direct"),
    }
}

/// How long an agent is called, in seconds.
pub const CONNECT_SECS: u64 = 60;

/// The wait before the first question whether a session is alive, in seconds.
pub const ALIVE_DELAY_SECS: u64 = 10;

/// The time between two questions whether a session is alive, in seconds.
pub const ALIVE_PAUSE_SECS: u64 = 5;

/// The wait before the first report on a session, in seconds.
pub const REPORT_DELAY_SECS: u64 = 8;

/// The time between two reports on a session, in seconds.
pub const REPORT_PAUSE_SECS: u64 = 10;

/// Tells whether reports on the session of a link are sent: they need its number.
pub fn reports_on_link(params: &UriParams) -> (b: bool)
    ensures
        b == (params.session_id > 0),
{
    params.session_id > 0
}

/// Tells whether the viewer closes after the question whether its session is alive: on a clear no,
/// not where the question failed.
pub fn closes_after(alive: Option<bool>) -> (b: bool)
    ensures
        b == (alive == Some(false)),
{
    match alive {
        Some(a) => !a,
        None => false,
    }
}

/// Tells whether the reports on a session stop: it is over, or the backend says so in its answer,
/// if there is one.
pub fn stops_reporting(ended: bool, answer: Option<&ViewerHeartbeatData>) -> (b: bool)
    ensures
        b == (ended || match answer {
            Some(data) => data.should_terminate,
            None => false,
        }),
{
    if ended {
        return true;
    }
    match answer {
        Some(data) => data.should_terminate,
        None => false,
    }
}

/// The machine that the arguments name, from the `i`-th on: the first number that stands behind
/// `--device`.
pub open spec fn device_named(args: Seq<Seq<char>>, i: int) -> Option<nat>
    decreases args.len() - i,
{
    if i >= args.len() {
        None
    } else if args[i] != "--device"@ {
        device_named(args, i + 1)
    } else if i + 1 >= args.len() {
        None
    } else {
        match text::parsed_unsigned(args[i + 1], u64::MAX as nat) {
            Some(n) => Some(n),
            None => device_named(args, i + 2),
        }
    }
}

/// Finds the machine that the arguments name; the name of the program is passed over.
pub fn device_arg(args: &Vec<String>) -> (r: Option<u64>)
    ensures
        match r {
            Some(id) => device_named(texts(args@), 1) == Some(id as nat),
            None => device_named(texts(args@), 1) is None,
        },
{
    let mut i: usize = 1;
    while i < args.len()
        invariant
            1 <= i,
            device_named(texts(args@), 1) == device_named(texts(args@), i as int),
        decreases args.len() - i,
    {
        let v: Vec<char> = text::chars_of(args[i].as_str());
        assert(v@ == texts(args@)[i as int]);
        if text::same(&v, "--device") {
            if i + 1 >= args.len() {
                return None;
            }
            let w: Vec<char> = text::chars_of(args[i + 1].as_str());
            assert(w@ == texts(args@)[i + 1]);
            if let Some(id) = text::parse_unsigned(&w, u64::MAX) {
                return Some(id);
            }
            i = i + 2;
        } else {
            i = i + 1;
        }
    }
    None
}

/// Reads the number of a machine that the user typed.
pub fn typed_device(typed: &str) -> (r: Option<u64>)
    ensures
        match r {
            Some(id) => text::parsed_unsigned(text::trimmed(typed@), u64::MAX as nat) == Some(
                id as nat,
            ),
            None => text::parsed_unsigned(text::trimmed(typed@), u64::MAX as nat) is None,
        },
{
    let v: Vec<char> = text::chars_of(typed);
    let t: Vec<char> = text::trim(&v);
    text::parse_unsigned(&t, u64::MAX)
}

/// What the user is asked for, to choose a machine.
#[derive(Clone, Copy, Debug, PartialEq, Eq, Structural)]
pub enum DeviceStep {
    /// One of the linked machines.
    ChooseLinked,
    /// Other machines are looked for first.
    Discover,
    /// One of the machines that were found; it is linked then.
    ChooseFound,
    /// Any machine, by its number.
    Type,
    /// There is none to choose.
    NoDevice,
}

/// Goes on with the linked machines, if they could be listed and there are any.
pub fn after_listing(linked: Option<&Vec<DeviceInfo>>) -> (s: DeviceStep)
    ensures
        s == match linked {
            Some(l) if l@.len() > 0 => DeviceStep::ChooseLinked,
            _ => DeviceStep::Discover,
        },
{
    match linked {
        Some(l) => if l.len() > 0 {
            DeviceStep::ChooseLinked
        } else {
            DeviceStep::Discover
        },
        None => DeviceStep::Discover,
    }
}

/// Goes on with the machines that were found, if the search did not fail.
pub fn after_discovery(found: Option<&Vec<DiscoverDevice>>) -> (s: DeviceStep)
    ensures
        s == match found {
            Some(f) => if f@.len() > 0 {
                DeviceStep::ChooseFound
            } else {
                DeviceStep::NoDevice
            },
            None => DeviceStep::Type,
        },
{
    match found {
        Some(f) => if f.len() > 0 {
            DeviceStep::ChooseFound
        } else {
            DeviceStep::NoDevice
        },
        None => DeviceStep::Type,
    }
}

/// Finds the machine to link: the first of those found that has the chosen number.
pub fn device_to_link(found: &Vec<DiscoverDevice>, chosen: u64) -> (r: Option<usize>)
    ensures
        match r {
            Some(i) => {
                &&& i < found@.len()
                &&& found@[i as int].device_id == chosen
                &&& forall|j: int| 0 <= j < i ==> #[trigger] found@[j].device_id != chosen
            },
            None => forall|j: int|
                0 <= j < found@.len() ==> #[trigger] found@[j].device_id != chosen,
        },
{
    let mut i: usize = 0;
    while i < found.len()
        invariant
            i <= found.len(),
            forall|j: int| 0 <= j < i ==> #[trigger] found@[j].device_id != chosen,
        decreases found.len() - i,
    {
        if found[i].device_id == chosen {
            return Some(i);
        }
        i = i + 1;
    }
    None
}

/// A line of a list of machines: the number, the name, and what else is known.
pub open spec fn device_line(id: nat, name: Seq<char>, more: Seq<char>) -> Seq<char> {
    "  ["@ + text::decimal(id) + "] "@ + name + " ("@ + more + ")"@
}

fn write_line(id: u64, name: &str, more: &str) -> (s: String)
    ensures
        s@ == device_line(id as nat, name@, more@),
{
    let mut s: String = "  [".to_string();
    s.append(text::decimal_of(id).as_str());
    s.append("] ");
    s.append(name);
    s.append(" (");
    s.append(more);
    s.append(")");
    s
}

/// Writes the line of a linked machine.
pub fn linked_line(d: &DeviceInfo) -> (s: String)
    ensures
        s@ == device_line(d.device_id as nat, d.device_name@, d.host_status@),
{
    write_line(d.device_id, d.device_name.as_str(), d.host_status.as_str())
}

/// Writes the line of a machine that was found.
pub fn found_line(d: &DiscoverDevice) -> (s: String)
    ensures
        s@ == device_line(d.device_id as nat, d.host_name@, d.os_type@),
{
    write_line(d.device_id, d.host_name.as_str(), d.os_type.as_str())
}

/// An entry of the registry: its key, the name of the value, and the value.
#[derive(Debug)]
pub struct RegistryEntry {
    pub key: String,
    pub name: String,
    pub value: String,
}

fn entry(key: &str, name: &str, value: String) -> (e: RegistryEntry)
    ensures
        e.key@ == key@,
        e.name@ == name@,
        e.value == value,
{
    RegistryEntry { key: key.to_string(), name: name.to_string(), value }
}

/// The texts of an entry.
pub open spec fn entry_texts(e: RegistryEntry) -> (Seq<char>, Seq<char>, Seq<char>) {
    (e.key@, e.name@, e.value@)
}

/// A path between quotation marks.
pub open spec fn quoted(path: Seq<char>) -> Seq<char> {
    "\""@ + path + "\""@
}

/// The entries that make the system open links with the program at a path.
pub open spec fn scheme_entries(path: Seq<char>) -> Seq<(Seq<char>, Seq<char>, Seq<char>)> {
    seq![
        ("HKCU\\SOFTWARE\\Classes\\vdesk"@, "/ve"@, "VDesk Remote Viewer"@),
        ("HKCU\\SOFTWARE\\Classes\\vdesk"@, "URL Protocol"@, ""@),
        ("HKCU\\SOFTWARE\\Classes\\vdesk\\DefaultIcon"@, "/ve"@, quoted(path) + ",0"@),
        (
            "HKCU\\SOFTWARE\\Classes\\vdesk\\shell\\open\\command"@,
            "/ve"@,
            quoted(path) + " \"%1\""@,
        ),
    ]
}

/// Lists the entries that make the system open links with the program at a path.
pub fn uri_scheme_entries(path: &str) -> (out: Vec<RegistryEntry>)
    ensures
        out@.map_values(|e: RegistryEntry| entry_texts(e)) == scheme_entries(path@),
{
    let mut icon: String = "\"".to_string();
    icon.append(path);
    icon.append("\"");
    icon.append(",0");
    let mut command: String = "\"".to_string();
    command.append(path);
    command.append("\"");
    command.append(" \"%1\"");
    let mut out: Vec<RegistryEntry> = Vec::new();
    out.push(
        entry("HKCU\\SOFTWARE\\Classes\\vdesk", "/ve", "VDesk Remote Viewer".to_string()),
    );
    out.push(entry("HKCU\\SOFTWARE\\Classes\\vdesk", "URL Protocol", "".to_string()));
    out.push(entry("HKCU\\SOFTWARE\\Classes\\vdesk\\DefaultIcon", "/ve", icon));
    out.push(entry("HKCU\\SOFTWARE\\Classes\\vdesk\\shell\\open\\command", "/ve", command));
    assert(out@.map_values(|e: RegistryEntry| entry_texts(e)) =~= scheme_entries(path@));
    out
}

} // verus!
