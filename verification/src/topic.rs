//! MQTT topics: splitting a topic into its levels, and the topics that the
//! server and its integrations publish and subscribe to.
use vstd::prelude::*;
use vstd::string::StringExecFns;

use crate::hex::{digit, hex_digit, push_char};

verus! {

/// The pieces of `s` between the occurrences of `sep`, empty pieces
/// included: one more piece than `s` has separators.
pub open spec fn split_on(s: Seq<char>, sep: char) -> Seq<Seq<char>>
    decreases s.len(),
{
    if s.len() == 0 {
        seq![Seq::<char>::empty()]
    } else {
        let rest = split_on(s.drop_last(), sep);
        if s.last() == sep {
            rest.push(Seq::<char>::empty())
        } else {
            rest.update(rest.len() - 1, rest.last().push(s.last()))
        }
    }
}

proof fn lemma_split_on_nonempty(s: Seq<char>, sep: char)
    ensures
        split_on(s, sep).len() >= 1,
    decreases s.len(),
{
    if s.len() > 0 {
        lemma_split_on_nonempty(s.drop_last(), sep);
    }
}

/// The views of a sequence of strings.
pub open spec fn views(v: Seq<String>) -> Seq<Seq<char>> {
    v.map_values(|p: String| p@)
}

/// The levels of topic `topic`: its pieces between the `/` separators.
pub fn split_topic(topic: &str) -> (r: Vec<String>)
    ensures
        views(r@) == split_on(topic@, '/'),
{
    let mut parts: Vec<String> = Vec::new();
    let mut cur = String::new();
    let ghost s = topic@;
    for c in it: topic.chars()
        invariant
            it.seq() == s,
            views(parts@).push(cur@) == split_on(s.take(it.index() as int), '/'),
    {
        let ghost i = it.index();
        proof {
            assert(s.take(i as int + 1).drop_last() =~= s.take(i as int));
            lemma_split_on_nonempty(s.take(i as int), '/');
        }
        if c == '/' {
            let ghost before = views(parts@).push(cur@);
            parts.push(cur);
            cur = String::new();
            proof {
                assert(views(parts@).push(cur@) =~= before.push(Seq::<char>::empty()));
            }
        } else {
            let ghost before = views(parts@).push(cur@);
            push_char(&mut cur, c);
            proof {
                assert(views(parts@).push(cur@) =~= before.update(
                    before.len() - 1,
                    before.last().push(c),
                ));
            }
        }
    }
    let ghost before = views(parts@).push(cur@);
    parts.push(cur);
    proof {
        assert(s.take(s.len() as int) =~= s);
        assert(views(parts@) =~= before);
    }
    parts
}


/// What `str::to_lowercase` gives for `s`: its characters mapped to
/// lowercase by Unicode's rules.
pub uninterp spec fn lowercase(s: Seq<char>) -> Seq<char>;

/// `str::to_lowercase`; its result is named by `lowercase`.
#[verifier::external_body]
fn to_lowercase(s: &str) -> (r: String)
    ensures
        r@ == lowercase(s@),
{
    s.to_lowercase()
}

/// Why a topic is refused.
#[derive(Debug, Clone, Copy, PartialEq, Eq, Structural)]
pub enum TopicError {
    /// The topic does not have the expected number of levels.
    InvalidTopic,
}

/// The gateway name in a gateway event topic
/// (`nanopulse/gateway/<name>/event/<type>`): the third of its five levels,
/// in lowercase.
pub fn get_gateway_gid(topic: &str) -> (r: Result<String, TopicError>)
    ensures
        split_on(topic@, '/').len() != 5 ==> r == Err::<String, TopicError>(TopicError::InvalidTopic),
        split_on(topic@, '/').len() == 5 ==> (r matches Ok(g) && g@ == lowercase(
            split_on(topic@, '/')[2],
        )),
{
    let parts = split_topic(topic);
    if parts.len() != 5 {
        return Err(TopicError::InvalidTopic);
    }
    Ok(to_lowercase(parts[2].as_str()))
}

/// Whether `s` ends with `suffix`.
pub open spec fn ends_with(s: Seq<char>, suffix: Seq<char>) -> bool {
    s.len() >= suffix.len() && s.subrange(s.len() - suffix.len(), s.len() as int) == suffix
}

/// Whether `s` ends with `suffix`.
pub fn str_ends_with(s: &str, suffix: &str) -> (r: bool)
    ensures
        r == ends_with(s@, suffix@),
{
    let n = s.unicode_len();
    let m = suffix.unicode_len();
    if m > n {
        return false;
    }
    let mut i: usize = 0;
    while i < m
        invariant
            n == s@.len(),
            m == suffix@.len(),
            m <= n,
            i <= m,
            forall|k: int| 0 <= k < i ==> s@[n - m + k] == suffix@[k],
        decreases m - i,
    {
        if s.get_char(n - m + i) != suffix.get_char(i) {
            assert(s@.subrange(n - m, n as int)[i as int] != suffix@[i as int]);
            return false;
        }
        i += 1;
    }
    assert(s@.subrange(n - m, n as int) =~= suffix@);
    true
}

/// Kinds of gateway events.
#[derive(Debug, Clone, Copy, PartialEq, Eq, Structural)]
pub enum GatewayEvent {
    Rx,
    Heartbeat,
    /// Any other event, which is ignored.
    Other,
}

/// The kind of event that a gateway event topic carries.
pub fn gateway_event(topic: &str) -> (r: GatewayEvent)
    ensures
        ends_with(topic@, "event/rx"@) ==> r == GatewayEvent::Rx,
        !ends_with(topic@, "event/rx"@) && ends_with(topic@, "event/heartbeat"@) ==> r
            == GatewayEvent::Heartbeat,
        !ends_with(topic@, "event/rx"@) && !ends_with(topic@, "event/heartbeat"@) ==> r
            == GatewayEvent::Other,
{
    if str_ends_with(topic, "event/rx") {
        GatewayEvent::Rx
    } else if str_ends_with(topic, "event/heartbeat") {
        GatewayEvent::Heartbeat
    } else {
        GatewayEvent::Other
    }
}

/// Topic of a command of type `command` to gateway `gateway_name`.
pub open spec fn gateway_command_topic(gateway_name: Seq<char>, command: Seq<char>) -> Seq<char> {
    "nanopulse/gateway/"@ + gateway_name + "/command/"@ + command
}

/// Topic of the channel configuration sent to a gateway.
pub fn config_command_topic(gateway_name: &str) -> (r: String)
    ensures
        r@ == gateway_command_topic(gateway_name@, "config"@),
{
    let mut t = String::from_str("nanopulse/gateway/");
    t.append(gateway_name);
    t.append("/command/");
    t.append("config");
    t
}

/// Topic of the transmissions sent to a gateway.
pub fn tx_command_topic(gateway_name: &str) -> (r: String)
    ensures
        r@ == gateway_command_topic(gateway_name@, "tx"@),
{
    let mut t = String::from_str("nanopulse/gateway/");
    t.append(gateway_name);
    t.append("/command/");
    t.append("tx");
    t
}

/// Topic the server subscribes to for gateway events; shared among server
/// instances where the broker supports shared subscriptions.
pub fn gateway_subscribe_topic(shared: bool) -> (r: String)
    ensures
        shared ==> r@ == "$share/nanopulse/"@ + "nanopulse/gateway/+/event/+"@,
        !shared ==> r@ == "nanopulse/gateway/+/event/+"@,
{
    if shared {
        let mut t = String::from_str("$share/nanopulse/");
        t.append("nanopulse/gateway/+/event/+");
        t
    } else {
        String::from_str("nanopulse/gateway/+/event/+")
    }
}

/// Whether the broker supports shared subscriptions, from its connection
/// acknowledgement: the properties, where present, and in them the
/// shared-subscription-available flag, where present. Either absent means
/// supported.
pub fn shared_subscription_support(properties: Option<Option<u8>>) -> (r: bool)
    ensures
        r == match properties {
            Some(Some(v)) => v == 1,
            _ => true,
        },
{
    match properties {
        Some(Some(v)) => v == 1,
        _ => true,
    }
}


/// Lowercase hexadecimal text of `n`, without leading zeros.
pub open spec fn lower_hex(n: nat) -> Seq<char>
    decreases n,
{
    if n < 16 {
        seq![hex_digit(n as u8)]
    } else {
        lower_hex(n / 16).push(hex_digit((n % 16) as u8))
    }
}

/// Appends the lowercase hexadecimal text of `n` to `out`.
fn append_lower_hex(out: &mut String, n: u32)
    ensures
        final(out)@ == old(out)@ + lower_hex(n as nat),
    decreases n,
{
    if n < 16 {
        push_char(out, digit(n as u8));
    } else {
        append_lower_hex(out, n / 16);
        push_char(out, digit((n % 16) as u8));
    }
}

/// MQTT client ID of the server: the configured one, else `nanopulse-`
/// followed by the hexadecimal text of the random number `random`.
pub fn server_client_id(configured: &str, random: u32) -> (r: String)
    ensures
        configured@.len() != 0 ==> r@ == configured@,
        configured@.len() == 0 ==> r@ == "nanopulse-"@ + lower_hex(random as nat),
{
    if configured.unicode_len() != 0 {
        String::from_str(configured)
    } else {
        let mut id = String::from_str("nanopulse-");
        append_lower_hex(&mut id, random);
        id
    }
}

/// Topic of the state commands that Home Assistant sends to any device.
pub fn device_command_subscription() -> (r: String)
    ensures
        r@ == "nanopulse/workspace/+/device/+/command/+"@,
{
    String::from_str("nanopulse/workspace/+/device/+/command/+")
}


/// Whether `s` holds no `/`.
pub open spec fn single_level(s: Seq<char>) -> bool {
    forall|i: int| 0 <= i < s.len() ==> s[i] != '/'
}

proof fn lemma_split_single(s: Seq<char>)
    requires
        single_level(s),
    ensures
        split_on(s, '/') == seq![s],
    decreases s.len(),
{
    if s.len() > 0 {
        lemma_split_single(s.drop_last());
        assert(s.drop_last().push(s.last()) =~= s);
    } else {
        assert(s =~= Seq::<char>::empty());
    }
}

proof fn lemma_split_append(a: Seq<char>, b: Seq<char>)
    requires
        single_level(b),
    ensures
        split_on(a + seq!['/'] + b, '/') == split_on(a, '/').push(b),
    decreases b.len(),
{
    if b.len() == 0 {
        assert(b =~= Seq::<char>::empty());
        assert(a + seq!['/'] + b =~= a.push('/'));
        assert((a + seq!['/'] + b).drop_last() =~= a);
    } else {
        let c = a + seq!['/'] + b;
        lemma_split_append(a, b.drop_last());
        assert(c.drop_last() =~= a + seq!['/'] + b.drop_last());
        assert(c.last() == b.last());
        assert(b[b.len() - 1] != '/');
        lemma_split_on_nonempty(a, '/');
        let rest = split_on(c.drop_last(), '/');
        assert(rest == split_on(a, '/').push(b.drop_last()));
        assert(split_on(c, '/') == rest.update(rest.len() - 1, rest.last().push(c.last())));
        assert(b.drop_last().push(b.last()) =~= b);
        assert(split_on(a, '/').push(b.drop_last()).update(
            split_on(a, '/').len() as int,
            b.drop_last().push(b.last()),
        ) =~= split_on(a, '/').push(b));
    }
}

/// A gateway's event topic, built from its name, gives the name back: the
/// third of its five levels is the name (so that the server finds the
/// gateway, in lowercase, that published an event).
pub proof fn lemma_gateway_event_topic_levels(name: Seq<char>, kind: Seq<char>)
    requires
        single_level(name),
        single_level(kind),
    ensures
        split_on("nanopulse/gateway/"@ + name + "/event/"@ + kind, '/') == seq![
            "nanopulse"@,
            "gateway"@,
            name,
            "event"@,
            kind,
        ],
{
    reveal_strlit("nanopulse/gateway/");
    reveal_strlit("/event/");
    reveal_strlit("nanopulse");
    reveal_strlit("gateway");
    reveal_strlit("event");
    let t = "nanopulse/gateway/"@ + name + "/event/"@ + kind;
    assert(single_level("nanopulse"@));
    assert(single_level("gateway"@));
    assert(single_level("event"@));
    lemma_split_single("nanopulse"@);
    let p1 = "nanopulse"@ + seq!['/'] + "gateway"@;
    lemma_split_append("nanopulse"@, "gateway"@);
    let p2 = p1 + seq!['/'] + name;
    lemma_split_append(p1, name);
    let p3 = p2 + seq!['/'] + "event"@;
    lemma_split_append(p2, "event"@);
    let p4 = p3 + seq!['/'] + kind;
    lemma_split_append(p3, kind);
    assert(t =~= p4);
}


/// The state command topic of a device, built from its workspace and name,
/// gives the device's name back: the fifth of its seven levels, and the
/// topic ends with `/state` (so that a state command from Home Assistant
/// reaches the device it was sent for).
pub proof fn lemma_device_command_topic_levels(workspace: Seq<char>, device: Seq<char>)
    requires
        single_level(workspace),
        single_level(device),
    ensures
        split_on("nanopulse/workspace/"@ + workspace + "/device/"@ + device + "/command/state"@, '/')
            == seq!["nanopulse"@, "workspace"@, workspace, "device"@, device, "command"@, "state"@],
        ends_with("nanopulse/workspace/"@ + workspace + "/device/"@ + device + "/command/state"@, "/state"@),
{
    reveal_strlit("nanopulse/workspace/");
    reveal_strlit("/device/");
    reveal_strlit("/command/state");
    reveal_strlit("/state");
    reveal_strlit("nanopulse");
    reveal_strlit("workspace");
    reveal_strlit("device");
    reveal_strlit("command");
    reveal_strlit("state");
    let t = "nanopulse/workspace/"@ + workspace + "/device/"@ + device + "/command/state"@;
    assert(single_level("nanopulse"@));
    assert(single_level("workspace"@));
    assert(single_level("device"@));
    assert(single_level("command"@));
    assert(single_level("state"@));
    lemma_split_single("nanopulse"@);
    let p1 = "nanopulse"@ + seq!['/'] + "workspace"@;
    lemma_split_append("nanopulse"@, "workspace"@);
    let p2 = p1 + seq!['/'] + workspace;
    lemma_split_append(p1, workspace);
    let p3 = p2 + seq!['/'] + "device"@;
    lemma_split_append(p2, "device"@);
    let p4 = p3 + seq!['/'] + device;
    lemma_split_append(p3, device);
    let p5 = p4 + seq!['/'] + "command"@;
    lemma_split_append(p4, "command"@);
    let p6 = p5 + seq!['/'] + "state"@;
    lemma_split_append(p5, "state"@);
    assert(t =~= p6);
    assert(t.subrange(t.len() - 6, t.len() as int) =~= "/state"@);
}

} // verus!
