//! Settings of the listeners: one set per socket the broker accepts
//! connections on.

use vstd::prelude::*;
use std::collections::HashMap;
use crate::collections::StrMap;
use crate::types::{QoS, SocketAddress};

verus! {

/// The port a listener listens on.
pub type Port = u16;

/// The listeners of the broker: as the settings name them, and, once
/// [`Listeners::init`] has run, by the port each listens on.
pub struct Listeners {
    pub named_tcps: StrMap<ListenerInner>,
    pub named_tlss: StrMap<ListenerInner>,
    pub tcps: HashMap<Port, Listener>,
    pub tlss: HashMap<Port, Listener>,
}

/// The settings of one listener, shared by all who serve its connections.
#[derive(Debug, PartialEq, Eq)]
pub struct Listener {
    pub inner: ListenerInner,
}

/// The settings of one listener.
#[derive(Debug, PartialEq, Eq)]
pub struct ListenerInner {
    pub name: String,
    pub addr: SocketAddress,
    pub workers: usize,
    pub max_connections: usize,
    pub max_handshaking_limit: usize,
    pub max_packet_size: usize,
    pub backlog: i32,
    pub idle_timeout_millis: u64,
    pub allow_anonymous: bool,
    pub min_keepalive: u16,
    /// The part of the keep-alive interval after which a silent client is
    /// given up, as a fraction.
    pub keepalive_backoff: (u32, u32),
    pub max_inflight: usize,
    pub handshake_timeout_millis: u64,
    pub max_mqueue_len: usize,
    /// How many messages may leave the queue in how many milliseconds.
    pub mqueue_rate_limit: (u32, u64),
    pub max_clientid_len: usize,
    pub max_qos_allowed: QoS,
    pub max_topic_levels: usize,
    pub retain_available: bool,
    pub session_expiry_interval_millis: u64,
    pub message_retry_interval_millis: u64,
    pub message_expiry_interval_millis: u64,
    pub max_awaiting_rel: usize,
    pub await_rel_timeout_millis: u64,
    pub max_subscriptions: usize,
    pub shared_subscription: bool,
    pub cert: Option<String>,
    pub key: Option<String>,
}

fn clone_opt_text(s: &Option<String>) -> (r: Option<String>)
    ensures
        r == *s,
{
    match s {
        Some(t) => Some(t.clone()),
        None => None,
    }
}

impl Clone for ListenerInner {
    fn clone(&self) -> (r: ListenerInner)
        ensures
            r == *self,
    {
        ListenerInner {
            name: self.name.clone(),
            addr: self.addr.clone(),
            workers: self.workers,
            max_connections: self.max_connections,
            max_handshaking_limit: self.max_handshaking_limit,
            max_packet_size: self.max_packet_size,
            backlog: self.backlog,
            idle_timeout_millis: self.idle_timeout_millis,
            allow_anonymous: self.allow_anonymous,
            min_keepalive: self.min_keepalive,
            keepalive_backoff: self.keepalive_backoff,
            max_inflight: self.max_inflight,
            handshake_timeout_millis: self.handshake_timeout_millis,
            max_mqueue_len: self.max_mqueue_len,
            mqueue_rate_limit: self.mqueue_rate_limit,
            max_clientid_len: self.max_clientid_len,
            max_qos_allowed: self.max_qos_allowed,
            max_topic_levels: self.max_topic_levels,
            retain_available: self.retain_available,
            session_expiry_interval_millis: self.session_expiry_interval_millis,
            message_retry_interval_millis: self.message_retry_interval_millis,
            message_expiry_interval_millis: self.message_expiry_interval_millis,
            max_awaiting_rel: self.max_awaiting_rel,
            await_rel_timeout_millis: self.await_rel_timeout_millis,
            max_subscriptions: self.max_subscriptions,
            shared_subscription: self.shared_subscription,
            cert: clone_opt_text(&self.cert),
            key: clone_opt_text(&self.key),
        }
    }
}

impl Clone for Listener {
    fn clone(&self) -> (r: Listener)
        ensures
            r == *self,
    {
        Listener { inner: self.inner.clone() }
    }
}

impl Listener {
    pub open spec fn settings(&self) -> ListenerInner {
        self.inner
    }

    pub fn new(inner: ListenerInner) -> (r: Listener)
        ensures
            r.settings() == inner,
    {
        Listener { inner }
    }

    /// The settings the listener stands for.
    pub fn deref(&self) -> (r: &ListenerInner)
        ensures
            *r == self.settings(),
    {
        &self.inner
    }
}

impl Default for Listener {
    fn default() -> (r: Listener)
        ensures
            r.settings().is_default(),
    {
        Listener { inner: ListenerInner::default() }
    }
}

impl Default for ListenerInner {
    fn default() -> (r: ListenerInner)
        ensures
            r.is_default(),
    {
        proof {
            reveal_strlit("external");
            reveal_strlit("0.0.0.0");
        }
        ListenerInner {
            name: String::from_str("external"),
            addr: ListenerInner::addr_default(),
            workers: ListenerInner::workers_default(),
            max_connections: ListenerInner::max_connections_default(),
            max_handshaking_limit: ListenerInner::max_handshaking_limit_default(),
            max_packet_size: ListenerInner::max_packet_size_default(),
            backlog: ListenerInner::backlog_default(),
            idle_timeout_millis: ListenerInner::idle_timeout_default(),
            allow_anonymous: ListenerInner::allow_anonymous_default(),
            min_keepalive: ListenerInner::min_keepalive_default(),
            keepalive_backoff: ListenerInner::keepalive_backoff_default(),
            max_inflight: ListenerInner::max_inflight_default(),
            handshake_timeout_millis: ListenerInner::handshake_timeout_default(),
            max_mqueue_len: ListenerInner::max_mqueue_len_default(),
            mqueue_rate_limit: ListenerInner::mqueue_rate_limit_default(),
            max_clientid_len: ListenerInner::max_clientid_len_default(),
            max_qos_allowed: ListenerInner::max_qos_allowed_default(),
            max_topic_levels: ListenerInner::max_topic_levels_default(),
            retain_available: ListenerInner::retain_available_default(),
            session_expiry_interval_millis: ListenerInner::session_expiry_interval_default(),
            message_retry_interval_millis: ListenerInner::message_retry_interval_default(),
            message_expiry_interval_millis: ListenerInner::message_expiry_interval_default(),
            max_awaiting_rel: ListenerInner::max_awaiting_rel_default(),
            await_rel_timeout_millis: ListenerInner::await_rel_timeout_default(),
            max_subscriptions: ListenerInner::max_subscriptions_default(),
            shared_subscription: ListenerInner::shared_subscription_default(),
            cert: None,
            key: None,
        }
    }
}

impl ListenerInner {
    /// The settings of a listener of which nothing was set: plain TCP on
    /// port 1883 of every interface, under the name `external`.
    pub open spec fn is_default(&self) -> bool {
        &&& self.name@ == "external"@
        &&& self.addr.ip@ == "0.0.0.0"@
        &&& self.addr.port == 1883
        &&& self.workers == 8
        &&& self.max_connections == 1024000
        &&& self.max_handshaking_limit == 500
        &&& self.max_packet_size == 1024 * 1024
        &&& self.backlog == 1024
        &&& self.idle_timeout_millis == 15_000
        &&& self.allow_anonymous
        &&& self.min_keepalive == 0
        &&& self.keepalive_backoff == (3u32, 4u32)
        &&& self.max_inflight == 16
        &&& self.handshake_timeout_millis == 15_000
        &&& self.max_mqueue_len == 1000
        &&& self.mqueue_rate_limit == (u32::MAX, 1000u64)
        &&& self.max_clientid_len == 65535
        &&& self.max_qos_allowed == QoS::ExactlyOnce
        &&& self.max_topic_levels == 0
        &&& self.retain_available
        &&& self.session_expiry_interval_millis == 7_200_000
        &&& self.message_retry_interval_millis == 30_000
        &&& self.message_expiry_interval_millis == 30_000
        &&& self.max_awaiting_rel == 100
        &&& self.await_rel_timeout_millis == 300_000
        &&& self.max_subscriptions == 0
        &&& self.shared_subscription
        &&& self.cert is None
        &&& self.key is None
    }

    pub fn addr_default() -> (r: SocketAddress)
        ensures
            r.ip@ == "0.0.0.0"@,
            r.port == 1883,
    {
        SocketAddress { ip: String::from_str("0.0.0.0"), port: 1883 }
    }

    pub fn workers_default() -> (r: usize)
        ensures
            r == 8,
    {
        8
    }

    pub fn max_connections_default() -> (r: usize)
        ensures
            r == 1024000,
    {
        1024000
    }

    pub fn max_handshaking_limit_default() -> (r: usize)
        ensures
            r == 500,
    {
        500
    }

    /// One mebibyte.
    pub fn max_packet_size_default() -> (r: usize)
        ensures
            r == 1024 * 1024,
    {
        1048576
    }

    pub fn backlog_default() -> (r: i32)
        ensures
            r == 1024,
    {
        1024
    }

    /// Fifteen seconds.
    pub fn idle_timeout_default() -> (r: u64)
        ensures
            r == 15_000,
    {
        15_000
    }

    pub fn allow_anonymous_default() -> (r: bool)
        ensures
            r,
    {
        true
    }

    pub fn min_keepalive_default() -> (r: u16)
        ensures
            r == 0,
    {
        0
    }

    /// Three quarters.
    pub fn keepalive_backoff_default() -> (r: (u32, u32))
        ensures
            r == (3u32, 4u32),
    {
        (3, 4)
    }

    pub fn max_inflight_default() -> (r: usize)
        ensures
            r == 16,
    {
        16
    }

    /// Fifteen seconds.
    pub fn handshake_timeout_default() -> (r: u64)
        ensures
            r == 15_000,
    {
        15_000
    }

    pub fn max_mqueue_len_default() -> (r: usize)
        ensures
            r == 1000,
    {
        1000
    }

    /// As many messages as can be counted, each second.
    pub fn mqueue_rate_limit_default() -> (r: (u32, u64))
        ensures
            r == (u32::MAX, 1000u64),
    {
        (u32::MAX, 1000)
    }

    pub fn max_clientid_len_default() -> (r: usize)
        ensures
            r == 65535,
    {
        65535
    }

    pub fn max_qos_allowed_default() -> (r: QoS)
        ensures
            r == QoS::ExactlyOnce,
    {
        QoS::ExactlyOnce
    }

    /// Zero: no limit.
    pub fn max_topic_levels_default() -> (r: usize)
        ensures
            r == 0,
    {
        0
    }

    pub fn retain_available_default() -> (r: bool)
        ensures
            r,
    {
        true
    }

    /// Two hours.
    pub fn session_expiry_interval_default() -> (r: u64)
        ensures
            r == 7_200_000,
    {
        7_200_000
    }

    /// Thirty seconds.
    pub fn message_retry_interval_default() -> (r: u64)
        ensures
            r == 30_000,
    {
        30_000
    }

    /// Thirty seconds.
    pub fn message_expiry_interval_default() -> (r: u64)
        ensures
            r == 30_000,
    {
        30_000
    }

    pub fn max_awaiting_rel_default() -> (r: usize)
        ensures
            r == 100,
    {
        100
    }

    /// Five minutes.
    pub fn await_rel_timeout_default() -> (r: u64)
        ensures
            r == 300_000,
    {
        300_000
    }

    /// Zero: no limit.
    pub fn max_subscriptions_default() -> (r: usize)
        ensures
            r == 0,
    {
        0
    }

    pub fn shared_subscription_default() -> (r: bool)
        ensures
            r,
    {
        true
    }

    /// The time allowed for a handshake in milliseconds, at most 65535.
    pub open spec fn spec_handshake_timeout(&self) -> u16 {
        if self.handshake_timeout_millis > 0xffff {
            0xffff
        } else {
            self.handshake_timeout_millis as u16
        }
    }

    pub fn handshake_timeout(&self) -> (r: u16)
        ensures
            r == self.spec_handshake_timeout(),
    {
        let millis = self.handshake_timeout_millis;
        if millis > 0xffff {
            0xffff
        } else {
            millis as u16
        }
    }

    /// The highest guarantee a listener grants, from its number in the
    /// settings. Only 0, 1 and 2 are numbers of a guarantee.
    pub fn deserialize_max_qos_allowed(level: u8) -> (r: Result<QoS, String>)
        ensures
            match r {
                Ok(q) => level <= 2 && q.level() == level as int,
                Err(e) => level > 2 && e@
                    == "QoS configuration error, only values (0,1,2) are supported"@,
            },
    {
        match QoS::from_level(level) {
            Some(q) => Ok(q),
            None => Err(
                String::from_str("QoS configuration error, only values (0,1,2) are supported"),
            ),
        }
    }

    /// The rate limit of the message queue from its parts in the settings:
    /// the number of messages as a text, and the time they may take. The
    /// number is a positive whole number that fits 32 bits, the time is
    /// not zero.
    pub fn deserialize_mqueue_rate_limit(burst: &str, replenish_millis: u64) -> (r: Result<
        (u32, u64),
        RateLimitError,
    >)
        ensures
            match r {
                Ok(v) => v.0 > 0 && v.1 == replenish_millis && replenish_millis > 0
                    && parsed_u32(burst@) == Some(v.0),
                Err(RateLimitError::Burst) => parsed_u32(burst@) is None || parsed_u32(burst@)
                    == Some(0u32),
                Err(RateLimitError::Value) => replenish_millis == 0 && parsed_u32(burst@) is Some
                    && parsed_u32(burst@) != Some(0u32),
            },
    {
        match parse_u32(burst) {
            Some(n) => {
                if n == 0 {
                    Err(RateLimitError::Burst)
                } else if replenish_millis == 0 {
                    Err(RateLimitError::Value)
                } else {
                    Ok((n, replenish_millis))
                }
            },
            None => Err(RateLimitError::Burst),
        }
    }
}

/// Why a rate limit in the settings is refused.
#[derive(Clone, Copy, Debug, PartialEq, Eq, Structural)]
pub enum RateLimitError {
    /// The number of messages is no positive number of 32 bits.
    Burst,
    /// The time is zero, or the setting has not two parts.
    Value,
}

/// Whether a character is a decimal digit.
pub open spec fn is_digit(c: char) -> bool {
    '0' <= c <= '9'
}

/// Whether a text holds decimal digits only.
pub open spec fn all_digits(text: Seq<char>) -> bool {
    forall|i: int| 0 <= i < text.len() ==> is_digit(#[trigger] text[i])
}

/// The number a run of decimal digits writes.
pub open spec fn digits_value(digits: Seq<char>) -> nat
    decreases digits.len(),
{
    if digits.len() == 0 {
        0
    } else {
        digits_value(digits.drop_last()) * 10 + (digits.last() as nat - '0' as nat) as nat
    }
}

/// The number that a text writes in decimal, if it is one that fits 32
/// bits: one digit at least and digits only, after a `+` or after
/// nothing.
pub open spec fn parsed_u32(text: Seq<char>) -> Option<u32> {
    let digits = if text.len() > 0 && text[0] == '+' {
        text.skip(1)
    } else {
        text
    };
    if digits.len() > 0 && all_digits(digits) && digits_value(digits) <= u32::MAX {
        Some(digits_value(digits) as u32)
    } else {
        None
    }
}

/// A run of digits writes a number no smaller than any of its beginnings.
proof fn lemma_digits_value_grows(digits: Seq<char>, n: int)
    requires
        0 <= n <= digits.len(),
    ensures
        digits_value(digits.take(n)) <= digits_value(digits),
    decreases digits.len() - n,
{
    if n == digits.len() {
        assert(digits.take(n) =~= digits);
    } else {
        lemma_digits_value_grows(digits, n + 1);
        assert(digits.take(n + 1).drop_last() =~= digits.take(n));
    }
}

/// Reads a number of 32 bits from a text in decimal.
pub fn parse_u32(text: &str) -> (r: Option<u32>)
    ensures
        r == parsed_u32(text@),
{
    let n = text.unicode_len();
    let start: usize = if n > 0 && text.get_char(0) == '+' {
        1
    } else {
        0
    };
    let ghost digits = if text@.len() > 0 && text@[0] == '+' {
        text@.skip(1)
    } else {
        text@
    };
    proof {
        assert(text@.skip(0) =~= text@);
    }
    if start == n {
        return None;
    }
    let mut acc: u64 = 0;
    let mut i: usize = start;
    while i < n
        invariant
            start <= i <= n,
            n == text@.len(),
            start <= 1,
            digits == text@.skip(start as int),
            digits == (if text@.len() > 0 && text@[0] == '+' {
                text@.skip(1)
            } else {
                text@
            }),
            forall|j: int| 0 <= j < i - start ==> is_digit(#[trigger] digits[j]),
            acc == digits_value(digits.take(i - start)),
            acc <= u32::MAX,
        decreases n - i,
    {
        let c = text.get_char(i);
        proof {
            assert(digits[i - start] == c);
            assert(digits.take(i - start + 1).drop_last() =~= digits.take(i - start));
            assert(digits.take(i - start + 1).last() == c);
        }
        if c < '0' || c > '9' {
            proof {
                let k: int = i - start;
                assert(0 <= k < digits.len());
                assert(!is_digit(digits[k]));
                assert(!all_digits(digits));
            }
            return None;
        }
        let d: u64 = (c as u32 - '0' as u32) as u64;
        assert(d == (c as nat - '0' as nat) as nat);
        acc = acc * 10 + d;
        assert(acc == digits_value(digits.take(i - start + 1)));
        if acc > u32::MAX as u64 {
            proof {
                lemma_digits_value_grows(digits, i - start + 1);
            }
            return None;
        }
        i = i + 1;
    }
    proof {
        assert(digits.take(n - start) =~= digits);
    }
    Some(acc as u32)
}

/// Number of commas in a text.
pub open spec fn commas(text: Seq<char>) -> nat
    decreases text.len(),
{
    if text.len() == 0 {
        0
    } else {
        commas(text.drop_last()) + if text.last() == ',' {
            1nat
        } else {
            0nat
        }
    }
}

/// Position of the first comma of a text, or its length.
pub open spec fn first_comma(text: Seq<char>) -> int
    decreases text.len(),
{
    if text.len() == 0 {
        0
    } else if text[0] == ',' {
        0
    } else {
        1 + first_comma(text.skip(1))
    }
}

proof fn lemma_first_comma(text: Seq<char>, i: int)
    requires
        0 <= i <= text.len(),
        forall|j: int| 0 <= j < i ==> text[j] != ',',
        i < text.len() ==> text[i] == ',',
    ensures
        first_comma(text) == i,
    decreases text.len(),
{
    if text.len() > 0 && i > 0 {
        assert forall|j: int| 0 <= j < i - 1 implies text.skip(1)[j] != ',' by {
            assert(text.skip(1)[j] == text[j + 1]);
        }
        lemma_first_comma(text.skip(1), i - 1);
    }
}

/// The two parts of a rate limit as the settings write it, `burst,time`:
/// what stands before the one comma and what stands after it. A text with
/// no comma, or with more than one, has not two parts.
pub fn mqueue_rate_limit_parts(v: &str) -> (r: Result<(&str, &str), RateLimitError>)
    ensures
        match r {
            Ok(parts) => commas(v@) == 1 && parts.0@ == v@.take(first_comma(v@)) && parts.1@
                == v@.skip(first_comma(v@) + 1),
            Err(e) => commas(v@) != 1 && e == RateLimitError::Value,
        },
{
    let n = v.unicode_len();
    let mut count: usize = 0;
    let mut at: usize = n;
    let mut i: usize = 0;
    while i < n
        invariant
            i <= n,
            n == v@.len(),
            count == commas(v@.take(i as int)),
            count <= i,
            count == 0 ==> at == n && forall|j: int| 0 <= j < i ==> v@[j] != ',',
            count > 0 ==> at < i && v@[at as int] == ',' && forall|j: int|
                0 <= j < at ==> v@[j] != ',',
        decreases n - i,
    {
        let c = v.get_char(i);
        proof {
            assert(v@.take(i + 1).drop_last() =~= v@.take(i as int));
            assert(v@.take(i + 1).last() == c);
        }
        if c == ',' {
            if count == 0 {
                at = i;
            }
            count = count + 1;
        }
        i = i + 1;
    }
    proof {
        assert(v@.take(n as int) =~= v@);
    }
    if count == 1 {
        proof {
            lemma_first_comma(v@, at as int);
        }
        Ok((v.substring_char(0, at), v.substring_char(at + 1, n)))
    } else {
        Err(RateLimitError::Value)
    }
}

/// The settings `named` under the name `name`.
pub open spec fn renamed(listener: Listener, named: ListenerInner, name: Seq<char>) -> bool {
    &&& listener.inner.name@ == name
    &&& listener.inner == (ListenerInner { name: listener.inner.name, ..named })
}

/// What a map by port holds at `port` once the named listeners up to
/// position `upto` were added to `before`, one after the other: the last
/// of them on that port, under its name, else what was there before.
pub open spec fn port_entry(
    before: Map<Port, Listener>,
    after: Map<Port, Listener>,
    names: Seq<Seq<char>>,
    named: Seq<ListenerInner>,
    upto: int,
    port: Port,
) -> bool {
    if exists|j: int| 0 <= j < upto && (#[trigger] named[j]).addr.port == port {
        &&& after.contains_key(port)
        &&& exists|j: int|
            {
                &&& 0 <= j < upto
                &&& (#[trigger] named[j]).addr.port == port
                &&& renamed(after[port], named[j], names[j])
                &&& forall|k: int| j < k < upto ==> (#[trigger] named[k]).addr.port != port
            }
    } else {
        &&& after.contains_key(port) == before.contains_key(port)
        &&& before.contains_key(port) ==> after[port] == before[port]
    }
}

/// Adds the named listeners to a map by port, each under its own port and
/// with its name written into its settings.
fn add_by_port(named: &StrMap<ListenerInner>, by_port: &mut HashMap<Port, Listener>)
    requires
        named.wf(),
    ensures
        forall|port: Port|
            port_entry(
                old(by_port)@,
                final(by_port)@,
                named.keys(),
                named.values(),
                named.count() as int,
                port,
            ),
{
    let ghost before = by_port@;
    let ghost names = named.keys();
    let ghost values = named.values();
    proof {
        named.lemma_keys_values();
    }
    let mut i: usize = 0;
    while i < named.len()
        invariant
            named.wf(),
            i <= named.count(),
            names == named.keys(),
            values == named.values(),
            names.len() == named.count(),
            values.len() == named.count(),
            forall|port: Port| port_entry(before, by_port@, names, values, i as int, port),
        decreases named.count() - i,
    {
        let (name, inner) = named.at(i);
        let mut copy = inner.clone();
        copy.name = name.clone();
        let port = copy.addr.port;
        let ghost prev = by_port@;
        let listener = Listener::new(copy);
        by_port.insert(port, listener);
        proof {
            assert(values[i as int] == *inner);
            assert(renamed(by_port@[port], values[i as int], names[i as int]));
            let n1: int = i + 1;
            assert forall|p: Port| port_entry(before, by_port@, names, values, n1, p) by {
                assert(port_entry(before, prev, names, values, i as int, p));
                if p == port {
                    assert(values[i as int].addr.port == p);
                } else {
                    assert(by_port@.contains_key(p) == prev.contains_key(p));
                    if exists|j: int| 0 <= j < i && (#[trigger] values[j]).addr.port == p {
                        let j = choose|j: int|
                            {
                                &&& 0 <= j < i
                                &&& (#[trigger] values[j]).addr.port == p
                                &&& renamed(prev[p], values[j], names[j])
                                &&& forall|k: int|
                                    j < k < i ==> (#[trigger] values[k]).addr.port != p
                            };
                        assert(renamed(by_port@[p], values[j], names[j]));
                        assert forall|k: int| j < k < n1 implies (#[trigger] values[k]).addr.port
                            != p by {}
                    } else {
                        assert forall|j: int| 0 <= j < n1 implies (#[trigger] values[j]).addr.port
                            != p by {}
                    }
                }
            }
        }
        i = i + 1;
    }
}

impl Listeners {
    /// Files the named listeners by the port each listens on; the name
    /// goes into the settings. Of two listeners of one kind on one port
    /// the one named later in the settings stays. Then no named listener
    /// is left to file.
    pub fn init(&mut self)
        requires
            old(self).wf(),
        ensures
            final(self).wf(),
            final(self).named_tcps.count() == 0,
            final(self).named_tlss.count() == 0,
            forall|port: Port|
                port_entry(
                    old(self).tcps@,
                    final(self).tcps@,
                    old(self).named_tcps.keys(),
                    old(self).named_tcps.values(),
                    old(self).named_tcps.count() as int,
                    port,
                ),
            forall|port: Port|
                port_entry(
                    old(self).tlss@,
                    final(self).tlss@,
                    old(self).named_tlss.keys(),
                    old(self).named_tlss.values(),
                    old(self).named_tlss.count() as int,
                    port,
                ),
    {
        add_by_port(&self.named_tcps, &mut self.tcps);
        add_by_port(&self.named_tlss, &mut self.tlss);
        self.named_tcps = StrMap::new();
        self.named_tlss = StrMap::new();
    }

    /// The invariant of the listeners.
    pub open spec fn wf(&self) -> bool {
        self.named_tcps.wf() && self.named_tlss.wf()
    }

    /// No listener at all.
    pub fn new() -> (r: Listeners)
        ensures
            r.wf(),
            r.tcps@ == Map::<Port, Listener>::empty(),
            r.tlss@ == Map::<Port, Listener>::empty(),
            r.named_tcps.count() == 0,
            r.named_tlss.count() == 0,
    {
        Listeners {
            named_tcps: StrMap::new(),
            named_tlss: StrMap::new(),
            tcps: HashMap::new(),
            tlss: HashMap::new(),
        }
    }

    /// Adds a plain listener as the settings name it.
    pub fn add_tcp(&mut self, name: String, inner: ListenerInner)
        requires
            old(self).wf(),
        ensures
            final(self).wf(),
            final(self).named_tcps@ == old(self).named_tcps@.insert(name@, inner),
            final(self).named_tlss == old(self).named_tlss,
            final(self).tcps == old(self).tcps,
            final(self).tlss == old(self).tlss,
    {
        self.named_tcps.insert(name, inner);
    }

    /// Adds a TLS listener as the settings name it.
    pub fn add_tls(&mut self, name: String, inner: ListenerInner)
        requires
            old(self).wf(),
        ensures
            final(self).wf(),
            final(self).named_tlss@ == old(self).named_tlss@.insert(name@, inner),
            final(self).named_tcps == old(self).named_tcps,
            final(self).tcps == old(self).tcps,
            final(self).tlss == old(self).tlss,
    {
        self.named_tlss.insert(name, inner);
    }

    /// The plain listener on a port.
    pub fn tcp(&self, port: u16) -> (r: Option<Listener>)
        ensures
            r == if self.tcps@.contains_key(port) {
                Some(self.tcps@[port])
            } else {
                None
            },
    {
        match self.tcps.get(&port) {
            Some(l) => Some(l.clone()),
            None => None,
        }
    }

    /// The TLS listener on a port.
    pub fn tls(&self, port: u16) -> (r: Option<Listener>)
        ensures
            r == if self.tlss@.contains_key(port) {
                Some(self.tlss@[port])
            } else {
                None
            },
    {
        match self.tlss.get(&port) {
            Some(l) => Some(l.clone()),
            None => None,
        }
    }

    /// The listener on a port: the plain one, else the TLS one.
    pub fn get(&self, port: u16) -> (r: Option<Listener>)
        ensures
            r == if self.tcps@.contains_key(port) {
                Some(self.tcps@[port])
            } else if self.tlss@.contains_key(port) {
                Some(self.tlss@[port])
            } else {
                None
            },
    {
        match self.tcp(port) {
            Some(l) => Some(l),
            None => self.tls(port),
        }
    }

    /// Adds the plain listener that serves where the settings name none.
    pub fn set_default(&mut self)
        ensures
            final(self).tcps@.contains_key(1883),
            final(self).tcps@[1883].settings().is_default(),
            final(self).tcps@ == old(self).tcps@.insert(1883, final(self).tcps@[1883]),
            final(self).tlss == old(self).tlss,
    {
        let inner = Listener::default();
        let port = inner.inner.addr.port;
        self.tcps.insert(port, inner);
    }
}

} // verus!
