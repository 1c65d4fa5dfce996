//! Authentication and access control by an HTTP service: what is asked of
//! the service, what of its answers is remembered, and what the answers
//! mean for a connection.

use vstd::prelude::*;
use crate::broker::v5::SubscribeAckReason;
use crate::collections::StrMap;
use crate::types::{QoS, TopicName};

verus! {

/// The body by which the service says that it has no opinion.
pub const IGNORE: &'static str = "ignore";

/// For what access the service is asked.
#[derive(Clone, Copy, Debug, PartialEq, Eq, Hash, Structural)]
pub enum ACLType {
    Sub,
    Pub,
}

impl ACLType {
    /// The number under which the service knows the kind of access.
    pub fn as_str(&self) -> (r: &'static str)
        ensures
            r@ == match *self {
                ACLType::Sub => "1"@,
                ACLType::Pub => "2"@,
            },
    {
        match self {
            ACLType::Sub => "1",
            ACLType::Pub => "2",
        }
    }
}

/// `text` with every occurrence of `from` replaced by `to`, the
/// occurrences taken from the left and never overlapping.
pub open spec fn replaced(text: Seq<char>, from: Seq<char>, to: Seq<char>) -> Seq<char>
    recommends
        from.len() > 0,
    decreases text.len(),
{
    if from.len() == 0 || text.len() < from.len() {
        text
    } else if text.take(from.len() as int) == from {
        to + replaced(text.skip(from.len() as int), from, to)
    } else {
        seq![text[0]] + replaced(text.skip(1), from, to)
    }
}

/// `str::replace` of std with a text as the pattern: a new text in which
/// every match of the pattern, found from the left, is replaced.
#[verifier::external_body]
fn replace(text: &str, from: &str, to: &str) -> (r: String)
    requires
        from@.len() > 0,
    ensures
        r@ == replaced(text@, from@, to@),
{
    text.replace(from, to)
}

/// What the placeholders of a request stand for.
#[derive(Debug, PartialEq, Eq)]
pub struct Substitutes {
    /// `%u`
    pub username: String,
    /// `%c`
    pub client_id: String,
    /// `%a`
    pub remote_addr: String,
    /// `%P`
    pub password: String,
    /// `%A` and `%t`; both empty where no access is asked about.
    pub sub_or_pub: Option<(ACLType, TopicName)>,
}

/// A parameter with its placeholders filled in.
pub open spec fn filled(v: Seq<char>, s: Substitutes) -> Seq<char> {
    let v1 = replaced(v, "%u"@, s.username@);
    let v2 = replaced(v1, "%c"@, s.client_id@);
    let v3 = replaced(v2, "%a"@, s.remote_addr@);
    let v4 = replaced(v3, "%r"@, "mqtt"@);
    let v5 = replaced(v4, "%P"@, s.password@);
    match s.sub_or_pub {
        Some((acl, topic)) => replaced(
            replaced(
                v5,
                "%A"@,
                match acl {
                    ACLType::Sub => "1"@,
                    ACLType::Pub => "2"@,
                },
            ),
            "%t"@,
            topic@,
        ),
        None => replaced(replaced(v5, "%A"@, ""@), "%t"@, ""@),
    }
}

/// Fills in the placeholders of one parameter.
pub fn fill(v: &str, s: &Substitutes) -> (r: String)
    ensures
        r@ == filled(v@, *s),
{
    proof {
        reveal_strlit("%u");
        reveal_strlit("%c");
        reveal_strlit("%a");
        reveal_strlit("%r");
        reveal_strlit("%P");
        reveal_strlit("%A");
        reveal_strlit("%t");
    }
    let v1 = replace(v, "%u", s.username.as_str());
    let v2 = replace(v1.as_str(), "%c", s.client_id.as_str());
    let v3 = replace(v2.as_str(), "%a", s.remote_addr.as_str());
    let v4 = replace(v3.as_str(), "%r", "mqtt");
    let v5 = replace(v4.as_str(), "%P", s.password.as_str());
    match &s.sub_or_pub {
        Some((acl, topic)) => {
            let v6 = replace(v5.as_str(), "%A", acl.as_str());
            replace(v6.as_str(), "%t", topic.as_str())
        },
        None => {
            let v6 = replace(v5.as_str(), "%A", "");
            replace(v6.as_str(), "%t", "")
        },
    }
}

/// Fills in the placeholders of every parameter of a request.
pub fn replaces(params: &mut Vec<(String, String)>, s: &Substitutes)
    ensures
        final(params)@.len() == old(params)@.len(),
        forall|i: int|
            0 <= i < old(params)@.len() ==> {
                &&& (#[trigger] final(params)@[i]).0 == old(params)@[i].0
                &&& final(params)@[i].1@ == filled(old(params)@[i].1@, *s)
            },
{
    let ghost before = params@;
    let mut i: usize = 0;
    while i < params.len()
        invariant
            i <= params@.len(),
            params@.len() == before.len(),
            forall|j: int|
                0 <= j < i ==> {
                    &&& (#[trigger] params@[j]).0 == before[j].0
                    &&& params@[j].1@ == filled(before[j].1@, *s)
                },
            forall|j: int| i <= j < params@.len() ==> #[trigger] params@[j] == before[j],
        decreases params@.len() - i,
    {
        let value = fill(params[i].1.as_str(), s);
        let entry = params.remove(i);
        params.insert(i, (entry.0, value));
        i = i + 1;
    }
}

/// What is remembered of a service's answer: for which path, and for
/// which access to which topic.
#[derive(Debug, PartialEq, Eq)]
pub struct CacheItem(pub String, pub Option<(ACLType, TopicName)>);

impl CacheItem {
    /// Whether two items speak of the same question.
    pub open spec fn same(self, other: CacheItem) -> bool {
        &&& self.0@ == other.0@
        &&& match (self.1, other.1) {
            (Some(a), Some(b)) => a.0 == b.0 && a.1@ == b.1@,
            (None, None) => true,
            _ => false,
        }
    }

    pub fn is_same(&self, other: &CacheItem) -> (r: bool)
        ensures
            r == self.same(*other),
    {
        self.0 == other.0 && match (&self.1, &other.1) {
            (Some(a), Some(b)) => a.0 == b.0 && a.1 == b.1,
            (None, None) => true,
            _ => false,
        }
    }
}

/// What is remembered of one connection: whether it is a superuser, and
/// the questions on which the service had no opinion.
#[derive(Debug, PartialEq, Eq)]
pub struct CacheValue {
    pub is_super: bool,
    pub ignores: Vec<CacheItem>,
}

impl CacheValue {
    pub fn new() -> (r: CacheValue)
        ensures
            !r.is_super,
            r.ignores@.len() == 0,
    {
        CacheValue { is_super: false, ignores: Vec::new() }
    }

    /// Whether the service had no opinion on a question before.
    pub open spec fn ignored(&self, key: CacheItem) -> bool {
        exists|i: int| 0 <= i < self.ignores@.len() && (#[trigger] self.ignores@[i]).same(key)
    }

    pub fn ignores_contains(&self, key: &CacheItem) -> (r: bool)
        ensures
            r == self.ignored(*key),
    {
        let mut i: usize = 0;
        while i < self.ignores.len()
            invariant
                i <= self.ignores@.len(),
                forall|j: int| 0 <= j < i ==> !(#[trigger] self.ignores@[j]).same(*key),
            decreases self.ignores@.len() - i,
        {
            if self.ignores[i].is_same(key) {
                return true;
            }
            i = i + 1;
        }
        false
    }
}

/// Whether a question is answered from what is remembered, and allowed:
/// a superuser is allowed everything, and a question on which the service
/// had no opinion is allowed again.
pub fn allowed_by_cache(cached: Option<&CacheValue>, key: &CacheItem) -> (r: bool)
    ensures
        r == match cached {
            Some(c) => c.is_super || c.ignored(*key),
            None => false,
        },
{
    match cached {
        Some(c) => c.is_super || c.ignores_contains(key),
        None => false,
    }
}

/// How a request goes to the service.
#[derive(Clone, Copy, Debug, PartialEq, Eq, Structural)]
pub enum RequestKind {
    /// GET, the parameters in the query.
    Get,
    /// The parameters as a JSON body.
    Json,
    /// The parameters as a form.
    Form,
}

pub fn request_kind(is_get: bool, json_body: bool) -> (r: RequestKind)
    ensures
        r == if is_get {
            RequestKind::Get
        } else if json_body {
            RequestKind::Json
        } else {
            RequestKind::Form
        },
{
    if is_get {
        RequestKind::Get
    } else if json_body {
        RequestKind::Json
    } else {
        RequestKind::Form
    }
}

/// Notes the answer of the service. Where the service allows and its body
/// is `ignore`, the connection is remembered as a superuser, if that was
/// the question, else the question is remembered, if it was about an
/// access. Returns whether the service allows.
pub fn note_answer(
    cached: &mut CacheValue,
    allow: bool,
    body: &String,
    check_super: bool,
    key: CacheItem,
) -> (r: bool)
    ensures
        r == allow,
        ({
            let ignore = allow && body@ == IGNORE@;
            &&& final(cached).is_super == (old(cached).is_super || (ignore && check_super))
            &&& final(cached).ignores@ == if ignore && !check_super && key.1 is Some {
                old(cached).ignores@.push(key)
            } else {
                old(cached).ignores@
            }
        }),
{
    let ignore = String::from_str(IGNORE);
    if allow && *body == ignore {
        if check_super {
            cached.is_super = true;
        } else if key.1.is_some() {
            cached.ignores.push(key);
        }
    }
    allow
}

/// What a question comes to: without a service to ask, yes; with one, its
/// answer, and no where it could not be asked.
pub fn answer<E>(configured: bool, outcome: Option<Result<bool, E>>) -> (r: bool)
    requires
        configured == outcome is Some,
    ensures
        r == match outcome {
            None => true,
            Some(Ok(allow)) => allow,
            Some(Err(_)) => false,
        },
{
    match outcome {
        None => true,
        Some(Ok(allow)) => allow,
        Some(Err(_)) => false,
    }
}

/// What a check of a connection's name and password says.
#[derive(Clone, Copy, Debug, PartialEq, Eq, Structural)]
pub enum AuthResult {
    Allow,
    NotFound,
    BadUsernameOrPassword,
    NotAuthorized,
}

/// What a check of a publish says: allowed, or rejected, and whether the
/// connection is then closed.
#[derive(Clone, Copy, Debug, PartialEq, Eq, Structural)]
pub enum PublishAclResult {
    Allow,
    Rejected(bool),
}

/// What a check of a subscription says.
#[derive(Clone, Copy, Debug, PartialEq, Eq, Structural)]
pub enum SubscribeAclResult {
    Success(QoS),
    Failure(SubscribeAckReason),
}

/// What the handlers of a hook hand from one to the next.
#[derive(Clone, Copy, Debug, PartialEq, Eq, Structural)]
pub enum HookResult {
    AuthResult(AuthResult),
    SubscribeAclResult(SubscribeAclResult),
    PublishAclResult(PublishAclResult),
}

/// Whether the next handler is asked, and what it is handed.
pub type ReturnType = (bool, Option<HookResult>);

/// Whether an earlier handler has refused the connection already: then
/// no one is asked any more.
pub fn authenticate_settled(acc: Option<HookResult>) -> (r: bool)
    ensures
        r == (acc == Some(HookResult::AuthResult(AuthResult::BadUsernameOrPassword)) || acc
            == Some(HookResult::AuthResult(AuthResult::NotAuthorized))),
{
    match acc {
        Some(HookResult::AuthResult(AuthResult::BadUsernameOrPassword)) => true,
        Some(HookResult::AuthResult(AuthResult::NotAuthorized)) => true,
        _ => false,
    }
}

/// What the check of a connection comes to. A superuser is allowed, and
/// so is a connection whose name and password the service accepts; the
/// next handler is asked about them unless the settings end the chain at
/// the first allowance. A connection the service does not accept is
/// refused, and no one else is asked. `auth_ok` is `None` for a superuser,
/// of whom the service is not asked twice.
pub fn client_authenticate(
    acc: Option<HookResult>,
    is_super: bool,
    auth_ok: Option<bool>,
    break_if_allow: bool,
) -> (r: ReturnType)
    requires
        !is_super ==> auth_ok is Some || authenticate_settled_spec(acc),
    ensures
        r == if authenticate_settled_spec(acc) {
            (false, acc)
        } else if is_super {
            (!break_if_allow, Some(HookResult::AuthResult(AuthResult::Allow)))
        } else if auth_ok == Some(true) {
            (!break_if_allow, Some(HookResult::AuthResult(AuthResult::Allow)))
        } else {
            (false, Some(HookResult::AuthResult(AuthResult::BadUsernameOrPassword)))
        },
{
    if authenticate_settled(acc) {
        return (false, acc);
    }
    let proceed = !break_if_allow;
    if is_super {
        return (proceed, Some(HookResult::AuthResult(AuthResult::Allow)));
    }
    match auth_ok {
        Some(true) => (proceed, Some(HookResult::AuthResult(AuthResult::Allow))),
        _ => (false, Some(HookResult::AuthResult(AuthResult::BadUsernameOrPassword))),
    }
}

pub open spec fn authenticate_settled_spec(acc: Option<HookResult>) -> bool {
    acc == Some(HookResult::AuthResult(AuthResult::BadUsernameOrPassword)) || acc == Some(
        HookResult::AuthResult(AuthResult::NotAuthorized),
    )
}

/// Whether an earlier handler has refused the subscription already.
pub open spec fn subscribe_settled(acc: Option<HookResult>) -> bool {
    acc matches Some(HookResult::SubscribeAclResult(SubscribeAclResult::Failure(_)))
}

/// What the check of a subscription comes to: granted with the guarantee
/// asked for, or refused as not authorized.
pub fn client_subscribe_check_acl(
    acc: Option<HookResult>,
    allow: bool,
    qos: QoS,
    break_if_allow: bool,
) -> (r: ReturnType)
    ensures
        r == if subscribe_settled(acc) {
            (false, acc)
        } else if allow {
            (
                !break_if_allow,
                Some(HookResult::SubscribeAclResult(SubscribeAclResult::Success(qos))),
            )
        } else {
            (
                false,
                Some(
                    HookResult::SubscribeAclResult(
                        SubscribeAclResult::Failure(SubscribeAckReason::NotAuthorized),
                    ),
                ),
            )
        },
{
    match acc {
        Some(HookResult::SubscribeAclResult(SubscribeAclResult::Failure(_))) => {
            return (false, acc);
        },
        _ => {},
    }
    if allow {
        (!break_if_allow, Some(HookResult::SubscribeAclResult(SubscribeAclResult::Success(qos))))
    } else {
        (
            false,
            Some(
                HookResult::SubscribeAclResult(
                    SubscribeAclResult::Failure(SubscribeAckReason::NotAuthorized),
                ),
            ),
        )
    }
}

/// Whether an earlier handler has rejected the publish already.
pub open spec fn publish_settled(acc: Option<HookResult>) -> bool {
    acc matches Some(HookResult::PublishAclResult(PublishAclResult::Rejected(_)))
}

/// What the check of a publish comes to: allowed, or rejected, with the
/// connection closed if the settings say so.
pub fn message_publish_check_acl(
    acc: Option<HookResult>,
    allow: bool,
    break_if_allow: bool,
    disconnect_if_pub_rejected: bool,
) -> (r: ReturnType)
    ensures
        r == if publish_settled(acc) {
            (false, acc)
        } else if allow {
            (!break_if_allow, Some(HookResult::PublishAclResult(PublishAclResult::Allow)))
        } else {
            (
                false,
                Some(
                    HookResult::PublishAclResult(
                        PublishAclResult::Rejected(disconnect_if_pub_rejected),
                    ),
                ),
            )
        },
{
    match acc {
        Some(HookResult::PublishAclResult(PublishAclResult::Rejected(_))) => {
            return (false, acc);
        },
        _ => {},
    }
    if allow {
        (!break_if_allow, Some(HookResult::PublishAclResult(PublishAclResult::Allow)))
    } else {
        (
            false,
            Some(HookResult::PublishAclResult(PublishAclResult::Rejected(disconnect_if_pub_rejected))),
        )
    }
}

/// Forgets what was remembered of a connection that has closed.
pub fn client_disconnected(cache_map: &mut StrMap<CacheValue>, client_id: &String)
    requires
        old(cache_map).wf(),
    ensures
        final(cache_map).wf(),
        final(cache_map)@ == old(cache_map)@.remove(client_id@),
{
    cache_map.remove(client_id);
}

} // verus!
