//! Settings of the bridge that forwards publishes to an object store.

use vstd::prelude::*;

verus! {

pub type BridgeName = String;

/// All the bridges the plugin runs.
#[derive(Debug, PartialEq, Eq)]
pub struct PluginConfig {
    pub bridges: Vec<Bridge>,
}

/// One bridge: the store it writes to and the entries it forwards.
#[derive(Debug, PartialEq, Eq)]
pub struct Bridge {
    pub enable: bool,
    pub name: BridgeName,
    pub servers: String,
    pub producer_name_prefix: Option<String>,
    pub api_token: Option<String>,
    pub verify_ssl: Option<bool>,
    pub timeout_millis: Option<u64>,
    pub entries: Vec<Entry>,
}

/// Credentials a bridge may present.
#[derive(Debug, PartialEq, Eq)]
pub struct Auth {
    pub jwt: Option<String>,
    pub jwt_seed: Option<String>,
    pub nkey: Option<String>,
    pub username: Option<String>,
    pub password: Option<String>,
    pub token: Option<String>,
}

/// One forwarding rule: which local topics go to which remote entry.
#[derive(Debug, PartialEq, Eq)]
pub struct Entry {
    pub local: Local,
    pub remote: Remote,
}

/// The remote side of a rule.
#[derive(Debug, PartialEq, Eq)]
pub struct Remote {
    pub bucket: String,
    pub entry: String,
    pub quota_size: Option<u64>,
    pub exist_ok: Option<bool>,
    pub forward_all_from: bool,
    pub forward_all_publish: bool,
}

/// The local side of a rule.
#[derive(Debug, PartialEq, Eq)]
pub struct Local {
    pub topic_filter: String,
}

impl Default for Local {
    fn default() -> (r: Local)
        ensures
            r.topic_filter@ == Seq::<char>::empty(),
    {
        Local { topic_filter: String::new() }
    }
}

impl Default for Remote {
    fn default() -> (r: Remote)
        ensures
            r.bucket@ == Seq::<char>::empty(),
            r.entry@ == Seq::<char>::empty(),
            r.quota_size.is_none(),
            r.exist_ok.is_none(),
            !r.forward_all_from,
            !r.forward_all_publish,
    {
        Remote {
            bucket: String::new(),
            entry: String::new(),
            quota_size: None,
            exist_ok: None,
            forward_all_from: false,
            forward_all_publish: false,
        }
    }
}

impl Default for Entry {
    fn default() -> (r: Entry)
        ensures
            r.local.topic_filter@ == Seq::<char>::empty(),
            r.remote.bucket@ == Seq::<char>::empty(),
            r.remote.entry@ == Seq::<char>::empty(),
            r.remote.quota_size.is_none(),
            r.remote.exist_ok.is_none(),
            !r.remote.forward_all_from,
            !r.remote.forward_all_publish,
    {
        Entry { local: Local::default(), remote: Remote::default() }
    }
}

impl Default for Auth {
    fn default() -> (r: Auth)
        ensures
            r == (Auth { jwt: None, jwt_seed: None, nkey: None, username: None, password: None, token: None }),
    {
        Auth { jwt: None, jwt_seed: None, nkey: None, username: None, password: None, token: None }
    }
}

impl Default for Bridge {
    fn default() -> (r: Bridge)
        ensures
            !r.enable,
            r.name@ == Seq::<char>::empty(),
            r.servers@ == Seq::<char>::empty(),
            r.producer_name_prefix.is_none(),
            r.api_token.is_none(),
            r.verify_ssl.is_none(),
            r.timeout_millis.is_none(),
            r.entries@ == Seq::<Entry>::empty(),
    {
        Bridge {
            enable: false,
            name: String::new(),
            servers: String::new(),
            producer_name_prefix: None,
            api_token: None,
            verify_ssl: None,
            timeout_millis: None,
            entries: Vec::new(),
        }
    }
}

} // verus!
