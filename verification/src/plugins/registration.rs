//! The plugins that are built into the broker: what the package's
//! metadata says of each, and the line that registers it at startup.

use vstd::prelude::*;

verus! {

/// What the metadata says of one plugin.
#[derive(Debug, PartialEq, Eq)]
pub struct PluginMeta {
    /// The name of the plugin's crate.
    pub id: String,
    pub name: Option<String>,
    pub description: Option<String>,
    pub default_startup: Option<bool>,
    pub immutable: Option<bool>,
}

/// A plugin as it is registered.
#[derive(Debug, PartialEq, Eq)]
pub struct Registration {
    pub name: String,
    pub descr: String,
    pub default_startup: bool,
    pub immutable: bool,
}

/// What is registered for a plugin: under its name, or the name of its
/// crate where it has none; without a description where it has none; not
/// started by default and not immutable unless the metadata says so.
pub fn registration(meta: &PluginMeta) -> (r: Registration)
    ensures
        r.name@ == match meta.name {
            Some(n) => n@,
            None => meta.id@,
        },
        r.descr@ == match meta.description {
            Some(d) => d@,
            None => Seq::<char>::empty(),
        },
        r.default_startup == match meta.default_startup {
            Some(b) => b,
            None => false,
        },
        r.immutable == match meta.immutable {
            Some(b) => b,
            None => false,
        },
{
    Registration {
        name: match &meta.name {
            Some(n) => n.clone(),
            None => meta.id.clone(),
        },
        descr: match &meta.description {
            Some(d) => d.clone(),
            None => String::new(),
        },
        default_startup: match meta.default_startup {
            Some(b) => b,
            None => false,
        },
        immutable: match meta.immutable {
            Some(b) => b,
            None => false,
        },
    }
}

/// Whether a plugin is started when the broker starts: by default, or
/// because the settings name it.
pub fn starts(registration: &Registration, default_startups: &Vec<String>) -> (r: bool)
    ensures
        r == (registration.default_startup || exists|i: int|
            0 <= i < default_startups@.len() && (#[trigger] default_startups@[i])@
                == registration.name@),
{
    if registration.default_startup {
        return true;
    }
    let mut i: usize = 0;
    while i < default_startups.len()
        invariant
            i <= default_startups@.len(),
            forall|j: int| 0 <= j < i ==> (#[trigger] default_startups@[j])@ != registration.name@,
        decreases default_startups@.len() - i,
    {
        if default_startups[i] == registration.name {
            return true;
        }
        i = i + 1;
    }
    false
}

} // verus!
