//! The indexer's configuration: data sources, templates, networks and block
//! handlers, each a catalog of entries keyed by handler or network name.
//!
//! A catalog lists its entries in order, each under a name that no other
//! entry of it has. Registration consumes entries, so that a second
//! registration under one name is detected.

use vstd::prelude::*;
use vstd::string::*;

use crate::error::labelled;

verus! {

/// How a worker runs its handler.
#[derive(Clone, Copy, Debug, PartialEq, Eq)]
pub enum ExecutionMode {
    /// One concurrent task per unit of work, not awaited.
    Parallel,
    /// Inline, one unit of work after the other.
    Serial,
}

/// The mode that an optional setting stands for: `Parallel` when unset.
pub open spec fn mode_or_default(m: Option<ExecutionMode>) -> ExecutionMode {
    match m {
        Some(x) => x,
        None => ExecutionMode::Parallel,
    }
}

/// The mode that an optional setting stands for: `Parallel` when unset.
pub fn resolve_mode(m: Option<ExecutionMode>) -> (r: ExecutionMode)
    ensures
        r == mode_or_default(m),
{
    match m {
        Some(x) => x,
        None => ExecutionMode::Parallel,
    }
}

/// A blueprint for event handlers created at run time.
#[derive(Clone, Debug)]
pub struct Template {
    pub abi: String,
    pub network: String,
    pub execution_mode: Option<ExecutionMode>,
}

/// A statically configured event handler.
#[derive(Clone, Debug)]
pub struct DataSource {
    pub abi: String,
    pub address: String,
    pub start_block: u64,
    pub network: String,
    pub execution_mode: Option<ExecutionMode>,
}

/// A statically configured block handler.
#[derive(Clone, Debug)]
pub struct BlockHandler {
    pub start_block: u64,
    pub network: String,
    pub execution_mode: Option<ExecutionMode>,
    pub step: u64,
}

/// An upstream RPC endpoint.
#[derive(Clone, Debug)]
pub struct NetworkConfig {
    pub rpc_url: String,
    pub requests_per_second: u64,
}

/// The whole configuration.
#[derive(Clone, Debug)]
pub struct Config {
    pub data_sources: Vec<(String, DataSource)>,
    pub templates: Vec<(String, Template)>,
    pub networks: Vec<(String, NetworkConfig)>,
    pub block_handlers: Vec<(String, BlockHandler)>,
}

/// Why the configuration could not be loaded.
#[derive(Clone, Debug, PartialEq, Eq)]
pub enum ConfigError {
    FileNotFound(String),
    CurrentDirNotFound(String),
    InvalidConfig(String),
    EnvVarNotFound(String),
}

impl ConfigError {
    /// A one-line description of the error.
    pub fn message(&self) -> (r: String)
        ensures
            match self {
                ConfigError::FileNotFound(e) => r@ == "Config file not found: "@ + e@,
                ConfigError::CurrentDirNotFound(e) => r@ == "Current directory not found: "@ + e@,
                ConfigError::InvalidConfig(e) => r@ == "Invalid config format: "@ + e@,
                ConfigError::EnvVarNotFound(v) => r@ == "Environment variable not found: "@ + v@,
            },
    {
        match self {
            ConfigError::FileNotFound(e) => labelled("Config file not found: ", e),
            ConfigError::CurrentDirNotFound(e) => labelled("Current directory not found: ", e),
            ConfigError::InvalidConfig(e) => labelled("Invalid config format: ", e),
            ConfigError::EnvVarNotFound(v) => labelled("Environment variable not found: ", v),
        }
    }
}

/// Some entry of `entries` is named `name`.
pub open spec fn has_entry<V>(entries: Seq<(String, V)>, name: Seq<char>) -> bool {
    exists|i: int| 0 <= i < entries.len() && (#[trigger] entries[i]).0@ == name
}

/// `i` is the first entry of `entries` named `name`.
pub open spec fn is_first_entry<V>(entries: Seq<(String, V)>, name: Seq<char>, i: int) -> bool {
    0 <= i < entries.len() && entries[i].0@ == name && forall|j: int|
        0 <= j < i ==> (#[trigger] entries[j]).0@ != name
}

/// No two entries of `entries` share a name.
pub open spec fn names_unique<V>(entries: Seq<(String, V)>) -> bool {
    forall|i: int, j: int|
        0 <= i < entries.len() && 0 <= j < entries.len() && i != j ==> (#[trigger] entries[i]).0@
            != (#[trigger] entries[j]).0@
}

/// The value of the first entry of `entries` named `name`, if any.
pub open spec fn lookup<V>(entries: Seq<(String, V)>, name: Seq<char>) -> Option<V>
    decreases entries.len(),
{
    if entries.len() == 0 {
        None
    } else if entries[0].0@ == name {
        Some(entries[0].1)
    } else {
        lookup(entries.drop_first(), name)
    }
}

/// `entries` without its first entry named `name`.
pub open spec fn consumed<V>(entries: Seq<(String, V)>, name: Seq<char>) -> Seq<(String, V)>
    decreases entries.len(),
{
    if entries.len() == 0 {
        entries
    } else if entries[0].0@ == name {
        entries.drop_first()
    } else {
        seq![entries[0]] + consumed(entries.drop_first(), name)
    }
}

/// The first entry named `name` is at `i`: its value is the one looked up,
/// and removing it is consuming the name.
pub proof fn lemma_first_entry<V>(entries: Seq<(String, V)>, name: Seq<char>, i: int)
    requires
        is_first_entry(entries, name, i),
    ensures
        lookup(entries, name) == Some(entries[i].1),
        consumed(entries, name) == entries.remove(i),
        has_entry(entries, name),
    decreases entries.len(),
{
    assert(0 <= i < entries.len() && entries[i].0@ == name);
    if i == 0 {
        assert(entries.drop_first() =~= entries.remove(0));
    } else {
        let rest = entries.drop_first();
        assert(entries[0].0@ != name);
        assert(is_first_entry(rest, name, i - 1)) by {
            assert forall|j: int| 0 <= j < i - 1 implies (#[trigger] rest[j]).0@ != name by {
                assert(rest[j] == entries[j + 1]);
            }
        }
        lemma_first_entry(rest, name, i - 1);
        assert(seq![entries[0]] + rest.remove(i - 1) =~= entries.remove(i));
    }
}

/// No entry is named `name`: nothing is found and nothing is consumed.
pub proof fn lemma_no_entry<V>(entries: Seq<(String, V)>, name: Seq<char>)
    requires
        !has_entry(entries, name),
    ensures
        lookup(entries, name) is None,
        consumed(entries, name) == entries,
    decreases entries.len(),
{
    if entries.len() > 0 {
        let rest = entries.drop_first();
        assert(entries[0].0@ != name);
        assert(!has_entry(rest, name)) by {
            if has_entry(rest, name) {
                let j = choose|j: int| 0 <= j < rest.len() && (#[trigger] rest[j]).0@ == name;
                assert(entries[j + 1] == rest[j]);
            }
        }
        lemma_no_entry(rest, name);
        assert(seq![entries[0]] + rest =~= entries);
    }
}

/// Once an entry named `name` has been consumed from a catalog whose names
/// are unique, no entry is named `name`, and the names stay unique: a second
/// registration under the name is not found.
pub proof fn lemma_consumed_twice<V>(entries: Seq<(String, V)>, name: Seq<char>)
    requires
        names_unique(entries),
    ensures
        !has_entry(consumed(entries, name), name),
        names_unique(consumed(entries, name)),
        lookup(consumed(entries, name), name) is None,
{
    if has_entry(entries, name) {
        let i = choose|i: int| 0 <= i < entries.len() && (#[trigger] entries[i]).0@ == name;
        assert(is_first_entry(entries, name, i)) by {
            assert forall|j: int| 0 <= j < i implies (#[trigger] entries[j]).0@ != name by {
                if entries[j].0@ == name {
                    assert(entries[j].0@ == entries[i].0@);
                }
            }
        }
        lemma_first_entry(entries, name, i);
        let c = entries.remove(i);
        assert forall|k: int| 0 <= k < c.len() implies (#[trigger] c[k]).0@ != name by {
            let src = if k < i { k } else { k + 1 };
            assert(c[k] == entries[src]);
            assert(entries[src].0@ != entries[i].0@);
        }
        assert forall|a: int, b: int|
            0 <= a < c.len() && 0 <= b < c.len() && a != b implies (#[trigger] c[a]).0@ != (
            #[trigger] c[b]).0@ by {
            let sa = if a < i { a } else { a + 1 };
            let sb = if b < i { b } else { b + 1 };
            assert(c[a] == entries[sa]);
            assert(c[b] == entries[sb]);
        }
        lemma_no_entry(c, name);
    } else {
        lemma_no_entry(entries, name);
    }
}

/// The position of the first entry named `name`, if any.
pub fn find_entry<V>(entries: &Vec<(String, V)>, name: &String) -> (r: Option<usize>)
    ensures
        match r {
            Some(i) => is_first_entry(entries@, name@, i as int),
            None => !has_entry(entries@, name@),
        },
{
    let mut i: usize = 0;
    while i < entries.len()
        invariant
            i <= entries@.len(),
            forall|j: int| 0 <= j < i ==> (#[trigger] entries@[j]).0@ != name@,
        decreases entries@.len() - i,
    {
        if entries[i].0 == *name {
            return Some(i);
        }
        i = i + 1;
    }
    None
}

/// Whether no two entries of `entries` share a name.
pub fn unique_names<V>(entries: &Vec<(String, V)>) -> (r: bool)
    ensures
        r == names_unique(entries@),
{
    let mut i: usize = 0;
    while i < entries.len()
        invariant
            i <= entries@.len(),
            forall|a: int, b: int|
                0 <= a < i && 0 <= b < i && a != b ==> (#[trigger] entries@[a]).0@ != (
                #[trigger] entries@[b]).0@,
        decreases entries@.len() - i,
    {
        let mut j: usize = 0;
        while j < i
            invariant
                i < entries@.len(),
                j <= i,
                forall|b: int| 0 <= b < j ==> (#[trigger] entries@[b]).0@ != entries@[i as int].0@,
            decreases i - j,
        {
            if entries[j].0 == entries[i].0 {
                assert(entries@[j as int].0@ == entries@[i as int].0@);
                return false;
            }
            j = j + 1;
        }
        i = i + 1;
    }
    true
}

impl Config {
    /// Whether every catalog names each entry once.
    pub fn is_wf(&self) -> (r: bool)
        ensures
            r == self.wf(),
    {
        unique_names(&self.data_sources) && unique_names(&self.templates) && unique_names(
            &self.networks,
        ) && unique_names(&self.block_handlers)
    }

    /// Every catalog names each entry once.
    pub open spec fn wf(&self) -> bool {
        &&& names_unique(self.data_sources@)
        &&& names_unique(self.templates@)
        &&& names_unique(self.networks@)
        &&& names_unique(self.block_handlers@)
    }
}

/// The environment variable that an endpoint refers to: the text after a
/// leading `$`.
pub open spec fn env_reference(url: Seq<char>) -> Option<Seq<char>> {
    if url.len() > 0 && url[0] == '$' {
        Some(url.subrange(1, url.len() as int))
    } else {
        None
    }
}

/// The endpoint `url` with its reference resolved in `env`; `None` when the
/// variable it refers to is not set.
pub open spec fn resolved_url(url: Seq<char>, env: Seq<(String, String)>) -> Option<Seq<char>> {
    match env_reference(url) {
        Some(name) => match lookup(env, name) {
            Some(v) => Some(v@),
            None => None,
        },
        None => Some(url),
    }
}

/// The networks after resolving the endpoint of each of the first `k`.
pub open spec fn networks_resolved_upto(
    before: Seq<(String, NetworkConfig)>,
    after: Seq<(String, NetworkConfig)>,
    env: Seq<(String, String)>,
    k: int,
) -> bool {
    &&& after.len() == before.len()
    &&& forall|i: int|
        #![trigger after[i]]
        0 <= i < after.len() ==> {
            &&& after[i].0 == before[i].0
            &&& after[i].1.requests_per_second == before[i].1.requests_per_second
            &&& if i < k {
                resolved_url(before[i].1.rpc_url@, env) == Some(after[i].1.rpc_url@)
            } else {
                after[i].1.rpc_url == before[i].1.rpc_url
            }
        }
}

/// The endpoint reference of `url`, if it has one.
fn env_reference_of(url: &String) -> (r: Option<String>)
    ensures
        match r {
            Some(n) => env_reference(url@) == Some(n@),
            None => env_reference(url@) is None,
        },
{
    let s = url.as_str();
    let n = s.unicode_len();
    if n == 0 || s.get_char(0) != '$' {
        return None;
    }
    Some(s.substring_char(1, n).to_owned())
}

/// Replaces each endpoint of the form `$NAME` by the value of `NAME` in
/// `env`, a snapshot of the environment, network by network in catalog
/// order. Fails with `EnvVarNotFound` naming the first variable that is not
/// set; the networks before it are then resolved and the others unchanged.
pub fn replace_env_vars(config: &mut Config, env: &Vec<(String, String)>) -> (r: Result<
    (),
    ConfigError,
>)
    ensures
        final(config).data_sources == old(config).data_sources,
        final(config).templates == old(config).templates,
        final(config).block_handlers == old(config).block_handlers,
        match r {
            Ok(()) => {
                &&& networks_resolved_upto(
                    old(config).networks@,
                    final(config).networks@,
                    env@,
                    old(config).networks@.len() as int,
                )
                &&& forall|i: int|
                    0 <= i < old(config).networks@.len() ==> resolved_url(
                        #[trigger] old(config).networks@[i].1.rpc_url@,
                        env@,
                    ) is Some
            },
            Err(e) => exists|k: int|
                {
                    &&& 0 <= k < old(config).networks@.len()
                    &&& resolved_url(old(config).networks@[k].1.rpc_url@, env@) is None
                    &&& forall|j: int|
                        0 <= j < k ==> resolved_url(
                            #[trigger] old(config).networks@[j].1.rpc_url@,
                            env@,
                        ) is Some
                    &&& e matches ConfigError::EnvVarNotFound(n) && Some(n@) == env_reference(
                        old(config).networks@[k].1.rpc_url@,
                    )
                    &&& networks_resolved_upto(
                        old(config).networks@,
                        final(config).networks@,
                        env@,
                        k,
                    )
                },
        },
{
    let ghost before = config.networks@;
    let mut i: usize = 0;
    while i < config.networks.len()
        invariant
            i <= config.networks@.len(),
            config.data_sources == old(config).data_sources,
            config.templates == old(config).templates,
            config.block_handlers == old(config).block_handlers,
            before == old(config).networks@,
            networks_resolved_upto(before, config.networks@, env@, i as int),
            forall|j: int|
                0 <= j < i ==> resolved_url(#[trigger] before[j].1.rpc_url@, env@) is Some,
        decreases config.networks@.len() - i,
    {
        let reference = env_reference_of(&config.networks[i].1.rpc_url);
        match reference {
            Some(name) => {
                match find_entry(env, &name) {
                    Some(k) => {
                        proof {
                            lemma_first_entry(env@, name@, k as int);
                        }
                        let entry = (
                            config.networks[i].0.clone(),
                            NetworkConfig {
                                rpc_url: env[k].1.clone(),
                                requests_per_second: config.networks[i].1.requests_per_second,
                            },
                        );
                        config.networks.set(i, entry);
                    },
                    None => {
                        proof {
                            lemma_no_entry(env@, name@);
                        }
                        return Err(ConfigError::EnvVarNotFound(name));
                    },
                }
            },
            None => {},
        }
        i = i + 1;
    }
    Ok(())
}

} // verus!
