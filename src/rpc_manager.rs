//! The registry of providers: one provider per RPC endpoint URL, shared by
//! every handler that uses the endpoint.
//!
//! Providers are numbered in the order they are created; the registry keeps
//! the URL of each, and the caller keeps the provider objects under the same
//! numbers. A URL that is already registered yields its existing number; a
//! new one yields a plan for building its provider, which is registered once
//! built.

use vstd::prelude::*;

use crate::error::Error;
use crate::rate_limit::Rate;

verus! {

/// The period of every provider's rate limit: one second.
pub const RATE_PERIOD_MS: u64 = 1000;

/// Whether the text is a URL, by the rules of the `url` crate.
pub uninterp spec fn url_parses(s: Seq<char>) -> bool;

/// Relies on `url::Url::parse`, as re-exported by alloy's HTTP transport, to
/// tell whether an endpoint is a well-formed URL; its answer depends on the
/// text alone.
#[verifier::external_body]
fn rpc_url_parses(s: &str) -> (r: bool)
    ensures
        r == url_parses(s@),
{
    alloy::transports::http::reqwest::Url::parse(s).is_ok()
}

/// How to build a new provider: its number, the network whose cache it uses,
/// its endpoint and its rate limit.
#[derive(Clone, Debug)]
pub struct ProviderPlan {
    pub id: usize,
    pub network: String,
    pub rpc_url: String,
    pub rate: Rate,
}

/// The provider for an endpoint: an existing one, or one to build.
#[derive(Clone, Debug)]
pub enum ProviderSlot {
    Existing(usize),
    New(ProviderPlan),
}

/// The registry of providers by endpoint URL.
pub struct RPCManager {
    pub rpcs: Vec<String>,
}

/// The URLs of a registry, in the order their providers were created.
pub open spec fn urls_of(rpcs: Seq<String>) -> Seq<Seq<char>> {
    rpcs.map_values(|u: String| u@)
}

/// No URL is registered twice.
pub open spec fn distinct_urls(urls: Seq<Seq<char>>) -> bool {
    forall|i: int, j: int|
        0 <= i < urls.len() && 0 <= j < urls.len() && i != j ==> urls[i] != urls[j]
}

/// The number of the provider registered for `url`, if any.
pub open spec fn provider_of(urls: Seq<Seq<char>>, url: Seq<char>) -> Option<int> {
    if urls.contains(url) {
        Some(urls.index_of(url))
    } else {
        None
    }
}

/// The registry and the provider number after a successful `get_or_create`
/// of `url`: the registered number, or a new one at the end.
pub open spec fn resolve(urls: Seq<Seq<char>>, url: Seq<char>) -> (Seq<Seq<char>>, int) {
    if urls.contains(url) {
        (urls, urls.index_of(url))
    } else {
        (urls.push(url), urls.len() as int)
    }
}

/// The registry and the provider numbers after successful `get_or_create`
/// calls for `calls`, in order.
pub open spec fn resolve_all(urls: Seq<Seq<char>>, calls: Seq<Seq<char>>) -> (
    Seq<Seq<char>>,
    Seq<int>,
)
    decreases calls.len(),
{
    if calls.len() == 0 {
        (urls, Seq::empty())
    } else {
        let prev = resolve_all(urls, calls.drop_last());
        let (next, id) = resolve(prev.0, calls.last());
        (next, prev.1.push(id))
    }
}

/// What `get_or_create` returns for `url` on a registry with URLs `urls`:
/// the registered provider; else, for a well-formed URL, the plan for the
/// next provider, of network `network` with `rate_limit` calls per second;
/// else `InvalidRpcUrl`.
pub open spec fn get_or_create_result(
    urls: Seq<Seq<char>>,
    network: Seq<char>,
    url: Seq<char>,
    rate_limit: u64,
    r: Result<ProviderSlot, Error>,
) -> bool {
    match r {
        Ok(ProviderSlot::Existing(i)) => provider_of(urls, url) == Some(i as int),
        Ok(ProviderSlot::New(p)) => {
            &&& provider_of(urls, url) is None
            &&& url_parses(url)
            &&& p.id == urls.len()
            &&& p.network@ == network
            &&& p.rpc_url@ == url
            &&& p.rate == Rate { limit: rate_limit, period: RATE_PERIOD_MS }
        },
        Err(e) => {
            &&& provider_of(urls, url) is None
            &&& !url_parses(url)
            &&& e matches Error::InvalidRpcUrl(u) && u@ == url
        },
    }
}

/// The slot can be committed to a registry with URLs `urls`: an existing
/// provider, or the next one for a URL not yet registered.
pub open spec fn slot_fits(urls: Seq<Seq<char>>, slot: ProviderSlot) -> bool {
    match slot {
        ProviderSlot::Existing(i) => 0 <= i < urls.len(),
        ProviderSlot::New(p) => p.id == urls.len() && provider_of(urls, p.rpc_url@) is None,
    }
}

/// The number of the provider that a slot stands for.
pub open spec fn slot_id(slot: ProviderSlot) -> usize {
    match slot {
        ProviderSlot::Existing(i) => i,
        ProviderSlot::New(p) => p.id,
    }
}

impl RPCManager {
    /// The registry's URLs.
    pub open spec fn view(&self) -> Seq<Seq<char>> {
        urls_of(self.rpcs@)
    }

    /// Each URL has one provider.
    pub open spec fn wf(&self) -> bool {
        distinct_urls(self@)
    }

    /// An empty registry.
    pub fn new() -> (r: Self)
        ensures
            r@ == Seq::<Seq<char>>::empty(),
            r.wf(),
    {
        RPCManager { rpcs: Vec::new() }
    }

    /// The number of the provider registered for `url`, if any.
    pub fn lookup(&self, url: &String) -> (r: Option<usize>)
        requires
            self.wf(),
        ensures
            match r {
                Some(i) => provider_of(self@, url@) == Some(i as int),
                None => provider_of(self@, url@) is None,
            },
    {
        let mut i: usize = 0;
        while i < self.rpcs.len()
            invariant
                self.wf(),
                i <= self.rpcs@.len(),
                self@.len() == self.rpcs@.len(),
                forall|j: int| 0 <= j < i ==> self@[j] != url@,
            decreases self.rpcs@.len() - i,
        {
            if self.rpcs[i] == *url {
                proof {
                    assert(self@[i as int] == url@);
                    assert(self@.contains(url@));
                    let k = self@.index_of(url@);
                    assert(self@[k] == url@);
                    assert(k == i as int) by {
                        if k != i as int {
                            assert(self@[k] != self@[i as int]);
                        }
                    }
                }
                return Some(i);
            }
            i = i + 1;
        }
        assert(!self@.contains(url@));
        None
    }

    /// The provider for `rpc_url`: the registered one, or, when the URL is
    /// new and well formed, the plan for a provider of network `network` with
    /// `rate_limit` calls per second. A new URL that is not a URL is
    /// `InvalidRpcUrl`. The registry is not changed.
    pub fn get_or_create(&self, network: &String, rpc_url: &String, rate_limit: u64) -> (r: Result<
        ProviderSlot,
        Error,
    >)
        requires
            self.wf(),
        ensures
            get_or_create_result(self@, network@, rpc_url@, rate_limit, r),
    {
        if let Some(i) = self.lookup(rpc_url) {
            return Ok(ProviderSlot::Existing(i));
        }
        if !rpc_url_parses(rpc_url.as_str()) {
            return Err(Error::InvalidRpcUrl(rpc_url.clone()));
        }
        Ok(
            ProviderSlot::New(
                ProviderPlan {
                    id: self.rpcs.len(),
                    network: network.clone(),
                    rpc_url: rpc_url.clone(),
                    rate: Rate { limit: rate_limit, period: RATE_PERIOD_MS },
                },
            ),
        )
    }

    /// Whether `slot` can be committed now.
    pub fn slot_current(&self, slot: &ProviderSlot) -> (r: bool)
        requires
            self.wf(),
        ensures
            r == slot_fits(self@, *slot),
    {
        match slot {
            ProviderSlot::Existing(i) => *i < self.rpcs.len(),
            ProviderSlot::New(p) => p.id == self.rpcs.len() && self.lookup(&p.rpc_url).is_none(),
        }
    }

    /// Records that the provider of `plan` was built.
    pub fn register(&mut self, plan: &ProviderPlan) -> (r: usize)
        requires
            old(self).wf(),
            plan.id == old(self)@.len(),
            provider_of(old(self)@, plan.rpc_url@) is None,
        ensures
            final(self).wf(),
            r == plan.id,
            final(self)@ == old(self)@.push(plan.rpc_url@),
            resolve(old(self)@, plan.rpc_url@) == (final(self)@, r as int),
    {
        let id = self.rpcs.len();
        self.rpcs.push(plan.rpc_url.clone());
        assert(self@ =~= old(self)@.push(plan.rpc_url@));
        id
    }
}

proof fn lemma_resolve_keeps(urls: Seq<Seq<char>>, url: Seq<char>)
    requires
        distinct_urls(urls),
    ensures
        distinct_urls(resolve(urls, url).0),
        resolve(urls, url).0.len() >= urls.len(),
        forall|k: int| 0 <= k < urls.len() ==> resolve(urls, url).0[k] == urls[k],
        0 <= resolve(urls, url).1 < resolve(urls, url).0.len(),
        resolve(urls, url).0[resolve(urls, url).1] == url,
{
    if urls.contains(url) {
        let k = urls.index_of(url);
        assert(urls[k] == url);
    } else {
        assert forall|i: int, j: int|
            0 <= i < urls.len() + 1 && 0 <= j < urls.len() + 1 && i != j implies urls.push(url)[i]
            != urls.push(url)[j] by {
            if i == urls.len() as int {
                assert(urls[j] == urls.push(url)[j]);
            } else if j == urls.len() as int {
                assert(urls[i] == urls.push(url)[i]);
            }
        }
    }
}

/// Over any sequence of successful `get_or_create` calls, every call for one
/// URL yields the same provider, and calls for different URLs yield
/// different providers.
pub proof fn lemma_one_provider_per_url(urls: Seq<Seq<char>>, calls: Seq<Seq<char>>)
    requires
        distinct_urls(urls),
    ensures
        distinct_urls(resolve_all(urls, calls).0),
        resolve_all(urls, calls).1.len() == calls.len(),
        forall|i: int|
            0 <= i < calls.len() ==> 0 <= #[trigger] resolve_all(urls, calls).1[i] < resolve_all(
                urls,
                calls,
            ).0.len() && resolve_all(urls, calls).0[resolve_all(urls, calls).1[i]] == calls[i],
        forall|i: int, j: int|
            0 <= i < calls.len() && 0 <= j < calls.len() ==> ((calls[i] == calls[j]) <==> (
            #[trigger] resolve_all(urls, calls).1[i] == #[trigger] resolve_all(urls, calls).1[j])),
    decreases calls.len(),
{
    if calls.len() > 0 {
        let prefix = calls.drop_last();
        lemma_one_provider_per_url(urls, prefix);
        let prev = resolve_all(urls, prefix);
        lemma_resolve_keeps(prev.0, calls.last());
        let res = resolve_all(urls, calls);
        assert forall|i: int| 0 <= i < calls.len() implies 0 <= #[trigger] res.1[i] < res.0.len()
            && res.0[res.1[i]] == calls[i] by {
            if i < prefix.len() {
                assert(res.1[i] == prev.1[i]);
                assert(prefix[i] == calls[i]);
            }
        }
        assert forall|i: int, j: int|
            0 <= i < calls.len() && 0 <= j < calls.len() implies ((calls[i] == calls[j]) <==> (
            #[trigger] res.1[i] == #[trigger] res.1[j])) by {
            assert(res.0[res.1[i]] == calls[i]);
            assert(res.0[res.1[j]] == calls[j]);
            if calls[i] == calls[j] && res.1[i] != res.1[j] {
                assert(res.0[res.1[i]] != res.0[res.1[j]]);
            }
        }
    }
}

} // verus!
