//! The orchestrator: registers handlers against the configuration, shares
//! providers between them and turns template messages into workers.
//!
//! Registering takes two steps. `load_*` consumes the handler's catalog
//! entry, resolves its network and settles which provider it uses: an
//! existing one, or a plan for a new one. Once the caller has built any new
//! provider, `commit_*` records it and the worker, with a progress record
//! that starts at the worker's start block.

use vstd::prelude::*;

use crate::address::{address_bytes, is_address_text, Address};
use crate::config::{
    consumed, find_entry, lemma_first_entry, lemma_no_entry, lookup, mode_or_default,
    resolve_mode, Config, ExecutionMode,
};
use crate::error::Error;
use crate::progress::{ProgressManager, ProgressState, ProgressUpdatePayload};
use crate::rpc_manager::{
    get_or_create_result, resolve, slot_fits, slot_id, ProviderSlot, RPCManager,
};
use crate::scheduler::EVENT_STEP;
use crate::templates::Template;

verus! {

/// A registered event worker: its handler, range start, address, step and
/// mode, and the numbers of its provider and progress record.
#[derive(Clone, Debug)]
pub struct ProcessEventsInput {
    pub handler: String,
    pub start_block: u64,
    pub address: Address,
    pub step: u64,
    pub execution_mode: ExecutionMode,
    pub provider: usize,
    pub progress: usize,
}

/// A registered block worker.
#[derive(Clone, Debug)]
pub struct ProcessBlocksInput {
    pub handler: String,
    pub start_block: u64,
    pub step: u64,
    pub execution_mode: ExecutionMode,
    pub provider: usize,
    pub progress: usize,
}

/// An event worker that is ready to be committed once its provider exists.
#[derive(Clone, Debug)]
pub struct EventRegistration {
    pub handler: String,
    pub start_block: u64,
    pub address: Address,
    pub step: u64,
    pub execution_mode: ExecutionMode,
    pub provider: ProviderSlot,
}

/// A block worker that is ready to be committed once its provider exists.
#[derive(Clone, Debug)]
pub struct BlockRegistration {
    pub handler: String,
    pub start_block: u64,
    pub step: u64,
    pub execution_mode: ExecutionMode,
    pub provider: ProviderSlot,
}

/// The outcome of settling the provider of network `network` on a registry
/// with URLs `urls`, given that the handler's other checks passed: as
/// `get_or_create` on the network's endpoint.
pub open spec fn provider_result(
    c: Config,
    urls: Seq<Seq<char>>,
    network: Seq<char>,
    slot: Result<ProviderSlot, Error>,
) -> bool {
    match lookup(c.networks@, network) {
        Some(net) => get_or_create_result(
            urls,
            network,
            net.rpc_url@,
            net.requests_per_second,
            slot,
        ),
        None => false,
    }
}

/// What registering the event handler `name` returns.
pub open spec fn event_registration_result(
    c: Config,
    urls: Seq<Seq<char>>,
    name: Seq<char>,
    r: Result<EventRegistration, Error>,
) -> bool {
    match lookup(c.data_sources@, name) {
        None => r matches Err(Error::NotFound(n)) && n@ == name,
        Some(ds) => if lookup(c.networks@, ds.network@) is None {
            r matches Err(Error::NetworkNotFound(n)) && n@ == ds.network@
        } else if !is_address_text(ds.address@) {
            r matches Err(Error::InvalidAddress(a)) && a@ == ds.address@
        } else {
            match r {
                Ok(reg) => {
                    &&& reg.handler@ == name
                    &&& reg.start_block == ds.start_block
                    &&& reg.address.bytes@ == address_bytes(ds.address@)
                    &&& reg.step == EVENT_STEP
                    &&& reg.execution_mode == mode_or_default(ds.execution_mode)
                    &&& provider_result(c, urls, ds.network@, Ok(reg.provider))
                },
                Err(e) => provider_result(c, urls, ds.network@, Err(e)),
            }
        },
    }
}

/// What registering the block handler `name` returns.
pub open spec fn block_registration_result(
    c: Config,
    urls: Seq<Seq<char>>,
    name: Seq<char>,
    r: Result<BlockRegistration, Error>,
) -> bool {
    match lookup(c.block_handlers@, name) {
        None => r matches Err(Error::NotFound(n)) && n@ == name,
        Some(bh) => if bh.step == 0 {
            r matches Err(Error::InvalidStep(n)) && n@ == name
        } else if lookup(c.networks@, bh.network@) is None {
            r matches Err(Error::NetworkNotFound(n)) && n@ == bh.network@
        } else {
            match r {
                Ok(reg) => {
                    &&& reg.handler@ == name
                    &&& reg.start_block == bh.start_block
                    &&& reg.step == bh.step
                    &&& reg.execution_mode == mode_or_default(bh.execution_mode)
                    &&& provider_result(c, urls, bh.network@, Ok(reg.provider))
                },
                Err(e) => provider_result(c, urls, bh.network@, Err(e)),
            }
        },
    }
}

/// What instantiating the template message `t` returns.
pub open spec fn template_result(
    c: Config,
    urls: Seq<Seq<char>>,
    t: Template,
    r: Result<EventRegistration, Error>,
) -> bool {
    match lookup(c.templates@, t.handler@) {
        None => r matches Err(Error::NotFound(n)) && n@ == t.handler@,
        Some(tc) => if lookup(c.networks@, tc.network@) is None {
            r matches Err(Error::NetworkNotFound(n)) && n@ == tc.network@
        } else {
            match r {
                Ok(reg) => {
                    &&& reg.handler@ == t.handler@
                    &&& reg.start_block == t.start_block
                    &&& reg.address == t.address
                    &&& reg.step == EVENT_STEP
                    &&& reg.execution_mode == mode_or_default(tc.execution_mode)
                    &&& provider_result(c, urls, tc.network@, Ok(reg.provider))
                },
                Err(e) => provider_result(c, urls, tc.network@, Err(e)),
            }
        },
    }
}

/// The registry's URLs after committing `slot`.
pub open spec fn urls_after(urls: Seq<Seq<char>>, slot: ProviderSlot) -> Seq<Seq<char>> {
    match slot {
        ProviderSlot::Existing(_) => urls,
        ProviderSlot::New(p) => resolve(urls, p.rpc_url@).0,
    }
}

/// The progress records after a worker named `label` starting at `start`
/// was committed: a new record at the end, with that label and start block.
pub open spec fn progress_added(
    before: Seq<ProgressState>,
    after: Seq<ProgressState>,
    label: Seq<char>,
    start: u64,
) -> bool {
    &&& after.len() == before.len() + 1
    &&& forall|i: int| 0 <= i < before.len() ==> after[i] == before[i]
    &&& after.last().label@ == label
    &&& after.last().start_block == start
    &&& after.last().current_block == 0
    &&& after.last().end_block == 0
}

/// `w` is the worker built from `reg`, and its progress record was added
/// after the records `before`, giving `after`.
pub open spec fn instantiated(
    before: Seq<ProgressState>,
    after: Seq<ProgressState>,
    reg: EventRegistration,
    w: ProcessEventsInput,
) -> bool {
    &&& w.handler@ == reg.handler@
    &&& w.start_block == reg.start_block
    &&& w.address == reg.address
    &&& w.step == reg.step
    &&& w.execution_mode == reg.execution_mode
    &&& w.provider == slot_id(reg.provider)
    &&& w.progress == before.len()
    &&& progress_added(before, after, reg.handler@, reg.start_block)
}

/// The registry, the workers and the progress records of an indexer.
pub struct Indexer {
    pub config: Config,
    pub event_handlers: Vec<ProcessEventsInput>,
    pub block_handlers: Vec<ProcessBlocksInput>,
    pub rpc_manager: RPCManager,
    pub progress_manager: ProgressManager,
}

impl Indexer {
    /// The configuration names each entry once and the registry each URL.
    pub open spec fn wf(&self) -> bool {
        self.config.wf() && self.rpc_manager.wf()
    }

    /// An indexer over `config` with no workers, providers or records.
    pub fn new(config: Config) -> (r: Self)
        requires
            config.wf(),
        ensures
            r.wf(),
            r.config == config,
            r.event_handlers@.len() == 0,
            r.block_handlers@.len() == 0,
            r.rpc_manager@.len() == 0,
            r.progress_manager.state@.len() == 0,
    {
        Indexer {
            config,
            event_handlers: Vec::new(),
            block_handlers: Vec::new(),
            rpc_manager: RPCManager::new(),
            progress_manager: ProgressManager::new(),
        }
    }

    /// The provider for network `network`, once the network is known to be
    /// configured.
    fn network_provider(&self, network: &String) -> (r: Result<ProviderSlot, Error>)
        requires
            self.wf(),
            lookup(self.config.networks@, network@) is Some,
        ensures
            provider_result(self.config, self.rpc_manager@, network@, r),
    {
        match find_entry(&self.config.networks, network) {
            Some(j) => {
                proof {
                    lemma_first_entry(self.config.networks@, network@, j as int);
                }
                let net = &self.config.networks[j].1;
                self.rpc_manager.get_or_create(network, &net.rpc_url, net.requests_per_second)
            },
            None => {
                proof {
                    lemma_no_entry(self.config.networks@, network@);
                }
                Err(Error::NetworkNotFound(network.clone()))
            },
        }
    }

    /// Whether network `network` is configured.
    fn has_network(&self, network: &String) -> (r: bool)
        ensures
            r == lookup(self.config.networks@, network@) is Some,
    {
        match find_entry(&self.config.networks, network) {
            Some(j) => {
                proof {
                    lemma_first_entry(self.config.networks@, network@, j as int);
                }
                true
            },
            None => {
                proof {
                    lemma_no_entry(self.config.networks@, network@);
                }
                false
            },
        }
    }

    /// Registers the event handler named `name`: consumes its data source,
    /// then checks its network, its address and its provider, in that
    /// order. Only the data-source catalog changes, and only when it has an
    /// entry named `name`.
    pub fn load_event_handler(&mut self, name: &String) -> (r: Result<EventRegistration, Error>)
        requires
            old(self).wf(),
        ensures
            final(self).wf(),
            event_registration_result(old(self).config, old(self).rpc_manager@, name@, r),
            final(self).config.data_sources@ == consumed(old(self).config.data_sources@, name@),
            final(self).config.networks == old(self).config.networks,
            final(self).config.templates == old(self).config.templates,
            final(self).config.block_handlers == old(self).config.block_handlers,
            final(self).rpc_manager == old(self).rpc_manager,
            final(self).event_handlers == old(self).event_handlers,
            final(self).block_handlers == old(self).block_handlers,
            final(self).progress_manager == old(self).progress_manager,
    {
        let i = match find_entry(&self.config.data_sources, name) {
            Some(i) => i,
            None => {
                proof {
                    lemma_no_entry(self.config.data_sources@, name@);
                }
                return Err(Error::NotFound(name.clone()));
            },
        };
        proof {
            lemma_first_entry(self.config.data_sources@, name@, i as int);
            crate::config::lemma_consumed_twice(self.config.data_sources@, name@);
        }
        let (_, ds) = self.config.data_sources.remove(i);
        if !self.has_network(&ds.network) {
            return Err(Error::NetworkNotFound(ds.network.clone()));
        }
        let address = match Address::parse(ds.address.as_str()) {
            Some(a) => a,
            None => return Err(Error::InvalidAddress(ds.address.clone())),
        };
        let provider = self.network_provider(&ds.network)?;
        Ok(
            EventRegistration {
                handler: name.clone(),
                start_block: ds.start_block,
                address,
                step: EVENT_STEP,
                execution_mode: resolve_mode(ds.execution_mode),
                provider,
            },
        )
    }

    /// Registers the block handler named `name`: consumes its entry, then
    /// rejects a zero step, then checks its network and its provider, in
    /// that order. Only the block-handler catalog changes, and only when it
    /// has an entry named `name`.
    pub fn load_block_handler(&mut self, name: &String) -> (r: Result<BlockRegistration, Error>)
        requires
            old(self).wf(),
        ensures
            final(self).wf(),
            block_registration_result(old(self).config, old(self).rpc_manager@, name@, r),
            final(self).config.block_handlers@ == consumed(old(self).config.block_handlers@, name@),
            final(self).config.networks == old(self).config.networks,
            final(self).config.templates == old(self).config.templates,
            final(self).config.data_sources == old(self).config.data_sources,
            final(self).rpc_manager == old(self).rpc_manager,
            final(self).event_handlers == old(self).event_handlers,
            final(self).block_handlers == old(self).block_handlers,
            final(self).progress_manager == old(self).progress_manager,
    {
        let i = match find_entry(&self.config.block_handlers, name) {
            Some(i) => i,
            None => {
                proof {
                    lemma_no_entry(self.config.block_handlers@, name@);
                }
                return Err(Error::NotFound(name.clone()));
            },
        };
        proof {
            lemma_first_entry(self.config.block_handlers@, name@, i as int);
            crate::config::lemma_consumed_twice(self.config.block_handlers@, name@);
        }
        let (_, bh) = self.config.block_handlers.remove(i);
        if bh.step == 0 {
            return Err(Error::InvalidStep(name.clone()));
        }
        if !self.has_network(&bh.network) {
            return Err(Error::NetworkNotFound(bh.network.clone()));
        }
        let provider = self.network_provider(&bh.network)?;
        Ok(
            BlockRegistration {
                handler: name.clone(),
                start_block: bh.start_block,
                step: bh.step,
                execution_mode: resolve_mode(bh.execution_mode),
                provider,
            },
        )
    }

    /// Prepares a worker for the template message `t`: looks up the
    /// template of its handler (which stays in the catalog), then checks
    /// the template's network and provider, in that order.
    pub fn load_template(&self, t: &Template) -> (r: Result<EventRegistration, Error>)
        requires
            self.wf(),
        ensures
            template_result(self.config, self.rpc_manager@, *t, r),
    {
        let tc = match find_entry(&self.config.templates, &t.handler) {
            Some(i) => {
                proof {
                    lemma_first_entry(self.config.templates@, t.handler@, i as int);
                }
                &self.config.templates[i].1
            },
            None => {
                proof {
                    lemma_no_entry(self.config.templates@, t.handler@);
                }
                return Err(Error::NotFound(t.handler.clone()));
            },
        };
        if !self.has_network(&tc.network) {
            return Err(Error::NetworkNotFound(tc.network.clone()));
        }
        let provider = self.network_provider(&tc.network)?;
        Ok(
            EventRegistration {
                handler: t.handler.clone(),
                start_block: t.start_block,
                address: t.address,
                step: EVENT_STEP,
                execution_mode: resolve_mode(tc.execution_mode),
                provider,
            },
        )
    }

    /// Records the provider of `slot` when it is new, and a progress record
    /// for the worker `label` that starts at `start_block`; returns the
    /// provider and record numbers. `None`, with nothing changed, when the
    /// slot no longer fits the registry.
    fn commit_parts(&mut self, slot: &ProviderSlot, label: &String, start_block: u64) -> (r: Option<
        (usize, usize),
    >)
        requires
            old(self).wf(),
        ensures
            final(self).wf(),
            final(self).config == old(self).config,
            final(self).event_handlers == old(self).event_handlers,
            final(self).block_handlers == old(self).block_handlers,
            r is Some == slot_fits(old(self).rpc_manager@, *slot),
            match r {
                Some((provider, progress)) => {
                    &&& provider == slot_id(*slot)
                    &&& final(self).rpc_manager@ == urls_after(old(self).rpc_manager@, *slot)
                    &&& progress == old(self).progress_manager.state@.len()
                    &&& progress_added(
                        old(self).progress_manager.state@,
                        final(self).progress_manager.state@,
                        label@,
                        start_block,
                    )
                },
                None => {
                    &&& final(self).rpc_manager == old(self).rpc_manager
                    &&& final(self).progress_manager == old(self).progress_manager
                },
            },
    {
        if !self.rpc_manager.slot_current(slot) {
            return None;
        }
        let provider = match slot {
            ProviderSlot::Existing(i) => *i,
            ProviderSlot::New(p) => self.rpc_manager.register(p),
        };
        let channel = self.progress_manager.create_progress(label.clone());
        self.progress_manager.apply(channel.id, ProgressUpdatePayload::SetStartBlock(start_block));
        Some((provider, channel.id))
    }

    /// Builds the worker of a registration once its provider exists: records
    /// a new provider and a progress record starting at the worker's start
    /// block. `None`, with nothing changed, when the registration's provider
    /// slot no longer fits the registry.
    pub fn instantiate(&mut self, reg: EventRegistration) -> (r: Option<ProcessEventsInput>)
        requires
            old(self).wf(),
        ensures
            final(self).wf(),
            final(self).config == old(self).config,
            final(self).event_handlers == old(self).event_handlers,
            final(self).block_handlers == old(self).block_handlers,
            r is Some == slot_fits(old(self).rpc_manager@, reg.provider),
            match r {
                Some(w) => {
                    &&& instantiated(
                        old(self).progress_manager.state@,
                        final(self).progress_manager.state@,
                        reg,
                        w,
                    )
                    &&& final(self).rpc_manager@ == urls_after(old(self).rpc_manager@, reg.provider)
                },
                None => {
                    &&& final(self).rpc_manager == old(self).rpc_manager
                    &&& final(self).progress_manager == old(self).progress_manager
                },
            },
    {
        match self.commit_parts(&reg.provider, &reg.handler, reg.start_block) {
            Some((provider, progress)) => Some(
                ProcessEventsInput {
                    handler: reg.handler,
                    start_block: reg.start_block,
                    address: reg.address,
                    step: reg.step,
                    execution_mode: reg.execution_mode,
                    provider,
                    progress,
                },
            ),
            None => None,
        }
    }

    /// Adds the worker of an event registration to the workers started by
    /// `start`; `false`, with nothing changed, when its provider slot no
    /// longer fits the registry.
    pub fn commit_event_handler(&mut self, reg: EventRegistration) -> (r: bool)
        requires
            old(self).wf(),
        ensures
            final(self).wf(),
            final(self).config == old(self).config,
            final(self).block_handlers == old(self).block_handlers,
            r == slot_fits(old(self).rpc_manager@, reg.provider),
            r ==> {
                &&& final(self).event_handlers@.len() == old(self).event_handlers@.len() + 1
                &&& final(self).event_handlers@.drop_last() == old(self).event_handlers@
                &&& final(self).event_handlers@.last().handler@ == reg.handler@
                &&& final(self).event_handlers@.last().start_block == reg.start_block
                &&& final(self).event_handlers@.last().address == reg.address
                &&& final(self).event_handlers@.last().step == reg.step
                &&& final(self).event_handlers@.last().execution_mode == reg.execution_mode
                &&& final(self).event_handlers@.last().provider == slot_id(reg.provider)
                &&& final(self).event_handlers@.last().progress == old(self).progress_manager.state@.len()
                &&& final(self).rpc_manager@ == urls_after(old(self).rpc_manager@, reg.provider)
                &&& progress_added(
                    old(self).progress_manager.state@,
                    final(self).progress_manager.state@,
                    reg.handler@,
                    reg.start_block,
                )
            },
            !r ==> {
                &&& final(self).event_handlers == old(self).event_handlers
                &&& final(self).rpc_manager == old(self).rpc_manager
                &&& final(self).progress_manager == old(self).progress_manager
            },
    {
        match self.instantiate(reg) {
            Some(w) => {
                self.event_handlers.push(w);
                assert(self.event_handlers@.drop_last() =~= old(self).event_handlers@);
                true
            },
            None => false,
        }
    }

    /// Adds the worker of a block registration to the workers started by
    /// `start`; `false`, with nothing changed, when its provider slot no
    /// longer fits the registry.
    pub fn commit_block_handler(&mut self, reg: BlockRegistration) -> (r: bool)
        requires
            old(self).wf(),
        ensures
            final(self).wf(),
            final(self).config == old(self).config,
            final(self).event_handlers == old(self).event_handlers,
            r == slot_fits(old(self).rpc_manager@, reg.provider),
            r ==> {
                &&& final(self).block_handlers@.len() == old(self).block_handlers@.len() + 1
                &&& final(self).block_handlers@.drop_last() == old(self).block_handlers@
                &&& final(self).block_handlers@.last().handler@ == reg.handler@
                &&& final(self).block_handlers@.last().start_block == reg.start_block
                &&& final(self).block_handlers@.last().step == reg.step
                &&& final(self).block_handlers@.last().execution_mode == reg.execution_mode
                &&& final(self).block_handlers@.last().provider == slot_id(reg.provider)
                &&& final(self).block_handlers@.last().progress == old(self).progress_manager.state@.len()
                &&& final(self).rpc_manager@ == urls_after(old(self).rpc_manager@, reg.provider)
                &&& progress_added(
                    old(self).progress_manager.state@,
                    final(self).progress_manager.state@,
                    reg.handler@,
                    reg.start_block,
                )
            },
            !r ==> {
                &&& final(self).block_handlers == old(self).block_handlers
                &&& final(self).rpc_manager == old(self).rpc_manager
                &&& final(self).progress_manager == old(self).progress_manager
            },
    {
        match self.commit_parts(&reg.provider, &reg.handler, reg.start_block) {
            Some((provider, progress)) => {
                self.block_handlers.push(
                    ProcessBlocksInput {
                        handler: reg.handler,
                        start_block: reg.start_block,
                        step: reg.step,
                        execution_mode: reg.execution_mode,
                        provider,
                        progress,
                    },
                );
                assert(self.block_handlers@.drop_last() =~= old(self).block_handlers@);
                true
            },
            None => false,
        }
    }
}

/// Registering a handler name a second time fails with `NotFound`: the
/// first registration, whatever its outcome, consumed the catalog entry.
/// `c2` is the configuration after the first registration and `r` the
/// result of the second.
pub proof fn lemma_second_registration_not_found(
    c1: Config,
    c2: Config,
    urls: Seq<Seq<char>>,
    name: Seq<char>,
    r: Result<EventRegistration, Error>,
)
    requires
        c1.wf(),
        c2.data_sources@ == consumed(c1.data_sources@, name),
        event_registration_result(c2, urls, name, r),
    ensures
        r matches Err(Error::NotFound(n)) && n@ == name,
{
    crate::config::lemma_consumed_twice(c1.data_sources@, name);
}

/// The same for block handlers.
pub proof fn lemma_second_block_registration_not_found(
    c1: Config,
    c2: Config,
    urls: Seq<Seq<char>>,
    name: Seq<char>,
    r: Result<BlockRegistration, Error>,
)
    requires
        c1.wf(),
        c2.block_handlers@ == consumed(c1.block_handlers@, name),
        block_registration_result(c2, urls, name, r),
    ensures
        r matches Err(Error::NotFound(n)) && n@ == name,
{
    crate::config::lemma_consumed_twice(c1.block_handlers@, name);
}

/// Workers instantiated one after the other are started in that order:
/// the first one's progress record comes before the second one's, and each
/// record carries its template's handler and start block.
pub proof fn lemma_instantiation_order(
    before: Seq<ProgressState>,
    between: Seq<ProgressState>,
    after: Seq<ProgressState>,
    ra: EventRegistration,
    wa: ProcessEventsInput,
    rb: EventRegistration,
    wb: ProcessEventsInput,
)
    requires
        instantiated(before, between, ra, wa),
        instantiated(between, after, rb, wb),
    ensures
        wa.progress < wb.progress < after.len(),
        after[wa.progress as int].label@ == ra.handler@,
        after[wa.progress as int].start_block == ra.start_block,
        after[wb.progress as int].label@ == rb.handler@,
        after[wb.progress as int].start_block == rb.start_block,
{
    assert(after[wa.progress as int] == between[wa.progress as int]);
}

} // verus!
