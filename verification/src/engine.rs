use vstd::prelude::*;
use crate::errors::DdnsError;
use crate::ip::{spec_ipv4, Ipv4};
use crate::models::{ApiDnsRecord, ApiResponse, Config, DnsRecordUpdate};

verus! {

/// One reconciliation unit: a zone, the name provider-side records are
/// looked up by, and the record name written on update.
#[derive(Clone, Debug)]
pub struct ReconcileTask {
    pub zone_id: String,
    pub name: String,
    pub record: String,
}

/// The outcome recorded for one task within one cycle.
#[derive(Clone, Copy, Debug, PartialEq, Eq, Structural)]
pub enum Outcome {
    /// The record already held the resolved address; nothing was sent.
    SkippedUnchanged,
    /// An update was sent and the provider's envelope confirmed it.
    Updated,
    /// The task failed for the recorded reason; later tasks still ran.
    Failed(DdnsError),
}

/// The outcome of one task, under the name it was looked up by.
#[derive(Clone, Debug)]
pub struct DomainReport {
    pub name: String,
    pub outcome: Outcome,
}

/// Everything one cycle decided, in configuration order.
#[derive(Debug)]
pub struct CycleReport {
    /// The address the cycle reconciled against; absent when resolution
    /// failed.
    pub resolved_ip: Option<Ipv4>,
    /// Why the whole cycle was abandoned before any task ran, if it was.
    pub cycle_error: Option<DdnsError>,
    /// One report per task that ran.
    pub reports: Vec<DomainReport>,
}

impl CycleReport {
    /// Whether the cycle went through without any failure: the address
    /// resolved and every task was updated or skipped. A single failed
    /// domain makes the whole cycle not fully successful, though the other
    /// domains were still processed.
    pub fn fully_successful(&self) -> (r: bool)
        ensures
            r == (self.cycle_error is None && forall|i: int|
                0 <= i < self.reports@.len() ==> !(#[trigger] self.reports@[i].outcome matches
                    Outcome::Failed(_))),
    {
        if self.cycle_error.is_some() {
            return false;
        }
        let n = self.reports.len();
        for i in 0..n
            invariant
                n == self.reports@.len(),
                forall|j: int|
                    0 <= j < i ==> !(#[trigger] self.reports@[j].outcome matches Outcome::Failed(
                        _,
                    )),
        {
            if let Outcome::Failed(_) = self.reports[i].outcome {
                return false;
            }
        }
        true
    }
}

/// A cycle that was not abandoned for a resolution failure reports, once
/// done, exactly one outcome per configured task.
pub proof fn lemma_complete_cycle_reports_every_task(e: Engine)
    requires
        e.wf(),
        e.done(),
        e.cycle_error is None,
    ensures
        e.reports@.len() == e.tasks@.len(),
{
}

/// A provider call the engine asks its driver to perform. The engine never
/// performs network traffic itself; it decides, the driver executes.
#[derive(Clone, Debug)]
pub enum ProviderCall {
    /// List the records of a zone; the engine picks the matching one.
    FetchRecords { zone_id: String },
    /// Patch one record of a zone.
    UpdateRecord { zone_id: String, update: DnsRecordUpdate },
}

/// What the engine is waiting for from its driver.
#[derive(Debug)]
pub enum Phase {
    /// The record listing for the current task's zone.
    Fetching,
    /// The provider's answer to an update of this fetched record, whose
    /// content differed from the resolved address.
    Updating(ApiDnsRecord),
}

/// The first record whose name equals the requested one, if any.
pub open spec fn spec_find(rs: Seq<ApiDnsRecord>, name: Seq<char>) -> Option<ApiDnsRecord>
    decreases rs.len(),
{
    if rs.len() == 0 {
        None
    } else if rs[0].name@ == name {
        Some(rs[0])
    } else {
        spec_find(rs.drop_first(), name)
    }
}

/// Picks the first record whose name equals `name`, returning its index.
pub fn find_record(records: &Vec<ApiDnsRecord>, name: &String) -> (r: Option<usize>)
    ensures
        match r {
            Some(i) => i < records@.len() && spec_find(records@, name@) == Some(records@[i as int]),
            None => spec_find(records@, name@) is None,
        },
{
    let n = records.len();
    proof {
        assert(records@.skip(0) =~= records@);
    }
    for i in 0..n
        invariant
            n == records@.len(),
            spec_find(records@, name@) == spec_find(records@.skip(i as int), name@),
    {
        let found = records[i].name == *name;
        proof {
            assert(records@.skip(i as int)[0] == records@[i as int]);
            assert(records@.skip(i as int).drop_first() =~= records@.skip(i as int + 1));
        }
        if found {
            return Some(i);
        }
    }
    proof {
        assert(records@.skip(n as int) =~= Seq::<ApiDnsRecord>::empty());
    }
    None
}

/// Drives one reconciliation cycle as a step machine: the driver asks
/// [`Engine::next_call`] what to do, performs the network call, and hands
/// the result back through [`Engine::on_fetch`] or [`Engine::on_update`].
/// Tasks are processed strictly in order; a failed task is recorded and the
/// engine moves on to the next one.
pub struct Engine {
    pub tasks: Vec<ReconcileTask>,
    /// The TTL written on every update, in seconds.
    pub ttl: u32,
    /// The address this cycle reconciles against.
    pub resolved: Option<Ipv4>,
    /// Set when address resolution failed: the cycle is over before it
    /// starts, and no provider call is ever offered.
    pub cycle_error: Option<DdnsError>,
    /// Position of the current task.
    pub idx: usize,
    pub phase: Phase,
    pub reports: Vec<DomainReport>,
}

impl Engine {
    /// The cycle needs no further driver work.
    pub open spec fn done(self) -> bool {
        self.cycle_error is Some || self.idx == self.tasks@.len()
    }

    /// Internal consistency: one report per finished task, and an update is
    /// only ever pending for a fetched record whose content differs from
    /// the resolved address.
    pub open spec fn wf(self) -> bool {
        &&& self.idx <= self.tasks@.len()
        &&& self.reports@.len() == self.idx
        &&& (self.resolved is None <==> self.cycle_error is Some)
        &&& (self.cycle_error is Some ==> self.idx == 0 && self.reports@.len() == 0)
        &&& (self.phase matches Phase::Updating(rec) ==> self.idx < self.tasks@.len()
            && self.cycle_error is None && rec.content@ != spec_ipv4(self.resolved->Some_0))
    }

    /// Starts one cycle. When resolution failed, the cycle is complete
    /// immediately: no task runs and no provider call will be offered.
    pub fn begin(tasks: Vec<ReconcileTask>, ttl: u32, resolution: Result<Ipv4, DdnsError>) -> (e:
        Engine)
        ensures
            e.wf(),
            e.tasks == tasks,
            e.ttl == ttl,
            e.idx == 0,
            e.reports@ == Seq::<DomainReport>::empty(),
            e.phase is Fetching,
            match resolution {
                Ok(ip) => e.resolved == Some(ip) && e.cycle_error is None,
                Err(err) => e.resolved is None && e.cycle_error == Some(err) && e.done(),
            },
    {
        match resolution {
            Ok(ip) => Engine {
                tasks,
                ttl,
                resolved: Some(ip),
                cycle_error: None,
                idx: 0,
                phase: Phase::Fetching,
                reports: Vec::new(),
            },
            Err(err) => Engine {
                tasks,
                ttl,
                resolved: None,
                cycle_error: Some(err),
                idx: 0,
                phase: Phase::Fetching,
                reports: Vec::new(),
            },
        }
    }

    pub fn is_done(&self) -> (r: bool)
        ensures
            r == self.done(),
    {
        self.cycle_error.is_some() || self.idx == self.tasks.len()
    }

    /// The provider call the driver must perform now, if any.
    pub fn next_call(&self) -> (r: Option<ProviderCall>)
        requires
            self.wf(),
        ensures
            is_next_call(*self, r),
            r is None <==> self.done(),
    {
        if self.cycle_error.is_some() || self.idx == self.tasks.len() {
            return None;
        }
        let task = &self.tasks[self.idx];
        match &self.phase {
            Phase::Fetching => Some(ProviderCall::FetchRecords { zone_id: task.zone_id.clone() }),
            Phase::Updating(rec) => {
                let ip = self.resolved.unwrap();
                Some(
                    ProviderCall::UpdateRecord {
                        zone_id: task.zone_id.clone(),
                        update: DnsRecordUpdate {
                            id: rec.id.clone(),
                            name: task.record.clone(),
                            content: ip.format(),
                            ttl: self.ttl,
                            proxied: rec.proxied,
                            record_type: rec.record_type.clone(),
                        },
                    },
                )
            },
        }
    }

    /// Applies the listing fetched for the current task. An envelope that
    /// reports business-level failure marks the task failed even though the
    /// transport succeeded. Otherwise, a matching record whose content
    /// already equals the resolved address is skipped without any update
    /// being offered; a mismatching one moves the engine into the updating
    /// phase; a missing record or a failed fetch marks the task failed, and
    /// the engine moves on either way.
    pub fn on_fetch(&mut self, fetched: Result<ApiResponse<Vec<ApiDnsRecord>>, DdnsError>)
        requires
            old(self).wf(),
            !old(self).done(),
            old(self).phase is Fetching,
        ensures
            final(self).wf(),
            fetch_transition(*old(self), fetched, *final(self)),
    {
        let task_name = self.tasks[self.idx].name.clone();
        match fetched {
            Ok(env) => {
                if !env.success {
                    self.advance(Outcome::Failed(DdnsError::Api));
                    return;
                }
                let mut records = env.result;
                match find_record(&records, &task_name) {
                    Some(i) => {
                        let rec = records.remove(i);
                        let ip = self.resolved.unwrap();
                        let ip_text = ip.format();
                        if rec.content == ip_text {
                            self.advance(Outcome::SkippedUnchanged);
                        } else {
                            self.phase = Phase::Updating(rec);
                        }
                    },
                    None => {
                        self.advance(Outcome::Failed(DdnsError::NotFound));
                    },
                }
            },
            Err(err) => {
                self.advance(Outcome::Failed(err));
            },
        }
    }

    /// Applies the provider's answer to the offered update. A reachable
    /// provider whose envelope reports success marks the task updated; an
    /// envelope with `success` false is a business-level failure even though
    /// the transport succeeded; a transport failure is recorded as such. In
    /// every case the engine moves on to the next task.
    pub fn on_update(&mut self, response: Result<ApiResponse<ApiDnsRecord>, DdnsError>)
        requires
            old(self).wf(),
            old(self).phase is Updating,
        ensures
            final(self).wf(),
            update_transition(*old(self), response, *final(self)),
    {
        match response {
            Ok(env) => {
                if env.success {
                    self.advance(Outcome::Updated);
                } else {
                    self.advance(Outcome::Failed(DdnsError::Api));
                }
            },
            Err(err) => {
                self.advance(Outcome::Failed(err));
            },
        }
    }

    fn advance(&mut self, outcome: Outcome)
        requires
            old(self).wf(),
            old(self).idx < old(self).tasks@.len(),
            old(self).cycle_error is None,
        ensures
            final(self).wf(),
            spec_advanced(*old(self), *final(self), outcome),
    {
        // A vector is never longer than usize::MAX, so the increment below
        // cannot overflow while idx < tasks.len().
        let _n = self.tasks.len();
        let name = self.tasks[self.idx].name.clone();
        self.reports.push(DomainReport { name, outcome });
        self.idx = self.idx + 1;
        self.phase = Phase::Fetching;
    }

    /// Closes the cycle and hands out everything it decided.
    pub fn into_report(self) -> (r: CycleReport)
        requires
            self.wf(),
            self.done(),
        ensures
            r.resolved_ip == self.resolved,
            r.cycle_error == self.cycle_error,
            r.reports == self.reports,
    {
        CycleReport {
            resolved_ip: self.resolved,
            cycle_error: self.cycle_error,
            reports: self.reports,
        }
    }
}

/// What `next_call` answers in each engine state.
pub open spec fn is_next_call(e: Engine, r: Option<ProviderCall>) -> bool {
    match e.phase {
        Phase::Fetching => if e.done() {
            r is None
        } else {
            r == Some(ProviderCall::FetchRecords { zone_id: e.tasks@[e.idx as int].zone_id })
        },
        Phase::Updating(rec) => {
            &&& r matches Some(ProviderCall::UpdateRecord { zone_id, update })
            &&& zone_id == e.tasks@[e.idx as int].zone_id
            &&& update.id == rec.id
            &&& update.name == e.tasks@[e.idx as int].record
            &&& update.content@ == spec_ipv4(e.resolved->Some_0)
            &&& update.ttl == e.ttl
            &&& update.proxied == rec.proxied
            &&& update.record_type == rec.record_type
        },
    }
}

/// The engine moved past the current task, recording this outcome for it;
/// nothing else changed.
pub open spec fn spec_advanced(pre: Engine, post: Engine, outcome: Outcome) -> bool {
    &&& post.tasks == pre.tasks
    &&& post.ttl == pre.ttl
    &&& post.resolved == pre.resolved
    &&& post.cycle_error == pre.cycle_error
    &&& post.idx == pre.idx + 1
    &&& post.phase is Fetching
    &&& post.reports@ == pre.reports@.push(
        DomainReport { name: pre.tasks@[pre.idx as int].name, outcome },
    )
}

/// How `on_fetch` reacts to the fetched listing.
pub open spec fn fetch_transition(
    pre: Engine,
    fetched: Result<ApiResponse<Vec<ApiDnsRecord>>, DdnsError>,
    post: Engine,
) -> bool {
    match fetched {
        Ok(env) => if !env.success {
            spec_advanced(pre, post, Outcome::Failed(DdnsError::Api))
        } else {
            match spec_find(env.result@, pre.tasks@[pre.idx as int].name@) {
            Some(rec) => if rec.content@ == spec_ipv4(pre.resolved->Some_0) {
                spec_advanced(pre, post, Outcome::SkippedUnchanged)
            } else {
                &&& post.tasks == pre.tasks
                &&& post.ttl == pre.ttl
                &&& post.resolved == pre.resolved
                &&& post.cycle_error == pre.cycle_error
                &&& post.idx == pre.idx
                &&& post.phase matches Phase::Updating(r) && r == rec
                &&& post.reports == pre.reports
            },
            None => spec_advanced(pre, post, Outcome::Failed(DdnsError::NotFound)),
            }
        },
        Err(err) => spec_advanced(pre, post, Outcome::Failed(err)),
    }
}

/// How `on_update` reacts to the provider's answer.
pub open spec fn update_transition(
    pre: Engine,
    response: Result<ApiResponse<ApiDnsRecord>, DdnsError>,
    post: Engine,
) -> bool {
    match response {
        Ok(env) => if env.success {
            spec_advanced(pre, post, Outcome::Updated)
        } else {
            spec_advanced(pre, post, Outcome::Failed(DdnsError::Api))
        },
        Err(err) => spec_advanced(pre, post, Outcome::Failed(err)),
    }
}

/// When address resolution fails, the cycle makes no provider call at all:
/// an engine begun with a resolution error answers `next_call` with nothing.
pub proof fn lemma_failed_resolution_makes_no_calls(e: Engine, r: Option<ProviderCall>)
    requires
        e.wf(),
        e.cycle_error is Some,
        is_next_call(e, r),
    ensures
        r is None,
{
}

/// Idempotence: when the fetched record's content already equals the
/// resolved address, the task is reported skipped-unchanged and the engine
/// is back in the fetching phase, where no update call is ever offered.
pub proof fn lemma_unchanged_content_updates_nothing(
    pre: Engine,
    env: ApiResponse<Vec<ApiDnsRecord>>,
    post: Engine,
    r: Option<ProviderCall>,
)
    requires
        pre.wf(),
        !pre.done(),
        pre.phase is Fetching,
        env.success,
        fetch_transition(pre, Ok(env), post),
        spec_find(env.result@, pre.tasks@[pre.idx as int].name@) matches Some(rec)
            && rec.content@ == spec_ipv4(pre.resolved->Some_0),
        is_next_call(post, r),
    ensures
        post.idx == pre.idx + 1,
        post.reports@.last() == (DomainReport {
            name: pre.tasks@[pre.idx as int].name,
            outcome: Outcome::SkippedUnchanged,
        }),
        !(r matches Some(ProviderCall::UpdateRecord { .. })),
{
}

/// A mismatch leads to exactly one update call, carrying the resolved
/// address and the configured TTL and preserving the fetched record's type
/// and proxy flag; once its answer is applied the engine has moved past the
/// task, so no second update for it is ever offered.
pub proof fn lemma_mismatch_updates_exactly_once(
    pre: Engine,
    env: ApiResponse<Vec<ApiDnsRecord>>,
    mid: Engine,
    call: Option<ProviderCall>,
    response: Result<ApiResponse<ApiDnsRecord>, DdnsError>,
    post: Engine,
    later: Option<ProviderCall>,
)
    requires
        pre.wf(),
        !pre.done(),
        pre.phase is Fetching,
        env.success,
        fetch_transition(pre, Ok(env), mid),
        spec_find(env.result@, pre.tasks@[pre.idx as int].name@) matches Some(rec)
            && rec.content@ != spec_ipv4(pre.resolved->Some_0),
        is_next_call(mid, call),
        update_transition(mid, response, post),
        is_next_call(post, later),
    ensures
        call matches Some(ProviderCall::UpdateRecord { zone_id, update }) && {
            let rec = spec_find(env.result@, pre.tasks@[pre.idx as int].name@)->Some_0;
            &&& update.content@ == spec_ipv4(pre.resolved->Some_0)
            &&& update.ttl == pre.ttl
            &&& update.proxied == rec.proxied
            &&& update.record_type == rec.record_type
            &&& zone_id == pre.tasks@[pre.idx as int].zone_id
        },
        post.idx == pre.idx + 1,
        !(later matches Some(ProviderCall::UpdateRecord { .. })),
{
}

/// A provider envelope reporting failure marks the task failed with the
/// business-level error, yet the cycle itself goes on: the engine stands at
/// the next task with no cycle-level error.
pub proof fn lemma_envelope_failure_is_contained(
    pre: Engine,
    env: ApiResponse<ApiDnsRecord>,
    post: Engine,
)
    requires
        pre.wf(),
        pre.phase is Updating,
        !env.success,
        update_transition(pre, Ok(env), post),
    ensures
        post.reports@.last() == (DomainReport {
            name: pre.tasks@[pre.idx as int].name,
            outcome: Outcome::Failed(DdnsError::Api),
        }),
        post.cycle_error is None,
        post.idx == pre.idx + 1,
        post.idx < post.tasks@.len() ==> !post.done(),
{
}

/// Flattens a configuration into its reconciliation tasks: every record
/// name of every domain of every zone, in configuration order.
pub open spec fn spec_domain_tasks(zone_id: String, name: String, records: Seq<String>) -> Seq<
    ReconcileTask,
> {
    records.map_values(|r: String| ReconcileTask { zone_id, name, record: r })
}

pub open spec fn spec_zone_tasks(z: crate::models::Zone) -> Seq<ReconcileTask> {
    z.domains@.map_values(|d: crate::models::Domain| spec_domain_tasks(z.id, d.name, d.records@))
        .flatten()
}

pub open spec fn spec_config_tasks(c: Config) -> Seq<ReconcileTask> {
    c.zones@.map_values(|z: crate::models::Zone| spec_zone_tasks(z)).flatten()
}

/// Lists the tasks a configuration asks for, in configuration order.
pub fn tasks_of_config(c: &Config) -> (r: Vec<ReconcileTask>)
    ensures
        r@ == spec_config_tasks(*c),
{
    broadcast use Seq::lemma_flatten_push;

    let mut out: Vec<ReconcileTask> = Vec::new();
    let nz = c.zones.len();
    for zi in 0..nz
        invariant
            nz == c.zones@.len(),
            out@ == c.zones@.take(zi as int).map_values(
                |z: crate::models::Zone| spec_zone_tasks(z),
            ).flatten(),
    {
        let zone = &c.zones[zi];
        let nd = zone.domains.len();
        for di in 0..nd
            invariant
                nz == c.zones@.len(),
                zi < nz,
                zone == c.zones@[zi as int],
                nd == zone.domains@.len(),
                out@ == c.zones@.take(zi as int).map_values(
                    |z: crate::models::Zone| spec_zone_tasks(z),
                ).flatten() + zone.domains@.take(di as int).map_values(
                    |d: crate::models::Domain| spec_domain_tasks(zone.id, d.name, d.records@),
                ).flatten(),
        {
            let domain = &zone.domains[di];
            let nr = domain.records.len();
            for ri in 0..nr
                invariant
                    nz == c.zones@.len(),
                    zi < nz,
                    zone == c.zones@[zi as int],
                    nd == zone.domains@.len(),
                    di < nd,
                    domain == zone.domains@[di as int],
                    nr == domain.records@.len(),
                    out@ == c.zones@.take(zi as int).map_values(
                        |z: crate::models::Zone| spec_zone_tasks(z),
                    ).flatten() + zone.domains@.take(di as int).map_values(
                        |d: crate::models::Domain| spec_domain_tasks(zone.id, d.name, d.records@),
                    ).flatten() + spec_domain_tasks(zone.id, domain.name, domain.records@.take(
                        ri as int,
                    )),
            {
                out.push(
                    ReconcileTask {
                        zone_id: zone.id.clone(),
                        name: domain.name.clone(),
                        record: domain.records[ri].clone(),
                    },
                );
                proof {
                    assert(domain.records@.take(ri as int).map_values(
                        |r: String| ReconcileTask { zone_id: zone.id, name: domain.name, record: r },
                    ).push(
                        ReconcileTask {
                            zone_id: zone.id,
                            name: domain.name,
                            record: domain.records@[ri as int],
                        },
                    ) =~= domain.records@.take(ri as int + 1).map_values(
                        |r: String| ReconcileTask { zone_id: zone.id, name: domain.name, record: r },
                    ));
                }
            }
            proof {
                let za = c.zones@.take(zi as int).map_values(
                    |z: crate::models::Zone| spec_zone_tasks(z),
                ).flatten();
                let dm = zone.domains@.take(di as int).map_values(
                    |d: crate::models::Domain| spec_domain_tasks(zone.id, d.name, d.records@),
                );
                let dt = spec_domain_tasks(zone.id, domain.name, domain.records@);
                assert(domain.records@.take(nr as int) =~= domain.records@);
                assert(dm.push(dt) =~= zone.domains@.take(di as int + 1).map_values(
                    |d: crate::models::Domain| spec_domain_tasks(zone.id, d.name, d.records@),
                ));
                dm.lemma_flatten_push(dt);
                assert(dm.push(dt).flatten() == dm.flatten() + dt);
                assert(za + dm.flatten() + dt =~= za + (dm.flatten() + dt));
            }
        }
        proof {
            let za = c.zones@.take(zi as int).map_values(
                |z: crate::models::Zone| spec_zone_tasks(z),
            );
            let zt = spec_zone_tasks(*zone);
            assert(zone.domains@.take(nd as int) =~= zone.domains@);
            assert(za.push(zt) =~= c.zones@.take(zi as int + 1).map_values(
                |z: crate::models::Zone| spec_zone_tasks(z),
            ));
            za.lemma_flatten_push(zt);
            assert(za.push(zt).flatten() == za.flatten() + zt);
        }
    }
    proof {
        assert(c.zones@.take(nz as int) =~= c.zones@);
    }
    out
}

} // verus!
