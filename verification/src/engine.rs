//! The reconciliation engine: given the desired configuration, the
//! provider's observed state and one detected address, decides which records
//! must be created or overwritten, and drives the provider calls of one
//! cycle.

use vstd::prelude::*;

use crate::config::{Config, DomainRecord};
use crate::ip::Ip;
use crate::provider::{DnsProvider, DnsZones, NetworkError, ProviderError, Record, Zone};

verus! {

/// Whether an upsert creates a record the observed state lacks, or
/// overwrites one whose value went stale.
#[derive(Clone, Copy, Debug, PartialEq, Eq, Structural)]
pub enum ActionKind {
    Create,
    Update,
}

/// One decided provider call: upsert `record` in `zone`.
#[derive(Debug)]
pub struct UpsertAction {
    pub kind: ActionKind,
    pub zone: Zone,
    pub record: Record,
}

/// The first observed zone whose name is `name`, with its records.
pub open spec fn find_zone(obs: Seq<(Zone, Vec<Record>)>, name: Seq<char>) -> Option<
    (Zone, Vec<Record>),
>
    decreases obs.len(),
{
    if obs.len() == 0 {
        None
    } else if obs[0].0.name@ == name {
        Some(obs[0])
    } else {
        find_zone(obs.drop_first(), name)
    }
}

/// The zone an update for the configured zone `name` is routed to: the first
/// observed zone of that name, or, when the provider has not reported the
/// zone yet, a synthesized zone of that name with no id.
pub open spec fn resolved_zone(obs: Seq<(Zone, Vec<Record>)>, name: String) -> Zone {
    match find_zone(obs, name@) {
        Some(p) => p.0,
        None => Zone { name, id: None },
    }
}

/// The records the provider reports for the configured zone `name`: those of
/// the first observed zone of that name, or none when the zone is not
/// reported.
pub open spec fn observed_records(obs: Seq<(Zone, Vec<Record>)>, name: Seq<char>) -> Seq<Record> {
    match find_zone(obs, name) {
        Some(p) => p.1@,
        None => Seq::empty(),
    }
}

/// Whether `r` is the record an entry targeting `target` in the detected
/// family looks for: the family must agree and the name must equal the
/// target. A and AAAA are independent namespaces: a record of the other
/// family never matches, whatever its name.
pub open spec fn record_matches(r: Record, want_v4: bool, target: Seq<char>) -> bool {
    match r {
        Record::A { name, .. } => want_v4 && name@ == target,
        Record::AAAA { name, .. } => !want_v4 && name@ == target,
    }
}

/// The first record of the wanted family whose name is `target`.
pub open spec fn find_record(records: Seq<Record>, want_v4: bool, target: Seq<char>) -> Option<
    Record,
>
    decreases records.len(),
{
    if records.len() == 0 {
        None
    } else if record_matches(records[0], want_v4, target) {
        Some(records[0])
    } else {
        find_record(records.drop_first(), want_v4, target)
    }
}

/// Whether the record already carries the detected address. False whenever
/// the families differ.
pub open spec fn record_value_is(r: Record, ip: Ip) -> bool {
    match (r, ip) {
        (Record::A { value, .. }, Ip::V4(v)) => value == v,
        (Record::AAAA { value, .. }, Ip::V6(v)) => value == v,
        _ => false,
    }
}

/// The target name an entry contributes in the detected family: its A target
/// under an IPv4 detection, its AAAA target under an IPv6 one. Only the
/// detected family is ever considered in a cycle.
pub open spec fn entry_target(e: DomainRecord, ip: Ip) -> Option<String> {
    match ip {
        Ip::V4(_) => e.a,
        Ip::V6(_) => e.aaaa,
    }
}

/// The record an upsert writes: the target name, the detected address, and
/// the entry's configured ttl.
pub open spec fn fresh_record(target: String, ip: Ip, ttl: u32) -> Record {
    match ip {
        Ip::V4(v) => Record::A { name: target, value: v, ttl },
        Ip::V6(v) => Record::AAAA { name: target, value: v, ttl },
    }
}

/// The upsert actions one desired entry of zone `zone_name` contributes:
/// none when the entry has no target in the detected family; a create when
/// the observed zone has no record of the matching name and family; an
/// update when it has one with a different address; nothing when the address
/// is unchanged. A ttl difference alone never triggers an action.
pub open spec fn entry_actions(
    zone_name: String,
    e: DomainRecord,
    ip: Ip,
    obs: Seq<(Zone, Vec<Record>)>,
) -> Seq<UpsertAction> {
    match entry_target(e, ip) {
        None => Seq::empty(),
        Some(target) => {
            let zone = resolved_zone(obs, zone_name);
            match find_record(observed_records(obs, zone_name@), ip is V4, target@) {
                None => seq![
                    UpsertAction {
                        kind: ActionKind::Create,
                        zone,
                        record: fresh_record(target, ip, e.ttl),
                    },
                ],
                Some(r) => if record_value_is(r, ip) {
                    Seq::empty()
                } else {
                    seq![
                        UpsertAction {
                            kind: ActionKind::Update,
                            zone,
                            record: fresh_record(target, ip, e.ttl),
                        },
                    ]
                },
            }
        },
    }
}

/// The actions of the entries of one zone from index `k` on, in entry order.
pub open spec fn zone_plan_from(
    zone_name: String,
    entries: Seq<DomainRecord>,
    ip: Ip,
    obs: Seq<(Zone, Vec<Record>)>,
    k: int,
) -> Seq<UpsertAction>
    decreases entries.len() - k,
{
    if k < 0 || k >= entries.len() {
        Seq::empty()
    } else {
        entry_actions(zone_name, entries[k], ip, obs) + zone_plan_from(
            zone_name,
            entries,
            ip,
            obs,
            k + 1,
        )
    }
}

/// The actions of all entries of one zone, in entry order.
pub open spec fn zone_plan(
    zone_name: String,
    entries: Seq<DomainRecord>,
    ip: Ip,
    obs: Seq<(Zone, Vec<Record>)>,
) -> Seq<UpsertAction> {
    zone_plan_from(zone_name, entries, ip, obs, 0)
}

/// The whole cycle's actions from zone index `k` on: zone by zone, entry by
/// entry, in configuration order.
pub open spec fn plan_from(
    zones: Seq<(String, Vec<DomainRecord>)>,
    ip: Ip,
    obs: Seq<(Zone, Vec<Record>)>,
    k: int,
) -> Seq<UpsertAction>
    decreases zones.len() - k,
{
    if k < 0 || k >= zones.len() {
        Seq::empty()
    } else {
        zone_plan(zones[k].0, zones[k].1@, ip, obs) + plan_from(zones, ip, obs, k + 1)
    }
}

/// The minimal set of upserts a cycle must issue: for every configured zone
/// and every desired entry, in order, the entry's decided action, if any.
pub open spec fn plan(
    zones: Seq<(String, Vec<DomainRecord>)>,
    ip: Ip,
    obs: Seq<(Zone, Vec<Record>)>,
) -> Seq<UpsertAction> {
    plan_from(zones, ip, obs, 0)
}

proof fn lemma_find_zone_at(obs: Seq<(Zone, Vec<Record>)>, name: Seq<char>, i: int)
    requires
        0 <= i < obs.len(),
        obs[i].0.name@ == name,
        forall|j: int| 0 <= j < i ==> obs[j].0.name@ != name,
    ensures
        find_zone(obs, name) == Some(obs[i]),
    decreases i,
{
    if i > 0 {
        lemma_find_zone_at(obs.drop_first(), name, i - 1);
    }
}

proof fn lemma_find_zone_none(obs: Seq<(Zone, Vec<Record>)>, name: Seq<char>)
    requires
        forall|j: int| 0 <= j < obs.len() ==> obs[j].0.name@ != name,
    ensures
        find_zone(obs, name) is None,
    decreases obs.len(),
{
    if obs.len() > 0 {
        lemma_find_zone_none(obs.drop_first(), name);
    }
}

proof fn lemma_find_record_at(records: Seq<Record>, want_v4: bool, target: Seq<char>, i: int)
    requires
        0 <= i < records.len(),
        record_matches(records[i], want_v4, target),
        forall|j: int| 0 <= j < i ==> !record_matches(records[j], want_v4, target),
    ensures
        find_record(records, want_v4, target) == Some(records[i]),
    decreases i,
{
    if i > 0 {
        lemma_find_record_at(records.drop_first(), want_v4, target, i - 1);
    }
}

proof fn lemma_find_record_none(records: Seq<Record>, want_v4: bool, target: Seq<char>)
    requires
        forall|j: int| 0 <= j < records.len() ==> !record_matches(records[j], want_v4, target),
    ensures
        find_record(records, want_v4, target) is None,
    decreases records.len(),
{
    if records.len() > 0 {
        lemma_find_record_none(records.drop_first(), want_v4, target);
    }
}

/// The index of the first observed zone named `zone_name`, if any.
fn find_zone_index(observed: &DnsZones, zone_name: &String) -> (r: Option<usize>)
    ensures
        match r {
            Some(i) => {
                &&& i < observed.entries@.len()
                &&& observed.entries@[i as int].0.name@ == zone_name@
                &&& find_zone(observed.entries@, zone_name@) == Some(observed.entries@[i as int])
            },
            None => find_zone(observed.entries@, zone_name@) is None,
        },
{
    let mut i: usize = 0;
    while i < observed.entries.len()
        invariant
            i <= observed.entries@.len(),
            forall|j: int| 0 <= j < i ==> observed.entries@[j].0.name@ != zone_name@,
        decreases observed.entries@.len() - i,
    {
        if observed.entries[i].0.name == *zone_name {
            proof {
                lemma_find_zone_at(observed.entries@, zone_name@, i as int);
            }
            return Some(i);
        }
        i = i + 1;
    }
    proof {
        lemma_find_zone_none(observed.entries@, zone_name@);
    }
    None
}

impl DnsZones {
    /// The first observed zone named `zone_name`, or, when the provider has
    /// not reported that zone, a fresh zone of that name with no id. The
    /// lookup goes by name alone: the id of an observed zone never takes
    /// part in it.
    pub fn find_or_create(&self, zone_name: &String) -> (z: Zone)
        ensures
            z == resolved_zone(self.entries@, *zone_name),
    {
        match find_zone_index(self, zone_name) {
            Some(i) => self.entries[i].0.duplicate(),
            None => Zone::new(zone_name.clone()),
        }
    }
}

/// The first observed record of the wanted family whose name is `target`.
fn find_matching_record<'a>(records: &'a Vec<Record>, want_v4: bool, target: &String) -> (r: Option<
    &'a Record,
>)
    ensures
        match r {
            Some(rec) => find_record(records@, want_v4, target@) == Some(*rec),
            None => find_record(records@, want_v4, target@) is None,
        },
{
    let mut i: usize = 0;
    while i < records.len()
        invariant
            i <= records@.len(),
            forall|j: int| 0 <= j < i ==> !record_matches(records@[j], want_v4, target@),
        decreases records@.len() - i,
    {
        let matched = match &records[i] {
            Record::A { name, .. } => want_v4 && *name == *target,
            Record::AAAA { name, .. } => !want_v4 && *name == *target,
        };
        if matched {
            proof {
                lemma_find_record_at(records@, want_v4, target@, i as int);
            }
            return Some(&records[i]);
        }
        i = i + 1;
    }
    proof {
        lemma_find_record_none(records@, want_v4, target@);
    }
    None
}

/// Decides what, if anything, one desired entry of zone `zone_name` asks of
/// the provider: exactly the action of [`entry_actions`].
pub fn entry_action(zone_name: &String, entry: &DomainRecord, ip: &Ip, observed: &DnsZones) -> (r:
    Option<UpsertAction>)
    ensures
        match r {
            Some(a) => entry_actions(*zone_name, *entry, *ip, observed.entries@) == seq![a],
            None => entry_actions(*zone_name, *entry, *ip, observed.entries@) == Seq::<
                UpsertAction,
            >::empty(),
        },
{
    let target = match ip {
        Ip::V4(_) => entry.a.as_ref(),
        Ip::V6(_) => entry.aaaa.as_ref(),
    };
    let target = match target {
        Some(t) => t,
        None => {
            return None;
        },
    };
    let (zone, existing) = match find_zone_index(observed, zone_name) {
        Some(i) => {
            let existing = find_matching_record(&observed.entries[i].1, ip.is_v4(), target);
            (observed.entries[i].0.duplicate(), existing)
        },
        None => {
            proof {
                assert(find_record(Seq::<Record>::empty(), *ip is V4, target@) is None);
            }
            (Zone::new(zone_name.clone()), None)
        },
    };
    let kind = match existing {
        None => ActionKind::Create,
        Some(rec) => {
            let unchanged = match (rec, ip) {
                (Record::A { value, .. }, Ip::V4(v)) => *value == *v,
                (Record::AAAA { value, .. }, Ip::V6(v)) => *value == *v,
                _ => false,
            };
            if unchanged {
                return None;
            }
            ActionKind::Update
        },
    };
    let record = match ip {
        Ip::V4(v) => Record::A { name: target.clone(), value: *v, ttl: entry.ttl },
        Ip::V6(v) => Record::AAAA { name: target.clone(), value: *v, ttl: entry.ttl },
    };
    Some(UpsertAction { kind, zone, record })
}

/// Computes the whole cycle's upsert actions: for every configured zone and
/// every desired entry, in order, the entry's decided action, if any.
pub fn plan_updates(config: &Config, ip: &Ip, observed: &DnsZones) -> (r: Vec<UpsertAction>)
    ensures
        r@ == plan(config.zones@, *ip, observed.entries@),
{
    let ghost zs = config.zones@;
    let ghost obs = observed.entries@;
    let mut result: Vec<UpsertAction> = Vec::new();
    proof {
        assert(result@ + plan_from(zs, *ip, obs, 0) =~= plan_from(zs, *ip, obs, 0));
    }
    let mut i: usize = 0;
    while i < config.zones.len()
        invariant
            i <= zs.len(),
            zs == config.zones@,
            obs == observed.entries@,
            plan(zs, *ip, obs) == result@ + plan_from(zs, *ip, obs, i as int),
        decreases zs.len() - i,
    {
        let zone = &config.zones[i];
        let ghost entries = zone.1@;
        proof {
            assert(plan_from(zs, *ip, obs, i as int) == zone_plan_from(zs[i as int].0, entries, *ip, obs, 0)
                + plan_from(zs, *ip, obs, i as int + 1));
        }
        let mut j: usize = 0;
        while j < zone.1.len()
            invariant
                j <= entries.len(),
                entries == zone.1@,
                obs == observed.entries@,
                zone == config.zones@[i as int],
                0 <= i < config.zones@.len(),
                plan(zs, *ip, obs) == result@ + zone_plan_from(
                    config.zones@[i as int].0,
                    entries,
                    *ip,
                    obs,
                    j as int,
                ) + plan_from(zs, *ip, obs, i as int + 1),
            decreases entries.len() - j,
        {
            let ghost zname = config.zones@[i as int].0;
            let ghost before = result@;
            let ghost acts = entry_actions(zname, entries[j as int], *ip, obs);
            proof {
                assert(zone_plan_from(zname, entries, *ip, obs, j as int) == acts
                    + zone_plan_from(zname, entries, *ip, obs, j as int + 1));
            }
            match entry_action(&zone.0, &zone.1[j], ip, observed) {
                Some(action) => {
                    result.push(action);
                    proof {
                        assert(result@ =~= before + acts);
                        assert((before + acts) + (zone_plan_from(zname, entries, *ip, obs, j as int + 1)
                            + plan_from(zs, *ip, obs, i as int + 1)) =~= before + (acts
                            + zone_plan_from(zname, entries, *ip, obs, j as int + 1)) + plan_from(
                            zs,
                            *ip,
                            obs,
                            i as int + 1,
                        ));
                        assert(before + (acts + zone_plan_from(zname, entries, *ip, obs, j as int + 1))
                            + plan_from(zs, *ip, obs, i as int + 1) =~= before + acts
                            + (zone_plan_from(zname, entries, *ip, obs, j as int + 1) + plan_from(
                            zs,
                            *ip,
                            obs,
                            i as int + 1,
                        )));
                    }
                },
                None => {
                    proof {
                        assert(result@ + (Seq::<UpsertAction>::empty() + zone_plan_from(
                            zname,
                            entries,
                            *ip,
                            obs,
                            j as int + 1,
                        )) =~= result@ + zone_plan_from(zname, entries, *ip, obs, j as int + 1));
                        assert(Seq::<UpsertAction>::empty() + zone_plan_from(
                            zname,
                            entries,
                            *ip,
                            obs,
                            j as int + 1,
                        ) =~= zone_plan_from(zname, entries, *ip, obs, j as int + 1));
                    }
                },
            }
            j = j + 1;
        }
        proof {
            assert(zone_plan_from(config.zones@[i as int].0, entries, *ip, obs, entries.len() as int)
                =~= Seq::<UpsertAction>::empty());
            assert(result@ + Seq::<UpsertAction>::empty() + plan_from(zs, *ip, obs, i as int + 1)
                =~= result@ + plan_from(zs, *ip, obs, i as int + 1));
        }
        i = i + 1;
    }
    proof {
        assert(plan_from(zs, *ip, obs, zs.len() as int) =~= Seq::<UpsertAction>::empty());
        assert(result@ + Seq::<UpsertAction>::empty() =~= result@);
    }
    result
}

/// The error that fails a whole reconciliation cycle: the external address
/// could not be detected, or the provider's observed state could not be
/// fetched. Per-record upsert failures never fail a cycle.
#[derive(Debug)]
pub enum CycleError {
    Detection(NetworkError),
    Provider(ProviderError),
}

/// What one successful cycle did: the observed state it fetched, the upsert
/// actions it decided on and issued, and, aligned with the actions, the
/// error of each issued provider call, if any. Upsert errors are absorbed
/// here so that one failing record never blocks the rest.
pub struct CycleReport {
    pub observed: DnsZones,
    pub actions: Vec<UpsertAction>,
    pub upsert_errors: Vec<Option<ProviderError>>,
}

/// Runs one reconciliation cycle: takes the detection's outcome, fetches the
/// provider's observed state once, computes the plan, and issues one upsert
/// per planned action, absorbing per-record failures.
///
/// A failed detection fails the cycle before any provider call; a failed
/// fetch fails it before any upsert. A successful cycle's issued actions are
/// exactly the plan for the state it observed.
pub fn run_once<P: DnsProvider>(
    config: &Config,
    provider: &P,
    detection: Result<Ip, NetworkError>,
) -> (r: Result<CycleReport, CycleError>)
    ensures
        detection matches Err(e) ==> r == Err::<CycleReport, CycleError>(CycleError::Detection(e)),
        r matches Err(CycleError::Detection(e)) ==> detection == Err::<Ip, NetworkError>(e),
        r matches Ok(rep) ==> {
            &&& detection matches Ok(ip) && rep.actions@ == plan(
                config.zones@,
                ip,
                rep.observed.entries@,
            )
            &&& rep.upsert_errors@.len() == rep.actions@.len()
        },
{
    let ip = match detection {
        Ok(ip) => ip,
        Err(e) => {
            return Err(CycleError::Detection(e));
        },
    };
    let observed = match provider.current(config) {
        Ok(o) => o,
        Err(e) => {
            return Err(CycleError::Provider(e));
        },
    };
    let actions = plan_updates(config, &ip, &observed);
    let mut upsert_errors: Vec<Option<ProviderError>> = Vec::new();
    let mut i: usize = 0;
    while i < actions.len()
        invariant
            i <= actions@.len(),
            upsert_errors@.len() == i,
        decreases actions@.len() - i,
    {
        let action = &actions[i];
        let outcome = provider.update(&action.zone, action.record.duplicate());
        upsert_errors.push(
            match outcome {
                Ok(_) => None,
                Err(e) => Some(e),
            },
        );
        i = i + 1;
    }
    Ok(CycleReport { observed, actions, upsert_errors })
}

/// Law: an entry whose target of the detected family has no record of the
/// matching name and family in the observed state contributes exactly one
/// create-upsert, and the record it writes carries the target name, the
/// detected address and the entry's configured ttl.
pub proof fn lemma_create_when_absent(
    zone_name: String,
    entry: DomainRecord,
    ip: Ip,
    obs: Seq<(Zone, Vec<Record>)>,
    target: String,
)
    requires
        entry_target(entry, ip) == Some(target),
        find_record(observed_records(obs, zone_name@), ip is V4, target@) is None,
    ensures
        entry_actions(zone_name, entry, ip, obs) == seq![
            UpsertAction {
                kind: ActionKind::Create,
                zone: resolved_zone(obs, zone_name),
                record: fresh_record(target, ip, entry.ttl),
            },
        ],
        fresh_record(target, ip, entry.ttl).spec_name() == target@,
        fresh_record(target, ip, entry.ttl).spec_ttl() == entry.ttl,
        record_value_is(fresh_record(target, ip, entry.ttl), ip),
{
}

/// Law: an entry whose observed record already carries the detected address
/// contributes no action at all, whatever the record's ttl: the cycle is
/// idempotent while the address is unchanged.
pub proof fn lemma_no_action_when_unchanged(
    zone_name: String,
    entry: DomainRecord,
    ip: Ip,
    obs: Seq<(Zone, Vec<Record>)>,
    target: String,
    existing: Record,
)
    requires
        entry_target(entry, ip) == Some(target),
        find_record(observed_records(obs, zone_name@), ip is V4, target@) == Some(existing),
        record_value_is(existing, ip),
    ensures
        entry_actions(zone_name, entry, ip, obs) == Seq::<UpsertAction>::empty(),
{
}

/// Law: an entry whose observed record carries a different address
/// contributes exactly one update-upsert, and the record it writes carries
/// the new address and the entry's configured ttl — never the old record's
/// ttl.
pub proof fn lemma_update_when_stale(
    zone_name: String,
    entry: DomainRecord,
    ip: Ip,
    obs: Seq<(Zone, Vec<Record>)>,
    target: String,
    existing: Record,
)
    requires
        entry_target(entry, ip) == Some(target),
        find_record(observed_records(obs, zone_name@), ip is V4, target@) == Some(existing),
        !record_value_is(existing, ip),
    ensures
        entry_actions(zone_name, entry, ip, obs) == seq![
            UpsertAction {
                kind: ActionKind::Update,
                zone: resolved_zone(obs, zone_name),
                record: fresh_record(target, ip, entry.ttl),
            },
        ],
        fresh_record(target, ip, entry.ttl).spec_ttl() == entry.ttl,
        record_value_is(fresh_record(target, ip, entry.ttl), ip),
{
}

/// Law: only the detected address family is ever evaluated in a cycle.
/// Under an IPv4 detection an entry with no A target contributes nothing —
/// its AAAA side is never even considered — and symmetrically under IPv6;
/// whatever an entry contributes is a record of the detected family.
pub proof fn lemma_family_selection(
    zone_name: String,
    entry: DomainRecord,
    ip: Ip,
    obs: Seq<(Zone, Vec<Record>)>,
)
    ensures
        ip is V4 && entry.a is None ==> entry_actions(zone_name, entry, ip, obs) == Seq::<
            UpsertAction,
        >::empty(),
        ip is V6 && entry.aaaa is None ==> entry_actions(zone_name, entry, ip, obs) == Seq::<
            UpsertAction,
        >::empty(),
        forall|k: int|
            0 <= k < entry_actions(zone_name, entry, ip, obs).len() ==> ((
            #[trigger] entry_actions(zone_name, entry, ip, obs)[k].record) is A <==> ip is V4),
{
}

proof fn lemma_find_zone_ignores_ids(
    obs1: Seq<(Zone, Vec<Record>)>,
    obs2: Seq<(Zone, Vec<Record>)>,
    name: Seq<char>,
)
    requires
        obs1.len() == obs2.len(),
        forall|i: int|
            0 <= i < obs1.len() ==> (#[trigger] obs1[i]).0.name@ == obs2[i].0.name@ && obs1[i].1
                == obs2[i].1,
    ensures
        find_zone(obs1, name) is Some <==> find_zone(obs2, name) is Some,
        find_zone(obs1, name) matches Some(p1) ==> find_zone(obs2, name) matches Some(p2)
            && p1.0.name@ == p2.0.name@ && p1.1 == p2.1,
    decreases obs1.len(),
{
    if obs1.len() > 0 {
        if obs1[0].0.name@ != name {
            assert(forall|i: int|
                0 <= i < obs1.drop_first().len() ==> (#[trigger] obs1.drop_first()[i]).0.name@
                    == obs2.drop_first()[i].0.name@ && obs1.drop_first()[i].1
                    == obs2.drop_first()[i].1);
            lemma_find_zone_ignores_ids(obs1.drop_first(), obs2.drop_first(), name);
        }
    }
}

/// Law: zone identity goes by name alone. Two observed states that agree on
/// every zone's name and records — differing only in the provider-assigned
/// zone ids, present or missing — are treated as the same by the engine's
/// lookup: every entry's decision, the kind of action it takes and the
/// record it writes are identical, and the zone each action is routed to has
/// the same name.
pub proof fn lemma_zone_identity(
    zone_name: String,
    entry: DomainRecord,
    ip: Ip,
    obs1: Seq<(Zone, Vec<Record>)>,
    obs2: Seq<(Zone, Vec<Record>)>,
)
    requires
        obs1.len() == obs2.len(),
        forall|i: int|
            0 <= i < obs1.len() ==> (#[trigger] obs1[i]).0.name@ == obs2[i].0.name@ && obs1[i].1
                == obs2[i].1,
    ensures
        entry_actions(zone_name, entry, ip, obs1).len() == entry_actions(
            zone_name,
            entry,
            ip,
            obs2,
        ).len(),
        forall|k: int|
            0 <= k < entry_actions(zone_name, entry, ip, obs1).len() ==> {
                &&& (#[trigger] entry_actions(zone_name, entry, ip, obs1)[k]).kind == entry_actions(
                    zone_name,
                    entry,
                    ip,
                    obs2,
                )[k].kind
                &&& entry_actions(zone_name, entry, ip, obs1)[k].record == entry_actions(
                    zone_name,
                    entry,
                    ip,
                    obs2,
                )[k].record
                &&& entry_actions(zone_name, entry, ip, obs1)[k].zone.name@ == entry_actions(
                    zone_name,
                    entry,
                    ip,
                    obs2,
                )[k].zone.name@
            },
{
    lemma_find_zone_ignores_ids(obs1, obs2, zone_name@);
}

} // verus!
