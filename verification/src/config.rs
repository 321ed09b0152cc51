//! The desired-state configuration: which names should track the external
//! address, grouped by zone, plus the reconciliation interval.

use vstd::prelude::*;

verus! {

/// The reconciliation interval used when the configuration gives none, in
/// seconds.
pub const DEFAULT_INTERVAL: u64 = 1800;

/// The record time to live used when an entry gives none, in seconds.
pub const DEFAULT_TTL: u32 = 300;

/// The interval a configuration falls back to when it leaves the interval
/// unset or zero, in seconds.
pub fn default_interval() -> (r: u64)
    ensures
        r == DEFAULT_INTERVAL,
{
    DEFAULT_INTERVAL
}

/// The time to live an entry falls back to when it gives none, in seconds.
pub fn default_ttl() -> (r: u32)
    ensures
        r == DEFAULT_TTL,
{
    DEFAULT_TTL
}

/// One desired record entry of a zone: an optional A target name, an
/// optional AAAA target name, and the ttl (seconds) for records written on
/// its behalf. An entry with neither target is dropped when the
/// configuration is validated.
#[derive(Clone, Debug, PartialEq)]
pub struct DomainRecord {
    pub a: Option<String>,
    pub aaaa: Option<String>,
    pub ttl: u32,
}

impl DomainRecord {
    /// Whether the entry names at least one target and so survives
    /// validation.
    pub open spec fn has_target(&self) -> bool {
        self.a is Some || self.aaaa is Some
    }

    /// A copy of this entry, equal to it field for field.
    pub fn duplicate(&self) -> (r: DomainRecord)
        ensures
            r == *self,
    {
        DomainRecord {
            a: match &self.a {
                Some(t) => Some(t.clone()),
                None => None,
            },
            aaaa: match &self.aaaa {
                Some(t) => Some(t.clone()),
                None => None,
            },
            ttl: self.ttl,
        }
    }
}

/// The desired configuration, loaded once per process lifetime and read-only
/// afterwards: the interval between reconciliation cycles (seconds) and, per
/// zone name, the ordered desired record entries.
#[derive(Debug, PartialEq)]
pub struct Config {
    pub interval: u64,
    pub zones: Vec<(String, Vec<DomainRecord>)>,
}

/// The configuration is rejected: after entries lacking both targets are
/// dropped, no zone keeps any entry.
#[derive(Debug, PartialEq, Eq, Structural)]
pub enum ConfigError {
    Empty,
}

/// The entries of one zone that survive validation: those naming at least
/// one target, in their given order.
pub open spec fn surviving_entries(entries: Seq<DomainRecord>) -> Seq<DomainRecord> {
    entries.filter(|e: DomainRecord| e.has_target())
}

/// The zones of a raw configuration that survive validation: each zone's
/// entries are filtered, and zones left with no entry are dropped, all in
/// their given order.
pub open spec fn surviving_zones(zones: Seq<(String, Vec<DomainRecord>)>) -> Seq<
    (String, Seq<DomainRecord>),
>
    decreases zones.len(),
{
    if zones.len() == 0 {
        Seq::empty()
    } else {
        let kept = surviving_entries(zones[0].1@);
        let rest = surviving_zones(zones.drop_first());
        if kept.len() == 0 {
            rest
        } else {
            seq![(zones[0].0, kept)] + rest
        }
    }
}

/// The zone sequence of a validated configuration, with each zone's entry
/// vector replaced by its view, for comparison against `surviving_zones`.
pub open spec fn zones_view(zones: Seq<(String, Vec<DomainRecord>)>) -> Seq<
    (String, Seq<DomainRecord>),
> {
    zones.map_values(|z: (String, Vec<DomainRecord>)| (z.0, z.1@))
}

impl Config {
    /// Whether the configuration names a zone called `name`.
    pub open spec fn spec_has_zone(&self, name: Seq<char>) -> bool {
        exists|i: int| 0 <= i < self.zones@.len() && self.zones@[i].0@ == name
    }

    /// Whether the configuration names a zone called `name`.
    pub fn has_zone(&self, name: &String) -> (r: bool)
        ensures
            r == self.spec_has_zone(name@),
    {
        let mut i: usize = 0;
        while i < self.zones.len()
            invariant
                i <= self.zones@.len(),
                forall|j: int| 0 <= j < i ==> self.zones@[j].0@ != name@,
            decreases self.zones@.len() - i,
        {
            if self.zones[i].0 == *name {
                return true;
            }
            i = i + 1;
        }
        false
    }
}

/// Whether one desired entry targets the record name in the given family.
pub open spec fn targets_name(e: DomainRecord, name: Seq<char>, is_a: bool) -> bool {
    if is_a {
        e.a matches Some(t) && t@ == name
    } else {
        e.aaaa matches Some(t) && t@ == name
    }
}

/// Whether any desired entry of a zone targets the reported record name in
/// the given family — the test that keeps a provider-reported record in the
/// observed state.
pub fn any_entry_targets(entries: &Vec<DomainRecord>, name: &String, is_a: bool) -> (r: bool)
    ensures
        r == exists|i: int|
            0 <= i < entries@.len() && targets_name(#[trigger] entries@[i], name@, is_a),
{
    let mut i: usize = 0;
    while i < entries.len()
        invariant
            i <= entries@.len(),
            forall|j: int| 0 <= j < i ==> !targets_name(#[trigger] entries@[j], name@, is_a),
        decreases entries@.len() - i,
    {
        let target = if is_a {
            entries[i].a.as_ref()
        } else {
            entries[i].aaaa.as_ref()
        };
        let hit = match target {
            Some(t) => *t == *name,
            None => false,
        };
        if hit {
            return true;
        }
        i = i + 1;
    }
    false
}

/// Validates a freshly parsed configuration: drops entries that name neither
/// an A nor an AAAA target, drops zones left empty by that, substitutes the
/// default interval for a zero one, and rejects a configuration whose zones
/// all vanish.
pub fn validate_config(interval: u64, zones: Vec<(String, Vec<DomainRecord>)>) -> (r: Result<
    Config,
    ConfigError,
>)
    ensures
        surviving_zones(zones@).len() == 0 <==> r == Err::<Config, ConfigError>(ConfigError::Empty),
        r matches Ok(c) ==> {
            &&& zones_view(c.zones@) == surviving_zones(zones@)
            &&& c.interval == if interval == 0 {
                DEFAULT_INTERVAL as u64
            } else {
                interval
            }
            &&& c.interval > 0
        },
{
    let mut kept_zones: Vec<(String, Vec<DomainRecord>)> = Vec::new();
    proof {
        assert(zones@.skip(0) =~= zones@);
        assert(zones_view(kept_zones@) + surviving_zones(zones@) =~= surviving_zones(zones@));
    }
    let mut i: usize = 0;
    while i < zones.len()
        invariant
            i <= zones@.len(),
            zones_view(kept_zones@) + surviving_zones(zones@.skip(i as int)) == surviving_zones(
                zones@,
            ),
        decreases zones@.len() - i,
    {
        let ghost prefix = kept_zones@;
        let zone = &zones[i];
        let mut kept_entries: Vec<DomainRecord> = Vec::new();
        proof {
            assert(zone.1@.take(0) =~= Seq::<DomainRecord>::empty());
            reveal_with_fuel(Seq::filter, 1);
        }
        let mut j: usize = 0;
        while j < zone.1.len()
            invariant
                j <= zone.1@.len(),
                kept_entries@ == surviving_entries(zone.1@.take(j as int)),
            decreases zone.1@.len() - j,
        {
            let entry = &zone.1[j];
            proof {
                reveal_with_fuel(Seq::filter, 1);
                let taken = zone.1@.take(j as int + 1);
                assert(taken.drop_last() =~= zone.1@.take(j as int));
                assert(taken.last() == zone.1@[j as int]);
                if zone.1@[j as int].has_target() {
                    assert(surviving_entries(taken) == surviving_entries(zone.1@.take(j as int))
                        + seq![zone.1@[j as int]]);
                } else {
                    assert(surviving_entries(taken) =~= surviving_entries(
                        zone.1@.take(j as int),
                    ));
                }
            }
            if entry.a.is_some() || entry.aaaa.is_some() {
                kept_entries.push(entry.duplicate());
            }
            j = j + 1;
        }
        let ghost tail = surviving_zones(zones@.skip(i as int + 1));
        proof {
            assert(zone.1@.take(zone.1@.len() as int) =~= zone.1@);
            assert(zones@.skip(i as int).drop_first() =~= zones@.skip(i as int + 1));
            assert(zones@.skip(i as int)[0] == zones@[i as int]);
            assert(surviving_zones(zones@.skip(i as int)) == if kept_entries@.len() == 0 {
                tail
            } else {
                seq![(zones@[i as int].0, kept_entries@)] + tail
            });
        }
        if kept_entries.len() > 0 {
            let name = zone.0.clone();
            kept_zones.push((name, kept_entries));
            proof {
                assert(zones_view(kept_zones@) =~= zones_view(prefix) + seq![
                    (zones@[i as int].0, surviving_entries(zones@[i as int].1@)),
                ]);
                assert(zones_view(prefix) + (seq![
                    (zones@[i as int].0, surviving_entries(zones@[i as int].1@)),
                ] + tail) =~= (zones_view(prefix) + seq![
                    (zones@[i as int].0, surviving_entries(zones@[i as int].1@)),
                ]) + tail);
            }
        }
        i = i + 1;
    }
    proof {
        assert(zones@.skip(zones@.len() as int) =~= Seq::<(String, Vec<DomainRecord>)>::empty());
        assert(zones_view(kept_zones@) + Seq::<(String, Seq<DomainRecord>)>::empty() =~= zones_view(
            kept_zones@,
        ));
    }
    if kept_zones.len() == 0 {
        proof {
            assert(zones_view(kept_zones@) =~= Seq::<(String, Seq<DomainRecord>)>::empty());
        }
        Err(ConfigError::Empty)
    } else {
        let chosen_interval: u64 = if interval == 0 {
            default_interval()
        } else {
            interval
        };
        proof {
            assert(zones_view(kept_zones@).len() == kept_zones@.len());
        }
        Ok(Config { interval: chosen_interval, zones: kept_zones })
    }
}

} // verus!
