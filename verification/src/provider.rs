//! The shared DNS data model: zones, address records, the provider's
//! observed state, and the trait a provider backend implements.

use vstd::prelude::*;

use crate::config::Config;

verus! {

/// A DNS zone, identified by its canonical hostname. The provider-assigned
/// `id` is present only once the zone has been resolved against a live
/// provider; a zone the provider has not reported yet is synthesized with no
/// id and used only to route an update call.
///
/// Two zones are the same logical zone exactly when their names are equal:
/// the `id` never takes part in equality.
#[derive(Clone, Debug, Eq)]
pub struct Zone {
    pub name: String,
    pub id: Option<String>,
}

impl Zone {
    /// A zone known only by name, with no provider-assigned id.
    pub fn new(name: String) -> (z: Zone)
        ensures
            z.name == name,
            z.id is None,
    {
        Zone { name, id: None }
    }

    /// A zone as reported by a provider, carrying its assigned id.
    pub fn with_id(name: String, id: String) -> (z: Zone)
        ensures
            z.name == name,
            z.id == Some(id),
    {
        Zone { name, id: Some(id) }
    }

    /// Two zones are the same logical zone when their names are equal,
    /// whatever their ids.
    pub open spec fn same_zone(&self, other: &Zone) -> bool {
        self.name@ == other.name@
    }

    /// A copy of this zone, equal to it field for field.
    pub fn duplicate(&self) -> (z: Zone)
        ensures
            z == *self,
    {
        Zone {
            name: self.name.clone(),
            id: match &self.id {
                Some(id) => Some(id.clone()),
                None => None,
            },
        }
    }
}

impl PartialEq for Zone {
    fn eq(&self, other: &Self) -> (r: bool) {
        other.name == self.name
    }
}

impl vstd::std_specs::cmp::PartialEqSpecImpl for Zone {
    open spec fn obeys_eq_spec() -> bool {
        true
    }

    open spec fn eq_spec(&self, other: &Zone) -> bool {
        self.same_zone(other)
    }
}

/// A single address record, tagged by address family. The `value` of an A
/// record is the 32-bit numeric IPv4 address, the `value` of an AAAA record
/// the 128-bit numeric IPv6 address; `ttl` is in seconds.
///
/// Records of different variants never match one another: the A and AAAA
/// namespaces are independent.
#[derive(Clone, Debug, PartialEq)]
pub enum Record {
    A { name: String, value: u32, ttl: u32 },
    AAAA { name: String, value: u128, ttl: u32 },
}

impl Record {
    /// The record's fully qualified name.
    pub open spec fn spec_name(&self) -> Seq<char> {
        match self {
            Record::A { name, .. } => name@,
            Record::AAAA { name, .. } => name@,
        }
    }

    /// The record's time to live, in seconds.
    pub open spec fn spec_ttl(&self) -> u32 {
        match self {
            Record::A { ttl, .. } => *ttl,
            Record::AAAA { ttl, .. } => *ttl,
        }
    }

    /// A copy of this record, equal to it field for field.
    pub fn duplicate(&self) -> (r: Record)
        ensures
            r == *self,
    {
        match self {
            Record::A { name, value, ttl } => Record::A {
                name: name.clone(),
                value: *value,
                ttl: *ttl,
            },
            Record::AAAA { name, value, ttl } => Record::AAAA {
                name: name.clone(),
                value: *value,
                ttl: *ttl,
            },
        }
    }
}

/// The provider's currently observed state: for each reported zone, the
/// address records it currently serves, restricted to configured zones and
/// configured target names. Produced fresh every cycle and never persisted.
pub struct DnsZones {
    pub entries: Vec<(Zone, Vec<Record>)>,
}

impl DnsZones {
    /// An observed state with no zones.
    pub fn new() -> (z: DnsZones)
        ensures
            z.entries@.len() == 0,
    {
        DnsZones { entries: Vec::new() }
    }
}

/// A failure of a provider call: the fetch of the observed state, or one
/// record upsert.
#[derive(Debug)]
pub struct ProviderError {
    pub message: String,
}

/// A failure to detect the external address.
#[derive(Debug)]
pub struct NetworkError {
    pub message: String,
}

/// A DNS provider backend. Implementations fetch the currently served
/// records of the configured zones and upsert single records; both
/// operations touch the network, so they live outside this crate.
pub trait DnsProvider {
    /// The records the provider currently serves, restricted to zones named
    /// in the configuration and to records whose name matches a configured
    /// target. All or nothing: no partial state on failure.
    fn current(&self, config: &Config) -> Result<DnsZones, ProviderError>;

    /// Idempotently creates or overwrites the single record of matching
    /// name and family in the given zone, using the record's own ttl.
    fn update(&self, zone: &Zone, record: Record) -> Result<(), ProviderError>;
}

} // verus!
