//! The LiveDNS backend's data model and the pure parts of its client: the
//! wire-level record shapes and the name and request computations. The HTTP
//! calls themselves live outside this crate and consume what is computed
//! here.

use vstd::prelude::*;

use crate::names::{last_index_of, rfind_char, str_ends_with, strip_suffix_spec};
use crate::provider::{ProviderError, Record};

verus! {

/// One domain as the LiveDNS API reports it.
#[derive(Clone, Debug, PartialEq)]
pub struct LDDomain {
    pub fqdn: String,
}

/// The two record types the backend handles.
#[derive(Clone, Copy, Debug, PartialEq, Eq, Structural)]
pub enum LDRecordType {
    A,
    Aaaa,
}

impl LDRecordType {
    /// The type's label on the wire.
    pub fn as_str(&self) -> (r: &'static str)
        ensures
            *self is A ==> r@ == "A"@,
            *self is Aaaa ==> r@ == "AAAA"@,
    {
        match self {
            LDRecordType::A => "A",
            LDRecordType::Aaaa => "AAAA",
        }
    }
}

/// One record set as the LiveDNS API reports it: the type, the ttl in
/// seconds, the zone-relative name (`@` for the zone apex), and the values.
#[derive(Clone, Debug, PartialEq)]
pub struct LDRecord {
    pub record_type: LDRecordType,
    pub ttl: u32,
    pub name: String,
    pub values: Vec<String>,
}

/// The fully qualified name of a LiveDNS record of `domain`: the domain
/// itself for the apex name `@`, otherwise the relative name, a dot and the
/// domain.
pub open spec fn proper_name_spec(name: Seq<char>, domain: Seq<char>) -> Seq<char> {
    if name == "@"@ {
        domain
    } else {
        name + "."@ + domain
    }
}

impl LDRecord {
    /// The record's fully qualified name within `domain_name`.
    pub fn proper_name(&self, domain_name: &String) -> (r: String)
        ensures
            r@ == proper_name_spec(self.name@, domain_name@),
    {
        let at = String::from_str("@");
        if self.name == at {
            domain_name.clone()
        } else {
            let mut r = self.name.clone();
            r.append(".");
            r.append(domain_name.as_str());
            r
        }
    }
}

/// The zone-relative name LiveDNS expects for a fully qualified record name:
/// the zone suffix is stripped, and of what remains everything from the last
/// dot on is dropped (the dot that separated name and zone, when the zone
/// was a suffix).
pub open spec fn gandi_record_name_spec(name: Seq<char>, zone: Seq<char>) -> Seq<char> {
    let stripped = strip_suffix_spec(name, zone);
    match last_index_of(stripped, '.') {
        Some(i) => stripped.take(i),
        None => stripped,
    }
}

/// The zone-relative record name LiveDNS expects for the fully qualified
/// `name` within `zone`.
pub fn gandi_record_name<'a>(name: &'a String, zone: &String) -> (r: &'a str)
    ensures
        r@ == gandi_record_name_spec(name@, zone@),
{
    let s = name.as_str();
    let n = s.unicode_len();
    let stripped: &str = if str_ends_with(s, zone.as_str()) {
        let zlen = zone.as_str().unicode_len();
        s.substring_char(0, n - zlen)
    } else {
        s
    };
    match rfind_char(stripped, '.') {
        Some(i) => stripped.substring_char(0, i),
        None => stripped,
    }
}

/// The LiveDNS client's configuration: the API key, if one was supplied.
pub struct LDClient {
    pub api_key: Option<String>,
}

impl LDClient {
    /// A client configured with the given API key, or none.
    pub fn new(api_key: Option<String>) -> (c: LDClient)
        ensures
            c.api_key == api_key,
    {
        LDClient { api_key }
    }

    /// The configured API key, or the error every LiveDNS call reports when
    /// none was supplied.
    pub fn api_key(&self) -> (r: Result<&str, ProviderError>)
        ensures
            match r {
                Ok(k) => self.api_key matches Some(key) && k@ == key@,
                Err(e) => self.api_key is None && e.message@
                    == "Gandi LiveDNS API Key not configured"@,
            },
    {
        match &self.api_key {
            Some(key) => Ok(key.as_str()),
            None => Err(
                ProviderError {
                    message: String::from_str("Gandi LiveDNS API Key not configured"),
                },
            ),
        }
    }
}

/// The LiveDNS provider backend. The network half of its work — listing
/// domains and records and putting record sets — lives outside this crate;
/// everything it computes is taken from here.
pub struct GandiLivednsProvider {
    pub client: LDClient,
}

impl GandiLivednsProvider {
    /// A provider backed by the given client configuration.
    pub fn new(client: LDClient) -> (p: GandiLivednsProvider)
        ensures
            p.client == client,
    {
        GandiLivednsProvider { client }
    }
}

/// The computed pieces of a LiveDNS record-upsert request: the
/// zone-relative record name, the record-type label, and the record's own
/// ttl, passed through unchanged. The address value is rendered by the
/// caller.
pub fn put_record_parts<'a>(zone: &String, record: &'a Record) -> (r: (&'a str, &'static str, u32))
    ensures
        r.0@ == gandi_record_name_spec(record.spec_name(), zone@),
        record is A ==> r.1@ == "A"@,
        record is AAAA ==> r.1@ == "AAAA"@,
        r.2 == record.spec_ttl(),
{
    let (name, label, ttl): (&String, &'static str, u32) = match record {
        Record::A { name, ttl, .. } => (name, "A", *ttl),
        Record::AAAA { name, ttl, .. } => (name, "AAAA", *ttl),
    };
    let relative = gandi_record_name(name, zone);
    (relative, label, ttl)
}

} // verus!
