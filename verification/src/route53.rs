//! The Route 53 backend's pure computations: translating zone names between
//! the provider's trailing-dot form and the internal form, and extracting
//! and gating on a hosted zone's id. The SDK calls themselves live outside
//! this crate and consume what is computed here.

use vstd::prelude::*;

use crate::names::{last_index_of, rfind_char};
use crate::provider::{ProviderError, Zone};

verus! {

/// A zone name in internal form: the provider's one trailing dot, if any,
/// removed.
pub open spec fn internal_zone_name_spec(s: Seq<char>) -> Seq<char> {
    if s.len() > 0 && s.last() == '.' {
        s.drop_last()
    } else {
        s
    }
}

/// A zone name in the provider's form: the internal form with one trailing
/// dot appended.
pub open spec fn aws_zone_name_spec(s: Seq<char>) -> Seq<char> {
    internal_zone_name_spec(s) + "."@
}

/// The bare hosted-zone id: what follows the last `/` of the reported id
/// path, or the whole string when it has no `/`.
pub open spec fn zone_id_suffix_spec(s: Seq<char>) -> Seq<char> {
    match last_index_of(s, '/') {
        Some(i) => s.skip(i + 1),
        None => s,
    }
}

/// Strips the provider's one trailing dot from a zone name, if present.
pub fn internal_zone_name(s: &str) -> (r: &str)
    ensures
        r@ == internal_zone_name_spec(s@),
{
    let n = s.unicode_len();
    if n > 0 && s.get_char(n - 1) == '.' {
        let r = s.substring_char(0, n - 1);
        proof {
            assert(s@.subrange(0, n - 1) =~= s@.drop_last());
        }
        r
    } else {
        s
    }
}

/// Renders a zone name in the provider's trailing-dot form.
pub fn aws_zone_name(s: &str) -> (r: String)
    ensures
        r@ == aws_zone_name_spec(s@),
{
    let mut r = internal_zone_name(s).to_owned();
    r.append(".");
    r
}

/// The bare hosted-zone id within the id path the provider reports.
pub fn hosted_zone_id_suffix(s: &str) -> (r: &str)
    ensures
        r@ == zone_id_suffix_spec(s@),
{
    let n = s.unicode_len();
    match rfind_char(s, '/') {
        Some(i) => {
            let r = s.substring_char(i + 1, n);
            proof {
                assert(s@.subrange(i + 1, n as int) =~= s@.skip(i + 1));
            }
            r
        },
        None => s,
    }
}

/// The hosted-zone id an update call is routed by, or the error the call
/// reports when the zone carries none — a zone the provider has not resolved
/// cannot be updated here.
pub fn hosted_zone_id(zone: &Zone) -> (r: Result<&str, ProviderError>)
    ensures
        match r {
            Ok(id) => zone.id matches Some(i) && id@ == i@,
            Err(e) => zone.id is None && e.message@ == "zone not found"@,
        },
{
    match &zone.id {
        Some(id) => Ok(id.as_str()),
        None => Err(ProviderError { message: String::from_str("zone not found") }),
    }
}

} // verus!
