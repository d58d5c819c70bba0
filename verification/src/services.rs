//! Registry of well-known mDNS-discoverable services.

use vstd::prelude::*;

verus! {

/// Well-known mDNS-discoverable services.
pub enum DiscoverServices {
    GoogleCast,
}

impl DiscoverServices {
    /// The wire-level service identifier string the transport expects for
    /// this service kind.
    pub fn service_string(&self) -> (r: String)
        ensures
            r@ == self.service_string_spec(),
    {
        let name: &str = match *self {
            DiscoverServices::GoogleCast => "_googlecast._tcp.local",
        };
        String::from_str(name)
    }

    /// The identifier each service kind maps to.
    pub open spec fn service_string_spec(&self) -> Seq<char> {
        match *self {
            DiscoverServices::GoogleCast => "_googlecast._tcp.local"@,
        }
    }
}

} // verus!
