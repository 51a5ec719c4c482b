//! The admin gate: a shared secret sent in a request header.

use crate::reply::Status;
use vstd::prelude::*;
use vstd::string::*;

verus! {

/// The secret the admin endpoints expect, and whether it is only the
/// built-in fallback. A service running on the fallback is open to anyone
/// who knows this crate: whoever starts it should warn or refuse.
#[derive(Clone, Debug, PartialEq, Eq)]
pub struct AdminKey {
    pub secret: String,
    pub is_default: bool,
}

/// The name of the header that carries the secret.
pub open spec fn admin_key_header_name() -> Seq<char> {
    "X-Admin-API-Key"@
}

/// The secret used where none is configured.
pub open spec fn default_admin_key() -> Seq<char> {
    "default_admin_key"@
}

/// The name of the header that carries the secret.
pub fn admin_key_header() -> (name: &'static str)
    ensures
        name@ == admin_key_header_name(),
{
    "X-Admin-API-Key"
}

/// The secret in force: the configured one, or the fallback where none is
/// configured.
pub fn resolve_admin_key(configured: Option<String>) -> (key: AdminKey)
    ensures
        match configured {
            Some(secret) => key.secret == secret && !key.is_default,
            None => key.secret@ == default_admin_key() && key.is_default,
        },
{
    match configured {
        Some(secret) => AdminKey { secret, is_default: false },
        None => AdminKey { secret: String::from_str("default_admin_key"), is_default: true },
    }
}

/// Whether two byte strings are the same, byte for byte.
pub fn same_bytes(left: &[u8], right: &[u8]) -> (same: bool)
    ensures
        same == (left@ == right@),
{
    if left.len() != right.len() {
        return false;
    }
    let mut i: usize = 0;
    while i < left.len()
        invariant
            i <= left.len(),
            left.len() == right.len(),
            forall|k: int| 0 <= k < i ==> left@[k] == right@[k],
        decreases left.len() - i,
    {
        if left[i] != right[i] {
            return false;
        }
        i += 1;
    }
    assert(left@ =~= right@);
    true
}

/// Decides whether a request may pass the admin gate. `provided` is the
/// value of the key header, if the request has one. The request passes
/// exactly when the header is there and equals the expected secret byte for
/// byte; otherwise it is turned away as unauthorized, whatever else it
/// holds.
pub fn admin_auth(provided: Option<&[u8]>, expected: &[u8]) -> (verdict: Result<(), Status>)
    ensures
        verdict is Ok <==> (provided matches Some(key) && key@ == expected@),
        verdict is Err ==> verdict == Err::<(), Status>(Status::Unauthorized),
{
    match provided {
        Some(key) => {
            if same_bytes(key, expected) {
                Ok(())
            } else {
                Err(Status::Unauthorized)
            }
        },
        None => Err(Status::Unauthorized),
    }
}

} // verus!
