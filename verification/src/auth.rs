//! Request authentication: the API key decides the tenant, a missing or
//! unknown key is refused, a suspended tenant is forbidden.

use vstd::prelude::*;
use crate::tenant::TenantStore;

verus! {

/// The tenant a request was authenticated as.
#[derive(Clone, Debug)]
pub struct ApiKeyAuth {
    pub tenant_id: String,
}

/// The outcome of authenticating one request.
pub enum AuthDecision {
    /// A valid, active key: the request runs as this tenant.
    Authorized(ApiKeyAuth),
    /// No key was presented.
    MissingKey,
    /// The key matches no tenant.
    InvalidKey,
    /// The key's tenant is suspended.
    Suspended,
}

/// Authenticates one request: no key is refused outright, a key no
/// tenant carries is refused — and only such a key — a key whose tenant
/// (the first row carrying it) is suspended is forbidden, anything else
/// is admitted under the tenant that carries the presented key.
pub fn authorize(store: &TenantStore, api_key: Option<&String>) -> (r: AuthDecision)
    ensures
        api_key is None <==> r is MissingKey,
        api_key matches Option::Some(k) ==> (r is InvalidKey <==> forall|j: int|
            0 <= j < store.tenants@.len() ==> (#[trigger] store.tenants@[j]).api_key@ != k@),
        r matches AuthDecision::Authorized(a) ==> (api_key matches Option::Some(k)
            && exists|j: int|
            0 <= j < store.tenants@.len() && (#[trigger] store.tenants@[j]).api_key@ == k@
                && store.tenants@[j].is_active && store.tenants@[j].id@ == a.tenant_id@),
        r is Suspended ==> (api_key matches Option::Some(k) && exists|j: int|
            0 <= j < store.tenants@.len() && (#[trigger] store.tenants@[j]).api_key@ == k@
                && !store.tenants@[j].is_active),
{
    match api_key {
        Option::None => AuthDecision::MissingKey,
        Option::Some(key) => {
            match store.get_tenant_by_key(key.as_str()) {
                Option::None => AuthDecision::InvalidKey,
                Option::Some(t) => {
                    if !t.is_active {
                        proof {
                            let j = choose|j: int|
                                0 <= j < store.tenants@.len() && t == #[trigger] store.tenants@[j]
                                    && store.tenants@[j].api_key@ == key@;
                            assert(!store.tenants@[j].is_active);
                        }
                        AuthDecision::Suspended
                    } else {
                        proof {
                            let j = choose|j: int|
                                0 <= j < store.tenants@.len() && t == #[trigger] store.tenants@[j]
                                    && store.tenants@[j].api_key@ == key@;
                            assert(store.tenants@[j].id@ == t.id@);
                        }
                        AuthDecision::Authorized(ApiKeyAuth { tenant_id: t.id })
                    }
                },
            }
        },
    }
}

} // verus!
