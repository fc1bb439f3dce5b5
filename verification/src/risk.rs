//! Per-tenant risk policy: banding thresholds and component weights, in
//! ten-thousandths.

use vstd::prelude::*;
use vstd::string::StringExecFns;
use crate::strutil::str_equals;

verus! {

/// One tenant's scoring policy.
#[derive(Clone, Debug)]
pub struct RiskConfig {
    pub tenant_id: String,
    pub hit_threshold: u32,
    pub review_threshold: u32,
    pub name_weight: u32,
    pub dob_weight: u32,
    pub country_weight: u32,
}

/// The built-in policy: the banding and weights the screening pipeline
/// applies.
pub fn default_risk_config(tenant_id: &str) -> (r: RiskConfig)
    ensures
        r.tenant_id@ == tenant_id@,
        r.hit_threshold == 9500,
        r.review_threshold == 9000,
        r.name_weight == 7000,
        r.dob_weight == 1000,
        r.country_weight == 2000,
        r.name_weight + r.dob_weight + r.country_weight == 10000,
{
    RiskConfig {
        tenant_id: String::from_str(tenant_id),
        hit_threshold: 9500,
        review_threshold: 9000,
        name_weight: 7000,
        dob_weight: 1000,
        country_weight: 2000,
    }
}

/// The stored policies with any row of the given tenant dropped.
pub open spec fn remove_tenant(rows: Seq<RiskConfig>, tenant: Seq<char>, i: int) -> Seq<RiskConfig>
    decreases i,
    when 0 <= i <= rows.len()
{
    if i <= 0 {
        Seq::empty()
    } else {
        let prev = remove_tenant(rows, tenant, i - 1);
        if rows[i - 1].tenant_id@ == tenant {
            prev
        } else {
            prev.push(rows[i - 1])
        }
    }
}

/// The stored per-tenant policies.
pub struct RiskStore {
    pub configs: Vec<RiskConfig>,
}

impl RiskStore {
    /// An empty policy store.
    pub fn new() -> (r: RiskStore)
        ensures
            r.configs@ == Seq::<RiskConfig>::empty(),
    {
        RiskStore { configs: Vec::new() }
    }

    /// The stored policy of the tenant when one exists, else the
    /// built-in one under the tenant's name.
    pub fn get_config(&self, tenant_id: &str) -> (r: RiskConfig)
        ensures
            (exists|j: int|
                0 <= j < self.configs@.len() && (#[trigger] self.configs@[j]).tenant_id@
                    == tenant_id@) ==> exists|j: int|
                0 <= j < self.configs@.len() && r == #[trigger] self.configs@[j]
                    && self.configs@[j].tenant_id@ == tenant_id@,
            (forall|j: int|
                0 <= j < self.configs@.len() ==> (#[trigger] self.configs@[j]).tenant_id@
                    != tenant_id@) ==> r.tenant_id@ == tenant_id@ && r.hit_threshold == 9500
                && r.review_threshold == 9000 && r.name_weight == 7000 && r.dob_weight == 1000
                && r.country_weight == 2000,
    {
        let n: usize = self.configs.len();
        let mut i: usize = 0;
        while i < n
            invariant
                n == self.configs@.len(),
                i <= n,
                forall|j: int|
                    0 <= j < i ==> (#[trigger] self.configs@[j]).tenant_id@ != tenant_id@,
            decreases n - i,
        {
            if str_equals(self.configs[i].tenant_id.as_str(), tenant_id) {
                let c = &self.configs[i];
                let copy = RiskConfig {
                    tenant_id: c.tenant_id.clone(),
                    hit_threshold: c.hit_threshold,
                    review_threshold: c.review_threshold,
                    name_weight: c.name_weight,
                    dob_weight: c.dob_weight,
                    country_weight: c.country_weight,
                };
                proof {
                    assert(copy == self.configs@[i as int]);
                }
                return copy;
            }
            i = i + 1;
        }
        default_risk_config(tenant_id)
    }

    /// Stores a tenant's policy: any earlier row of the tenant is
    /// dropped, every other row stays, and the new policy is appended.
    pub fn set_config(&mut self, config: RiskConfig)
        ensures
            final (self).configs@ == remove_tenant(
                old(self).configs@,
                config.tenant_id@,
                old(self).configs@.len() as int,
            ).push(config),
    {
        let mut kept: Vec<RiskConfig> = Vec::new();
        let n: usize = self.configs.len();
        let mut i: usize = 0;
        proof {
            assert(kept@ =~= remove_tenant(self.configs@, config.tenant_id@, 0));
        }
        while i < n
            invariant
                n == self.configs@.len(),
                i <= n,
                kept@ == remove_tenant(self.configs@, config.tenant_id@, i as int),
            decreases n - i,
        {
            if !str_equals(self.configs[i].tenant_id.as_str(), config.tenant_id.as_str()) {
                let c = &self.configs[i];
                let copy = RiskConfig {
                    tenant_id: c.tenant_id.clone(),
                    hit_threshold: c.hit_threshold,
                    review_threshold: c.review_threshold,
                    name_weight: c.name_weight,
                    dob_weight: c.dob_weight,
                    country_weight: c.country_weight,
                };
                proof {
                    assert(copy == self.configs@[i as int]);
                }
                kept.push(copy);
            }
            i = i + 1;
        }
        kept.push(config);
        self.configs = kept;
    }
}

} // verus!
