//! The audit trail: an append-only log of privileged actions, queried by
//! tenant.

use vstd::prelude::*;
use crate::strutil::str_equals;

verus! {

/// One audited action.
#[derive(Clone, Debug)]
pub struct AuditLog {
    pub id: String,
    pub tenant_id: String,
    pub user_id: Option<String>,
    pub action: String,
    pub resource_type: String,
    pub resource_id: Option<String>,
    pub timestamp: String,
    pub ip_address: Option<String>,
    pub user_agent: Option<String>,
    pub details: Option<String>,
}

/// The stored trail.  It only ever grows.
pub struct AuditStore {
    pub entries: Vec<AuditLog>,
}

/// A returned entry is one of the stored entries of the tenant.
pub open spec fn logged_for(e: AuditLog, entries: Seq<AuditLog>, tenant: Seq<char>) -> bool {
    exists|j: int|
        0 <= j < entries.len() && e == #[trigger] entries[j] && entries[j].tenant_id@ == tenant
}

impl AuditStore {
    /// An empty trail.
    pub fn new() -> (r: AuditStore)
        ensures
            r.entries@ == Seq::<AuditLog>::empty(),
    {
        AuditStore { entries: Vec::new() }
    }

    /// Appends one entry; everything already logged stays in place.
    pub fn log(&mut self, entry: AuditLog)
        ensures
            final (self).entries@ == old(self).entries@.push(entry),
            final (self).entries@.len() == old(self).entries@.len() + 1,
    {
        self.entries.push(entry);
    }

    /// The tenant's entries, at most `limit` of them, oldest first.
    pub fn query(&self, tenant_id: &str, limit: usize) -> (r: Vec<AuditLog>)
        ensures
            r@.len() <= limit,
            forall|i: int|
                0 <= i < r@.len() ==> #[trigger] logged_for(r@[i], self.entries@, tenant_id@),
    {
        let n: usize = self.entries.len();
        let mut out: Vec<AuditLog> = Vec::new();
        let mut i: usize = 0;
        while i < n
            invariant
                n == self.entries@.len(),
                i <= n,
                out@.len() <= limit,
                forall|p: int|
                    0 <= p < out@.len() ==> #[trigger] logged_for(
                        out@[p],
                        self.entries@,
                        tenant_id@,
                    ),
            decreases n - i,
        {
            if out.len() >= limit {
                return out;
            }
            let e = &self.entries[i];
            if str_equals(e.tenant_id.as_str(), tenant_id) {
                let c = clone_entry(e);
                proof {
                    assert(c == self.entries@[i as int]);
                    assert(logged_for(c, self.entries@, tenant_id@));
                }
                out.push(c);
            }
            i = i + 1;
        }
        out
    }
}

/// Copies one entry.
fn clone_entry(e: &AuditLog) -> (r: AuditLog)
    ensures
        r == *e,
{
    AuditLog {
        id: e.id.clone(),
        tenant_id: e.tenant_id.clone(),
        user_id: clone_opt(&e.user_id),
        action: e.action.clone(),
        resource_type: e.resource_type.clone(),
        resource_id: clone_opt(&e.resource_id),
        timestamp: e.timestamp.clone(),
        ip_address: clone_opt(&e.ip_address),
        user_agent: clone_opt(&e.user_agent),
        details: clone_opt(&e.details),
    }
}

/// Copies an optional string.
fn clone_opt(o: &Option<String>) -> (r: Option<String>)
    ensures
        r == *o,
{
    match o {
        Option::Some(s) => Option::Some(s.clone()),
        Option::None => Option::None,
    }
}

} // verus!
