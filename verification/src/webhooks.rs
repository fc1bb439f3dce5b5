//! Webhook subscriptions and their signed deliveries: the stored
//! subscription set, secret generation and payload signing.  The HTTP
//! delivery itself lives outside the library.

use vstd::prelude::*;
use vstd::string::StringExecFns;
use crate::strutil::str_equals;

verus! {

/// One webhook subscription.
#[derive(Clone, Debug)]
pub struct WebhookSubscription {
    pub id: String,
    pub tenant_id: String,
    pub url: String,
    pub events: Vec<String>,
    pub secret: String,
    pub created_at: String,
    pub active: bool,
}

/// One event to deliver.
#[derive(Debug)]
pub struct WebhookEvent {
    pub id: String,
    pub event_type: String,
    pub timestamp: String,
    pub data: String,
}

/// Relies on `rand::random` and `hex::encode`: thirty-two random bytes
/// rendered as sixty-four hex digits.  Nothing is promised of their
/// values beyond the length.
#[verifier::external_body]
pub fn generate_secret() -> (r: String)
    ensures
        r@.len() == 64,
{
    hex::encode(rand::random::<[u8; 32]>())
}

/// Signs a payload: the digest of the secret followed by the payload.
pub fn compute_signature(secret: &str, payload: &str) -> (r: String)
    ensures
        r@.len() == 64,
{
    let mut bytes: Vec<u8> = Vec::new();
    let sb = secret.as_bytes_vec();
    let pb = payload.as_bytes_vec();
    let mut i: usize = 0;
    while i < sb.len()
        invariant
            i <= sb@.len(),
        decreases sb@.len() - i,
    {
        bytes.push(sb[i]);
        i = i + 1;
    }
    let mut j: usize = 0;
    while j < pb.len()
        invariant
            j <= pb@.len(),
        decreases pb@.len() - j,
    {
        bytes.push(pb[j]);
        j = j + 1;
    }
    crate::fetcher::compute_sha256(&bytes)
}

/// Two subscription rows carrying the same content.
pub open spec fn sub_like(a: WebhookSubscription, b: WebhookSubscription) -> bool {
    &&& a.id@ == b.id@
    &&& a.tenant_id@ == b.tenant_id@
    &&& a.url@ == b.url@
    &&& a.events@.map_values(|e: String| e@) == b.events@.map_values(|e: String| e@)
    &&& a.secret@ == b.secret@
    &&& a.created_at@ == b.created_at@
    &&& a.active == b.active
}

/// A returned row matches one of the stored, active rows of the tenant.
pub open spec fn stored_active_sub(
    x: WebhookSubscription,
    subs: Seq<WebhookSubscription>,
    tenant: Seq<char>,
) -> bool {
    exists|j: int|
        0 <= j < subs.len() && sub_like(x, #[trigger] subs[j]) && subs[j].active
            && subs[j].tenant_id@ == tenant
}

/// The subscription listens for this event type, or for every type.
pub open spec fn listens_for(events: Seq<String>, event_type: Seq<char>) -> bool {
    exists|k: int|
        0 <= k < events.len() && ((#[trigger] events[k])@ == event_type || events[k]@ == "*"@)
}

/// The stored subscriptions.
pub struct WebhookStore {
    pub subs: Vec<WebhookSubscription>,
}

impl WebhookStore {
    /// An empty store.
    pub fn new() -> (r: WebhookStore)
        ensures
            r.subs@ == Seq::<WebhookSubscription>::empty(),
    {
        WebhookStore { subs: Vec::new() }
    }

    /// Registers a subscription with a fresh identifier and secret.
    pub fn create_subscription(
        &mut self,
        tenant_id: &str,
        url: &str,
        events: Vec<String>,
        now: &str,
    ) -> (r: WebhookSubscription)
        ensures
            final (self).subs@.len() == old(self).subs@.len() + 1,
            sub_like(final (self).subs@.last(), r),
            r.tenant_id@ == tenant_id@,
            r.url@ == url@,
            r.active,
            r.secret@.len() == 64,
            forall|i: int|
                0 <= i < old(self).subs@.len() ==> #[trigger] final (self).subs@[i] == old(
                    self,
                ).subs@[i],
    {
        let sub = WebhookSubscription {
            id: crate::model::new_request_id(),
            tenant_id: String::from_str(tenant_id),
            url: String::from_str(url),
            events,
            secret: generate_secret(),
            created_at: String::from_str(now),
            active: true,
        };
        let copy = clone_sub(&sub);
        self.subs.push(sub);
        copy
    }

    /// The tenant's active subscriptions listening for this event type,
    /// or for every type.
    pub fn get_active_subscriptions(&self, tenant_id: &str, event_type: &str) -> (r: Vec<
        WebhookSubscription,
    >)
        ensures
            forall|i: int|
                0 <= i < r@.len() ==> #[trigger] stored_active_sub(r@[i], self.subs@, tenant_id@),
            forall|j: int|
                0 <= j < self.subs@.len() && (#[trigger] self.subs@[j]).active && self.subs@[j].tenant_id@
                    == tenant_id@ && listens_for(self.subs@[j].events@, event_type@) ==> exists|
                    i: int,
                |
                    0 <= i < r@.len() && sub_like(#[trigger] r@[i], self.subs@[j]),
    {
        let n: usize = self.subs.len();
        let mut out: Vec<WebhookSubscription> = Vec::new();
        let mut i: usize = 0;
        while i < n
            invariant
                n == self.subs@.len(),
                i <= n,
                forall|p: int|
                    0 <= p < out@.len() ==> #[trigger] stored_active_sub(
                        out@[p],
                        self.subs@,
                        tenant_id@,
                    ),
                forall|j: int|
                    0 <= j < i && (#[trigger] self.subs@[j]).active && self.subs@[j].tenant_id@
                        == tenant_id@ && listens_for(self.subs@[j].events@, event_type@) ==> exists|
                        p: int,
                    |
                        0 <= p < out@.len() && sub_like(#[trigger] out@[p], self.subs@[j]),
            decreases n - i,
        {
            let s = &self.subs[i];
            if s.active && str_equals(s.tenant_id.as_str(), tenant_id) {
                // Listening for this event, or for every event.
                let mut listens: bool = false;
                let mut k: usize = 0;
                while k < s.events.len()
                    invariant
                        k <= s.events@.len(),
                        s.events@ == self.subs@[i as int].events@,
                        i < n == self.subs@.len(),
                        listens == exists|t: int|
                            0 <= t < k && ((#[trigger] s.events@[t])@ == event_type@
                                || s.events@[t]@ == "*"@),
                    decreases s.events@.len() - k,
                {
                    if str_equals(s.events[k].as_str(), event_type) || str_equals(
                        s.events[k].as_str(),
                        "*",
                    ) {
                        listens = true;
                    }
                    k = k + 1;
                }
                proof {
                    assert(listens == listens_for(self.subs@[i as int].events@, event_type@));
                }
                if listens {
                    let ghost out0 = out@;
                    let c = clone_sub(s);
                    proof {
                        assert(sub_like(c, self.subs@[i as int]));
                    }
                    proof {
                        assert(stored_active_sub(c, self.subs@, tenant_id@));
                    }
                    out.push(c);
                    proof {
                        assert forall|p: int| 0 <= p < out@.len() implies #[trigger] stored_active_sub(
                            out@[p],
                            self.subs@,
                            tenant_id@,
                        ) by {
                            if p < out0.len() {
                                assert(out@[p] == out0[p]);
                            } else {
                                assert(out@[p] == c);
                            }
                        }
                        assert forall|j: int|
                            0 <= j < i + 1 && (#[trigger] self.subs@[j]).active
                                && self.subs@[j].tenant_id@ == tenant_id@ && listens_for(
                                self.subs@[j].events@,
                                event_type@,
                            ) implies exists|p: int|
                            0 <= p < out@.len() && sub_like(#[trigger] out@[p], self.subs@[j]) by {
                            if j < i {
                                let p0 = choose|p: int|
                                    0 <= p < out0.len() && sub_like(
                                        #[trigger] out0[p],
                                        self.subs@[j],
                                    );
                                assert(out@[p0] == out0[p0]);
                            } else {
                                assert(sub_like(out@[out@.len() - 1], self.subs@[i as int]));
                            }
                        }
                    }
                }
            }
            i = i + 1;
        }
        out
    }

    /// Drops the first subscription with this identifier; reports
    /// whether one was found.
    pub fn delete_subscription(&mut self, subscription_id: &str) -> (r: bool)
        ensures
            r == exists|j: int|
                0 <= j < old(self).subs@.len() && (#[trigger] old(self).subs@[j]).id@
                    == subscription_id@,
            r ==> exists|j: int|
                0 <= j < old(self).subs@.len() && (#[trigger] old(self).subs@[j]).id@
                    == subscription_id@ && final (self).subs@ == old(self).subs@.remove(j),
            !r ==> final (self).subs@ == old(self).subs@,
    {
        let n: usize = self.subs.len();
        let mut i: usize = 0;
        while i < n
            invariant
                n == self.subs@.len(),
                self.subs@ == old(self).subs@,
                i <= n,
                forall|t: int|
                    0 <= t < i ==> (#[trigger] self.subs@[t]).id@ != subscription_id@,
            decreases n - i,
        {
            if str_equals(self.subs[i].id.as_str(), subscription_id) {
                self.subs.remove(i);
                return true;
            }
            i = i + 1;
        }
        false
    }
}

/// Copies one subscription.
fn clone_sub(s: &WebhookSubscription) -> (r: WebhookSubscription)
    ensures
        sub_like(r, *s),
{
    let mut events: Vec<String> = Vec::new();
    let mut i: usize = 0;
    while i < s.events.len()
        invariant
            i <= s.events@.len(),
            events@ == s.events@.take(i as int),
        decreases s.events@.len() - i,
    {
        events.push(s.events[i].clone());
        proof {
            assert(events@ =~= s.events@.take(i + 1));
        }
        i = i + 1;
    }
    proof {
        assert(events@ =~= s.events@);
    }
    WebhookSubscription {
        id: s.id.clone(),
        tenant_id: s.tenant_id.clone(),
        url: s.url.clone(),
        events,
        secret: s.secret.clone(),
        created_at: s.created_at.clone(),
        active: s.active,
    }
}

} // verus!
