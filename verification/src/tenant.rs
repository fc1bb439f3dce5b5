//! Tenants and API keys: the in-memory tenant registry, key hashing, and
//! key generation.

use vstd::prelude::*;
use vstd::string::StringExecFns;
use crate::monitoring::{fnv_chars, hex64, FNV_OFFSET, FNV_PRIME};
use crate::strutil::{to_chars, chars_to_string, str_equals};

verus! {

/// One tenant, thresholds in ten-thousandths.
#[derive(Clone, Debug)]
pub struct Tenant {
    pub id: String,
    pub name: String,
    pub api_key: String,
    pub is_active: bool,
    pub hit_threshold: u32,
    pub review_threshold: u32,
    pub rate_limit_per_minute: u32,
}

/// The built-in tenant every fresh deployment starts with.
pub fn default_tenant() -> (r: Tenant)
    ensures
        r.is_active,
        r.api_key@ == "test-api-key"@,
        r.hit_threshold == 9000,
        r.review_threshold == 7500,
        r.rate_limit_per_minute == 1000,
{
    Tenant {
        id: crate::model::new_request_id(),
        name: String::from_str("Default Tenant"),
        api_key: String::from_str("test-api-key"),
        is_active: true,
        hit_threshold: 9000,
        review_threshold: 7500,
        rate_limit_per_minute: 1000,
    }
}

/// A one-way fingerprint of an API key for storage: the same digest the
/// monitoring fingerprints use, rendered in hex.
pub fn hash_api_key(key: &str) -> (r: String)
    ensures
        r@ == hex64(fnv_chars(FNV_OFFSET, key@, key@.len() as int)),
        r@.len() == 16,
{
    let kc = to_chars(key);
    let m: usize = kc.len();
    let mut h: u64 = FNV_OFFSET;
    let mut j: usize = 0;
    while j < m
        invariant
            kc@ == key@,
            m == kc@.len(),
            j <= m,
            h == fnv_chars(FNV_OFFSET, kc@, j as int),
        decreases m - j,
    {
        let c = kc[j];
        h = (h ^ (c as u64)).wrapping_mul(FNV_PRIME);
        j = j + 1;
    }
    crate::monitoring::hex64_string(h)
}

/// Relies on `rand::random`: twenty-four bytes drawn from the thread's
/// generator.  Nothing is promised of their values.
#[verifier::external_body]
fn random_key_bytes() -> (r: Vec<u8>)
    ensures
        r@.len() == 24,
{
    rand::random::<[u8; 24]>().to_vec()
}

/// A character of the URL-safe sixty-four-character alphabet.
pub open spec fn is_b64_char(c: char) -> bool {
    exists|d: int|
        0 <= d < 64 && c == "ABCDEFGHIJKLMNOPQRSTUVWXYZabcdefghijklmnopqrstuvwxyz0123456789-_"@[d]
}

/// The URL-safe alphabet used for rendered keys: exactly the character
/// at the given index of the alphabet.
fn b64_char(idx: u32) -> (r: char)
    requires
        idx < 64,
    ensures
        r == "ABCDEFGHIJKLMNOPQRSTUVWXYZabcdefghijklmnopqrstuvwxyz0123456789-_"@[idx as int],
        is_b64_char(r),
{
    proof {
        reveal_strlit("ABCDEFGHIJKLMNOPQRSTUVWXYZabcdefghijklmnopqrstuvwxyz0123456789-_");
    }
    let table = "ABCDEFGHIJKLMNOPQRSTUVWXYZabcdefghijklmnopqrstuvwxyz0123456789-_";
    if (idx as usize) < table.unicode_len() {
        table.get_char(idx as usize)
    } else {
        'A'
    }
}

/// Renders bytes in the URL-safe sixty-four-character alphabet, without
/// padding: four characters for every three bytes, two for a trailing
/// byte, three for a trailing pair, each from the alphabet.
pub fn base64_encode(data: &Vec<u8>) -> (r: String)
    ensures
        r@.len() == (if data@.len() % 3 == 0 {
            (data@.len() / 3) * 4
        } else if data@.len() % 3 == 1 {
            (data@.len() / 3) * 4 + 2
        } else {
            (data@.len() / 3) * 4 + 3
        }),
        r@.len() >= data@.len(),
        forall|t: int| 0 <= t < r@.len() ==> is_b64_char(#[trigger] r@[t]),
{
    let n: usize = data.len();
    let mut out: Vec<char> = Vec::new();
    let mut i: usize = 0;
    while i < n
        invariant
            n == data@.len(),
            i <= n,
            out@.len() >= i,
            i % 3 == 0 ==> out@.len() == (i / 3) * 4,
            i % 3 != 0 ==> i == n && out@.len() == (n / 3) * 4 + (if n % 3 == 1 {
                2int
            } else {
                3int
            }),
            forall|t: int| 0 <= t < out@.len() ==> is_b64_char(#[trigger] out@[t]),
        decreases n - i,
    {
        let remaining: usize = n - i;
        let b0: u32 = data[i] as u32;
        let b1: u32 = if remaining >= 2 {
            data[i + 1] as u32
        } else {
            0
        };
        let b2: u32 = if remaining >= 3 {
            data[i + 2] as u32
        } else {
            0
        };
        proof {
            assert(b0 < 256 && b1 < 256 && b2 < 256);
            assert((b0 << 16u32) < 0x1000000u32 && (b1 << 8u32) < 0x10000u32) by (bit_vector)
                requires
                    b0 < 256u32 && b1 < 256u32,
            ;
        }
        let word: u32 = (b0 << 16) | (b1 << 8) | b2;
        proof {
            assert(((word >> 18u32) & 0x3Fu32) < 64u32 && ((word >> 12u32) & 0x3Fu32) < 64u32 && ((
            word >> 6u32) & 0x3Fu32) < 64u32 && (word & 0x3Fu32) < 64u32) by (bit_vector);
        }
        out.push(b64_char((word >> 18) & 0x3F));
        out.push(b64_char((word >> 12) & 0x3F));
        if remaining >= 2 {
            out.push(b64_char((word >> 6) & 0x3F));
        }
        if remaining >= 3 {
            out.push(b64_char(word & 0x3F));
        }
        if remaining >= 3 {
            i = i + 3;
        } else {
            i = n;
        }
    }
    chars_to_string(&out)
}

/// A fresh opaque API key: a fixed marker over the rendering of
/// twenty-four random bytes.
pub fn generate_api_key() -> (r: String)
    ensures
        r@.len() == 35,
        r@.subrange(0, 3) == seq!['a', 'k', '_'],
{
    let bytes = random_key_bytes();
    let encoded = base64_encode(&bytes);
    let mut out: Vec<char> = Vec::new();
    out.push('a');
    out.push('k');
    out.push('_');
    let ec = to_chars(encoded.as_str());
    let mut i: usize = 0;
    while i < ec.len()
        invariant
            ec@.len() == 32,
            i <= ec@.len(),
            out@.len() == 3 + i,
            out@.subrange(0, 3) == seq!['a', 'k', '_'],
        decreases ec@.len() - i,
    {
        out.push(ec[i]);
        proof {
            assert(out@.subrange(0, 3) =~= out@.take(out@.len() - 1).subrange(0, 3));
        }
        i = i + 1;
    }
    chars_to_string(&out)
}

/// The in-memory tenant registry.
pub struct TenantStore {
    pub tenants: Vec<Tenant>,
}

/// A row granting access for a key: stored, active, and carrying the key.
pub open spec fn key_grants(tenants: Seq<Tenant>, key: Seq<char>, t: Tenant) -> bool {
    exists|j: int|
        0 <= j < tenants.len() && t == #[trigger] tenants[j] && tenants[j].api_key@ == key
}

impl TenantStore {
    /// An empty registry.
    pub fn new() -> (r: TenantStore)
        ensures
            r.tenants@ == Seq::<Tenant>::empty(),
    {
        TenantStore { tenants: Vec::new() }
    }

    /// Registers the built-in tenant.
    pub fn create_default_tenant(&mut self)
        ensures
            final (self).tenants@.len() == old(self).tenants@.len() + 1,
            final (self).tenants@.last().api_key@ == "test-api-key"@,
            final (self).tenants@.last().is_active,
            forall|i: int|
                0 <= i < old(self).tenants@.len() ==> #[trigger] final (self).tenants@[i] == old(
                    self,
                ).tenants@[i],
    {
        let t = default_tenant();
        self.tenants.push(t);
    }

    /// Registers a tenant.
    pub fn add_tenant(&mut self, tenant: Tenant)
        ensures
            final (self).tenants@ == old(self).tenants@.push(tenant),
    {
        self.tenants.push(tenant);
    }

    /// The first tenant carrying this key, if any.
    pub fn get_tenant_by_key(&self, api_key: &str) -> (r: Option<Tenant>)
        ensures
            match r {
                Option::Some(t) => key_grants(self.tenants@, api_key@, t),
                Option::None => forall|j: int|
                    0 <= j < self.tenants@.len() ==> (#[trigger] self.tenants@[j]).api_key@
                        != api_key@,
            },
    {
        let n: usize = self.tenants.len();
        let mut i: usize = 0;
        while i < n
            invariant
                n == self.tenants@.len(),
                i <= n,
                forall|j: int|
                    0 <= j < i ==> (#[trigger] self.tenants@[j]).api_key@ != api_key@,
            decreases n - i,
        {
            if str_equals(self.tenants[i].api_key.as_str(), api_key) {
                let t = clone_tenant(&self.tenants[i]);
                proof {
                    assert(t == self.tenants@[i as int]);
                }
                return Option::Some(t);
            }
            i = i + 1;
        }
        Option::None
    }

    /// The tenant with this identifier, if any.
    pub fn get_tenant(&self, tenant_id: &str) -> (r: Option<Tenant>)
        ensures
            match r {
                Option::Some(t) => exists|j: int|
                    0 <= j < self.tenants@.len() && t == #[trigger] self.tenants@[j]
                        && self.tenants@[j].id@ == tenant_id@,
                Option::None => forall|j: int|
                    0 <= j < self.tenants@.len() ==> (#[trigger] self.tenants@[j]).id@
                        != tenant_id@,
            },
    {
        let n: usize = self.tenants.len();
        let mut i: usize = 0;
        while i < n
            invariant
                n == self.tenants@.len(),
                i <= n,
                forall|j: int| 0 <= j < i ==> (#[trigger] self.tenants@[j]).id@ != tenant_id@,
            decreases n - i,
        {
            if str_equals(self.tenants[i].id.as_str(), tenant_id) {
                let t = clone_tenant(&self.tenants[i]);
                proof {
                    assert(t == self.tenants@[i as int]);
                }
                return Option::Some(t);
            }
            i = i + 1;
        }
        Option::None
    }
}

/// Copies one tenant row.
fn clone_tenant(t: &Tenant) -> (r: Tenant)
    ensures
        r == *t,
{
    Tenant {
        id: t.id.clone(),
        name: t.name.clone(),
        api_key: t.api_key.clone(),
        is_active: t.is_active,
        hit_threshold: t.hit_threshold,
        review_threshold: t.review_threshold,
        rate_limit_per_minute: t.rate_limit_per_minute,
    }
}

} // verus!
