//! Zone resolution and preselection: the configured zones of a route
//! become candidates, are filtered by the allow-list, ordered by region
//! affinity and round-trip time, and truncated to the candidate budget.

use vstd::prelude::*;
use crate::config::{PolicyConstraints, ProxyConfig};
use crate::table::names_has;
use crate::text::{str_eq, str_starts_with};

verus! {

/// Added to the base round-trip estimate when the caller's region differs
/// from the zone's, in thousandths of a millisecond.
pub const CROSS_REGION_RTT_PENALTY_MS: u64 = 40000;

/// A routable upstream zone, immutable after configuration load.
/// `base_rtt_ms` counts thousandths of a millisecond, `cost_weight`
/// thousandths of the dimensionless cost unit.
pub struct ZoneCandidate {
    pub name: String,
    pub app_uri: String,
    pub region: String,
    pub base_rtt_ms: u32,
    pub cost_weight: u64,
    pub max_in_flight: Option<usize>,
    pub tags: Vec<String>,
}

/// How a configured zone materialises as a candidate: region defaults to
/// the name, the round-trip estimate to 35 ms, the cost weight to zero.
pub open spec fn zone_from_config_matches(c: ZoneCandidate, z: crate::config::ZoneConfig) -> bool {
    &&& c.name == z.name
    &&& c.app_uri == z.app_uri
    &&& c.region == (match z.region {
        Some(r) => r,
        None => z.name,
    })
    &&& c.base_rtt_ms == (match z.base_rtt_ms {
        Some(v) => v,
        None => 35000u32,
    })
    &&& c.cost_weight == (match z.cost_weight {
        Some(v) => v,
        None => 0u64,
    })
    &&& c.max_in_flight == z.max_in_flight
    &&& c.tags@ == z.tags@
}

/// The single candidate synthesised when a route declares no zones:
/// the route's application itself, with a 20 ms round-trip estimate.
pub open spec fn default_zone_matches(c: ZoneCandidate, p: ProxyConfig) -> bool {
    &&& c.name == p.app_name
    &&& c.app_uri == p.app_uri
    &&& c.region == p.app_name
    &&& c.base_rtt_ms == 20000u32
    &&& c.cost_weight == 0
    &&& c.max_in_flight is None
    &&& c.tags@.len() == 0
}

/// What the candidate list of a route holds.
pub open spec fn resolved_zones_ok(r: Seq<ZoneCandidate>, p: ProxyConfig) -> bool {
    &&& p.zones@.len() > 0 ==> r.len() == p.zones@.len() && (forall|i: int|
        0 <= i < r.len() ==> zone_from_config_matches(#[trigger] r[i], p.zones@[i]))
    &&& p.zones@.len() == 0 ==> r.len() == 1 && default_zone_matches(r[0], p)
}

/// Materialises the candidate list of a route.
pub fn resolve_zones(proxy: &ProxyConfig) -> (r: Vec<ZoneCandidate>)
    ensures
        resolved_zones_ok(r@, *proxy),
{
    let mut out: Vec<ZoneCandidate> = Vec::new();
    if proxy.zones.len() > 0 {
        let n: usize = proxy.zones.len();
        let mut i: usize = 0;
        while i < n
            invariant
                n == proxy.zones@.len(),
                i <= n,
                out@.len() == i,
                forall|j: int| 0 <= j < i ==> zone_from_config_matches(out@[j], proxy.zones@[j]),
            decreases n - i,
        {
            let z = &proxy.zones[i];
            let region: String = match &z.region {
                Some(r) => r.clone(),
                None => z.name.clone(),
            };
            let base_rtt_ms: u32 = match z.base_rtt_ms {
                Some(v) => v,
                None => 35000,
            };
            let cost_weight: u64 = match z.cost_weight {
                Some(v) => v,
                None => 0,
            };
            let mut tags: Vec<String> = Vec::new();
            let tn: usize = z.tags.len();
            let mut t: usize = 0;
            while t < tn
                invariant
                    tn == z.tags@.len(),
                    t <= tn,
                    tags@.len() == t,
                    forall|u: int| 0 <= u < t ==> tags@[u] == z.tags@[u],
                decreases tn - t,
            {
                tags.push(z.tags[t].clone());
                t = t + 1;
            }
            proof {
                assert(tags@ =~= z.tags@);
            }
            out.push(ZoneCandidate {
                name: z.name.clone(),
                app_uri: z.app_uri.clone(),
                region,
                base_rtt_ms,
                cost_weight,
                max_in_flight: z.max_in_flight,
                tags,
            });
            i = i + 1;
        }
    } else {
        out.push(ZoneCandidate {
            name: proxy.app_name.clone(),
            app_uri: proxy.app_uri.clone(),
            region: proxy.app_name.clone(),
            base_rtt_ms: 20000,
            cost_weight: 0,
            max_in_flight: None,
            tags: Vec::new(),
        });
    }
    out
}

/// The latency estimate for a candidate: the base round-trip time, plus
/// the cross-region penalty when the caller's region is known and differs.
pub open spec fn spec_latency(user: Seq<char>, z: ZoneCandidate) -> int {
    if user.len() == 0 || z.region@ == user {
        z.base_rtt_ms as int
    } else {
        z.base_rtt_ms + CROSS_REGION_RTT_PENALTY_MS
    }
}

/// Estimates the latency of `zone` for a caller in `user_region`,
/// in thousandths of a millisecond.
pub fn estimate_latency_ms(user_region: &str, zone: &ZoneCandidate) -> (r: u64)
    ensures
        r == spec_latency(user_region@, *zone),
{
    if user_region.is_empty() || str_eq(user_region, zone.region.as_str()) {
        zone.base_rtt_ms as u64
    } else {
        zone.base_rtt_ms as u64 + CROSS_REGION_RTT_PENALTY_MS
    }
}

/// Whether an allow-list entry names a tag (`tag:<tag>`).
pub open spec fn is_tag_entry(e: Seq<char>) -> bool {
    e.len() >= 4 && e.take(4) == "tag:"@
}

/// Whether the allow-list keeps a zone: an empty list keeps all; otherwise
/// the zone's name must be listed, or its region when the caller's region
/// is known, or one of its tags through a `tag:` entry.
pub open spec fn zone_allowed(z: ZoneCandidate, allow: Seq<String>, user: Seq<char>) -> bool {
    ||| allow.len() == 0
    ||| exists|i: int| 0 <= i < allow.len() && allow[i]@ == z.name@
    ||| (user.len() > 0 && exists|i: int| 0 <= i < allow.len() && allow[i]@ == z.region@)
    ||| exists|i: int, j: int|
        0 <= i < allow.len() && 0 <= j < z.tags@.len() && is_tag_entry(allow[i]@) && allow[i]@.skip(
            4,
        ) == z.tags@[j]@
}

fn zone_allowed_exec(z: &ZoneCandidate, allow: &Vec<String>, user_region: &str) -> (r: bool)
    ensures
        r == zone_allowed(*z, allow@, user_region@),
{
    if allow.len() == 0 {
        return true;
    }
    if names_has(allow, z.name.as_str()) {
        return true;
    }
    if !user_region.is_empty() && names_has(allow, z.region.as_str()) {
        return true;
    }
    let n: usize = allow.len();
    let mut i: usize = 0;
    while i < n
        invariant
            n == allow@.len(),
            i <= n,
            forall|k: int, j: int|
                0 <= k < i && 0 <= j < z.tags@.len() ==> !(is_tag_entry(allow@[k]@) && allow@[k]@.skip(
                    4,
                ) == z.tags@[j]@),
        decreases n - i,
    {
        let entry: &str = allow[i].as_str();
        proof {
            reveal_strlit("tag:");
        }
        if str_starts_with(entry, "tag:") {
            let en: usize = entry.unicode_len();
            let suffix: &str = entry.substring_char(4, en);
            proof {
                assert(suffix@ =~= entry@.skip(4));
            }
            if names_has(&z.tags, suffix) {
                return true;
            }
        }
        i = i + 1;
    }
    false
}

/// The affinity rank of a candidate: zero when it sits in the caller's
/// region, one otherwise.
pub open spec fn aff_rank(zs: Seq<ZoneCandidate>, user: Seq<char>, i: int) -> int {
    if user.len() > 0 && zs[i].region@ == user {
        0
    } else {
        1
    }
}

/// The preselection order: by affinity rank, then ascending round-trip
/// estimate.  `a` may precede `b` iff this holds.
pub open spec fn zone_key_le(zs: Seq<ZoneCandidate>, user: Seq<char>, a: int, b: int) -> bool {
    aff_rank(zs, user, a) < aff_rank(zs, user, b) || (aff_rank(zs, user, a) == aff_rank(
        zs,
        user,
        b,
    ) && zs[a].base_rtt_ms <= zs[b].base_rtt_ms)
}

fn zone_key_le_exec(zs: &Vec<ZoneCandidate>, user_region: &str, a: usize, b: usize) -> (r: bool)
    requires
        a < zs@.len(),
        b < zs@.len(),
    ensures
        r == zone_key_le(zs@, user_region@, a as int, b as int),
{
    let user_known: bool = !user_region.is_empty();
    let ra: u64 = if user_known && str_eq(zs[a].region.as_str(), user_region) {
        0
    } else {
        1
    };
    let rb: u64 = if user_known && str_eq(zs[b].region.as_str(), user_region) {
        0
    } else {
        1
    };
    ra < rb || (ra == rb && zs[a].base_rtt_ms <= zs[b].base_rtt_ms)
}

/// The indices `0..n` whose zones pass the allow-list, in order.
pub open spec fn allowed_idxs(
    zs: Seq<ZoneCandidate>,
    allow: Seq<String>,
    user: Seq<char>,
    n: int,
) -> Seq<usize>
    decreases n,
{
    if n <= 0 {
        Seq::empty()
    } else {
        let prefix = allowed_idxs(zs, allow, user, n - 1);
        if zone_allowed(zs[n - 1], allow, user) {
            prefix.push((n - 1) as usize)
        } else {
            prefix
        }
    }
}

/// Inserts index `x` into the sorted index sequence `s`, after every
/// element whose key precedes or equals `x`'s (keeping equals stable).
pub open spec fn idx_insert(
    zs: Seq<ZoneCandidate>,
    user: Seq<char>,
    s: Seq<usize>,
    x: usize,
) -> Seq<usize>
    decreases s.len(),
{
    if s.len() == 0 {
        seq![x]
    } else if zone_key_le(zs, user, s.last() as int, x as int) {
        s.push(x)
    } else {
        idx_insert(zs, user, s.drop_last(), x).push(s.last())
    }
}

/// Stable insertion sort of an index sequence by the preselection order.
pub open spec fn idx_sort(zs: Seq<ZoneCandidate>, user: Seq<char>, s: Seq<usize>) -> Seq<usize>
    decreases s.len(),
{
    if s.len() == 0 {
        s
    } else {
        idx_insert(zs, user, idx_sort(zs, user, s.drop_last()), s.last())
    }
}

/// The preselected candidate indices: the allow-list survivors (or, when
/// none survive, all zones), stably sorted by affinity and round-trip
/// time, truncated to the candidate budget (at least one).
pub open spec fn spec_preselect(
    zs: Seq<ZoneCandidate>,
    allow: Seq<String>,
    max_candidates: int,
    user: Seq<char>,
) -> Seq<usize> {
    let kept = allowed_idxs(zs, allow, user, zs.len() as int);
    let base = if kept.len() == 0 {
        allowed_idxs(zs, Seq::empty(), user, zs.len() as int)
    } else {
        kept
    };
    let sorted = idx_sort(zs, user, base);
    let budget = if max_candidates < 1 {
        1
    } else {
        max_candidates
    };
    sorted.take(if budget < sorted.len() {
        budget
    } else {
        sorted.len() as int
    })
}

proof fn lemma_idx_insert_at(
    zs: Seq<ZoneCandidate>,
    user: Seq<char>,
    s: Seq<usize>,
    x: usize,
    k: int,
)
    requires
        0 <= k <= s.len(),
        k > 0 ==> zone_key_le(zs, user, s[k - 1] as int, x as int),
        forall|j: int| k <= j < s.len() ==> !zone_key_le(zs, user, s[j] as int, x as int),
    ensures
        idx_insert(zs, user, s, x) == s.take(k).push(x) + s.skip(k),
    decreases s.len(),
{
    if s.len() == 0 {
        assert(idx_insert(zs, user, s, x) =~= s.take(k).push(x) + s.skip(k));
    } else if k == s.len() {
        assert(s.take(k) =~= s);
        assert(idx_insert(zs, user, s, x) =~= s.take(k).push(x) + s.skip(k));
    } else {
        assert(!zone_key_le(zs, user, s.last() as int, x as int));
        lemma_idx_insert_at(zs, user, s.drop_last(), x, k);
        assert(s.drop_last().take(k) =~= s.take(k));
        assert(idx_insert(zs, user, s, x) =~= s.take(k).push(x) + s.skip(k));
    }
}

fn idx_insert_exec(
    zs: &Vec<ZoneCandidate>,
    user_region: &str,
    out: &mut Vec<usize>,
    x: usize,
)
    requires
        x < zs@.len(),
        forall|j: int| 0 <= j < old(out)@.len() ==> (old(out)@[j] as int) < zs@.len(),
    ensures
        final(out)@ == idx_insert(zs@, user_region@, old(out)@, x),
        final(out)@.len() == old(out)@.len() + 1,
        forall|j: int| 0 <= j < final(out)@.len() ==> (final(out)@[j] as int) < zs@.len(),
{
    let n: usize = out.len();
    let mut k: usize = n;
    while k > 0 && !zone_key_le_exec(zs, user_region, out[k - 1], x)
        invariant
            n == out@.len(),
            k <= n,
            x < zs@.len(),
            forall|j: int| 0 <= j < out@.len() ==> (out@[j] as int) < zs@.len(),
            forall|j: int|
                k <= j < out@.len() ==> !zone_key_le(zs@, user_region@, out@[j] as int, x as int),
        decreases k,
    {
        k = k - 1;
    }
    proof {
        lemma_idx_insert_at(zs@, user_region@, out@, x, k as int);
    }
    let ghost s0 = out@;
    out.insert(k, x);
    proof {
        assert(out@ =~= s0.take(k as int).push(x) + s0.skip(k as int));
    }
}

/// Preselects the candidates of a route: returns the chosen indices into
/// `zs`, in decision order.
pub fn preselect_candidates(
    zs: &Vec<ZoneCandidate>,
    constraints: &PolicyConstraints,
    user_region: &str,
) -> (r: Vec<usize>)
    ensures
        r@ == spec_preselect(
            zs@,
            constraints.zone_allowlist@,
            constraints.max_candidates as int,
            user_region@,
        ),
        forall|j: int| 0 <= j < r@.len() ==> (r@[j] as int) < zs@.len(),
        zs@.len() > 0 ==> r@.len() > 0,
{
    let n: usize = zs.len();
    let mut kept: Vec<usize> = Vec::new();
    let mut i: usize = 0;
    while i < n
        invariant
            n == zs@.len(),
            i <= n,
            kept@ == allowed_idxs(zs@, constraints.zone_allowlist@, user_region@, i as int),
            forall|j: int| 0 <= j < kept@.len() ==> (kept@[j] as int) < zs@.len(),
        decreases n - i,
    {
        if zone_allowed_exec(&zs[i], &constraints.zone_allowlist, user_region) {
            kept.push(i);
        }
        i = i + 1;
    }
    if kept.len() == 0 {
        let mut all: Vec<usize> = Vec::new();
        let mut j: usize = 0;
        while j < n
            invariant
                n == zs@.len(),
                j <= n,
                all@ == allowed_idxs(zs@, Seq::<String>::empty(), user_region@, j as int),
                forall|u: int| 0 <= u < all@.len() ==> (all@[u] as int) < zs@.len(),
            decreases n - j,
        {
            all.push(j);
            j = j + 1;
        }
        kept = all;
    }

    let m: usize = kept.len();
    let mut sorted: Vec<usize> = Vec::new();
    let mut t: usize = 0;
    while t < m
        invariant
            m == kept@.len(),
            t <= m,
            forall|j: int| 0 <= j < kept@.len() ==> (kept@[j] as int) < zs@.len(),
            sorted@ == idx_sort(zs@, user_region@, kept@.take(t as int)),
            sorted@.len() == t,
            forall|j: int| 0 <= j < sorted@.len() ==> (sorted@[j] as int) < zs@.len(),
        decreases m - t,
    {
        proof {
            assert(kept@.take(t + 1).drop_last() =~= kept@.take(t as int));
            assert(kept@.take(t + 1).last() == kept@[t as int]);
        }
        idx_insert_exec(zs, user_region, &mut sorted, kept[t]);
        t = t + 1;
    }
    proof {
        assert(kept@.take(m as int) =~= kept@);
    }

    let budget: usize = if constraints.max_candidates < 1 {
        1
    } else {
        constraints.max_candidates
    };
    if budget < sorted.len() {
        sorted.truncate(budget);
    }
    proof {
        assert(sorted@ =~= spec_preselect(
            zs@,
            constraints.zone_allowlist@,
            constraints.max_candidates as int,
            user_region@,
        ));
    }
    sorted
}

} // verus!
