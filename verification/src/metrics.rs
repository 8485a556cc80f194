//! Metrics exposition: the plaintext rendering of the metrics store.
//! Counters are written per (route, zone), the cumulative latency
//! histogram per bucket bound, and the last seen carbon intensity per
//! zone.  Label values escape backslash and double quote.

use vstd::prelude::*;
use crate::state::{spec_bucket_bound, MetricsStore, RouteZoneEntry};
use crate::text::{
    dec_digits, escape_label, fmt_milli6, fmt_nano8, fmt_micro8, label_escaped, spec_fmt_milli6,
    spec_fmt_nano8, spec_fmt_micro8, u64_to_string,
};

verus! {

/// The `{route="...",zone="..."} ` label block.
pub open spec fn spec_label_block(route: Seq<char>, zone: Seq<char>) -> Seq<char> {
    "{route=\""@ + label_escaped(route) + "\",zone=\""@ + label_escaped(zone) + "\"} "@
}

/// One series line: name, label block, value, newline.
pub open spec fn spec_rz_line(
    name: Seq<char>,
    route: Seq<char>,
    zone: Seq<char>,
    val: Seq<char>,
) -> Seq<char> {
    name + spec_label_block(route, zone) + val + "\n"@
}

/// One histogram line, with the bucket bound as the `le` label.
pub open spec fn spec_bucket_line(
    route: Seq<char>,
    zone: Seq<char>,
    bound: Seq<char>,
    val: Seq<char>,
) -> Seq<char> {
    "latency_ms_bucket{route=\""@ + label_escaped(route) + "\",zone=\""@ + label_escaped(zone)
        + "\",le=\""@ + bound + "\"} "@ + val + "\n"@
}

/// The histogram lines of one row, from bucket `i` on.
pub open spec fn spec_bucket_lines(
    route: Seq<char>,
    zone: Seq<char>,
    b: Seq<u64>,
    i: int,
) -> Seq<char>
    decreases 7 - i,
{
    if i < 0 || i >= 7 {
        Seq::empty()
    } else {
        spec_bucket_line(
            route,
            zone,
            dec_digits((spec_bucket_bound(i) / 1000) as nat),
            dec_digits(b[i] as nat),
        ) + spec_bucket_lines(route, zone, b, i + 1)
    }
}

/// Every series line of one (route, zone) row.
pub open spec fn spec_entry_text(e: RouteZoneEntry) -> Seq<char> {
    spec_rz_line("requests_total"@, e.route@, e.zone@, dec_digits(e.m.requests_total as nat))
        + spec_rz_line("errors_total"@, e.route@, e.zone@, dec_digits(e.m.errors_total as nat))
        + spec_rz_line(
        "co2e_estimated_total"@,
        e.route@,
        e.zone@,
        spec_fmt_nano8(e.m.co2e_estimated_total_ng as nat),
    ) + spec_rz_line(
        "energy_joules_estimated_total"@,
        e.route@,
        e.zone@,
        spec_fmt_micro8(e.m.energy_estimated_total_uj as nat),
    ) + spec_bucket_lines(e.route@, e.zone@, e.m.latency_buckets@, 0)
}

/// The lines of the first `n` rows, in store order.
pub open spec fn spec_entries_text(s: Seq<RouteZoneEntry>, n: int) -> Seq<char>
    decreases n,
{
    if n <= 0 {
        Seq::empty()
    } else {
        spec_entries_text(s, n - 1) + spec_entry_text(s[n - 1])
    }
}

/// The gauge lines of the first `n` per-zone intensities.
pub open spec fn spec_gauge_lines(s: Seq<(String, u64)>, n: int) -> Seq<char>
    decreases n,
{
    if n <= 0 {
        Seq::empty()
    } else {
        spec_gauge_lines(s, n - 1) + "carbon_intensity_g_per_kwh{zone=\""@ + label_escaped(
            s[n - 1].0@,
        ) + "\"} "@ + spec_fmt_milli6(s[n - 1].1 as nat) + "\n"@
    }
}

/// The type-declaration header of the exposition.
pub open spec fn spec_metrics_header() -> Seq<char> {
    "# TYPE requests_total counter\n"@ + "# TYPE errors_total counter\n"@
        + "# TYPE latency_ms_bucket counter\n"@ + "# TYPE carbon_intensity_g_per_kwh gauge\n"@
        + "# TYPE co2e_estimated_total counter\n"@
        + "# TYPE energy_joules_estimated_total counter\n"@
}

/// The whole exposition text: a pure function of the metrics store.
pub open spec fn spec_render(ms: MetricsStore) -> Seq<char> {
    spec_metrics_header() + spec_entries_text(ms.route_zone@, ms.route_zone@.len() as int)
        + spec_gauge_lines(
        ms.carbon_intensity_g_per_kwh@,
        ms.carbon_intensity_g_per_kwh@.len() as int,
    )
}

fn push_label_block(out: &mut String, route: &str, zone: &str)
    ensures
        final(out)@ == old(out)@ + spec_label_block(route@, zone@),
{
    proof {
        reveal_strlit("{route=\"");
        reveal_strlit("\",zone=\"");
        reveal_strlit("\"} ");
    }
    out.append("{route=\"");
    let er = escape_label(route);
    out.append(er.as_str());
    out.append("\",zone=\"");
    let ez = escape_label(zone);
    out.append(ez.as_str());
    out.append("\"} ");
    proof {
        assert(out@ =~= old(out)@ + spec_label_block(route@, zone@));
    }
}

fn push_rz_line(out: &mut String, name: &str, route: &str, zone: &str, val: &str)
    ensures
        final(out)@ == old(out)@ + spec_rz_line(name@, route@, zone@, val@),
{
    proof {
        reveal_strlit("\n");
    }
    out.append(name);
    push_label_block(out, route, zone);
    out.append(val);
    out.append("\n");
    proof {
        assert(out@ =~= old(out)@ + spec_rz_line(name@, route@, zone@, val@));
    }
}

fn push_bucket_lines(out: &mut String, e: &RouteZoneEntry)
    ensures
        final(out)@ == old(out)@ + spec_bucket_lines(e.route@, e.zone@, e.m.latency_buckets@, 0),
{
    let mut i: usize = 0;
    proof {
        assert(out@ =~= old(out)@ + Seq::<char>::empty());
    }
    while i < 7
        invariant
            i <= 7,
            e.m.latency_buckets@.len() == 7,
            out@ + spec_bucket_lines(e.route@, e.zone@, e.m.latency_buckets@, i as int) == old(
                out,
            )@ + spec_bucket_lines(e.route@, e.zone@, e.m.latency_buckets@, 0),
        decreases 7 - i,
    {
        proof {
            reveal_strlit("latency_ms_bucket{route=\"");
            reveal_strlit("\",zone=\"");
            reveal_strlit("\",le=\"");
            reveal_strlit("\"} ");
            reveal_strlit("\n");
        }
        let ghost out0 = out@;
        out.append("latency_ms_bucket{route=\"");
        let er = escape_label(e.route.as_str());
        out.append(er.as_str());
        out.append("\",zone=\"");
        let ez = escape_label(e.zone.as_str());
        out.append(ez.as_str());
        out.append("\",le=\"");
        let bound = crate::state::bucket_bound(i);
        let bs = u64_to_string(bound / 1000);
        out.append(bs.as_str());
        out.append("\"} ");
        let vs = u64_to_string(e.m.latency_buckets[i]);
        out.append(vs.as_str());
        out.append("\n");
        proof {
            assert(out@ =~= out0 + spec_bucket_line(
                e.route@,
                e.zone@,
                dec_digits((spec_bucket_bound(i as int) / 1000) as nat),
                dec_digits(e.m.latency_buckets@[i as int] as nat),
            ));
            assert(out@ + spec_bucket_lines(e.route@, e.zone@, e.m.latency_buckets@, i + 1) =~= old(
                out,
            )@ + spec_bucket_lines(e.route@, e.zone@, e.m.latency_buckets@, 0));
        }
        i = i + 1;
    }
    proof {
        assert(spec_bucket_lines(e.route@, e.zone@, e.m.latency_buckets@, 7) =~= Seq::<
            char,
        >::empty());
        assert(final(out)@ =~= old(out)@ + spec_bucket_lines(
            e.route@,
            e.zone@,
            e.m.latency_buckets@,
            0,
        ));
    }
}

/// Renders the metrics store as the plaintext exposition.  A pure
/// function of the store: equal stores render to byte-identical text.
pub fn render_metrics(ms: &MetricsStore) -> (r: String)
    ensures
        r@ == spec_render(*ms),
{
    let mut out: String = String::new();
    proof {
        reveal_strlit("# TYPE requests_total counter\n");
        reveal_strlit("# TYPE errors_total counter\n");
        reveal_strlit("# TYPE latency_ms_bucket counter\n");
        reveal_strlit("# TYPE carbon_intensity_g_per_kwh gauge\n");
        reveal_strlit("# TYPE co2e_estimated_total counter\n");
        reveal_strlit("# TYPE energy_joules_estimated_total counter\n");
    }
    out.append("# TYPE requests_total counter\n");
    out.append("# TYPE errors_total counter\n");
    out.append("# TYPE latency_ms_bucket counter\n");
    out.append("# TYPE carbon_intensity_g_per_kwh gauge\n");
    out.append("# TYPE co2e_estimated_total counter\n");
    out.append("# TYPE energy_joules_estimated_total counter\n");
    proof {
        assert(out@ =~= spec_metrics_header());
    }

    let n: usize = ms.route_zone.len();
    let mut i: usize = 0;
    while i < n
        invariant
            n == ms.route_zone@.len(),
            i <= n,
            out@ == spec_metrics_header() + spec_entries_text(ms.route_zone@, i as int),
        decreases n - i,
    {
        let e = &ms.route_zone[i];
        let ghost out0 = out@;
        let v1 = u64_to_string(e.m.requests_total);
        push_rz_line(&mut out, "requests_total", e.route.as_str(), e.zone.as_str(), v1.as_str());
        let v2 = u64_to_string(e.m.errors_total);
        push_rz_line(&mut out, "errors_total", e.route.as_str(), e.zone.as_str(), v2.as_str());
        let v3 = fmt_nano8(e.m.co2e_estimated_total_ng);
        push_rz_line(
            &mut out,
            "co2e_estimated_total",
            e.route.as_str(),
            e.zone.as_str(),
            v3.as_str(),
        );
        let v4 = fmt_micro8(e.m.energy_estimated_total_uj);
        push_rz_line(
            &mut out,
            "energy_joules_estimated_total",
            e.route.as_str(),
            e.zone.as_str(),
            v4.as_str(),
        );
        push_bucket_lines(&mut out, e);
        proof {
            reveal_strlit("requests_total");
            reveal_strlit("errors_total");
            reveal_strlit("co2e_estimated_total");
            reveal_strlit("energy_joules_estimated_total");
            assert(out@ =~= out0 + spec_entry_text(ms.route_zone@[i as int]));
            assert(out@ =~= spec_metrics_header() + spec_entries_text(ms.route_zone@, i + 1));
        }
        i = i + 1;
    }

    let gn: usize = ms.carbon_intensity_g_per_kwh.len();
    let mut g: usize = 0;
    while g < gn
        invariant
            gn == ms.carbon_intensity_g_per_kwh@.len(),
            n == ms.route_zone@.len(),
            g <= gn,
            out@ == spec_metrics_header() + spec_entries_text(ms.route_zone@, n as int)
                + spec_gauge_lines(ms.carbon_intensity_g_per_kwh@, g as int),
        decreases gn - g,
    {
        proof {
            reveal_strlit("carbon_intensity_g_per_kwh{zone=\"");
            reveal_strlit("\"} ");
            reveal_strlit("\n");
        }
        let ghost out0 = out@;
        out.append("carbon_intensity_g_per_kwh{zone=\"");
        let ez = escape_label(ms.carbon_intensity_g_per_kwh[g].0.as_str());
        out.append(ez.as_str());
        out.append("\"} ");
        let vs = fmt_milli6(ms.carbon_intensity_g_per_kwh[g].1);
        out.append(vs.as_str());
        out.append("\n");
        proof {
            assert(out@ =~= spec_metrics_header() + spec_entries_text(ms.route_zone@, n as int)
                + spec_gauge_lines(ms.carbon_intensity_g_per_kwh@, g + 1));
        }
        g = g + 1;
    }
    out
}

/// Idempotent metric rendering: with no intervening request the store is
/// unchanged, and two renderings of the same store are byte-identical.
pub proof fn lemma_render_idempotent(ms: MetricsStore, r1: Seq<char>, r2: Seq<char>)
    requires
        r1 == spec_render(ms),
        r2 == spec_render(ms),
    ensures
        r1 == r2,
{
}

} // verus!
