//! Linearity of the energy balance in the components: where no share needs
//! rounding, components that are all multiplied by one number give a
//! weighted energy multiplied by that number, and the same renewable energy
//! ratio.
use vstd::prelude::*;

use crate::balance::annual_exported;
use crate::balance::annual_used;
use crate::balance::carrier_a;
use crate::balance::carrier_b;
use crate::balance::export_credit;
use crate::balance::export_term;
use crate::balance::exported_from;
use crate::balance::exported_series;
use crate::balance::input_at;
use crate::balance::service_a;
use crate::balance::services_a;
use crate::balance::sum_triples;
use crate::balance::total_a;
use crate::balance::total_b;
use crate::balance::used_at;
use crate::balance::used_series;
use crate::balance::used_term;
use crate::balance::KEXP_SCALE;
use crate::flows::spec_resolve;
use crate::flows::used_epus;
use crate::flows::used_from;
use crate::flows::FlowsView;
use crate::rennrenco2::rer_of;
use crate::rennrenco2::Triple;
use crate::rennrenco2::RATIO_SCALE;
use crate::series::demand_below;
use crate::series::lemma_rows_sum_non_negative;
use crate::series::rows_sum;
use crate::series::Selector;
use crate::shares::lemma_div_common_factor;
use crate::shares::lemma_share_scales;
use crate::shares::lemma_total_scaled;
use crate::shares::share;
use crate::types::spec_carrier_at;
use crate::types::spec_service_at;
use crate::types::Carrier;
use crate::types::ComponentView;
use crate::types::Dest;
use crate::types::FactorView;
use crate::types::Source;
use crate::types::Step;
use crate::types::CARRIER_COUNT;
use crate::types::SERVICE_COUNT;
use crate::wfactors::key;
use crate::wfactors::weight;

verus! {

/// Whether the rows of `scaled` are those of `rows` with every value
/// multiplied by `alpha`.
pub open spec fn scaled_by(rows: Seq<ComponentView>, scaled: Seq<ComponentView>, alpha: int)
    -> bool {
    &&& scaled.len() == rows.len()
    &&& forall|i: int|
        0 <= i < rows.len() ==> {
            &&& (#[trigger] scaled[i]).carrier == rows[i].carrier
            &&& scaled[i].ctype == rows[i].ctype
            &&& scaled[i].csubtype == rows[i].csubtype
            &&& scaled[i].service == rows[i].service
            &&& scaled[i].values.len() == rows[i].values.len()
        }
    &&& forall|i: int, t: int|
        0 <= i < rows.len() && 0 <= t < rows[i].values.len() ==> #[trigger] scaled[i].values[t]
            == alpha * rows[i].values[t]
}

/// Whether the part of `x` that falls to `part` out of `whole` is a whole
/// number before rounding.
pub open spec fn exact_share(x: int, part: int, whole: int) -> bool {
    whole > 0 ==> (x * part) % whole == 0
}

/// Whether at time step `t` the part of the energy of carrier `c` from a
/// source that falls to the services below `k` is a whole number before
/// rounding.
pub open spec fn exact_below(rows: Seq<ComponentView>, c: Carrier, source: Source, k: int, t: int)
    -> bool {
    exact_share(
        used_from(input_at(rows, c, t), source),
        demand_below(rows, c, k, t),
        rows_sum(rows, Selector::spec_epus(c), t),
    )
}

/// Whether at time step `t` no share of the flows of carrier `c` needs
/// rounding: neither between the origins nor between the services.
pub open spec fn exact_at(rows: Seq<ComponentView>, c: Carrier, t: int) -> bool {
    let f = input_at(rows, c, t);
    let pr_insitu = rows_sum(rows, Selector::spec_insitu(c), t);
    let epus = rows_sum(rows, Selector::spec_epus(c), t);
    &&& exact_share(f.used_epus, pr_insitu, f.pr)
    &&& exact_share(f.used_nepus, pr_insitu, f.pr)
    &&& exact_share(f.exp_grid, pr_insitu, f.pr)
    &&& forall|k: int, source: Source|
        0 <= k <= SERVICE_COUNT ==> #[trigger] exact_below(rows, c, source, k, t)
}

/// Whether every row has `n` time steps.
pub open spec fn all_of_length(rows: Seq<ComponentView>, n: int) -> bool {
    forall|i: int| 0 <= i < rows.len() ==> (#[trigger] rows[i]).values.len() == n
}

/// The sum of the scaled rows is the scaled sum of the rows.
pub proof fn lemma_rows_sum_scales(
    rows: Seq<ComponentView>,
    scaled: Seq<ComponentView>,
    alpha: int,
    sel: Selector,
    n: int,
    t: int,
)
    requires
        scaled_by(rows, scaled, alpha),
        all_of_length(rows, n),
        0 <= t < n,
    ensures
        rows_sum(scaled, sel, t) == alpha * rows_sum(rows, sel, t),
    decreases rows.len(),
{
    if rows.len() > 0 {
        let head = rows.drop_last();
        let shead = scaled.drop_last();
        assert forall|i: int| 0 <= i < head.len() implies (#[trigger] head[i]).values.len()
            == n by {
            assert(head[i] == rows[i]);
        }
        assert(scaled_by(head, shead, alpha)) by {
            assert forall|i: int| 0 <= i < head.len() implies {
                &&& (#[trigger] shead[i]).carrier == head[i].carrier
                &&& shead[i].ctype == head[i].ctype
                &&& shead[i].csubtype == head[i].csubtype
                &&& shead[i].service == head[i].service
                &&& shead[i].values.len() == head[i].values.len()
            } by {
                assert(shead[i] == scaled[i]);
                assert(head[i] == rows[i]);
            }
            assert forall|i: int, u: int|
                0 <= i < head.len() && 0 <= u < head[i].values.len() implies #[trigger] shead[i].values[u]
                == alpha * head[i].values[u] by {
                assert(shead[i] == scaled[i]);
                assert(head[i] == rows[i]);
                assert(scaled[i].values[u] == alpha * rows[i].values[u]);
            }
        }
        lemma_rows_sum_scales(head, shead, alpha, sel, n, t);
        let last = rows.len() - 1;
        assert(rows.last() == rows[last]);
        assert(scaled.last() == scaled[last]);
        assert(scaled[last].values[t] == alpha * rows[last].values[t]);
        assert(sel.takes(scaled[last]) == sel.takes(rows[last]));
        assert(alpha * (rows_sum(head, sel, t) + rows[last].values[t]) == alpha * rows_sum(
            head,
            sel,
            t,
        ) + alpha * rows[last].values[t]) by (nonlinear_arith);
        assert(alpha * (rows_sum(head, sel, t) + 0) == alpha * rows_sum(head, sel, t))
            by (nonlinear_arith);
    } else {
        assert(alpha * 0 == 0) by (nonlinear_arith);
    }
}

/// The use by the services below `k` of the scaled rows is the scaled use
/// of the rows.
pub proof fn lemma_demand_below_scales(
    rows: Seq<ComponentView>,
    scaled: Seq<ComponentView>,
    alpha: int,
    c: Carrier,
    k: int,
    n: int,
    t: int,
)
    requires
        scaled_by(rows, scaled, alpha),
        all_of_length(rows, n),
        0 <= t < n,
    ensures
        demand_below(scaled, c, k, t) == alpha * demand_below(rows, c, k, t),
    decreases k,
{
    if k > 0 {
        lemma_demand_below_scales(rows, scaled, alpha, c, k - 1, n, t);
        let sel = Selector::spec_demand(c, spec_service_at(k - 1));
        lemma_rows_sum_scales(rows, scaled, alpha, sel, n, t);
        assert(alpha * (demand_below(rows, c, k - 1, t) + rows_sum(rows, sel, t)) == alpha
            * demand_below(rows, c, k - 1, t) + alpha * rows_sum(rows, sel, t))
            by (nonlinear_arith);
    } else {
        assert(alpha * 0 == 0) by (nonlinear_arith);
    }
}

/// The flows with every field multiplied by `alpha`.
pub open spec fn scale_flows(f: FlowsView, alpha: int) -> FlowsView {
    FlowsView {
        pr: alpha * f.pr,
        used_epus: alpha * f.used_epus,
        used_nepus: alpha * f.used_nepus,
        exp_grid: alpha * f.exp_grid,
        del: alpha * f.del,
        used_epus_insitu: alpha * f.used_epus_insitu,
        used_epus_cogen: alpha * f.used_epus_cogen,
        exp_nepus_insitu: alpha * f.exp_nepus_insitu,
        exp_nepus_cogen: alpha * f.exp_nepus_cogen,
        exp_grid_insitu: alpha * f.exp_grid_insitu,
        exp_grid_cogen: alpha * f.exp_grid_cogen,
    }
}

/// An exact share of scaled quantities is the scaled share.
pub proof fn lemma_exact_share_scales(x: int, part: int, whole: int, alpha: int)
    requires
        alpha > 0,
        whole >= 0,
        exact_share(x, part, whole),
    ensures
        share(alpha * x, alpha * part, alpha * whole) == alpha * share(x, part, whole),
{
    if whole > 0 {
        lemma_share_scales(x, part, whole, alpha);
    } else {
        assert(alpha * 0 == 0) by (nonlinear_arith);
    }
}

/// Where no share between the origins needs rounding, scaled production
/// and use resolve to scaled flows.
pub proof fn lemma_resolve_scales(pr_insitu: int, pr_cogen: int, epus: int, nepus: int, alpha: int)
    requires
        alpha > 0,
        0 <= pr_insitu,
        0 <= pr_cogen,
        0 <= epus,
        0 <= nepus,
        ({
            let f = spec_resolve(pr_insitu, pr_cogen, epus, nepus);
            exact_share(f.used_epus, pr_insitu, f.pr) && exact_share(f.used_nepus, pr_insitu, f.pr)
                && exact_share(f.exp_grid, pr_insitu, f.pr)
        }),
    ensures
        spec_resolve(alpha * pr_insitu, alpha * pr_cogen, alpha * epus, alpha * nepus)
            == scale_flows(spec_resolve(pr_insitu, pr_cogen, epus, nepus), alpha),
{
    let f = spec_resolve(pr_insitu, pr_cogen, epus, nepus);
    let g = spec_resolve(alpha * pr_insitu, alpha * pr_cogen, alpha * epus, alpha * nepus);
    let p = pr_insitu + pr_cogen;
    assert(alpha * pr_insitu + alpha * pr_cogen == alpha * p) by (nonlinear_arith)
        requires
            p == pr_insitu + pr_cogen,
    ;
    assert(g.pr == alpha * f.pr);
    assert((epus <= p) == (alpha * epus <= alpha * p)) by (nonlinear_arith)
        requires
            alpha > 0,
    ;
    assert(g.used_epus == alpha * f.used_epus);
    let rest = p - f.used_epus;
    assert(alpha * p - alpha * f.used_epus == alpha * rest) by (nonlinear_arith)
        requires
            rest == p - f.used_epus,
    ;
    assert((nepus <= rest) == (alpha * nepus <= alpha * rest)) by (nonlinear_arith)
        requires
            alpha > 0,
    ;
    assert(g.used_nepus == alpha * f.used_nepus);
    assert(alpha * rest - alpha * f.used_nepus == alpha * (rest - f.used_nepus))
        by (nonlinear_arith);
    assert(g.exp_grid == alpha * f.exp_grid);
    assert(alpha * epus - alpha * f.used_epus == alpha * (epus - f.used_epus))
        by (nonlinear_arith);
    assert((epus - f.used_epus >= 0) == (alpha * (epus - f.used_epus) >= 0)) by (nonlinear_arith)
        requires
            alpha > 0,
    ;
    assert(alpha * 0 == 0) by (nonlinear_arith);
    assert(g.del == alpha * f.del);
    lemma_exact_share_scales(f.used_epus, pr_insitu, p, alpha);
    lemma_exact_share_scales(f.used_nepus, pr_insitu, p, alpha);
    lemma_exact_share_scales(f.exp_grid, pr_insitu, p, alpha);
    assert(g.used_epus_insitu == alpha * f.used_epus_insitu);
    assert(g.exp_nepus_insitu == alpha * f.exp_nepus_insitu);
    assert(g.exp_grid_insitu == alpha * f.exp_grid_insitu);
    assert(alpha * f.used_epus - alpha * f.used_epus_insitu == alpha * (f.used_epus
        - f.used_epus_insitu)) by (nonlinear_arith);
    assert(alpha * f.used_nepus - alpha * f.exp_nepus_insitu == alpha * (f.used_nepus
        - f.exp_nepus_insitu)) by (nonlinear_arith);
    assert(alpha * f.exp_grid - alpha * f.exp_grid_insitu == alpha * (f.exp_grid
        - f.exp_grid_insitu)) by (nonlinear_arith);
}

/// Where no share needs rounding at a time step, the flows of the scaled
/// rows are the scaled flows of the rows.
pub proof fn lemma_input_scales(
    rows: Seq<ComponentView>,
    scaled: Seq<ComponentView>,
    alpha: int,
    c: Carrier,
    n: int,
    t: int,
)
    requires
        alpha > 0,
        scaled_by(rows, scaled, alpha),
        all_of_length(rows, n),
        0 <= t < n,
        exact_at(rows, c, t),
    ensures
        input_at(scaled, c, t) == scale_flows(input_at(rows, c, t), alpha),
{
    lemma_rows_sum_scales(rows, scaled, alpha, Selector::spec_insitu(c), n, t);
    lemma_rows_sum_scales(rows, scaled, alpha, Selector::spec_cogen(c), n, t);
    lemma_rows_sum_scales(rows, scaled, alpha, Selector::spec_epus(c), n, t);
    lemma_rows_sum_scales(rows, scaled, alpha, Selector::spec_nepus(c), n, t);
    lemma_rows_sum_non_negative(rows, Selector::spec_insitu(c), t);
    lemma_rows_sum_non_negative(rows, Selector::spec_cogen(c), t);
    lemma_rows_sum_non_negative(rows, Selector::spec_epus(c), t);
    lemma_rows_sum_non_negative(rows, Selector::spec_nepus(c), t);
    lemma_resolve_scales(
        rows_sum(rows, Selector::spec_insitu(c), t),
        rows_sum(rows, Selector::spec_cogen(c), t),
        rows_sum(rows, Selector::spec_epus(c), t),
        rows_sum(rows, Selector::spec_nepus(c), t),
        alpha,
    );
}

/// Where no share needs rounding at a time step, the energy that a service
/// uses from a source, and the energy that is exported, are scaled with the
/// rows.
pub proof fn lemma_step_scales(
    rows: Seq<ComponentView>,
    scaled: Seq<ComponentView>,
    alpha: int,
    c: Carrier,
    n: int,
    t: int,
)
    requires
        alpha > 0,
        scaled_by(rows, scaled, alpha),
        all_of_length(rows, n),
        0 <= t < n,
        exact_at(rows, c, t),
    ensures
        forall|source: Source, k: int|
            0 <= k < SERVICE_COUNT ==> #[trigger] used_at(scaled, c, source, k, t) == alpha
                * used_at(rows, c, source, k, t),
        forall|source: Source, dest: Dest| #[trigger]
            exported_from(input_at(scaled, c, t), source, dest) == alpha * exported_from(
                input_at(rows, c, t),
                source,
                dest,
            ),
{
    lemma_input_scales(rows, scaled, alpha, c, n, t);
    let f = input_at(rows, c, t);
    let e = rows_sum(rows, Selector::spec_epus(c), t);
    lemma_rows_sum_scales(rows, scaled, alpha, Selector::spec_epus(c), n, t);
    lemma_rows_sum_non_negative(rows, Selector::spec_epus(c), t);
    assert(alpha * 0 == 0) by (nonlinear_arith);
    assert forall|source: Source, k: int| 0 <= k < SERVICE_COUNT implies #[trigger] used_at(
        scaled,
        c,
        source,
        k,
        t,
    ) == alpha * used_at(rows, c, source, k, t) by {
        let u = used_from(f, source);
        let lo = demand_below(rows, c, k, t);
        let hi = demand_below(rows, c, k + 1, t);
        lemma_demand_below_scales(rows, scaled, alpha, c, k, n, t);
        lemma_demand_below_scales(rows, scaled, alpha, c, k + 1, n, t);
        assert(used_from(input_at(scaled, c, t), source) == alpha * u);
        assert(exact_below(rows, c, source, k, t));
        assert(exact_below(rows, c, source, k + 1, t));
        lemma_exact_share_scales(u, lo, e, alpha);
        lemma_exact_share_scales(u, hi, e, alpha);
        assert(alpha * share(u, hi, e) - alpha * share(u, lo, e) == alpha * (share(u, hi, e)
            - share(u, lo, e))) by (nonlinear_arith);
    }
}

/// Where no share needs rounding at any time step, the energy of a
/// carrier over all time steps is scaled with the rows.
pub proof fn lemma_annual_scales(
    rows: Seq<ComponentView>,
    scaled: Seq<ComponentView>,
    alpha: int,
    c: Carrier,
    n: int,
)
    requires
        alpha > 0,
        0 <= n,
        scaled_by(rows, scaled, alpha),
        all_of_length(rows, n),
        forall|t: int| 0 <= t < n ==> #[trigger] exact_at(rows, c, t),
    ensures
        forall|source: Source, k: int|
            0 <= k < SERVICE_COUNT ==> #[trigger] annual_used(scaled, c, source, k, n) == alpha
                * annual_used(rows, c, source, k, n),
        forall|source: Source, dest: Dest| #[trigger]
            annual_exported(scaled, c, source, dest, n) == alpha * annual_exported(
                rows,
                c,
                source,
                dest,
                n,
            ),
{
    assert forall|source: Source, k: int| 0 <= k < SERVICE_COUNT implies #[trigger] annual_used(
        scaled,
        c,
        source,
        k,
        n,
    ) == alpha * annual_used(rows, c, source, k, n) by {
        let a = used_series(rows, c, source, k, n);
        let b = used_series(scaled, c, source, k, n);
        assert forall|t: int| 0 <= t < a.len() implies #[trigger] b[t] == alpha * a[t] by {
            assert(exact_at(rows, c, t));
            lemma_step_scales(rows, scaled, alpha, c, n, t);
        }
        lemma_total_scaled(a, b, alpha);
    }
    assert forall|source: Source, dest: Dest| #[trigger]
        annual_exported(scaled, c, source, dest, n) == alpha * annual_exported(
            rows,
            c,
            source,
            dest,
            n,
        ) by {
        let a = exported_series(rows, c, source, dest, n);
        let b = exported_series(scaled, c, source, dest, n);
        assert forall|t: int| 0 <= t < a.len() implies #[trigger] b[t] == alpha * a[t] by {
            assert(exact_at(rows, c, t));
            lemma_step_scales(rows, scaled, alpha, c, n, t);
        }
        lemma_total_scaled(a, b, alpha);
    }
}

/// A weight times a scaled energy is the scaled product.
pub proof fn lemma_weigh_scaled(w: Triple, e: int, alpha: int)
    ensures
        w.scale(alpha * e) == w.scale(e).scale(alpha),
{
    assert(w.ren * (alpha * e) == (w.ren * e) * alpha) by (nonlinear_arith);
    assert(w.nren * (alpha * e) == (w.nren * e) * alpha) by (nonlinear_arith);
    assert(w.co2 * (alpha * e) == (w.co2 * e) * alpha) by (nonlinear_arith);
}

/// Sums, differences and multiples of scaled triples are the scaled sums,
/// differences and multiples.
pub proof fn lemma_scaled_algebra(x: Triple, y: Triple, k: int, alpha: int)
    ensures
        x.scale(alpha).add(y.scale(alpha)) == x.add(y).scale(alpha),
        x.scale(alpha).sub(y.scale(alpha)) == x.sub(y).scale(alpha),
        x.scale(alpha).scale(k) == x.scale(k).scale(alpha),
        Triple::zero().scale(alpha) == Triple::zero(),
{
    assert(x.ren * alpha + y.ren * alpha == (x.ren + y.ren) * alpha) by (nonlinear_arith);
    assert(x.nren * alpha + y.nren * alpha == (x.nren + y.nren) * alpha) by (nonlinear_arith);
    assert(x.co2 * alpha + y.co2 * alpha == (x.co2 + y.co2) * alpha) by (nonlinear_arith);
    assert(x.ren * alpha - y.ren * alpha == (x.ren - y.ren) * alpha) by (nonlinear_arith);
    assert(x.nren * alpha - y.nren * alpha == (x.nren - y.nren) * alpha) by (nonlinear_arith);
    assert(x.co2 * alpha - y.co2 * alpha == (x.co2 - y.co2) * alpha) by (nonlinear_arith);
    assert((x.ren * alpha) * k == (x.ren * k) * alpha) by (nonlinear_arith);
    assert((x.nren * alpha) * k == (x.nren * k) * alpha) by (nonlinear_arith);
    assert((x.co2 * alpha) * k == (x.co2 * k) * alpha) by (nonlinear_arith);
    assert(0 * alpha == 0) by (nonlinear_arith);
}

/// The sum of a series whose every triple is `alpha` times the triple of
/// another is `alpha` times the sum of that other.
pub proof fn lemma_sum_triples_scaled(a: Seq<Triple>, b: Seq<Triple>, alpha: int)
    requires
        a.len() == b.len(),
        forall|i: int| 0 <= i < a.len() ==> #[trigger] b[i] == a[i].scale(alpha),
    ensures
        sum_triples(b) == sum_triples(a).scale(alpha),
    decreases a.len(),
{
    if a.len() > 0 {
        lemma_sum_triples_scaled(a.drop_last(), b.drop_last(), alpha);
        lemma_scaled_algebra(sum_triples(a.drop_last()), a.last(), 0, alpha);
    } else {
        lemma_scaled_algebra(Triple::zero(), Triple::zero(), 0, alpha);
    }
}

/// Where no share needs rounding at any time step, the weighted energy of
/// a carrier is scaled with the rows: for every service at step A, and
/// over all services at both steps.
pub proof fn lemma_carrier_scales(
    rows: Seq<ComponentView>,
    scaled: Seq<ComponentView>,
    fs: Seq<FactorView>,
    k_exp: int,
    alpha: int,
    c: Carrier,
    n: int,
)
    requires
        alpha > 0,
        0 <= n,
        scaled_by(rows, scaled, alpha),
        all_of_length(rows, n),
        forall|t: int| 0 <= t < n ==> #[trigger] exact_at(rows, c, t),
    ensures
        forall|k: int|
            0 <= k < SERVICE_COUNT ==> #[trigger] service_a(scaled, fs, c, k, n) == service_a(
                rows,
                fs,
                c,
                k,
                n,
            ).scale(alpha),
        carrier_a(scaled, fs, c, n) == carrier_a(rows, fs, c, n).scale(alpha),
        export_credit(scaled, fs, c, n) == export_credit(rows, fs, c, n).scale(alpha),
        carrier_b(scaled, fs, k_exp, c, n) == carrier_b(rows, fs, k_exp, c, n).scale(alpha),
{
    lemma_annual_scales(rows, scaled, alpha, c, n);
    assert forall|k: int| 0 <= k < SERVICE_COUNT implies #[trigger] service_a(scaled, fs, c, k, n)
        == service_a(rows, fs, c, k, n).scale(alpha) by {
        lemma_used_term_scales(rows, scaled, fs, alpha, c, Source::RED, k, n);
        lemma_used_term_scales(rows, scaled, fs, alpha, c, Source::INSITU, k, n);
        lemma_used_term_scales(rows, scaled, fs, alpha, c, Source::COGENERACION, k, n);
        let t1 = used_term(rows, fs, c, Source::RED, k, n);
        let t2 = used_term(rows, fs, c, Source::INSITU, k, n);
        let t3 = used_term(rows, fs, c, Source::COGENERACION, k, n);
        lemma_scaled_algebra(t1, t2, 0, alpha);
        lemma_scaled_algebra(t1.add(t2), t3, 0, alpha);
        lemma_scaled_algebra(t1.add(t2).add(t3), Triple::zero(), KEXP_SCALE as int, alpha);
    }
    assert forall|i: int| 0 <= i < SERVICE_COUNT implies #[trigger] services_a(scaled, fs, c, n)[i]
        == services_a(rows, fs, c, n)[i].scale(alpha) by {
        assert(service_a(scaled, fs, c, i, n) == service_a(rows, fs, c, i, n).scale(alpha));
    }
    lemma_sum_triples_scaled(services_a(rows, fs, c, n), services_a(scaled, fs, c, n), alpha);
    lemma_export_term_scales(rows, scaled, fs, alpha, c, Source::INSITU, Dest::to_grid, n);
    lemma_export_term_scales(rows, scaled, fs, alpha, c, Source::COGENERACION, Dest::to_grid, n);
    lemma_export_term_scales(rows, scaled, fs, alpha, c, Source::INSITU, Dest::to_nEPB, n);
    lemma_export_term_scales(rows, scaled, fs, alpha, c, Source::COGENERACION, Dest::to_nEPB, n);
    let e1 = export_term(rows, fs, c, Source::INSITU, Dest::to_grid, n);
    let e2 = export_term(rows, fs, c, Source::COGENERACION, Dest::to_grid, n);
    let e3 = export_term(rows, fs, c, Source::INSITU, Dest::to_nEPB, n);
    let e4 = export_term(rows, fs, c, Source::COGENERACION, Dest::to_nEPB, n);
    lemma_scaled_algebra(e1, e2, 0, alpha);
    lemma_scaled_algebra(e1.add(e2), e3, 0, alpha);
    lemma_scaled_algebra(e1.add(e2).add(e3), e4, 0, alpha);
    let credit = export_credit(rows, fs, c, n);
    lemma_scaled_algebra(credit, Triple::zero(), k_exp, alpha);
    lemma_scaled_algebra(carrier_a(rows, fs, c, n), credit.scale(k_exp), 0, alpha);
}

/// A weighted energy used is scaled with the energy.
pub proof fn lemma_used_term_scales(
    rows: Seq<ComponentView>,
    scaled: Seq<ComponentView>,
    fs: Seq<FactorView>,
    alpha: int,
    c: Carrier,
    source: Source,
    k: int,
    n: int,
)
    requires
        annual_used(scaled, c, source, k, n) == alpha * annual_used(rows, c, source, k, n),
    ensures
        used_term(scaled, fs, c, source, k, n) == used_term(rows, fs, c, source, k, n).scale(alpha),
{
    lemma_weigh_scaled(
        weight(fs, key(c, source, Dest::input, Step::A)),
        annual_used(rows, c, source, k, n),
        alpha,
    );
}

/// The effect of an exported energy is scaled with the energy.
pub proof fn lemma_export_term_scales(
    rows: Seq<ComponentView>,
    scaled: Seq<ComponentView>,
    fs: Seq<FactorView>,
    alpha: int,
    c: Carrier,
    source: Source,
    dest: Dest,
    n: int,
)
    requires
        annual_exported(scaled, c, source, dest, n) == alpha * annual_exported(
            rows,
            c,
            source,
            dest,
            n,
        ),
    ensures
        export_term(scaled, fs, c, source, dest, n) == export_term(
            rows,
            fs,
            c,
            source,
            dest,
            n,
        ).scale(alpha),
{
    lemma_weigh_scaled(
        weight(fs, key(c, source, dest, Step::B)).sub(weight(fs, key(c, source, dest, Step::A))),
        annual_exported(rows, c, source, dest, n),
        alpha,
    );
}

/// The renewable energy ratio of a scaled triple is that of the triple.
pub proof fn lemma_rer_scaled(x: Triple, alpha: int)
    requires
        alpha > 0,
    ensures
        rer_of(x.scale(alpha).ren, x.scale(alpha).nren) == rer_of(x.ren, x.nren),
{
    let tot = x.ren + x.nren;
    assert(x.ren * alpha + x.nren * alpha == alpha * tot) by (nonlinear_arith)
        requires
            tot == x.ren + x.nren,
    ;
    assert((alpha * tot == 0) == (tot == 0)) by (nonlinear_arith)
        requires
            alpha > 0,
    ;
    assert(RATIO_SCALE * (x.ren * alpha) == alpha * (RATIO_SCALE * x.ren)) by (nonlinear_arith);
    if tot > 0 {
        lemma_div_common_factor(alpha, RATIO_SCALE * x.ren, tot);
    } else if tot < 0 {
        assert(-(alpha * (RATIO_SCALE * x.ren)) == alpha * (-(RATIO_SCALE * x.ren)))
            by (nonlinear_arith);
        assert(-(alpha * tot) == alpha * (-tot)) by (nonlinear_arith);
        assert((alpha * tot > 0) == (tot > 0)) by (nonlinear_arith)
            requires
                alpha > 0,
        ;
        lemma_div_common_factor(alpha, -(RATIO_SCALE * x.ren), -tot);
    }
}

/// Linearity in the components. Take rows of `n` time steps of which no
/// share needs rounding at any time step, and the same rows with every
/// value multiplied by a positive `alpha`. The weighted energy of the
/// second is `alpha` times that of the first: of every carrier at both
/// steps, of every service of it at step A, and of all carriers at both
/// steps; and the renewable energy ratio is the same.
pub proof fn lemma_components_scaling(
    rows: Seq<ComponentView>,
    scaled: Seq<ComponentView>,
    fs: Seq<FactorView>,
    k_exp: int,
    alpha: int,
    n: int,
)
    requires
        alpha > 0,
        0 <= n,
        scaled_by(rows, scaled, alpha),
        all_of_length(rows, n),
        forall|c: Carrier, t: int| 0 <= t < n ==> #[trigger] exact_at(rows, c, t),
    ensures
        forall|c: Carrier| #[trigger]
            carrier_a(scaled, fs, c, n) == carrier_a(rows, fs, c, n).scale(alpha),
        forall|c: Carrier| #[trigger]
            carrier_b(scaled, fs, k_exp, c, n) == carrier_b(rows, fs, k_exp, c, n).scale(alpha),
        forall|c: Carrier, k: int|
            0 <= k < SERVICE_COUNT ==> #[trigger] service_a(scaled, fs, c, k, n) == service_a(
                rows,
                fs,
                c,
                k,
                n,
            ).scale(alpha),
        total_a(scaled, fs, n) == total_a(rows, fs, n).scale(alpha),
        total_b(scaled, fs, k_exp, n) == total_b(rows, fs, k_exp, n).scale(alpha),
        rer_of(total_b(scaled, fs, k_exp, n).ren, total_b(scaled, fs, k_exp, n).nren) == rer_of(
            total_b(rows, fs, k_exp, n).ren,
            total_b(rows, fs, k_exp, n).nren,
        ),
{
    assert forall|c: Carrier| #[trigger]
        carrier_a(scaled, fs, c, n) == carrier_a(rows, fs, c, n).scale(alpha) by {
        lemma_carrier_scales(rows, scaled, fs, k_exp, alpha, c, n);
    }
    assert forall|c: Carrier| #[trigger]
        carrier_b(scaled, fs, k_exp, c, n) == carrier_b(rows, fs, k_exp, c, n).scale(alpha) by {
        lemma_carrier_scales(rows, scaled, fs, k_exp, alpha, c, n);
    }
    assert forall|c: Carrier, k: int| 0 <= k < SERVICE_COUNT implies #[trigger] service_a(
        scaled,
        fs,
        c,
        k,
        n,
    ) == service_a(rows, fs, c, k, n).scale(alpha) by {
        lemma_carrier_scales(rows, scaled, fs, k_exp, alpha, c, n);
    }
    let a1 = Seq::new(CARRIER_COUNT as nat, |i: int| carrier_a(rows, fs, spec_carrier_at(i), n));
    let a2 = Seq::new(CARRIER_COUNT as nat, |i: int| carrier_a(scaled, fs, spec_carrier_at(i), n));
    assert forall|i: int| 0 <= i < a1.len() implies #[trigger] a2[i] == a1[i].scale(alpha) by {
        assert(carrier_a(scaled, fs, spec_carrier_at(i), n) == carrier_a(
            rows,
            fs,
            spec_carrier_at(i),
            n,
        ).scale(alpha));
    }
    lemma_sum_triples_scaled(a1, a2, alpha);
    let b1 = Seq::new(
        CARRIER_COUNT as nat,
        |i: int| carrier_b(rows, fs, k_exp, spec_carrier_at(i), n),
    );
    let b2 = Seq::new(
        CARRIER_COUNT as nat,
        |i: int| carrier_b(scaled, fs, k_exp, spec_carrier_at(i), n),
    );
    assert forall|i: int| 0 <= i < b1.len() implies #[trigger] b2[i] == b1[i].scale(alpha) by {
        assert(carrier_b(scaled, fs, k_exp, spec_carrier_at(i), n) == carrier_b(
            rows,
            fs,
            k_exp,
            spec_carrier_at(i),
            n,
        ).scale(alpha));
    }
    lemma_sum_triples_scaled(b1, b2, alpha);
    lemma_rer_scaled(total_b(rows, fs, k_exp, n), alpha);
}

} // verus!
