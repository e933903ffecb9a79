//! Laws of the energy balance: what holds of the weighted energy whatever
//! the components and the factors are.
use vstd::prelude::*;

use crate::balance::annual_exported;
use crate::balance::annual_used;
use crate::balance::carrier_a;
use crate::balance::carrier_b;
use crate::balance::delivered_below;
use crate::balance::export_credit;
use crate::balance::export_term;
use crate::balance::exported_from;
use crate::balance::exported_series;
use crate::balance::input_at;
use crate::balance::service_a;
use crate::balance::service_b;
use crate::balance::total_a;
use crate::balance::total_b;
use crate::balance::total_service_a;
use crate::balance::total_service_b;
use crate::balance::used_at;
use crate::balance::used_series;
use crate::balance::used_term;
use crate::balance::KEXP_SCALE;
use crate::balance::carrier_present;
use crate::performance::per_area;
use crate::prepare::lemma_stripped_find;
use crate::prepare::stripped;
use crate::prepare::lemma_nearby_find;
use crate::prepare::nearby;
use crate::wfactors::lemma_find_row;
use crate::wfactors::FactorKey;
use crate::performance::Balance;
use crate::rennrenco2::Triple;
use crate::series::demand_below;
use crate::series::lemma_demand_below_monotone;
use crate::series::lemma_demand_total;
use crate::series::lemma_rows_sum_non_negative;
use crate::series::rows_sum;
use crate::series::Selector;
use crate::shares::lemma_div_twice;
use crate::shares::lemma_share_of_whole;
use crate::shares::lemma_total_zero;
use crate::shares::slice;
use crate::shares::total;
use crate::types::spec_carrier_at;
use crate::types::spec_service_at;
use crate::types::CType;
use crate::types::Carrier;
use crate::types::ComponentView;
use crate::types::Dest;
use crate::types::FactorView;
use crate::types::MetaView;
use crate::types::Source;
use crate::types::Step;
use crate::types::CARRIER_COUNT;
use crate::types::SERVICE_COUNT;
use crate::wfactors::key;
use crate::wfactors::weight;

verus! {

/// A triple multiplied by zero is zero, and zero taken from a triple
/// leaves it as it is.
pub proof fn lemma_scale_zero(x: Triple)
    ensures
        x.scale(0) == Triple::zero(),
        x.sub(Triple::zero()) == x,
        Triple::zero().slice(0, 0, 0) == Triple::zero(),
{
    assert(x.ren * 0 == 0 && x.nren * 0 == 0 && x.co2 * 0 == 0) by (nonlinear_arith);
}

/// No part of nothing falls to any stretch.
pub proof fn lemma_slice_of_zero(lo: int, hi: int, whole: int)
    ensures
        slice(0, lo, hi, whole) == 0,
        Triple::zero().slice(lo, hi, whole) == Triple::zero(),
{
    assert(0 * lo == 0 && 0 * hi == 0) by (nonlinear_arith);
}

/// With an export factor of zero the weighted energy at step B is that at
/// step A: of every carrier, of every service of it, of all carriers and of
/// every service over all carriers.
pub proof fn lemma_step_b_is_step_a_without_export_credit(
    rows: Seq<ComponentView>,
    fs: Seq<FactorView>,
    n: int,
)
    ensures
        forall|c: Carrier| #[trigger] carrier_b(rows, fs, 0, c, n) == carrier_a(rows, fs, c, n),
        forall|c: Carrier, k: int| #[trigger]
            service_b(rows, fs, 0, c, k, n) == service_a(rows, fs, c, k, n),
        total_b(rows, fs, 0, n) == total_a(rows, fs, n),
        forall|k: int| #[trigger]
            total_service_b(rows, fs, 0, k, n) == total_service_a(rows, fs, k, n),
{
    assert forall|c: Carrier| #[trigger] carrier_b(rows, fs, 0, c, n) == carrier_a(
        rows,
        fs,
        c,
        n,
    ) by {
        lemma_scale_zero(export_credit(rows, fs, c, n));
        lemma_scale_zero(carrier_a(rows, fs, c, n));
    }
    assert forall|c: Carrier, k: int| #[trigger]
        service_b(rows, fs, 0, c, k, n) == service_a(rows, fs, c, k, n) by {
        lemma_scale_zero(export_credit(rows, fs, c, n));
        lemma_slice_of_zero(
            delivered_below(rows, c, k, n),
            delivered_below(rows, c, k + 1, n),
            delivered_below(rows, c, SERVICE_COUNT as int, n),
        );
        lemma_scale_zero(service_a(rows, fs, c, k, n));
    }
    assert(Seq::new(CARRIER_COUNT as nat, |i: int| carrier_b(rows, fs, 0, spec_carrier_at(i), n))
        =~= Seq::new(CARRIER_COUNT as nat, |i: int| carrier_a(rows, fs, spec_carrier_at(i), n)));
    assert forall|k: int| #[trigger]
        total_service_b(rows, fs, 0, k, n) == total_service_a(rows, fs, k, n) by {
        assert(Seq::new(
            CARRIER_COUNT as nat,
            |i: int| service_b(rows, fs, 0, spec_carrier_at(i), k, n),
        ) =~= Seq::new(
            CARRIER_COUNT as nat,
            |i: int| service_a(rows, fs, spec_carrier_at(i), k, n),
        ));
    }
}

/// With a reference area `alpha` times as large, the weighted energy for
/// each unit of area is `alpha` times as small.
pub proof fn lemma_per_area_scales(x: Triple, arearef: int, alpha: int)
    requires
        arearef > 0,
        alpha > 0,
    ensures
        per_area(x, alpha * arearef) == per_area(x, arearef).div(alpha),
{
    let s = crate::balance::AREA_SCALE as int;
    lemma_div_twice(x.ren * s, arearef, alpha);
    lemma_div_twice(x.nren * s, arearef, alpha);
    lemma_div_twice(x.co2 * s, arearef, alpha);
    assert(alpha * arearef == arearef * alpha) by (nonlinear_arith);
}

/// Of two balances of the same components and factors, the second for a
/// reference area `alpha` times that of the first: the weighted energy is
/// the same, of every carrier, of every service and overall, as is the
/// renewable energy ratio; the weighted energy for each unit of area of the
/// second is that of the first divided by `alpha`.
pub proof fn lemma_area_scaling(
    first: Balance,
    second: Balance,
    metas: Seq<MetaView>,
    rows: Seq<ComponentView>,
    fs: Seq<FactorView>,
    k_exp: int,
    arearef: int,
    alpha: int,
)
    requires
        arearef > 0,
        alpha > 0,
        first.is_performance_of(metas, rows, fs, k_exp, arearef),
        second.is_performance_of(metas, rows, fs, k_exp, alpha * arearef),
    ensures
        second.a@ == first.a@,
        second.b@ == first.b@,
        second.by_carrier@.len() == first.by_carrier@.len(),
        forall|i: int|
            0 <= i < first.by_carrier@.len() ==> (#[trigger] second.by_carrier@[i])@
                == first.by_carrier@[i]@,
        crate::engine::triples(second.a_by_service@) == crate::engine::triples(
            first.a_by_service@,
        ),
        crate::engine::triples(second.b_by_service@) == crate::engine::triples(
            first.b_by_service@,
        ),
        second.rer == first.rer,
        second.a_m2@ == first.a_m2@.div(alpha),
        second.b_m2@ == first.b_m2@.div(alpha),
{
    let n = crate::series::steps_of(rows);
    lemma_per_area_scales(total_a(rows, fs, n), arearef, alpha);
    lemma_per_area_scales(total_b(rows, fs, k_exp, n), arearef, alpha);
    let v1 = crate::performance::balance_views(first.by_carrier@);
    let v2 = crate::performance::balance_views(second.by_carrier@);
    assert(v1 == v2);
    assert(v1.len() == first.by_carrier@.len());
    assert(v2.len() == second.by_carrier@.len());
    assert forall|i: int| 0 <= i < first.by_carrier@.len() implies (
    #[trigger] second.by_carrier@[i])@ == first.by_carrier@[i]@ by {
        assert(v1[i] == first.by_carrier@[i]@);
        assert(v2[i] == second.by_carrier@[i]@);
    }
}

/// Whether no row is a production row.
pub open spec fn no_production(rows: Seq<ComponentView>) -> bool {
    forall|i: int| 0 <= i < rows.len() ==> (#[trigger] rows[i]).ctype != CType::PRODUCCION
}

/// The energy of a carrier that the service with ordinal `k` uses at each
/// of `n` time steps.
pub open spec fn demand_series(rows: Seq<ComponentView>, c: Carrier, k: int, n: int) -> Seq<int> {
    Seq::new(n as nat, |t: int| rows_sum(rows, Selector::spec_demand(c, spec_service_at(k)), t))
}

/// The energy of a carrier that the service with ordinal `k` uses over all
/// time steps.
pub open spec fn annual_demand(rows: Seq<ComponentView>, c: Carrier, k: int, n: int) -> int {
    total(demand_series(rows, c, k, n))
}

/// A sum over rows of which the selector takes none is zero.
pub proof fn lemma_rows_sum_none(rows: Seq<ComponentView>, sel: Selector, t: int)
    requires
        forall|i: int| 0 <= i < rows.len() ==> !sel.takes(#[trigger] rows[i]),
    ensures
        rows_sum(rows, sel, t) == 0,
    decreases rows.len(),
{
    if rows.len() > 0 {
        let head = rows.drop_last();
        assert forall|i: int| 0 <= i < head.len() implies !sel.takes(#[trigger] head[i]) by {
            assert(head[i] == rows[i]);
        }
        lemma_rows_sum_none(head, sel, t);
        assert(rows.last() == rows[rows.len() - 1]);
    }
}

/// Without production, at every time step the grid delivers to each
/// service what it uses, nothing is used of any production and nothing is
/// exported.
pub proof fn lemma_no_production_step(rows: Seq<ComponentView>, c: Carrier, k: int, t: int)
    requires
        no_production(rows),
        0 <= k < SERVICE_COUNT,
    ensures
        used_at(rows, c, Source::RED, k, t) == rows_sum(
            rows,
            Selector::spec_demand(c, spec_service_at(k)),
            t,
        ),
        used_at(rows, c, Source::INSITU, k, t) == 0,
        used_at(rows, c, Source::COGENERACION, k, t) == 0,
        forall|source: Source, dest: Dest| #[trigger]
            exported_from(input_at(rows, c, t), source, dest) == 0,
{
    lemma_rows_sum_none(rows, Selector::spec_insitu(c), t);
    lemma_rows_sum_none(rows, Selector::spec_cogen(c), t);
    lemma_rows_sum_non_negative(rows, Selector::spec_epus(c), t);
    lemma_rows_sum_non_negative(rows, Selector::spec_nepus(c), t);
    lemma_rows_sum_non_negative(rows, Selector::spec_demand(c, spec_service_at(k)), t);
    let e = rows_sum(rows, Selector::spec_epus(c), t);
    let lo = demand_below(rows, c, k, t);
    let d = rows_sum(rows, Selector::spec_demand(c, spec_service_at(k)), t);
    lemma_demand_below_monotone(rows, c, k, k + 1, t);
    lemma_demand_below_monotone(rows, c, k + 1, SERVICE_COUNT as int, t);
    lemma_demand_total(rows, c, t);
    assert(0 * 0 == 0) by (nonlinear_arith);
    let f = input_at(rows, c, t);
    assert(f.del == e);
    assert(f.used_epus_insitu == 0);
    assert(f.used_epus_cogen == 0);
    lemma_slice_of_zero(lo, lo + d, e);
    if e > 0 {
        lemma_share_of_whole(lo + d, e);
        lemma_share_of_whole(lo, e);
    }
}

/// Without production, the weighted energy of a carrier for a service is
/// the energy that the service uses, weighted by the factor of the energy
/// that the grid delivers; nothing is exported, so the weighted energy at
/// step B is that at step A.
pub proof fn lemma_no_production(
    rows: Seq<ComponentView>,
    fs: Seq<FactorView>,
    k_exp: int,
    c: Carrier,
    k: int,
    n: int,
)
    requires
        no_production(rows),
        0 <= k < SERVICE_COUNT,
        0 <= n,
    ensures
        service_a(rows, fs, c, k, n) == weight(fs, key(c, Source::RED, Dest::input, Step::A)).scale(
            annual_demand(rows, c, k, n),
        ).scale(KEXP_SCALE as int),
        forall|source: Source, dest: Dest| #[trigger]
            annual_exported(rows, c, source, dest, n) == 0,
        export_credit(rows, fs, c, n) == Triple::zero(),
        carrier_b(rows, fs, k_exp, c, n) == carrier_a(rows, fs, c, n),
        service_b(rows, fs, k_exp, c, k, n) == service_a(rows, fs, c, k, n),
{
    assert forall|t: int| 0 <= t < n implies #[trigger] used_series(rows, c, Source::RED, k, n)[t]
        == demand_series(rows, c, k, n)[t] by {
        lemma_no_production_step(rows, c, k, t);
    }
    assert(used_series(rows, c, Source::RED, k, n) =~= demand_series(rows, c, k, n));
    assert forall|t: int| 0 <= t < n implies #[trigger] used_series(
        rows,
        c,
        Source::INSITU,
        k,
        n,
    )[t] == 0 by {
        lemma_no_production_step(rows, c, k, t);
    }
    assert forall|t: int| 0 <= t < n implies #[trigger] used_series(
        rows,
        c,
        Source::COGENERACION,
        k,
        n,
    )[t] == 0 by {
        lemma_no_production_step(rows, c, k, t);
    }
    lemma_total_zero(used_series(rows, c, Source::INSITU, k, n));
    lemma_total_zero(used_series(rows, c, Source::COGENERACION, k, n));
    lemma_scale_zero(weight(fs, key(c, Source::INSITU, Dest::input, Step::A)));
    lemma_scale_zero(weight(fs, key(c, Source::COGENERACION, Dest::input, Step::A)));
    assert forall|source: Source, dest: Dest| #[trigger]
        annual_exported(rows, c, source, dest, n) == 0 by {
        assert forall|t: int| 0 <= t < n implies #[trigger] exported_series(
            rows,
            c,
            source,
            dest,
            n,
        )[t] == 0 by {
            lemma_no_production_step(rows, c, k, t);
        }
        lemma_total_zero(exported_series(rows, c, source, dest, n));
    }
    lemma_export_terms_zero(rows, fs, c, n);
    lemma_scale_zero(export_credit(rows, fs, c, n));
    assert(Triple::zero().scale(k_exp) == Triple::zero()) by (nonlinear_arith);
    lemma_slice_of_zero(
        delivered_below(rows, c, k, n),
        delivered_below(rows, c, k + 1, n),
        delivered_below(rows, c, SERVICE_COUNT as int, n),
    );
}

/// Where no energy of a carrier is exported, the exported energy has no
/// effect.
pub proof fn lemma_export_terms_zero(
    rows: Seq<ComponentView>,
    fs: Seq<FactorView>,
    c: Carrier,
    n: int,
)
    requires
        forall|source: Source, dest: Dest| #[trigger]
            annual_exported(rows, c, source, dest, n) == 0,
    ensures
        export_credit(rows, fs, c, n) == Triple::zero(),
{
    assert forall|source: Source, dest: Dest| #[trigger]
        export_term(rows, fs, c, source, dest, n) == Triple::zero() by {
        assert(annual_exported(rows, c, source, dest, n) == 0);
        lemma_scale_zero(
            weight(fs, key(c, source, dest, Step::B)).sub(weight(fs, key(c, source, dest, Step::A))),
        );
    }
    assert(export_term(rows, fs, c, Source::INSITU, Dest::to_grid, n) == Triple::zero());
    assert(export_term(rows, fs, c, Source::COGENERACION, Dest::to_grid, n) == Triple::zero());
    assert(export_term(rows, fs, c, Source::INSITU, Dest::to_nEPB, n) == Triple::zero());
    assert(export_term(rows, fs, c, Source::COGENERACION, Dest::to_nEPB, n) == Triple::zero());
}

/// In the table for the nearby perimeter, the energy of a carrier other
/// than electricity that does not come from the building itself weighs
/// nothing; every other weight is that of the table.
pub proof fn lemma_nearby_weight(fs: Seq<FactorView>, k: FactorKey)
    ensures
        k.carrier != Carrier::ELECTRICIDAD && k.source != Source::INSITU ==> weight(nearby(fs), k)
            == Triple::zero(),
        k.carrier == Carrier::ELECTRICIDAD || k.source == Source::INSITU ==> weight(nearby(fs), k)
            == weight(fs, k),
{
    lemma_nearby_find(fs, k);
    lemma_find_row(fs, k);
}

/// Nearby restriction. With the table for the nearby perimeter, a carrier
/// other than electricity contributes nothing through the energy that the
/// grid delivers or that is cogenerated: its weighted energy for a service
/// is the energy produced on site that the service uses, weighted as in
/// the table.
pub proof fn lemma_nearby_restriction(
    rows: Seq<ComponentView>,
    fs: Seq<FactorView>,
    c: Carrier,
    k: int,
    n: int,
)
    requires
        c != Carrier::ELECTRICIDAD,
    ensures
        used_term(rows, nearby(fs), c, Source::RED, k, n) == Triple::zero(),
        used_term(rows, nearby(fs), c, Source::COGENERACION, k, n) == Triple::zero(),
        used_term(rows, nearby(fs), c, Source::INSITU, k, n) == used_term(
            rows,
            fs,
            c,
            Source::INSITU,
            k,
            n,
        ),
        service_a(rows, nearby(fs), c, k, n) == used_term(rows, fs, c, Source::INSITU, k, n).scale(
            KEXP_SCALE as int,
        ),
{
    lemma_nearby_weight(fs, key(c, Source::RED, Dest::input, Step::A));
    lemma_nearby_weight(fs, key(c, Source::COGENERACION, Dest::input, Step::A));
    lemma_nearby_weight(fs, key(c, Source::INSITU, Dest::input, Step::A));
    let e1 = annual_used(rows, c, Source::RED, k, n);
    let e2 = annual_used(rows, c, Source::COGENERACION, k, n);
    assert(0 * e1 == 0 && 0 * e2 == 0) by (nonlinear_arith);
}

/// A carrier without rows uses and exports nothing.
pub proof fn lemma_absent_carrier(rows: Seq<ComponentView>, c: Carrier, n: int)
    requires
        !carrier_present(rows, c),
        0 <= n,
    ensures
        forall|source: Source, k: int|
            0 <= k < SERVICE_COUNT ==> #[trigger] annual_used(rows, c, source, k, n) == 0,
        forall|source: Source, dest: Dest| #[trigger]
            annual_exported(rows, c, source, dest, n) == 0,
{
    assert forall|sel: Selector, t: int| sel.carrier == c implies #[trigger] rows_sum(rows, sel, t)
        == 0 by {
        assert forall|i: int| 0 <= i < rows.len() implies !sel.takes(#[trigger] rows[i]) by {
            assert(rows[i].carrier != c);
        }
        lemma_rows_sum_none(rows, sel, t);
    }
    assert forall|t: int| #[trigger] input_at(rows, c, t) == crate::flows::spec_resolve(0, 0, 0, 0) by {
        assert(rows_sum(rows, Selector::spec_insitu(c), t) == 0);
        assert(rows_sum(rows, Selector::spec_cogen(c), t) == 0);
        assert(rows_sum(rows, Selector::spec_epus(c), t) == 0);
        assert(rows_sum(rows, Selector::spec_nepus(c), t) == 0);
    }
    assert(0 * 0 == 0) by (nonlinear_arith);
    assert forall|source: Source, k: int| 0 <= k < SERVICE_COUNT implies #[trigger] annual_used(
        rows,
        c,
        source,
        k,
        n,
    ) == 0 by {
        assert forall|t: int| 0 <= t < n implies #[trigger] used_series(rows, c, source, k, n)[t]
            == 0 by {
            assert(input_at(rows, c, t) == crate::flows::spec_resolve(0, 0, 0, 0));
            assert(rows_sum(rows, Selector::spec_epus(c), t) == 0);
        }
        lemma_total_zero(used_series(rows, c, source, k, n));
    }
    assert forall|source: Source, dest: Dest| #[trigger]
        annual_exported(rows, c, source, dest, n) == 0 by {
        assert forall|t: int| 0 <= t < n implies #[trigger] exported_series(
            rows,
            c,
            source,
            dest,
            n,
        )[t] == 0 by {
            assert(input_at(rows, c, t) == crate::flows::spec_resolve(0, 0, 0, 0));
        }
        lemma_total_zero(exported_series(rows, c, source, dest, n));
    }
}

/// The simplification of the factors is cosmetic: with the table reduced
/// to the carriers that the components use, the weighted energy of every
/// carrier is what it is with the whole table, for every service at step
/// A and over all services at both steps.
pub proof fn lemma_simplification_is_cosmetic(
    rows: Seq<ComponentView>,
    fs: Seq<FactorView>,
    k_exp: int,
    c: Carrier,
    n: int,
)
    requires
        0 <= n,
    ensures
        forall|k: int|
            0 <= k < SERVICE_COUNT ==> #[trigger] service_a(rows, stripped(fs, rows), c, k, n)
                == service_a(rows, fs, c, k, n),
        carrier_a(rows, stripped(fs, rows), c, n) == carrier_a(rows, fs, c, n),
        export_credit(rows, stripped(fs, rows), c, n) == export_credit(rows, fs, c, n),
        carrier_b(rows, stripped(fs, rows), k_exp, c, n) == carrier_b(rows, fs, k_exp, c, n),
{
    let less = stripped(fs, rows);
    if carrier_present(rows, c) {
        assert forall|source: Source, dest: Dest, step: Step| #[trigger]
            weight(less, key(c, source, dest, step)) == weight(fs, key(c, source, dest, step)) by {
            lemma_stripped_find(fs, rows, key(c, source, dest, step));
        }
    } else {
        lemma_absent_carrier(rows, c, n);
        assert forall|x: Triple| #[trigger] x.scale(0) == Triple::zero() by {
            lemma_scale_zero(x);
        }
        lemma_export_terms_zero(rows, fs, c, n);
        lemma_export_terms_zero(rows, less, c, n);
    }
    assert forall|k: int| 0 <= k < SERVICE_COUNT implies #[trigger] service_a(rows, less, c, k, n)
        == service_a(rows, fs, c, k, n) by {
        if !carrier_present(rows, c) {
            assert(annual_used(rows, c, Source::RED, k, n) == 0);
            assert(annual_used(rows, c, Source::INSITU, k, n) == 0);
            assert(annual_used(rows, c, Source::COGENERACION, k, n) == 0);
        }
    }
    assert(crate::balance::services_a(rows, less, c, n) =~= crate::balance::services_a(
        rows,
        fs,
        c,
        n,
    ));
}

} // verus!
