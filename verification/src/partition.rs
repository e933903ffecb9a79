//! The services partition the energy of a carrier: what is imputed to the
//! services adds up to the energy that EPB services use from each source,
//! at every time step and over all of them.
use vstd::prelude::*;

use crate::balance::annual_used;
use crate::balance::carrier_a;
use crate::balance::input_at;
use crate::balance::service_a;
use crate::balance::services_a;
use crate::balance::sum_triples;
use crate::balance::used_at;
use crate::balance::used_series;
use crate::balance::KEXP_SCALE;
use crate::flows::lemma_non_negative;
use crate::flows::used_from;
use crate::rennrenco2::Triple;
use crate::series::demand_below;
use crate::series::lemma_demand_total;
use crate::series::lemma_rows_sum_non_negative;
use crate::series::rows_sum;
use crate::series::Selector;
use crate::shares::lemma_share_ends;
use crate::shares::lemma_total_sum;
use crate::shares::lemma_total_zero;
use crate::shares::share;
use crate::shares::total;
use crate::types::Carrier;
use crate::types::ComponentView;
use crate::types::Dest;
use crate::types::FactorView;
use crate::types::Source;
use crate::types::Step;
use crate::types::SERVICE_COUNT;
use crate::wfactors::key;
use crate::wfactors::weight;

verus! {

/// Energy of a carrier that the services with an ordinal below `k` use
/// from a source at time step `t`.
pub open spec fn used_below(rows: Seq<ComponentView>, c: Carrier, source: Source, k: int, t: int)
    -> int
    decreases k,
{
    if k <= 0 {
        0
    } else {
        used_below(rows, c, source, k - 1, t) + used_at(rows, c, source, k - 1, t)
    }
}

/// What the services below `k` use from a source is the share of the
/// energy from the source that falls to their use.
pub proof fn lemma_used_below(rows: Seq<ComponentView>, c: Carrier, source: Source, k: int, t: int)
    requires
        0 <= k <= SERVICE_COUNT,
    ensures
        used_below(rows, c, source, k, t) == share(
            used_from(input_at(rows, c, t), source),
            demand_below(rows, c, k, t),
            rows_sum(rows, Selector::spec_epus(c), t),
        ),
    decreases k,
{
    let u = used_from(input_at(rows, c, t), source);
    let w = rows_sum(rows, Selector::spec_epus(c), t);
    if k > 0 {
        lemma_used_below(rows, c, source, k - 1, t);
    } else {
        lemma_share_ends(u, w);
    }
}

/// At every time step the services partition the energy that EPB services
/// use from a source: the parts of the services add up to it.
pub proof fn lemma_services_partition(rows: Seq<ComponentView>, c: Carrier, source: Source, t: int)
    ensures
        used_below(rows, c, source, SERVICE_COUNT as int, t) == used_from(
            input_at(rows, c, t),
            source,
        ),
{
    let u = used_from(input_at(rows, c, t), source);
    let w = rows_sum(rows, Selector::spec_epus(c), t);
    lemma_used_below(rows, c, source, SERVICE_COUNT as int, t);
    lemma_demand_total(rows, c, t);
    lemma_share_ends(u, w);
    lemma_rows_sum_non_negative(rows, Selector::spec_insitu(c), t);
    lemma_rows_sum_non_negative(rows, Selector::spec_cogen(c), t);
    lemma_rows_sum_non_negative(rows, Selector::spec_epus(c), t);
    lemma_rows_sum_non_negative(rows, Selector::spec_nepus(c), t);
    lemma_non_negative(
        rows_sum(rows, Selector::spec_insitu(c), t),
        rows_sum(rows, Selector::spec_cogen(c), t),
        w,
        rows_sum(rows, Selector::spec_nepus(c), t),
    );
}

/// Energy of a carrier that EPB services use from a source at each of `n`
/// time steps.
pub open spec fn source_series(rows: Seq<ComponentView>, c: Carrier, source: Source, n: int) -> Seq<
    int,
> {
    Seq::new(n as nat, |t: int| used_from(input_at(rows, c, t), source))
}

/// Energy of a carrier that EPB services use from a source over all time
/// steps.
pub open spec fn annual_from(rows: Seq<ComponentView>, c: Carrier, source: Source, n: int) -> int {
    total(source_series(rows, c, source, n))
}

/// Energy of a carrier that the services with an ordinal below `k` use
/// from a source over all time steps.
pub open spec fn annual_below(rows: Seq<ComponentView>, c: Carrier, source: Source, k: int, n: int)
    -> int
    decreases k,
{
    if k <= 0 {
        0
    } else {
        annual_below(rows, c, source, k - 1, n) + annual_used(rows, c, source, k - 1, n)
    }
}

/// What the services below `k` use over all time steps is the sum over the
/// time steps of what they use at each.
pub proof fn lemma_annual_below(rows: Seq<ComponentView>, c: Carrier, source: Source, k: int, n: int)
    requires
        0 <= k <= SERVICE_COUNT,
        0 <= n,
    ensures
        annual_below(rows, c, source, k, n) == total(
            Seq::new(n as nat, |t: int| used_below(rows, c, source, k, t)),
        ),
    decreases k,
{
    let now = Seq::new(n as nat, |t: int| used_below(rows, c, source, k, t));
    if k > 0 {
        lemma_annual_below(rows, c, source, k - 1, n);
        let before = Seq::new(n as nat, |t: int| used_below(rows, c, source, k - 1, t));
        let part = used_series(rows, c, source, k - 1, n);
        assert forall|t: int| 0 <= t < before.len() implies #[trigger] now[t] == before[t]
            + part[t] by {}
        lemma_total_sum(before, part, now);
    } else {
        lemma_total_zero(now);
    }
}

/// Over all time steps the services partition the energy that EPB
/// services use from a source.
pub proof fn lemma_annual_partition(rows: Seq<ComponentView>, c: Carrier, source: Source, n: int)
    requires
        0 <= n,
    ensures
        annual_below(rows, c, source, SERVICE_COUNT as int, n) == annual_from(rows, c, source, n),
{
    lemma_annual_below(rows, c, source, SERVICE_COUNT as int, n);
    let a = Seq::new(n as nat, |t: int| used_below(rows, c, source, SERVICE_COUNT as int, t));
    let b = source_series(rows, c, source, n);
    assert forall|t: int| 0 <= t < a.len() implies #[trigger] a[t] == b[t] by {
        lemma_services_partition(rows, c, source, t);
    }
    assert(a =~= b);
}

/// Weighted energy of a carrier at step A, from the energy that EPB
/// services use from each source over all time steps.
pub open spec fn carrier_a_from_sources(
    rows: Seq<ComponentView>,
    fs: Seq<FactorView>,
    c: Carrier,
    n: int,
) -> Triple {
    weight(fs, key(c, Source::RED, Dest::input, Step::A)).scale(
        annual_from(rows, c, Source::RED, n),
    ).add(
        weight(fs, key(c, Source::INSITU, Dest::input, Step::A)).scale(
            annual_from(rows, c, Source::INSITU, n),
        ),
    ).add(
        weight(fs, key(c, Source::COGENERACION, Dest::input, Step::A)).scale(
            annual_from(rows, c, Source::COGENERACION, n),
        ),
    ).scale(KEXP_SCALE as int)
}

/// The weighted energy of the services below `k` at step A, from the
/// energy that they use from each source.
pub proof fn lemma_services_a_below(
    rows: Seq<ComponentView>,
    fs: Seq<FactorView>,
    c: Carrier,
    k: int,
    n: int,
)
    requires
        0 <= k <= SERVICE_COUNT,
    ensures
        sum_triples(services_a(rows, fs, c, n).take(k)) == weight(
            fs,
            key(c, Source::RED, Dest::input, Step::A),
        ).scale(annual_below(rows, c, Source::RED, k, n)).add(
            weight(fs, key(c, Source::INSITU, Dest::input, Step::A)).scale(
                annual_below(rows, c, Source::INSITU, k, n),
            ),
        ).add(
            weight(fs, key(c, Source::COGENERACION, Dest::input, Step::A)).scale(
                annual_below(rows, c, Source::COGENERACION, k, n),
            ),
        ).scale(KEXP_SCALE as int),
    decreases k,
{
    let s = services_a(rows, fs, c, n);
    let w1 = weight(fs, key(c, Source::RED, Dest::input, Step::A));
    let w2 = weight(fs, key(c, Source::INSITU, Dest::input, Step::A));
    let w3 = weight(fs, key(c, Source::COGENERACION, Dest::input, Step::A));
    if k > 0 {
        lemma_services_a_below(rows, fs, c, k - 1, n);
        assert(s.take(k).drop_last() =~= s.take(k - 1));
        assert(s.take(k).last() == service_a(rows, fs, c, k - 1, n));
        let a1 = annual_below(rows, c, Source::RED, k - 1, n);
        let a2 = annual_below(rows, c, Source::INSITU, k - 1, n);
        let a3 = annual_below(rows, c, Source::COGENERACION, k - 1, n);
        let e1 = annual_used(rows, c, Source::RED, k - 1, n);
        let e2 = annual_used(rows, c, Source::INSITU, k - 1, n);
        let e3 = annual_used(rows, c, Source::COGENERACION, k - 1, n);
        lemma_weighted_sum(w1.ren, w2.ren, w3.ren, a1, a2, a3, e1, e2, e3, KEXP_SCALE as int);
        lemma_weighted_sum(w1.nren, w2.nren, w3.nren, a1, a2, a3, e1, e2, e3, KEXP_SCALE as int);
        lemma_weighted_sum(w1.co2, w2.co2, w3.co2, a1, a2, a3, e1, e2, e3, KEXP_SCALE as int);
    } else {
        assert(s.take(0) =~= Seq::<Triple>::empty());
        assert(w1.ren * 0 == 0 && w1.nren * 0 == 0 && w1.co2 * 0 == 0) by (nonlinear_arith);
        assert(w2.ren * 0 == 0 && w2.nren * 0 == 0 && w2.co2 * 0 == 0) by (nonlinear_arith);
        assert(w3.ren * 0 == 0 && w3.nren * 0 == 0 && w3.co2 * 0 == 0) by (nonlinear_arith);
        assert(0 * (KEXP_SCALE as int) == 0) by (nonlinear_arith);
    }
}

/// A weighted sum of sums is the sum of the weighted sums.
pub proof fn lemma_weighted_sum(
    w1: int,
    w2: int,
    w3: int,
    a1: int,
    a2: int,
    a3: int,
    e1: int,
    e2: int,
    e3: int,
    k: int,
)
    ensures
        (w1 * a1 + w2 * a2 + w3 * a3) * k + (w1 * e1 + w2 * e2 + w3 * e3) * k == (w1 * (a1 + e1)
            + w2 * (a2 + e2) + w3 * (a3 + e3)) * k,
{
    assert((w1 * a1 + w2 * a2 + w3 * a3) * k + (w1 * e1 + w2 * e2 + w3 * e3) * k == (w1 * (a1
        + e1) + w2 * (a2 + e2) + w3 * (a3 + e3)) * k) by (nonlinear_arith);
}

/// Partition of the weighted energy. The weighted energy of a carrier at
/// step A, which is the sum of that of its services, is the energy that
/// EPB services use from each source over all time steps, weighted by the
/// factor of the source: nothing is lost between the services.
pub proof fn lemma_carrier_partition(
    rows: Seq<ComponentView>,
    fs: Seq<FactorView>,
    c: Carrier,
    n: int,
)
    requires
        0 <= n,
    ensures
        carrier_a(rows, fs, c, n) == carrier_a_from_sources(rows, fs, c, n),
{
    let s = services_a(rows, fs, c, n);
    lemma_services_a_below(rows, fs, c, SERVICE_COUNT as int, n);
    assert(s.take(SERVICE_COUNT as int) =~= s);
    lemma_annual_partition(rows, c, Source::RED, n);
    lemma_annual_partition(rows, c, Source::INSITU, n);
    lemma_annual_partition(rows, c, Source::COGENERACION, n);
}

} // verus!
