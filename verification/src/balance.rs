//! Weighted energy balance: the energy that each carrier delivers, weighted
//! by the factors of step A, and the effect of the exported energy, weighted
//! by the difference between the factors of step B and step A.
use vstd::prelude::*;

use crate::flows::spec_allocate;
use crate::flows::spec_resolve;
use crate::flows::FlowsView;
use crate::rennrenco2::Triple;
use crate::series::demand_below;
use crate::series::rows_sum;
use crate::series::Selector;
use crate::shares::total;
use crate::types::spec_carrier_at;
use crate::types::spec_service_at;
use crate::types::Carrier;
use crate::types::ComponentView;
use crate::types::Dest;
use crate::types::FactorView;
use crate::types::Source;
use crate::types::Step;
use crate::types::CARRIER_COUNT;
use crate::types::SERVICE_COUNT;
use crate::wfactors::key;
use crate::wfactors::weight;

verus! {

/// Number of units of the export factor `k_exp` in one: it is given in
/// thousandths.
pub const KEXP_SCALE: u64 = 1000;

/// Number of units of the reference area in one: it is given in
/// thousandths.
pub const AREA_SCALE: u64 = 1000;

/// Number of units of weighted energy in one energy unit: factors and
/// `k_exp` are both given in thousandths, and weighted energy is their
/// product with an energy.
pub const WEIGHTED_SCALE: u64 = 1_000_000;

/// The flows of a carrier at time step `t`.
pub open spec fn input_at(rows: Seq<ComponentView>, c: Carrier, t: int) -> FlowsView {
    spec_resolve(
        rows_sum(rows, Selector::spec_insitu(c), t),
        rows_sum(rows, Selector::spec_cogen(c), t),
        rows_sum(rows, Selector::spec_epus(c), t),
        rows_sum(rows, Selector::spec_nepus(c), t),
    )
}

/// Energy of a carrier that the service with ordinal `k` uses from a source
/// at time step `t`.
pub open spec fn used_at(rows: Seq<ComponentView>, c: Carrier, source: Source, k: int, t: int)
    -> int {
    spec_allocate(
        input_at(rows, c, t),
        source,
        demand_below(rows, c, k, t),
        rows_sum(rows, Selector::spec_demand(c, spec_service_at(k)), t),
        rows_sum(rows, Selector::spec_epus(c), t),
    )
}

/// The energy of `used_at` at each of `n` time steps.
pub open spec fn used_series(
    rows: Seq<ComponentView>,
    c: Carrier,
    source: Source,
    k: int,
    n: int,
) -> Seq<int> {
    Seq::new(n as nat, |t: int| used_at(rows, c, source, k, t))
}

/// Energy of a carrier that the service with ordinal `k` uses from a source
/// over all time steps.
pub open spec fn annual_used(rows: Seq<ComponentView>, c: Carrier, source: Source, k: int, n: int)
    -> int {
    total(used_series(rows, c, source, k, n))
}

/// The exported energy of a flow by origin and destination. Nothing is
/// exported from the grid, and nothing is exported into the building.
pub open spec fn exported_from(f: FlowsView, source: Source, dest: Dest) -> int {
    match (source, dest) {
        (Source::INSITU, Dest::to_grid) => f.exp_grid_insitu,
        (Source::COGENERACION, Dest::to_grid) => f.exp_grid_cogen,
        (Source::INSITU, Dest::to_nEPB) => f.exp_nepus_insitu,
        (Source::COGENERACION, Dest::to_nEPB) => f.exp_nepus_cogen,
        _ => 0,
    }
}

/// Energy of a carrier from an origin that is exported to a destination at
/// each of `n` time steps.
pub open spec fn exported_series(
    rows: Seq<ComponentView>,
    c: Carrier,
    source: Source,
    dest: Dest,
    n: int,
) -> Seq<int> {
    Seq::new(n as nat, |t: int| exported_from(input_at(rows, c, t), source, dest))
}

/// Energy of a carrier from an origin that is exported to a destination
/// over all time steps.
pub open spec fn annual_exported(
    rows: Seq<ComponentView>,
    c: Carrier,
    source: Source,
    dest: Dest,
    n: int,
) -> int {
    total(exported_series(rows, c, source, dest, n))
}

/// Weighted energy of a carrier that a service uses from a source, at step
/// A: the energy times the factor of the source for use in the building.
pub open spec fn used_term(
    rows: Seq<ComponentView>,
    fs: Seq<FactorView>,
    c: Carrier,
    source: Source,
    k: int,
    n: int,
) -> Triple {
    weight(fs, key(c, source, Dest::input, Step::A)).scale(annual_used(rows, c, source, k, n))
}

/// Weighted energy of a carrier for the service with ordinal `k` at step A:
/// what the grid delivers and what is used of the production of each
/// origin, each weighted by its factor.
pub open spec fn service_a(
    rows: Seq<ComponentView>,
    fs: Seq<FactorView>,
    c: Carrier,
    k: int,
    n: int,
) -> Triple {
    used_term(rows, fs, c, Source::RED, k, n).add(
        used_term(rows, fs, c, Source::INSITU, k, n),
    ).add(used_term(rows, fs, c, Source::COGENERACION, k, n)).scale(KEXP_SCALE as int)
}

/// Sum of a series of triples.
pub open spec fn sum_triples(s: Seq<Triple>) -> Triple
    decreases s.len(),
{
    if s.len() == 0 {
        Triple::zero()
    } else {
        sum_triples(s.drop_last()).add(s.last())
    }
}

/// The weighted energy of a carrier at step A, service by service.
pub open spec fn services_a(rows: Seq<ComponentView>, fs: Seq<FactorView>, c: Carrier, n: int)
    -> Seq<Triple> {
    Seq::new(SERVICE_COUNT as nat, |k: int| service_a(rows, fs, c, k, n))
}

/// Weighted energy of a carrier at step A: the sum over the services. The
/// exported energy has no part in it.
pub open spec fn carrier_a(rows: Seq<ComponentView>, fs: Seq<FactorView>, c: Carrier, n: int)
    -> Triple {
    sum_triples(services_a(rows, fs, c, n))
}

/// Weighted energy of a carrier that is exported to a destination, at
/// step A: the energy from each origin times the factor of step A of the
/// origin for the destination. It has no part in the weighted energy of
/// the carrier at step A.
pub open spec fn exported_a(
    rows: Seq<ComponentView>,
    fs: Seq<FactorView>,
    c: Carrier,
    dest: Dest,
    n: int,
) -> Triple {
    weight(fs, key(c, Source::INSITU, dest, Step::A)).scale(
        annual_exported(rows, c, Source::INSITU, dest, n),
    ).add(
        weight(fs, key(c, Source::COGENERACION, dest, Step::A)).scale(
            annual_exported(rows, c, Source::COGENERACION, dest, n),
        ),
    ).scale(KEXP_SCALE as int)
}

/// Effect of the energy of a carrier from an origin that is exported to a
/// destination: the energy times the difference between the factors of
/// step B and of step A.
pub open spec fn export_term(
    rows: Seq<ComponentView>,
    fs: Seq<FactorView>,
    c: Carrier,
    source: Source,
    dest: Dest,
    n: int,
) -> Triple {
    weight(fs, key(c, source, dest, Step::B)).sub(weight(fs, key(c, source, dest, Step::A))).scale(
        annual_exported(rows, c, source, dest, n),
    )
}

/// Effect of the exported energy of a carrier, over both origins and both
/// destinations.
pub open spec fn export_credit(rows: Seq<ComponentView>, fs: Seq<FactorView>, c: Carrier, n: int)
    -> Triple {
    export_term(rows, fs, c, Source::INSITU, Dest::to_grid, n).add(
        export_term(rows, fs, c, Source::COGENERACION, Dest::to_grid, n),
    ).add(export_term(rows, fs, c, Source::INSITU, Dest::to_nEPB, n)).add(
        export_term(rows, fs, c, Source::COGENERACION, Dest::to_nEPB, n),
    )
}

/// Weighted energy of a carrier at step B: that of step A less the effect
/// of the exported energy, taken `k_exp` thousandths of it.
pub open spec fn carrier_b(
    rows: Seq<ComponentView>,
    fs: Seq<FactorView>,
    k_exp: int,
    c: Carrier,
    n: int,
) -> Triple {
    carrier_a(rows, fs, c, n).sub(export_credit(rows, fs, c, n).scale(k_exp))
}

/// Energy of a carrier that the grid delivers over all time steps to the
/// services with an ordinal below `k`.
pub open spec fn delivered_below(rows: Seq<ComponentView>, c: Carrier, k: int, n: int) -> int
    decreases k,
{
    if k <= 0 {
        0
    } else {
        delivered_below(rows, c, k - 1, n) + annual_used(rows, c, Source::RED, k - 1, n)
    }
}

/// Weighted energy of a carrier for the service with ordinal `k` at step B:
/// that of step A less the part of the effect of the exported energy that
/// falls to the service, in proportion to the energy that the grid delivers
/// to it. Where the grid delivers nothing, no part falls to any service.
pub open spec fn service_b(
    rows: Seq<ComponentView>,
    fs: Seq<FactorView>,
    k_exp: int,
    c: Carrier,
    k: int,
    n: int,
) -> Triple {
    service_a(rows, fs, c, k, n).sub(
        export_credit(rows, fs, c, n).scale(k_exp).slice(
            delivered_below(rows, c, k, n),
            delivered_below(rows, c, k + 1, n),
            delivered_below(rows, c, SERVICE_COUNT as int, n),
        ),
    )
}

/// The weighted energy of a carrier at step B, service by service.
pub open spec fn services_b(
    rows: Seq<ComponentView>,
    fs: Seq<FactorView>,
    k_exp: int,
    c: Carrier,
    n: int,
) -> Seq<Triple> {
    Seq::new(SERVICE_COUNT as nat, |k: int| service_b(rows, fs, k_exp, c, k, n))
}

/// Whether a carrier has a row.
pub open spec fn carrier_present(rows: Seq<ComponentView>, c: Carrier) -> bool {
    exists|i: int| 0 <= i < rows.len() && (#[trigger] rows[i]).carrier == c
}

/// Weighted energy of one carrier, as mathematical values.
pub struct CarrierBalanceView {
    /// The carrier.
    pub carrier: Carrier,
    /// Whether the carrier has a row.
    pub present: bool,
    /// Weighted energy at step A.
    pub a: Triple,
    /// Weighted energy at step B.
    pub b: Triple,
    /// Weighted energy at step A, service by service.
    pub a_by_service: Seq<Triple>,
    /// Weighted energy at step B, service by service.
    pub b_by_service: Seq<Triple>,
    /// Weighted energy exported to the grid, at step A.
    pub exp_grid_a: Triple,
    /// Weighted energy exported to non EPB uses, at step A.
    pub exp_nepus_a: Triple,
}

/// The weighted energy of a carrier.
pub open spec fn carrier_balance(
    rows: Seq<ComponentView>,
    fs: Seq<FactorView>,
    k_exp: int,
    c: Carrier,
    n: int,
) -> CarrierBalanceView {
    CarrierBalanceView {
        carrier: c,
        present: carrier_present(rows, c),
        a: carrier_a(rows, fs, c, n),
        b: carrier_b(rows, fs, k_exp, c, n),
        a_by_service: services_a(rows, fs, c, n),
        b_by_service: services_b(rows, fs, k_exp, c, n),
        exp_grid_a: exported_a(rows, fs, c, Dest::to_grid, n),
        exp_nepus_a: exported_a(rows, fs, c, Dest::to_nEPB, n),
    }
}

/// The weighted energy of every carrier, in the order of the carriers.
pub open spec fn carrier_balances(
    rows: Seq<ComponentView>,
    fs: Seq<FactorView>,
    k_exp: int,
    n: int,
) -> Seq<CarrierBalanceView> {
    Seq::new(CARRIER_COUNT as nat, |i: int| carrier_balance(rows, fs, k_exp, spec_carrier_at(i), n))
}

/// Weighted energy of all carriers at step A.
pub open spec fn total_a(rows: Seq<ComponentView>, fs: Seq<FactorView>, n: int) -> Triple {
    sum_triples(Seq::new(CARRIER_COUNT as nat, |i: int| carrier_a(rows, fs, spec_carrier_at(i), n)))
}

/// Weighted energy of all carriers at step B.
pub open spec fn total_b(rows: Seq<ComponentView>, fs: Seq<FactorView>, k_exp: int, n: int)
    -> Triple {
    sum_triples(
        Seq::new(CARRIER_COUNT as nat, |i: int| carrier_b(rows, fs, k_exp, spec_carrier_at(i), n)),
    )
}

/// Weighted energy of all carriers for the service with ordinal `k`, at
/// step A.
pub open spec fn total_service_a(rows: Seq<ComponentView>, fs: Seq<FactorView>, k: int, n: int)
    -> Triple {
    sum_triples(
        Seq::new(CARRIER_COUNT as nat, |i: int| service_a(rows, fs, spec_carrier_at(i), k, n)),
    )
}

/// Weighted energy of all carriers for the service with ordinal `k`, at
/// step B.
pub open spec fn total_service_b(
    rows: Seq<ComponentView>,
    fs: Seq<FactorView>,
    k_exp: int,
    k: int,
    n: int,
) -> Triple {
    sum_triples(
        Seq::new(
            CARRIER_COUNT as nat,
            |i: int| service_b(rows, fs, k_exp, spec_carrier_at(i), k, n),
        ),
    )
}

} // verus!
