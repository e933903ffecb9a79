//! Computation of the weighted energy balance from the component rows and
//! the weighting factor table.
use vstd::prelude::*;

use crate::balance::annual_exported;
use crate::balance::carrier_a;
use crate::balance::carrier_balance;
use crate::balance::carrier_present;
use crate::balance::delivered_below;
use crate::balance::export_credit;
use crate::balance::service_a;
use crate::balance::service_b;
use crate::balance::services_a;
use crate::balance::services_b;
use crate::balance::sum_triples;
use crate::balance::CarrierBalanceView;
use crate::balance::KEXP_SCALE;
use crate::rennrenco2::RenNrenCo2;
use crate::rennrenco2::Triple;
use crate::shares::lemma_slice_signed_bounds;
use crate::shares::slice_signed;
use crate::types::factor_views;
use crate::types::Factor;
use crate::types::FactorView;
use crate::types::Step;
use crate::wfactors::factors_in_range;
use crate::wfactors::key;
use crate::wfactors::lemma_weight_in_range;
use crate::wfactors::weight;
use crate::wfactors::weight_of;
use crate::wfactors::FactorKey;
use crate::wfactors::MAX_FACTOR;
use crate::balance::annual_used;
use crate::balance::exported_from;
use crate::balance::exported_series;
use crate::balance::input_at;
use crate::balance::used_at;
use crate::balance::used_series;
use crate::flows::allocate;
use crate::flows::lemma_allocate_bounds;
use crate::flows::lemma_non_negative;
use crate::flows::production_fits;
use crate::flows::resolve_series;
use crate::flows::used_from;
use crate::flows::CarrierFlows;
use crate::series::demand_below;
use crate::series::lemma_demand_below_monotone;
use crate::series::lemma_demand_total;
use crate::series::lemma_rows_sum_non_negative;
use crate::series::rows_sum;
use crate::series::rows_valid;
use crate::series::steps_of;
use crate::series::sum_rows;
use crate::series::Selector;
use crate::series::MAX_ANNUAL;
use crate::series::MAX_STEPS;
use crate::series::MAX_STEP_SUM;
use crate::shares::ints;
use crate::shares::lemma_total_bounds;
use crate::shares::total;
use crate::shares::vecsum;
use crate::types::component_views;
use crate::types::spec_service_at;
use crate::types::CSubtype;
use crate::types::CType;
use crate::types::Carrier;
use crate::types::Component;
use crate::types::ComponentView;
use crate::types::Dest;
use crate::types::Service;
use crate::types::Source;
use crate::types::SERVICE_COUNT;

verus! {

/// Energy that one service uses of a carrier over all time steps, from each
/// source.
#[derive(Debug, Copy, Clone, PartialEq, Eq, Structural)]
pub struct ServiceEnergy {
    /// Energy delivered by the grid.
    pub del: u64,
    /// Energy produced on site.
    pub used_insitu: u64,
    /// Energy produced by cogeneration.
    pub used_cogen: u64,
}

impl ServiceEnergy {
    /// The energy from a source.
    pub open spec fn from(self, source: Source) -> int {
        match source {
            Source::RED => self.del as int,
            Source::INSITU => self.used_insitu as int,
            Source::COGENERACION => self.used_cogen as int,
        }
    }
}

/// Energy of one carrier over all time steps: what each service uses from
/// each source, and what is exported from each origin to each destination.
#[derive(Debug)]
pub struct CarrierEnergy {
    /// Energy used, service by service.
    pub by_service: Vec<ServiceEnergy>,
    /// Energy produced on site and exported to the grid.
    pub exp_grid_insitu: u64,
    /// Energy produced by cogeneration and exported to the grid.
    pub exp_grid_cogen: u64,
    /// Energy produced on site and delivered to non EPB uses.
    pub exp_nepus_insitu: u64,
    /// Energy produced by cogeneration and delivered to non EPB uses.
    pub exp_nepus_cogen: u64,
}

impl CarrierEnergy {
    /// The energy exported from an origin to a destination.
    pub open spec fn exported(&self, source: Source, dest: Dest) -> int {
        match (source, dest) {
            (Source::INSITU, Dest::to_grid) => self.exp_grid_insitu as int,
            (Source::COGENERACION, Dest::to_grid) => self.exp_grid_cogen as int,
            (Source::INSITU, Dest::to_nEPB) => self.exp_nepus_insitu as int,
            (Source::COGENERACION, Dest::to_nEPB) => self.exp_nepus_cogen as int,
            _ => 0,
        }
    }

    /// Whether this is the energy of carrier `c` in the rows, over `n` time
    /// steps.
    pub open spec fn is_energy_of(&self, rows: Seq<ComponentView>, c: Carrier, n: int) -> bool {
        &&& self.by_service.len() == SERVICE_COUNT
        &&& forall|k: int, source: Source|
            0 <= k < SERVICE_COUNT ==> #[trigger] self.by_service[k].from(source) == annual_used(
                rows,
                c,
                source,
                k,
                n,
            )
        &&& forall|source: Source, dest: Dest| #[trigger]
            self.exported(source, dest) == annual_exported(rows, c, source, dest, n)
    }

    /// Whether no energy is above the largest that a flow can reach.
    pub open spec fn in_range(&self) -> bool {
        &&& forall|k: int|
            0 <= k < self.by_service.len() ==> {
                &&& (#[trigger] self.by_service[k]).del <= MAX_ANNUAL
                &&& self.by_service[k].used_insitu <= MAX_ANNUAL
                &&& self.by_service[k].used_cogen <= MAX_ANNUAL
            }
        &&& self.exp_grid_insitu <= MAX_ANNUAL
        &&& self.exp_grid_cogen <= MAX_ANNUAL
        &&& self.exp_nepus_insitu <= MAX_ANNUAL
        &&& self.exp_nepus_cogen <= MAX_ANNUAL
    }
}

/// Sum of a series of at most `MAX_STEPS` values, none of them above twice
/// the largest sum of the rows at a time step.
pub fn annual(v: &Vec<u64>) -> (r: u64)
    requires
        v.len() <= MAX_STEPS,
        forall|t: int| 0 <= t < v.len() ==> #[trigger] v[t] <= 2 * MAX_STEP_SUM,
    ensures
        r == total(ints(v@)),
        r <= MAX_ANNUAL,
{
    let s = vecsum(v);
    proof {
        lemma_total_bounds(ints(v@), 0, 2 * MAX_STEP_SUM);
        assert(v.len() * (2 * MAX_STEP_SUM) <= MAX_STEPS * (2 * MAX_STEP_SUM)) by (nonlinear_arith)
            requires
                v.len() <= MAX_STEPS,
        ;
    }
    s as u64
}

/// The flows of carrier `c` at every time step.
pub fn carrier_flows(rows: &Vec<Component>, n: usize, c: Carrier) -> (r: (CarrierFlows, Vec<u64>))
    requires
        rows_valid(component_views(rows@)),
        rows.len() > 0 ==> n == steps_of(component_views(rows@)),
        n <= MAX_STEPS,
    ensures
        r.0.has_steps(n as int),
        r.1.len() == n,
        forall|t: int| 0 <= t < n ==> #[trigger] r.0.at(t) == input_at(component_views(rows@), c, t),
        forall|t: int|
            0 <= t < n ==> #[trigger] r.1[t] == rows_sum(
                component_views(rows@),
                Selector::spec_epus(c),
                t,
            ),
        forall|t: int| 0 <= t < n ==> #[trigger] r.1[t] <= MAX_STEP_SUM,
        forall|t: int|
            0 <= t < n ==> #[trigger] input_at(component_views(rows@), c, t).pr <= 2
                * MAX_STEP_SUM,
{
    let pr_insitu = sum_rows(
        rows,
        Selector { carrier: c, ctype: CType::PRODUCCION, csubtype: CSubtype::INSITU, service: None },
        n,
    );
    let pr_cogen = sum_rows(
        rows,
        Selector {
            carrier: c,
            ctype: CType::PRODUCCION,
            csubtype: CSubtype::COGENERACION,
            service: None,
        },
        n,
    );
    let epus = sum_rows(
        rows,
        Selector { carrier: c, ctype: CType::CONSUMO, csubtype: CSubtype::EPB, service: None },
        n,
    );
    let nepus = sum_rows(
        rows,
        Selector { carrier: c, ctype: CType::CONSUMO, csubtype: CSubtype::NEPB, service: None },
        n,
    );
    assert(production_fits(pr_insitu@, pr_cogen@));
    let flows = resolve_series(&pr_insitu, &pr_cogen, &epus, &nepus);
    proof {
        let views = component_views(rows@);
        assert forall|t: int| 0 <= t < n implies #[trigger] flows.at(t) == input_at(views, c, t) by {
            assert(pr_insitu[t] == rows_sum(views, Selector::spec_insitu(c), t));
            assert(pr_cogen[t] == rows_sum(views, Selector::spec_cogen(c), t));
            assert(epus[t] == rows_sum(views, Selector::spec_epus(c), t));
            assert(nepus[t] == rows_sum(views, Selector::spec_nepus(c), t));
        }
        assert forall|t: int| 0 <= t < n implies #[trigger] input_at(views, c, t).pr <= 2
            * MAX_STEP_SUM by {
            assert(pr_insitu[t] == rows_sum(views, Selector::spec_insitu(c), t));
            assert(pr_cogen[t] == rows_sum(views, Selector::spec_cogen(c), t));
            assert(pr_insitu[t] <= MAX_STEP_SUM);
            assert(pr_cogen[t] <= MAX_STEP_SUM);
        }
    }
    (flows, epus)
}

/// The energy that a service uses from a source at a time step is not
/// negative and no more than what all EPB services use.
pub proof fn lemma_used_at_bounds(
    rows: Seq<ComponentView>,
    c: Carrier,
    source: Source,
    k: int,
    t: int,
)
    requires
        0 <= k < SERVICE_COUNT,
    ensures
        0 <= used_at(rows, c, source, k, t) <= used_from(input_at(rows, c, t), source),
        used_from(input_at(rows, c, t), source) <= rows_sum(rows, Selector::spec_epus(c), t),
{
    lemma_rows_sum_non_negative(rows, Selector::spec_insitu(c), t);
    lemma_rows_sum_non_negative(rows, Selector::spec_cogen(c), t);
    lemma_rows_sum_non_negative(rows, Selector::spec_epus(c), t);
    lemma_rows_sum_non_negative(rows, Selector::spec_nepus(c), t);
    lemma_rows_sum_non_negative(rows, Selector::spec_demand(c, spec_service_at(k)), t);
    lemma_non_negative(
        rows_sum(rows, Selector::spec_insitu(c), t),
        rows_sum(rows, Selector::spec_cogen(c), t),
        rows_sum(rows, Selector::spec_epus(c), t),
        rows_sum(rows, Selector::spec_nepus(c), t),
    );
    lemma_demand_below_monotone(rows, c, k, k + 1, t);
    lemma_demand_below_monotone(rows, c, k + 1, SERVICE_COUNT as int, t);
    lemma_demand_total(rows, c, t);
    lemma_allocate_bounds(
        input_at(rows, c, t),
        source,
        demand_below(rows, c, k, t),
        rows_sum(rows, Selector::spec_demand(c, spec_service_at(k)), t),
        rows_sum(rows, Selector::spec_epus(c), t),
    );
}

/// The energy exported from an origin to a destination at a time step is
/// not negative and no more than the production.
pub proof fn lemma_exported_bounds(
    rows: Seq<ComponentView>,
    c: Carrier,
    source: Source,
    dest: Dest,
    t: int,
)
    ensures
        0 <= exported_from(input_at(rows, c, t), source, dest) <= input_at(rows, c, t).pr,
{
    lemma_rows_sum_non_negative(rows, Selector::spec_insitu(c), t);
    lemma_rows_sum_non_negative(rows, Selector::spec_cogen(c), t);
    lemma_rows_sum_non_negative(rows, Selector::spec_epus(c), t);
    lemma_rows_sum_non_negative(rows, Selector::spec_nepus(c), t);
    lemma_non_negative(
        rows_sum(rows, Selector::spec_insitu(c), t),
        rows_sum(rows, Selector::spec_cogen(c), t),
        rows_sum(rows, Selector::spec_epus(c), t),
        rows_sum(rows, Selector::spec_nepus(c), t),
    );
}

/// Energy of a carrier that is exported from an origin to a destination
/// over all time steps, from the series of the flow.
fn annual_export(
    v: &Vec<u64>,
    rows: &Vec<Component>,
    n: usize,
    c: Carrier,
    source: Source,
    dest: Dest,
) -> (r: u64)
    requires
        n <= MAX_STEPS,
        v.len() == n,
        forall|t: int|
            0 <= t < n ==> #[trigger] v[t] == exported_from(
                input_at(component_views(rows@), c, t),
                source,
                dest,
            ),
        forall|t: int|
            0 <= t < n ==> #[trigger] input_at(component_views(rows@), c, t).pr <= 2
                * MAX_STEP_SUM,
    ensures
        r == annual_exported(component_views(rows@), c, source, dest, n as int),
        r <= MAX_ANNUAL,
{
    proof {
        let views = component_views(rows@);
        assert forall|t: int| 0 <= t < n implies #[trigger] v[t] <= 2 * MAX_STEP_SUM by {
            lemma_exported_bounds(views, c, source, dest, t);
            assert(input_at(views, c, t).pr <= 2 * MAX_STEP_SUM);
        }
        assert(ints(v@) =~= exported_series(views, c, source, dest, n as int));
    }
    annual(v)
}

/// Energy that a service uses of a carrier from a source over all time
/// steps, from the series of the flow.
fn annual_use(
    v: &Vec<u64>,
    rows: &Vec<Component>,
    n: usize,
    c: Carrier,
    source: Source,
    k: usize,
) -> (r: u64)
    requires
        n <= MAX_STEPS,
        k < SERVICE_COUNT,
        v.len() == n,
        forall|t: int|
            0 <= t < n ==> #[trigger] v[t] == used_at(component_views(rows@), c, source, k as int, t),
        forall|t: int|
            0 <= t < n ==> #[trigger] rows_sum(
                component_views(rows@),
                Selector::spec_epus(c),
                t,
            ) <= MAX_STEP_SUM,
    ensures
        r == annual_used(component_views(rows@), c, source, k as int, n as int),
        r <= MAX_ANNUAL,
{
    proof {
        let views = component_views(rows@);
        assert forall|t: int| 0 <= t < n implies #[trigger] v[t] <= 2 * MAX_STEP_SUM by {
            lemma_used_at_bounds(views, c, source, k as int, t);
            assert(rows_sum(views, Selector::spec_epus(c), t) <= MAX_STEP_SUM);
        }
        assert(ints(v@) =~= used_series(views, c, source, k as int, n as int));
    }
    annual(v)
}

/// The energy of carrier `c` over all time steps: what each service uses
/// from each source, and what is exported.
pub fn carrier_energy(rows: &Vec<Component>, n: usize, c: Carrier) -> (r: CarrierEnergy)
    requires
        rows_valid(component_views(rows@)),
        rows.len() > 0 ==> n == steps_of(component_views(rows@)),
        n <= MAX_STEPS,
    ensures
        r.is_energy_of(component_views(rows@), c, n as int),
        r.in_range(),
{
    let ghost views = component_views(rows@);
    let (flows, epus) = carrier_flows(rows, n, c);
    proof {
        assert forall|t: int| 0 <= t < n implies #[trigger] flows.exp_grid_insitu[t]
            == exported_from(input_at(views, c, t), Source::INSITU, Dest::to_grid) by {
            assert(flows.at(t) == input_at(views, c, t));
        }
        assert forall|t: int| 0 <= t < n implies #[trigger] flows.exp_grid_cogen[t]
            == exported_from(input_at(views, c, t), Source::COGENERACION, Dest::to_grid) by {
            assert(flows.at(t) == input_at(views, c, t));
        }
        assert forall|t: int| 0 <= t < n implies #[trigger] flows.exp_nepus_insitu[t]
            == exported_from(input_at(views, c, t), Source::INSITU, Dest::to_nEPB) by {
            assert(flows.at(t) == input_at(views, c, t));
        }
        assert forall|t: int| 0 <= t < n implies #[trigger] flows.exp_nepus_cogen[t]
            == exported_from(input_at(views, c, t), Source::COGENERACION, Dest::to_nEPB) by {
            assert(flows.at(t) == input_at(views, c, t));
        }
    }
    let exp_grid_insitu = annual_export(
        &flows.exp_grid_insitu,
        rows,
        n,
        c,
        Source::INSITU,
        Dest::to_grid,
    );
    let exp_grid_cogen = annual_export(
        &flows.exp_grid_cogen,
        rows,
        n,
        c,
        Source::COGENERACION,
        Dest::to_grid,
    );
    let exp_nepus_insitu = annual_export(
        &flows.exp_nepus_insitu,
        rows,
        n,
        c,
        Source::INSITU,
        Dest::to_nEPB,
    );
    let exp_nepus_cogen = annual_export(
        &flows.exp_nepus_cogen,
        rows,
        n,
        c,
        Source::COGENERACION,
        Dest::to_nEPB,
    );
    let mut below: Vec<u64> = Vec::new();
    let mut t: usize = 0;
    while t < n
        invariant
            t <= n,
            below.len() == t,
            forall|u: int| 0 <= u < t ==> #[trigger] below[u] == 0,
        decreases n - t,
    {
        below.push(0);
        t += 1;
    }
    let mut by_service: Vec<ServiceEnergy> = Vec::new();
    let mut k: usize = 0;
    while k < SERVICE_COUNT
        invariant
            k <= SERVICE_COUNT,
            views == component_views(rows@),
            rows_valid(views),
            rows.len() > 0 ==> n == steps_of(views),
            n <= MAX_STEPS,
            flows.has_steps(n as int),
            epus.len() == n,
            below.len() == n,
            forall|u: int| 0 <= u < n ==> #[trigger] flows.at(u) == input_at(views, c, u),
            forall|u: int|
                0 <= u < n ==> #[trigger] epus[u] == rows_sum(views, Selector::spec_epus(c), u),
            forall|u: int| 0 <= u < n ==> #[trigger] epus[u] <= MAX_STEP_SUM,
            forall|u: int| 0 <= u < n ==> #[trigger] below[u] == demand_below(views, c, k as int, u),
            by_service.len() == k,
            forall|j: int, source: Source|
                0 <= j < k ==> #[trigger] by_service[j].from(source) == annual_used(
                    views,
                    c,
                    source,
                    j,
                    n as int,
                ),
            forall|j: int|
                0 <= j < k ==> {
                    &&& (#[trigger] by_service[j]).del <= MAX_ANNUAL
                    &&& by_service[j].used_insitu <= MAX_ANNUAL
                    &&& by_service[j].used_cogen <= MAX_ANNUAL
                },
        decreases SERVICE_COUNT - k,
    {
        let service = Service::at(k);
        let demand = sum_rows(
            rows,
            Selector {
                carrier: c,
                ctype: CType::CONSUMO,
                csubtype: CSubtype::EPB,
                service: Some(service),
            },
            n,
        );
        proof {
            assert forall|u: int| 0 <= u < n implies #[trigger] below[u] + demand[u]
                <= epus[u] by {
                lemma_demand_below_monotone(views, c, k + 1, SERVICE_COUNT as int, u);
                lemma_demand_total(views, c, u);
            }
        }
        let svc = allocate(&flows, &epus, &below, &demand);
        proof {
            assert forall|u: int, source: Source| 0 <= u < n implies #[trigger] svc.at(source, u)
                == used_at(views, c, source, k as int, u) by {
                assert(flows.at(u) == input_at(views, c, u));
            }
            assert forall|u: int| 0 <= u < n implies #[trigger] svc.del[u] == used_at(
                views,
                c,
                Source::RED,
                k as int,
                u,
            ) by {
                assert(svc.at(Source::RED, u) == svc.del[u]);
            }
            assert forall|u: int| 0 <= u < n implies #[trigger] svc.used_insitu[u] == used_at(
                views,
                c,
                Source::INSITU,
                k as int,
                u,
            ) by {
                assert(svc.at(Source::INSITU, u) == svc.used_insitu[u]);
            }
            assert forall|u: int| 0 <= u < n implies #[trigger] svc.used_cogen[u] == used_at(
                views,
                c,
                Source::COGENERACION,
                k as int,
                u,
            ) by {
                assert(svc.at(Source::COGENERACION, u) == svc.used_cogen[u]);
            }
            assert forall|u: int| 0 <= u < n implies #[trigger] rows_sum(
                views,
                Selector::spec_epus(c),
                u,
            ) <= MAX_STEP_SUM by {
                assert(epus[u] <= MAX_STEP_SUM);
            }
        }
        let e = ServiceEnergy {
            del: annual_use(&svc.del, rows, n, c, Source::RED, k),
            used_insitu: annual_use(&svc.used_insitu, rows, n, c, Source::INSITU, k),
            used_cogen: annual_use(&svc.used_cogen, rows, n, c, Source::COGENERACION, k),
        };
        let ghost before = by_service@;
        by_service.push(e);
        proof {
            assert forall|j: int, source: Source| 0 <= j < k + 1 implies #[trigger] by_service[j].from(
                source,
            ) == annual_used(views, c, source, j, n as int) by {
                if j < k {
                    assert(by_service[j] == before[j]);
                }
            }
        }
        let mut u: usize = 0;
        while u < n
            invariant
                u <= n,
                k < SERVICE_COUNT,
                below.len() == n,
                demand.len() == n,
                epus.len() == n,
                forall|w: int| 0 <= w < n ==> #[trigger] epus[w] <= MAX_STEP_SUM,
                forall|w: int|
                    0 <= w < n ==> #[trigger] demand[w] == rows_sum(
                        views,
                        Selector::spec_demand(c, spec_service_at(k as int)),
                        w,
                    ),
                forall|w: int|
                    u <= w < n ==> #[trigger] below[w] == demand_below(views, c, k as int, w),
                forall|w: int| u <= w < n ==> #[trigger] below[w] + demand[w] <= epus[w],
                forall|w: int|
                    0 <= w < u ==> #[trigger] below[w] == demand_below(views, c, k + 1, w),
            decreases n - u,
        {
            assert(below[u as int] + demand[u as int] <= epus[u as int]);
            let v: u64 = below[u] + demand[u];
            below.set(u, v);
            u += 1;
        }
        k += 1;
    }
    let r = CarrierEnergy {
        by_service,
        exp_grid_insitu,
        exp_grid_cogen,
        exp_nepus_insitu,
        exp_nepus_cogen,
    };
    proof {
        assert forall|source: Source, dest: Dest| #[trigger]
            r.exported(source, dest) == annual_exported(views, c, source, dest, n as int) by {
            if !((source == Source::INSITU || source == Source::COGENERACION) && (dest
                == Dest::to_grid || dest == Dest::to_nEPB)) {
                crate::shares::lemma_total_zero(exported_series(views, c, source, dest, n as int));
            }
        }
    }
    r
}

/// Largest absolute value of a part of the weighted energy of a carrier
/// for one service at step A.
pub const MAX_SERVICE_A: i128 = 600_000_000_000_000_000_000_000_000;

/// Largest absolute value of a part of the effect of the exported energy of
/// a carrier.
pub const MAX_CREDIT: i128 = 1_600_000_000_000_000_000_000_000_000;

/// Largest absolute value of a part of the weighted energy of a carrier
/// for one service.
pub const MAX_SERVICE: i128 = 10_000_000_000_000_000_000_000_000_000;

/// Largest absolute value of a part of the weighted energy of a carrier.
pub const MAX_CARRIER: i128 = 10_000_000_000_000_000_000_000_000_000;

/// Largest absolute value of a part of the weighted energy of all carriers.
pub const MAX_BALANCE: i128 = 120_000_000_000_000_000_000_000_000_000;

/// The triples that a list of `RenNrenCo2` holds.
pub open spec fn triples(v: Seq<RenNrenCo2>) -> Seq<Triple> {
    Seq::new(v.len(), |i: int| v[i]@)
}

/// Weighted energy of one carrier.
#[derive(Debug)]
pub struct CarrierBalance {
    /// The carrier.
    pub carrier: Carrier,
    /// Whether the carrier has a row.
    pub present: bool,
    /// Weighted energy at step A.
    pub a: RenNrenCo2,
    /// Weighted energy at step B.
    pub b: RenNrenCo2,
    /// Weighted energy at step A, service by service.
    pub a_by_service: Vec<RenNrenCo2>,
    /// Weighted energy at step B, service by service.
    pub b_by_service: Vec<RenNrenCo2>,
    /// Weighted energy exported to the grid, at step A.
    pub exp_grid_a: RenNrenCo2,
    /// Weighted energy exported to non EPB uses, at step A.
    pub exp_nepus_a: RenNrenCo2,
}

impl View for CarrierBalance {
    type V = CarrierBalanceView;

    open spec fn view(&self) -> CarrierBalanceView {
        CarrierBalanceView {
            carrier: self.carrier,
            present: self.present,
            a: self.a@,
            b: self.b@,
            a_by_service: triples(self.a_by_service@),
            b_by_service: triples(self.b_by_service@),
            exp_grid_a: self.exp_grid_a@,
            exp_nepus_a: self.exp_nepus_a@,
        }
    }
}

impl CarrierBalance {
    /// Whether every part of every triple is within the limits that make
    /// the sums over the carriers safe.
    pub open spec fn in_range(&self) -> bool {
        &&& self.a@.within(MAX_CARRIER as int)
        &&& self.b@.within(MAX_CARRIER as int)
        &&& self.a_by_service.len() == SERVICE_COUNT
        &&& self.b_by_service.len() == SERVICE_COUNT
        &&& forall|k: int|
            0 <= k < SERVICE_COUNT ==> (#[trigger] self.a_by_service[k])@.within(MAX_SERVICE as int)
        &&& forall|k: int|
            0 <= k < SERVICE_COUNT ==> (#[trigger] self.b_by_service[k])@.within(MAX_SERVICE as int)
    }
}

/// A product is within the product of the limits of its factors.
pub proof fn lemma_product_within(x: int, k: int, bx: int, bk: int)
    requires
        -bx <= x <= bx,
        -bk <= k <= bk,
    ensures
        -(bx * bk) <= x * k <= bx * bk,
{
    assert(-(bx * bk) <= x * k <= bx * bk) by (nonlinear_arith)
        requires
            -bx <= x <= bx,
            -bk <= k <= bk,
    ;
}

/// A triple within a limit, multiplied by a number within a limit, is
/// within the product of the limits.
pub proof fn lemma_scale_within(t: Triple, k: int, bt: int, bk: int)
    requires
        t.within(bt),
        -bk <= k <= bk,
    ensures
        t.scale(k).within(bt * bk),
{
    lemma_product_within(t.ren, k, bt, bk);
    lemma_product_within(t.nren, k, bt, bk);
    lemma_product_within(t.co2, k, bt, bk);
}

/// A factor multiplied by an energy.
fn weighted(f: RenNrenCo2, e: u64) -> (r: RenNrenCo2)
    requires
        f@.within(2 * MAX_FACTOR),
        e <= MAX_ANNUAL,
    ensures
        r@ == f@.scale(e as int),
        r@.within(2 * MAX_FACTOR * MAX_ANNUAL),
        f@.within(MAX_FACTOR as int) ==> r@.within(MAX_FACTOR * MAX_ANNUAL),
{
    proof {
        lemma_scale_within(f@, e as int, 2 * MAX_FACTOR, MAX_ANNUAL as int);
        if f@.within(MAX_FACTOR as int) {
            lemma_scale_within(f@, e as int, MAX_FACTOR as int, MAX_ANNUAL as int);
        }
    }
    let k: i128 = e as i128;
    RenNrenCo2 { ren: f.ren * k, nren: f.nren * k, co2: f.co2 * k }
}

/// The weighted energy of a carrier for one service at step A, from the
/// energy that the service uses and the weight of each source.
fn weigh_service(
    e: ServiceEnergy,
    w_red: RenNrenCo2,
    w_insitu: RenNrenCo2,
    w_cogen: RenNrenCo2,
) -> (r: RenNrenCo2)
    requires
        w_red@.within(MAX_FACTOR as int),
        w_insitu@.within(MAX_FACTOR as int),
        w_cogen@.within(MAX_FACTOR as int),
        e.del <= MAX_ANNUAL,
        e.used_insitu <= MAX_ANNUAL,
        e.used_cogen <= MAX_ANNUAL,
    ensures
        r@ == w_red@.scale(e.del as int).add(w_insitu@.scale(e.used_insitu as int)).add(
            w_cogen@.scale(e.used_cogen as int),
        ).scale(KEXP_SCALE as int),
        r@.within(MAX_SERVICE_A as int),
{
    let t = weighted(w_red, e.del) + weighted(w_insitu, e.used_insitu) + weighted(
        w_cogen,
        e.used_cogen,
    );
    proof {
        assert(MAX_FACTOR * MAX_ANNUAL == 200_000_000_000_000_000_000_000) by (nonlinear_arith);
        lemma_scale_within(
            t@,
            KEXP_SCALE as int,
            600_000_000_000_000_000_000_000,
            KEXP_SCALE as int,
        );
        assert(600_000_000_000_000_000_000_000 * KEXP_SCALE == MAX_SERVICE_A)
            by (nonlinear_arith);
    }
    let k: i128 = KEXP_SCALE as i128;
    RenNrenCo2 { ren: t.ren * k, nren: t.nren * k, co2: t.co2 * k }
}

/// The effect of the energy exported from an origin to a destination: the
/// energy times the difference between the factors of step B and step A.
fn weigh_export(fs: &Vec<Factor>, c: Carrier, source: Source, dest: Dest, e: u64) -> (r:
    RenNrenCo2)
    requires
        factors_in_range(factor_views(fs@)),
        e <= MAX_ANNUAL,
    ensures
        r@ == weight(factor_views(fs@), key(c, source, dest, Step::B)).sub(
            weight(factor_views(fs@), key(c, source, dest, Step::A)),
        ).scale(e as int),
        r@.within(2 * MAX_FACTOR * MAX_ANNUAL),
{
    proof {
        lemma_weight_in_range(factor_views(fs@), key(c, source, dest, Step::B));
        lemma_weight_in_range(factor_views(fs@), key(c, source, dest, Step::A));
    }
    let wb = weight_of(fs, FactorKey { carrier: c, source, dest, step: Step::B });
    let wa = weight_of(fs, FactorKey { carrier: c, source, dest, step: Step::A });
    weighted(wb - wa, e)
}

/// The sum of the first `k + 1` triples is the sum of the first `k` and
/// the next one.
pub proof fn lemma_sum_triples_step(s: Seq<Triple>, k: int)
    requires
        0 <= k < s.len(),
    ensures
        sum_triples(s.take(k + 1)) == sum_triples(s.take(k)).add(s[k]),
{
    assert(s.take(k + 1).drop_last() =~= s.take(k));
}

/// Whether a carrier has a row.
pub fn has_carrier(rows: &Vec<Component>, c: Carrier) -> (b: bool)
    ensures
        b == carrier_present(component_views(rows@), c),
{
    let ghost views = component_views(rows@);
    let mut i: usize = 0;
    while i < rows.len()
        invariant
            i <= rows.len(),
            views == component_views(rows@),
            forall|j: int| 0 <= j < i ==> (#[trigger] views[j]).carrier != c,
        decreases rows.len() - i,
    {
        assert(views[i as int] == rows[i as int]@);
        if rows[i].carrier == c {
            return true;
        }
        i += 1;
    }
    false
}

/// The weighted energy of a carrier at step A, service by service and over
/// all services.
fn step_a_of(
    energy: &CarrierEnergy,
    fs: &Vec<Factor>,
    c: Carrier,
    Ghost(rows): Ghost<Seq<ComponentView>>,
    Ghost(n): Ghost<int>,
) -> (r: (Vec<RenNrenCo2>, RenNrenCo2))
    requires
        energy.is_energy_of(rows, c, n),
        energy.in_range(),
        factors_in_range(factor_views(fs@)),
    ensures
        triples(r.0@) == services_a(rows, factor_views(fs@), c, n),
        r.0.len() == SERVICE_COUNT,
        forall|k: int|
            0 <= k < SERVICE_COUNT ==> (#[trigger] r.0[k])@.within(MAX_SERVICE_A as int),
        r.1@ == carrier_a(rows, factor_views(fs@), c, n),
        r.1@.within(SERVICE_COUNT * MAX_SERVICE_A),
{
    let ghost fv = factor_views(fs@);
    let ghost target = services_a(rows, fv, c, n);
    proof {
        lemma_weight_in_range(fv, key(c, Source::RED, Dest::input, Step::A));
        lemma_weight_in_range(fv, key(c, Source::INSITU, Dest::input, Step::A));
        lemma_weight_in_range(fv, key(c, Source::COGENERACION, Dest::input, Step::A));
    }
    let w_red = weight_of(
        fs,
        FactorKey { carrier: c, source: Source::RED, dest: Dest::input, step: Step::A },
    );
    let w_insitu = weight_of(
        fs,
        FactorKey { carrier: c, source: Source::INSITU, dest: Dest::input, step: Step::A },
    );
    let w_cogen = weight_of(
        fs,
        FactorKey { carrier: c, source: Source::COGENERACION, dest: Dest::input, step: Step::A },
    );
    let mut by_service: Vec<RenNrenCo2> = Vec::new();
    let mut a = RenNrenCo2::new();
    let mut k: usize = 0;
    while k < SERVICE_COUNT
        invariant
            k <= SERVICE_COUNT,
            fv == factor_views(fs@),
            target == services_a(rows, fv, c, n),
            energy.is_energy_of(rows, c, n),
            energy.in_range(),
            w_red@ == weight(fv, key(c, Source::RED, Dest::input, Step::A)),
            w_insitu@ == weight(fv, key(c, Source::INSITU, Dest::input, Step::A)),
            w_cogen@ == weight(fv, key(c, Source::COGENERACION, Dest::input, Step::A)),
            w_red@.within(MAX_FACTOR as int),
            w_insitu@.within(MAX_FACTOR as int),
            w_cogen@.within(MAX_FACTOR as int),
            by_service.len() == k,
            forall|j: int| 0 <= j < k ==> (#[trigger] by_service[j])@ == target[j],
            forall|j: int| 0 <= j < k ==> (#[trigger] by_service[j])@.within(MAX_SERVICE_A as int),
            a@ == sum_triples(target.take(k as int)),
            a@.within(k * MAX_SERVICE_A),
        decreases SERVICE_COUNT - k,
    {
        let e = energy.by_service[k];
        proof {
            assert(e.from(Source::RED) == annual_used(rows, c, Source::RED, k as int, n));
            assert(e.from(Source::INSITU) == annual_used(rows, c, Source::INSITU, k as int, n));
            assert(e.from(Source::COGENERACION) == annual_used(
                rows,
                c,
                Source::COGENERACION,
                k as int,
                n,
            ));
            lemma_sum_triples_step(target, k as int);
            assert((k + 1) * MAX_SERVICE_A == k * MAX_SERVICE_A + MAX_SERVICE_A)
                by (nonlinear_arith);
            assert(k * MAX_SERVICE_A <= SERVICE_COUNT * MAX_SERVICE_A) by (nonlinear_arith)
                requires
                    k <= SERVICE_COUNT,
            ;
        }
        let a_k = weigh_service(e, w_red, w_insitu, w_cogen);
        assert(a_k@ == service_a(rows, fv, c, k as int, n));
        assert(target[k as int] == a_k@);
        by_service.push(a_k);
        a = a + a_k;
        k += 1;
    }
    proof {
        assert(target.take(SERVICE_COUNT as int) =~= target);
        assert(triples(by_service@) =~= target);
    }
    (by_service, a)
}

/// The effect of the exported energy of a carrier, taken `k_exp`
/// thousandths of it.
fn credit_of(
    energy: &CarrierEnergy,
    fs: &Vec<Factor>,
    k_exp: u64,
    c: Carrier,
    Ghost(rows): Ghost<Seq<ComponentView>>,
    Ghost(n): Ghost<int>,
) -> (r: RenNrenCo2)
    requires
        energy.is_energy_of(rows, c, n),
        energy.in_range(),
        factors_in_range(factor_views(fs@)),
        k_exp <= KEXP_SCALE,
    ensures
        r@ == export_credit(rows, factor_views(fs@), c, n).scale(k_exp as int),
        r@.within(MAX_CREDIT as int),
{
    proof {
        assert(energy.exported(Source::INSITU, Dest::to_grid) == annual_exported(
            rows,
            c,
            Source::INSITU,
            Dest::to_grid,
            n,
        ));
        assert(energy.exported(Source::COGENERACION, Dest::to_grid) == annual_exported(
            rows,
            c,
            Source::COGENERACION,
            Dest::to_grid,
            n,
        ));
        assert(energy.exported(Source::INSITU, Dest::to_nEPB) == annual_exported(
            rows,
            c,
            Source::INSITU,
            Dest::to_nEPB,
            n,
        ));
        assert(energy.exported(Source::COGENERACION, Dest::to_nEPB) == annual_exported(
            rows,
            c,
            Source::COGENERACION,
            Dest::to_nEPB,
            n,
        ));
    }
    let t = weigh_export(fs, c, Source::INSITU, Dest::to_grid, energy.exp_grid_insitu)
        + weigh_export(fs, c, Source::COGENERACION, Dest::to_grid, energy.exp_grid_cogen)
        + weigh_export(fs, c, Source::INSITU, Dest::to_nEPB, energy.exp_nepus_insitu)
        + weigh_export(fs, c, Source::COGENERACION, Dest::to_nEPB, energy.exp_nepus_cogen);
    proof {
        assert(2 * MAX_FACTOR * MAX_ANNUAL == 400_000_000_000_000_000_000_000)
            by (nonlinear_arith);
        lemma_scale_within(
            t@,
            k_exp as int,
            1_600_000_000_000_000_000_000_000,
            KEXP_SCALE as int,
        );
        assert(1_600_000_000_000_000_000_000_000 * KEXP_SCALE == MAX_CREDIT)
            by (nonlinear_arith);
    }
    let k: i128 = k_exp as i128;
    RenNrenCo2 { ren: t.ren * k, nren: t.nren * k, co2: t.co2 * k }
}

/// The weighted energy of a carrier that is exported to a destination, at
/// step A, from the energy exported from each origin.
fn exported_a_of(
    fs: &Vec<Factor>,
    c: Carrier,
    dest: Dest,
    from_insitu: u64,
    from_cogen: u64,
) -> (r: RenNrenCo2)
    requires
        factors_in_range(factor_views(fs@)),
        from_insitu <= MAX_ANNUAL,
        from_cogen <= MAX_ANNUAL,
    ensures
        r@ == weight(factor_views(fs@), key(c, Source::INSITU, dest, Step::A)).scale(
            from_insitu as int,
        ).add(
            weight(factor_views(fs@), key(c, Source::COGENERACION, dest, Step::A)).scale(
                from_cogen as int,
            ),
        ).scale(KEXP_SCALE as int),
{
    proof {
        lemma_weight_in_range(factor_views(fs@), key(c, Source::INSITU, dest, Step::A));
        lemma_weight_in_range(factor_views(fs@), key(c, Source::COGENERACION, dest, Step::A));
    }
    let wi = weight_of(fs, FactorKey { carrier: c, source: Source::INSITU, dest, step: Step::A });
    let wc = weight_of(
        fs,
        FactorKey { carrier: c, source: Source::COGENERACION, dest, step: Step::A },
    );
    let t = weighted(wi, from_insitu) + weighted(wc, from_cogen);
    proof {
        assert(MAX_FACTOR * MAX_ANNUAL == 200_000_000_000_000_000_000_000) by (nonlinear_arith);
        lemma_scale_within(
            t@,
            KEXP_SCALE as int,
            400_000_000_000_000_000_000_000,
            KEXP_SCALE as int,
        );
    }
    let k: i128 = KEXP_SCALE as i128;
    RenNrenCo2 { ren: t.ren * k, nren: t.nren * k, co2: t.co2 * k }
}

/// The energy that the grid delivers over all time steps to the services
/// below each ordinal, from zero to the number of services.
fn delivered_prefix(
    energy: &CarrierEnergy,
    c: Carrier,
    Ghost(rows): Ghost<Seq<ComponentView>>,
    Ghost(n): Ghost<int>,
) -> (dl: Vec<u128>)
    requires
        energy.is_energy_of(rows, c, n),
        energy.in_range(),
    ensures
        dl.len() == SERVICE_COUNT + 1,
        forall|k: int| 0 <= k <= SERVICE_COUNT ==> #[trigger] dl[k] == delivered_below(rows, c, k, n),
        forall|i: int, j: int| 0 <= i <= j <= SERVICE_COUNT ==> dl[i] <= dl[j],
        dl[SERVICE_COUNT as int] <= SERVICE_COUNT * MAX_ANNUAL,
{
    let mut dl: Vec<u128> = Vec::new();
    dl.push(0);
    let mut k: usize = 0;
    while k < SERVICE_COUNT
        invariant
            k <= SERVICE_COUNT,
            energy.is_energy_of(rows, c, n),
            energy.in_range(),
            dl.len() == k + 1,
            forall|j: int| 0 <= j <= k ==> #[trigger] dl[j] == delivered_below(rows, c, j, n),
            forall|i: int, j: int| 0 <= i <= j <= k ==> dl[i] <= dl[j],
            dl[k as int] <= k * MAX_ANNUAL,
        decreases SERVICE_COUNT - k,
    {
        let e = energy.by_service[k];
        proof {
            assert(e.from(Source::RED) == annual_used(rows, c, Source::RED, k as int, n));
            assert((k + 1) * MAX_ANNUAL == k * MAX_ANNUAL + MAX_ANNUAL) by (nonlinear_arith);
            assert(k * MAX_ANNUAL <= SERVICE_COUNT * MAX_ANNUAL) by (nonlinear_arith)
                requires
                    k <= SERVICE_COUNT,
            ;
        }
        let next: u128 = dl[k] + (e.del as u128);
        let ghost before = dl@;
        dl.push(next);
        proof {
            assert forall|i: int, j: int| 0 <= i <= j <= k + 1 implies dl[i] <= dl[j] by {
                if j <= k {
                    assert(before[i] <= before[j]);
                } else if i <= k {
                    assert(before[i] <= before[k as int]);
                }
            }
        }
        k += 1;
    }
    dl
}

/// The weighted energy of a carrier at step B, service by service: that of
/// step A less the part of the credit that falls to the service.
fn step_b_of(
    energy: &CarrierEnergy,
    a_by_service: &Vec<RenNrenCo2>,
    credit: RenNrenCo2,
    c: Carrier,
    Ghost(rows): Ghost<Seq<ComponentView>>,
    Ghost(fv): Ghost<Seq<FactorView>>,
    Ghost(k_exp): Ghost<int>,
    Ghost(n): Ghost<int>,
) -> (r: Vec<RenNrenCo2>)
    requires
        energy.is_energy_of(rows, c, n),
        energy.in_range(),
        triples(a_by_service@) == services_a(rows, fv, c, n),
        a_by_service.len() == SERVICE_COUNT,
        forall|k: int|
            0 <= k < SERVICE_COUNT ==> (#[trigger] a_by_service[k])@.within(MAX_SERVICE_A as int),
        credit@ == export_credit(rows, fv, c, n).scale(k_exp),
        credit@.within(MAX_CREDIT as int),
    ensures
        r.len() == SERVICE_COUNT,
        triples(r@) == services_b(rows, fv, k_exp, c, n),
        forall|k: int| 0 <= k < SERVICE_COUNT ==> (#[trigger] r[k])@.within(MAX_SERVICE as int),
{
    let dl = delivered_prefix(energy, c, Ghost(rows), Ghost(n));
    let whole: u128 = dl[SERVICE_COUNT];
    let ghost target = services_b(rows, fv, k_exp, c, n);
    let mut r: Vec<RenNrenCo2> = Vec::new();
    let mut k: usize = 0;
    while k < SERVICE_COUNT
        invariant
            k <= SERVICE_COUNT,
            target == services_b(rows, fv, k_exp, c, n),
            triples(a_by_service@) == services_a(rows, fv, c, n),
            a_by_service.len() == SERVICE_COUNT,
            forall|j: int|
                0 <= j < SERVICE_COUNT ==> (#[trigger] a_by_service[j])@.within(
                    MAX_SERVICE_A as int,
                ),
            credit@ == export_credit(rows, fv, c, n).scale(k_exp),
            credit@.within(MAX_CREDIT as int),
            dl.len() == SERVICE_COUNT + 1,
            forall|j: int|
                0 <= j <= SERVICE_COUNT ==> #[trigger] dl[j] == delivered_below(rows, c, j, n),
            forall|i: int, j: int| 0 <= i <= j <= SERVICE_COUNT ==> dl[i] <= dl[j],
            whole == dl[SERVICE_COUNT as int],
            whole <= SERVICE_COUNT * MAX_ANNUAL,
            r.len() == k,
            forall|j: int| 0 <= j < k ==> (#[trigger] r[j])@ == target[j],
            forall|j: int| 0 <= j < k ==> (#[trigger] r[j])@.within(MAX_SERVICE as int),
        decreases SERVICE_COUNT - k,
    {
        let lo: u128 = dl[k];
        let hi: u128 = dl[k + 1];
        proof {
            assert(dl[k as int] <= dl[k + 1]);
            assert(dl[k + 1] <= dl[SERVICE_COUNT as int]);
            lemma_slice_signed_bounds(credit.ren as int, lo as int, hi as int, whole as int);
            lemma_slice_signed_bounds(credit.nren as int, lo as int, hi as int, whole as int);
            lemma_slice_signed_bounds(credit.co2 as int, lo as int, hi as int, whole as int);
            assert(triples(a_by_service@)[k as int] == a_by_service[k as int]@);
        }
        let part = RenNrenCo2 {
            ren: slice_signed(credit.ren, lo, hi, whole),
            nren: slice_signed(credit.nren, lo, hi, whole),
            co2: slice_signed(credit.co2, lo, hi, whole),
        };
        let b_k = a_by_service[k] - part;
        assert(b_k@ == service_b(rows, fv, k_exp, c, k as int, n));
        assert(target[k as int] == b_k@);
        r.push(b_k);
        k += 1;
    }
    proof {
        assert(triples(r@) =~= target);
    }
    r
}

/// The weighted energy of carrier `c`: at step A and at step B, over all
/// services and service by service.
pub fn balance_carrier(rows: &Vec<Component>, n: usize, fs: &Vec<Factor>, k_exp: u64, c: Carrier)
    -> (r: CarrierBalance)
    requires
        rows_valid(component_views(rows@)),
        rows.len() > 0 ==> n == steps_of(component_views(rows@)),
        n <= MAX_STEPS,
        factors_in_range(factor_views(fs@)),
        k_exp <= KEXP_SCALE,
    ensures
        r@ == carrier_balance(
            component_views(rows@),
            factor_views(fs@),
            k_exp as int,
            c,
            n as int,
        ),
        r.in_range(),
{
    let ghost views = component_views(rows@);
    let ghost fv = factor_views(fs@);
    let energy = carrier_energy(rows, n, c);
    let (a_by_service, a) = step_a_of(&energy, fs, c, Ghost(views), Ghost(n as int));
    let credit = credit_of(&energy, fs, k_exp, c, Ghost(views), Ghost(n as int));
    let b_by_service = step_b_of(
        &energy,
        &a_by_service,
        credit,
        c,
        Ghost(views),
        Ghost(fv),
        Ghost(k_exp as int),
        Ghost(n as int),
    );
    proof {
        assert(SERVICE_COUNT * MAX_SERVICE_A == 6_600_000_000_000_000_000_000_000_000)
            by (nonlinear_arith);
    }
    let b = a - credit;
    proof {
        assert(energy.exported(Source::INSITU, Dest::to_grid) == annual_exported(
            views,
            c,
            Source::INSITU,
            Dest::to_grid,
            n as int,
        ));
        assert(energy.exported(Source::COGENERACION, Dest::to_grid) == annual_exported(
            views,
            c,
            Source::COGENERACION,
            Dest::to_grid,
            n as int,
        ));
        assert(energy.exported(Source::INSITU, Dest::to_nEPB) == annual_exported(
            views,
            c,
            Source::INSITU,
            Dest::to_nEPB,
            n as int,
        ));
        assert(energy.exported(Source::COGENERACION, Dest::to_nEPB) == annual_exported(
            views,
            c,
            Source::COGENERACION,
            Dest::to_nEPB,
            n as int,
        ));
    }
    let exp_grid_a = exported_a_of(
        fs,
        c,
        Dest::to_grid,
        energy.exp_grid_insitu,
        energy.exp_grid_cogen,
    );
    let exp_nepus_a = exported_a_of(
        fs,
        c,
        Dest::to_nEPB,
        energy.exp_nepus_insitu,
        energy.exp_nepus_cogen,
    );
    CarrierBalance {
        carrier: c,
        present: has_carrier(rows, c),
        a,
        b,
        a_by_service,
        b_by_service,
        exp_grid_a,
        exp_nepus_a,
    }
}

} // verus!
