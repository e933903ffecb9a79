//! Production and consumption resolver: how much of the energy produced of a
//! carrier is used on site, delivered to non EPB uses or exported to the
//! grid, and how much is delivered by the grid, at each time step.
use vstd::prelude::*;

use crate::error::EpbdError;
use crate::shares::lemma_share_bounds;
use crate::shares::lemma_slice_bounds;
use crate::shares::share;
use crate::shares::share_of;
use crate::shares::slice;
use crate::shares::slice_of;
use crate::types::Source;

verus! {

/// Produced energy used by EPB services: what is used, as far as the
/// production reaches.
pub open spec fn used_epus(epus: int, pr: int) -> int {
    if epus <= pr {
        epus
    } else {
        pr
    }
}

/// Produced energy used by non EPB uses: what they use, as far as the
/// production that EPB services left reaches.
pub open spec fn used_nepus(epus: int, nepus: int, pr: int) -> int {
    let rest = pr - used_epus(epus, pr);
    if nepus <= rest {
        nepus
    } else {
        rest
    }
}

/// Produced energy exported to the grid: what neither EPB nor non EPB uses
/// took.
pub open spec fn exp_grid(epus: int, nepus: int, pr: int) -> int {
    pr - used_epus(epus, pr) - used_nepus(epus, nepus, pr)
}

/// Energy delivered by the grid to EPB services: what the production did
/// not cover.
pub open spec fn delivered(epus: int, pr: int) -> int {
    if epus - used_epus(epus, pr) >= 0 {
        epus - used_epus(epus, pr)
    } else {
        0
    }
}

/// Part of the quantity `x` that is allocated to the on site origin: in
/// proportion to what that origin produced, rounded down.
pub open spec fn insitu_part(x: int, pr_insitu: int, pr_cogen: int) -> int {
    share(x, pr_insitu, pr_insitu + pr_cogen)
}

/// Part of the quantity `x` that is allocated to cogeneration: the rest.
pub open spec fn cogen_part(x: int, pr_insitu: int, pr_cogen: int) -> int {
    x - insitu_part(x, pr_insitu, pr_cogen)
}

/// Energy flows of one carrier at one time step, as mathematical integers.
pub struct FlowsView {
    /// Produced energy, all origins.
    pub pr: int,
    /// Produced energy used by EPB services.
    pub used_epus: int,
    /// Produced energy delivered to non EPB uses.
    pub used_nepus: int,
    /// Produced energy exported to the grid.
    pub exp_grid: int,
    /// Energy delivered by the grid to EPB services.
    pub del: int,
    /// Part of `used_epus` produced on site.
    pub used_epus_insitu: int,
    /// Part of `used_epus` produced by cogeneration.
    pub used_epus_cogen: int,
    /// Part of `used_nepus` produced on site.
    pub exp_nepus_insitu: int,
    /// Part of `used_nepus` produced by cogeneration.
    pub exp_nepus_cogen: int,
    /// Part of `exp_grid` produced on site.
    pub exp_grid_insitu: int,
    /// Part of `exp_grid` produced by cogeneration.
    pub exp_grid_cogen: int,
}

/// The flows of a time step with the given production on site and by
/// cogeneration, use by EPB services and use by non EPB uses.
pub open spec fn spec_resolve(pr_insitu: int, pr_cogen: int, epus: int, nepus: int) -> FlowsView {
    let pr = pr_insitu + pr_cogen;
    let ue = used_epus(epus, pr);
    let un = used_nepus(epus, nepus, pr);
    let xg = exp_grid(epus, nepus, pr);
    FlowsView {
        pr,
        used_epus: ue,
        used_nepus: un,
        exp_grid: xg,
        del: delivered(epus, pr),
        used_epus_insitu: insitu_part(ue, pr_insitu, pr_cogen),
        used_epus_cogen: cogen_part(ue, pr_insitu, pr_cogen),
        exp_nepus_insitu: insitu_part(un, pr_insitu, pr_cogen),
        exp_nepus_cogen: cogen_part(un, pr_insitu, pr_cogen),
        exp_grid_insitu: insitu_part(xg, pr_insitu, pr_cogen),
        exp_grid_cogen: cogen_part(xg, pr_insitu, pr_cogen),
    }
}

/// Conservation of energy at a time step: the energy that EPB services use
/// is what the grid delivers and what is used of the production of each
/// origin; the energy produced is what is used by EPB services, exported to
/// the grid and delivered to non EPB uses, over all origins.
pub proof fn lemma_conservation(pr_insitu: int, pr_cogen: int, epus: int, nepus: int)
    requires
        0 <= pr_insitu,
        0 <= pr_cogen,
        0 <= epus,
        0 <= nepus,
    ensures
        ({
            let f = spec_resolve(pr_insitu, pr_cogen, epus, nepus);
            &&& f.del + f.used_epus_insitu + f.used_epus_cogen == epus
            &&& (f.used_epus_insitu + f.exp_grid_insitu + f.exp_nepus_insitu) + (f.used_epus_cogen
                + f.exp_grid_cogen + f.exp_nepus_cogen) == pr_insitu + pr_cogen
            &&& f.used_epus + f.exp_grid + f.used_nepus == f.pr
        }),
{
}

/// No flow is negative, and no flow by origin exceeds the flow it is a part
/// of.
pub proof fn lemma_non_negative(pr_insitu: int, pr_cogen: int, epus: int, nepus: int)
    requires
        0 <= pr_insitu,
        0 <= pr_cogen,
        0 <= epus,
        0 <= nepus,
    ensures
        ({
            let f = spec_resolve(pr_insitu, pr_cogen, epus, nepus);
            &&& 0 <= f.pr
            &&& 0 <= f.used_epus <= epus
            &&& 0 <= f.used_nepus <= nepus
            &&& 0 <= f.exp_grid <= f.pr
            &&& 0 <= f.del <= epus
            &&& 0 <= f.used_epus_insitu <= f.used_epus
            &&& 0 <= f.used_epus_cogen <= f.used_epus
            &&& 0 <= f.exp_nepus_insitu <= f.used_nepus
            &&& 0 <= f.exp_nepus_cogen <= f.used_nepus
            &&& 0 <= f.exp_grid_insitu <= f.exp_grid
            &&& 0 <= f.exp_grid_cogen <= f.exp_grid
        }),
{
    let f = spec_resolve(pr_insitu, pr_cogen, epus, nepus);
    lemma_share_bounds(f.used_epus, pr_insitu, pr_insitu + pr_cogen);
    lemma_share_bounds(f.used_nepus, pr_insitu, pr_insitu + pr_cogen);
    lemma_share_bounds(f.exp_grid, pr_insitu, pr_insitu + pr_cogen);
}

/// Energy flows of one carrier at one time step.
#[derive(Debug, Copy, Clone, PartialEq, Eq, Structural)]
pub struct StepFlows {
    /// Produced energy, all origins.
    pub pr: u64,
    /// Produced energy used by EPB services.
    pub used_epus: u64,
    /// Produced energy delivered to non EPB uses.
    pub used_nepus: u64,
    /// Produced energy exported to the grid.
    pub exp_grid: u64,
    /// Energy delivered by the grid to EPB services.
    pub del: u64,
    /// Part of `used_epus` produced on site.
    pub used_epus_insitu: u64,
    /// Part of `used_epus` produced by cogeneration.
    pub used_epus_cogen: u64,
    /// Part of `used_nepus` produced on site.
    pub exp_nepus_insitu: u64,
    /// Part of `used_nepus` produced by cogeneration.
    pub exp_nepus_cogen: u64,
    /// Part of `exp_grid` produced on site.
    pub exp_grid_insitu: u64,
    /// Part of `exp_grid` produced by cogeneration.
    pub exp_grid_cogen: u64,
}

impl View for StepFlows {
    type V = FlowsView;

    open spec fn view(&self) -> FlowsView {
        FlowsView {
            pr: self.pr as int,
            used_epus: self.used_epus as int,
            used_nepus: self.used_nepus as int,
            exp_grid: self.exp_grid as int,
            del: self.del as int,
            used_epus_insitu: self.used_epus_insitu as int,
            used_epus_cogen: self.used_epus_cogen as int,
            exp_nepus_insitu: self.exp_nepus_insitu as int,
            exp_nepus_cogen: self.exp_nepus_cogen as int,
            exp_grid_insitu: self.exp_grid_insitu as int,
            exp_grid_cogen: self.exp_grid_cogen as int,
        }
    }
}

/// Resolves one time step: splits the production between EPB services, non
/// EPB uses and the grid, and each of these between the origins.
pub fn resolve_step(pr_insitu: u64, pr_cogen: u64, epus: u64, nepus: u64) -> (f: StepFlows)
    requires
        pr_insitu + pr_cogen <= u64::MAX,
    ensures
        f@ == spec_resolve(pr_insitu as int, pr_cogen as int, epus as int, nepus as int),
{
    let pr: u64 = pr_insitu + pr_cogen;
    let ue: u64 = if epus <= pr { epus } else { pr };
    let rest: u64 = pr - ue;
    let un: u64 = if nepus <= rest { nepus } else { rest };
    let xg: u64 = rest - un;
    let del: u64 = epus - ue;
    proof {
        lemma_share_bounds(ue as int, pr_insitu as int, pr as int);
        lemma_share_bounds(un as int, pr_insitu as int, pr as int);
        lemma_share_bounds(xg as int, pr_insitu as int, pr as int);
    }
    let ue_i: u64 = share_of(ue, pr_insitu, pr);
    let un_i: u64 = share_of(un, pr_insitu, pr);
    let xg_i: u64 = share_of(xg, pr_insitu, pr);
    StepFlows {
        pr,
        used_epus: ue,
        used_nepus: un,
        exp_grid: xg,
        del,
        used_epus_insitu: ue_i,
        used_epus_cogen: ue - ue_i,
        exp_nepus_insitu: un_i,
        exp_nepus_cogen: un - un_i,
        exp_grid_insitu: xg_i,
        exp_grid_cogen: xg - xg_i,
    }
}

/// Energy flows of one carrier, one value for each time step.
#[derive(Debug)]
pub struct CarrierFlows {
    /// Produced energy, all origins.
    pub pr: Vec<u64>,
    /// Produced energy used by EPB services.
    pub used_epus: Vec<u64>,
    /// Produced energy delivered to non EPB uses.
    pub used_nepus: Vec<u64>,
    /// Produced energy exported to the grid.
    pub exp_grid: Vec<u64>,
    /// Energy delivered by the grid to EPB services.
    pub del: Vec<u64>,
    /// Part of `used_epus` produced on site.
    pub used_epus_insitu: Vec<u64>,
    /// Part of `used_epus` produced by cogeneration.
    pub used_epus_cogen: Vec<u64>,
    /// Part of `used_nepus` produced on site.
    pub exp_nepus_insitu: Vec<u64>,
    /// Part of `used_nepus` produced by cogeneration.
    pub exp_nepus_cogen: Vec<u64>,
    /// Part of `exp_grid` produced on site.
    pub exp_grid_insitu: Vec<u64>,
    /// Part of `exp_grid` produced by cogeneration.
    pub exp_grid_cogen: Vec<u64>,
}

impl CarrierFlows {
    /// Whether every series has `n` time steps.
    pub open spec fn has_steps(&self, n: int) -> bool {
        &&& self.pr.len() == n
        &&& self.used_epus.len() == n
        &&& self.used_nepus.len() == n
        &&& self.exp_grid.len() == n
        &&& self.del.len() == n
        &&& self.used_epus_insitu.len() == n
        &&& self.used_epus_cogen.len() == n
        &&& self.exp_nepus_insitu.len() == n
        &&& self.exp_nepus_cogen.len() == n
        &&& self.exp_grid_insitu.len() == n
        &&& self.exp_grid_cogen.len() == n
    }

    /// The flows of time step `t`.
    pub open spec fn at(&self, t: int) -> FlowsView {
        FlowsView {
            pr: self.pr[t] as int,
            used_epus: self.used_epus[t] as int,
            used_nepus: self.used_nepus[t] as int,
            exp_grid: self.exp_grid[t] as int,
            del: self.del[t] as int,
            used_epus_insitu: self.used_epus_insitu[t] as int,
            used_epus_cogen: self.used_epus_cogen[t] as int,
            exp_nepus_insitu: self.exp_nepus_insitu[t] as int,
            exp_nepus_cogen: self.exp_nepus_cogen[t] as int,
            exp_grid_insitu: self.exp_grid_insitu[t] as int,
            exp_grid_cogen: self.exp_grid_cogen[t] as int,
        }
    }

    /// Whether these are the flows that the four given series resolve to.
    pub open spec fn resolves(
        &self,
        pr_insitu: Seq<u64>,
        pr_cogen: Seq<u64>,
        epus: Seq<u64>,
        nepus: Seq<u64>,
    ) -> bool {
        &&& self.has_steps(pr_insitu.len() as int)
        &&& forall|t: int|
            0 <= t < pr_insitu.len() ==> #[trigger] self.at(t) == spec_resolve(
                pr_insitu[t] as int,
                pr_cogen[t] as int,
                epus[t] as int,
                nepus[t] as int,
            )
    }
}

/// Whether the production of both origins together can be held at every
/// time step.
pub open spec fn production_fits(pr_insitu: Seq<u64>, pr_cogen: Seq<u64>) -> bool {
    forall|t: int|
        0 <= t < pr_insitu.len() && t < pr_cogen.len() ==> #[trigger] pr_insitu[t] + pr_cogen[t]
            <= u64::MAX
}

/// Whether the four series have one length.
pub open spec fn one_length(
    pr_insitu: Seq<u64>,
    pr_cogen: Seq<u64>,
    epus: Seq<u64>,
    nepus: Seq<u64>,
) -> bool {
    pr_insitu.len() == pr_cogen.len() && pr_insitu.len() == epus.len() && pr_insitu.len()
        == nepus.len()
}

/// Resolves the flows of a carrier at every time step, from the energy
/// produced on site and by cogeneration, the energy used by EPB services
/// and the energy used by non EPB uses, given as series of one length whose
/// production can be held.
pub fn resolve_series(
    pr_insitu: &Vec<u64>,
    pr_cogen: &Vec<u64>,
    epus: &Vec<u64>,
    nepus: &Vec<u64>,
) -> (f: CarrierFlows)
    requires
        one_length(pr_insitu@, pr_cogen@, epus@, nepus@),
        production_fits(pr_insitu@, pr_cogen@),
    ensures
        f.resolves(pr_insitu@, pr_cogen@, epus@, nepus@),
{
    let n = pr_insitu.len();
    let mut f = CarrierFlows {
        pr: Vec::new(),
        used_epus: Vec::new(),
        used_nepus: Vec::new(),
        exp_grid: Vec::new(),
        del: Vec::new(),
        used_epus_insitu: Vec::new(),
        used_epus_cogen: Vec::new(),
        exp_nepus_insitu: Vec::new(),
        exp_nepus_cogen: Vec::new(),
        exp_grid_insitu: Vec::new(),
        exp_grid_cogen: Vec::new(),
    };
    let mut t: usize = 0;
    while t < n
        invariant
            t <= n,
            n == pr_insitu.len(),
            n == pr_cogen.len(),
            n == epus.len(),
            n == nepus.len(),
            production_fits(pr_insitu@, pr_cogen@),
            f.has_steps(t as int),
            forall|u: int|
                0 <= u < t ==> #[trigger] f.at(u) == spec_resolve(
                    pr_insitu[u] as int,
                    pr_cogen[u] as int,
                    epus[u] as int,
                    nepus[u] as int,
                ),
        decreases n - t,
    {
        assert(pr_insitu@[t as int] + pr_cogen@[t as int] <= u64::MAX);
        let s = resolve_step(pr_insitu[t], pr_cogen[t], epus[t], nepus[t]);
        let ghost before = f;
        f.pr.push(s.pr);
        f.used_epus.push(s.used_epus);
        f.used_nepus.push(s.used_nepus);
        f.exp_grid.push(s.exp_grid);
        f.del.push(s.del);
        f.used_epus_insitu.push(s.used_epus_insitu);
        f.used_epus_cogen.push(s.used_epus_cogen);
        f.exp_nepus_insitu.push(s.exp_nepus_insitu);
        f.exp_nepus_cogen.push(s.exp_nepus_cogen);
        f.exp_grid_insitu.push(s.exp_grid_insitu);
        f.exp_grid_cogen.push(s.exp_grid_cogen);
        assert(f.at(t as int) == s@);
        assert forall|u: int| 0 <= u < t implies #[trigger] f.at(u) == spec_resolve(
            pr_insitu[u] as int,
            pr_cogen[u] as int,
            epus[u] as int,
            nepus[u] as int,
        ) by {
            assert(f.at(u) == before.at(u));
        }
        t += 1;
    }
    f
}

/// Resolves the flows of a carrier at every time step, from the energy
/// produced on site and by cogeneration, the energy used by EPB services
/// and the energy used by non EPB uses.
///
/// Series of different lengths are a `ShapeError`; a production that cannot
/// be held is a `RangeError`.
pub fn resolve(
    pr_insitu: &Vec<u64>,
    pr_cogen: &Vec<u64>,
    epus: &Vec<u64>,
    nepus: &Vec<u64>,
) -> (r: Result<CarrierFlows, EpbdError>)
    ensures
        !one_length(pr_insitu@, pr_cogen@, epus@, nepus@) ==> r == Err::<CarrierFlows, EpbdError>(
            EpbdError::ShapeError,
        ),
        one_length(pr_insitu@, pr_cogen@, epus@, nepus@) && !production_fits(
            pr_insitu@,
            pr_cogen@,
        ) ==> r == Err::<CarrierFlows, EpbdError>(EpbdError::RangeError),
        one_length(pr_insitu@, pr_cogen@, epus@, nepus@) && production_fits(pr_insitu@, pr_cogen@)
            ==> r.is_ok() && r.unwrap().resolves(pr_insitu@, pr_cogen@, epus@, nepus@),
{
    let n = pr_insitu.len();
    if pr_cogen.len() != n || epus.len() != n || nepus.len() != n {
        return Err(EpbdError::ShapeError);
    }
    let mut t: usize = 0;
    while t < n
        invariant
            t <= n,
            n == pr_insitu.len(),
            one_length(pr_insitu@, pr_cogen@, epus@, nepus@),
            forall|u: int| 0 <= u < t ==> #[trigger] pr_insitu[u] + pr_cogen[u] <= u64::MAX,
        decreases n - t,
    {
        if pr_insitu[t] > u64::MAX - pr_cogen[t] {
            assert(pr_insitu@[t as int] + pr_cogen@[t as int] > u64::MAX);
            return Err(EpbdError::RangeError);
        }
        t += 1;
    }
    Ok(resolve_series(pr_insitu, pr_cogen, epus, nepus))
}

/// The energy that EPB services use from a source: what the grid delivers,
/// or what is used of the production of an origin.
pub open spec fn used_from(f: FlowsView, source: Source) -> int {
    match source {
        Source::RED => f.del,
        Source::INSITU => f.used_epus_insitu,
        Source::COGENERACION => f.used_epus_cogen,
    }
}

/// The part of the energy from a source that is imputed to a service, at a
/// time step at which the services before it use `below`, the service uses
/// `demand` and all EPB services use `epus`: in proportion to its use.
pub open spec fn spec_allocate(f: FlowsView, source: Source, below: int, demand: int, epus: int)
    -> int {
    slice(used_from(f, source), below, below + demand, epus)
}

/// Energy that one service uses from each source, one value for each time
/// step.
#[derive(Debug)]
pub struct ServiceFlows {
    /// Energy delivered by the grid.
    pub del: Vec<u64>,
    /// Energy produced on site.
    pub used_insitu: Vec<u64>,
    /// Energy produced by cogeneration.
    pub used_cogen: Vec<u64>,
}

impl ServiceFlows {
    /// The energy from a source at time step `t`.
    pub open spec fn at(&self, source: Source, t: int) -> int {
        match source {
            Source::RED => self.del[t] as int,
            Source::INSITU => self.used_insitu[t] as int,
            Source::COGENERACION => self.used_cogen[t] as int,
        }
    }

    /// Whether every series has `n` time steps.
    pub open spec fn has_steps(&self, n: int) -> bool {
        self.del.len() == n && self.used_insitu.len() == n && self.used_cogen.len() == n
    }
}

/// Imputes to one service its part of the energy that EPB services use from
/// each source, at every time step.
///
/// `below` is the use of the services that come before it, `demand` its own
/// use and `epus` the use of all EPB services.
pub fn allocate(flows: &CarrierFlows, epus: &Vec<u64>, below: &Vec<u64>, demand: &Vec<u64>) -> (r:
    ServiceFlows)
    requires
        flows.has_steps(epus.len() as int),
        below.len() == epus.len(),
        demand.len() == epus.len(),
        forall|t: int| 0 <= t < epus.len() ==> #[trigger] below[t] + demand[t] <= epus[t],
    ensures
        r.has_steps(epus.len() as int),
        forall|t: int, source: Source|
            0 <= t < epus.len() ==> #[trigger] r.at(source, t) == spec_allocate(
                flows.at(t),
                source,
                below[t] as int,
                demand[t] as int,
                epus[t] as int,
            ),
{
    let n = epus.len();
    let mut r = ServiceFlows { del: Vec::new(), used_insitu: Vec::new(), used_cogen: Vec::new() };
    let mut t: usize = 0;
    while t < n
        invariant
            t <= n,
            n == epus.len(),
            flows.has_steps(n as int),
            below.len() == n,
            demand.len() == n,
            forall|u: int| 0 <= u < n ==> #[trigger] below[u] + demand[u] <= epus[u],
            r.has_steps(t as int),
            forall|u: int, source: Source|
                0 <= u < t ==> #[trigger] r.at(source, u) == spec_allocate(
                    flows.at(u),
                    source,
                    below[u] as int,
                    demand[u] as int,
                    epus[u] as int,
                ),
        decreases n - t,
    {
        assert(below[t as int] + demand[t as int] <= epus[t as int]);
        let lo: u64 = below[t];
        let hi: u64 = below[t] + demand[t];
        let whole: u64 = epus[t];
        let ghost before = r;
        r.del.push(slice_of(flows.del[t], lo, hi, whole));
        r.used_insitu.push(slice_of(flows.used_epus_insitu[t], lo, hi, whole));
        r.used_cogen.push(slice_of(flows.used_epus_cogen[t], lo, hi, whole));
        proof {
            assert forall|u: int, source: Source| 0 <= u < t + 1 implies #[trigger] r.at(source, u)
                == spec_allocate(
                flows.at(u),
                source,
                below[u] as int,
                demand[u] as int,
                epus[u] as int,
            ) by {
                if u < t {
                    assert(r.at(source, u) == before.at(source, u));
                }
            }
        }
        t += 1;
    }
    r
}

/// What is imputed to a service is not negative and no more than the
/// energy it is a part of.
pub proof fn lemma_allocate_bounds(f: FlowsView, source: Source, below: int, demand: int, epus: int)
    requires
        0 <= used_from(f, source),
        0 <= below,
        0 <= demand,
        below + demand <= epus,
    ensures
        0 <= spec_allocate(f, source, below, demand, epus) <= used_from(f, source),
{
    lemma_slice_bounds(used_from(f, source), below, below + demand, epus);
}

} // verus!
