//! Time series of a list of component rows: the energy of the rows that a
//! selector takes, summed at each time step.
use vstd::prelude::*;

use crate::error::EpbdError;
use crate::types::component_views;
use crate::types::spec_service_at;
use crate::types::CSubtype;
use crate::types::CType;
use crate::types::Carrier;
use crate::types::Component;
use crate::types::ComponentView;
use crate::types::Service;
use crate::types::SERVICE_COUNT;

verus! {

/// Largest energy of one row at one time step.
pub const MAX_VALUE: u64 = 1_000_000_000;

/// Largest number of time steps.
pub const MAX_STEPS: usize = 100_000;

/// Largest number of component rows.
pub const MAX_ROWS: usize = 1_000;

/// Largest sum of the rows at one time step.
pub const MAX_STEP_SUM: u64 = 1_000_000_000_000;

/// Largest energy of a flow of a carrier over all time steps.
pub const MAX_ANNUAL: u64 = 200_000_000_000_000_000;

/// Which rows a sum runs over: those of a carrier, a role and an origin or
/// kind of use, and of one service or of all.
#[derive(Debug, Copy, Clone)]
pub struct Selector {
    /// Energy carrier.
    pub carrier: Carrier,
    /// Consumption or production.
    pub ctype: CType,
    /// Origin of the production or kind of use.
    pub csubtype: CSubtype,
    /// The service, or `None` for the rows of all services.
    pub service: Option<Service>,
}

impl Selector {
    /// Whether the selector takes the row.
    pub open spec fn takes(self, row: ComponentView) -> bool {
        &&& row.carrier == self.carrier
        &&& row.ctype == self.ctype
        &&& row.csubtype == self.csubtype
        &&& (self.service is None || self.service == Some(row.service))
    }

    /// Whether the selector takes the row.
    pub fn selects(&self, row: &Component) -> (b: bool)
        ensures
            b == self.takes(row@),
    {
        row.carrier == self.carrier && row.ctype == self.ctype && row.csubtype == self.csubtype
            && match self.service {
            None => true,
            Some(s) => s == row.service,
        }
    }

    /// The production of a carrier on site.
    pub open spec fn spec_insitu(carrier: Carrier) -> Selector {
        Selector {
            carrier,
            ctype: CType::PRODUCCION,
            csubtype: CSubtype::INSITU,
            service: None,
        }
    }

    /// The production of a carrier by cogeneration.
    pub open spec fn spec_cogen(carrier: Carrier) -> Selector {
        Selector {
            carrier,
            ctype: CType::PRODUCCION,
            csubtype: CSubtype::COGENERACION,
            service: None,
        }
    }

    /// The use of a carrier by all EPB services.
    pub open spec fn spec_epus(carrier: Carrier) -> Selector {
        Selector { carrier, ctype: CType::CONSUMO, csubtype: CSubtype::EPB, service: None }
    }

    /// The use of a carrier by one EPB service.
    pub open spec fn spec_demand(carrier: Carrier, service: Service) -> Selector {
        Selector {
            carrier,
            ctype: CType::CONSUMO,
            csubtype: CSubtype::EPB,
            service: Some(service),
        }
    }

    /// The use of a carrier by non EPB uses.
    pub open spec fn spec_nepus(carrier: Carrier) -> Selector {
        Selector { carrier, ctype: CType::CONSUMO, csubtype: CSubtype::NEPB, service: None }
    }
}

/// Whether the role and the origin or kind of use of a row go together with
/// each other and with its carrier: consumption is by EPB or non EPB uses,
/// production is on site or by cogeneration, only electricity is
/// cogenerated, and environment energy goes to EPB services only.
pub open spec fn row_consistent(row: ComponentView) -> bool {
    &&& row.ctype == CType::CONSUMO ==> (row.csubtype == CSubtype::EPB || row.csubtype
        == CSubtype::NEPB)
    &&& row.ctype == CType::PRODUCCION ==> (row.csubtype == CSubtype::INSITU || row.csubtype
        == CSubtype::COGENERACION)
    &&& row.csubtype == CSubtype::COGENERACION ==> row.carrier == Carrier::ELECTRICIDAD
    &&& row.carrier == Carrier::MEDIOAMBIENTE ==> row.csubtype != CSubtype::NEPB
}

/// Whether no value of the row is above the largest accepted.
pub open spec fn row_in_range(row: ComponentView) -> bool {
    forall|t: int| 0 <= t < row.values.len() ==> #[trigger] row.values[t] <= MAX_VALUE
}

/// The number of time steps of a list of rows: that of its first row.
pub open spec fn steps_of(rows: Seq<ComponentView>) -> int {
    if rows.len() == 0 {
        0
    } else {
        rows[0].values.len() as int
    }
}

/// Whether all rows have as many time steps as the first.
pub open spec fn same_shape(rows: Seq<ComponentView>) -> bool {
    forall|i: int| 0 <= i < rows.len() ==> (#[trigger] rows[i]).values.len() == steps_of(rows)
}

/// Whether all rows are consistent.
pub open spec fn all_consistent(rows: Seq<ComponentView>) -> bool {
    forall|i: int| 0 <= i < rows.len() ==> row_consistent(#[trigger] rows[i])
}

/// Whether the numbers of rows and of time steps, and all values, are
/// within the limits.
pub open spec fn all_in_range(rows: Seq<ComponentView>) -> bool {
    &&& rows.len() <= MAX_ROWS
    &&& steps_of(rows) <= MAX_STEPS
    &&& forall|i: int| 0 <= i < rows.len() ==> row_in_range(#[trigger] rows[i])
}

/// Whether a list of rows can go into the balance.
pub open spec fn rows_valid(rows: Seq<ComponentView>) -> bool {
    same_shape(rows) && all_consistent(rows) && all_in_range(rows)
}

/// The error that a list of rows that cannot go into the balance gives:
/// first for rows of different lengths, then for a row that is not
/// consistent, then for what is beyond the limits.
pub open spec fn rows_error(rows: Seq<ComponentView>) -> Option<EpbdError> {
    if !same_shape(rows) {
        Some(EpbdError::ShapeError)
    } else if !all_consistent(rows) {
        Some(EpbdError::Inconsistent)
    } else if !all_in_range(rows) {
        Some(EpbdError::RangeError)
    } else {
        None
    }
}

/// Sum at time step `t` of the rows that the selector takes.
pub open spec fn rows_sum(rows: Seq<ComponentView>, sel: Selector, t: int) -> int
    decreases rows.len(),
{
    if rows.len() == 0 {
        0
    } else {
        rows_sum(rows.drop_last(), sel, t) + if sel.takes(rows.last()) {
            rows.last().values[t] as int
        } else {
            0
        }
    }
}

/// Use of a carrier at time step `t` by the EPB services with an ordinal
/// below `k`.
pub open spec fn demand_below(rows: Seq<ComponentView>, carrier: Carrier, k: int, t: int) -> int
    decreases k,
{
    if k <= 0 {
        0
    } else {
        demand_below(rows, carrier, k - 1, t) + rows_sum(
            rows,
            Selector::spec_demand(carrier, spec_service_at(k - 1)),
            t,
        )
    }
}

/// A sum of rows is between zero and the number of rows times the largest
/// value.
pub proof fn lemma_rows_sum_bounds(rows: Seq<ComponentView>, sel: Selector, t: int)
    requires
        same_shape(rows),
        forall|i: int| 0 <= i < rows.len() ==> row_in_range(#[trigger] rows[i]),
        0 <= t < steps_of(rows),
    ensures
        0 <= rows_sum(rows, sel, t) <= rows.len() * MAX_VALUE,
    decreases rows.len(),
{
    if rows.len() > 0 {
        let head = rows.drop_last();
        if head.len() > 0 {
            assert(head[0] == rows[0]);
            assert forall|i: int| 0 <= i < head.len() implies (#[trigger] head[i]).values.len()
                == steps_of(head) by {
                assert(head[i] == rows[i]);
            }
            assert forall|i: int| 0 <= i < head.len() implies row_in_range(#[trigger] head[i]) by {
                assert(head[i] == rows[i]);
            }
            lemma_rows_sum_bounds(head, sel, t);
        } else {
            assert(rows_sum(head, sel, t) == 0);
        }
        let last = rows.last();
        assert(last == rows[rows.len() - 1]);
        assert(row_in_range(last));
        assert(last.values.len() == steps_of(rows));
        assert(last.values[t] <= MAX_VALUE);
        assert((rows.len() - 1) * MAX_VALUE + MAX_VALUE == rows.len() * MAX_VALUE)
            by (nonlinear_arith);
    }
}

/// What the last row adds to the use by the services below `k`.
pub proof fn lemma_demand_below_last(rows: Seq<ComponentView>, carrier: Carrier, k: int, t: int)
    requires
        rows.len() > 0,
        0 <= k <= SERVICE_COUNT,
    ensures
        demand_below(rows, carrier, k, t) == demand_below(rows.drop_last(), carrier, k, t) + if
            Selector::spec_epus(carrier).takes(rows.last()) && rows.last().service.spec_index()
            < k {
            rows.last().values[t] as int
        } else {
            0
        },
    decreases k,
{
    if k > 0 {
        lemma_demand_below_last(rows, carrier, k - 1, t);
    }
}

/// The uses of the EPB services add up to the use of all EPB services.
pub proof fn lemma_demand_total(rows: Seq<ComponentView>, carrier: Carrier, t: int)
    ensures
        demand_below(rows, carrier, SERVICE_COUNT as int, t) == rows_sum(
            rows,
            Selector::spec_epus(carrier),
            t,
        ),
    decreases rows.len(),
{
    if rows.len() == 0 {
        lemma_demand_below_empty(rows, carrier, SERVICE_COUNT as int, t);
    } else {
        lemma_demand_total(rows.drop_last(), carrier, t);
        lemma_demand_below_last(rows, carrier, SERVICE_COUNT as int, t);
    }
}

/// Without rows there is no use.
pub proof fn lemma_demand_below_empty(rows: Seq<ComponentView>, carrier: Carrier, k: int, t: int)
    requires
        rows.len() == 0,
    ensures
        demand_below(rows, carrier, k, t) == 0,
    decreases k,
{
    if k > 0 {
        lemma_demand_below_empty(rows, carrier, k - 1, t);
    }
}

/// The use by the services below `k` grows with `k` and stays within the
/// use of all EPB services.
pub proof fn lemma_demand_below_monotone(
    rows: Seq<ComponentView>,
    carrier: Carrier,
    j: int,
    k: int,
    t: int,
)
    requires
        0 <= j <= k <= SERVICE_COUNT,
    ensures
        0 <= demand_below(rows, carrier, j, t) <= demand_below(rows, carrier, k, t),
    decreases k - j,
{
    lemma_demand_below_non_negative(rows, carrier, j, t);
    if j < k {
        lemma_demand_below_monotone(rows, carrier, j, k - 1, t);
        lemma_rows_sum_non_negative(rows, Selector::spec_demand(carrier, spec_service_at(k - 1)), t);
    }
}

/// A sum of rows is not negative.
pub proof fn lemma_rows_sum_non_negative(rows: Seq<ComponentView>, sel: Selector, t: int)
    ensures
        0 <= rows_sum(rows, sel, t),
    decreases rows.len(),
{
    if rows.len() > 0 {
        lemma_rows_sum_non_negative(rows.drop_last(), sel, t);
    }
}

/// The use by the services below `k` is not negative.
pub proof fn lemma_demand_below_non_negative(
    rows: Seq<ComponentView>,
    carrier: Carrier,
    k: int,
    t: int,
)
    ensures
        0 <= demand_below(rows, carrier, k, t),
    decreases k,
{
    if k > 0 {
        lemma_demand_below_non_negative(rows, carrier, k - 1, t);
        lemma_rows_sum_non_negative(rows, Selector::spec_demand(carrier, spec_service_at(k - 1)), t);
    }
}

/// Whether the role and the origin or kind of use of a row go together.
pub fn is_consistent(row: &Component) -> (b: bool)
    ensures
        b == row_consistent(row@),
{
    let role_ok = match row.ctype {
        CType::CONSUMO => row.csubtype == CSubtype::EPB || row.csubtype == CSubtype::NEPB,
        CType::PRODUCCION => row.csubtype == CSubtype::INSITU || row.csubtype
            == CSubtype::COGENERACION,
    };
    let cogen_ok = row.csubtype != CSubtype::COGENERACION || row.carrier == Carrier::ELECTRICIDAD;
    let env_ok = row.carrier != Carrier::MEDIOAMBIENTE || row.csubtype != CSubtype::NEPB;
    role_ok && cogen_ok && env_ok
}

/// Whether no value of the row is above the largest accepted.
pub fn is_in_range(row: &Component) -> (b: bool)
    ensures
        b == row_in_range(row@),
{
    let mut t: usize = 0;
    while t < row.values.len()
        invariant
            t <= row.values.len(),
            forall|u: int| 0 <= u < t ==> #[trigger] row.values[u] <= MAX_VALUE,
        decreases row.values.len() - t,
    {
        if row.values[t] > MAX_VALUE {
            assert(row@.values[t as int] > MAX_VALUE);
            return false;
        }
        t += 1;
    }
    true
}

/// Checks that a list of rows can go into the balance, and gives the number
/// of its time steps.
pub fn check_rows(rows: &Vec<Component>) -> (r: Result<usize, EpbdError>)
    ensures
        match rows_error(component_views(rows@)) {
            Some(e) => r == Err::<usize, EpbdError>(e),
            None => r == Ok::<usize, EpbdError>(steps_of(component_views(rows@)) as usize),
        },
        r.is_ok() <==> rows_valid(component_views(rows@)),
{
    let ghost views = component_views(rows@);
    if rows.len() == 0 {
        return Ok(0);
    }
    let n = rows[0].values.len();
    assert(views[0] == rows[0]@);
    let mut shape_ok = true;
    let mut consistent = true;
    let mut in_range = true;
    let mut i: usize = 0;
    while i < rows.len()
        invariant
            i <= rows.len(),
            rows.len() > 0,
            views == component_views(rows@),
            n == steps_of(views),
            shape_ok <==> forall|j: int| 0 <= j < i ==> (#[trigger] views[j]).values.len() == n,
            consistent <==> forall|j: int| 0 <= j < i ==> row_consistent(#[trigger] views[j]),
            in_range <==> forall|j: int| 0 <= j < i ==> row_in_range(#[trigger] views[j]),
        decreases rows.len() - i,
    {
        assert(views[i as int] == rows[i as int]@);
        if rows[i].values.len() != n {
            shape_ok = false;
        }
        if !is_consistent(&rows[i]) {
            consistent = false;
        }
        if !is_in_range(&rows[i]) {
            in_range = false;
        }
        i += 1;
    }
    if !shape_ok {
        Err(EpbdError::ShapeError)
    } else if !consistent {
        Err(EpbdError::Inconsistent)
    } else if !in_range || rows.len() > MAX_ROWS || n > MAX_STEPS {
        Err(EpbdError::RangeError)
    } else {
        Ok(n)
    }
}

/// What one more row adds to a sum of rows.
pub proof fn lemma_rows_sum_step(rows: Seq<ComponentView>, sel: Selector, k: int, t: int)
    requires
        0 <= k < rows.len(),
    ensures
        rows_sum(rows.take(k + 1), sel, t) == rows_sum(rows.take(k), sel, t) + if sel.takes(
            rows[k],
        ) {
            rows[k].values[t] as int
        } else {
            0
        },
{
    assert(rows.take(k + 1).drop_last() =~= rows.take(k));
}

/// Sum at each of `n` time steps of the rows that the selector takes.
pub fn sum_rows(rows: &Vec<Component>, sel: Selector, n: usize) -> (r: Vec<u64>)
    requires
        rows_valid(component_views(rows@)),
        rows.len() > 0 ==> n == steps_of(component_views(rows@)),
    ensures
        r.len() == n,
        forall|t: int|
            0 <= t < n ==> #[trigger] r[t] == rows_sum(component_views(rows@), sel, t),
        forall|t: int| 0 <= t < n ==> #[trigger] r[t] <= MAX_STEP_SUM,
{
    let ghost views = component_views(rows@);
    let mut acc: Vec<u64> = Vec::new();
    let mut t: usize = 0;
    while t < n
        invariant
            t <= n,
            acc.len() == t,
            forall|u: int| 0 <= u < t ==> #[trigger] acc[u] == 0,
        decreases n - t,
    {
        acc.push(0);
        t += 1;
    }
    let mut k: usize = 0;
    while k < rows.len()
        invariant
            k <= rows.len(),
            views == component_views(rows@),
            rows_valid(views),
            rows.len() > 0 ==> n == steps_of(views),
            acc.len() == n,
            forall|u: int|
                0 <= u < n ==> #[trigger] acc[u] == rows_sum(views.take(k as int), sel, u),
        decreases rows.len() - k,
    {
        assert(views[k as int] == rows[k as int]@);
        assert(row_in_range(views[k as int]));
        if sel.selects(&rows[k]) {
            let row = &rows[k];
            let ghost before = acc@;
            let mut u: usize = 0;
            while u < n
                invariant
                    u <= n,
                    k < rows.len(),
                    acc.len() == n,
                    before.len() == n,
                    row == &rows[k as int],
                    row.values.len() == n,
                    views == component_views(rows@),
                    rows_valid(views),
                    n == steps_of(views),
                    row_in_range(row@),
                    sel.takes(row@),
                    forall|w: int|
                        0 <= w < n ==> #[trigger] before[w] == rows_sum(
                            views.take(k as int),
                            sel,
                            w,
                        ),
                    forall|w: int| 0 <= w < u ==> #[trigger] acc[w] == before[w] + row.values[w],
                    forall|w: int| u <= w < n ==> #[trigger] acc[w] == before[w],
                decreases n - u,
            {
                proof {
                    let head = views.take(k as int);
                    if k > 0 {
                        assert(head[0] == views[0]);
                        assert forall|i: int| 0 <= i < head.len() implies (
                        #[trigger] head[i]).values.len() == steps_of(head) by {
                            assert(head[i] == views[i]);
                        }
                        assert forall|i: int| 0 <= i < head.len() implies row_in_range(
                            #[trigger] head[i],
                        ) by {
                            assert(head[i] == views[i]);
                        }
                        lemma_rows_sum_bounds(head, sel, u as int);
                    }
                    assert(k * MAX_VALUE <= (MAX_ROWS - 1) * MAX_VALUE) by (nonlinear_arith)
                        requires
                            k <= MAX_ROWS - 1,
                    ;
                    assert(row@.values[u as int] <= MAX_VALUE);
                }
                let v: u64 = acc[u] + row.values[u];
                acc.set(u, v);
                u += 1;
            }
            proof {
                assert forall|w: int| 0 <= w < n implies #[trigger] acc[w] == rows_sum(
                    views.take(k + 1),
                    sel,
                    w,
                ) by {
                    lemma_rows_sum_step(views, sel, k as int, w);
                }
            }
        } else {
            proof {
                assert forall|w: int| 0 <= w < n implies #[trigger] acc[w] == rows_sum(
                    views.take(k + 1),
                    sel,
                    w,
                ) by {
                    lemma_rows_sum_step(views, sel, k as int, w);
                }
            }
        }
        k += 1;
    }
    proof {
        assert(views.take(rows.len() as int) =~= views);
        assert forall|w: int| 0 <= w < n implies #[trigger] acc[w] <= MAX_STEP_SUM by {
            if rows.len() > 0 {
                lemma_rows_sum_bounds(views, sel, w);
                assert(views.len() * MAX_VALUE <= MAX_ROWS * MAX_VALUE) by (nonlinear_arith)
                    requires
                        views.len() <= MAX_ROWS,
                ;
            }
        }
    }
    acc
}

} // verus!
