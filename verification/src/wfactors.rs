//! Weighting factor table: lookup of the factor of a carrier for an origin,
//! a destination and a step.
use vstd::prelude::*;

use crate::rennrenco2::RenNrenCo2;
use crate::rennrenco2::Triple;
use crate::types::factor_views;
use crate::types::Carrier;
use crate::types::Dest;
use crate::types::Factor;
use crate::types::FactorView;
use crate::types::Source;
use crate::types::Step;

verus! {

/// Largest absolute value of a part of a weighting factor, in thousandths.
pub const MAX_FACTOR: i128 = 1_000_000;

/// What a weighting factor is looked up by.
#[derive(Debug, Copy, Clone, PartialEq, Eq, Structural)]
pub struct FactorKey {
    /// Energy carrier.
    pub carrier: Carrier,
    /// Origin of the energy.
    pub source: Source,
    /// Destination of the energy.
    pub dest: Dest,
    /// Calculation step.
    pub step: Step,
}

impl FactorKey {
    /// Whether the row is one for this key.
    pub open spec fn fits(self, row: FactorView) -> bool {
        row.carrier == self.carrier && row.source == self.source && row.dest == self.dest
            && row.step == self.step
    }

    /// Whether the row is one for this key.
    pub fn is_key_of(&self, row: &Factor) -> (b: bool)
        ensures
            b == self.fits(row@),
    {
        row.carrier == self.carrier && row.source == self.source && row.dest == self.dest
            && row.step == self.step
    }
}

/// The key of a carrier, an origin, a destination and a step.
pub open spec fn key(carrier: Carrier, source: Source, dest: Dest, step: Step) -> FactorKey {
    FactorKey { carrier, source, dest, step }
}

/// Position of the first row for the key, if there is one.
pub open spec fn find_row(rows: Seq<FactorView>, k: FactorKey) -> Option<int>
    decreases rows.len(),
{
    if rows.len() == 0 {
        None
    } else {
        match find_row(rows.drop_last(), k) {
            Some(i) => Some(i),
            None => if k.fits(rows.last()) {
                Some(rows.len() - 1)
            } else {
                None
            },
        }
    }
}

/// The factor of the first row for the key, if there is one.
pub open spec fn find_factor(rows: Seq<FactorView>, k: FactorKey) -> Option<Triple> {
    match find_row(rows, k) {
        Some(i) => Some(rows[i].factors@),
        None => None,
    }
}

/// The factor of the first row for the key, and zero where there is none.
pub open spec fn weight(rows: Seq<FactorView>, k: FactorKey) -> Triple {
    match find_factor(rows, k) {
        Some(f) => f,
        None => Triple::zero(),
    }
}

/// Whether every part of every factor is within the limit.
pub open spec fn factors_in_range(rows: Seq<FactorView>) -> bool {
    forall|i: int| 0 <= i < rows.len() ==> (#[trigger] rows[i]).factors@.within(MAX_FACTOR as int)
}

/// The row that a lookup finds is the first row for the key.
pub proof fn lemma_find_row(rows: Seq<FactorView>, k: FactorKey)
    ensures
        match find_row(rows, k) {
            Some(i) => 0 <= i < rows.len() && k.fits(rows[i]) && forall|j: int|
                0 <= j < i ==> !k.fits(#[trigger] rows[j]),
            None => forall|j: int| 0 <= j < rows.len() ==> !k.fits(#[trigger] rows[j]),
        },
    decreases rows.len(),
{
    if rows.len() > 0 {
        lemma_find_row(rows.drop_last(), k);
        let head = rows.drop_last();
        assert forall|j: int| 0 <= j < head.len() implies head[j] == rows[j] by {}
        match find_row(head, k) {
            Some(i) => {
                assert(head[i] == rows[i]);
                assert forall|j: int| 0 <= j < i implies !k.fits(#[trigger] rows[j]) by {
                    assert(head[j] == rows[j]);
                }
            },
            None => {
                assert forall|j: int| 0 <= j < rows.len() - 1 implies !k.fits(
                    #[trigger] rows[j],
                ) by {
                    assert(head[j] == rows[j]);
                }
            },
        }
    }
}

/// A lookup in the first `n + 1` rows, from the lookup in the first `n`.
pub proof fn lemma_find_row_step(rows: Seq<FactorView>, k: FactorKey, n: int)
    requires
        0 <= n < rows.len(),
    ensures
        find_row(rows.take(n + 1), k) == match find_row(rows.take(n), k) {
            Some(i) => Some(i),
            None => if k.fits(rows[n]) {
                Some(n)
            } else {
                None
            },
        },
{
    assert(rows.take(n + 1).drop_last() =~= rows.take(n));
}

/// A weight of a table within the limit is within the limit.
pub proof fn lemma_weight_in_range(rows: Seq<FactorView>, k: FactorKey)
    requires
        factors_in_range(rows),
    ensures
        weight(rows, k).within(MAX_FACTOR as int),
{
    lemma_find_row(rows, k);
}

/// The factor of the first row for the key, if there is one.
pub fn lookup(rows: &Vec<Factor>, k: FactorKey) -> (r: Option<RenNrenCo2>)
    ensures
        match r {
            Some(f) => find_factor(factor_views(rows@), k) == Some(f@),
            None => find_factor(factor_views(rows@), k) is None,
        },
{
    let ghost views = factor_views(rows@);
    let mut i: usize = 0;
    while i < rows.len()
        invariant
            i <= rows.len(),
            views == factor_views(rows@),
            find_row(views.take(i as int), k) is None,
        decreases rows.len() - i,
    {
        proof {
            lemma_find_row_step(views, k, i as int);
            assert(views[i as int] == rows[i as int]@);
        }
        if k.is_key_of(&rows[i]) {
            proof {
                lemma_find_rest(views, k, i as int, rows.len() as int);
                assert(views.take(rows.len() as int) =~= views);
            }
            return Some(rows[i].factors());
        }
        i += 1;
    }
    assert(views.take(rows.len() as int) =~= views);
    None
}

/// Once a row is found among the first rows, more rows change nothing.
pub proof fn lemma_find_rest(rows: Seq<FactorView>, k: FactorKey, i: int, n: int)
    requires
        0 <= i < n <= rows.len(),
        find_row(rows.take(i + 1), k) == Some(i),
    ensures
        find_row(rows.take(n), k) == Some(i),
    decreases n - i,
{
    if n > i + 1 {
        lemma_find_rest(rows, k, i, n - 1);
        lemma_find_row_step(rows, k, n - 1);
    }
}

/// The weight of the key: the factor of its first row, or zero.
pub fn weight_of(rows: &Vec<Factor>, k: FactorKey) -> (r: RenNrenCo2)
    ensures
        r@ == weight(factor_views(rows@), k),
{
    match lookup(rows, k) {
        Some(f) => f,
        None => RenNrenCo2::new(),
    }
}

/// Whether every part of every factor of the table is within the limit.
pub fn check_factor_range(rows: &Vec<Factor>) -> (b: bool)
    ensures
        b == factors_in_range(factor_views(rows@)),
{
    let ghost views = factor_views(rows@);
    let mut i: usize = 0;
    while i < rows.len()
        invariant
            i <= rows.len(),
            views == factor_views(rows@),
            forall|j: int| 0 <= j < i ==> (#[trigger] views[j]).factors@.within(MAX_FACTOR as int),
        decreases rows.len() - i,
    {
        let f = &rows[i];
        assert(views[i as int] == f@);
        if f.ren > MAX_FACTOR || f.ren < -MAX_FACTOR || f.nren > MAX_FACTOR || f.nren
            < -MAX_FACTOR || f.co2 > MAX_FACTOR || f.co2 < -MAX_FACTOR {
            assert(!views[i as int].factors@.within(MAX_FACTOR as int));
            return false;
        }
        i += 1;
    }
    true
}

} // verus!
