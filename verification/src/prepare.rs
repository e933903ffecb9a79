//! Preparation of the weighting factor table: the rows of the carriers in
//! use, the factors that the user defines, the factors of step B that the
//! table leaves out, and the table for the nearby perimeter.
use vstd::prelude::*;

use crate::balance::carrier_present;
use crate::error::EpbdError;
use crate::performance::has_production;
use crate::performance::produces;
use crate::types::CSubtype;
use crate::wfactors::check_factor_range;
use crate::wfactors::factors_in_range;
use crate::wfactors::lemma_find_rest;
use crate::wfactors::lookup;
use crate::wfactors::MAX_FACTOR;
use crate::engine::has_carrier;
use crate::rennrenco2::RenNrenCo2;
use crate::rennrenco2::Triple;
use crate::types::component_views;
use crate::types::factor_views;
use crate::types::Carrier;
use crate::types::Component;
use crate::types::ComponentView;
use crate::types::Dest;
use crate::types::Factor;
use crate::types::FactorView;
use crate::types::Source;
use crate::types::Step;
use crate::wfactors::find_factor;
use crate::wfactors::find_row;
use crate::wfactors::key;
use crate::wfactors::lemma_find_row;
use crate::wfactors::lemma_find_row_step;
use crate::wfactors::FactorKey;

verus! {

/// The rows of the carriers that the components use, in their order.
pub open spec fn stripped(rows: Seq<FactorView>, comps: Seq<ComponentView>) -> Seq<FactorView>
    decreases rows.len(),
{
    if rows.len() == 0 {
        rows
    } else if carrier_present(comps, rows.last().carrier) {
        stripped(rows.drop_last(), comps).push(rows.last())
    } else {
        stripped(rows.drop_last(), comps)
    }
}

/// Every row that is left is a row of a carrier that the components use.
pub proof fn lemma_stripped_present(rows: Seq<FactorView>, comps: Seq<ComponentView>)
    ensures
        forall|i: int|
            0 <= i < stripped(rows, comps).len() ==> carrier_present(
                comps,
                (#[trigger] stripped(rows, comps)[i]).carrier,
            ),
        stripped(rows, comps).len() <= rows.len(),
    decreases rows.len(),
{
    if rows.len() > 0 {
        lemma_stripped_present(rows.drop_last(), comps);
    }
}

/// The factor of a carrier that the components use is found in what is
/// left as it is found in the table.
pub proof fn lemma_stripped_find(rows: Seq<FactorView>, comps: Seq<ComponentView>, k: FactorKey)
    requires
        carrier_present(comps, k.carrier),
    ensures
        find_factor(stripped(rows, comps), k) == find_factor(rows, k),
    decreases rows.len(),
{
    if rows.len() > 0 {
        let head = rows.drop_last();
        lemma_stripped_find(head, comps, k);
        lemma_find_row(head, k);
        lemma_find_row(stripped(head, comps), k);
        lemma_find_row(rows, k);
        lemma_find_row(stripped(rows, comps), k);
        let s = stripped(rows, comps);
        let sh = stripped(head, comps);
        if carrier_present(comps, rows.last().carrier) {
            assert(s == sh.push(rows.last()));
            assert(s.drop_last() =~= sh);
            assert(s.last() == rows.last());
            match find_row(head, k) {
                Some(i) => {
                    assert(head[i] == rows[i]);
                },
                None => {},
            }
        } else {
            assert(!k.fits(rows.last()));
            match find_row(head, k) {
                Some(i) => {
                    assert(head[i] == rows[i]);
                },
                None => {},
            }
        }
    }
}

/// One more row: what is left of the first `n + 1` rows, from what is left
/// of the first `n`.
pub proof fn lemma_stripped_step(rows: Seq<FactorView>, comps: Seq<ComponentView>, n: int)
    requires
        0 <= n < rows.len(),
    ensures
        stripped(rows.take(n + 1), comps) == if carrier_present(comps, rows[n].carrier) {
            stripped(rows.take(n), comps).push(rows[n])
        } else {
            stripped(rows.take(n), comps)
        },
{
    assert(rows.take(n + 1).drop_last() =~= rows.take(n));
}

/// Drops every row whose carrier the components do not use.
pub fn strip_rows(rows: &Vec<Factor>, comps: &Vec<Component>) -> (r: Vec<Factor>)
    ensures
        factor_views(r@) == stripped(factor_views(rows@), component_views(comps@)),
{
    let ghost views = factor_views(rows@);
    let ghost cv = component_views(comps@);
    let mut r: Vec<Factor> = Vec::new();
    let mut i: usize = 0;
    assert(factor_views(r@) =~= stripped(views.take(0), cv));
    while i < rows.len()
        invariant
            i <= rows.len(),
            views == factor_views(rows@),
            cv == component_views(comps@),
            factor_views(r@) == stripped(views.take(i as int), cv),
        decreases rows.len() - i,
    {
        proof {
            lemma_stripped_step(views, cv, i as int);
            assert(views[i as int] == rows[i as int]@);
        }
        if has_carrier(comps, rows[i].carrier) {
            let ghost before = factor_views(r@);
            r.push(rows[i].duplicate());
            assert(factor_views(r@) =~= before.push(rows[i as int]@));
        }
        i += 1;
    }
    assert(views.take(rows.len() as int) =~= views);
    r
}

/// Whether a row is rewritten for the nearby perimeter: its carrier is not
/// electricity and its energy does not come from the building itself.
pub open spec fn is_distant(row: FactorView) -> bool {
    row.carrier != Carrier::ELECTRICIDAD && row.source != Source::INSITU
}

/// A row for the nearby perimeter: a distant row has its factor replaced
/// by zero, any other row stays as it is.
pub open spec fn nearby_row(row: FactorView) -> FactorView {
    if is_distant(row) {
        FactorView {
            carrier: row.carrier,
            source: row.source,
            dest: row.dest,
            step: row.step,
            factors: RenNrenCo2 { ren: 0, nren: 0, co2: 0 },
            comment: row.comment,
        }
    } else {
        row
    }
}

/// The table for the nearby perimeter.
pub open spec fn nearby(rows: Seq<FactorView>) -> Seq<FactorView> {
    Seq::new(rows.len(), |i: int| nearby_row(rows[i]))
}

/// Rewrites the rows for the nearby perimeter: the factor of every row of
/// a carrier other than electricity whose energy does not come from the
/// building itself becomes zero.
pub fn nearby_rows(rows: &Vec<Factor>) -> (r: Vec<Factor>)
    ensures
        factor_views(r@) == nearby(factor_views(rows@)),
{
    let mut r: Vec<Factor> = Vec::new();
    let mut i: usize = 0;
    while i < rows.len()
        invariant
            i <= rows.len(),
            r.len() == i,
            forall|j: int| 0 <= j < i ==> (#[trigger] r[j])@ == nearby_row(rows[j]@),
        decreases rows.len() - i,
    {
        let row = &rows[i];
        let mut copy = row.duplicate();
        if row.carrier != Carrier::ELECTRICIDAD && row.source != Source::INSITU {
            copy.ren = 0;
            copy.nren = 0;
            copy.co2 = 0;
        }
        r.push(copy);
        i += 1;
    }
    assert(factor_views(r@) =~= nearby(factor_views(rows@)));
    r
}

/// The lookup in the nearby table finds the row that the lookup in the
/// table finds, rewritten.
pub proof fn lemma_nearby_find(rows: Seq<FactorView>, k: FactorKey)
    ensures
        find_row(nearby(rows), k) == find_row(rows, k),
    decreases rows.len(),
{
    if rows.len() > 0 {
        lemma_nearby_find(rows.drop_last(), k);
        assert(nearby(rows).drop_last() =~= nearby(rows.drop_last()));
        assert(nearby(rows).last() == nearby_row(rows.last()));
    }
}

/// The row of a key with a factor and a comment.
pub open spec fn row_of(k: FactorKey, factors: RenNrenCo2, comment: Seq<char>) -> FactorView {
    FactorView {
        carrier: k.carrier,
        source: k.source,
        dest: k.dest,
        step: k.step,
        factors,
        comment,
    }
}

/// The table with the factor of a key set: the first row for the key is
/// replaced, or, where there is none, a row is added at the end.
pub open spec fn with_factor(
    rows: Seq<FactorView>,
    k: FactorKey,
    factors: RenNrenCo2,
    comment: Seq<char>,
) -> Seq<FactorView> {
    match find_row(rows, k) {
        Some(i) => rows.update(i, row_of(k, factors, comment)),
        None => rows.push(row_of(k, factors, comment)),
    }
}

/// Position of the first row for the key, if there is one.
pub fn position(rows: &Vec<Factor>, k: FactorKey) -> (r: Option<usize>)
    ensures
        match r {
            Some(i) => find_row(factor_views(rows@), k) == Some(i as int) && i < rows.len(),
            None => find_row(factor_views(rows@), k) is None,
        },
{
    let ghost views = factor_views(rows@);
    let mut i: usize = 0;
    while i < rows.len()
        invariant
            i <= rows.len(),
            views == factor_views(rows@),
            find_row(views.take(i as int), k) is None,
        decreases rows.len() - i,
    {
        proof {
            lemma_find_row_step(views, k, i as int);
            assert(views[i as int] == rows[i as int]@);
        }
        if k.is_key_of(&rows[i]) {
            proof {
                lemma_find_rest(views, k, i as int, rows.len() as int);
                assert(views.take(rows.len() as int) =~= views);
            }
            return Some(i);
        }
        i += 1;
    }
    assert(views.take(rows.len() as int) =~= views);
    None
}

/// Sets the factor of a key: replaces the first row for the key or, where
/// there is none, adds a row at the end.
pub fn set_factor(rows: &mut Vec<Factor>, k: FactorKey, factors: RenNrenCo2, comment: String)
    ensures
        factor_views(final(rows)@) == with_factor(
            factor_views(old(rows)@),
            k,
            factors,
            comment@,
        ),
{
    let ghost before = factor_views(rows@);
    let row = Factor::new(k.carrier, k.source, k.dest, k.step, factors, comment);
    match position(rows, k) {
        Some(i) => {
            rows.set(i, row);
            assert(factor_views(rows@) =~= before.update(i as int, row_of(k, factors, comment@)));
        },
        None => {
            rows.push(row);
            assert(factor_views(rows@) =~= before.push(row_of(k, factors, comment@)));
        },
    }
}

/// After the factor of a key is set, a lookup finds it for that key, and
/// for any other key what it found before.
pub proof fn lemma_with_factor_find(
    rows: Seq<FactorView>,
    k: FactorKey,
    factors: RenNrenCo2,
    comment: Seq<char>,
    other: FactorKey,
)
    ensures
        find_factor(with_factor(rows, k, factors, comment), k) == Some(factors@),
        other != k ==> find_factor(with_factor(rows, k, factors, comment), other) == find_factor(
            rows,
            other,
        ),
{
    let out = with_factor(rows, k, factors, comment);
    lemma_find_row(rows, k);
    lemma_find_row(out, k);
    lemma_find_row(rows, other);
    lemma_find_row(out, other);
    match find_row(rows, k) {
        Some(i) => {
            assert(out[i] == row_of(k, factors, comment));
            assert forall|j: int| 0 <= j < rows.len() && j != i implies out[j] == rows[j] by {}
            match find_row(out, k) {
                Some(j) => {
                    if j < i {
                        assert(out[j] == rows[j]);
                    }
                },
                None => {},
            }
            if other != k {
                assert(!other.fits(out[i]));
                assert(!other.fits(rows[i]));
                match find_row(rows, other) {
                    Some(a) => {
                        assert(out[a] == rows[a]);
                        match find_row(out, other) {
                            Some(b) => {
                                assert(out[b] == rows[b]);
                            },
                            None => {},
                        }
                    },
                    None => {
                        match find_row(out, other) {
                            Some(b) => {
                                assert(out[b] == rows[b]);
                            },
                            None => {},
                        }
                    },
                }
            }
        },
        None => {
            let n = rows.len() as int;
            assert(out[n] == row_of(k, factors, comment));
            assert forall|j: int| 0 <= j < n implies out[j] == rows[j] by {}
            match find_row(out, k) {
                Some(j) => {
                    if j < n {
                        assert(out[j] == rows[j]);
                    }
                },
                None => {},
            }
            if other != k {
                assert(!other.fits(out[n]));
                match find_row(rows, other) {
                    Some(a) => {
                        assert(out[a] == rows[a]);
                        match find_row(out, other) {
                            Some(b) => {
                                if b < n {
                                    assert(out[b] == rows[b]);
                                }
                            },
                            None => {},
                        }
                    },
                    None => {
                        match find_row(out, other) {
                            Some(b) => {
                                if b < n {
                                    assert(out[b] == rows[b]);
                                }
                            },
                            None => {},
                        }
                    },
                }
            }
        },
    }
}

/// Weighting factors that the user defines.
#[derive(Debug, Copy, Clone)]
pub struct CteUserWF {
    /// Factor of the energy that district network 1 delivers.
    pub red1: Option<RenNrenCo2>,
    /// Factor of the energy that district network 2 delivers.
    pub red2: Option<RenNrenCo2>,
    /// Factor of the cogenerated electricity exported to the grid.
    pub cogen_to_grid: Option<RenNrenCo2>,
    /// Factor of the cogenerated electricity exported to non EPB uses.
    pub cogen_to_nepb: Option<RenNrenCo2>,
}

/// Whether a factor, where there is one, is within the limit.
pub open spec fn option_in_range(f: Option<RenNrenCo2>) -> bool {
    match f {
        Some(x) => x@.within(MAX_FACTOR as int),
        None => true,
    }
}

impl CteUserWF {
    /// Whether every factor that is defined is within the limit.
    pub open spec fn in_range(self) -> bool {
        option_in_range(self.red1) && option_in_range(self.red2) && option_in_range(
            self.cogen_to_grid,
        ) && option_in_range(self.cogen_to_nepb)
    }
}

/// Whether a factor, where there is one, is within the limit.
pub fn check_option(f: Option<RenNrenCo2>) -> (b: bool)
    ensures
        b == option_in_range(f),
{
    match f {
        Some(x) => -MAX_FACTOR <= x.ren && x.ren <= MAX_FACTOR && -MAX_FACTOR <= x.nren && x.nren
            <= MAX_FACTOR && -MAX_FACTOR <= x.co2 && x.co2 <= MAX_FACTOR,
        None => true,
    }
}

/// The zero factor, or the factor that the user defines.
pub open spec fn or_zero(f: Option<RenNrenCo2>) -> RenNrenCo2 {
    match f {
        Some(x) => x,
        None => RenNrenCo2 { ren: 0, nren: 0, co2: 0 },
    }
}

/// The table with the factor of a district network: that of the user,
/// where there is one; else the table as it is, which must hold the factor
/// if the components use the network.
pub open spec fn with_network(
    rows: Seq<FactorView>,
    c: Carrier,
    user: Option<RenNrenCo2>,
    comps: Seq<ComponentView>,
) -> Result<Seq<FactorView>, EpbdError> {
    let k = key(c, Source::RED, Dest::input, Step::A);
    match user {
        Some(f) => Ok(with_factor(rows, k, f, "Factor de usuario"@)),
        None => if carrier_present(comps, c) && find_row(rows, k) is None {
            Err(EpbdError::MissingFactor(c, Source::RED, Dest::input, Step::A))
        } else {
            Ok(rows)
        },
    }
}

/// Sets the factor of a district network as the user defines it, or checks
/// that the table holds it if the components use the network.
pub fn set_network(
    rows: &mut Vec<Factor>,
    c: Carrier,
    user: Option<RenNrenCo2>,
    comps: &Vec<Component>,
) -> (r: Result<(), EpbdError>)
    ensures
        match with_network(factor_views(old(rows)@), c, user, component_views(comps@)) {
            Ok(out) => r is Ok && factor_views(final(rows)@) == out,
            Err(e) => r == Err::<(), EpbdError>(e) && factor_views(final(rows)@) == factor_views(
                old(rows)@,
            ),
        },
{
    let k = FactorKey { carrier: c, source: Source::RED, dest: Dest::input, step: Step::A };
    match user {
        Some(f) => {
            set_factor(rows, k, f, String::from_str("Factor de usuario"));
            Ok(())
        },
        None => {
            if has_carrier(comps, c) && position(rows, k).is_none() {
                Err(EpbdError::MissingFactor(c, Source::RED, Dest::input, Step::A))
            } else {
                Ok(())
            }
        },
    }
}

/// The table with the factors of cogenerated electricity, where the
/// components produce some: used in the building it weighs nothing, as the
/// fuel of the cogenerator is weighted; exported to the grid and to non EPB
/// uses it has the factor that the user defines, else zero.
pub open spec fn with_cogen(
    rows: Seq<FactorView>,
    to_grid: Option<RenNrenCo2>,
    to_nepb: Option<RenNrenCo2>,
    comps: Seq<ComponentView>,
) -> Seq<FactorView> {
    if has_production(comps, Carrier::ELECTRICIDAD, CSubtype::COGENERACION) {
        let c = Carrier::ELECTRICIDAD;
        let s = Source::COGENERACION;
        with_factor(
            with_factor(
                with_factor(
                    rows,
                    key(c, s, Dest::input, Step::A),
                    or_zero(None),
                    "Recursos contabilizados en el vector que alimenta el cogenerador"@,
                ),
                key(c, s, Dest::to_grid, Step::A),
                or_zero(to_grid),
                "Factor de usuario o nulo para electricidad cogenerada a la red"@,
            ),
            key(c, s, Dest::to_nEPB, Step::A),
            or_zero(to_nepb),
            "Factor de usuario o nulo para electricidad cogenerada a usos no EPB"@,
        )
    } else {
        rows
    }
}

/// The factor that the user defines, or zero.
pub fn value_or_zero(f: Option<RenNrenCo2>) -> (r: RenNrenCo2)
    ensures
        r == or_zero(f),
{
    match f {
        Some(x) => x,
        None => RenNrenCo2 { ren: 0, nren: 0, co2: 0 },
    }
}

/// Sets the factors of cogenerated electricity, where the components
/// produce some.
pub fn set_cogen(
    rows: &mut Vec<Factor>,
    to_grid: Option<RenNrenCo2>,
    to_nepb: Option<RenNrenCo2>,
    comps: &Vec<Component>,
)
    ensures
        factor_views(final(rows)@) == with_cogen(
            factor_views(old(rows)@),
            to_grid,
            to_nepb,
            component_views(comps@),
        ),
{
    if produces(comps, Carrier::ELECTRICIDAD, CSubtype::COGENERACION) {
        let c = Carrier::ELECTRICIDAD;
        let s = Source::COGENERACION;
        set_factor(
            rows,
            FactorKey { carrier: c, source: s, dest: Dest::input, step: Step::A },
            value_or_zero(None),
            String::from_str("Recursos contabilizados en el vector que alimenta el cogenerador"),
        );
        set_factor(
            rows,
            FactorKey { carrier: c, source: s, dest: Dest::to_grid, step: Step::A },
            value_or_zero(to_grid),
            String::from_str("Factor de usuario o nulo para electricidad cogenerada a la red"),
        );
        set_factor(
            rows,
            FactorKey { carrier: c, source: s, dest: Dest::to_nEPB, step: Step::A },
            value_or_zero(to_nepb),
            String::from_str("Factor de usuario o nulo para electricidad cogenerada a usos no EPB"),
        );
    }
}

/// Whether the row at position `i` is an export row of step A of energy
/// produced in the building, the first for its key, without a row of step
/// B for the same carrier, origin and destination.
pub open spec fn lacks_step_b(rows: Seq<FactorView>, i: int) -> bool {
    let r = rows[i];
    &&& r.source != Source::RED
    &&& r.dest != Dest::input
    &&& r.step == Step::A
    &&& find_row(rows, key(r.carrier, r.source, r.dest, Step::A)) == Some(i)
    &&& find_row(rows, key(r.carrier, r.source, r.dest, Step::B)) is None
}

/// The factor of step B that is derived from that of step A: it plus the
/// difference between the factor of the energy that the export displaces
/// in the grid and the factor of the energy that the grid delivers.
pub open spec fn derived_factor(a: RenNrenCo2, displaced: Triple, delivered: Triple)
    -> RenNrenCo2 {
    RenNrenCo2 {
        ren: (a.ren + displaced.ren - delivered.ren) as i128,
        nren: (a.nren + displaced.nren - delivered.nren) as i128,
        co2: (a.co2 + displaced.co2 - delivered.co2) as i128,
    }
}

/// The row of step B that is derived for the row at position `i`, or the
/// factor of the grid that is missing for it.
pub open spec fn derived_row(rows: Seq<FactorView>, i: int) -> Result<FactorView, EpbdError> {
    let r = rows[i];
    let displaced = find_factor(rows, key(r.carrier, Source::RED, r.dest, Step::A));
    let delivered = find_factor(rows, key(r.carrier, Source::RED, Dest::input, Step::A));
    if displaced is None {
        Err(EpbdError::MissingFactor(r.carrier, Source::RED, r.dest, Step::A))
    } else if delivered is None {
        Err(EpbdError::MissingFactor(r.carrier, Source::RED, Dest::input, Step::A))
    } else {
        Ok(
            row_of(
                key(r.carrier, r.source, r.dest, Step::B),
                derived_factor(r.factors, displaced.unwrap(), delivered.unwrap()),
                "Recursos evitados por la exportacion (paso B derivado)"@,
            ),
        )
    }
}

/// The rows of step B that are derived for the first `i` rows, in their
/// order, or the first factor of the grid that is missing for one.
pub open spec fn derived_rows(rows: Seq<FactorView>, i: int) -> Result<Seq<FactorView>, EpbdError>
    decreases i,
{
    if i <= 0 {
        Ok(Seq::empty())
    } else {
        match derived_rows(rows, i - 1) {
            Err(e) => Err(e),
            Ok(acc) => if lacks_step_b(rows, i - 1) {
                match derived_row(rows, i - 1) {
                    Err(e) => Err(e),
                    Ok(row) => Ok(acc.push(row)),
                }
            } else {
                Ok(acc)
            },
        }
    }
}

/// The table with the rows of step B that it leaves out, derived and added
/// at its end.
pub open spec fn with_step_b(rows: Seq<FactorView>) -> Result<Seq<FactorView>, EpbdError> {
    match derived_rows(rows, rows.len() as int) {
        Err(e) => Err(e),
        Ok(more) => Ok(rows + more),
    }
}

/// Derives the rows of step B for the export rows of step A that have
/// none, and adds them at the end of the table.
pub fn derive_step_b(rows: &mut Vec<Factor>) -> (r: Result<(), EpbdError>)
    requires
        factors_in_range(factor_views(old(rows)@)),
    ensures
        match with_step_b(factor_views(old(rows)@)) {
            Ok(out) => r is Ok && factor_views(final(rows)@) == out,
            Err(e) => r == Err::<(), EpbdError>(e) && factor_views(final(rows)@) == factor_views(
                old(rows)@,
            ),
        },
{
    let ghost orig = factor_views(rows@);
    let n = rows.len();
    let mut more: Vec<Factor> = Vec::new();
    let mut i: usize = 0;
    assert(factor_views(more@) =~= Seq::<FactorView>::empty());
    while i < n
        invariant
            i <= n,
            n == rows.len(),
            orig == factor_views(rows@),
            factors_in_range(orig),
            derived_rows(orig, i as int) == Ok::<Seq<FactorView>, EpbdError>(factor_views(more@)),
        decreases n - i,
    {
        let row = &rows[i];
        assert(orig[i as int] == row@);
        if row.source != Source::RED && row.dest != Dest::input && row.step == Step::A {
            let ka = FactorKey {
                carrier: row.carrier,
                source: row.source,
                dest: row.dest,
                step: Step::A,
            };
            let kb = FactorKey {
                carrier: row.carrier,
                source: row.source,
                dest: row.dest,
                step: Step::B,
            };
            let first = position(rows, ka);
            if first == Some(i) && position(rows, kb).is_none() {
                assert(lacks_step_b(orig, i as int));
                let kd = FactorKey {
                    carrier: row.carrier,
                    source: Source::RED,
                    dest: row.dest,
                    step: Step::A,
                };
                let kg = FactorKey {
                    carrier: row.carrier,
                    source: Source::RED,
                    dest: Dest::input,
                    step: Step::A,
                };
                proof {
                    crate::wfactors::lemma_weight_in_range(orig, kd);
                    crate::wfactors::lemma_weight_in_range(orig, kg);
                }
                let displaced = match lookup(rows, kd) {
                    Some(f) => f,
                    None => {
                        proof {
                            lemma_derived_error_stays(orig, i as int + 1, n as int);
                        }
                        return Err(
                            EpbdError::MissingFactor(row.carrier, Source::RED, row.dest, Step::A),
                        );
                    },
                };
                let delivered = match lookup(rows, kg) {
                    Some(f) => f,
                    None => {
                        proof {
                            lemma_derived_error_stays(orig, i as int + 1, n as int);
                        }
                        return Err(
                            EpbdError::MissingFactor(
                                row.carrier,
                                Source::RED,
                                Dest::input,
                                Step::A,
                            ),
                        );
                    },
                };
                let f = RenNrenCo2 {
                    ren: row.ren + displaced.ren - delivered.ren,
                    nren: row.nren + displaced.nren - delivered.nren,
                    co2: row.co2 + displaced.co2 - delivered.co2,
                };
                let ghost before = factor_views(more@);
                more.push(
                    Factor::new(
                        row.carrier,
                        row.source,
                        row.dest,
                        Step::B,
                        f,
                        String::from_str("Recursos evitados por la exportacion (paso B derivado)"),
                    ),
                );
                assert(factor_views(more@) =~= before.push(derived_row(orig, i as int).unwrap()));
            } else {
                assert(!lacks_step_b(orig, i as int));
            }
        } else {
            assert(!lacks_step_b(orig, i as int));
        }
        i += 1;
    }
    let ghost added = factor_views(more@);
    let mut j: usize = 0;
    while j < more.len()
        invariant
            j <= more.len(),
            added == factor_views(more@),
            factor_views(rows@) == orig + added.take(j as int),
        decreases more.len() - j,
    {
        let ghost before = factor_views(rows@);
        rows.push(more[j].duplicate());
        proof {
            assert(added[j as int] == more[j as int]@);
            assert(factor_views(rows@) =~= before.push(added[j as int]));
            assert(orig + added.take(j + 1) =~= (orig + added.take(j as int)).push(added[j as int]));
        }
        j += 1;
    }
    assert(added.take(more.len() as int) =~= added);
    Ok(())
}

/// An error in the derivation for the first rows is the error of the
/// derivation for more rows.
pub proof fn lemma_derived_error_stays(rows: Seq<FactorView>, i: int, j: int)
    requires
        0 <= i <= j,
        derived_rows(rows, i) is Err,
    ensures
        derived_rows(rows, j) == derived_rows(rows, i),
    decreases j - i,
{
    if j > i {
        lemma_derived_error_stays(rows, i, j - 1);
    }
}

/// What is left of a table within the limit is within the limit.
pub proof fn lemma_stripped_in_range(rows: Seq<FactorView>, comps: Seq<ComponentView>)
    requires
        factors_in_range(rows),
    ensures
        factors_in_range(stripped(rows, comps)),
    decreases rows.len(),
{
    if rows.len() > 0 {
        let head = rows.drop_last();
        assert forall|i: int| 0 <= i < head.len() implies (#[trigger] head[i]).factors@.within(
            MAX_FACTOR as int,
        ) by {
            assert(head[i] == rows[i]);
        }
        lemma_stripped_in_range(head, comps);
        assert(rows.last() == rows[rows.len() - 1]);
    }
}

/// A table within the limit with a factor within the limit set is within
/// the limit.
pub proof fn lemma_with_factor_in_range(
    rows: Seq<FactorView>,
    k: FactorKey,
    factors: RenNrenCo2,
    comment: Seq<char>,
)
    requires
        factors_in_range(rows),
        factors@.within(MAX_FACTOR as int),
    ensures
        factors_in_range(with_factor(rows, k, factors, comment)),
{
    lemma_find_row(rows, k);
    let out = with_factor(rows, k, factors, comment);
    assert forall|i: int| 0 <= i < out.len() implies (#[trigger] out[i]).factors@.within(
        MAX_FACTOR as int,
    ) by {
        if i < rows.len() && out[i] != row_of(k, factors, comment) {
            assert(out[i] == rows[i]);
        }
    }
}

/// The prepared table: the rows of the carriers that the components use,
/// with the factors of the district networks and of cogenerated
/// electricity that the user defines, and with the rows of step B that the
/// table leaves out. A factor beyond the limit is a `RangeError`; a factor
/// that is needed for the preparation and missing is a `MissingFactor`.
pub open spec fn prepared(base: Seq<FactorView>, user: CteUserWF, comps: Seq<ComponentView>)
    -> Result<Seq<FactorView>, EpbdError> {
    if !factors_in_range(base) || !user.in_range() {
        Err(EpbdError::RangeError)
    } else {
        match with_network(stripped(base, comps), Carrier::RED1, user.red1, comps) {
            Err(e) => Err(e),
            Ok(with_red1) => match with_network(with_red1, Carrier::RED2, user.red2, comps) {
                Err(e) => Err(e),
                Ok(with_red2) => with_step_b(
                    with_cogen(with_red2, user.cogen_to_grid, user.cogen_to_nepb, comps),
                ),
            },
        }
    }
}

/// Prepares the rows of a weighting factor table for the components.
pub fn prepare_rows(base: &Vec<Factor>, user: &CteUserWF, comps: &Vec<Component>) -> (r: Result<
    Vec<Factor>,
    EpbdError,
>)
    ensures
        match prepared(factor_views(base@), *user, component_views(comps@)) {
            Ok(out) => r is Ok && factor_views(r.unwrap()@) == out,
            Err(e) => r == Err::<Vec<Factor>, EpbdError>(e),
        },
{
    let ghost bv = factor_views(base@);
    let ghost cv = component_views(comps@);
    if !check_factor_range(base) || !check_option(user.red1) || !check_option(user.red2)
        || !check_option(user.cogen_to_grid) || !check_option(user.cogen_to_nepb) {
        return Err(EpbdError::RangeError);
    }
    let mut rows = strip_rows(base, comps);
    let ghost seeded = factor_views(rows@);
    proof {
        lemma_stripped_in_range(bv, cv);
    }
    match set_network(&mut rows, Carrier::RED1, user.red1, comps) {
        Err(e) => {
            return Err(e);
        },
        Ok(_) => {},
    }
    let ghost with_red1 = factor_views(rows@);
    proof {
        if user.red1 is Some {
            lemma_with_factor_in_range(
                seeded,
                key(Carrier::RED1, Source::RED, Dest::input, Step::A),
                user.red1.unwrap(),
                "Factor de usuario"@,
            );
        }
    }
    match set_network(&mut rows, Carrier::RED2, user.red2, comps) {
        Err(e) => {
            return Err(e);
        },
        Ok(_) => {},
    }
    let ghost with_red2 = factor_views(rows@);
    proof {
        if user.red2 is Some {
            lemma_with_factor_in_range(
                with_red1,
                key(Carrier::RED2, Source::RED, Dest::input, Step::A),
                user.red2.unwrap(),
                "Factor de usuario"@,
            );
        }
    }
    set_cogen(&mut rows, user.cogen_to_grid, user.cogen_to_nepb, comps);
    proof {
        let c = Carrier::ELECTRICIDAD;
        let s = Source::COGENERACION;
        let t1 = with_factor(
            with_red2,
            key(c, s, Dest::input, Step::A),
            or_zero(None),
            "Recursos contabilizados en el vector que alimenta el cogenerador"@,
        );
        lemma_with_factor_in_range(
            with_red2,
            key(c, s, Dest::input, Step::A),
            or_zero(None),
            "Recursos contabilizados en el vector que alimenta el cogenerador"@,
        );
        let t2 = with_factor(
            t1,
            key(c, s, Dest::to_grid, Step::A),
            or_zero(user.cogen_to_grid),
            "Factor de usuario o nulo para electricidad cogenerada a la red"@,
        );
        lemma_with_factor_in_range(
            t1,
            key(c, s, Dest::to_grid, Step::A),
            or_zero(user.cogen_to_grid),
            "Factor de usuario o nulo para electricidad cogenerada a la red"@,
        );
        lemma_with_factor_in_range(
            t2,
            key(c, s, Dest::to_nEPB, Step::A),
            or_zero(user.cogen_to_nepb),
            "Factor de usuario o nulo para electricidad cogenerada a usos no EPB"@,
        );
    }
    match derive_step_b(&mut rows) {
        Err(e) => Err(e),
        Ok(_) => Ok(rows),
    }
}

} // verus!
