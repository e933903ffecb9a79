//! Energy performance of a building: the weighted energy balance of all its
//! carriers, by carrier, by service and overall, with the renewable energy
//! ratio.
use vstd::prelude::*;

use crate::balance::carrier_a;
use crate::balance::carrier_b;
use crate::balance::carrier_balance;
use crate::balance::carrier_balances;
use crate::balance::carrier_present;
use crate::balance::service_a;
use crate::balance::service_b;
use crate::balance::sum_triples;
use crate::balance::total_a;
use crate::balance::total_b;
use crate::balance::total_service_a;
use crate::balance::total_service_b;
use crate::balance::CarrierBalanceView;
use crate::balance::AREA_SCALE;
use crate::balance::KEXP_SCALE;
use crate::engine::balance_carrier;
use crate::engine::has_carrier;
use crate::engine::lemma_sum_triples_step;
use crate::engine::triples;
use crate::engine::CarrierBalance;
use crate::engine::MAX_BALANCE;
use crate::engine::MAX_CARRIER;
use crate::error::EpbdError;
use crate::rennrenco2::div_floor;
use crate::rennrenco2::rer_of;
use crate::rennrenco2::RenNrenCo2;
use crate::rennrenco2::Triple;
use crate::rennrenco2::RATIO_SCALE;
use crate::series::check_rows;
use crate::series::rows_error;
use crate::series::rows_valid;
use crate::series::steps_of;
use crate::series::MAX_STEPS;
use crate::types::component_views;
use crate::types::factor_views;
use crate::types::meta_views;
use crate::types::spec_carrier_at;
use crate::types::CSubtype;
use crate::types::CType;
use crate::types::Carrier;
use crate::types::Component;
use crate::types::ComponentView;
use crate::types::Components;
use crate::types::Dest;
use crate::types::Factor;
use crate::types::FactorView;
use crate::types::Factors;
use crate::types::Meta;
use crate::types::MetaView;
use crate::types::Source;
use crate::types::Step;
use crate::types::CARRIER_COUNT;
use crate::types::SERVICE_COUNT;
use crate::wfactors::check_factor_range;
use crate::wfactors::factors_in_range;
use crate::wfactors::find_factor;
use crate::wfactors::key;
use crate::wfactors::lookup;
use crate::wfactors::FactorKey;

verus! {

/// Whether a carrier has a production row of an origin.
pub open spec fn has_production(rows: Seq<ComponentView>, c: Carrier, origin: CSubtype) -> bool {
    exists|i: int|
        0 <= i < rows.len() && (#[trigger] rows[i]).carrier == c && rows[i].ctype
            == CType::PRODUCCION && rows[i].csubtype == origin
}

/// The origin of production that a source of weighting factors stands for,
/// if it is one.
pub open spec fn origin_of(source: Source) -> Option<CSubtype> {
    match source {
        Source::RED => None,
        Source::INSITU => Some(CSubtype::INSITU),
        Source::COGENERACION => Some(CSubtype::COGENERACION),
    }
}

/// Whether the balance needs the factor of a key: for every carrier that
/// has a row, the factor of the energy that the grid delivers; for every
/// origin that a carrier is produced of, the factor of the energy used in
/// the building, and those of the energy exported to the grid and to non
/// EPB uses, of both steps.
pub open spec fn needed(rows: Seq<ComponentView>, k: FactorKey) -> bool {
    match origin_of(k.source) {
        None => carrier_present(rows, k.carrier) && k.dest == Dest::input && k.step == Step::A,
        Some(origin) => has_production(rows, k.carrier, origin) && !(k.dest == Dest::input
            && k.step == Step::B),
    }
}

/// Whether the balance needs the factor of a key and the table has none.
pub open spec fn missing(rows: Seq<ComponentView>, fs: Seq<FactorView>, k: FactorKey) -> bool {
    needed(rows, k) && find_factor(fs, k) is None
}

/// The keys of a carrier and a source in the order in which they are
/// looked for: use in the building, export to the grid at steps A and B,
/// export to non EPB uses at steps A and B.
pub open spec fn slot(c: Carrier, source: Source, i: int) -> FactorKey {
    if i == 0 {
        key(c, source, Dest::input, Step::A)
    } else if i == 1 {
        key(c, source, Dest::to_grid, Step::A)
    } else if i == 2 {
        key(c, source, Dest::to_grid, Step::B)
    } else if i == 3 {
        key(c, source, Dest::to_nEPB, Step::A)
    } else {
        key(c, source, Dest::to_nEPB, Step::B)
    }
}

/// Number of keys of a carrier and a source.
pub const SLOT_COUNT: usize = 5;

/// The first key among the first `i` of a carrier and a source that is
/// missing.
pub open spec fn first_missing_slot(
    rows: Seq<ComponentView>,
    fs: Seq<FactorView>,
    c: Carrier,
    source: Source,
    i: int,
) -> Option<FactorKey>
    decreases i,
{
    if i <= 0 {
        None
    } else {
        match first_missing_slot(rows, fs, c, source, i - 1) {
            Some(k) => Some(k),
            None => if missing(rows, fs, slot(c, source, i - 1)) {
                Some(slot(c, source, i - 1))
            } else {
                None
            },
        }
    }
}

/// The first key of a carrier that is missing: those of the grid come
/// first, then those of the production on site, then those of cogeneration.
pub open spec fn first_missing_of(rows: Seq<ComponentView>, fs: Seq<FactorView>, c: Carrier)
    -> Option<FactorKey> {
    match first_missing_slot(rows, fs, c, Source::RED, SLOT_COUNT as int) {
        Some(k) => Some(k),
        None => match first_missing_slot(rows, fs, c, Source::INSITU, SLOT_COUNT as int) {
            Some(k) => Some(k),
            None => first_missing_slot(rows, fs, c, Source::COGENERACION, SLOT_COUNT as int),
        },
    }
}

/// The first key that is missing among those of the first `i` carriers.
pub open spec fn first_missing(rows: Seq<ComponentView>, fs: Seq<FactorView>, i: int) -> Option<
    FactorKey,
>
    decreases i,
{
    if i <= 0 {
        None
    } else {
        match first_missing(rows, fs, i - 1) {
            Some(k) => Some(k),
            None => first_missing_of(rows, fs, spec_carrier_at(i - 1)),
        }
    }
}

/// Every key is the slot of its carrier and source for its destination and
/// step.
pub proof fn lemma_slot_covers(k: FactorKey)
    ensures
        exists|i: int| 0 <= i < SLOT_COUNT + 1 && #[trigger] slot_or_input_b(k.carrier, k.source, i) == k,
{
    let i: int = match (k.dest, k.step) {
        (Dest::input, Step::A) => 0,
        (Dest::to_grid, Step::A) => 1,
        (Dest::to_grid, Step::B) => 2,
        (Dest::to_nEPB, Step::A) => 3,
        (Dest::to_nEPB, Step::B) => 4,
        (Dest::input, Step::B) => 5,
    };
    assert(slot_or_input_b(k.carrier, k.source, i) == k);
}

/// The slots of a carrier and a source, followed by the key that no
/// balance needs: use in the building at step B.
pub open spec fn slot_or_input_b(c: Carrier, source: Source, i: int) -> FactorKey {
    if i < SLOT_COUNT {
        slot(c, source, i)
    } else {
        key(c, source, Dest::input, Step::B)
    }
}

/// Where no slot of a carrier and a source is missing, no key of them is.
pub proof fn lemma_no_missing_slot(
    rows: Seq<ComponentView>,
    fs: Seq<FactorView>,
    c: Carrier,
    source: Source,
    i: int,
)
    requires
        0 <= i <= SLOT_COUNT,
    ensures
        match first_missing_slot(rows, fs, c, source, i) {
            Some(k) => missing(rows, fs, k),
            None => forall|j: int| 0 <= j < i ==> !missing(rows, fs, #[trigger] slot(c, source, j)),
        },
    decreases i,
{
    if i > 0 {
        lemma_no_missing_slot(rows, fs, c, source, i - 1);
    }
}

/// The first missing key of a carrier is missing, and where there is none,
/// no key of the carrier is missing.
pub proof fn lemma_first_missing_of(rows: Seq<ComponentView>, fs: Seq<FactorView>, c: Carrier)
    ensures
        match first_missing_of(rows, fs, c) {
            Some(k) => missing(rows, fs, k),
            None => forall|k: FactorKey| k.carrier == c ==> !#[trigger] missing(rows, fs, k),
        },
{
    lemma_no_missing_slot(rows, fs, c, Source::RED, SLOT_COUNT as int);
    lemma_no_missing_slot(rows, fs, c, Source::INSITU, SLOT_COUNT as int);
    lemma_no_missing_slot(rows, fs, c, Source::COGENERACION, SLOT_COUNT as int);
    if first_missing_of(rows, fs, c) is None {
        assert forall|k: FactorKey| k.carrier == c implies !#[trigger] missing(rows, fs, k) by {
            lemma_slot_covers(k);
            let i = choose|i: int|
                0 <= i < SLOT_COUNT + 1 && #[trigger] slot_or_input_b(k.carrier, k.source, i) == k;
            if i < SLOT_COUNT {
                assert(slot(c, k.source, i) == k);
                assert(!missing(rows, fs, slot(c, k.source, i)));
            }
        }
    }
}

/// The first missing key is missing, and where there is none, no key is
/// missing.
pub proof fn lemma_first_missing(rows: Seq<ComponentView>, fs: Seq<FactorView>, i: int)
    requires
        0 <= i <= CARRIER_COUNT,
    ensures
        match first_missing(rows, fs, i) {
            Some(k) => missing(rows, fs, k),
            None => forall|k: FactorKey|
                k.carrier.spec_index() < i ==> !#[trigger] missing(rows, fs, k),
        },
    decreases i,
{
    if i > 0 {
        lemma_first_missing(rows, fs, i - 1);
        lemma_first_missing_of(rows, fs, spec_carrier_at(i - 1));
        if first_missing(rows, fs, i) is None {
            assert forall|k: FactorKey| k.carrier.spec_index() < i implies !#[trigger] missing(
                rows,
                fs,
                k,
            ) by {
                if k.carrier.spec_index() == i - 1 {
                    assert(spec_carrier_at(i - 1) == k.carrier);
                }
            }
        }
    }
}

/// Whether a carrier has a production row of an origin.
pub fn produces(rows: &Vec<Component>, c: Carrier, origin: CSubtype) -> (b: bool)
    ensures
        b == has_production(component_views(rows@), c, origin),
{
    let ghost views = component_views(rows@);
    let mut i: usize = 0;
    while i < rows.len()
        invariant
            i <= rows.len(),
            views == component_views(rows@),
            forall|j: int|
                0 <= j < i ==> !((#[trigger] views[j]).carrier == c && views[j].ctype
                    == CType::PRODUCCION && views[j].csubtype == origin),
        decreases rows.len() - i,
    {
        assert(views[i as int] == rows[i as int]@);
        if rows[i].carrier == c && rows[i].ctype == CType::PRODUCCION && rows[i].csubtype
            == origin {
            return true;
        }
        i += 1;
    }
    false
}

/// Whether the balance needs the factor of a key.
pub fn is_needed(rows: &Vec<Component>, k: FactorKey) -> (b: bool)
    ensures
        b == needed(component_views(rows@), k),
{
    match k.source {
        Source::RED => k.dest == Dest::input && k.step == Step::A && has_carrier(rows, k.carrier),
        Source::INSITU => !(k.dest == Dest::input && k.step == Step::B) && produces(
            rows,
            k.carrier,
            CSubtype::INSITU,
        ),
        Source::COGENERACION => !(k.dest == Dest::input && k.step == Step::B) && produces(
            rows,
            k.carrier,
            CSubtype::COGENERACION,
        ),
    }
}

/// The key of a carrier and a source with a given place in the order in
/// which they are looked for.
pub fn slot_at(c: Carrier, source: Source, i: usize) -> (k: FactorKey)
    ensures
        k == slot(c, source, i as int),
{
    if i == 0 {
        FactorKey { carrier: c, source, dest: Dest::input, step: Step::A }
    } else if i == 1 {
        FactorKey { carrier: c, source, dest: Dest::to_grid, step: Step::A }
    } else if i == 2 {
        FactorKey { carrier: c, source, dest: Dest::to_grid, step: Step::B }
    } else if i == 3 {
        FactorKey { carrier: c, source, dest: Dest::to_nEPB, step: Step::A }
    } else {
        FactorKey { carrier: c, source, dest: Dest::to_nEPB, step: Step::B }
    }
}

/// The first key of a carrier and a source that the balance needs and the
/// table lacks.
pub fn find_missing_slot(rows: &Vec<Component>, fs: &Vec<Factor>, c: Carrier, source: Source) -> (r:
    Option<FactorKey>)
    ensures
        r == first_missing_slot(
            component_views(rows@),
            factor_views(fs@),
            c,
            source,
            SLOT_COUNT as int,
        ),
{
    let mut i: usize = 0;
    while i < SLOT_COUNT
        invariant
            i <= SLOT_COUNT,
            first_missing_slot(component_views(rows@), factor_views(fs@), c, source, i as int)
                is None,
        decreases SLOT_COUNT - i,
    {
        let k = slot_at(c, source, i);
        if is_needed(rows, k) && lookup(fs, k).is_none() {
            proof {
                lemma_missing_slot_stays(
                    component_views(rows@),
                    factor_views(fs@),
                    c,
                    source,
                    i as int,
                    SLOT_COUNT as int,
                );
            }
            return Some(k);
        }
        i += 1;
    }
    None
}

/// A slot found missing stays the first missing one when more slots are
/// looked at.
pub proof fn lemma_missing_slot_stays(
    rows: Seq<ComponentView>,
    fs: Seq<FactorView>,
    c: Carrier,
    source: Source,
    i: int,
    j: int,
)
    requires
        0 <= i < j,
        first_missing_slot(rows, fs, c, source, i) is None,
        missing(rows, fs, slot(c, source, i)),
    ensures
        first_missing_slot(rows, fs, c, source, j) == Some(slot(c, source, i)),
    decreases j - i,
{
    if j > i + 1 {
        lemma_missing_slot_stays(rows, fs, c, source, i, j - 1);
    }
}

/// A key found missing stays the first missing one when more carriers are
/// looked at.
pub proof fn lemma_missing_stays(
    rows: Seq<ComponentView>,
    fs: Seq<FactorView>,
    i: int,
    j: int,
)
    requires
        0 <= i <= j,
        first_missing(rows, fs, i) is Some,
    ensures
        first_missing(rows, fs, j) == first_missing(rows, fs, i),
    decreases j - i,
{
    if j > i {
        lemma_missing_stays(rows, fs, i, j - 1);
    }
}

/// The first key that the balance needs and the table lacks, if there is
/// one.
pub fn find_missing(rows: &Vec<Component>, fs: &Vec<Factor>) -> (r: Option<FactorKey>)
    ensures
        r == first_missing(component_views(rows@), factor_views(fs@), CARRIER_COUNT as int),
        r is Some ==> missing(component_views(rows@), factor_views(fs@), r.unwrap()),
        r is None ==> forall|k: FactorKey| !#[trigger]
            missing(component_views(rows@), factor_views(fs@), k),
{
    let ghost views = component_views(rows@);
    let ghost fv = factor_views(fs@);
    let mut i: usize = 0;
    while i < CARRIER_COUNT
        invariant
            i <= CARRIER_COUNT,
            views == component_views(rows@),
            fv == factor_views(fs@),
            first_missing(views, fv, i as int) is None,
        decreases CARRIER_COUNT - i,
    {
        let c = Carrier::at(i);
        let mut found = find_missing_slot(rows, fs, c, Source::RED);
        if found.is_none() {
            found = find_missing_slot(rows, fs, c, Source::INSITU);
        }
        if found.is_none() {
            found = find_missing_slot(rows, fs, c, Source::COGENERACION);
        }
        assert(found == first_missing_of(views, fv, c));
        if found.is_some() {
            proof {
                lemma_missing_stays(views, fv, i + 1, CARRIER_COUNT as int);
                lemma_first_missing(views, fv, CARRIER_COUNT as int);
            }
            return found;
        }
        i += 1;
    }
    proof {
        lemma_first_missing(views, fv, CARRIER_COUNT as int);
    }
    None
}

/// A weighted energy for each unit of reference area: the triple times the
/// number of area units in one, divided by the area and rounded down.
pub open spec fn per_area(x: Triple, arearef: int) -> Triple {
    x.scale(AREA_SCALE as int).div(arearef)
}

/// The ratio of the renewable part to the non renewable part in
/// thousandths, rounded down, where the non renewable part is positive.
pub open spec fn rer_nren_of(x: Triple) -> Option<int> {
    if x.nren > 0 {
        Some((RATIO_SCALE * x.ren) / x.nren)
    } else {
        None
    }
}

/// The error that stops the computation of the energy performance, if
/// there is one: first an export factor above one or an area that is not
/// positive, then what is wrong with the rows, then a weighting factor
/// beyond the limit, then a weighting factor that is needed and missing.
pub open spec fn performance_error(
    rows: Seq<ComponentView>,
    fs: Seq<FactorView>,
    k_exp: int,
    arearef: int,
) -> Option<EpbdError> {
    if k_exp > KEXP_SCALE || arearef <= 0 {
        Some(EpbdError::RangeError)
    } else if rows_error(rows) is Some {
        rows_error(rows)
    } else if !factors_in_range(fs) {
        Some(EpbdError::RangeError)
    } else {
        match first_missing(rows, fs, CARRIER_COUNT as int) {
            Some(k) => Some(EpbdError::MissingFactor(k.carrier, k.source, k.dest, k.step)),
            None => None,
        }
    }
}

/// Energy performance of a building.
///
/// Weighted energy is given in units of which `WEIGHTED_SCALE` make one
/// energy unit, ratios in thousandths.
#[derive(Debug)]
pub struct Balance {
    /// Metadata of the components.
    pub meta: Vec<Meta>,
    /// Export factor, in thousandths.
    pub k_exp: u64,
    /// Reference area, in thousandths.
    pub arearef: u64,
    /// Weighted energy of every carrier, in the order of the carriers.
    pub by_carrier: Vec<CarrierBalance>,
    /// Weighted energy at step A of every service, in their order.
    pub a_by_service: Vec<RenNrenCo2>,
    /// Weighted energy at step B of every service, in their order.
    pub b_by_service: Vec<RenNrenCo2>,
    /// Weighted energy at step A.
    pub a: RenNrenCo2,
    /// Weighted energy at step B.
    pub b: RenNrenCo2,
    /// Weighted energy at step A for each unit of area.
    pub a_m2: RenNrenCo2,
    /// Weighted energy at step B for each unit of area.
    pub b_m2: RenNrenCo2,
    /// Renewable energy ratio of the weighted energy at step B.
    pub rer: i128,
    /// Ratio of the renewable to the non renewable part of the weighted
    /// energy at step B, where the non renewable part is positive.
    pub rer_nren: Option<i128>,
}

/// The mathematical values of a list of carrier balances.
pub open spec fn balance_views(v: Seq<CarrierBalance>) -> Seq<CarrierBalanceView> {
    Seq::new(v.len(), |i: int| v[i]@)
}

impl Balance {
    /// Whether this is the energy performance that the rows, the factors,
    /// the export factor and the reference area give.
    pub open spec fn is_performance_of(
        &self,
        metas: Seq<MetaView>,
        rows: Seq<ComponentView>,
        fs: Seq<FactorView>,
        k_exp: int,
        arearef: int,
    ) -> bool {
        let n = steps_of(rows);
        &&& meta_views(self.meta@) == metas
        &&& self.k_exp == k_exp
        &&& self.arearef == arearef
        &&& balance_views(self.by_carrier@) == carrier_balances(rows, fs, k_exp, n)
        &&& triples(self.a_by_service@) == Seq::new(
            SERVICE_COUNT as nat,
            |k: int| total_service_a(rows, fs, k, n),
        )
        &&& triples(self.b_by_service@) == Seq::new(
            SERVICE_COUNT as nat,
            |k: int| total_service_b(rows, fs, k_exp, k, n),
        )
        &&& self.a@ == total_a(rows, fs, n)
        &&& self.b@ == total_b(rows, fs, k_exp, n)
        &&& self.a_m2@ == per_area(total_a(rows, fs, n), arearef)
        &&& self.b_m2@ == per_area(total_b(rows, fs, k_exp, n), arearef)
        &&& self.rer == rer_of(self.b@.ren, self.b@.nren)
        &&& match self.rer_nren {
            Some(r) => rer_nren_of(self.b@) == Some(r as int),
            None => rer_nren_of(self.b@) is None,
        }
    }
}

/// A quotient by a positive number, rounded down, is no larger in
/// absolute value than a limit of the dividend.
pub proof fn lemma_quotient_within(a: int, d: int, limit: int)
    requires
        d > 0,
        -limit <= a <= limit,
    ensures
        -limit <= a / d <= limit,
{
    vstd::arithmetic::div_mod::lemma_fundamental_div_mod(a, d);
    vstd::arithmetic::div_mod::lemma_mod_bound(a, d);
    let q = a / d;
    let r = a % d;
    assert(-limit <= q <= limit) by (nonlinear_arith)
        requires
            a == d * q + r,
            0 <= r < d,
            d > 0,
            -limit <= a <= limit,
    ;
}

/// Whether the values of a balance can be rounded for a report: the
/// weighted energy for each unit of area is within a thousand times the
/// limit of a balance.
pub open spec fn reportable(b: Balance) -> bool {
    &&& b.a_m2@.within(MAX_BALANCE * 1000)
    &&& b.b_m2@.within(MAX_BALANCE * 1000)
}

/// Whether the values of a balance can be written.
pub fn is_reportable(b: &Balance) -> (r: bool)
    ensures
        r == reportable(*b),
{
    let limit: i128 = MAX_BALANCE * 1000;
    -limit <= b.a_m2.ren && b.a_m2.ren <= limit && -limit <= b.a_m2.nren && b.a_m2.nren <= limit
        && -limit <= b.a_m2.co2 && b.a_m2.co2 <= limit && -limit <= b.b_m2.ren && b.b_m2.ren
        <= limit && -limit <= b.b_m2.nren && b.b_m2.nren <= limit && -limit <= b.b_m2.co2
        && b.b_m2.co2 <= limit
}

/// A weighted energy for each unit of reference area.
pub fn area_ratio(x: RenNrenCo2, arearef: u64) -> (r: RenNrenCo2)
    requires
        arearef > 0,
        x@.within(MAX_BALANCE as int),
    ensures
        r@ == per_area(x@, arearef as int),
        r@.within(MAX_BALANCE * 1000),
{
    let s: i128 = AREA_SCALE as i128;
    let d: i128 = arearef as i128;
    proof {
        let limit: int = MAX_BALANCE * 1000;
        assert(-limit <= x.ren * s <= limit && -limit <= x.nren * s <= limit && -limit <= x.co2
            * s <= limit) by (nonlinear_arith)
            requires
                s == 1000,
                limit == MAX_BALANCE * 1000,
                x@.within(MAX_BALANCE as int),
        ;
        lemma_quotient_within(x.ren * s, d as int, limit);
        lemma_quotient_within(x.nren * s, d as int, limit);
        lemma_quotient_within(x.co2 * s, d as int, limit);
    }
    RenNrenCo2 {
        ren: div_floor(x.ren * s, d),
        nren: div_floor(x.nren * s, d),
        co2: div_floor(x.co2 * s, d),
    }
}

/// Sum of at most as many triples as there are carriers, each within the
/// limit of the weighted energy of a carrier.
pub fn sum_of(v: &Vec<RenNrenCo2>) -> (r: RenNrenCo2)
    requires
        v.len() <= CARRIER_COUNT,
        forall|i: int| 0 <= i < v.len() ==> (#[trigger] v[i])@.within(MAX_CARRIER as int),
    ensures
        r@ == sum_triples(triples(v@)),
        r@.within(MAX_BALANCE as int),
{
    let ghost s = triples(v@);
    let mut acc = RenNrenCo2::new();
    let mut i: usize = 0;
    while i < v.len()
        invariant
            i <= v.len(),
            v.len() <= CARRIER_COUNT,
            s == triples(v@),
            forall|j: int| 0 <= j < v.len() ==> (#[trigger] v[j])@.within(MAX_CARRIER as int),
            acc@ == sum_triples(s.take(i as int)),
            acc@.within(i * MAX_CARRIER),
        decreases v.len() - i,
    {
        proof {
            lemma_sum_triples_step(s, i as int);
            assert((i + 1) * MAX_CARRIER == i * MAX_CARRIER + MAX_CARRIER) by (nonlinear_arith);
            assert(i * MAX_CARRIER <= CARRIER_COUNT * MAX_CARRIER) by (nonlinear_arith)
                requires
                    i <= CARRIER_COUNT,
            ;
            assert(CARRIER_COUNT * MAX_CARRIER == MAX_BALANCE) by (nonlinear_arith);
            assert(s[i as int] == v[i as int]@);
        }
        acc = acc + v[i];
        i += 1;
    }
    proof {
        assert(s.take(v.len() as int) =~= s);
        assert(v.len() * MAX_CARRIER <= CARRIER_COUNT * MAX_CARRIER) by (nonlinear_arith)
            requires
                v.len() <= CARRIER_COUNT,
        ;
        assert(CARRIER_COUNT * MAX_CARRIER == MAX_BALANCE) by (nonlinear_arith);
    }
    acc
}

/// A copy of a list of metadata entries.
pub fn copy_metas(metas: &Vec<Meta>) -> (r: Vec<Meta>)
    ensures
        meta_views(r@) == meta_views(metas@),
{
    let mut r: Vec<Meta> = Vec::new();
    let mut i: usize = 0;
    while i < metas.len()
        invariant
            i <= metas.len(),
            r.len() == i,
            forall|j: int| 0 <= j < i ==> (#[trigger] r[j])@ == metas[j]@,
        decreases metas.len() - i,
    {
        r.push(metas[i].duplicate());
        i += 1;
    }
    assert(meta_views(r@) =~= meta_views(metas@));
    r
}

/// Which triple of the balance of a carrier a sum over the carriers runs
/// over.
#[derive(Debug, Copy, Clone)]
pub enum Pick {
    /// The weighted energy at step A.
    A,
    /// The weighted energy at step B.
    B,
    /// The weighted energy at step A of the service with an ordinal.
    ServiceA(usize),
    /// The weighted energy at step B of the service with an ordinal.
    ServiceB(usize),
}

impl Pick {
    /// Whether the ordinal of the service, if there is one, is that of a
    /// service.
    pub open spec fn valid(self) -> bool {
        match self {
            Pick::A => true,
            Pick::B => true,
            Pick::ServiceA(k) => k < SERVICE_COUNT,
            Pick::ServiceB(k) => k < SERVICE_COUNT,
        }
    }

    /// The triple that is picked of the balance of a carrier.
    pub open spec fn of(self, cb: CarrierBalanceView) -> Triple {
        match self {
            Pick::A => cb.a,
            Pick::B => cb.b,
            Pick::ServiceA(k) => cb.a_by_service[k as int],
            Pick::ServiceB(k) => cb.b_by_service[k as int],
        }
    }

    /// The triple that is picked of the balance of a carrier.
    pub fn pick(self, cb: &CarrierBalance) -> (r: RenNrenCo2)
        requires
            self.valid(),
            cb.in_range(),
        ensures
            r@ == self.of(cb@),
            r@.within(MAX_CARRIER as int),
    {
        match self {
            Pick::A => cb.a,
            Pick::B => cb.b,
            Pick::ServiceA(k) => cb.a_by_service[k],
            Pick::ServiceB(k) => cb.b_by_service[k],
        }
    }
}

/// The picked triples of a list of carrier balances.
pub open spec fn picked(v: Seq<CarrierBalanceView>, p: Pick) -> Seq<Triple> {
    Seq::new(v.len(), |i: int| p.of(v[i]))
}

/// Sum over the carriers of the picked triple of their balances.
pub fn sum_picked(by_carrier: &Vec<CarrierBalance>, p: Pick) -> (r: RenNrenCo2)
    requires
        p.valid(),
        by_carrier.len() == CARRIER_COUNT,
        forall|i: int| 0 <= i < by_carrier.len() ==> (#[trigger] by_carrier[i]).in_range(),
    ensures
        r@ == sum_triples(picked(balance_views(by_carrier@), p)),
        r@.within(MAX_BALANCE as int),
{
    let mut v: Vec<RenNrenCo2> = Vec::new();
    let mut i: usize = 0;
    while i < by_carrier.len()
        invariant
            i <= by_carrier.len(),
            by_carrier.len() == CARRIER_COUNT,
            p.valid(),
            forall|j: int| 0 <= j < by_carrier.len() ==> (#[trigger] by_carrier[j]).in_range(),
            v.len() == i,
            forall|j: int| 0 <= j < i ==> (#[trigger] v[j])@ == p.of(by_carrier[j]@),
            forall|j: int| 0 <= j < i ==> (#[trigger] v[j])@.within(MAX_CARRIER as int),
        decreases by_carrier.len() - i,
    {
        v.push(p.pick(&by_carrier[i]));
        i += 1;
    }
    assert(triples(v@) =~= picked(balance_views(by_carrier@), p));
    sum_of(&v)
}

/// The energy performance that valid rows and factors give.
pub fn compute_balance(
    components: &Components,
    wfactors: &Factors,
    k_exp: u64,
    arearef: u64,
) -> (r: Balance)
    requires
        performance_error(components.rows(), wfactors.rows(), k_exp as int, arearef as int)
            is None,
    ensures
        r.is_performance_of(
            components.metas(),
            components.rows(),
            wfactors.rows(),
            k_exp as int,
            arearef as int,
        ),
        reportable(r),
{
    let ghost rows = components.rows();
    let ghost fv = wfactors.rows();
    let ghost nn = steps_of(rows);
    let n: usize = if components.cdata.len() == 0 {
        0
    } else {
        assert(rows[0] == components.cdata[0]@);
        components.cdata[0].values.len()
    };
    let mut by_carrier: Vec<CarrierBalance> = Vec::new();
    let mut i: usize = 0;
    while i < CARRIER_COUNT
        invariant
            i <= CARRIER_COUNT,
            rows == components.rows(),
            fv == wfactors.rows(),
            rows_valid(rows),
            factors_in_range(fv),
            k_exp <= KEXP_SCALE,
            n == steps_of(rows),
            n <= MAX_STEPS,
            by_carrier.len() == i,
            forall|j: int|
                0 <= j < i ==> (#[trigger] by_carrier[j])@ == carrier_balance(
                    rows,
                    fv,
                    k_exp as int,
                    spec_carrier_at(j),
                    n as int,
                ),
            forall|j: int| 0 <= j < i ==> (#[trigger] by_carrier[j]).in_range(),
        decreases CARRIER_COUNT - i,
    {
        let cb = balance_carrier(&components.cdata, n, &wfactors.wdata, k_exp, Carrier::at(i));
        by_carrier.push(cb);
        i += 1;
    }
    let ghost views = balance_views(by_carrier@);
    proof {
        assert(views =~= carrier_balances(rows, fv, k_exp as int, nn));
        assert(picked(views, Pick::A) =~= Seq::new(
            CARRIER_COUNT as nat,
            |i: int| carrier_a(rows, fv, spec_carrier_at(i), nn),
        ));
        assert(picked(views, Pick::B) =~= Seq::new(
            CARRIER_COUNT as nat,
            |i: int| carrier_b(rows, fv, k_exp as int, spec_carrier_at(i), nn),
        ));
    }
    let a = sum_picked(&by_carrier, Pick::A);
    let b = sum_picked(&by_carrier, Pick::B);
    let mut a_by_service: Vec<RenNrenCo2> = Vec::new();
    let mut b_by_service: Vec<RenNrenCo2> = Vec::new();
    let mut k: usize = 0;
    while k < SERVICE_COUNT
        invariant
            k <= SERVICE_COUNT,
            by_carrier.len() == CARRIER_COUNT,
            forall|j: int| 0 <= j < by_carrier.len() ==> (#[trigger] by_carrier[j]).in_range(),
            views == balance_views(by_carrier@),
            views == carrier_balances(rows, fv, k_exp as int, nn),
            a_by_service.len() == k,
            b_by_service.len() == k,
            forall|j: int|
                0 <= j < k ==> (#[trigger] a_by_service[j])@ == total_service_a(rows, fv, j, nn),
            forall|j: int|
                0 <= j < k ==> (#[trigger] b_by_service[j])@ == total_service_b(
                    rows,
                    fv,
                    k_exp as int,
                    j,
                    nn,
                ),
        decreases SERVICE_COUNT - k,
    {
        proof {
            assert(picked(views, Pick::ServiceA(k)) =~= Seq::new(
                CARRIER_COUNT as nat,
                |i: int| service_a(rows, fv, spec_carrier_at(i), k as int, nn),
            ));
            assert(picked(views, Pick::ServiceB(k)) =~= Seq::new(
                CARRIER_COUNT as nat,
                |i: int| service_b(rows, fv, k_exp as int, spec_carrier_at(i), k as int, nn),
            ));
        }
        a_by_service.push(sum_picked(&by_carrier, Pick::ServiceA(k)));
        b_by_service.push(sum_picked(&by_carrier, Pick::ServiceB(k)));
        k += 1;
    }
    proof {
        assert(triples(a_by_service@) =~= Seq::new(
            SERVICE_COUNT as nat,
            |k: int| total_service_a(rows, fv, k, nn),
        ));
        assert(triples(b_by_service@) =~= Seq::new(
            SERVICE_COUNT as nat,
            |k: int| total_service_b(rows, fv, k_exp as int, k, nn),
        ));
    }
    let rer_nren = if b.nren > 0 {
        Some(div_floor(RATIO_SCALE * b.ren, b.nren))
    } else {
        None
    };

    Balance {
        meta: copy_metas(&components.cmeta),
        k_exp,
        arearef,
        by_carrier,
        a_by_service,
        b_by_service,
        a,
        b,
        a_m2: area_ratio(a, arearef),
        b_m2: area_ratio(b, arearef),
        rer: b.rer(),
        rer_nren,
    }
}

/// Energy performance of a building: the weighted energy balance of the
/// components with the weighting factors, the export factor `k_exp` and the
/// reference area, both in thousandths.
///
/// An export factor above one or an area that is not positive is a
/// `RangeError`, as are rows or factors beyond the limits; rows of
/// different lengths are a `ShapeError`; a row whose carrier, role and
/// origin do not go together is `Inconsistent`; a weighting factor that the
/// balance needs and the table lacks is a `MissingFactor`.
pub fn energy_performance(
    components: &Components,
    wfactors: &Factors,
    k_exp: u64,
    arearef: u64,
) -> (r: Result<Balance, EpbdError>)
    ensures
        match performance_error(
            components.rows(),
            wfactors.rows(),
            k_exp as int,
            arearef as int,
        ) {
            Some(e) => r == Err::<Balance, EpbdError>(e),
            None => r is Ok && r.unwrap().is_performance_of(
                components.metas(),
                components.rows(),
                wfactors.rows(),
                k_exp as int,
                arearef as int,
            ) && reportable(r.unwrap()),
        },
{
    if k_exp > KEXP_SCALE || arearef == 0 {
        return Err(EpbdError::RangeError);
    }
    match check_rows(&components.cdata) {
        Err(e) => {
            return Err(e);
        },
        Ok(_) => {},
    }
    if !check_factor_range(&wfactors.wdata) {
        return Err(EpbdError::RangeError);
    }
    match find_missing(&components.cdata, &wfactors.wdata) {
        Some(k) => {
            return Err(EpbdError::MissingFactor(k.carrier, k.source, k.dest, k.step));
        },
        None => {},
    }
    Ok(compute_balance(components, wfactors, k_exp, arearef))
}

} // verus!
