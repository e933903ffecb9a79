//! Weighting factors and conventions of the Spanish building code: the
//! factor table of the regulation for each location, its preparation for a
//! building, and the restriction of a calculation to one service.
use vstd::prelude::*;

use crate::error::EpbdError;
use crate::parse::parse_wfactors;
use crate::parse::spec_parse_wfactors;
use crate::performance::copy_metas;
use crate::prepare::nearby;
use crate::prepare::nearby_rows;
use crate::prepare::prepare_rows;
use crate::prepare::prepared;
use crate::prepare::strip_rows;
use crate::prepare::stripped;
pub use crate::parse::parse_components;
pub use crate::prepare::CteUserWF;
pub use crate::report::balance_to_plain;
pub use crate::report::balance_to_xml;
use crate::rennrenco2::RenNrenCo2;
use crate::types::component_views;
use crate::types::factor_views;
use crate::types::CType;
use crate::types::Carrier;
use crate::types::Component;
use crate::types::ComponentView;
use crate::types::Components;
use crate::types::Dest;
use crate::types::Factor;
use crate::types::FactorView;
use crate::types::Factors;
use crate::types::MetaView;
use crate::types::Service;
use crate::types::Source;
use crate::types::Step;

verus! {

/// Export factor of the regulation, in thousandths.
pub const KEXP_DEFAULT: u64 = 0;

/// Reference area where none is given, in thousandths.
pub const AREAREF_DEFAULT: u64 = 1000;

/// Location that decides the weighting factors of electricity.
#[allow(non_camel_case_types)]
#[derive(Debug, Copy, Clone, PartialEq, Eq, Structural, Hash)]
pub enum Locality {
    /// Iberian peninsula
    PENINSULA,
    /// Balearic islands
    BALEARES,
    /// Canary islands
    CANARIAS,
    /// Ceuta and Melilla
    CEUTAMELILLA,
}

/// A weighting triple from its three parts.
pub open spec fn spec_triple(ren: int, nren: int, co2: int) -> RenNrenCo2 {
    RenNrenCo2 { ren: ren as i128, nren: nren as i128, co2: co2 as i128 }
}

impl Locality {
    /// Weighting factor of the electricity that the grid delivers at the
    /// location, in thousandths.
    pub open spec fn spec_grid_factor(self) -> RenNrenCo2 {
        match self {
            Locality::PENINSULA => spec_triple(414, 1954, 331),
            Locality::BALEARES => spec_triple(82, 2968, 932),
            Locality::CANARIAS => spec_triple(70, 2924, 776),
            Locality::CEUTAMELILLA => spec_triple(72, 2718, 721),
        }
    }

    /// Weighting factor of the electricity that the grid delivers at the
    /// location, in thousandths.
    pub fn grid_factor(self) -> (r: RenNrenCo2)
        ensures
            r == self.spec_grid_factor(),
    {
        match self {
            Locality::PENINSULA => RenNrenCo2 { ren: 414, nren: 1954, co2: 331 },
            Locality::BALEARES => RenNrenCo2 { ren: 82, nren: 2968, co2: 932 },
            Locality::CANARIAS => RenNrenCo2 { ren: 70, nren: 2924, co2: 776 },
            Locality::CEUTAMELILLA => RenNrenCo2 { ren: 72, nren: 2718, co2: 721 },
        }
    }
}

/// A row of the table of the regulation.
pub open spec fn table_row(
    carrier: Carrier,
    source: Source,
    dest: Dest,
    step: Step,
    factors: RenNrenCo2,
) -> FactorView {
    FactorView { carrier, source, dest, step, factors, comment: Seq::empty() }
}

/// The weighting factor table of the regulation for a location.
///
/// Electricity that the grid delivers has the factor of the location, and
/// so has, at step B, the electricity that is exported, whose export
/// displaces it. Electricity produced on site and environment energy are
/// renewable. Cogenerated electricity weighs nothing where it is used, as
/// its fuel is weighted. The fuels and the district networks have one
/// factor each, for the energy that is delivered.
pub open spec fn spec_wf_rite2014(loc: Locality) -> Seq<FactorView> {
    let e = Carrier::ELECTRICIDAD;
    let m = Carrier::MEDIOAMBIENTE;
    let g = loc.spec_grid_factor();
    let one = spec_triple(1000, 0, 0);
    let zero = spec_triple(0, 0, 0);
    seq![
        table_row(e, Source::RED, Dest::input, Step::A, g),
        table_row(e, Source::RED, Dest::to_grid, Step::A, g),
        table_row(e, Source::RED, Dest::to_nEPB, Step::A, g),
        table_row(e, Source::INSITU, Dest::input, Step::A, one),
        table_row(e, Source::INSITU, Dest::to_grid, Step::A, one),
        table_row(e, Source::INSITU, Dest::to_grid, Step::B, g),
        table_row(e, Source::INSITU, Dest::to_nEPB, Step::A, one),
        table_row(e, Source::INSITU, Dest::to_nEPB, Step::B, g),
        table_row(e, Source::COGENERACION, Dest::input, Step::A, zero),
        table_row(e, Source::COGENERACION, Dest::to_grid, Step::B, g),
        table_row(e, Source::COGENERACION, Dest::to_nEPB, Step::B, g),
        table_row(m, Source::RED, Dest::input, Step::A, one),
        table_row(m, Source::RED, Dest::to_grid, Step::A, one),
        table_row(m, Source::RED, Dest::to_nEPB, Step::A, one),
        table_row(m, Source::INSITU, Dest::input, Step::A, one),
        table_row(m, Source::INSITU, Dest::to_grid, Step::A, one),
        table_row(m, Source::INSITU, Dest::to_nEPB, Step::A, one),
        table_row(
            Carrier::BIOCARBURANTE,
            Source::RED,
            Dest::input,
            Step::A,
            spec_triple(1028, 85, 18),
        ),
        table_row(Carrier::BIOMASA, Source::RED, Dest::input, Step::A, spec_triple(1003, 34, 18)),
        table_row(
            Carrier::BIOMASADENSIFICADA,
            Source::RED,
            Dest::input,
            Step::A,
            spec_triple(1028, 85, 18),
        ),
        table_row(Carrier::CARBON, Source::RED, Dest::input, Step::A, spec_triple(2, 1082, 472)),
        table_row(
            Carrier::GASNATURAL,
            Source::RED,
            Dest::input,
            Step::A,
            spec_triple(5, 1190, 252),
        ),
        table_row(Carrier::GASOLEO, Source::RED, Dest::input, Step::A, spec_triple(3, 1179, 311)),
        table_row(Carrier::GLP, Source::RED, Dest::input, Step::A, spec_triple(3, 1201, 254)),
        table_row(Carrier::RED1, Source::RED, Dest::input, Step::A, spec_triple(0, 1300, 300)),
        table_row(Carrier::RED2, Source::RED, Dest::input, Step::A, spec_triple(0, 1300, 300)),
    ]
}

/// Adds a row of the table of the regulation.
fn push_row(
    rows: &mut Vec<Factor>,
    carrier: Carrier,
    source: Source,
    dest: Dest,
    step: Step,
    factors: RenNrenCo2,
)
    ensures
        factor_views(final(rows)@) == factor_views(old(rows)@).push(
            table_row(carrier, source, dest, step, factors),
        ),
{
    let ghost before = factor_views(rows@);
    rows.push(Factor::new(carrier, source, dest, step, factors, String::new()));
    assert(factor_views(rows@) =~= before.push(table_row(carrier, source, dest, step, factors)));
}

/// A weighting triple from its three parts.
pub fn triple(ren: i128, nren: i128, co2: i128) -> (r: RenNrenCo2)
    ensures
        r == spec_triple(ren as int, nren as int, co2 as int),
{
    RenNrenCo2 { ren, nren, co2 }
}

/// The weighting factor table of the regulation for a location.
pub fn wf_rite2014(loc: Locality) -> (r: Factors)
    ensures
        r.rows() == spec_wf_rite2014(loc),
        r.metas() == Seq::<MetaView>::empty(),
{
    let e = Carrier::ELECTRICIDAD;
    let m = Carrier::MEDIOAMBIENTE;
    let g = loc.grid_factor();
    let one = triple(1000, 0, 0);
    let zero = triple(0, 0, 0);
    let mut rows: Vec<Factor> = Vec::new();
    assert(factor_views(rows@) =~= Seq::<FactorView>::empty());
    push_row(&mut rows, e, Source::RED, Dest::input, Step::A, g);
    push_row(&mut rows, e, Source::RED, Dest::to_grid, Step::A, g);
    push_row(&mut rows, e, Source::RED, Dest::to_nEPB, Step::A, g);
    push_row(&mut rows, e, Source::INSITU, Dest::input, Step::A, one);
    push_row(&mut rows, e, Source::INSITU, Dest::to_grid, Step::A, one);
    push_row(&mut rows, e, Source::INSITU, Dest::to_grid, Step::B, g);
    push_row(&mut rows, e, Source::INSITU, Dest::to_nEPB, Step::A, one);
    push_row(&mut rows, e, Source::INSITU, Dest::to_nEPB, Step::B, g);
    push_row(&mut rows, e, Source::COGENERACION, Dest::input, Step::A, zero);
    push_row(&mut rows, e, Source::COGENERACION, Dest::to_grid, Step::B, g);
    push_row(&mut rows, e, Source::COGENERACION, Dest::to_nEPB, Step::B, g);
    push_row(&mut rows, m, Source::RED, Dest::input, Step::A, one);
    push_row(&mut rows, m, Source::RED, Dest::to_grid, Step::A, one);
    push_row(&mut rows, m, Source::RED, Dest::to_nEPB, Step::A, one);
    push_row(&mut rows, m, Source::INSITU, Dest::input, Step::A, one);
    push_row(&mut rows, m, Source::INSITU, Dest::to_grid, Step::A, one);
    push_row(&mut rows, m, Source::INSITU, Dest::to_nEPB, Step::A, one);
    push_row(
        &mut rows,
        Carrier::BIOCARBURANTE,
        Source::RED,
        Dest::input,
        Step::A,
        triple(1028, 85, 18),
    );
    push_row(&mut rows, Carrier::BIOMASA, Source::RED, Dest::input, Step::A, triple(1003, 34, 18));
    push_row(
        &mut rows,
        Carrier::BIOMASADENSIFICADA,
        Source::RED,
        Dest::input,
        Step::A,
        triple(1028, 85, 18),
    );
    push_row(&mut rows, Carrier::CARBON, Source::RED, Dest::input, Step::A, triple(2, 1082, 472));
    push_row(
        &mut rows,
        Carrier::GASNATURAL,
        Source::RED,
        Dest::input,
        Step::A,
        triple(5, 1190, 252),
    );
    push_row(&mut rows, Carrier::GASOLEO, Source::RED, Dest::input, Step::A, triple(3, 1179, 311));
    push_row(&mut rows, Carrier::GLP, Source::RED, Dest::input, Step::A, triple(3, 1201, 254));
    push_row(&mut rows, Carrier::RED1, Source::RED, Dest::input, Step::A, triple(0, 1300, 300));
    push_row(&mut rows, Carrier::RED2, Source::RED, Dest::input, Step::A, triple(0, 1300, 300));
    assert(factor_views(rows@) =~= spec_wf_rite2014(loc));
    let r = Factors { wmeta: Vec::new(), wdata: rows };
    assert(r.metas() =~= Seq::<MetaView>::empty());
    r
}

/// Prepares a weighting factor table for the components: keeps the rows of
/// the carriers in use, sets the factors that the user defines and derives
/// the rows of step B that the table leaves out. The metadata are kept.
pub fn prepare_wfactors(base: &Factors, user: &CteUserWF, components: &Components) -> (r: Result<
    Factors,
    EpbdError,
>)
    ensures
        match prepared(base.rows(), *user, components.rows()) {
            Ok(out) => r is Ok && r.unwrap().rows() == out && r.unwrap().metas() == base.metas(),
            Err(e) => r == Err::<Factors, EpbdError>(e),
        },
{
    match prepare_rows(&base.wdata, user, &components.cdata) {
        Ok(rows) => Ok(Factors { wmeta: copy_metas(&base.wmeta), wdata: rows }),
        Err(e) => Err(e),
    }
}

/// The weighting factors of the regulation for a location, prepared for
/// the components.
pub fn wfactors_from_loc(loc: Locality, user: &CteUserWF, components: &Components) -> (r: Result<
    Factors,
    EpbdError,
>)
    ensures
        match prepared(spec_wf_rite2014(loc), *user, components.rows()) {
            Ok(out) => r is Ok && r.unwrap().rows() == out && r.unwrap().metas() == Seq::<
                MetaView,
            >::empty(),
            Err(e) => r == Err::<Factors, EpbdError>(e),
        },
{
    let base = wf_rite2014(loc);
    prepare_wfactors(&base, user, components)
}

/// The weighting factors that a file holds, prepared for the components.
pub open spec fn spec_wfactors_from_str(text: Seq<char>, user: CteUserWF, comps: Seq<ComponentView>)
    -> Result<(Seq<MetaView>, Seq<FactorView>), EpbdError> {
    match spec_parse_wfactors(text) {
        Err(e) => Err(e),
        Ok((metas, rows)) => match prepared(rows, user, comps) {
            Err(e) => Err(e),
            Ok(out) => Ok((metas, out)),
        },
    }
}

/// Reads the weighting factors of a file and prepares them for the
/// components.
pub fn wfactors_from_str(text: &str, user: &CteUserWF, components: &Components) -> (r: Result<
    Factors,
    EpbdError,
>)
    ensures
        match r {
            Ok(f) => spec_wfactors_from_str(text@, *user, components.rows()) == Ok::<
                (Seq<MetaView>, Seq<FactorView>),
                EpbdError,
            >((f.metas(), f.rows())),
            Err(e) => spec_wfactors_from_str(text@, *user, components.rows()) == Err::<
                (Seq<MetaView>, Seq<FactorView>),
                EpbdError,
            >(e),
        },
{
    match parse_wfactors(text) {
        Err(e) => Err(e),
        Ok(base) => prepare_wfactors(&base, user, components),
    }
}

/// Drops from the table every row whose carrier the components do not use.
pub fn strip_wfactors(wfactors: &mut Factors, components: &Components)
    ensures
        final(wfactors).rows() == stripped(old(wfactors).rows(), components.rows()),
        final(wfactors).metas() == old(wfactors).metas(),
{
    let rows = strip_rows(&wfactors.wdata, &components.cdata);
    wfactors.wdata = rows;
}

/// The table for the nearby perimeter: the factor of every row of a
/// carrier other than electricity whose energy does not come from the
/// building itself becomes zero.
pub fn wfactors_to_nearby(wfactors: &Factors) -> (r: Factors)
    ensures
        r.rows() == nearby(wfactors.rows()),
        r.metas() == wfactors.metas(),
{
    Factors { wmeta: copy_metas(&wfactors.wmeta), wdata: nearby_rows(&wfactors.wdata) }
}

/// The rows of a calculation for one service: the rows of the service, and
/// the production rows, which belong to no service.
pub open spec fn service_rows(rows: Seq<ComponentView>, service: Service) -> Seq<ComponentView>
    decreases rows.len(),
{
    if rows.len() == 0 {
        rows
    } else if rows.last().ctype == CType::PRODUCCION || rows.last().service == service {
        service_rows(rows.drop_last(), service).push(rows.last())
    } else {
        service_rows(rows.drop_last(), service)
    }
}

/// The components of a calculation for one service: the rows of the
/// service and the production rows, with the metadata.
pub fn components_by_service(components: &Components, service: Service) -> (r: Components)
    ensures
        r.rows() == service_rows(components.rows(), service),
        r.metas() == components.metas(),
{
    let ghost views = components.rows();
    let mut cdata: Vec<Component> = Vec::new();
    let mut i: usize = 0;
    assert(component_views(cdata@) =~= service_rows(views.take(0), service));
    while i < components.cdata.len()
        invariant
            i <= components.cdata.len(),
            views == components.rows(),
            component_views(cdata@) == service_rows(views.take(i as int), service),
        decreases components.cdata.len() - i,
    {
        let row = &components.cdata[i];
        proof {
            assert(views.take(i + 1).drop_last() =~= views.take(i as int));
            assert(views[i as int] == row@);
        }
        if row.ctype == CType::PRODUCCION || row.service == service {
            let ghost before = component_views(cdata@);
            cdata.push(row.duplicate());
            assert(component_views(cdata@) =~= before.push(row@));
        }
        i += 1;
    }
    assert(views.take(components.cdata.len() as int) =~= views);
    Components { cmeta: copy_metas(&components.cmeta), cdata }
}

} // verus!
