//! Data model: energy carriers, component rows and weighting factor rows.
use vstd::prelude::*;

use crate::rennrenco2::RenNrenCo2;

verus! {

/// Energy carrier.
#[allow(non_camel_case_types)]
#[derive(Debug, Copy, Clone, PartialEq, Eq, Structural, Hash)]
pub enum Carrier {
    /// Biofuel
    BIOCARBURANTE,
    /// Biomass
    BIOMASA,
    /// Densified biomass (pellets)
    BIOMASADENSIFICADA,
    /// Coal
    CARBON,
    /// Electricity
    ELECTRICIDAD,
    /// Fuel oil
    FUELOIL,
    /// Natural gas
    GASNATURAL,
    /// Diesel oil
    GASOLEO,
    /// Liquefied petroleum gas
    GLP,
    /// Environment energy (solar thermal, ambient heat)
    MEDIOAMBIENTE,
    /// District network 1
    RED1,
    /// District network 2
    RED2,
}

/// Number of energy carriers.
pub const CARRIER_COUNT: usize = 12;

/// Role of a component row: consumption or production.
#[allow(non_camel_case_types)]
#[derive(Debug, Copy, Clone, PartialEq, Eq, Structural, Hash)]
pub enum CType {
    /// Energy use
    CONSUMO,
    /// Energy generation
    PRODUCCION,
}

/// Origin of produced energy, or kind of use of consumed energy.
#[allow(non_camel_case_types)]
#[derive(Debug, Copy, Clone, PartialEq, Eq, Structural, Hash)]
pub enum CSubtype {
    /// Produced on site
    INSITU,
    /// Produced by cogeneration
    COGENERACION,
    /// Used by EPB services
    EPB,
    /// Used by non EPB services
    NEPB,
}

/// Service that an energy use belongs to.
#[allow(non_camel_case_types)]
#[derive(Debug, Copy, Clone, PartialEq, Eq, Structural, Hash)]
pub enum Service {
    /// Domestic hot water
    ACS,
    /// Heating
    CAL,
    /// Cooling
    REF,
    /// Ventilation
    VEN,
    /// Lighting
    ILU,
    /// Humidification
    HU,
    /// Dehumidification
    DHU,
    /// Building automation and control
    BAC,
    /// Non EPB uses
    NEPB,
    /// CO2 capture
    CO2,
    /// Unallocated
    NDEF,
}

/// Number of services.
pub const SERVICE_COUNT: usize = 11;

/// Origin of the energy that a weighting factor applies to.
#[allow(non_camel_case_types)]
#[derive(Debug, Copy, Clone, PartialEq, Eq, Structural, Hash)]
pub enum Source {
    /// Delivered by the grid
    RED,
    /// Produced on site
    INSITU,
    /// Produced by cogeneration
    COGENERACION,
}

/// Destination of the energy that a weighting factor applies to.
#[allow(non_camel_case_types)]
#[derive(Debug, Copy, Clone, PartialEq, Eq, Structural, Hash)]
pub enum Dest {
    /// Used in the building
    input,
    /// Exported to the grid
    to_grid,
    /// Exported to non EPB uses
    to_nEPB,
}

/// Calculation step of a weighting factor.
#[allow(non_camel_case_types)]
#[derive(Debug, Copy, Clone, PartialEq, Eq, Structural, Hash)]
pub enum Step {
    /// Resources used to produce the energy
    A,
    /// Resources avoided by the exported energy
    B,
}

/// The carrier with a given rank in the lexicographic order of the names.
pub open spec fn spec_carrier_at(i: int) -> Carrier {
    if i == 0 {
        Carrier::BIOCARBURANTE
    } else if i == 1 {
        Carrier::BIOMASA
    } else if i == 2 {
        Carrier::BIOMASADENSIFICADA
    } else if i == 3 {
        Carrier::CARBON
    } else if i == 4 {
        Carrier::ELECTRICIDAD
    } else if i == 5 {
        Carrier::FUELOIL
    } else if i == 6 {
        Carrier::GASNATURAL
    } else if i == 7 {
        Carrier::GASOLEO
    } else if i == 8 {
        Carrier::GLP
    } else if i == 9 {
        Carrier::MEDIOAMBIENTE
    } else if i == 10 {
        Carrier::RED1
    } else {
        Carrier::RED2
    }
}

/// The service with a given ordinal.
pub open spec fn spec_service_at(i: int) -> Service {
    if i == 0 {
        Service::ACS
    } else if i == 1 {
        Service::CAL
    } else if i == 2 {
        Service::REF
    } else if i == 3 {
        Service::VEN
    } else if i == 4 {
        Service::ILU
    } else if i == 5 {
        Service::HU
    } else if i == 6 {
        Service::DHU
    } else if i == 7 {
        Service::BAC
    } else if i == 8 {
        Service::NEPB
    } else if i == 9 {
        Service::CO2
    } else {
        Service::NDEF
    }
}

impl Carrier {
    /// Rank of the carrier in the lexicographic order of the names.
    pub open spec fn spec_index(self) -> int {
        match self {
            Carrier::BIOCARBURANTE => 0,
            Carrier::BIOMASA => 1,
            Carrier::BIOMASADENSIFICADA => 2,
            Carrier::CARBON => 3,
            Carrier::ELECTRICIDAD => 4,
            Carrier::FUELOIL => 5,
            Carrier::GASNATURAL => 6,
            Carrier::GASOLEO => 7,
            Carrier::GLP => 8,
            Carrier::MEDIOAMBIENTE => 9,
            Carrier::RED1 => 10,
            Carrier::RED2 => 11,
        }
    }

    /// Rank of the carrier in the lexicographic order of the names.
    pub fn index(self) -> (i: usize)
        ensures
            i == self.spec_index(),
            i < CARRIER_COUNT,
            spec_carrier_at(i as int) == self,
    {
        match self {
            Carrier::BIOCARBURANTE => 0,
            Carrier::BIOMASA => 1,
            Carrier::BIOMASADENSIFICADA => 2,
            Carrier::CARBON => 3,
            Carrier::ELECTRICIDAD => 4,
            Carrier::FUELOIL => 5,
            Carrier::GASNATURAL => 6,
            Carrier::GASOLEO => 7,
            Carrier::GLP => 8,
            Carrier::MEDIOAMBIENTE => 9,
            Carrier::RED1 => 10,
            Carrier::RED2 => 11,
        }
    }

    /// The carrier with rank `i`.
    pub fn at(i: usize) -> (c: Carrier)
        requires
            i < CARRIER_COUNT,
        ensures
            c == spec_carrier_at(i as int),
            c.spec_index() == i,
    {
        if i == 0 {
            Carrier::BIOCARBURANTE
        } else if i == 1 {
            Carrier::BIOMASA
        } else if i == 2 {
            Carrier::BIOMASADENSIFICADA
        } else if i == 3 {
            Carrier::CARBON
        } else if i == 4 {
            Carrier::ELECTRICIDAD
        } else if i == 5 {
            Carrier::FUELOIL
        } else if i == 6 {
            Carrier::GASNATURAL
        } else if i == 7 {
            Carrier::GASOLEO
        } else if i == 8 {
            Carrier::GLP
        } else if i == 9 {
            Carrier::MEDIOAMBIENTE
        } else if i == 10 {
            Carrier::RED1
        } else {
            Carrier::RED2
        }
    }
}

impl Service {
    /// Ordinal of the service.
    pub open spec fn spec_index(self) -> int {
        match self {
            Service::ACS => 0,
            Service::CAL => 1,
            Service::REF => 2,
            Service::VEN => 3,
            Service::ILU => 4,
            Service::HU => 5,
            Service::DHU => 6,
            Service::BAC => 7,
            Service::NEPB => 8,
            Service::CO2 => 9,
            Service::NDEF => 10,
        }
    }

    /// Ordinal of the service.
    pub fn index(self) -> (i: usize)
        ensures
            i == self.spec_index(),
            i < SERVICE_COUNT,
            spec_service_at(i as int) == self,
    {
        match self {
            Service::ACS => 0,
            Service::CAL => 1,
            Service::REF => 2,
            Service::VEN => 3,
            Service::ILU => 4,
            Service::HU => 5,
            Service::DHU => 6,
            Service::BAC => 7,
            Service::NEPB => 8,
            Service::CO2 => 9,
            Service::NDEF => 10,
        }
    }

    /// The service with ordinal `i`.
    pub fn at(i: usize) -> (s: Service)
        requires
            i < SERVICE_COUNT,
        ensures
            s == spec_service_at(i as int),
            s.spec_index() == i,
    {
        if i == 0 {
            Service::ACS
        } else if i == 1 {
            Service::CAL
        } else if i == 2 {
            Service::REF
        } else if i == 3 {
            Service::VEN
        } else if i == 4 {
            Service::ILU
        } else if i == 5 {
            Service::HU
        } else if i == 6 {
            Service::DHU
        } else if i == 7 {
            Service::BAC
        } else if i == 8 {
            Service::NEPB
        } else if i == 9 {
            Service::CO2
        } else {
            Service::NDEF
        }
    }
}

/// One entry of a metadata store.
#[derive(Debug)]
pub struct Meta {
    /// Name of the entry.
    pub key: String,
    /// Text of the entry.
    pub value: String,
}

/// Mathematical value of a metadata entry.
pub struct MetaView {
    /// Name of the entry.
    pub key: Seq<char>,
    /// Text of the entry.
    pub value: Seq<char>,
}

impl View for Meta {
    type V = MetaView;

    open spec fn view(&self) -> MetaView {
        MetaView { key: self.key@, value: self.value@ }
    }
}

impl Meta {
    /// A copy of the entry.
    pub fn duplicate(&self) -> (r: Meta)
        ensures
            r@ == self@,
    {
        Meta { key: self.key.clone(), value: self.value.clone() }
    }
}

/// Energy component: the time series of the energy used or produced of one
/// carrier, for one service.
#[derive(Debug)]
pub struct Component {
    /// Energy carrier.
    pub carrier: Carrier,
    /// Consumption or production.
    pub ctype: CType,
    /// Origin of the production or kind of use.
    pub csubtype: CSubtype,
    /// Service that the energy belongs to.
    pub service: Service,
    /// Energy of each time step, in whole energy units.
    pub values: Vec<u64>,
    /// Free text.
    pub comment: String,
}

/// Mathematical value of an energy component.
pub struct ComponentView {
    /// Energy carrier.
    pub carrier: Carrier,
    /// Consumption or production.
    pub ctype: CType,
    /// Origin of the production or kind of use.
    pub csubtype: CSubtype,
    /// Service that the energy belongs to.
    pub service: Service,
    /// Energy of each time step.
    pub values: Seq<u64>,
    /// Free text.
    pub comment: Seq<char>,
}

impl View for Component {
    type V = ComponentView;

    open spec fn view(&self) -> ComponentView {
        ComponentView {
            carrier: self.carrier,
            ctype: self.ctype,
            csubtype: self.csubtype,
            service: self.service,
            values: self.values@,
            comment: self.comment@,
        }
    }
}

/// A copy of a series of values.
pub fn copy_values(v: &Vec<u64>) -> (r: Vec<u64>)
    ensures
        r@ == v@,
{
    let mut r: Vec<u64> = Vec::new();
    let mut i: usize = 0;
    while i < v.len()
        invariant
            i <= v.len(),
            r@ == v@.take(i as int),
        decreases v.len() - i,
    {
        r.push(v[i]);
        assert(v@.take(i + 1) =~= v@.take(i as int).push(v@[i as int]));
        i += 1;
    }
    assert(v@.take(v.len() as int) =~= v@);
    r
}

impl Component {
    /// A copy of the component.
    pub fn duplicate(&self) -> (r: Component)
        ensures
            r@ == self@,
    {
        Component {
            carrier: self.carrier,
            ctype: self.ctype,
            csubtype: self.csubtype,
            service: self.service,
            values: copy_values(&self.values),
            comment: self.comment.clone(),
        }
    }
}

/// Weighting factor of one carrier for one origin, destination and step.
#[derive(Debug)]
pub struct Factor {
    /// Energy carrier.
    pub carrier: Carrier,
    /// Origin of the energy.
    pub source: Source,
    /// Destination of the energy.
    pub dest: Dest,
    /// Calculation step.
    pub step: Step,
    /// Renewable part, in thousandths.
    pub ren: i128,
    /// Non renewable part, in thousandths.
    pub nren: i128,
    /// CO2 emissions, in thousandths.
    pub co2: i128,
    /// Free text.
    pub comment: String,
}

/// Mathematical value of a weighting factor row.
pub struct FactorView {
    /// Energy carrier.
    pub carrier: Carrier,
    /// Origin of the energy.
    pub source: Source,
    /// Destination of the energy.
    pub dest: Dest,
    /// Calculation step.
    pub step: Step,
    /// The weighting triple, in thousandths.
    pub factors: RenNrenCo2,
    /// Free text.
    pub comment: Seq<char>,
}

impl View for Factor {
    type V = FactorView;

    open spec fn view(&self) -> FactorView {
        FactorView {
            carrier: self.carrier,
            source: self.source,
            dest: self.dest,
            step: self.step,
            factors: RenNrenCo2 { ren: self.ren, nren: self.nren, co2: self.co2 },
            comment: self.comment@,
        }
    }
}

impl Factor {
    /// A weighting factor row.
    pub fn new(
        carrier: Carrier,
        source: Source,
        dest: Dest,
        step: Step,
        factors: RenNrenCo2,
        comment: String,
    ) -> (r: Factor)
        ensures
            r@ == (FactorView {
                carrier,
                source,
                dest,
                step,
                factors,
                comment: comment@,
            }),
    {
        Factor {
            carrier,
            source,
            dest,
            step,
            ren: factors.ren,
            nren: factors.nren,
            co2: factors.co2,
            comment,
        }
    }

    /// The weighting triple of the row.
    pub fn factors(&self) -> (r: RenNrenCo2)
        ensures
            r == self@.factors,
    {
        RenNrenCo2 { ren: self.ren, nren: self.nren, co2: self.co2 }
    }

    /// A copy of the row.
    pub fn duplicate(&self) -> (r: Factor)
        ensures
            r@ == self@,
    {
        Factor {
            carrier: self.carrier,
            source: self.source,
            dest: self.dest,
            step: self.step,
            ren: self.ren,
            nren: self.nren,
            co2: self.co2,
            comment: self.comment.clone(),
        }
    }
}

/// Energy components with their metadata.
#[derive(Debug)]
pub struct Components {
    /// Metadata, in insertion order.
    pub cmeta: Vec<Meta>,
    /// Component rows.
    pub cdata: Vec<Component>,
}

/// Weighting factors with their metadata.
#[derive(Debug)]
pub struct Factors {
    /// Metadata, in insertion order.
    pub wmeta: Vec<Meta>,
    /// Factor rows.
    pub wdata: Vec<Factor>,
}

/// Mathematical value of a list of metadata entries.
pub open spec fn meta_views(metas: Seq<Meta>) -> Seq<MetaView> {
    Seq::new(metas.len(), |i: int| metas[i]@)
}

/// Mathematical value of a list of component rows.
pub open spec fn component_views(rows: Seq<Component>) -> Seq<ComponentView> {
    Seq::new(rows.len(), |i: int| rows[i]@)
}

/// Mathematical value of a list of factor rows.
pub open spec fn factor_views(rows: Seq<Factor>) -> Seq<FactorView> {
    Seq::new(rows.len(), |i: int| rows[i]@)
}

impl Components {
    /// The component rows as mathematical values.
    pub open spec fn rows(&self) -> Seq<ComponentView> {
        component_views(self.cdata@)
    }

    /// The metadata entries as mathematical values.
    pub open spec fn metas(&self) -> Seq<MetaView> {
        meta_views(self.cmeta@)
    }

    /// Components without rows or metadata.
    pub fn new() -> (r: Components)
        ensures
            r.rows() == Seq::<ComponentView>::empty(),
            r.metas() == Seq::<MetaView>::empty(),
    {
        let r = Components { cmeta: Vec::new(), cdata: Vec::new() };
        assert(r.rows() =~= Seq::<ComponentView>::empty());
        assert(r.metas() =~= Seq::<MetaView>::empty());
        r
    }
}

impl Default for Components {
    fn default() -> (r: Components)
        ensures
            r.rows() == Seq::<ComponentView>::empty(),
            r.metas() == Seq::<MetaView>::empty(),
    {
        Components::new()
    }
}

impl Default for Factors {
    fn default() -> (r: Factors)
        ensures
            r.rows() == Seq::<FactorView>::empty(),
            r.metas() == Seq::<MetaView>::empty(),
    {
        Factors::new()
    }
}

impl Factors {
    /// The factor rows as mathematical values.
    pub open spec fn rows(&self) -> Seq<FactorView> {
        factor_views(self.wdata@)
    }

    /// The metadata entries as mathematical values.
    pub open spec fn metas(&self) -> Seq<MetaView> {
        meta_views(self.wmeta@)
    }

    /// Factors without rows or metadata.
    pub fn new() -> (r: Factors)
        ensures
            r.rows() == Seq::<FactorView>::empty(),
            r.metas() == Seq::<MetaView>::empty(),
    {
        let r = Factors { wmeta: Vec::new(), wdata: Vec::new() };
        assert(r.rows() =~= Seq::<FactorView>::empty());
        assert(r.metas() =~= Seq::<MetaView>::empty());
        r
    }
}

} // verus!
