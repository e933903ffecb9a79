//! Names of the carriers, roles, origins, services, sources, destinations
//! and steps, as they stand in the files of components and of factors.
use vstd::prelude::*;

use crate::text::same_chars;
use crate::text::to_chars;
use crate::types::CSubtype;
use crate::types::CType;
use crate::types::Carrier;
use crate::types::Dest;
use crate::types::Service;
use crate::types::Source;
use crate::types::Step;

verus! {

/// Whether a list of characters is a text.
pub fn chars_are(v: &Vec<char>, text: &str) -> (b: bool)
    ensures
        b == (v@ == text@),
{
    let t = to_chars(text);
    same_chars(v, &t)
}

impl Carrier {
    /// The name of the carrier.
    pub open spec fn spec_name(self) -> Seq<char> {
        match self {
            Carrier::BIOCARBURANTE => "BIOCARBURANTE"@,
            Carrier::BIOMASA => "BIOMASA"@,
            Carrier::BIOMASADENSIFICADA => "BIOMASADENSIFICADA"@,
            Carrier::CARBON => "CARBON"@,
            Carrier::ELECTRICIDAD => "ELECTRICIDAD"@,
            Carrier::FUELOIL => "FUELOIL"@,
            Carrier::GASNATURAL => "GASNATURAL"@,
            Carrier::GASOLEO => "GASOLEO"@,
            Carrier::GLP => "GLP"@,
            Carrier::MEDIOAMBIENTE => "MEDIOAMBIENTE"@,
            Carrier::RED1 => "RED1"@,
            Carrier::RED2 => "RED2"@,
        }
    }

    /// The name of the carrier.
    pub fn name(self) -> (r: &'static str)
        ensures
            r@ == self.spec_name(),
    {
        match self {
            Carrier::BIOCARBURANTE => "BIOCARBURANTE",
            Carrier::BIOMASA => "BIOMASA",
            Carrier::BIOMASADENSIFICADA => "BIOMASADENSIFICADA",
            Carrier::CARBON => "CARBON",
            Carrier::ELECTRICIDAD => "ELECTRICIDAD",
            Carrier::FUELOIL => "FUELOIL",
            Carrier::GASNATURAL => "GASNATURAL",
            Carrier::GASOLEO => "GASOLEO",
            Carrier::GLP => "GLP",
            Carrier::MEDIOAMBIENTE => "MEDIOAMBIENTE",
            Carrier::RED1 => "RED1",
            Carrier::RED2 => "RED2",
        }
    }

    /// The carrier with a name, if the name is one.
    pub open spec fn spec_named(name: Seq<char>) -> Option<Carrier> {
        if name == "BIOCARBURANTE"@ {
            Some(Carrier::BIOCARBURANTE)
        } else if name == "BIOMASA"@ {
            Some(Carrier::BIOMASA)
        } else if name == "BIOMASADENSIFICADA"@ {
            Some(Carrier::BIOMASADENSIFICADA)
        } else if name == "CARBON"@ {
            Some(Carrier::CARBON)
        } else if name == "ELECTRICIDAD"@ {
            Some(Carrier::ELECTRICIDAD)
        } else if name == "FUELOIL"@ {
            Some(Carrier::FUELOIL)
        } else if name == "GASNATURAL"@ {
            Some(Carrier::GASNATURAL)
        } else if name == "GASOLEO"@ {
            Some(Carrier::GASOLEO)
        } else if name == "GLP"@ {
            Some(Carrier::GLP)
        } else if name == "MEDIOAMBIENTE"@ {
            Some(Carrier::MEDIOAMBIENTE)
        } else if name == "RED1"@ {
            Some(Carrier::RED1)
        } else if name == "RED2"@ {
            Some(Carrier::RED2)
        } else {
            None
        }
    }

    /// The carrier with a name, if the name is one.
    pub fn named(name: &Vec<char>) -> (r: Option<Carrier>)
        ensures
            r == Carrier::spec_named(name@),
    {
        if chars_are(name, "BIOCARBURANTE") {
            Some(Carrier::BIOCARBURANTE)
        } else if chars_are(name, "BIOMASA") {
            Some(Carrier::BIOMASA)
        } else if chars_are(name, "BIOMASADENSIFICADA") {
            Some(Carrier::BIOMASADENSIFICADA)
        } else if chars_are(name, "CARBON") {
            Some(Carrier::CARBON)
        } else if chars_are(name, "ELECTRICIDAD") {
            Some(Carrier::ELECTRICIDAD)
        } else if chars_are(name, "FUELOIL") {
            Some(Carrier::FUELOIL)
        } else if chars_are(name, "GASNATURAL") {
            Some(Carrier::GASNATURAL)
        } else if chars_are(name, "GASOLEO") {
            Some(Carrier::GASOLEO)
        } else if chars_are(name, "GLP") {
            Some(Carrier::GLP)
        } else if chars_are(name, "MEDIOAMBIENTE") {
            Some(Carrier::MEDIOAMBIENTE)
        } else if chars_are(name, "RED1") {
            Some(Carrier::RED1)
        } else if chars_are(name, "RED2") {
            Some(Carrier::RED2)
        } else {
            None
        }
    }
}

impl CType {
    /// The name of the role.
    pub open spec fn spec_name(self) -> Seq<char> {
        match self {
            CType::CONSUMO => "CONSUMO"@,
            CType::PRODUCCION => "PRODUCCION"@,
        }
    }

    /// The name of the role.
    pub fn name(self) -> (r: &'static str)
        ensures
            r@ == self.spec_name(),
    {
        match self {
            CType::CONSUMO => "CONSUMO",
            CType::PRODUCCION => "PRODUCCION",
        }
    }

    /// The role with a name, if the name is one.
    pub open spec fn spec_named(name: Seq<char>) -> Option<CType> {
        if name == "CONSUMO"@ {
            Some(CType::CONSUMO)
        } else if name == "PRODUCCION"@ {
            Some(CType::PRODUCCION)
        } else {
            None
        }
    }

    /// The role with a name, if the name is one.
    pub fn named(name: &Vec<char>) -> (r: Option<CType>)
        ensures
            r == CType::spec_named(name@),
    {
        if chars_are(name, "CONSUMO") {
            Some(CType::CONSUMO)
        } else if chars_are(name, "PRODUCCION") {
            Some(CType::PRODUCCION)
        } else {
            None
        }
    }
}

impl CSubtype {
    /// The name of the origin or kind of use.
    pub open spec fn spec_name(self) -> Seq<char> {
        match self {
            CSubtype::INSITU => "INSITU"@,
            CSubtype::COGENERACION => "COGENERACION"@,
            CSubtype::EPB => "EPB"@,
            CSubtype::NEPB => "NEPB"@,
        }
    }

    /// The name of the origin or kind of use.
    pub fn name(self) -> (r: &'static str)
        ensures
            r@ == self.spec_name(),
    {
        match self {
            CSubtype::INSITU => "INSITU",
            CSubtype::COGENERACION => "COGENERACION",
            CSubtype::EPB => "EPB",
            CSubtype::NEPB => "NEPB",
        }
    }

    /// The origin or kind of use with a name, if the name is one.
    pub open spec fn spec_named(name: Seq<char>) -> Option<CSubtype> {
        if name == "INSITU"@ {
            Some(CSubtype::INSITU)
        } else if name == "COGENERACION"@ {
            Some(CSubtype::COGENERACION)
        } else if name == "EPB"@ {
            Some(CSubtype::EPB)
        } else if name == "NEPB"@ {
            Some(CSubtype::NEPB)
        } else {
            None
        }
    }

    /// The origin or kind of use with a name, if the name is one.
    pub fn named(name: &Vec<char>) -> (r: Option<CSubtype>)
        ensures
            r == CSubtype::spec_named(name@),
    {
        if chars_are(name, "INSITU") {
            Some(CSubtype::INSITU)
        } else if chars_are(name, "COGENERACION") {
            Some(CSubtype::COGENERACION)
        } else if chars_are(name, "EPB") {
            Some(CSubtype::EPB)
        } else if chars_are(name, "NEPB") {
            Some(CSubtype::NEPB)
        } else {
            None
        }
    }
}

impl Service {
    /// The name of the service.
    pub open spec fn spec_name(self) -> Seq<char> {
        match self {
            Service::ACS => "ACS"@,
            Service::CAL => "CAL"@,
            Service::REF => "REF"@,
            Service::VEN => "VEN"@,
            Service::ILU => "ILU"@,
            Service::HU => "HU"@,
            Service::DHU => "DHU"@,
            Service::BAC => "BAC"@,
            Service::NEPB => "NEPB"@,
            Service::CO2 => "CO2"@,
            Service::NDEF => "NDEF"@,
        }
    }

    /// The name of the service.
    pub fn name(self) -> (r: &'static str)
        ensures
            r@ == self.spec_name(),
    {
        match self {
            Service::ACS => "ACS",
            Service::CAL => "CAL",
            Service::REF => "REF",
            Service::VEN => "VEN",
            Service::ILU => "ILU",
            Service::HU => "HU",
            Service::DHU => "DHU",
            Service::BAC => "BAC",
            Service::NEPB => "NEPB",
            Service::CO2 => "CO2",
            Service::NDEF => "NDEF",
        }
    }

    /// The service with a name, if the name is one.
    pub open spec fn spec_named(name: Seq<char>) -> Option<Service> {
        if name == "ACS"@ {
            Some(Service::ACS)
        } else if name == "CAL"@ {
            Some(Service::CAL)
        } else if name == "REF"@ {
            Some(Service::REF)
        } else if name == "VEN"@ {
            Some(Service::VEN)
        } else if name == "ILU"@ {
            Some(Service::ILU)
        } else if name == "HU"@ {
            Some(Service::HU)
        } else if name == "DHU"@ {
            Some(Service::DHU)
        } else if name == "BAC"@ {
            Some(Service::BAC)
        } else if name == "NEPB"@ {
            Some(Service::NEPB)
        } else if name == "CO2"@ {
            Some(Service::CO2)
        } else if name == "NDEF"@ {
            Some(Service::NDEF)
        } else {
            None
        }
    }

    /// The service with a name, if the name is one.
    pub fn named(name: &Vec<char>) -> (r: Option<Service>)
        ensures
            r == Service::spec_named(name@),
    {
        if chars_are(name, "ACS") {
            Some(Service::ACS)
        } else if chars_are(name, "CAL") {
            Some(Service::CAL)
        } else if chars_are(name, "REF") {
            Some(Service::REF)
        } else if chars_are(name, "VEN") {
            Some(Service::VEN)
        } else if chars_are(name, "ILU") {
            Some(Service::ILU)
        } else if chars_are(name, "HU") {
            Some(Service::HU)
        } else if chars_are(name, "DHU") {
            Some(Service::DHU)
        } else if chars_are(name, "BAC") {
            Some(Service::BAC)
        } else if chars_are(name, "NEPB") {
            Some(Service::NEPB)
        } else if chars_are(name, "CO2") {
            Some(Service::CO2)
        } else if chars_are(name, "NDEF") {
            Some(Service::NDEF)
        } else {
            None
        }
    }
}

impl Source {
    /// The name of the source.
    pub open spec fn spec_name(self) -> Seq<char> {
        match self {
            Source::RED => "RED"@,
            Source::INSITU => "INSITU"@,
            Source::COGENERACION => "COGENERACION"@,
        }
    }

    /// The name of the source.
    pub fn name(self) -> (r: &'static str)
        ensures
            r@ == self.spec_name(),
    {
        match self {
            Source::RED => "RED",
            Source::INSITU => "INSITU",
            Source::COGENERACION => "COGENERACION",
        }
    }

    /// The source with a name, if the name is one.
    pub open spec fn spec_named(name: Seq<char>) -> Option<Source> {
        if name == "RED"@ {
            Some(Source::RED)
        } else if name == "INSITU"@ {
            Some(Source::INSITU)
        } else if name == "COGENERACION"@ {
            Some(Source::COGENERACION)
        } else {
            None
        }
    }

    /// The source with a name, if the name is one.
    pub fn named(name: &Vec<char>) -> (r: Option<Source>)
        ensures
            r == Source::spec_named(name@),
    {
        if chars_are(name, "RED") {
            Some(Source::RED)
        } else if chars_are(name, "INSITU") {
            Some(Source::INSITU)
        } else if chars_are(name, "COGENERACION") {
            Some(Source::COGENERACION)
        } else {
            None
        }
    }
}

impl Dest {
    /// The name of the destination.
    pub open spec fn spec_name(self) -> Seq<char> {
        match self {
            Dest::input => "input"@,
            Dest::to_grid => "to_grid"@,
            Dest::to_nEPB => "to_nEPB"@,
        }
    }

    /// The name of the destination.
    pub fn name(self) -> (r: &'static str)
        ensures
            r@ == self.spec_name(),
    {
        match self {
            Dest::input => "input",
            Dest::to_grid => "to_grid",
            Dest::to_nEPB => "to_nEPB",
        }
    }

    /// The destination with a name, if the name is one.
    pub open spec fn spec_named(name: Seq<char>) -> Option<Dest> {
        if name == "input"@ {
            Some(Dest::input)
        } else if name == "to_grid"@ {
            Some(Dest::to_grid)
        } else if name == "to_nEPB"@ {
            Some(Dest::to_nEPB)
        } else {
            None
        }
    }

    /// The destination with a name, if the name is one.
    pub fn named(name: &Vec<char>) -> (r: Option<Dest>)
        ensures
            r == Dest::spec_named(name@),
    {
        if chars_are(name, "input") {
            Some(Dest::input)
        } else if chars_are(name, "to_grid") {
            Some(Dest::to_grid)
        } else if chars_are(name, "to_nEPB") {
            Some(Dest::to_nEPB)
        } else {
            None
        }
    }
}

impl Step {
    /// The name of the step.
    pub open spec fn spec_name(self) -> Seq<char> {
        match self {
            Step::A => "A"@,
            Step::B => "B"@,
        }
    }

    /// The name of the step.
    pub fn name(self) -> (r: &'static str)
        ensures
            r@ == self.spec_name(),
    {
        match self {
            Step::A => "A",
            Step::B => "B",
        }
    }

    /// The step with a name, if the name is one.
    pub open spec fn spec_named(name: Seq<char>) -> Option<Step> {
        if name == "A"@ {
            Some(Step::A)
        } else if name == "B"@ {
            Some(Step::B)
        } else {
            None
        }
    }

    /// The step with a name, if the name is one.
    pub fn named(name: &Vec<char>) -> (r: Option<Step>)
        ensures
            r == Step::spec_named(name@),
    {
        if chars_are(name, "A") {
            Some(Step::A)
        } else if chars_are(name, "B") {
            Some(Step::B)
        } else {
            None
        }
    }
}

} // verus!
