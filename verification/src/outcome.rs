//! How a run ends, and the exit code that it hands to the system.
use vstd::prelude::*;

use crate::cte::Locality;
use crate::error::EpbdError;
use crate::meta::meta_value;
use crate::meta::with_meta;
use crate::settings::locality_from_name;
use crate::settings::Origin;
use crate::settings::spec_locality;
use crate::settings::text_view;
use crate::types::Components;
use crate::types::MetaView;

verus! {

/// How a run ends.
#[derive(Debug, Copy, Clone, PartialEq, Eq, Structural)]
pub enum Outcome {
    /// The run is done.
    Done,
    /// The data of the user are wrong: a malformed number or row, or a
    /// parameter out of range.
    Data(EpbdError),
    /// A file could not be read or written.
    Io,
    /// There are neither a file of weighting factors nor a location.
    Usage,
}

/// The constant `OK` of the crate `exitcode`: the code of a successful
/// exit, which is 0.
#[verifier::external_body]
fn code_ok() -> (r: i32)
    ensures
        r == 0,
{
    exitcode::OK
}

/// The constant `USAGE` of the crate `exitcode`: the code of a command
/// that was used incorrectly, which is 64.
#[verifier::external_body]
fn code_usage() -> (r: i32)
    ensures
        r == 64,
{
    exitcode::USAGE
}

/// The constant `DATAERR` of the crate `exitcode`: the code of incorrect
/// input data, which is 65.
#[verifier::external_body]
fn code_dataerr() -> (r: i32)
    ensures
        r == 65,
{
    exitcode::DATAERR
}

/// The constant `IOERR` of the crate `exitcode`: the code of an error
/// while doing input or output on a file, which is 74.
#[verifier::external_body]
fn code_ioerr() -> (r: i32)
    ensures
        r == 74,
{
    exitcode::IOERR
}

/// The exit code of an outcome.
pub open spec fn spec_exit_code(outcome: Outcome) -> int {
    match outcome {
        Outcome::Done => 0,
        Outcome::Usage => 64,
        Outcome::Data(_) => 65,
        Outcome::Io => 74,
    }
}

/// The exit code that a run hands to the system.
pub fn exit_code(outcome: Outcome) -> (r: i32)
    ensures
        r == spec_exit_code(outcome),
{
    match outcome {
        Outcome::Done => code_ok(),
        Outcome::Usage => code_usage(),
        Outcome::Data(_) => code_dataerr(),
        Outcome::Io => code_ioerr(),
    }
}

/// What a run does about the balance.
#[derive(Debug, Copy, Clone, PartialEq, Eq, Structural)]
pub enum Plan {
    /// There are components: the balance is computed.
    Compute,
    /// There are no components, but an output was asked for and written:
    /// the balance is left out.
    OutputsOnly,
    /// There are no components and no output was asked for: the data do
    /// not suffice.
    Nothing,
}

/// What a run does about the balance, from whether there are components
/// and whether an output file was asked for.
pub fn plan(has_components: bool, outputs_requested: bool) -> (r: Plan)
    ensures
        r == if has_components {
            Plan::Compute
        } else if outputs_requested {
            Plan::OutputsOnly
        } else {
            Plan::Nothing
        },
{
    if has_components {
        Plan::Compute
    } else if outputs_requested {
        Plan::OutputsOnly
    } else {
        Plan::Nothing
    }
}

/// Whether an output file was asked for: of the components, of the
/// weighting factors, or of the results as JSON, XML or plain text.
pub fn outputs_requested(components: bool, factors: bool, json: bool, xml: bool, txt: bool) -> (r:
    bool)
    ensures
        r == (components || factors || json || xml || txt),
{
    components || factors || json || xml || txt
}

/// Whether the weighting factors are reduced to the carriers in use: unless
/// the user asked not to, and where there are components.
pub fn simplifies(no_simplifica_fps: bool, has_components: bool) -> (r: bool)
    ensures
        r == (!no_simplifica_fps && has_components),
{
    !no_simplifica_fps && has_components
}

/// A location with its origin.
#[derive(Debug, Copy, Clone, PartialEq, Eq, Structural)]
pub struct Located {
    /// The location.
    pub locality: Locality,
    /// Where it comes from: the user or the metadata.
    pub origin: Origin,
}

/// The name of the location of a calculation: that of the user, else that
/// of the metadata entry `CTE_LOCALIZACION`.
pub open spec fn location_name(cli: Option<Seq<char>>, metas: Seq<MetaView>) -> Option<Seq<char>> {
    match cli {
        Some(v) => Some(v),
        None => meta_value(metas, "CTE_LOCALIZACION"@),
    }
}

/// The location of a calculation, with its origin: without a name the run
/// cannot go on, which is an error of usage; a name that is no location is
/// a `ParseError`.
pub open spec fn spec_get_location(cli: Option<Seq<char>>, metas: Seq<MetaView>) -> Result<
    Located,
    Outcome,
> {
    match location_name(cli, metas) {
        None => Err(Outcome::Usage),
        Some(name) => match spec_locality(name) {
            None => Err(Outcome::Data(EpbdError::ParseError(0))),
            Some(loc) => Ok(
                Located {
                    locality: loc,
                    origin: if cli is Some {
                        Origin::User
                    } else {
                        Origin::Metadata
                    },
                },
            ),
        },
    }
}

/// Resolves the location of a calculation: that of the user, which is
/// written to the metadata entry `CTE_LOCALIZACION`, else that of the
/// entry.
pub fn get_location(cli: Option<&str>, components: &mut Components) -> (r: Result<
    Located,
    Outcome,
>)
    ensures
        r == spec_get_location(text_view(cli), old(components).metas()),
        final(components).metas() == match text_view(cli) {
            Some(v) => with_meta(old(components).metas(), "CTE_LOCALIZACION"@, v),
            None => old(components).metas(),
        },
        final(components).rows() == old(components).rows(),
{
    let (name, origin): (String, Origin) = match cli {
        Some(v) => {
            components.update_meta("CTE_LOCALIZACION", v);
            (String::from_str(v), Origin::User)
        },
        None => match components.get_meta("CTE_LOCALIZACION") {
            Some(v) => (v, Origin::Metadata),
            None => {
                return Err(Outcome::Usage);
            },
        },
    };
    match locality_from_name(name.as_str()) {
        Some(loc) => Ok(Located { locality: loc, origin }),
        None => Err(Outcome::Data(EpbdError::ParseError(0))),
    }
}

} // verus!
