//! Settings of a calculation: the export factor, the reference area, the
//! location and the weighting factors that the user defines are taken from
//! the command line first, from the metadata of the components next, and
//! from the defaults last.
use vstd::prelude::*;

use crate::balance::KEXP_SCALE;
use crate::cte::Locality;
use crate::cte::AREAREF_DEFAULT;
use crate::cte::KEXP_DEFAULT;
use crate::decimal::decimal_value;
use crate::decimal::lemma_decimal_bounds;
use crate::decimal::parse_decimal;
use crate::decimal::MAX_DECIMAL;
use crate::error::EpbdError;
use crate::meta::find_meta;
use crate::parse::parse_components;
use crate::parse::spec_parse_components;
use crate::types::ComponentView;
use crate::meta::format_triple;
use crate::meta::meta_number;
use crate::meta::meta_value;
use crate::meta::triple_text;
use crate::meta::triple_value;
use crate::meta::with_meta;
use crate::rennrenco2::RenNrenCo2;
use crate::text::same_text;
use crate::types::Components;
use crate::types::MetaView;

verus! {

/// Where a setting comes from.
#[derive(Debug, Copy, Clone, PartialEq, Eq, Structural)]
pub enum Origin {
    /// Given by the user on the command line.
    User,
    /// Read from the metadata of the components.
    Metadata,
    /// The default.
    Default,
}

/// A setting with its origin.
#[derive(Debug, Copy, Clone, PartialEq, Eq, Structural)]
pub struct Resolved {
    /// The value, in thousandths.
    pub value: u64,
    /// Where the value comes from.
    pub origin: Origin,
    /// Whether the user gave a value that differs from the number of the
    /// metadata by more than one thousandth.
    pub mismatch: bool,
    /// The number of the metadata, in thousandths, where they hold one.
    pub metadata: Option<i128>,
}

/// Whether two numbers differ by more than one.
pub open spec fn differs(c: int, m: int) -> bool {
    c - m > 1 || m - c > 1
}

/// The setting that a value of the user, a number of the metadata and a
/// default give. The value of the user comes first, whatever the metadata
/// hold. Without it the number of the metadata is taken, which must not be
/// negative nor larger than what a value can hold. Without either, the
/// default.
pub open spec fn spec_resolve_setting(cli: Option<u64>, meta: Option<i128>, default: u64)
    -> Result<Resolved, EpbdError> {
    match cli {
        Some(c) => Ok(
            Resolved {
                value: c,
                origin: Origin::User,
                mismatch: match meta {
                    Some(m) => differs(c as int, m as int),
                    None => false,
                },
                metadata: meta,
            },
        ),
        None => match meta {
            Some(m) => if m < 0 || m > u64::MAX {
                Err(EpbdError::RangeError)
            } else {
                Ok(
                    Resolved {
                        value: m as u64,
                        origin: Origin::Metadata,
                        mismatch: false,
                        metadata: meta,
                    },
                )
            },
            None => Ok(
                Resolved {
                    value: default,
                    origin: Origin::Default,
                    mismatch: false,
                    metadata: None,
                },
            ),
        },
    }
}

/// Whether a value of the user and a number of the metadata differ by more
/// than one thousandth.
pub fn far_apart(c: u64, m: i128) -> (b: bool)
    ensures
        b == differs(c as int, m as int),
{
    if m < 0 {
        !(c == 0 && m == -1)
    } else {
        let cu: u128 = c as u128;
        let mu: u128 = m as u128;
        if cu > mu {
            cu - mu > 1
        } else {
            mu - cu > 1
        }
    }
}

/// Resolves a setting from the value of the user, the number of the
/// metadata and the default.
pub fn resolve(cli: Option<u64>, meta: Option<i128>, default: u64) -> (r: Result<
    Resolved,
    EpbdError,
>)
    ensures
        r == spec_resolve_setting(cli, meta, default),
{
    match cli {
        Some(c) => {
            let mismatch = match meta {
                Some(m) => far_apart(c, m),
                None => false,
            };
            Ok(Resolved { value: c, origin: Origin::User, mismatch, metadata: meta })
        },
        None => match meta {
            Some(m) => if m < 0 || m > u64::MAX as i128 {
                Err(EpbdError::RangeError)
            } else {
                Ok(
                    Resolved {
                        value: m as u64,
                        origin: Origin::Metadata,
                        mismatch: false,
                        metadata: meta,
                    },
                )
            },
            None => Ok(
                Resolved {
                    value: default,
                    origin: Origin::Default,
                    mismatch: false,
                    metadata: None,
                },
            ),
        },
    }
}

/// An export factor of the user that has been checked.
#[derive(Debug, Copy, Clone, PartialEq, Eq, Structural)]
pub struct CheckedKexp {
    /// The export factor in thousandths, if the user gave one.
    pub value: Option<u64>,
    /// Whether it differs from the export factor of the regulation.
    pub differs: bool,
}

/// What the check of the export factor of the user gives: a text that is
/// no decimal text is a `ParseError`, a value below zero or above one a
/// `RangeError`.
pub open spec fn spec_validate_kexp(raw: Option<Seq<char>>) -> Result<CheckedKexp, EpbdError> {
    match raw {
        None => Ok(CheckedKexp { value: None, differs: false }),
        Some(text) => match decimal_value(text) {
            None => Err(EpbdError::ParseError(0)),
            Some(x) => if x < 0 || x > KEXP_SCALE {
                Err(EpbdError::RangeError)
            } else {
                Ok(CheckedKexp { value: Some(x as u64), differs: x != KEXP_DEFAULT })
            },
        },
    }
}

/// The text of an optional text.
pub open spec fn text_view(raw: Option<&str>) -> Option<Seq<char>> {
    match raw {
        Some(s) => Some(s@),
        None => None,
    }
}

/// Checks the export factor that the user gave, if any: it must be a
/// decimal text between zero and one.
pub fn validate_kexp(raw: Option<&str>) -> (r: Result<CheckedKexp, EpbdError>)
    ensures
        r == spec_validate_kexp(text_view(raw)),
{
    match raw {
        None => Ok(CheckedKexp { value: None, differs: false }),
        Some(text) => match parse_decimal(text) {
            None => Err(EpbdError::ParseError(0)),
            Some(x) => if x < 0 || x > KEXP_SCALE as i128 {
                Err(EpbdError::RangeError)
            } else {
                Ok(CheckedKexp { value: Some(x as u64), differs: x as u64 != KEXP_DEFAULT })
            },
        },
    }
}

/// What the check of the reference area of the user gives: a text that is
/// no decimal text is a `ParseError`, an area that is not positive a
/// `RangeError`.
pub open spec fn spec_validate_arearef(raw: Option<Seq<char>>) -> Result<Option<u64>, EpbdError> {
    match raw {
        None => Ok(None),
        Some(text) => match decimal_value(text) {
            None => Err(EpbdError::ParseError(0)),
            Some(x) => if x <= 0 {
                Err(EpbdError::RangeError)
            } else {
                Ok(Some(x as u64))
            },
        },
    }
}

/// Checks the reference area that the user gave, if any: it must be a
/// decimal text above zero.
pub fn validate_arearef(raw: Option<&str>) -> (r: Result<Option<u64>, EpbdError>)
    ensures
        r == spec_validate_arearef(text_view(raw)),
{
    match raw {
        None => Ok(None),
        Some(text) => match parse_decimal(text) {
            None => Err(EpbdError::ParseError(0)),
            Some(x) => if x <= 0 {
                Err(EpbdError::RangeError)
            } else {
                Ok(Some(x as u64))
            },
        },
    }
}

/// The number that the metadata hold under a name, if they hold one.
pub open spec fn meta_number_held(metas: Seq<MetaView>, key: Seq<char>) -> Option<i128> {
    match meta_number(metas, key) {
        Some(x) => Some(x as i128),
        None => None,
    }
}

/// A setting of a calculation, from the value of the user, the metadata
/// entry with a name and the default.
///
/// The value of the user wins, whatever the entry holds: the entry then
/// only tells whether the two differ, where it holds a number. Without a
/// value of the user the entry is taken: a text that is no decimal text is
/// a `ParseError`, a negative number a `RangeError`. Without an entry, the
/// default.
pub open spec fn spec_get_setting(
    metas: Seq<MetaView>,
    key: Seq<char>,
    cli: Option<u64>,
    default: u64,
) -> Result<Resolved, EpbdError> {
    if cli is None && find_meta(metas, key) is Some && meta_number(metas, key) is None {
        Err(EpbdError::ParseError(0))
    } else {
        spec_resolve_setting(cli, meta_number_held(metas, key), default)
    }
}

/// A setting of a calculation: the value of the user, else the number of
/// the metadata entry with the name, else the default.
pub fn get_setting(components: &Components, key: &str, cli: Option<u64>, default: u64) -> (r:
    Result<Resolved, EpbdError>)
    ensures
        r == spec_get_setting(components.metas(), key@, cli, default),
{
    let number = components.get_meta_number(key);
    if cli.is_none() && number.is_none() && components.has_meta(key) {
        return Err(EpbdError::ParseError(0));
    }
    proof {
        match meta_value(components.metas(), key@) {
            Some(v) => {
                lemma_decimal_bounds(v);
            },
            None => {},
        }
    }
    resolve(cli, number, default)
}

/// The reference area of a calculation, from the value of the user, the
/// metadata entry `CTE_AREAREF` and the default.
pub open spec fn spec_get_arearef(metas: Seq<MetaView>, cli: Option<u64>) -> Result<
    Resolved,
    EpbdError,
> {
    spec_get_setting(metas, "CTE_AREAREF"@, cli, AREAREF_DEFAULT)
}

/// The reference area of a calculation: that of the user, whatever the
/// metadata hold; else that of the metadata of the components; else the
/// default.
pub fn get_arearef(components: &Components, cli: Option<u64>) -> (r: Result<Resolved, EpbdError>)
    ensures
        r == spec_get_arearef(components.metas(), cli),
{
    get_setting(components, "CTE_AREAREF", cli, AREAREF_DEFAULT)
}

/// The export factor of a calculation, from the value of the user, the
/// metadata entry `CTE_KEXP` and the default.
pub open spec fn spec_get_kexp(metas: Seq<MetaView>, cli: Option<u64>) -> Result<
    Resolved,
    EpbdError,
> {
    spec_get_setting(metas, "CTE_KEXP"@, cli, KEXP_DEFAULT)
}

/// The export factor of a calculation: that of the user, whatever the
/// metadata hold; else that of the metadata of the components; else that
/// of the regulation.
pub fn get_kexp(components: &Components, cli: Option<u64>) -> (r: Result<Resolved, EpbdError>)
    ensures
        r == spec_get_kexp(components.metas(), cli),
{
    get_setting(components, "CTE_KEXP", cli, KEXP_DEFAULT)
}

/// The value of the user wins: where the user gave a value, it is the
/// setting, whatever the metadata hold, and a mismatch is told only where
/// the metadata hold a number that differs from it by more than one
/// thousandth.
pub proof fn lemma_user_wins(metas: Seq<MetaView>, key: Seq<char>, c: u64, default: u64)
    ensures
        spec_get_setting(metas, key, Some(c), default) is Ok,
        spec_get_setting(metas, key, Some(c), default).unwrap().value == c,
        spec_get_setting(metas, key, Some(c), default).unwrap().origin == Origin::User,
        spec_get_setting(metas, key, Some(c), default).unwrap().mismatch == match meta_number(
            metas,
            key,
        ) {
            Some(m) => differs(c as int, m),
            None => false,
        },
{
    match meta_value(metas, key) {
        Some(v) => {
            lemma_decimal_bounds(v);
        },
        None => {},
    }
}

/// A weighting factor that the user defines, with its origin.
#[derive(Debug, Copy, Clone, PartialEq, Eq, Structural)]
pub struct UserFactor {
    /// The factor, in thousandths.
    pub factor: RenNrenCo2,
    /// Where it comes from: the command line or the metadata.
    pub origin: Origin,
}

/// The texts of a list of texts.
pub open spec fn text_views(values: Seq<String>) -> Seq<Seq<char>> {
    Seq::new(values.len(), |i: int| values[i]@)
}

/// The weighting factor that three texts of the command line stand for: a
/// `ParseError` unless they are three decimal texts.
pub open spec fn spec_cli_factor(values: Seq<Seq<char>>) -> Result<RenNrenCo2, EpbdError> {
    if values.len() == 3 && decimal_value(values[0]) is Some && decimal_value(values[1]) is Some
        && decimal_value(values[2]) is Some {
        Ok(
            RenNrenCo2 {
                ren: decimal_value(values[0]).unwrap() as i128,
                nren: decimal_value(values[1]).unwrap() as i128,
                co2: decimal_value(values[2]).unwrap() as i128,
            },
        )
    } else {
        Err(EpbdError::ParseError(0))
    }
}

/// The weighting factor that the texts of the command line stand for.
pub fn cli_factor(values: &Vec<String>) -> (r: Result<RenNrenCo2, EpbdError>)
    ensures
        r == spec_cli_factor(text_views(values@)),
{
    if values.len() != 3 {
        return Err(EpbdError::ParseError(0));
    }
    proof {
        assert(text_views(values@)[0] == values[0]@);
        assert(text_views(values@)[1] == values[1]@);
        assert(text_views(values@)[2] == values[2]@);
    }
    let ren = parse_decimal(values[0].as_str());
    let nren = parse_decimal(values[1].as_str());
    let co2 = parse_decimal(values[2].as_str());
    match (ren, nren, co2) {
        (Some(a), Some(b), Some(c)) => Ok(RenNrenCo2 { ren: a, nren: b, co2: c }),
        _ => Err(EpbdError::ParseError(0)),
    }
}

/// The texts of an optional list of texts.
pub open spec fn values_view(cli: Option<&Vec<String>>) -> Option<Seq<Seq<char>>> {
    match cli {
        Some(v) => Some(text_views(v@)),
        None => None,
    }
}

/// The weighting factor that the user defines under a name: that of the
/// command line, where there is one, else that of the metadata entry with
/// the name, where its text is a weighting triple.
pub open spec fn spec_get_factor(
    cli: Option<Seq<Seq<char>>>,
    metas: Seq<MetaView>,
    key: Seq<char>,
) -> Result<Option<UserFactor>, EpbdError> {
    match cli {
        Some(values) => match spec_cli_factor(values) {
            Err(e) => Err(e),
            Ok(f) => Ok(Some(UserFactor { factor: f, origin: Origin::User })),
        },
        None => match meta_value(metas, key) {
            None => Ok(None),
            Some(v) => match triple_value(v) {
                None => Ok(None),
                Some(f) => Ok(Some(UserFactor { factor: f, origin: Origin::Metadata })),
            },
        },
    }
}

/// The metadata after a weighting factor is resolved: where there is one,
/// the entry with the name holds its text.
pub open spec fn metas_after_factor(
    metas: Seq<MetaView>,
    key: Seq<char>,
    found: Result<Option<UserFactor>, EpbdError>,
) -> Seq<MetaView> {
    match found {
        Ok(Some(u)) => with_meta(metas, key, triple_text(u.factor)),
        _ => metas,
    }
}

/// Resolves a weighting factor that the user defines: that of the command
/// line, else that of the metadata entry with the name. The factor that is
/// found is written to the metadata entry.
pub fn get_factor(cli: Option<&Vec<String>>, components: &mut Components, meta: &str) -> (r: Result<
    Option<UserFactor>,
    EpbdError,
>)
    ensures
        r == spec_get_factor(values_view(cli), old(components).metas(), meta@),
        final(components).metas() == metas_after_factor(old(components).metas(), meta@, r),
        final(components).rows() == old(components).rows(),
{
    let found = match cli {
        Some(values) => match cli_factor(values) {
            Err(e) => {
                return Err(e);
            },
            Ok(f) => Some(UserFactor { factor: f, origin: Origin::User }),
        },
        None => match components.get_meta_rennren(meta) {
            None => None,
            Some(f) => Some(UserFactor { factor: f, origin: Origin::Metadata }),
        },
    };
    match found {
        Some(u) => {
            proof {
                lemma_decimals_fit(values_view(cli), old(components).metas(), meta@);
            }
            let text = format_triple(u.factor);
            components.update_meta(meta, text.as_str());
        },
        None => {},
    }
    Ok(found)
}

/// A weighting factor that is read has parts within the largest value that
/// is read.
pub proof fn lemma_decimals_fit(
    cli: Option<Seq<Seq<char>>>,
    metas: Seq<MetaView>,
    key: Seq<char>,
)
    ensures
        match spec_get_factor(cli, metas, key) {
            Ok(Some(u)) => u.factor@.within(MAX_DECIMAL as int),
            _ => true,
        },
{
    match cli {
        Some(values) => {
            if values.len() == 3 {
                lemma_decimal_bounds(values[0]);
                lemma_decimal_bounds(values[1]);
                lemma_decimal_bounds(values[2]);
            }
        },
        None => {
            match meta_value(metas, key) {
                Some(v) => {
                    let f = crate::text::fields(v, ',');
                    if f.len() == 3 {
                        lemma_decimal_bounds(f[0]);
                        lemma_decimal_bounds(f[1]);
                        lemma_decimal_bounds(f[2]);
                    }
                },
                None => {},
            }
        },
    }
}

/// The location that a name stands for.
pub open spec fn spec_locality(name: Seq<char>) -> Option<Locality> {
    if name == "PENINSULA"@ {
        Some(Locality::PENINSULA)
    } else if name == "BALEARES"@ {
        Some(Locality::BALEARES)
    } else if name == "CANARIAS"@ {
        Some(Locality::CANARIAS)
    } else if name == "CEUTAMELILLA"@ {
        Some(Locality::CEUTAMELILLA)
    } else {
        None
    }
}

/// The location that a name stands for.
pub fn locality_from_name(name: &str) -> (r: Option<Locality>)
    ensures
        r == spec_locality(name@),
{
    if same_text(name, "PENINSULA") {
        Some(Locality::PENINSULA)
    } else if same_text(name, "BALEARES") {
        Some(Locality::BALEARES)
    } else if same_text(name, "CANARIAS") {
        Some(Locality::CANARIAS)
    } else if same_text(name, "CEUTAMELILLA") {
        Some(Locality::CEUTAMELILLA)
    } else {
        None
    }
}

/// The components of a calculation: those that the text of a file holds,
/// or none where there is no file.
pub open spec fn spec_get_components(text: Option<Seq<char>>) -> Result<
    (Seq<MetaView>, Seq<ComponentView>),
    EpbdError,
> {
    match text {
        Some(t) => spec_parse_components(t),
        None => Ok((Seq::empty(), Seq::empty())),
    }
}

/// The components of a calculation: those that the text of the file of
/// components holds, or none where there is no file.
pub fn get_components(text: Option<&str>) -> (r: Result<Components, EpbdError>)
    ensures
        match r {
            Ok(c) => spec_get_components(text_view(text)) == Ok::<
                (Seq<MetaView>, Seq<ComponentView>),
                EpbdError,
            >((c.metas(), c.rows())),
            Err(e) => spec_get_components(text_view(text)) == Err::<
                (Seq<MetaView>, Seq<ComponentView>),
                EpbdError,
            >(e),
        },
{
    match text {
        Some(t) => parse_components(t),
        None => Ok(Components::new()),
    }
}

} // verus!
