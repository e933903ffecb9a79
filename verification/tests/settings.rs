use cteepbd::cte::{Locality, AREAREF_DEFAULT, KEXP_DEFAULT};
use cteepbd::outcome::{
    exit_code, get_location, outputs_requested, plan, simplifies, Outcome, Plan,
};
use cteepbd::outcome::Located;
use cteepbd::settings::{
    cli_factor, far_apart, get_arearef, get_components, get_factor, get_kexp, get_setting,
    locality_from_name, resolve, validate_arearef, validate_kexp, CheckedKexp, Origin, Resolved,
    UserFactor,
};
use cteepbd::{Components, EpbdError, RenNrenCo2};

fn with_metadata(entries: &[(&str, &str)]) -> Components {
    let mut c = Components::new();
    for (k, v) in entries {
        c.update_meta(k, v);
    }
    c
}

#[test]
fn kexp_of_the_user_is_checked() {
    assert_eq!(validate_kexp(None), Ok(CheckedKexp { value: None, differs: false }));
    assert_eq!(validate_kexp(Some("0.0")), Ok(CheckedKexp { value: Some(0), differs: false }));
    assert_eq!(validate_kexp(Some("0.5")), Ok(CheckedKexp { value: Some(500), differs: true }));
    assert_eq!(validate_kexp(Some("1")), Ok(CheckedKexp { value: Some(1000), differs: true }));
    assert_eq!(validate_kexp(Some("1.001")), Err(EpbdError::RangeError));
    assert_eq!(validate_kexp(Some("1.0004")), Ok(CheckedKexp { value: Some(1000), differs: true }));
    assert_eq!(validate_kexp(Some("1.0005")), Err(EpbdError::RangeError));
    assert_eq!(validate_kexp(Some("-0.1")), Err(EpbdError::RangeError));
    assert_eq!(validate_kexp(Some("much")), Err(EpbdError::ParseError(0)));
    assert_eq!(KEXP_DEFAULT, 0);
}

#[test]
fn area_of_the_user_is_checked() {
    assert_eq!(validate_arearef(None), Ok(None));
    assert_eq!(validate_arearef(Some("1.0")), Ok(Some(1000)));
    assert_eq!(validate_arearef(Some("200.75")), Ok(Some(200750)));
    assert_eq!(validate_arearef(Some("0.001")), Ok(Some(1)));
    assert_eq!(validate_arearef(Some("0.0005")), Ok(Some(1)));
    assert_eq!(validate_arearef(Some("1.5e2")), Ok(Some(150_000)));
    assert_eq!(validate_arearef(Some("0.0004")), Err(EpbdError::RangeError));
    assert_eq!(validate_arearef(Some("0")), Err(EpbdError::RangeError));
    assert_eq!(validate_arearef(Some("-3")), Err(EpbdError::RangeError));
    assert_eq!(validate_arearef(Some("3 m2")), Err(EpbdError::ParseError(0)));
    assert_eq!(AREAREF_DEFAULT, 1000);
}

fn user(value: u64, mismatch: bool, metadata: Option<i128>) -> Resolved {
    Resolved { value, origin: Origin::User, mismatch, metadata }
}

fn from_metadata(value: u64) -> Resolved {
    Resolved { value, origin: Origin::Metadata, mismatch: false, metadata: Some(value as i128) }
}

fn by_default(value: u64) -> Resolved {
    Resolved { value, origin: Origin::Default, mismatch: false, metadata: None }
}

#[test]
fn the_user_comes_before_the_metadata_and_the_default() {
    assert_eq!(resolve(Some(5), Some(7), 9), Ok(user(5, true, Some(7))));
    assert_eq!(resolve(Some(6), Some(7), 9), Ok(user(6, false, Some(7))));
    assert_eq!(resolve(Some(9), Some(7), 9), Ok(user(9, true, Some(7))));
    assert_eq!(resolve(Some(5), None, 9), Ok(user(5, false, None)));
    assert_eq!(resolve(None, Some(7), 9), Ok(from_metadata(7)));
    assert_eq!(resolve(None, None, 9), Ok(by_default(9)));
}

#[test]
fn the_user_wins_whatever_the_metadata_hold() {
    assert_eq!(resolve(Some(5), Some(-7), 9), Ok(user(5, true, Some(-7))));
    assert_eq!(resolve(Some(0), Some(-1), 9), Ok(user(0, false, Some(-1))));
    assert_eq!(resolve(Some(0), Some(-2), 9), Ok(user(0, true, Some(-2))));
    assert_eq!(resolve(Some(5), Some(i128::MIN), 9), Ok(user(5, true, Some(i128::MIN))));
    assert_eq!(resolve(Some(5), Some(i128::MAX), 9), Ok(user(5, true, Some(i128::MAX))));
    assert_eq!(resolve(None, Some(-7), 9), Err(EpbdError::RangeError));
    assert_eq!(resolve(None, Some(i128::MAX), 9), Err(EpbdError::RangeError));
    assert_eq!(far_apart(1000, 1001), false);
    assert_eq!(far_apart(1000, 1002), true);
    assert_eq!(far_apart(1000, 998), true);

    let negative = with_metadata(&[("CTE_KEXP", "-1"), ("CTE_AREAREF", "-1")]);
    assert_eq!(get_kexp(&negative, Some(500)), Ok(user(500, true, Some(-1000))));
    assert_eq!(get_arearef(&negative, Some(100_000)), Ok(user(100_000, true, Some(-1000))));
    assert_eq!(get_kexp(&negative, None), Err(EpbdError::RangeError));
    assert_eq!(get_arearef(&negative, None), Err(EpbdError::RangeError));

    let unreadable = with_metadata(&[("CTE_KEXP", "half"), ("CTE_AREAREF", "big")]);
    assert_eq!(get_kexp(&unreadable, Some(500)), Ok(user(500, false, None)));
    assert_eq!(get_arearef(&unreadable, Some(2000)), Ok(user(2000, false, None)));
    assert_eq!(get_kexp(&unreadable, None), Err(EpbdError::ParseError(0)));
    assert_eq!(get_arearef(&unreadable, None), Err(EpbdError::ParseError(0)));

    let large = with_metadata(&[("CTE_KEXP", "5")]);
    assert_eq!(get_kexp(&large, Some(500)), Ok(user(500, true, Some(5000))));
    assert_eq!(get_kexp(&large, None), Ok(from_metadata(5000)));
    assert_eq!(negative.cmeta.len(), 2);
    assert_eq!(negative.cmeta[0].value, "-1");
}

#[test]
fn area_is_resolved() {
    let c = with_metadata(&[("CTE_AREAREF", "120.5")]);
    assert_eq!(get_arearef(&c, None), Ok(from_metadata(120500)));
    assert_eq!(get_arearef(&c, Some(100000)), Ok(user(100000, true, Some(120500))));
    assert_eq!(get_arearef(&c, Some(120500)), Ok(user(120500, false, Some(120500))));
    assert_eq!(get_arearef(&c, Some(120501)), Ok(user(120501, false, Some(120500))));
    let empty = Components::new();
    assert_eq!(get_arearef(&empty, None), Ok(by_default(1000)));
    assert_eq!(get_arearef(&empty, Some(2000)), Ok(user(2000, false, None)));
    let bad = with_metadata(&[("CTE_AREAREF", "big")]);
    assert_eq!(get_arearef(&bad, Some(2000)), Ok(user(2000, false, None)));
    assert_eq!(get_arearef(&bad, None), Err(EpbdError::ParseError(0)));
    let negative = with_metadata(&[("CTE_AREAREF", "-1")]);
    assert_eq!(get_arearef(&negative, None), Err(EpbdError::RangeError));
    assert_eq!(get_setting(&c, "CTE_AREAREF", None, 7), Ok(from_metadata(120500)));
    assert_eq!(get_setting(&c, "CTE_OTRO", None, 7), Ok(by_default(7)));
}

#[test]
fn kexp_is_resolved() {
    let c = with_metadata(&[("CTE_KEXP", "0.3")]);
    assert_eq!(get_kexp(&c, None), Ok(from_metadata(300)));
    assert_eq!(get_kexp(&c, Some(1000)), Ok(user(1000, true, Some(300))));
    assert_eq!(get_kexp(&Components::new(), None), Ok(by_default(0)));
    let bad = with_metadata(&[("CTE_KEXP", "")]);
    assert_eq!(get_kexp(&bad, None), Err(EpbdError::ParseError(0)));
    assert_eq!(get_kexp(&bad, Some(0)), Ok(user(0, false, None)));
}

#[test]
fn factor_of_the_user_comes_from_the_command_line_first() {
    let mut c = with_metadata(&[("CTE_COGEN", "0, 1.0, 0.1")]);
    let cli = vec!["0".to_string(), " 2.5".to_string(), "0.3 ".to_string()];
    let r = get_factor(Some(&cli), &mut c, "CTE_COGEN");
    assert_eq!(
        r,
        Ok(Some(UserFactor {
            factor: RenNrenCo2 { ren: 0, nren: 2500, co2: 300 },
            origin: Origin::User
        }))
    );
    assert_eq!(c.get_meta("CTE_COGEN"), Some("0.000, 2.500, 0.300".to_string()));
    assert_eq!(c.cmeta.len(), 1);
}

#[test]
fn factor_of_the_user_comes_from_the_metadata_next() {
    let mut c = with_metadata(&[("CTE_RED1", "0, 1.3, 0.3"), ("CTE_COGENNEPB", "0.1, 2, 0.25")]);
    assert_eq!(
        get_factor(None, &mut c, "CTE_RED1"),
        Ok(Some(UserFactor {
            factor: RenNrenCo2 { ren: 0, nren: 1300, co2: 300 },
            origin: Origin::Metadata
        }))
    );
    assert_eq!(c.get_meta("CTE_RED1"), Some("0.000, 1.300, 0.300".to_string()));
    assert_eq!(
        get_factor(None, &mut c, "CTE_COGENNEPB"),
        Ok(Some(UserFactor {
            factor: RenNrenCo2 { ren: 100, nren: 2000, co2: 250 },
            origin: Origin::Metadata
        }))
    );
    assert_eq!(get_factor(None, &mut c, "CTE_RED2"), Ok(None));
    assert_eq!(c.get_meta("CTE_RED2"), None);
    assert_eq!(c.cmeta.len(), 2);
}

#[test]
fn malformed_factor_of_the_user_is_refused() {
    let mut c = Components::new();
    let two = vec!["0".to_string(), "2.5".to_string()];
    assert_eq!(get_factor(Some(&two), &mut c, "CTE_RED2"), Err(EpbdError::ParseError(0)));
    let bad = vec!["0".to_string(), "2,5".to_string(), "1".to_string()];
    assert_eq!(get_factor(Some(&bad), &mut c, "CTE_RED2"), Err(EpbdError::ParseError(0)));
    assert!(c.cmeta.is_empty());
    assert_eq!(cli_factor(&bad), Err(EpbdError::ParseError(0)));
    let unreadable = with_metadata(&[("CTE_RED1", "0, 1.3")]);
    let mut d = unreadable;
    assert_eq!(get_factor(None, &mut d, "CTE_RED1"), Ok(None));
    assert_eq!(d.get_meta("CTE_RED1"), Some("0, 1.3".to_string()));
}

#[test]
fn metadata_keeps_the_order_of_insertion() {
    let mut c = Components::new();
    assert!(!c.has_meta("A"));
    c.update_meta("A", "1");
    c.update_meta("B", "2");
    c.update_meta("A", "3");
    assert!(c.has_meta("A"));
    assert_eq!(c.cmeta.len(), 2);
    assert_eq!(c.cmeta[0].key, "A");
    assert_eq!(c.cmeta[0].value, "3");
    assert_eq!(c.cmeta[1].key, "B");
    assert_eq!(c.get_meta("B"), Some("2".to_string()));
    assert_eq!(c.get_meta("C"), None);
    assert_eq!(c.get_meta_number("A"), Some(3000));
    assert_eq!(c.get_meta_rennren("A"), None);
}

#[test]
fn components_come_from_the_file_or_are_none() {
    let none = get_components(None).unwrap();
    assert!(none.cdata.is_empty());
    let some = get_components(Some("ELECTRICIDAD, CONSUMO, EPB, ACS, 1, 2")).unwrap();
    assert_eq!(some.cdata.len(), 1);
    assert_eq!(some.cdata[0].values, vec![1000, 2000]);
    assert_eq!(
        get_components(Some("ELECTRICIDAD, CONSUMO")).err(),
        Some(EpbdError::ParseError(1))
    );
}

#[test]
fn exit_codes_follow_the_outcome() {
    assert_eq!(exit_code(Outcome::Done), 0);
    assert_eq!(exit_code(Outcome::Usage), 64);
    assert_eq!(exit_code(Outcome::Data(EpbdError::RangeError)), 65);
    assert_eq!(exit_code(Outcome::Data(EpbdError::ParseError(3))), 65);
    assert_eq!(exit_code(Outcome::Io), 74);
    assert_eq!(exit_code(Outcome::Done), exitcode::OK);
    assert_eq!(exit_code(Outcome::Usage), exitcode::USAGE);
    assert_eq!(exit_code(Outcome::Data(EpbdError::ShapeError)), exitcode::DATAERR);
    assert_eq!(exit_code(Outcome::Io), exitcode::IOERR);
}

#[test]
fn location_comes_from_the_user_or_the_metadata() {
    let mut c = with_metadata(&[("CTE_LOCALIZACION", "CANARIAS")]);
    assert_eq!(
        get_location(None, &mut c),
        Ok(Located { locality: Locality::CANARIAS, origin: Origin::Metadata })
    );
    assert_eq!(
        get_location(Some("BALEARES"), &mut c),
        Ok(Located { locality: Locality::BALEARES, origin: Origin::User })
    );
    assert_eq!(c.get_meta("CTE_LOCALIZACION"), Some("BALEARES".to_string()));
    let mut empty = Components::new();
    assert_eq!(get_location(None, &mut empty), Err(Outcome::Usage));
    assert_eq!(
        get_location(Some("MADRID"), &mut empty),
        Err(Outcome::Data(EpbdError::ParseError(0)))
    );
    assert_eq!(locality_from_name("PENINSULA"), Some(Locality::PENINSULA));
    assert_eq!(locality_from_name("CEUTAMELILLA"), Some(Locality::CEUTAMELILLA));
    assert_eq!(locality_from_name("peninsula"), None);
}

#[test]
fn the_balance_is_computed_where_there_are_components() {
    assert_eq!(plan(true, false), Plan::Compute);
    assert_eq!(plan(true, true), Plan::Compute);
    assert_eq!(plan(false, true), Plan::OutputsOnly);
    assert_eq!(plan(false, false), Plan::Nothing);
    assert!(!outputs_requested(false, false, false, false, false));
    assert!(outputs_requested(false, false, false, true, false));
    assert!(outputs_requested(true, false, false, false, false));
    assert!(simplifies(false, true));
    assert!(!simplifies(true, true));
    assert!(!simplifies(false, false));
}

#[test]
fn errors_have_a_message() {
    assert_eq!(EpbdError::ParseError(0).to_string(), "valor con formato incorrecto");
    assert_eq!(EpbdError::ParseError(120).to_string(), "formato incorrecto en la linea 120");
    assert_eq!(EpbdError::ShapeError.to_string(), "vectores con distinto numero de pasos");
    assert_eq!(EpbdError::RangeError.to_string(), "valor fuera de rango");
    assert_eq!(EpbdError::Inconsistent.to_string(), "componente inconsistente");
    assert_eq!(
        EpbdError::MissingFactor(
            cteepbd::Carrier::GLP,
            cteepbd::Source::RED,
            cteepbd::Dest::to_nEPB,
            cteepbd::Step::B
        )
        .to_string(),
        "falta el factor de paso GLP, RED, to_nEPB, B"
    );
}
