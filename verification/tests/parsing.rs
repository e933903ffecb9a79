use cteepbd::decimal::{format_decimal, format_one_decimal, format_two_decimals, parse_decimal};
use cteepbd::meta::{format_triple, parse_triple};
use cteepbd::parse::{
    parse_components, parse_wfactors, read_component_line, read_factor_line,
};
use cteepbd::text::{same_text, split_chars, to_chars, to_text};
use cteepbd::{
    CSubtype, CType, Carrier, Dest, EpbdError, RenNrenCo2, Service, Source, Step,
};

#[test]
fn decimal_texts_are_read_in_thousandths() {
    assert_eq!(parse_decimal("0"), Some(0));
    assert_eq!(parse_decimal("1"), Some(1000));
    assert_eq!(parse_decimal("1.0"), Some(1000));
    assert_eq!(parse_decimal("2.5"), Some(2500));
    assert_eq!(parse_decimal("0.414"), Some(414));
    assert_eq!(parse_decimal("12.34"), Some(12340));
    assert_eq!(parse_decimal(".5"), Some(500));
    assert_eq!(parse_decimal("5."), Some(5000));
    assert_eq!(parse_decimal("  7.25\t"), Some(7250));
    assert_eq!(parse_decimal("-1.5"), Some(-1500));
    assert_eq!(parse_decimal("+1.5"), Some(1500));
    assert_eq!(parse_decimal("-0"), Some(0));
    assert_eq!(parse_decimal("007"), Some(7000));
}

#[test]
fn decimals_are_rounded_to_the_nearest_thousandth() {
    assert_eq!(parse_decimal("1.23456"), Some(1235));
    assert_eq!(parse_decimal("1.2344"), Some(1234));
    assert_eq!(parse_decimal("1.2345"), Some(1235));
    assert_eq!(parse_decimal("1.23449999"), Some(1234));
    assert_eq!(parse_decimal("0.0009"), Some(1));
    assert_eq!(parse_decimal("0.0005"), Some(1));
    assert_eq!(parse_decimal("0.0004"), Some(0));
    assert_eq!(parse_decimal("-0.9999"), Some(-1000));
    assert_eq!(parse_decimal("0.9995"), Some(1000));
}

#[test]
fn exponents_move_the_point() {
    assert_eq!(parse_decimal("1e3"), Some(1_000_000));
    assert_eq!(parse_decimal("1E3"), Some(1_000_000));
    assert_eq!(parse_decimal("1.5e3"), Some(1_500_000));
    assert_eq!(parse_decimal("1.5e+3"), Some(1_500_000));
    assert_eq!(parse_decimal("-2.5e1"), Some(-25_000));
    assert_eq!(parse_decimal("1e0"), Some(1000));
    assert_eq!(parse_decimal("1e-3"), Some(1));
    assert_eq!(parse_decimal("1e-4"), Some(0));
    assert_eq!(parse_decimal("5e-4"), Some(1));
    assert_eq!(parse_decimal("4.9e-4"), Some(0));
    assert_eq!(parse_decimal("12345e-2"), Some(123_450));
    assert_eq!(parse_decimal("12345e-7"), Some(1));
    assert_eq!(parse_decimal("12345e-8"), Some(0));
    assert_eq!(parse_decimal("0.00012345e4"), Some(1235));
    assert_eq!(parse_decimal(".5e1"), Some(5000));
    assert_eq!(parse_decimal("5.e1"), Some(50_000));
    assert_eq!(parse_decimal("1e15"), Some(1_000_000_000_000_000_000));
    assert_eq!(parse_decimal("1e16"), None);
    assert_eq!(parse_decimal("0e99999999999999999999999999999999999999"), Some(0));
    assert_eq!(parse_decimal("1e99999999999999999999999999999999999999"), None);
    assert_eq!(parse_decimal("1e-99999999999999999999999999999999999999"), Some(0));
    assert_eq!(parse_decimal("1e0000000000000000000000000000000000000002"), Some(100_000));
    assert_eq!(parse_decimal("123456789012345678901234567890e-20"), Some(1_234_567_890_123));
    assert_eq!(parse_decimal("  8.76e3 "), Some(8_760_000));
}

#[test]
fn what_is_no_decimal_text_is_refused() {
    assert_eq!(parse_decimal(""), None);
    assert_eq!(parse_decimal("   "), None);
    assert_eq!(parse_decimal("."), None);
    assert_eq!(parse_decimal("-"), None);
    assert_eq!(parse_decimal("1.2.3"), None);
    assert_eq!(parse_decimal("1,5"), None);
    assert_eq!(parse_decimal("e3"), None);
    assert_eq!(parse_decimal("1e"), None);
    assert_eq!(parse_decimal("1e+"), None);
    assert_eq!(parse_decimal("1e3.5"), None);
    assert_eq!(parse_decimal("1e3e4"), None);
    assert_eq!(parse_decimal(".e3"), None);
    assert_eq!(parse_decimal("1e 3"), None);
    assert_eq!(parse_decimal("inf"), None);
    assert_eq!(parse_decimal("abc"), None);
    assert_eq!(parse_decimal("1 2"), None);
    assert_eq!(parse_decimal("--1"), None);
    assert_eq!(parse_decimal("1.5x"), None);
    assert_eq!(parse_decimal("NaN"), None);
}

#[test]
fn decimal_texts_have_a_largest_value() {
    assert_eq!(parse_decimal("1000000000000000"), Some(1_000_000_000_000_000_000));
    assert_eq!(parse_decimal("1000000000000000.001"), None);
    assert_eq!(parse_decimal("1000000000000000.0004"), Some(1_000_000_000_000_000_000));
    assert_eq!(parse_decimal("1000000000000000.0005"), None);
    assert_eq!(parse_decimal("1000000000000001"), None);
    assert_eq!(parse_decimal("99999999999999999999999999999999999999999999"), None);
    assert_eq!(parse_decimal("-1000000000000000"), Some(-1_000_000_000_000_000_000));
}

#[test]
fn decimals_are_written_with_three_decimals() {
    assert_eq!(format_decimal(0), "0.000");
    assert_eq!(format_decimal(1), "0.001");
    assert_eq!(format_decimal(1000), "1.000");
    assert_eq!(format_decimal(2500), "2.500");
    assert_eq!(format_decimal(-414), "-0.414");
    assert_eq!(format_decimal(123456789), "123456.789");
    assert_eq!(format_decimal(-1020), "-1.020");
}

#[test]
fn written_decimals_are_read_back() {
    for x in [0i128, 1, -1, 999, 1000, -1001, 123456, 1_000_000_000_000_000_000] {
        assert_eq!(parse_decimal(&format_decimal(x)), Some(x));
    }
}

#[test]
fn triples_are_read_and_written() {
    assert_eq!(
        parse_triple("0, 2.5, 0.3"),
        Some(RenNrenCo2 { ren: 0, nren: 2500, co2: 300 })
    );
    assert_eq!(parse_triple("0, 2.5"), None);
    assert_eq!(parse_triple("0, 2.5, 0.3, 1"), None);
    assert_eq!(parse_triple("0, x, 0.3"), None);
    assert_eq!(format_triple(RenNrenCo2 { ren: 0, nren: 2500, co2: 300 }), "0.000, 2.500, 0.300");
    assert_eq!(
        parse_triple(&format_triple(RenNrenCo2 { ren: -5, nren: 1190, co2: 252 })),
        Some(RenNrenCo2 { ren: -5, nren: 1190, co2: 252 })
    );
}

#[test]
fn texts_are_split_at_the_separator() {
    let parts = split_chars(&to_chars("a,,bc,"), ',');
    let texts: Vec<String> = parts.iter().map(|p| to_text(p, 0, p.len())).collect();
    assert_eq!(texts, vec!["a", "", "bc", ""]);
    assert_eq!(split_chars(&to_chars(""), ',').len(), 1);
    assert_eq!(split_chars(&to_chars("abc"), ',').len(), 1);
    assert!(same_text("RED1", "RED1"));
    assert!(!same_text("RED1", "RED2"));
    assert!(!same_text("RED", "RED1"));
    assert_eq!(to_chars("año"), vec!['a', 'ñ', 'o']);
    assert_eq!(to_text(&to_chars("energía"), 4, 7), "gía");
}

#[test]
fn names_are_read_and_written() {
    assert_eq!(Carrier::named(&to_chars("ELECTRICIDAD")), Some(Carrier::ELECTRICIDAD));
    assert_eq!(Carrier::named(&to_chars("RED2")), Some(Carrier::RED2));
    assert_eq!(Carrier::named(&to_chars("electricidad")), None);
    assert_eq!(Carrier::GASNATURAL.name(), "GASNATURAL");
    assert_eq!(CType::named(&to_chars("PRODUCCION")), Some(CType::PRODUCCION));
    assert_eq!(CSubtype::named(&to_chars("NEPB")), Some(CSubtype::NEPB));
    assert_eq!(Service::named(&to_chars("NDEF")), Some(Service::NDEF));
    assert_eq!(Service::named(&to_chars("CO2")), Some(Service::CO2));
    assert_eq!(Source::named(&to_chars("RED")), Some(Source::RED));
    assert_eq!(Dest::named(&to_chars("to_nEPB")), Some(Dest::to_nEPB));
    assert_eq!(Dest::to_grid.name(), "to_grid");
    assert_eq!(Step::named(&to_chars("B")), Some(Step::B));
    assert_eq!(Step::named(&to_chars("C")), None);
    for i in 0..12 {
        let c = Carrier::at(i);
        assert_eq!(c.index(), i);
        assert_eq!(Carrier::named(&to_chars(c.name())), Some(c));
    }
    for i in 0..11 {
        let s = Service::at(i);
        assert_eq!(s.index(), i);
        assert_eq!(Service::named(&to_chars(s.name())), Some(s));
    }
}

const COMPONENTS: &str = "#META CTE_AREAREF: 100.5
#META CTE_KEXP: 0.0
# a comment
ELECTRICIDAD, CONSUMO, EPB, ILU, 10.5, 20, 30.25 # lighting, metered

MEDIOAMBIENTE,PRODUCCION,INSITU,NDEF,1,2,3
  GASNATURAL , CONSUMO , EPB , CAL , 0 , 0.001 , 7 #boiler
";

#[test]
fn components_are_read_from_text() {
    let c = parse_components(COMPONENTS).unwrap();
    assert_eq!(c.cmeta.len(), 2);
    assert_eq!(c.cmeta[0].key, "CTE_AREAREF");
    assert_eq!(c.cmeta[0].value, "100.5");
    assert_eq!(c.cmeta[1].key, "CTE_KEXP");
    assert_eq!(c.cdata.len(), 3);
    assert_eq!(c.cdata[0].carrier, Carrier::ELECTRICIDAD);
    assert_eq!(c.cdata[0].ctype, CType::CONSUMO);
    assert_eq!(c.cdata[0].csubtype, CSubtype::EPB);
    assert_eq!(c.cdata[0].service, Service::ILU);
    assert_eq!(c.cdata[0].values, vec![10500, 20000, 30250]);
    assert_eq!(c.cdata[0].comment, "lighting, metered");
    assert_eq!(c.cdata[1].carrier, Carrier::MEDIOAMBIENTE);
    assert_eq!(c.cdata[1].values, vec![1000, 2000, 3000]);
    assert_eq!(c.cdata[1].comment, "");
    assert_eq!(c.cdata[2].values, vec![0, 1, 7000]);
    assert_eq!(c.cdata[2].comment, "boiler");
    assert_eq!(c.get_meta("CTE_AREAREF"), Some("100.5".to_string()));
    assert_eq!(c.get_meta_number("CTE_AREAREF"), Some(100500));
}

#[test]
fn an_empty_text_holds_no_components() {
    let c = parse_components("").unwrap();
    assert!(c.cdata.is_empty());
    assert!(c.cmeta.is_empty());
    let d = parse_components("\n\n# only a comment\r\n").unwrap();
    assert!(d.cdata.is_empty());
}

#[test]
fn malformed_rows_are_parse_errors_with_their_line() {
    assert_eq!(
        parse_components("ELECTRICIDAD, CONSUMO, EPB, ILU").err(),
        Some(EpbdError::ParseError(1))
    );
    assert_eq!(
        parse_components("# ok\nELECTRICIDAD, CONSUMO, EPB, ILU, 1, x").err(),
        Some(EpbdError::ParseError(2))
    );
    assert_eq!(
        parse_components("\n\nVAPOR, CONSUMO, EPB, ILU, 1").err(),
        Some(EpbdError::ParseError(3))
    );
    assert_eq!(
        parse_components("ELECTRICIDAD, CONSUMO, EPB, LUZ, 1").err(),
        Some(EpbdError::ParseError(1))
    );
    assert_eq!(
        parse_components("#META without colon").err(),
        Some(EpbdError::ParseError(1))
    );
}

#[test]
fn rows_of_different_lengths_are_a_shape_error() {
    assert_eq!(
        parse_components("ELECTRICIDAD, CONSUMO, EPB, ILU, 1, 2\nELECTRICIDAD, CONSUMO, EPB, ACS, 1")
            .err(),
        Some(EpbdError::ShapeError)
    );
}

#[test]
fn negative_values_are_a_range_error() {
    assert_eq!(
        parse_components("ELECTRICIDAD, CONSUMO, EPB, ILU, 1, -2").err(),
        Some(EpbdError::RangeError)
    );
}

const FACTORS: &str = "#META CTE_FUENTE: user
ELECTRICIDAD, RED, input, A, 0.414, 1.954, 0.331 # delivered
ELECTRICIDAD, INSITU, to_grid, B, 0.5, 2.0, 0.42
# comment
MEDIOAMBIENTE, INSITU, input, A, 1, 0, 0
";

#[test]
fn factors_are_read_from_text() {
    let f = parse_wfactors(FACTORS).unwrap();
    assert_eq!(f.wmeta.len(), 1);
    assert_eq!(f.wmeta[0].key, "CTE_FUENTE");
    assert_eq!(f.wmeta[0].value, "user");
    assert_eq!(f.wdata.len(), 3);
    assert_eq!(f.wdata[0].carrier, Carrier::ELECTRICIDAD);
    assert_eq!(f.wdata[0].source, Source::RED);
    assert_eq!(f.wdata[0].dest, Dest::input);
    assert_eq!(f.wdata[0].step, Step::A);
    assert_eq!(f.wdata[0].factors(), RenNrenCo2 { ren: 414, nren: 1954, co2: 331 });
    assert_eq!(f.wdata[0].comment, "delivered");
    assert_eq!(f.wdata[1].dest, Dest::to_grid);
    assert_eq!(f.wdata[1].step, Step::B);
    assert_eq!(f.wdata[1].factors(), RenNrenCo2 { ren: 500, nren: 2000, co2: 420 });
    assert_eq!(f.wdata[2].factors(), RenNrenCo2 { ren: 1000, nren: 0, co2: 0 });
}

#[test]
fn malformed_factor_rows_are_parse_errors() {
    assert_eq!(
        parse_wfactors("ELECTRICIDAD, RED, input, A, 0.414, 1.954").err(),
        Some(EpbdError::ParseError(1))
    );
    assert_eq!(
        parse_wfactors("ELECTRICIDAD, RED, input, A, 0.414, 1.954, 0.3, 1").err(),
        Some(EpbdError::ParseError(1))
    );
    assert_eq!(
        parse_wfactors("\nELECTRICIDAD, RED, input, C, 0.414, 1.954, 0.3").err(),
        Some(EpbdError::ParseError(2))
    );
    assert_eq!(
        parse_wfactors("ELECTRICIDAD, RED, input, A, 0.414, 1.954, nada").err(),
        Some(EpbdError::ParseError(1))
    );
}

#[test]
fn a_line_that_fails_adds_nothing() {
    let mut metas = Vec::new();
    let mut rows = Vec::new();
    assert_eq!(
        read_component_line(&mut metas, &mut rows, &to_chars("#META CTE_KEXP: 0.5"), 1),
        Ok(())
    );
    assert_eq!(
        read_component_line(&mut metas, &mut rows, &to_chars("ELECTRICIDAD, CONSUMO, EPB, ILU, 1, 2"), 2),
        Ok(())
    );
    assert_eq!((metas.len(), rows.len()), (1, 1));
    for (line, error) in [
        ("ELECTRICIDAD, CONSUMO, EPB, ILU, 1", EpbdError::ShapeError),
        ("ELECTRICIDAD, CONSUMO, EPB, ILU, 1, x", EpbdError::ParseError(3)),
        ("ELECTRICIDAD, CONSUMO, EPB, ILU, 1, -1", EpbdError::RangeError),
        ("#META nothing", EpbdError::ParseError(3)),
    ] {
        assert_eq!(read_component_line(&mut metas, &mut rows, &to_chars(line), 3), Err(error));
        assert_eq!((metas.len(), rows.len()), (1, 1));
        assert_eq!(rows[0].values, vec![1000, 2000]);
        assert_eq!(metas[0].value, "0.5");
    }
    let mut wmeta = Vec::new();
    let mut wdata = Vec::new();
    assert_eq!(
        read_factor_line(&mut wmeta, &mut wdata, &to_chars("GLP, RED, input, A, 0.003, 1.201, 0.254"), 1),
        Ok(())
    );
    assert_eq!(
        read_factor_line(&mut wmeta, &mut wdata, &to_chars("GLP, RED, input, A, 0.003, 1.201"), 2),
        Err(EpbdError::ParseError(2))
    );
    assert_eq!((wmeta.len(), wdata.len()), (0, 1));
    assert_eq!(wdata[0].factors(), RenNrenCo2 { ren: 3, nren: 1201, co2: 254 });
}

#[test]
fn decimals_are_written_with_fewer_decimals() {
    assert_eq!(format_two_decimals(0), "0.00");
    assert_eq!(format_two_decimals(1000), "1.00");
    assert_eq!(format_two_decimals(120_504), "120.50");
    assert_eq!(format_two_decimals(120_505), "120.51");
    assert_eq!(format_two_decimals(999_995), "1000.00");
    assert_eq!(format_two_decimals(-1234), "-1.23");
    assert_eq!(format_two_decimals(4), "0.00");
    assert_eq!(format_one_decimal(0), "0.0");
    assert_eq!(format_one_decimal(500), "0.5");
    assert_eq!(format_one_decimal(1000), "1.0");
    assert_eq!(format_one_decimal(949), "0.9");
    assert_eq!(format_one_decimal(950), "1.0");
    assert_eq!(format_one_decimal(-250), "-0.3");
    assert_eq!(format_one_decimal(12_345), "12.3");
}
