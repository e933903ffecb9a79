use cteepbd::cte::{
    components_by_service, prepare_wfactors, strip_wfactors, wf_rite2014, wfactors_from_loc,
    wfactors_from_str, wfactors_to_nearby, CteUserWF, Locality,
};
use cteepbd::performance::find_missing;
use cteepbd::series::check_rows;
use cteepbd::wfactors::{lookup, FactorKey};
use cteepbd::{
    energy_performance, CSubtype, CType, Carrier, Component, Components, Dest, EpbdError, Factor,
    Factors, RenNrenCo2, Service, Source, Step,
};

fn prep_row(
    carrier: Carrier,
    ctype: CType,
    csubtype: CSubtype,
    service: Service,
    values: Vec<u64>,
) -> Component {
    Component { carrier, ctype, csubtype, service, values, comment: String::new() }
}

fn nothing_from_the_user() -> CteUserWF {
    CteUserWF { red1: None, red2: None, cogen_to_grid: None, cogen_to_nepb: None }
}

fn find(f: &Factors, carrier: Carrier, source: Source, dest: Dest, step: Step) -> Option<RenNrenCo2> {
    lookup(&f.wdata, FactorKey { carrier, source, dest, step })
}

fn triple(ren: i128, nren: i128, co2: i128) -> RenNrenCo2 {
    RenNrenCo2 { ren, nren, co2 }
}

fn electric_and_gas() -> Components {
    let mut c = Components::new();
    c.cdata.push(prep_row(Carrier::ELECTRICIDAD, CType::CONSUMO, CSubtype::EPB, Service::ILU, vec![1, 2]));
    c.cdata.push(prep_row(Carrier::GASNATURAL, CType::CONSUMO, CSubtype::EPB, Service::CAL, vec![1, 2]));
    c
}

#[test]
fn the_table_of_the_regulation_follows_the_location() {
    for (loc, grid) in [
        (Locality::PENINSULA, triple(414, 1954, 331)),
        (Locality::BALEARES, triple(82, 2968, 932)),
        (Locality::CANARIAS, triple(70, 2924, 776)),
        (Locality::CEUTAMELILLA, triple(72, 2718, 721)),
    ] {
        let f = wf_rite2014(loc);
        assert_eq!(f.wdata.len(), 26);
        assert_eq!(loc.grid_factor(), grid);
        assert_eq!(find(&f, Carrier::ELECTRICIDAD, Source::RED, Dest::input, Step::A), Some(grid));
        assert_eq!(find(&f, Carrier::ELECTRICIDAD, Source::INSITU, Dest::to_grid, Step::B), Some(grid));
        assert_eq!(
            find(&f, Carrier::ELECTRICIDAD, Source::INSITU, Dest::input, Step::A),
            Some(triple(1000, 0, 0))
        );
        assert_eq!(find(&f, Carrier::GLP, Source::RED, Dest::input, Step::A), Some(triple(3, 1201, 254)));
        assert_eq!(find(&f, Carrier::FUELOIL, Source::RED, Dest::input, Step::A), None);
    }
}

#[test]
fn preparation_keeps_the_carriers_in_use() {
    let c = electric_and_gas();
    let f = wfactors_from_loc(Locality::PENINSULA, &nothing_from_the_user(), &c).unwrap();
    assert!(f.wdata.iter().all(|r| r.carrier == Carrier::ELECTRICIDAD || r.carrier == Carrier::GASNATURAL));
    assert_eq!(find(&f, Carrier::GASNATURAL, Source::RED, Dest::input, Step::A), Some(triple(5, 1190, 252)));
    assert_eq!(find(&f, Carrier::BIOMASA, Source::RED, Dest::input, Step::A), None);
    assert_eq!(f.wdata.len(), 12);
    assert_eq!(find_missing(&c.cdata, &f.wdata), None);
}

#[test]
fn district_factors_of_the_user_replace_the_defaults() {
    let mut c = electric_and_gas();
    c.cdata.push(prep_row(Carrier::RED1, CType::CONSUMO, CSubtype::EPB, Service::CAL, vec![1, 2]));
    let defaults = wfactors_from_loc(Locality::PENINSULA, &nothing_from_the_user(), &c).unwrap();
    assert_eq!(find(&defaults, Carrier::RED1, Source::RED, Dest::input, Step::A), Some(triple(0, 1300, 300)));
    assert_eq!(find(&defaults, Carrier::RED2, Source::RED, Dest::input, Step::A), None);
    let user = CteUserWF {
        red1: Some(triple(100, 900, 200)),
        red2: Some(triple(0, 1100, 250)),
        cogen_to_grid: None,
        cogen_to_nepb: None,
    };
    let f = wfactors_from_loc(Locality::PENINSULA, &user, &c).unwrap();
    assert_eq!(find(&f, Carrier::RED1, Source::RED, Dest::input, Step::A), Some(triple(100, 900, 200)));
    assert_eq!(find(&f, Carrier::RED2, Source::RED, Dest::input, Step::A), Some(triple(0, 1100, 250)));
    let mut stripped = f;
    strip_wfactors(&mut stripped, &c);
    assert_eq!(find(&stripped, Carrier::RED2, Source::RED, Dest::input, Step::A), None);
    assert_eq!(find(&stripped, Carrier::RED1, Source::RED, Dest::input, Step::A), Some(triple(100, 900, 200)));
}

#[test]
fn a_district_network_in_use_needs_a_factor() {
    let mut c = Components::new();
    c.cdata.push(prep_row(Carrier::RED2, CType::CONSUMO, CSubtype::EPB, Service::REF, vec![1]));
    let mut base = Factors::new();
    base.wdata.push(Factor::new(
        Carrier::ELECTRICIDAD,
        Source::RED,
        Dest::input,
        Step::A,
        triple(414, 1954, 331),
        String::new(),
    ));
    assert_eq!(
        prepare_wfactors(&base, &nothing_from_the_user(), &c).err(),
        Some(EpbdError::MissingFactor(Carrier::RED2, Source::RED, Dest::input, Step::A))
    );
    let user = CteUserWF { red1: None, red2: Some(triple(0, 1300, 300)), cogen_to_grid: None, cogen_to_nepb: None };
    let f = prepare_wfactors(&base, &user, &c).unwrap();
    assert_eq!(f.wdata.len(), 1);
    assert_eq!(f.wdata[0].carrier, Carrier::RED2);
    assert_eq!(f.wdata[0].comment, "Factor de usuario");
}

#[test]
fn step_b_is_derived_where_the_table_leaves_it_out() {
    let text = "ELECTRICIDAD, RED, input, A, 0.4, 2.0, 0.3
ELECTRICIDAD, RED, to_grid, A, 0.5, 2.5, 0.4
ELECTRICIDAD, RED, to_nEPB, A, 0.4, 2.0, 0.3
ELECTRICIDAD, INSITU, input, A, 1, 0, 0
ELECTRICIDAD, INSITU, to_grid, A, 1, 0, 0
ELECTRICIDAD, INSITU, to_nEPB, A, 1, 0, 0
ELECTRICIDAD, INSITU, to_nEPB, B, 0.7, 0.7, 0.7
";
    let mut c = Components::new();
    c.cdata.push(prep_row(Carrier::ELECTRICIDAD, CType::PRODUCCION, CSubtype::INSITU, Service::NDEF, vec![5]));
    let f = wfactors_from_str(text, &nothing_from_the_user(), &c).unwrap();
    assert_eq!(f.wdata.len(), 8);
    // derived: the factor of step A plus what the export displaces less what the grid delivers
    assert_eq!(
        find(&f, Carrier::ELECTRICIDAD, Source::INSITU, Dest::to_grid, Step::B),
        Some(triple(1000 + 500 - 400, 2500 - 2000, 400 - 300))
    );
    // given: kept as it is
    assert_eq!(
        find(&f, Carrier::ELECTRICIDAD, Source::INSITU, Dest::to_nEPB, Step::B),
        Some(triple(700, 700, 700))
    );
    assert_eq!(f.wdata[7].step, Step::B);
    assert_eq!(f.wdata[7].comment, "Recursos evitados por la exportacion (paso B derivado)");
}

#[test]
fn derivation_needs_the_factors_of_the_grid() {
    let mut c = Components::new();
    c.cdata.push(prep_row(Carrier::ELECTRICIDAD, CType::PRODUCCION, CSubtype::INSITU, Service::NDEF, vec![5]));
    let no_displaced = "ELECTRICIDAD, RED, input, A, 0.4, 2.0, 0.3
ELECTRICIDAD, INSITU, to_grid, A, 1, 0, 0
";
    assert_eq!(
        wfactors_from_str(no_displaced, &nothing_from_the_user(), &c).err(),
        Some(EpbdError::MissingFactor(Carrier::ELECTRICIDAD, Source::RED, Dest::to_grid, Step::A))
    );
    let no_delivered = "ELECTRICIDAD, RED, to_grid, A, 0.4, 2.0, 0.3
ELECTRICIDAD, INSITU, to_grid, A, 1, 0, 0
";
    assert_eq!(
        wfactors_from_str(no_delivered, &nothing_from_the_user(), &c).err(),
        Some(EpbdError::MissingFactor(Carrier::ELECTRICIDAD, Source::RED, Dest::input, Step::A))
    );
    assert_eq!(
        wfactors_from_str("ELECTRICIDAD, RED, input", &nothing_from_the_user(), &c).err(),
        Some(EpbdError::ParseError(1))
    );
}

#[test]
fn factors_beyond_the_limit_are_a_range_error() {
    let c = electric_and_gas();
    let text = "ELECTRICIDAD, RED, input, A, 0.4, 1000.001, 0.3";
    assert_eq!(
        wfactors_from_str(text, &nothing_from_the_user(), &c).err(),
        Some(EpbdError::RangeError)
    );
    let user = CteUserWF { red1: Some(triple(0, -1_000_001, 0)), red2: None, cogen_to_grid: None, cogen_to_nepb: None };
    assert_eq!(
        wfactors_from_loc(Locality::PENINSULA, &user, &c).err(),
        Some(EpbdError::RangeError)
    );
}

#[test]
fn cogeneration_gets_its_factors_where_there_is_some() {
    let mut c = electric_and_gas();
    let without = wfactors_from_loc(Locality::PENINSULA, &nothing_from_the_user(), &c).unwrap();
    assert_eq!(find(&without, Carrier::ELECTRICIDAD, Source::COGENERACION, Dest::to_grid, Step::A), None);
    c.cdata.push(prep_row(
        Carrier::ELECTRICIDAD,
        CType::PRODUCCION,
        CSubtype::COGENERACION,
        Service::NDEF,
        vec![3, 3],
    ));
    let with = wfactors_from_loc(Locality::PENINSULA, &nothing_from_the_user(), &c).unwrap();
    assert_eq!(
        find(&with, Carrier::ELECTRICIDAD, Source::COGENERACION, Dest::to_grid, Step::A),
        Some(RenNrenCo2::new())
    );
    assert_eq!(
        find(&with, Carrier::ELECTRICIDAD, Source::COGENERACION, Dest::to_nEPB, Step::A),
        Some(RenNrenCo2::new())
    );
    assert_eq!(find_missing(&c.cdata, &with.wdata), None);
    let user = CteUserWF {
        red1: None,
        red2: None,
        cogen_to_grid: Some(triple(0, 2500, 300)),
        cogen_to_nepb: Some(triple(0, 2400, 290)),
    };
    let supplied = wfactors_from_loc(Locality::PENINSULA, &user, &c).unwrap();
    assert_eq!(
        find(&supplied, Carrier::ELECTRICIDAD, Source::COGENERACION, Dest::to_nEPB, Step::A),
        Some(triple(0, 2400, 290))
    );
}

#[test]
fn calculation_for_one_service_keeps_the_production() {
    let mut c = Components::new();
    c.update_meta("CTE_AREAREF", "10");
    c.cdata.push(prep_row(Carrier::ELECTRICIDAD, CType::CONSUMO, CSubtype::EPB, Service::ACS, vec![1]));
    c.cdata.push(prep_row(Carrier::ELECTRICIDAD, CType::CONSUMO, CSubtype::EPB, Service::CAL, vec![2]));
    c.cdata.push(prep_row(Carrier::ELECTRICIDAD, CType::PRODUCCION, CSubtype::INSITU, Service::NDEF, vec![3]));
    c.cdata.push(prep_row(Carrier::GASNATURAL, CType::CONSUMO, CSubtype::NEPB, Service::NEPB, vec![4]));
    c.cdata[0].comment = "hot water".to_string();
    let acs = components_by_service(&c, Service::ACS);
    assert_eq!(acs.cdata.len(), 2);
    assert_eq!(acs.cdata[0].values, vec![1]);
    assert_eq!(acs.cdata[0].comment, "hot water");
    assert_eq!(acs.cdata[1].values, vec![3]);
    assert_eq!(acs.get_meta("CTE_AREAREF"), Some("10".to_string()));
    assert_eq!(components_by_service(&c, Service::ILU).cdata.len(), 1);
}

#[test]
fn nearby_table_keeps_electricity_and_what_is_produced_on_site() {
    let f = wf_rite2014(Locality::CANARIAS);
    let near = wfactors_to_nearby(&f);
    assert_eq!(near.wdata.len(), f.wdata.len());
    assert_eq!(find(&near, Carrier::ELECTRICIDAD, Source::RED, Dest::input, Step::A), Some(triple(70, 2924, 776)));
    assert_eq!(find(&near, Carrier::GASOLEO, Source::RED, Dest::input, Step::A), Some(RenNrenCo2::new()));
    assert_eq!(find(&near, Carrier::MEDIOAMBIENTE, Source::RED, Dest::input, Step::A), Some(RenNrenCo2::new()));
    assert_eq!(find(&near, Carrier::MEDIOAMBIENTE, Source::INSITU, Dest::input, Step::A), Some(triple(1000, 0, 0)));
}

#[test]
fn rows_that_do_not_go_together_are_inconsistent() {
    let cases = vec![
        prep_row(Carrier::GASNATURAL, CType::PRODUCCION, CSubtype::COGENERACION, Service::NDEF, vec![1]),
        prep_row(Carrier::ELECTRICIDAD, CType::CONSUMO, CSubtype::INSITU, Service::ACS, vec![1]),
        prep_row(Carrier::ELECTRICIDAD, CType::PRODUCCION, CSubtype::EPB, Service::ACS, vec![1]),
        prep_row(Carrier::MEDIOAMBIENTE, CType::CONSUMO, CSubtype::NEPB, Service::NEPB, vec![1]),
    ];
    let f = wf_rite2014(Locality::PENINSULA);
    for row in cases {
        let mut c = Components::new();
        c.cdata.push(row);
        assert_eq!(check_rows(&c.cdata), Err(EpbdError::Inconsistent));
        assert_eq!(energy_performance(&c, &f, 0, 1000).err(), Some(EpbdError::Inconsistent));
    }
}

#[test]
fn parameters_and_values_out_of_range_are_refused() {
    let c = electric_and_gas();
    let f = wf_rite2014(Locality::PENINSULA);
    assert_eq!(energy_performance(&c, &f, 1001, 1000).err(), Some(EpbdError::RangeError));
    assert_eq!(energy_performance(&c, &f, 0, 0).err(), Some(EpbdError::RangeError));
    assert!(energy_performance(&c, &f, 1000, 1).is_ok());
    let mut large = Components::new();
    large.cdata.push(prep_row(
        Carrier::ELECTRICIDAD,
        CType::CONSUMO,
        CSubtype::EPB,
        Service::ILU,
        vec![1_000_000_001],
    ));
    assert_eq!(energy_performance(&large, &f, 0, 1000).err(), Some(EpbdError::RangeError));
    let mut uneven = electric_and_gas();
    uneven.cdata[1].values.push(3);
    assert_eq!(check_rows(&uneven.cdata), Err(EpbdError::ShapeError));
    assert_eq!(energy_performance(&uneven, &f, 0, 1000).err(), Some(EpbdError::ShapeError));
    assert_eq!(check_rows(&c.cdata), Ok(2));
}

#[test]
fn a_needed_factor_that_is_missing_is_reported() {
    let mut c = Components::new();
    c.cdata.push(prep_row(Carrier::FUELOIL, CType::CONSUMO, CSubtype::EPB, Service::CAL, vec![1]));
    let f = wf_rite2014(Locality::PENINSULA);
    assert_eq!(
        energy_performance(&c, &f, 0, 1000).err(),
        Some(EpbdError::MissingFactor(Carrier::FUELOIL, Source::RED, Dest::input, Step::A))
    );
    let mut pv = Components::new();
    pv.cdata.push(prep_row(Carrier::ELECTRICIDAD, CType::PRODUCCION, CSubtype::INSITU, Service::NDEF, vec![1]));
    let mut short = Factors::new();
    short.wdata.push(Factor::new(Carrier::ELECTRICIDAD, Source::RED, Dest::input, Step::A, triple(1, 1, 1), String::new()));
    short.wdata.push(Factor::new(Carrier::ELECTRICIDAD, Source::INSITU, Dest::input, Step::A, triple(1, 1, 1), String::new()));
    short.wdata.push(Factor::new(Carrier::ELECTRICIDAD, Source::INSITU, Dest::to_grid, Step::A, triple(1, 1, 1), String::new()));
    assert_eq!(
        energy_performance(&pv, &short, 0, 1000).err(),
        Some(EpbdError::MissingFactor(Carrier::ELECTRICIDAD, Source::INSITU, Dest::to_grid, Step::B))
    );
}

#[test]
fn a_balance_without_components_is_empty() {
    let f = wf_rite2014(Locality::PENINSULA);
    let b = energy_performance(&Components::new(), &f, 0, 1000).unwrap();
    assert_eq!(b.a, RenNrenCo2::new());
    assert_eq!(b.b, RenNrenCo2::new());
    assert_eq!(b.rer, 0);
    assert_eq!(b.rer_nren, None);
    assert_eq!(b.by_carrier.len(), 12);
    assert!(b.by_carrier.iter().all(|cb| !cb.present));
    assert_eq!(b.a_by_service.len(), 11);
}

#[test]
fn a_failed_derivation_leaves_the_table_as_it_was() {
    let mut rows = vec![
        Factor::new(Carrier::ELECTRICIDAD, Source::RED, Dest::input, Step::A, triple(400, 2000, 300), String::new()),
        Factor::new(Carrier::ELECTRICIDAD, Source::INSITU, Dest::to_grid, Step::A, triple(1000, 0, 0), String::new()),
    ];
    assert_eq!(
        cteepbd::prepare::derive_step_b(&mut rows),
        Err(EpbdError::MissingFactor(Carrier::ELECTRICIDAD, Source::RED, Dest::to_grid, Step::A))
    );
    assert_eq!(rows.len(), 2);
    assert_eq!(rows[0].factors(), triple(400, 2000, 300));
    assert_eq!(rows[1].factors(), triple(1000, 0, 0));
    assert_eq!(rows[1].step, Step::A);
    rows.push(Factor::new(Carrier::ELECTRICIDAD, Source::RED, Dest::to_grid, Step::A, triple(500, 2500, 400), String::new()));
    assert_eq!(cteepbd::prepare::derive_step_b(&mut rows), Ok(()));
    assert_eq!(rows.len(), 4);
    assert_eq!(rows[3].step, Step::B);
    assert_eq!(rows[3].factors(), triple(1100, 500, 100));
}
