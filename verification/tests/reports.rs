use cteepbd::cte::{wf_rite2014, wfactors_from_loc, CteUserWF, Locality};
use cteepbd::parse::{parse_components, parse_wfactors};
use cteepbd::performance::is_reportable;
use cteepbd::report::{
    balance_to_plain, balance_to_xml, components_to_text, round_weighted, wfactors_to_text,
};
use cteepbd::{
    energy_performance, CSubtype, CType, Carrier, Component, Components, Factor, Factors,
    RenNrenCo2, Service, Source, Dest, Step,
};

#[test]
fn components_are_written_as_they_are_read() {
    let mut c = Components::new();
    c.update_meta("CTE_AREAREF", "1.000");
    c.update_meta("Autor", "equipo técnico");
    c.cdata.push(Component {
        carrier: Carrier::ELECTRICIDAD,
        ctype: CType::CONSUMO,
        csubtype: CSubtype::EPB,
        service: Service::ILU,
        values: vec![10500, 0, 1],
        comment: "alumbrado".to_string(),
    });
    c.cdata.push(Component {
        carrier: Carrier::MEDIOAMBIENTE,
        ctype: CType::PRODUCCION,
        csubtype: CSubtype::INSITU,
        service: Service::NDEF,
        values: vec![1000, 2000, 3000],
        comment: String::new(),
    });
    let text = components_to_text(&c);
    assert_eq!(
        text,
        "#META CTE_AREAREF: 1.000\n#META Autor: equipo técnico\nELECTRICIDAD, CONSUMO, EPB, ILU, 10.500, 0.000, 0.001 # alumbrado\nMEDIOAMBIENTE, PRODUCCION, INSITU, NDEF, 1.000, 2.000, 3.000\n"
    );
    let back = parse_components(&text).unwrap();
    assert_eq!(back.cmeta.len(), 2);
    assert_eq!(back.cmeta[1].value, "equipo técnico");
    assert_eq!(back.cdata.len(), 2);
    assert_eq!(back.cdata[0].values, c.cdata[0].values);
    assert_eq!(back.cdata[0].comment, "alumbrado");
    assert_eq!(back.cdata[1].values, c.cdata[1].values);
    assert_eq!(components_to_text(&back), text);
}

#[test]
fn factors_are_written_as_they_are_read() {
    let mut f = Factors::new();
    f.update_meta("CTE_FUENTE", "usuario");
    f.wdata.push(Factor::new(
        Carrier::ELECTRICIDAD,
        Source::INSITU,
        Dest::to_nEPB,
        Step::B,
        RenNrenCo2 { ren: -586, nren: 1954, co2: 331 },
        "evitado".to_string(),
    ));
    f.wdata.push(Factor::new(
        Carrier::GLP,
        Source::RED,
        Dest::input,
        Step::A,
        RenNrenCo2 { ren: 3, nren: 1201, co2: 254 },
        String::new(),
    ));
    let text = wfactors_to_text(&f);
    assert_eq!(
        text,
        "#META CTE_FUENTE: usuario\nELECTRICIDAD, INSITU, to_nEPB, B, -0.586, 1.954, 0.331 # evitado\nGLP, RED, input, A, 0.003, 1.201, 0.254\n"
    );
    let back = parse_wfactors(&text).unwrap();
    assert_eq!(back.wdata.len(), 2);
    assert_eq!(back.wdata[0].factors(), f.wdata[0].factors());
    assert_eq!(back.wdata[1].factors(), f.wdata[1].factors());
    assert_eq!(wfactors_to_text(&back), text);
    assert_eq!(parse_wfactors(&wfactors_to_text(&wf_rite2014(Locality::BALEARES))).unwrap().wdata.len(), 26);
}

#[test]
fn weighted_energy_is_rounded_to_thousandths() {
    assert_eq!(round_weighted(0), 0);
    assert_eq!(round_weighted(499_999), 0);
    assert_eq!(round_weighted(500_000), 1);
    assert_eq!(round_weighted(1_499_999), 1);
    assert_eq!(round_weighted(-500_000), 0);
    assert_eq!(round_weighted(-500_001), -1);
    assert_eq!(round_weighted(3_626_640_000_000), 3_626_640);
}

#[test]
fn the_performance_is_reported() {
    let mut c = Components::new();
    c.cdata.push(Component {
        carrier: Carrier::ELECTRICIDAD,
        ctype: CType::CONSUMO,
        csubtype: CSubtype::EPB,
        service: Service::ACS,
        values: vec![1000; 8760],
        comment: String::new(),
    });
    let user = CteUserWF { red1: None, red2: None, cogen_to_grid: None, cogen_to_nepb: None };
    let f = wfactors_from_loc(Locality::PENINSULA, &user, &c).unwrap();
    let b = energy_performance(&c, &f, 0, 100_000).unwrap();
    assert!(is_reportable(&b));
    assert_eq!(
        balance_to_plain(&b),
        "Area_ref = 100.000 [m2]\nk_exp = 0.000\nC_ep [kWh/m2.an]: ren = 36.266, nren = 171.170, tot = 207.436, RER = 0.174\nE_CO2 [kg_CO2e/m2.an]: 28.996\n"
    );
    assert_eq!(
        balance_to_xml(&b),
        "<BalanceEPB>\n  <AreaRef>100.000</AreaRef>\n  <kexp>0.000</kexp>\n  <Epm2>\n    <ren>36.266</ren>\n    <nren>171.170</nren>\n    <tot>207.436</tot>\n    <co2>28.996</co2>\n  </Epm2>\n  <RER>0.174</RER>\n</BalanceEPB>\n"
    );
}
