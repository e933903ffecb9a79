use cteepbd::cte::{
    components_by_service, strip_wfactors, wfactors_from_loc, wfactors_to_nearby, CteUserWF,
    Locality,
};
use cteepbd::wfactors::{lookup, FactorKey};
use cteepbd::{
    energy_performance, CSubtype, CType, Carrier, Component, Components, Dest, Factors,
    RenNrenCo2, Service, Source, Step,
};

const HOURS: usize = 8760;

fn series(first: usize, value: u64) -> Vec<u64> {
    let mut v = vec![0; HOURS];
    for x in v.iter_mut().take(first) {
        *x = value;
    }
    v
}

fn component(
    carrier: Carrier,
    ctype: CType,
    csubtype: CSubtype,
    service: Service,
    values: Vec<u64>,
) -> Component {
    Component { carrier, ctype, csubtype, service, values, comment: String::new() }
}

fn no_user_factors() -> CteUserWF {
    CteUserWF { red1: None, red2: None, cogen_to_grid: None, cogen_to_nepb: None }
}

fn peninsula_for(components: &Components) -> Factors {
    wfactors_from_loc(Locality::PENINSULA, &no_user_factors(), components).unwrap()
}

fn factor_of(f: &Factors, carrier: Carrier, source: Source, dest: Dest, step: Step) -> RenNrenCo2 {
    lookup(&f.wdata, FactorKey { carrier, source, dest, step }).unwrap()
}

/// Weighted energy of `energy` thousandths of an energy unit with a factor
/// in thousandths.
fn weighted(energy: i128, factor: RenNrenCo2) -> RenNrenCo2 {
    RenNrenCo2 {
        ren: energy * factor.ren * 1000,
        nren: energy * factor.nren * 1000,
        co2: energy * factor.co2 * 1000,
    }
}

#[test]
fn electricity_from_the_grid_for_hot_water() {
    let mut c = Components::new();
    c.cdata.push(component(
        Carrier::ELECTRICIDAD,
        CType::CONSUMO,
        CSubtype::EPB,
        Service::ACS,
        vec![1000; HOURS],
    ));
    let f = peninsula_for(&c);
    let grid = factor_of(&f, Carrier::ELECTRICIDAD, Source::RED, Dest::input, Step::A);
    assert_eq!(grid, RenNrenCo2 { ren: 414, nren: 1954, co2: 331 });
    let b = energy_performance(&c, &f, 0, 1000).unwrap();
    assert_eq!(b.a, weighted(8_760_000, grid));
    assert_eq!(b.b, b.a);
    assert_eq!(b.a_m2, b.a);
    assert_eq!(b.b_m2, b.b);
    assert_eq!(b.a_by_service[Service::ACS.index()], b.a);
    assert_eq!(b.rer, 174);
    assert_eq!(b.rer_nren, Some(211));
    assert_eq!(b.k_exp, 0);
    assert_eq!(b.arearef, 1000);
}

#[test]
fn environment_energy_goes_to_heating() {
    let mut c = Components::new();
    c.cdata.push(component(
        Carrier::ELECTRICIDAD,
        CType::CONSUMO,
        CSubtype::EPB,
        Service::ACS,
        vec![1000; HOURS],
    ));
    c.cdata.push(component(
        Carrier::MEDIOAMBIENTE,
        CType::PRODUCCION,
        CSubtype::INSITU,
        Service::NDEF,
        vec![1000; HOURS],
    ));
    c.cdata.push(component(
        Carrier::MEDIOAMBIENTE,
        CType::CONSUMO,
        CSubtype::EPB,
        Service::CAL,
        vec![1000; HOURS],
    ));
    let f = peninsula_for(&c);
    assert_eq!(
        factor_of(&f, Carrier::MEDIOAMBIENTE, Source::INSITU, Dest::input, Step::A),
        RenNrenCo2 { ren: 1000, nren: 0, co2: 0 }
    );
    let b = energy_performance(&c, &f, 0, 1000).unwrap();
    assert_eq!(
        b.a_by_service[Service::CAL.index()],
        weighted(8_760_000, RenNrenCo2 { ren: 1000, nren: 0, co2: 0 })
    );
    assert_eq!(
        b.a,
        weighted(8_760_000, RenNrenCo2 { ren: 1414, nren: 1954, co2: 331 })
    );
    let env = &b.by_carrier[Carrier::MEDIOAMBIENTE.index()];
    assert!(env.present);
    assert_eq!(env.a, b.a_by_service[Service::CAL.index()]);
}

fn photovoltaic_building() -> Components {
    let mut c = Components::new();
    // 2000 energy units produced, 1000 used, all of it while there is production
    c.cdata.push(component(
        Carrier::ELECTRICIDAD,
        CType::PRODUCCION,
        CSubtype::INSITU,
        Service::NDEF,
        series(2000, 1000),
    ));
    c.cdata.push(component(
        Carrier::ELECTRICIDAD,
        CType::CONSUMO,
        CSubtype::EPB,
        Service::ILU,
        series(1000, 1000),
    ));
    c
}

#[test]
fn exported_electricity_without_credit() {
    let c = photovoltaic_building();
    let f = peninsula_for(&c);
    let b = energy_performance(&c, &f, 0, 1000).unwrap();
    let insitu = factor_of(&f, Carrier::ELECTRICIDAD, Source::INSITU, Dest::input, Step::A);
    assert_eq!(b.a, weighted(1_000_000, insitu));
    assert_eq!(b.b, b.a);
    // the exported energy is weighted at step A, but has no part in the balance
    let el = &b.by_carrier[Carrier::ELECTRICIDAD.index()];
    let to_grid = factor_of(&f, Carrier::ELECTRICIDAD, Source::INSITU, Dest::to_grid, Step::A);
    assert_eq!(el.exp_grid_a, weighted(1_000_000, to_grid));
    assert_eq!(el.exp_nepus_a, RenNrenCo2::new());
}

#[test]
fn exported_electricity_with_full_credit() {
    let c = photovoltaic_building();
    let f = peninsula_for(&c);
    let b = energy_performance(&c, &f, 1000, 1000).unwrap();
    let at_b = factor_of(&f, Carrier::ELECTRICIDAD, Source::INSITU, Dest::to_grid, Step::B);
    let at_a = factor_of(&f, Carrier::ELECTRICIDAD, Source::INSITU, Dest::to_grid, Step::A);
    let credit = weighted(1_000_000, at_b - at_a);
    assert_eq!(b.b, b.a - credit);
    assert_eq!(
        b.b,
        RenNrenCo2 {
            ren: 1_586_000_000_000,
            nren: -1_954_000_000_000,
            co2: -331_000_000_000
        }
    );
    // nothing is delivered by the grid, so no part of the credit falls to a service
    assert_eq!(b.b_by_service[Service::ILU.index()], b.a_by_service[Service::ILU.index()]);
}

#[test]
fn hot_water_in_the_nearby_perimeter() {
    let mut c = Components::new();
    c.cdata.push(component(
        Carrier::GASNATURAL,
        CType::CONSUMO,
        CSubtype::EPB,
        Service::ACS,
        vec![3000; HOURS],
    ));
    c.cdata.push(component(
        Carrier::GASNATURAL,
        CType::CONSUMO,
        CSubtype::EPB,
        Service::CAL,
        vec![9000; HOURS],
    ));
    c.cdata.push(component(
        Carrier::MEDIOAMBIENTE,
        CType::PRODUCCION,
        CSubtype::INSITU,
        Service::NDEF,
        vec![1000; HOURS],
    ));
    c.cdata.push(component(
        Carrier::MEDIOAMBIENTE,
        CType::CONSUMO,
        CSubtype::EPB,
        Service::ACS,
        vec![1000; HOURS],
    ));
    let acs = components_by_service(&c, Service::ACS);
    assert_eq!(acs.cdata.len(), 3);
    let mut f = peninsula_for(&acs);
    strip_wfactors(&mut f, &acs);
    let gas_before = factor_of(&f, Carrier::GASNATURAL, Source::RED, Dest::input, Step::A);
    assert_eq!(gas_before, RenNrenCo2 { ren: 5, nren: 1190, co2: 252 });
    let near = wfactors_to_nearby(&f);
    assert_eq!(
        factor_of(&near, Carrier::GASNATURAL, Source::RED, Dest::input, Step::A),
        RenNrenCo2::new()
    );
    assert_eq!(
        factor_of(&near, Carrier::MEDIOAMBIENTE, Source::INSITU, Dest::input, Step::A),
        RenNrenCo2 { ren: 1000, nren: 0, co2: 0 }
    );
    let b = energy_performance(&acs, &near, 0, 1000).unwrap();
    // only the solar thermal energy produced on site weighs
    assert_eq!(b.a, weighted(8_760_000, RenNrenCo2 { ren: 1000, nren: 0, co2: 0 }));
    assert_eq!(b.by_carrier[Carrier::GASNATURAL.index()].a, RenNrenCo2::new());
    assert_eq!(b.rer, 1000);
    assert_eq!(b.rer_nren, None);
}

#[test]
fn cogeneration_factor_of_the_user() {
    let mut c = Components::new();
    c.cdata.push(component(
        Carrier::ELECTRICIDAD,
        CType::PRODUCCION,
        CSubtype::COGENERACION,
        Service::NDEF,
        vec![2000; HOURS],
    ));
    c.cdata.push(component(
        Carrier::ELECTRICIDAD,
        CType::CONSUMO,
        CSubtype::EPB,
        Service::CAL,
        vec![500; HOURS],
    ));
    c.cdata.push(component(
        Carrier::GASNATURAL,
        CType::CONSUMO,
        CSubtype::EPB,
        Service::CAL,
        vec![6000; HOURS],
    ));
    let supplied = RenNrenCo2 { ren: 0, nren: 2500, co2: 300 };
    let user = CteUserWF { red1: None, red2: None, cogen_to_grid: Some(supplied), cogen_to_nepb: None };
    let f = wfactors_from_loc(Locality::PENINSULA, &user, &c).unwrap();
    assert_eq!(
        factor_of(&f, Carrier::ELECTRICIDAD, Source::COGENERACION, Dest::to_grid, Step::A),
        supplied
    );
    assert_eq!(
        factor_of(&f, Carrier::ELECTRICIDAD, Source::COGENERACION, Dest::to_nEPB, Step::A),
        RenNrenCo2::new()
    );
    assert_eq!(
        factor_of(&f, Carrier::ELECTRICIDAD, Source::COGENERACION, Dest::input, Step::A),
        RenNrenCo2::new()
    );
    let grid = factor_of(&f, Carrier::ELECTRICIDAD, Source::RED, Dest::input, Step::A);
    let b0 = energy_performance(&c, &f, 0, 1000).unwrap();
    let b1 = energy_performance(&c, &f, 1000, 1000).unwrap();
    // 1500 thousandths are exported at each of the 8760 time steps
    let exported = 1500 * 8760;
    assert_eq!(b1.a, b0.a);
    assert_eq!(b1.b, b0.a - weighted(exported, grid - supplied));
}

#[test]
fn services_partition_the_carrier() {
    let mut c = Components::new();
    c.cdata.push(component(
        Carrier::ELECTRICIDAD,
        CType::CONSUMO,
        CSubtype::EPB,
        Service::ACS,
        vec![1500; HOURS],
    ));
    c.cdata.push(component(
        Carrier::ELECTRICIDAD,
        CType::CONSUMO,
        CSubtype::EPB,
        Service::CAL,
        vec![1500; HOURS],
    ));
    c.cdata.push(component(
        Carrier::ELECTRICIDAD,
        CType::PRODUCCION,
        CSubtype::INSITU,
        Service::NDEF,
        series(4000, 5001),
    ));
    let f = peninsula_for(&c);
    let b = energy_performance(&c, &f, 500, 1000).unwrap();
    let el = &b.by_carrier[Carrier::ELECTRICIDAD.index()];
    let mut sum_a = RenNrenCo2::new();
    let mut sum_b = RenNrenCo2::new();
    for k in 0..11 {
        sum_a += el.a_by_service[k];
        sum_b += el.b_by_service[k];
    }
    assert_eq!(el.a, sum_a);
    assert_eq!(el.b, sum_b);
    let mut total_a = RenNrenCo2::new();
    let mut total_b = RenNrenCo2::new();
    for k in 0..11 {
        total_a += b.a_by_service[k];
        total_b += b.b_by_service[k];
    }
    assert_eq!(b.a, total_a);
    assert_eq!(b.b, total_b);
    assert_ne!(b.a, b.b);
}

#[test]
fn the_export_credit_is_shared_by_the_energy_delivered() {
    let mut c = Components::new();
    c.cdata.push(component(
        Carrier::ELECTRICIDAD,
        CType::CONSUMO,
        CSubtype::EPB,
        Service::ACS,
        vec![2000, 0],
    ));
    c.cdata.push(component(
        Carrier::ELECTRICIDAD,
        CType::CONSUMO,
        CSubtype::EPB,
        Service::CAL,
        vec![6000, 0],
    ));
    c.cdata.push(component(
        Carrier::ELECTRICIDAD,
        CType::PRODUCCION,
        CSubtype::INSITU,
        Service::NDEF,
        vec![0, 10000],
    ));
    let f = peninsula_for(&c);
    let b = energy_performance(&c, &f, 1000, 1000).unwrap();
    let grid = RenNrenCo2 { ren: 414, nren: 1954, co2: 331 };
    assert_eq!(b.a_by_service[Service::ACS.index()], weighted(2000, grid));
    assert_eq!(b.a_by_service[Service::CAL.index()], weighted(6000, grid));
    assert_eq!(b.a, weighted(8000, grid));
    // 10000 are exported; a quarter of the credit falls to hot water, the rest to heating
    assert_eq!(
        b.b_by_service[Service::ACS.index()],
        RenNrenCo2 { ren: 2_293_000_000, nren: -977_000_000, co2: -165_500_000 }
    );
    assert_eq!(
        b.b_by_service[Service::CAL.index()],
        RenNrenCo2 { ren: 6_879_000_000, nren: -2_931_000_000, co2: -496_500_000 }
    );
    assert_eq!(
        b.b,
        RenNrenCo2 { ren: 9_172_000_000, nren: -3_908_000_000, co2: -662_000_000 }
    );
    assert_eq!(b.rer, 1742);
    assert_eq!(b.rer_nren, None);
    let half = energy_performance(&c, &f, 500, 1000).unwrap();
    assert_eq!(
        half.b,
        RenNrenCo2 {
            ren: (b.a.ren + b.b.ren) / 2,
            nren: (b.a.nren + b.b.nren) / 2,
            co2: (b.a.co2 + b.b.co2) / 2
        }
    );
}
