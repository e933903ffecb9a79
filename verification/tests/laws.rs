use cteepbd::cte::{wfactors_from_loc, wfactors_to_nearby, CteUserWF, Locality};
use cteepbd::flows::{allocate, resolve, resolve_step};
use cteepbd::performance::area_ratio;
use cteepbd::shares::{share_of, share_signed, slice_of, slice_signed, vecsum};
use cteepbd::{
    energy_performance, CSubtype, CType, Carrier, Component, Components, EpbdError, Factors,
    RenNrenCo2, Service,
};

fn law_row(
    carrier: Carrier,
    ctype: CType,
    csubtype: CSubtype,
    service: Service,
    values: Vec<u64>,
) -> Component {
    Component { carrier, ctype, csubtype, service, values, comment: String::new() }
}

fn law_factors(components: &Components) -> Factors {
    let user = CteUserWF { red1: None, red2: None, cogen_to_grid: None, cogen_to_nepb: None };
    wfactors_from_loc(Locality::PENINSULA, &user, components).unwrap()
}

fn scaled(f: RenNrenCo2, k: i128) -> RenNrenCo2 {
    RenNrenCo2 { ren: f.ren * k, nren: f.nren * k, co2: f.co2 * k }
}

#[test]
fn flows_of_a_step_with_both_origins() {
    // 7 produced on site, 3 cogenerated; 4 used by EPB services, 5 by other uses
    let f = resolve_step(7, 3, 4, 5);
    assert_eq!(f.pr, 10);
    assert_eq!(f.used_epus, 4);
    assert_eq!(f.used_nepus, 5);
    assert_eq!(f.exp_grid, 1);
    assert_eq!(f.del, 0);
    assert_eq!(f.used_epus_insitu, 2);
    assert_eq!(f.used_epus_cogen, 2);
    assert_eq!(f.exp_nepus_insitu, 3);
    assert_eq!(f.exp_nepus_cogen, 2);
    assert_eq!(f.exp_grid_insitu, 0);
    assert_eq!(f.exp_grid_cogen, 1);
}

#[test]
fn flows_of_a_step_without_production() {
    let f = resolve_step(0, 0, 9, 2);
    assert_eq!(f.pr, 0);
    assert_eq!(f.used_epus, 0);
    assert_eq!(f.used_nepus, 0);
    assert_eq!(f.exp_grid, 0);
    assert_eq!(f.del, 9);
    assert_eq!(f.used_epus_insitu + f.used_epus_cogen, 0);
}

#[test]
fn production_without_use_is_exported() {
    let f = resolve_step(6, 0, 0, 0);
    assert_eq!(f.del, 0);
    assert_eq!(f.exp_grid, 6);
    assert_eq!(f.exp_grid_insitu, 6);
    assert_eq!(f.exp_grid_cogen, 0);
}

#[test]
fn energy_is_conserved_at_every_step() {
    let values: [u64; 6] = [0, 1, 2, 3, 7, 1000];
    for &pi in values.iter() {
        for &pc in values.iter() {
            for &e in values.iter() {
                for &ne in values.iter() {
                    let f = resolve_step(pi, pc, e, ne);
                    assert_eq!(f.del + f.used_epus_insitu + f.used_epus_cogen, e);
                    assert_eq!(
                        (f.used_epus_insitu + f.exp_grid_insitu + f.exp_nepus_insitu)
                            + (f.used_epus_cogen + f.exp_grid_cogen + f.exp_nepus_cogen),
                        pi + pc
                    );
                    assert_eq!(f.used_epus + f.exp_grid + f.used_nepus, f.pr);
                    assert!(f.used_epus <= e && f.used_nepus <= ne && f.del <= e);
                }
            }
        }
    }
}

#[test]
fn resolve_runs_over_all_steps() {
    let f = resolve(&vec![5, 0, 2], &vec![0, 0, 2], &vec![3, 4, 1], &vec![1, 1, 9]).unwrap();
    assert_eq!(f.pr, vec![5, 0, 4]);
    assert_eq!(f.used_epus, vec![3, 0, 1]);
    assert_eq!(f.used_nepus, vec![1, 0, 3]);
    assert_eq!(f.exp_grid, vec![1, 0, 0]);
    assert_eq!(f.del, vec![0, 4, 0]);
    assert_eq!(f.used_epus_insitu, vec![3, 0, 0]);
    assert_eq!(f.used_epus_cogen, vec![0, 0, 1]);
    assert_eq!(f.exp_nepus_insitu, vec![1, 0, 1]);
    assert_eq!(f.exp_nepus_cogen, vec![0, 0, 2]);
}

#[test]
fn resolve_rejects_series_of_different_lengths() {
    let r = resolve(&vec![1, 2], &vec![1, 2], &vec![1], &vec![1, 2]);
    assert_eq!(r.err(), Some(EpbdError::ShapeError));
}

#[test]
fn resolve_rejects_a_production_that_cannot_be_held() {
    let r = resolve(&vec![u64::MAX], &vec![1], &vec![0], &vec![0]);
    assert_eq!(r.err(), Some(EpbdError::RangeError));
}

#[test]
fn shares_round_down_and_slices_add_up() {
    assert_eq!(share_of(10, 1, 3), 3);
    assert_eq!(share_of(10, 2, 3), 6);
    assert_eq!(share_of(10, 3, 3), 10);
    assert_eq!(share_of(10, 0, 0), 0);
    assert_eq!(slice_of(10, 0, 1, 3), 3);
    assert_eq!(slice_of(10, 1, 2, 3), 3);
    assert_eq!(slice_of(10, 2, 3, 3), 4);
    assert_eq!(share_signed(-10, 1, 3), -4);
    assert_eq!(share_signed(-10, 3, 3), -10);
    assert_eq!(share_signed(10, 2, 3), 6);
    assert_eq!(share_signed(5, 1, 0), 0);
    assert_eq!(
        slice_signed(-10, 0, 1, 3) + slice_signed(-10, 1, 2, 3) + slice_signed(-10, 2, 3, 3),
        -10
    );
    assert_eq!(vecsum(&vec![1, 2, 3, u64::MAX]), 6 + u64::MAX as u128);
}

#[test]
fn services_share_what_rounding_leaves() {
    // 1001 used of the production on site, by two services that use the same
    let flows = resolve(&vec![1001], &vec![0], &vec![3000], &vec![0]).unwrap();
    let first = allocate(&flows, &vec![3000], &vec![0], &vec![1500]);
    let second = allocate(&flows, &vec![3000], &vec![1500], &vec![1500]);
    assert_eq!(first.used_insitu, vec![500]);
    assert_eq!(second.used_insitu, vec![501]);
    assert_eq!(first.del, vec![999]);
    assert_eq!(second.del, vec![1000]);
    assert_eq!(first.used_cogen, vec![0]);
}

fn mixed_building(scale: u64) -> Components {
    let mut c = Components::new();
    c.cdata.push(law_row(
        Carrier::ELECTRICIDAD,
        CType::CONSUMO,
        CSubtype::EPB,
        Service::ILU,
        vec![4 * scale, 2 * scale, 0, 6 * scale],
    ));
    c.cdata.push(law_row(
        Carrier::ELECTRICIDAD,
        CType::PRODUCCION,
        CSubtype::INSITU,
        Service::NDEF,
        vec![scale, 5 * scale, 3 * scale, 0],
    ));
    c.cdata.push(law_row(
        Carrier::ELECTRICIDAD,
        CType::CONSUMO,
        CSubtype::NEPB,
        Service::NEPB,
        vec![0, 2 * scale, 2 * scale, 0],
    ));
    c.cdata.push(law_row(
        Carrier::GASNATURAL,
        CType::CONSUMO,
        CSubtype::EPB,
        Service::CAL,
        vec![7 * scale, 7 * scale, 7 * scale, 7 * scale],
    ));
    c
}

#[test]
fn step_b_is_step_a_without_export_credit() {
    let c = mixed_building(1000);
    let f = law_factors(&c);
    let b = energy_performance(&c, &f, 0, 1000).unwrap();
    assert_eq!(b.b, b.a);
    assert_eq!(b.b_by_service, b.a_by_service);
    for cb in b.by_carrier.iter() {
        assert_eq!(cb.b, cb.a);
        assert_eq!(cb.b_by_service, cb.a_by_service);
    }
    let with_credit = energy_performance(&c, &f, 1000, 1000).unwrap();
    assert_ne!(with_credit.b, with_credit.a);
    assert_eq!(with_credit.a, b.a);
}

#[test]
fn area_scales_the_values_for_each_unit_of_area() {
    let c = mixed_building(1000);
    let f = law_factors(&c);
    let one = energy_performance(&c, &f, 700, 1000).unwrap();
    let three = energy_performance(&c, &f, 700, 3000).unwrap();
    assert_eq!(three.a, one.a);
    assert_eq!(three.b, one.b);
    assert_eq!(three.rer, one.rer);
    assert_eq!(three.a_by_service, one.a_by_service);
    assert_eq!(three.a_m2, area_ratio(one.a_m2, 3000));
    assert_eq!(three.a_m2.ren, one.a_m2.ren.div_euclid(3));
    assert_eq!(three.a_m2.nren, one.a_m2.nren.div_euclid(3));
    assert_eq!(three.b_m2.ren, one.b_m2.ren.div_euclid(3));
    assert_eq!(three.b_m2.nren, one.b_m2.nren.div_euclid(3));
    assert_eq!(three.b_m2.co2, one.b_m2.co2.div_euclid(3));
}

#[test]
fn area_ratio_rounds_down() {
    let x = RenNrenCo2 { ren: 10, nren: -10, co2: 0 };
    assert_eq!(area_ratio(x, 1000), x);
    assert_eq!(area_ratio(x, 3000), RenNrenCo2 { ren: 3, nren: -4, co2: 0 });
    assert_eq!(area_ratio(x, 500), RenNrenCo2 { ren: 20, nren: -20, co2: 0 });
}

#[test]
fn components_scale_the_balance() {
    let small = mixed_building(1000);
    let large = mixed_building(5000);
    let f = law_factors(&small);
    let a = energy_performance(&small, &f, 400, 1000).unwrap();
    let b = energy_performance(&large, &f, 400, 1000).unwrap();
    assert_eq!(b.a, scaled(a.a, 5));
    assert_eq!(b.b, scaled(a.b, 5));
    assert_eq!(b.rer, a.rer);
    for i in 0..12 {
        assert_eq!(b.by_carrier[i].a, scaled(a.by_carrier[i].a, 5));
        assert_eq!(b.by_carrier[i].b, scaled(a.by_carrier[i].b, 5));
    }
    for k in 0..11 {
        assert_eq!(b.a_by_service[k], scaled(a.a_by_service[k], 5));
    }
}

#[test]
fn without_production_the_grid_delivers_all() {
    let mut c = Components::new();
    c.cdata.push(law_row(
        Carrier::ELECTRICIDAD,
        CType::CONSUMO,
        CSubtype::EPB,
        Service::ILU,
        vec![10, 20, 30],
    ));
    c.cdata.push(law_row(
        Carrier::ELECTRICIDAD,
        CType::CONSUMO,
        CSubtype::EPB,
        Service::VEN,
        vec![1, 2, 3],
    ));
    c.cdata.push(law_row(
        Carrier::GASNATURAL,
        CType::CONSUMO,
        CSubtype::EPB,
        Service::CAL,
        vec![100, 100, 100],
    ));
    let f = law_factors(&c);
    let b = energy_performance(&c, &f, 1000, 1000).unwrap();
    let el = RenNrenCo2 { ren: 414, nren: 1954, co2: 331 };
    let gas = RenNrenCo2 { ren: 5, nren: 1190, co2: 252 };
    let e = &b.by_carrier[Carrier::ELECTRICIDAD.index()];
    let g = &b.by_carrier[Carrier::GASNATURAL.index()];
    assert_eq!(e.a_by_service[Service::ILU.index()], scaled(el, 60 * 1000));
    assert_eq!(e.a_by_service[Service::VEN.index()], scaled(el, 6 * 1000));
    assert_eq!(e.a, scaled(el, 66 * 1000));
    assert_eq!(g.a_by_service[Service::CAL.index()], scaled(gas, 300 * 1000));
    assert_eq!(e.b, e.a);
    assert_eq!(g.b, g.a);
    assert_eq!(b.b, b.a);
    assert_eq!(b.a, scaled(el, 66 * 1000) + scaled(gas, 300 * 1000));
}

#[test]
fn nearby_table_leaves_only_what_is_produced_on_site() {
    let mut c = Components::new();
    c.cdata.push(law_row(
        Carrier::BIOMASA,
        CType::CONSUMO,
        CSubtype::EPB,
        Service::CAL,
        vec![50, 50],
    ));
    c.cdata.push(law_row(
        Carrier::MEDIOAMBIENTE,
        CType::PRODUCCION,
        CSubtype::INSITU,
        Service::NDEF,
        vec![10, 0],
    ));
    c.cdata.push(law_row(
        Carrier::MEDIOAMBIENTE,
        CType::CONSUMO,
        CSubtype::EPB,
        Service::CAL,
        vec![10, 10],
    ));
    c.cdata.push(law_row(
        Carrier::ELECTRICIDAD,
        CType::CONSUMO,
        CSubtype::EPB,
        Service::CAL,
        vec![1, 1],
    ));
    let f = law_factors(&c);
    let near = wfactors_to_nearby(&f);
    for (before, after) in f.wdata.iter().zip(near.wdata.iter()) {
        assert_eq!(before.carrier, after.carrier);
        assert_eq!(before.source, after.source);
        assert_eq!(before.dest, after.dest);
        assert_eq!(before.step, after.step);
        if before.carrier != Carrier::ELECTRICIDAD && before.source != cteepbd::Source::INSITU {
            assert_eq!(after.factors(), RenNrenCo2::new());
        } else {
            assert_eq!(after.factors(), before.factors());
        }
    }
    let b = energy_performance(&c, &near, 0, 1000).unwrap();
    assert_eq!(b.by_carrier[Carrier::BIOMASA.index()].a, RenNrenCo2::new());
    // of the environment energy, only the 10 produced on site weigh
    assert_eq!(
        b.by_carrier[Carrier::MEDIOAMBIENTE.index()].a,
        RenNrenCo2 { ren: 10 * 1000 * 1000, nren: 0, co2: 0 }
    );
    assert_eq!(
        b.by_carrier[Carrier::ELECTRICIDAD.index()].a,
        scaled(RenNrenCo2 { ren: 414, nren: 1954, co2: 331 }, 2 * 1000)
    );
}
