use cteepbd::rennrenco2::div_floor;
use cteepbd::RenNrenCo2;

#[test]
fn add() {
    assert_eq!(
        RenNrenCo2 { ren: 3000, nren: 3000, co2: 3000 },
        RenNrenCo2 { ren: 1000, nren: 0, co2: 2000 } + RenNrenCo2 { ren: 2000, nren: 3000, co2: 1000 }
    );
    assert_eq!(RenNrenCo2 { ren: 3000, nren: 3000, co2: 3000 }, {
        let mut a = RenNrenCo2 { ren: 1000, nren: 0, co2: 2000 };
        a += RenNrenCo2 { ren: 2000, nren: 3000, co2: 1000 };
        a
    });
}

#[test]
fn sub() {
    assert_eq!(
        RenNrenCo2 { ren: -1000, nren: -3000, co2: 1000 },
        RenNrenCo2 { ren: 1000, nren: 0, co2: 2000 } - RenNrenCo2 { ren: 2000, nren: 3000, co2: 1000 }
    );
    assert_eq!(RenNrenCo2 { ren: -1000, nren: -3000, co2: 1000 }, {
        let mut a = RenNrenCo2 { ren: 1000, nren: 0, co2: 2000 };
        a -= RenNrenCo2 { ren: 2000, nren: 3000, co2: 1000 };
        a
    });
}

#[test]
fn display() {
    assert_eq!(
        RenNrenCo2 { ren: 1000, nren: 0, co2: 2000 }.to_string(),
        "{ ren: 1.000, nren: 0.000, co2: 2.000 }"
    );
}

#[test]
fn mul() {
    assert_eq!(
        RenNrenCo2 { ren: 2200, nren: 4400, co2: 2000 },
        2 * RenNrenCo2 { ren: 1100, nren: 2200, co2: 1000 }
    );
    assert_eq!(RenNrenCo2 { ren: 2200, nren: 4400, co2: 2000 }, {
        let mut a = RenNrenCo2 { ren: 1100, nren: 2200, co2: 1000 };
        a *= 2;
        a
    });
}

#[test]
fn mul_by_scalar_on_the_right() {
    assert_eq!(
        RenNrenCo2 { ren: 3300, nren: -6600, co2: 0 },
        RenNrenCo2 { ren: 1100, nren: -2200, co2: 0 } * 3
    );
}

#[test]
fn new_is_zero() {
    assert_eq!(RenNrenCo2::new(), RenNrenCo2 { ren: 0, nren: 0, co2: 0 });
    assert_eq!(RenNrenCo2::default(), RenNrenCo2::new());
}

#[test]
fn tot_adds_ren_and_nren() {
    assert_eq!(RenNrenCo2 { ren: 1500, nren: 2500, co2: 9000 }.tot(), 4000);
}

#[test]
fn rer_is_in_thousandths() {
    assert_eq!(RenNrenCo2 { ren: 1000, nren: 3000, co2: 0 }.rer(), 250);
    assert_eq!(RenNrenCo2 { ren: 1, nren: 2, co2: 0 }.rer(), 333);
    assert_eq!(RenNrenCo2 { ren: 5, nren: 0, co2: 0 }.rer(), 1000);
}

#[test]
fn rer_of_an_empty_total_is_zero() {
    assert_eq!(RenNrenCo2 { ren: 0, nren: 0, co2: 7 }.rer(), 0);
    assert_eq!(RenNrenCo2 { ren: 5, nren: -5, co2: 0 }.rer(), 0);
}

#[test]
fn div_floor_rounds_down() {
    assert_eq!(div_floor(7, 2), 3);
    assert_eq!(div_floor(-7, 2), -4);
    assert_eq!(div_floor(7, -2), -4);
    assert_eq!(div_floor(-7, -2), 3);
    assert_eq!(div_floor(-8, 2), -4);
}

#[test]
fn negative_parts_are_written_with_a_sign() {
    assert_eq!(
        RenNrenCo2 { ren: -586, nren: 1954, co2: 12345678 }.to_string(),
        "{ ren: -0.586, nren: 1.954, co2: 12345.678 }"
    );
}

#[test]
fn operators_take_references() {
    let a = RenNrenCo2 { ren: 1000, nren: 0, co2: 2000 };
    let b = RenNrenCo2 { ren: 2000, nren: 3000, co2: 1000 };
    assert_eq!(&a + &b, RenNrenCo2 { ren: 3000, nren: 3000, co2: 3000 });
    assert_eq!(&a - &b, RenNrenCo2 { ren: -1000, nren: -3000, co2: 1000 });
    assert_eq!(&a * 2, RenNrenCo2 { ren: 2000, nren: 0, co2: 4000 });
    assert_eq!(2 * &a, RenNrenCo2 { ren: 2000, nren: 0, co2: 4000 });
    assert_eq!(a * &3, RenNrenCo2 { ren: 3000, nren: 0, co2: 6000 });
    assert_eq!(&3 * a, RenNrenCo2 { ren: 3000, nren: 0, co2: 6000 });
}

#[test]
fn a_year_of_one_unit_an_hour_weighs_the_factor_part_by_part() {
    let grid = RenNrenCo2 { ren: 414, nren: 1954, co2: 331 };
    let year = 8760 * grid;
    assert_eq!(year.ren, 8760 * 414);
    assert_eq!(year.nren, 8760 * 1954);
    assert_eq!(year.co2, 8760 * 331);
    assert_eq!(grid * 8760, year);
    assert_eq!(8760 * RenNrenCo2 { ren: 1, nren: 0, co2: 0 }, RenNrenCo2 { ren: 8760, nren: 0, co2: 0 });
}

#[test]
fn what_is_not_negative_stays_so() {
    let parts: [i128; 4] = [0, 1, 999, 1_000_000_000_000];
    for &ren in parts.iter() {
        for &nren in parts.iter() {
            for &k in parts.iter() {
                let x = RenNrenCo2 { ren, nren, co2: ren } * k;
                assert!(x.ren >= 0 && x.nren >= 0 && x.co2 >= 0);
                let r = RenNrenCo2 { ren, nren, co2: k }.rer();
                assert!(0 <= r && r <= 1000);
                if nren == 0 && ren > 0 {
                    assert_eq!(r, 1000);
                }
                if ren == 0 {
                    assert_eq!(r, 0);
                }
                assert_eq!(r, RenNrenCo2 { ren, nren, co2: 0 }.rer());
                if ren + nren > 0 {
                    assert_eq!(r, 1000 * ren / (ren + nren));
                }
            }
        }
    }
}
