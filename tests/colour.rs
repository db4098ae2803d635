use yiq::Yiq;

fn fixture_a() -> Yiq {
    Yiq { y: 50_000_000, i: 10_000_000, q: -10_000_000 }
}

fn fixture_b() -> Yiq {
    Yiq { y: 50_000_000, i: -10_000_000, q: 10_000_000 }
}

#[test]
fn test_from_rgb() {
    let expected = Yiq { y: 0, i: 0, q: 0 };
    let actual = Yiq::from_rgb(&[0, 0, 0]);
    assert_eq!(expected, actual);
}

#[test]
fn test_squared_distance_same() {
    let a = Yiq { y: 50_000_000, i: -10_000_000, q: 10_000_000 };
    let b = Yiq { y: 50_000_000, i: -10_000_000, q: 10_000_000 };
    assert_eq!(a.squared_distance(&b), 0);
}

#[test]
fn test_squared_distance_not_same() {
    let a = fixture_a();
    let b = fixture_b();
    // 0.019788 in units of 10^-20
    assert_eq!(a.squared_distance(&b), 1_978_800_000_000_000_000);
}

#[test]
fn test_square_root_distance_same() {
    let a = Yiq { y: 50_000_000, i: -10_000_000, q: 10_000_000 };
    let b = Yiq { y: 50_000_000, i: -10_000_000, q: 10_000_000 };
    assert_eq!(a.square_root_distance(&b), 0);
}

#[test]
fn test_square_root_distance_not_same() {
    let a = fixture_a();
    let b = fixture_b();
    // 0.14066982... in units of 10^-10
    assert_eq!(a.square_root_distance(&b), 1_406_698_261);
}

#[test]
fn white_has_full_luminance() {
    let c = Yiq::from_rgb(&[255, 255, 255]);
    assert_eq!(c, Yiq { y: 25_500_000_255, i: 114_750, q: 510 });
}

#[test]
fn primaries_follow_the_matrix_columns() {
    assert_eq!(
        Yiq::from_rgb(&[255, 0, 0]),
        Yiq { y: 7_621_830_405, i: 15_197_438_745, q: 5_392_489_845 }
    );
    assert_eq!(
        Yiq::from_rgb(&[0, 255, 0]),
        Yiq { y: 14_958_872_985, i: -6_991_375_800, q: -13_326_736_305 }
    );
    assert_eq!(
        Yiq::from_rgb(&[0, 0, 255]),
        Yiq { y: 2_919_296_865, i: -8_205_948_195, q: 7_934_246_970 }
    );
}

#[test]
fn mixed_colour_converts_exactly() {
    let c = Yiq::from_rgb(&[12, 200, 77]);
    assert_eq!(c, Yiq { y: 12_972_636_943, i: -7_246_132_965, q: -7_802_746_534 });
}

#[test]
fn distance_is_symmetric() {
    let a = fixture_a();
    let b = Yiq::from_rgb(&[12, 200, 77]);
    assert_eq!(a.squared_distance(&b), b.squared_distance(&a));
    assert_eq!(a.square_root_distance(&b), b.square_root_distance(&a));
}

#[test]
fn distance_to_self_is_zero() {
    let v = Yiq::from_rgb(&[12, 200, 77]);
    assert_eq!(v.squared_distance(&v), 0);
    assert_eq!(v.square_root_distance(&v), 0);
}

#[test]
fn distinct_colours_have_positive_distance() {
    let a = Yiq { y: 1, i: 0, q: 0 };
    let b = Yiq { y: 0, i: 0, q: 0 };
    assert_eq!(a.squared_distance(&b), 5053);
    assert_eq!(a.square_root_distance(&b), 71);
}

#[test]
fn root_distance_rounds_down() {
    let a = Yiq { y: 100, i: 0, q: 0 };
    let b = Yiq { y: 0, i: 0, q: 0 };
    assert_eq!(a.squared_distance(&b), 50_530_000);
    assert_eq!(a.square_root_distance(&b), 7108);
}

#[test]
fn black_to_white_distance() {
    let black = Yiq::from_rgb(&[0, 0, 0]);
    let white = Yiq::from_rgb(&[255, 255, 255]);
    assert_eq!(black.squared_distance(&white), 3_285_713_315_753_636_849_462_025);
    assert_eq!(black.square_root_distance(&white), 1_812_653_666_797);
}

#[test]
fn widest_components_do_not_overflow() {
    let limit = yiq::COMPONENT_LIMIT;
    let low = Yiq { y: -limit, i: -limit, q: -limit };
    let high = Yiq { y: limit, i: limit, q: limit };
    assert_eq!(low.squared_distance(&high), 811_296_384_146_066_816_957_890_051_440_640_000);
    assert_eq!(low.square_root_distance(&high), 900_719_925_474_099_200);
}
