use barter::decimal::Decimal;
use barter::names::NameMap;
use barter::text::number_text;
use barter::time::Timestamp;

fn d(value: i64) -> Decimal {
    Decimal::from(value)
}

#[test]
fn numbers_are_added_and_taken_away() {
    let a = Decimal::new(105, 1);
    let b = Decimal::new(25, 2);
    assert_eq!(a.checked_add(&b), Some(Decimal::new(1075, 2)));
    assert_eq!(a.checked_sub(&b), Some(Decimal::new(1025, 2)));
    assert_eq!(b.checked_sub(&a), Some(Decimal::new(-1025, 2)));
    assert_eq!(Decimal::zero().checked_add(&b), Some(b));
}

#[test]
fn numbers_are_multiplied_and_divided() {
    assert_eq!(
        Decimal::new(-15, 1).checked_mul(&Decimal::new(2, 1)),
        Some(Decimal::new(-3, 1))
    );
    assert_eq!(d(112).checked_div(&d(5)), Some(Decimal::new(224, 1)));
    assert_eq!(d(1).checked_div(&Decimal::zero()), None);
    assert_eq!(
        d(2).checked_div(&d(3)),
        Decimal::from_parts(6_666_666_666_666_666_666_666_666_667, 28)
    );
    assert_eq!(d(7).checked_rem(&d(4)), Some(d(3)));
    assert_eq!(d(7).checked_rem(&Decimal::zero()), None);
}

#[test]
fn quotients_that_can_be_written_are_exact() {
    assert_eq!(d(56).checked_div(&d(5)), Some(Decimal::new(112, 1)));
    assert_eq!(d(-1).checked_div(&d(8)), Some(Decimal::new(-125, 3)));
    assert_eq!(
        Decimal::new(3, 3).checked_div(&Decimal::new(4, 1)),
        Some(Decimal::new(75, 4))
    );
    assert_eq!(
        d(1).checked_div(&Decimal::from_parts(95_367_431_640_625, 0).unwrap()),
        Decimal::from_parts(1_048_576, 20)
    );
    assert_eq!(
        d(1).checked_div(&Decimal::from_parts(37_252_902_984_619_140_625, 0).unwrap()),
        Decimal::from_parts(268_435_456, 28)
    );
    assert_eq!(
        d(7).checked_div(&Decimal::from_parts(7, 28).unwrap()),
        Decimal::from_parts(10_000_000_000_000_000_000_000_000_000, 0)
    );
}

#[test]
fn remainders_of_numbers_with_different_scales_are_exact() {
    assert_eq!(d(4).checked_rem(&Decimal::new(1, 2)), Some(Decimal::zero()));
    assert_eq!(
        Decimal::new(4005, 3).checked_rem(&Decimal::new(1, 2)),
        Some(Decimal::new(5, 3))
    );
    assert_eq!(
        d(-4).checked_rem(&Decimal::new(3, 1)),
        Some(Decimal::new(-1, 1))
    );
    assert_eq!(
        d(1).checked_rem(&Decimal::from_parts(3, 28).unwrap()),
        Decimal::from_parts(1, 28)
    );
    assert_eq!(
        Decimal::from_parts(10, 28).unwrap().checked_rem(&d(3)),
        Decimal::from_parts(10, 28)
    );
}

#[test]
fn numbers_out_of_range_are_told() {
    let huge = Decimal::from_parts(79_228_162_514_264_337_593_543_950_335, 0).unwrap();
    assert_eq!(huge.checked_add(&Decimal::one()), None);
    assert_eq!(huge.negate().checked_sub(&Decimal::one()), None);
    assert_eq!(huge.checked_mul(&d(2)), None);
    assert_eq!(huge.checked_div(&Decimal::new(1, 1)), None);
    assert_eq!(
        Decimal::from_parts(79_228_162_514_264_337_593_543_950_336, 0),
        None
    );
    assert_eq!(Decimal::from_parts(1, 29), None);
}

#[test]
fn numbers_are_compared_by_value() {
    assert_eq!(Decimal::new(10, 1), d(1));
    assert!(Decimal::new(-11, 1).less(&d(-1)));
    assert!(!d(-1).less(&Decimal::new(-11, 1)));
    assert!(d(1).at_most(&Decimal::new(1_000, 3)));
    assert!(Decimal::new(0, 5).is_zero());
    assert!(d(-3).is_negative() && d(3).is_positive());
    assert_eq!(d(-3).abs(), d(3));
    assert_eq!(d(2).min(d(-3)), d(-3));
    assert_eq!(Decimal::new(10, 1).min(d(1)).scale(), 1);
    assert_eq!(Decimal::default(), Decimal::zero());
}

#[test]
fn numbers_are_written_and_read() {
    assert_eq!(Decimal::new(-1050, 2).to_text(), "-10.50");
    assert_eq!(Decimal::parse("0.1"), Some(Decimal::new(1, 1)));
    assert_eq!(Decimal::parse("-12.50").unwrap().mantissa(), -1250);
    assert_eq!(Decimal::parse("1e3"), Some(d(1_000)));
    assert_eq!(Decimal::parse("one"), None);
    assert_eq!(Decimal::parse(""), None);
}

#[test]
fn whole_numbers_are_written_in_digits() {
    assert_eq!(number_text(0), "0");
    assert_eq!(number_text(9_070), "9070");
    assert_eq!(number_text(u64::MAX), "18446744073709551615");
}

#[test]
fn names_keep_their_order() {
    let mut map: NameMap<Decimal> = NameMap::new();
    for (name, value) in [("b", 1), ("a", 2), ("c", 3), ("a", 4)] {
        map.insert(name.to_string(), d(value));
    }
    assert_eq!(map.len(), 3);
    assert_eq!(map.values(), vec![&d(1), &d(4), &d(3)]);
    assert_eq!(map.remove("b"), Some(d(1)));
    assert_eq!(map.remove("b"), None);
    assert_eq!(map.key_at(0), "a");
    assert_eq!(map.get("c"), Some(&d(3)));
    *map.get_mut("c").unwrap() = d(5);
    assert_eq!(map.value_at(1), &d(5));
    assert!(map.contains("a") && !map.contains("b"));
    map.insert("b".to_string(), d(6));
    assert_eq!(map.key_at(2), "b");
}

#[test]
fn times_are_moved_and_read_from_milliseconds() {
    let time = Timestamp::from_millis(-1).unwrap();
    assert_eq!((time.secs, time.nanos), (-1, 999_000_000));
    assert_eq!(
        time.checked_add_millis(1_001),
        Some(Timestamp { secs: 1, nanos: 0 })
    );
    assert_eq!(Timestamp::from_millis(i64::MAX), None);
    let first = Timestamp {
        secs: -8_334_601_228_800,
        nanos: 0,
    };
    assert_eq!(first.checked_add_millis(-1), None);
    assert_eq!(
        first.checked_add_millis(1),
        Some(Timestamp {
            secs: -8_334_601_228_800,
            nanos: 1_000_000,
        })
    );
    assert_eq!(Timestamp::from_millis(-8_334_601_228_800_001), None);
    assert_eq!(
        Timestamp::from_millis(8_210_266_876_799_999).map(|time| time.secs),
        Some(8_210_266_876_799)
    );
    assert_eq!(Timestamp::from_millis(8_210_266_876_800_000), None);
}
