use feather_server::clock::instant_after;

#[test]
fn instants_inside_chronos_range() {
    assert_eq!(instant_after(1_000, 30_000), Some(31_000));
    assert_eq!(instant_after(1_000, u64::MAX), Some(999));
    assert_eq!(instant_after(8_210_266_876_799_000, 999), Some(8_210_266_876_799_999));
    assert_eq!(instant_after(-8_334_601_228_800_000, 0), Some(-8_334_601_228_800_000));
}

#[test]
fn instants_outside_chronos_range() {
    assert_eq!(instant_after(8_210_266_876_799_999, 1), None);
    assert_eq!(instant_after(-8_334_601_228_800_000, u64::MAX), None);
    assert_eq!(instant_after(0, 1u64 << 63), None);
    assert_eq!(instant_after(i64::MAX, 1), None);
}
