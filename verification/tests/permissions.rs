use gearbot::permissions::{
    GearBotPermissions, ALL_DEFINED, BASIC_GROUP, BOT_ADMIN, MODERATION_GROUP, PING_COMMAND,
    USERINFO_COMMAND, WRITE_CONFIG,
};

#[test]
fn empty_mask_has_no_bits() {
    let p = GearBotPermissions::empty();
    assert_eq!(p.bits(), 0);
    assert!(p.is_empty());
}

#[test]
fn union_and_intersection_are_bitwise() {
    let a = GearBotPermissions::from_bits_truncate(BASIC_GROUP | PING_COMMAND);
    let b = GearBotPermissions::from_bits_truncate(PING_COMMAND | WRITE_CONFIG);
    assert_eq!(a.union(b).bits(), 0x412);
    assert_eq!(a.intersection(b).bits(), 0x010);
    assert_eq!(a.difference(b).bits(), 0x002);
}

#[test]
fn contains_and_intersects() {
    let held = GearBotPermissions::from_bits_truncate(MODERATION_GROUP | USERINFO_COMMAND);
    let want_both = GearBotPermissions::from_bits_truncate(MODERATION_GROUP | USERINFO_COMMAND);
    let want_one = GearBotPermissions::from_bits_truncate(MODERATION_GROUP | BOT_ADMIN);
    assert!(held.contains(want_both));
    assert!(!held.contains(want_one));
    assert!(held.intersects(want_one));
}

#[test]
fn round_trip_preserves_defined_bits() {
    let p = GearBotPermissions::from_bits_truncate(BASIC_GROUP | MODERATION_GROUP | PING_COMMAND);
    let wire = p.bits();
    let back = GearBotPermissions::from_bits_truncate(wire);
    assert_eq!(back, p);
    assert_eq!(back.bits(), 0x812);
}

#[test]
fn deserializing_drops_undefined_bits() {
    let wire: u64 = 0xDEAD_0000_0000_0000 | BASIC_GROUP | USERINFO_COMMAND;
    let p = GearBotPermissions::from_bits_truncate(wire);
    assert_eq!(p.bits(), BASIC_GROUP | USERINFO_COMMAND);
    assert_eq!(p.bits() & !ALL_DEFINED, 0);
}

#[test]
fn all_defined_round_trips_exactly() {
    let p = GearBotPermissions::from_bits_truncate(u64::MAX);
    assert_eq!(p.bits(), ALL_DEFINED);
    assert_eq!(GearBotPermissions::from_bits_truncate(p.bits()), p);
}
