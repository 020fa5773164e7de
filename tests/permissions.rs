use bot_core::permission::{can, granted, has, revoked, Permission, PermissionMap};

#[test]
fn levels_are_ordered() {
    assert_eq!(Permission::owner().level(), 3);
    assert_eq!(Permission::admin().level(), 2);
    assert_eq!(Permission::user().level(), 1);
    assert_eq!(Permission::none().level(), 0);
    assert_eq!(Permission::user().union(Permission::owner()).level(), 3);
    assert_eq!(Permission::from_bits_truncate(0b011).level(), 2);
}

#[test]
fn can_compares_levels() {
    let held = Permission::owner();
    assert!(can(held, Permission::admin()));
    assert!(can(held, Permission::user()));
    assert!(can(Permission::admin(), Permission::admin()));
    assert!(!can(Permission::user(), Permission::admin()));
    assert!(!can(Permission::none(), Permission::user()));
    assert!(can(Permission::none(), Permission::none()));
}

#[test]
fn has_differs_from_can() {
    let held = Permission::user().union(Permission::admin());
    assert!(!has(held, Permission::owner()));
    assert!(can(held, Permission::admin()));
    assert!(has(held, Permission::user()));
    assert!(!has(Permission::owner(), Permission::admin()));
    assert!(can(Permission::owner(), Permission::admin()));
}

#[test]
fn grant_twice_is_grant_once() {
    let start = Permission::user();
    let once = granted(start, Permission::admin());
    let twice = granted(once, Permission::admin());
    assert_eq!(once, twice);
    assert_eq!(once.bits(), 3);
}

#[test]
fn revoke_of_absent_flag_changes_nothing() {
    let start = Permission::user().union(Permission::admin());
    assert_eq!(revoked(start, Permission::owner()), start);
    assert_eq!(revoked(start, Permission::admin()).bits(), 1);
    assert_eq!(revoked(Permission::owner(), Permission::owner()).bits(), 0);
}

#[test]
fn snapshot_round_trip() {
    let mut m = PermissionMap::new();
    m.insert(1, Permission::owner());
    m.insert(2, Permission::user().union(Permission::admin()));
    m.insert(3, Permission::none());
    let rows = m.rows();
    assert_eq!(rows.len(), 3);
    let back = PermissionMap::from_rows(&rows);
    assert_eq!(back.len(), 3);
    for uid in [1u64, 2, 3] {
        assert_eq!(back.get(uid), m.get(uid));
    }
    assert_eq!(back.get(4), None);
}

#[test]
fn rows_are_truncated_and_later_rows_win() {
    let rows = vec![(5u64, 0xffu32), (6, 1), (5, 2)];
    let m = PermissionMap::from_rows(&rows);
    assert_eq!(m.len(), 2);
    assert_eq!(m.get(5).map(|p| p.bits()), Some(2));
    assert_eq!(m.get(6).map(|p| p.bits()), Some(1));
    let empty = PermissionMap::from_rows(&Vec::new());
    assert!(empty.is_empty());
    assert!(empty.rows().is_empty());
}

#[test]
fn mask_names() {
    assert_eq!(Permission::none().names(), "NONE");
    assert_eq!(Permission::user().names(), "USER");
    assert_eq!(Permission::owner().names(), "OWNER");
    assert_eq!(Permission::user().union(Permission::admin()).names(), "USER | ADMIN");
    assert_eq!(Permission::from_bits_truncate(7).names(), "USER | ADMIN | OWNER");
    assert_eq!(Permission::admin().union(Permission::owner()).names(), "ADMIN | OWNER");
}
