use cgol::Cell;

#[test]
fn default_is_dead() {
    assert_eq!(Cell::default(), Cell::Dead);
}

#[test]
fn from_bool_conversions() {
    assert_eq!(Cell::from_bool(true), Cell::Alive);
    assert_eq!(Cell::from_bool(false), Cell::Dead);
    assert!(Cell::Alive.to_bool());
    assert!(!Cell::Dead.to_bool());
}

#[test]
fn from_trait_conversions() {
    assert_eq!(Cell::from(true), Cell::Alive);
    assert_eq!(Cell::from(false), Cell::Dead);
    assert!(bool::from(Cell::Alive));
    assert!(!bool::from(Cell::Dead));
}

#[test]
fn from_integer_conversions() {
    assert_eq!(Cell::from_u64(0), Cell::Dead);
    assert_eq!(Cell::from_u64(1), Cell::Alive);
    assert_eq!(Cell::from_u64(417), Cell::Alive);
    assert_eq!(Cell::from_i64(-3), Cell::Dead);
    assert_eq!(Cell::from_i64(0), Cell::Dead);
    assert_eq!(Cell::from_i64(2), Cell::Alive);
}

#[test]
fn to_integer_conversions() {
    assert_eq!(Cell::Dead.to_u8(), 0);
    assert_eq!(Cell::Alive.to_u8(), 1);
    assert_eq!(u64::from(Cell::Alive.to_u8()), 1u64);
}

#[test]
fn toggled_flips_state() {
    assert_eq!(Cell::Dead.toggled(), Cell::Alive);
    assert_eq!(Cell::Alive.toggled(), Cell::Dead);
    assert_eq!(Cell::Alive.toggled().toggled(), Cell::Alive);
}
