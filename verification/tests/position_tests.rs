use rust_chess::position::Pos;

#[test]
fn index_formula() {
    assert_eq!(Pos::at('a', 1), 0);
    assert_eq!(Pos::at('h', 1), 7);
    assert_eq!(Pos::at('a', 2), 8);
    assert_eq!(Pos::at('e', 2), 12);
    assert_eq!(Pos::at('h', 8), 63);
    assert_eq!(Pos::new('d', 4).get(), 27);
    assert_eq!(Pos::new('d', 4).get(), Pos::at('d', 4));
}

#[test]
fn validity_bounds() {
    assert!(Pos::new('a', 1).is_valid());
    assert!(Pos::new('h', 8).is_valid());
    assert!(!Pos::new('i', 1).is_valid());
    assert!(!Pos::new('a', 0).is_valid());
    assert!(!Pos::new('a', 9).is_valid());
    assert!(!Pos::new('z', 5).is_valid());
    assert!(!Pos::new('`', 3).is_valid());
    // a column outside ASCII is rejected as well
    assert!(!Pos::new('ó', 1).is_valid());
}

#[test]
fn from_index_inverts_get() {
    for i in 0..64 {
        let p = Pos::from_index(i);
        assert!(p.is_valid());
        assert_eq!(p.get(), i);
    }
    let a1 = Pos::from_index(0);
    assert_eq!(a1, Pos::new('a', 1));
    let h8 = Pos::from_index(63);
    assert_eq!(h8, Pos::new('h', 8));
    let e2 = Pos::from_index(12);
    assert_eq!(e2, Pos::new('e', 2));
}
