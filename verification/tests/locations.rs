use go_parser::Loc;

#[test]
fn new_keeps_the_range() {
    let loc = Loc::new(3..7);
    assert_eq!(loc.start(), 3);
    assert_eq!(loc.end(), 7);
    assert_eq!(loc.range(), 3..7);
}

#[test]
fn join_takes_the_smaller_start_and_the_larger_end() {
    let a = Loc::new(3..7);
    let b = Loc::new(5..12);
    assert_eq!(a.join(&b), Loc::new(3..12));
    assert_eq!(b.join(&a), Loc::new(3..12));
}

#[test]
fn join_of_nested_locations_is_the_outer_one() {
    let outer = Loc::new(1..20);
    let inner = Loc::new(4..6);
    assert_eq!(outer.join(&inner), outer);
    assert_eq!(inner.join(&outer), outer);
}

#[test]
fn join_of_disjoint_locations_spans_the_gap() {
    let a = Loc::new(0..2);
    let b = Loc::new(10..11);
    assert_eq!(a.join(&b), Loc::new(0..11));
}

#[test]
fn join_with_itself_changes_nothing() {
    let a = Loc::new(4..9);
    assert_eq!(a.join(&a), a);
}

#[test]
fn default_is_empty_at_the_start() {
    assert_eq!(Loc::default(), Loc::new(0..0));
}
