use dipstick::name::{Kind, Name};
use dipstick::text::{format_name, print_name_value_line};

#[test]
fn name_segments_joined_by_dots() {
    let n = Name::from_str("a").with_segment("bc").with_segment("d");
    assert_eq!(format_name(&n, Kind::Counter), b"a.bc.d".to_vec());
    assert_eq!(n.len(), 3);
    assert_eq!(n.segment(1), b"bc".to_vec());
}

#[test]
fn value_line_exact() {
    assert_eq!(print_name_value_line(&b"x.y".to_vec(), 0), b"x.y 0\n".to_vec());
    assert_eq!(print_name_value_line(&b"x.y".to_vec(), 1234567890), b"x.y 1234567890\n".to_vec());
}

#[test]
fn names_compare_by_segments() {
    let ab = Name::from_str("a").with_segment("b");
    let joined = Name::from_str("a.b");
    assert!(ab.same_as(&Name::from_str("a").concat(&Name::from_str("b"))));
    assert!(!ab.same_as(&joined));
    assert!(Name::empty().same_as(&Name::empty()));
}
