use kult_browser_backend_rust::document::{set_field, set_fields};
use kult_browser_backend_rust::game::patch_update;

fn doc(v: &[(&str, i64)]) -> Vec<(String, i64)> {
    v.iter().map(|(k, x)| (k.to_string(), *x)).collect()
}

#[test]
fn patch_always_sets_updated_at() {
    let u = patch_update(1_700_000_000_000i64, None, None);
    assert_eq!(u.set, doc(&[("updated_at", 1_700_000_000_000)]));
    assert_eq!(u.unset, None);
}

#[test]
fn patch_adds_requested_fields_in_order() {
    let u = patch_update(5i64, Some(doc(&[("name", 1), ("category", 2)])), Some(9));
    assert_eq!(u.set, doc(&[("updated_at", 5), ("name", 1), ("category", 2)]));
    assert_eq!(u.unset, Some(9));
}

#[test]
fn patch_request_can_override_updated_at_in_place() {
    let u = patch_update(5i64, Some(doc(&[("name", 1), ("updated_at", 7)])), None);
    assert_eq!(u.set, doc(&[("updated_at", 7), ("name", 1)]));
}

#[test]
fn repeated_field_keeps_last_value_once() {
    let u = patch_update(0i64, Some(doc(&[("a", 1), ("b", 2), ("a", 3)])), None);
    assert_eq!(u.set, doc(&[("updated_at", 0), ("a", 3), ("b", 2)]));
}

#[test]
fn setting_fields_replaces_in_place() {
    let mut d = doc(&[("x", 1), ("y", 2)]);
    set_field(&mut d, "y".to_string(), 20);
    set_field(&mut d, "z".to_string(), 30);
    assert_eq!(d, doc(&[("x", 1), ("y", 20), ("z", 30)]));
    set_fields(&mut d, doc(&[("x", 10), ("w", 4)]));
    assert_eq!(d, doc(&[("x", 10), ("y", 20), ("z", 30), ("w", 4)]));
}
