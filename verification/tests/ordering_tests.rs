use cabal_backend::version_order::{latest, le_version, order};

fn strings(v: &[&str]) -> Vec<String> {
    v.iter().map(|s| s.to_string()).collect()
}

#[test]
fn le_version_is_numeric_aware() {
    assert!(le_version("1.2.0", "1.10.0"));
    assert!(!le_version("1.10.0", "1.2.0"));
    assert!(le_version("1.2.0-rc1", "1.2.0"));
    assert!(!le_version("1.2.0", "1.2.0-rc1"));
}

#[test]
fn le_version_malformed_sorts_first() {
    assert!(le_version("not a version!!", "0.0.1"));
    assert!(!le_version("0.0.1", "not a version!!"));
    assert!(le_version("", "not a version!!"));
    assert!(!le_version("not a version!!", ""));
}

#[test]
fn order_is_ascending_by_precedence() {
    let out = order(strings(&["2.0", "1.0", "1.5"]));
    assert_eq!(out, strings(&["1.0", "1.5", "2.0"]));
}

#[test]
fn order_is_numeric_not_lexical() {
    let out = order(strings(&["1.10.0", "1.2.0", "1.2.0-rc1"]));
    assert_eq!(out, strings(&["1.2.0-rc1", "1.2.0", "1.10.0"]));
}

#[test]
fn order_keeps_every_element() {
    let input = strings(&["3.0", "0.1", "3.0", "2.7", "0.1"]);
    let out = order(input.clone());
    assert_eq!(out.len(), input.len());
    for s in &input {
        assert_eq!(
            out.iter().filter(|x| x == &s).count(),
            input.iter().filter(|x| x == &s).count()
        );
    }
}

#[test]
fn order_empty_input() {
    let out = order(Vec::new());
    assert!(out.is_empty());
}

#[test]
fn order_retains_malformed_with_lexical_fallback() {
    let out = order(strings(&["9.9", "not a version!!", "", "1.0"]));
    assert_eq!(out, strings(&["", "not a version!!", "1.0", "9.9"]));
}

#[test]
fn order_is_idempotent() {
    let once = order(strings(&["1.10.0", "0.9", "1.2.0", "x y z!", "1.2.0"]));
    let twice = order(once.clone());
    assert_eq!(twice, once);
}

#[test]
fn order_is_deterministic() {
    let input = strings(&["5.1", "0.2", "5.1-rc1", "junk value!", "0.10"]);
    let first = order(input.clone());
    let second = order(input);
    assert_eq!(first, second);
}

#[test]
fn order_is_stable_for_equal_keys() {
    // Build metadata does not affect precedence, so these two are distinct
    // strings of equal precedence: they keep their original relative order
    // and stay adjacent, where a lexical sort would swap them.
    let out = order(strings(&["1.0.0+b", "1.0.0+a", "0.5"]));
    assert_eq!(out, strings(&["0.5", "1.0.0+b", "1.0.0+a"]));
}

#[test]
fn latest_is_last_of_ordered() {
    let ordered = order(strings(&["1.10.0", "1.2.0", "1.2.0-rc1"]));
    assert_eq!(latest(&ordered), Some("1.10.0".to_string()));
}

#[test]
fn latest_of_empty_is_none() {
    assert_eq!(latest(&Vec::new()), None);
}
