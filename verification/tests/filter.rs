use viewer::filter::Filter;

fn checked(filter: &Filter) -> Vec<u64> {
    let mut identifiers: Vec<u64> = filter.identifiers.iter().copied().collect();
    identifiers.sort();
    identifiers
}

#[test]
fn a_new_filter_checks_nothing() {
    let filter = Filter::new();
    assert!(checked(&filter).is_empty());
    assert!(!filter.contains(0));
}

#[test]
fn a_click_toggles_one_identifier() {
    let mut filter = Filter::new();
    assert!(filter.toggle(0x28ff));
    assert!(filter.toggle(7));
    assert!(filter.contains(0x28ff));
    assert!(filter.contains(7));
    assert!(!filter.toggle(0x28ff));
    assert!(!filter.contains(0x28ff));
    assert_eq!(checked(&filter), [7]);
}

#[test]
fn select_all_checks_exactly_what_is_given() {
    let mut filter = Filter::new();
    filter.toggle(99);
    filter.select_all(&vec![3, 1, 2, 3]);
    assert_eq!(checked(&filter), [1, 2, 3]);
    filter.select_all(&Vec::new());
    assert!(checked(&filter).is_empty());
}

#[test]
fn unselect_all_checks_nothing() {
    let mut filter = Filter::new();
    filter.select_all(&vec![4, 5]);
    filter.unselect_all();
    assert!(checked(&filter).is_empty());
    assert!(filter.toggle(4));
}

#[test]
fn an_empty_filter_shows_every_row() {
    let mut filter = Filter::new();
    assert!(filter.shows(1));
    assert!(filter.shows(2));
    filter.toggle(1);
    assert!(filter.shows(1));
    assert!(!filter.shows(2));
    filter.toggle(1);
    assert!(filter.shows(2));
}
