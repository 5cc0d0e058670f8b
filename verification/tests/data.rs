use polars_core::frame::column::Column;
use polars_core::frame::DataFrame;
use viewer::data::{drop_target, Data, LoadedFrame, Request};

fn record(key: u64, name: &str) -> LoadedFrame {
    LoadedFrame {
        key,
        name: name.to_string(),
        version: None,
        data: DataFrame::new(vec![
            Column::new("Identifier".into(), vec![key]),
            Column::new("Temperature".into(), vec![key as f64]),
        ])
        .unwrap(),
    }
}

fn list(names: &[&str]) -> Data {
    let mut data = Data::new();
    for (index, name) in names.iter().enumerate() {
        data.add(record(index as u64 + 1, name));
    }
    data
}

fn names(data: &Data) -> Vec<String> {
    data.frames().iter().map(|frame| frame.name.clone()).collect()
}

fn selected_names(data: &Data) -> Vec<String> {
    data.selected().iter().map(|frame| frame.name.clone()).collect()
}

fn consistent(data: &Data) -> bool {
    let selected = data.selected();
    (0..data.len()).all(|index| {
        data.is_selected(index)
            == selected
                .iter()
                .any(|frame| frame.key == data.frames()[index].key)
    }) && selected
        .iter()
        .all(|frame| data.frames().iter().any(|other| other.key == frame.key))
}

#[test]
fn a_new_list_is_empty() {
    let data = Data::new();
    assert_eq!(data.len(), 0);
    assert!(data.frames().is_empty());
    assert!(data.selected().is_empty());
    assert!(data.none_selected());
    assert!(!data.is_selected(0));
}

#[test]
fn add_appends() {
    let mut data = Data::new();
    data.add(record(1, "a"));
    data.add(record(2, "b"));
    data.add(record(3, "c"));
    assert_eq!(data.len(), 3);
    assert_eq!(names(&data), ["a", "b", "c"]);
    assert!(data.none_selected());
}

#[test]
fn the_label_joins_name_and_version() {
    let mut frame = record(1, "run");
    assert_eq!(frame.label(), "run");
    frame.version = Some("1.2.0".to_string());
    assert_eq!(frame.label(), "run 1.2.0");
    frame.version = Some(String::new());
    assert_eq!(frame.label(), "run ");
}

#[test]
fn drag_last_above_second() {
    let mut data = list(&["A", "B", "C", "D"]);
    assert!(data.reorder(3, 1));
    assert_eq!(names(&data), ["A", "D", "B", "C"]);
}

#[test]
fn drag_first_to_third_position() {
    let mut data = list(&["A", "B", "C", "D"]);
    assert!(data.reorder(0, 2));
    assert_eq!(names(&data), ["B", "A", "C", "D"]);
}

#[test]
fn drag_to_the_end_and_to_the_front() {
    let mut data = list(&["A", "B", "C", "D"]);
    assert!(data.reorder(1, 4));
    assert_eq!(names(&data), ["A", "C", "D", "B"]);
    assert!(data.reorder(3, 0));
    assert_eq!(names(&data), ["B", "A", "C", "D"]);
    assert!(data.reorder(2, 3));
    assert_eq!(names(&data), ["B", "A", "C", "D"]);
}

#[test]
fn dropping_a_row_on_itself_moves_nothing() {
    for index in 0..4 {
        let mut data = list(&["A", "B", "C", "D"]);
        assert!(data.reorder(index, index));
        assert_eq!(names(&data), ["A", "B", "C", "D"]);
        assert!(data.reorder(index, index + 1));
        assert_eq!(names(&data), ["A", "B", "C", "D"]);
    }
}

#[test]
fn positions_outside_the_list_move_nothing() {
    let mut data = list(&["A", "B", "C"]);
    assert!(!data.reorder(3, 0));
    assert!(!data.reorder(0, 4));
    assert!(!data.reorder(usize::MAX, usize::MAX));
    assert_eq!(names(&data), ["A", "B", "C"]);
    let mut empty = Data::new();
    assert!(!empty.reorder(0, 0));
}

#[test]
fn a_move_keeps_the_selection() {
    let mut data = list(&["A", "B", "C", "D"]);
    data.toggle_select(3);
    data.toggle_select(0);
    data.reorder(3, 1);
    assert_eq!(names(&data), ["A", "D", "B", "C"]);
    assert_eq!(selected_names(&data), ["A", "D"]);
    assert!(data.is_selected(1));
    assert!(!data.is_selected(3));
}

#[test]
fn the_drop_position_follows_the_pointer() {
    assert_eq!(drop_target(0, 2, true), 2);
    assert_eq!(drop_target(0, 2, false), 3);
    assert_eq!(drop_target(3, 1, true), 1);
    assert_eq!(drop_target(3, 1, false), 2);
    assert_eq!(drop_target(2, 2, true), 2);
    assert_eq!(drop_target(2, 2, false), 2);
    assert_eq!(drop_target(0, usize::MAX - 1, false), usize::MAX);
}

#[test]
fn drag_and_drop_by_pointer() {
    let mut data = list(&["A", "B", "C", "D"]);
    data.reorder(3, drop_target(3, 1, true));
    assert_eq!(names(&data), ["A", "D", "B", "C"]);
    data.reorder(0, drop_target(0, 1, false));
    assert_eq!(names(&data), ["D", "A", "B", "C"]);
    data.reorder(2, drop_target(2, 2, false));
    assert_eq!(names(&data), ["D", "A", "B", "C"]);
    data.reorder(0, drop_target(0, 3, false));
    assert_eq!(names(&data), ["A", "B", "C", "D"]);
}

#[test]
fn toggle_select_toggles_one_row() {
    let mut data = list(&["A", "B", "C"]);
    assert_eq!(data.toggle_select(1), Some(true));
    assert!(!data.is_selected(0));
    assert!(data.is_selected(1));
    assert!(!data.is_selected(2));
    assert!(!data.none_selected());
    assert_eq!(data.toggle_select(1), Some(false));
    assert!(!data.is_selected(1));
    assert!(data.none_selected());
    assert_eq!(data.toggle_select(3), None);
    assert!(data.none_selected());
}

#[test]
fn selected_comes_in_list_order() {
    let mut data = list(&["A", "B", "C", "D"]);
    data.toggle_select(3);
    data.toggle_select(0);
    data.toggle_select(2);
    assert_eq!(selected_names(&data), ["A", "C", "D"]);
    data.reorder(0, 4);
    assert_eq!(selected_names(&data), ["C", "D", "A"]);
}

#[test]
fn equal_records_are_selected_together() {
    let mut data = Data::new();
    data.add(record(5, "first"));
    data.add(record(6, "other"));
    data.add(record(5, "first"));
    assert_eq!(data.toggle_select(0), Some(true));
    assert!(data.is_selected(2));
    assert_eq!(data.selected().len(), 2);
    let deleted = data.delete(0).unwrap();
    assert_eq!(deleted.key, 5);
    assert_eq!(names(&data), ["other", "first"]);
    assert!(!data.is_selected(1));
    assert!(data.none_selected());
}

#[test]
fn select_all_from_a_part_selection() {
    let mut data = list(&["A", "B", "C"]);
    data.toggle_select(1);
    data.select_all();
    assert_eq!(selected_names(&data), ["A", "B", "C"]);
    data.toggle_all();
    assert!(data.none_selected());
    assert!(data.selected().is_empty());
}

#[test]
fn the_button_switches_between_all_and_none() {
    let mut data = list(&["A", "B", "C"]);
    data.toggle_all();
    assert_eq!(selected_names(&data), ["A", "B", "C"]);
    data.toggle_all();
    assert!(data.selected().is_empty());
    data.toggle_select(2);
    data.toggle_all();
    assert!(data.selected().is_empty());
    data.toggle_all();
    assert_eq!(selected_names(&data), ["A", "B", "C"]);
    data.deselect_all();
    assert!(data.none_selected());
}

#[test]
fn the_button_on_an_empty_list() {
    let mut data = Data::new();
    data.toggle_all();
    assert!(data.none_selected());
    data.select_all();
    assert!(data.none_selected());
}

#[test]
fn delete_takes_the_row_out_of_the_selection() {
    let mut data = list(&["A", "B", "C"]);
    data.toggle_select(1);
    data.toggle_select(2);
    let deleted = data.delete(1).unwrap();
    assert_eq!(deleted.name, "B");
    assert_eq!(names(&data), ["A", "C"]);
    assert_eq!(selected_names(&data), ["C"]);
    assert!(data.is_selected(1));
    assert!(data.delete(2).is_none());
    assert_eq!(names(&data), ["A", "C"]);
    assert!(consistent(&data));
}

#[test]
fn delete_all_clears_list_and_selection() {
    let mut data = list(&["A", "B", "C"]);
    data.toggle_all();
    data.delete_all();
    assert_eq!(data.len(), 0);
    assert!(data.none_selected());
    data.add(record(1, "A"));
    assert!(!data.is_selected(0));
}

#[test]
fn the_selection_never_dangles() {
    let mut data = Data::new();
    let requests = vec![
        Request::Add(record(1, "A")),
        Request::Add(record(2, "B")),
        Request::ToggleSelect(0),
        Request::Add(record(3, "C")),
        Request::ToggleSelect(2),
        Request::Delete(0),
        Request::ToggleSelect(7),
        Request::Reorder { from: 1, to: 0 },
        Request::ToggleAll,
        Request::Add(record(2, "B")),
        Request::ToggleAll,
        Request::Delete(1),
        Request::SelectAll,
        Request::Delete(5),
        Request::Delete(0),
        Request::DeselectAll,
        Request::ToggleSelect(0),
        Request::DeleteAll,
        Request::Add(record(9, "Z")),
    ];
    for request in requests {
        data.apply(request);
        assert!(consistent(&data));
    }
    assert_eq!(names(&data), ["Z"]);
    assert!(data.none_selected());
}

#[test]
fn requests_do_what_the_methods_do() {
    let mut data = Data::new();
    data.apply(Request::Add(record(1, "A")));
    data.apply(Request::Add(record(2, "B")));
    data.apply(Request::Add(record(3, "C")));
    data.apply(Request::Add(record(4, "D")));
    data.apply(Request::Reorder { from: 3, to: 1 });
    assert_eq!(names(&data), ["A", "D", "B", "C"]);
    data.apply(Request::ToggleSelect(1));
    assert_eq!(selected_names(&data), ["D"]);
    data.apply(Request::SelectAll);
    assert_eq!(selected_names(&data), ["A", "D", "B", "C"]);
    data.apply(Request::Delete(2));
    assert_eq!(selected_names(&data), ["A", "D", "C"]);
    data.apply(Request::ToggleAll);
    assert!(data.none_selected());
    data.apply(Request::ToggleAll);
    assert_eq!(selected_names(&data), ["A", "D", "C"]);
    data.apply(Request::DeselectAll);
    assert!(data.none_selected());
    data.apply(Request::DeleteAll);
    assert_eq!(data.len(), 0);
}
