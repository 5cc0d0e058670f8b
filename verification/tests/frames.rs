use polars_core::frame::column::Column;
use polars_core::frame::DataFrame;
use viewer::frame::{classify, try_classify, DISCRIMINANT_COLUMN};
use viewer::kind::{Ddoc, Kind, UnsupportedFormat};

fn frame_of(names: &[&str]) -> DataFrame {
    let columns = names
        .iter()
        .map(|name| Column::new((*name).into(), vec![1.5f64, 2.5, 3.5]))
        .collect();
    DataFrame::new(columns).unwrap()
}

#[test]
fn the_second_column_tells_the_kind() {
    assert_eq!(DISCRIMINANT_COLUMN, 1);
    assert_eq!(
        classify(&frame_of(&["Identifier", "Temperature", "Timestamp"])),
        Ok(Kind::Dtec)
    );
    assert_eq!(
        classify(&frame_of(&["Identifier", "Turbidity", "Timestamp"])),
        Ok(Kind::Atuc)
    );
    assert_eq!(
        classify(&frame_of(&["Identifier", "DDOC.T2"])),
        Ok(Kind::Ddoc(Ddoc::T2))
    );
}

#[test]
fn a_known_name_in_another_column_does_not_count() {
    assert_eq!(
        classify(&frame_of(&["Temperature", "Identifier"])),
        Err(UnsupportedFormat)
    );
    assert_eq!(
        classify(&frame_of(&["Identifier", "Timestamp", "Temperature"])),
        Err(UnsupportedFormat)
    );
}

#[test]
fn each_known_name_classifies_a_frame() {
    for kind in [
        Kind::Dtec,
        Kind::Atuc,
        Kind::Ddoc(Ddoc::C1),
        Kind::Ddoc(Ddoc::C2),
        Kind::Ddoc(Ddoc::T1),
        Kind::Ddoc(Ddoc::T2),
        Kind::Ddoc(Ddoc::V1),
        Kind::Ddoc(Ddoc::V2),
    ] {
        let frame = frame_of(&["Identifier", kind.name(), "Timestamp"]);
        assert_eq!(classify(&frame), Ok(kind));
        assert_eq!(try_classify(&frame), Some(Ok(kind)));
    }
}

#[test]
fn narrow_frames_are_not_classified() {
    assert_eq!(try_classify(&frame_of(&[])), None);
    assert_eq!(try_classify(&frame_of(&["Temperature"])), None);
    assert_eq!(
        try_classify(&frame_of(&["Identifier", "Humidity"])),
        Some(Err(UnsupportedFormat))
    );
}

#[test]
fn classification_reads_the_schema_only() {
    let empty = DataFrame::new(vec![
        Column::new("Identifier".into(), Vec::<u64>::new()),
        Column::new("Turbidity".into(), Vec::<f64>::new()),
    ])
    .unwrap();
    assert_eq!(classify(&empty), Ok(Kind::Atuc));
}
