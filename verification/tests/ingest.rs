use egui_tiles::TileId;
use polars_core::frame::column::Column;
use polars_core::frame::DataFrame;
use viewer::ingest::Ingested;
use viewer::kind::{Ddoc, Kind, ViewMode};
use viewer::pane::Pane;
use viewer::registry::PaneRegistry;

fn frame_of(names: &[&str]) -> DataFrame {
    let columns = names
        .iter()
        .map(|name| Column::new((*name).into(), vec![1.0f64, 2.0]))
        .collect();
    DataFrame::new(columns).unwrap()
}

fn pane_count(registry: &PaneRegistry) -> usize {
    registry.tiles.tiles().filter(|tile| tile.is_pane()).count()
}

#[test]
fn a_supported_frame_is_opened_as_a_plot() {
    let mut registry = PaneRegistry::new();
    let outcome = registry.ingest(frame_of(&["Identifier", "Turbidity", "Timestamp"]));
    assert_eq!(
        outcome,
        Ingested::Opened {
            tile: 1,
            kind: Kind::Atuc
        }
    );
    let pane = registry.pane(1).unwrap();
    assert_eq!(pane.kind, Kind::Atuc);
    assert!(!pane.is_real_time());
    assert_eq!(pane.view, ViewMode::Plot);
    let held = pane.data_frame.as_ref().unwrap();
    assert_eq!(held.width(), 3);
    assert_eq!(held.height(), 2);
    assert_eq!(held.get_column_names_str(), ["Identifier", "Turbidity", "Timestamp"]);
}

#[test]
fn ingest_as_sets_the_view() {
    let mut registry = PaneRegistry::new();
    let outcome = registry.ingest_as(frame_of(&["Identifier", "DDOC.V1"]), ViewMode::Table);
    assert_eq!(
        outcome,
        Ingested::Opened {
            tile: 1,
            kind: Kind::Ddoc(Ddoc::V1)
        }
    );
    assert_eq!(registry.pane(1).unwrap().view, ViewMode::Table);
}

#[test]
fn an_unsupported_frame_is_dropped() {
    let mut registry = PaneRegistry::new();
    assert_eq!(
        registry.ingest(frame_of(&["Identifier", "Pressure"])),
        Ingested::Unsupported
    );
    assert!(registry.tiles.is_empty());
    assert_eq!(registry.root, None);
}

#[test]
fn a_narrow_frame_is_skipped() {
    let mut registry = PaneRegistry::new();
    assert_eq!(registry.ingest(frame_of(&["Temperature"])), Ingested::Skipped);
    assert_eq!(registry.ingest(frame_of(&[])), Ingested::Skipped);
    assert!(registry.tiles.is_empty());
}

#[test]
fn a_failure_hands_back_its_message() {
    let mut registry = PaneRegistry::new();
    assert_eq!(
        registry.ingest_arrival(Err("1:1: Expected struct".to_string())),
        Ingested::Failed("1:1: Expected struct".to_string())
    );
    assert!(registry.tiles.is_empty());
    assert_eq!(
        registry.ingest_arrival(Ok(frame_of(&["Identifier", "Temperature"]))),
        Ingested::Opened {
            tile: 1,
            kind: Kind::Dtec
        }
    );
}

#[test]
fn loaded_frames_may_repeat() {
    let mut registry = PaneRegistry::new();
    for expected in [1u64, 2, 4, 5] {
        assert_eq!(
            registry.ingest(frame_of(&["Identifier", "Temperature"])),
            Ingested::Opened {
                tile: expected,
                kind: Kind::Dtec
            }
        );
    }
    assert_eq!(pane_count(&registry), 4);
    assert_eq!(registry.find(Kind::Dtec, false), Some(1));
    assert_eq!(registry.find(Kind::Dtec, true), None);
}

#[test]
fn a_bad_file_among_three() {
    let mut registry = PaneRegistry::new();
    let outcomes = registry.ingest_batch(vec![
        Ok(frame_of(&["Identifier", "Temperature", "Timestamp"])),
        Err("unexpected end of input".to_string()),
        Ok(frame_of(&["Identifier", "DDOC.C2", "Timestamp"])),
    ]);
    assert_eq!(
        outcomes,
        vec![
            Ingested::Opened {
                tile: 1,
                kind: Kind::Dtec
            },
            Ingested::Failed("unexpected end of input".to_string()),
            Ingested::Opened {
                tile: 2,
                kind: Kind::Ddoc(Ddoc::C2)
            },
        ]
    );
    assert_eq!(pane_count(&registry), 2);
    let failures = outcomes
        .iter()
        .filter(|outcome| matches!(outcome, Ingested::Failed(_)))
        .count();
    assert_eq!(failures, 1);

    let mut without = PaneRegistry::new();
    let expected = without.ingest_batch(vec![
        Ok(frame_of(&["Identifier", "Temperature", "Timestamp"])),
        Ok(frame_of(&["Identifier", "DDOC.C2", "Timestamp"])),
    ]);
    assert_eq!(expected, vec![outcomes[0].clone(), outcomes[2].clone()]);
    assert_eq!(registry.pane(1).unwrap().kind, without.pane(1).unwrap().kind);
    assert_eq!(registry.pane(2).unwrap().kind, without.pane(2).unwrap().kind);
    assert_eq!(registry.root, without.root);
}

#[test]
fn a_batch_of_every_outcome() {
    let mut registry = PaneRegistry::new();
    let outcomes = registry.ingest_batch(vec![
        Ok(frame_of(&["Identifier"])),
        Ok(frame_of(&["Identifier", "Unknown"])),
        Err("no such file".to_string()),
        Ok(frame_of(&["Identifier", "Turbidity"])),
    ]);
    assert_eq!(
        outcomes,
        vec![
            Ingested::Skipped,
            Ingested::Unsupported,
            Ingested::Failed("no such file".to_string()),
            Ingested::Opened {
                tile: 1,
                kind: Kind::Atuc
            },
        ]
    );
    assert_eq!(pane_count(&registry), 1);
    assert_eq!(registry.ingest_batch(Vec::new()), Vec::<Ingested>::new());
}

#[test]
fn received_frames_are_taken_in_order() {
    let mut registry = PaneRegistry::new();
    let outcomes = registry.ingest_frames(vec![
        frame_of(&["Identifier", "Turbidity"]),
        frame_of(&["Identifier", "Nothing"]),
        frame_of(&["Identifier", "Temperature"]),
    ]);
    assert_eq!(
        outcomes,
        vec![
            Ingested::Opened {
                tile: 1,
                kind: Kind::Atuc
            },
            Ingested::Unsupported,
            Ingested::Opened {
                tile: 2,
                kind: Kind::Dtec
            },
        ]
    );
    assert_eq!(registry.pane(1).unwrap().kind, Kind::Atuc);
    assert_eq!(registry.pane(2).unwrap().kind, Kind::Dtec);
}

#[test]
fn a_full_registry_takes_nothing_in() {
    let mut registry = PaneRegistry::new();
    registry.tiles.insert(
        TileId::from_u64(u64::MAX - 1),
        egui_tiles::Tile::Pane(Pane::new(Kind::Atuc)),
    );
    assert_eq!(
        registry.ingest(frame_of(&["Identifier", "Temperature"])),
        Ingested::Full
    );
    assert_eq!(
        registry.ingest(frame_of(&["Identifier", "Nothing"])),
        Ingested::Unsupported
    );
    assert_eq!(pane_count(&registry), 1);
}
