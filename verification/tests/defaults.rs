use viewer::behavior::Behavior;
use viewer::data::Data;
use viewer::kind::ViewMode;
use viewer::pane::{Settings, State};
use viewer::App;

#[test]
fn defaults_are_the_initial_values() {
    assert_eq!(ViewMode::default(), ViewMode::Plot);
    assert_eq!(Settings::default(), Settings::new());
    assert_eq!(Settings::default().precision, 2);
    assert_eq!(State::default(), State::new());
    assert_eq!(Behavior::default(), Behavior::new());
    let data = Data::default();
    assert_eq!(data.len(), 0);
    assert!(data.none_selected());
    let app = App::default();
    assert!(app.left_panel);
    assert!(app.reactive);
    assert!(app.registry.tiles.is_empty());
    assert_eq!(app.data.len(), 0);
}
