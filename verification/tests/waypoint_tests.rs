use ozi_rs::ids::{LayerId, WaypointId};
use ozi_rs::layers::WaypointLayer;
use ozi_rs::waypoint::Waypoint;

fn deg(x: f64) -> u64 {
    x.to_bits()
}

#[test]
fn waypoint_preserves_name_and_coordinates() {
    let waypoint = Waypoint::new(WaypointId::new(8), "Camp", deg(53.9), deg(27.5667));

    assert_eq!(waypoint.id(), WaypointId::new(8));
    assert_eq!(waypoint.name(), "Camp");
    assert_eq!(f64::from_bits(waypoint.latitude()), 53.9);
    assert_eq!(f64::from_bits(waypoint.longitude()), 27.5667);
}

#[test]
fn waypoint_move_updates_coordinates() {
    let mut waypoint = Waypoint::new(WaypointId::new(8), "Camp", deg(53.9), deg(27.5667));

    waypoint.move_to(deg(54.1), deg(27.8));

    assert_eq!(f64::from_bits(waypoint.latitude()), 54.1);
    assert_eq!(f64::from_bits(waypoint.longitude()), 27.8);
}

#[test]
fn waypoint_default_visible_is_true_and_toggle_flips() {
    let mut waypoint = Waypoint::new(WaypointId::new(8), "Camp", deg(53.9), deg(27.5667));

    assert!(waypoint.visible(), "new waypoints SHALL default to visible");
    assert!(!waypoint.toggle_visible());
    assert!(!waypoint.visible());
    assert!(waypoint.toggle_visible());
    assert!(waypoint.visible());
}

#[test]
fn waypoint_attachments_drop_blanks_and_repeats() {
    let mut waypoint = Waypoint::new(WaypointId::new(8), "улика", deg(53.9), deg(27.5));
    waypoint.set_attachments(vec![
        "  находки/куртка.jpg  ".to_owned(),
        "".to_owned(),
        "   ".to_owned(),
        "находки/куртка.jpg".to_owned(),
    ]);
    // The same photograph attached twice is a mistake, not a decision.
    assert_eq!(waypoint.attachments(), ["находки/куртка.jpg"]);
}

#[test]
fn waypoint_setters_return_previous_values_for_undo() {
    let mut waypoint = Waypoint::new(WaypointId::new(8), "Camp", deg(53.9), deg(27.5667));

    assert_eq!(waypoint.symbol(), None);
    assert_eq!(waypoint.set_name("Base camp".to_owned()), "Camp");
    assert_eq!(waypoint.name(), "Base camp");
    assert_eq!(waypoint.set_symbol(Some("Flag".to_owned())), None);
    assert_eq!(waypoint.symbol(), Some("Flag"));
    assert_eq!(waypoint.set_symbol(None), Some("Flag".to_owned()));
    assert_eq!(waypoint.symbol(), None);
}

// ── further cases of this crate ──────────────────────────────────────────

#[test]
fn attachments_start_empty_and_the_previous_list_comes_back() {
    let mut waypoint = Waypoint::new(WaypointId::new(8), "улика", deg(53.9), deg(27.5));
    assert!(waypoint.attachments().is_empty());

    let previous = waypoint.set_attachments(vec![
        "находки/куртка-1.jpg".to_owned(),
        "находки/куртка-2.jpg".to_owned(),
    ]);
    assert!(previous.is_empty());
    assert_eq!(waypoint.attachments().len(), 2);

    let previous = waypoint.set_attachments(Vec::new());
    assert_eq!(previous, vec!["находки/куртка-1.jpg".to_owned(), "находки/куртка-2.jpg".to_owned()]);
    assert!(waypoint.attachments().is_empty());
}

#[test]
fn a_blank_description_is_no_description() {
    let mut waypoint = Waypoint::new(WaypointId::new(1), "Camp", deg(1.0), deg(2.0));
    assert_eq!(waypoint.set_description(Some("  следы у ручья \n".to_owned())), None);
    assert_eq!(waypoint.description(), Some("следы у ручья"));
    assert_eq!(waypoint.set_description(Some("   ".to_owned())), Some("следы у ручья".to_owned()));
    assert_eq!(waypoint.description(), None);
}

#[test]
fn colour_setter_answers_with_the_previous_colour() {
    let mut waypoint = Waypoint::new(WaypointId::new(1), "Camp", deg(1.0), deg(2.0));
    assert_eq!(waypoint.color(), None);
    assert_eq!(waypoint.set_color(Some([1, 2, 3, 4])), None);
    assert_eq!(waypoint.set_color(None), Some([1, 2, 3, 4]));
    waypoint.set_visible(false);
    assert!(!waypoint.visible());
}

#[test]
fn a_waypoint_layer_edits_only_the_mark_it_is_asked_for() {
    let mut layer = WaypointLayer::new(LayerId::new(3), "Marks");
    layer.add_waypoint(Waypoint::new(WaypointId::new(1), "one", deg(1.0), deg(2.0)));
    layer.add_waypoint(Waypoint::new(WaypointId::new(2), "two", deg(3.0), deg(4.0)));

    assert_eq!(layer.rename_waypoint(2, "second".to_owned()).unwrap(), "two");
    assert_eq!(layer.waypoints()[1].name(), "second");
    assert_eq!(layer.waypoints()[0].name(), "one");
    assert!(layer.rename_waypoint(9, "x".to_owned()).is_err());

    assert_eq!(layer.set_waypoint_symbol(1, Some("flag".to_owned())).unwrap(), None);
    assert_eq!(layer.set_waypoint_symbol(1, None).unwrap(), Some("flag".to_owned()));

    assert!(layer.move_waypoint(WaypointId::new(1), 5.0f64.to_bits(), 6.0f64.to_bits()));
    assert_eq!(layer.waypoints()[0].latitude(), 5.0f64.to_bits());
    assert!(!layer.move_waypoint(WaypointId::new(7), 0, 0));

    assert_eq!(layer.set_waypoint_visible(WaypointId::new(2), false), Some(false));
    assert_eq!(layer.toggle_waypoint_visible(WaypointId::new(2)), Some(true));
    assert_eq!(layer.toggle_waypoint_visible(WaypointId::new(8)), None);
}
