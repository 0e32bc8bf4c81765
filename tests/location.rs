use teleport::location::{
    click_message, parse_error_line, row_of, rows_of, visible_hint, Coords, LocationData, Position,
};

fn coords(x: f32, y: f32, z: f32) -> Coords {
    Coords { x: format!("{:.2}", x), y: format!("{:.2}", y), z: format!("{:.2}", z) }
}

fn objective(name: &str, hint: Option<&str>, pos: Option<Coords>) -> Position {
    Position { name: name.to_string(), hint: hint.map(|h| h.to_string()), map: None, pos }
}

#[test]
fn click_with_position() {
    let p = objective("Waypoint 1", None, Some(coords(100.0, 200.0, 300.0)));
    assert_eq!(click_message(&p), "Selected position: Waypoint 1 at [100.00, 200.00, 300.00]");
}

#[test]
fn click_without_position_shows_hint() {
    let p = objective("Gate", Some("needs key"), None);
    assert_eq!(click_message(&p), "Selected: Gate (no position data)");
    assert_eq!(visible_hint(&p), Some("needs key".to_string()));
    let row = row_of(&p);
    assert_eq!(row.label, "Gate");
    assert_eq!(row.hint, Some("needs key".to_string()));
    assert_eq!(row.message, "Selected: Gate (no position data)");
}

#[test]
fn empty_hint_is_not_shown() {
    assert_eq!(visible_hint(&objective("A", Some(""), None)), None);
    assert_eq!(visible_hint(&objective("A", None, None)), None);
}

#[test]
fn coordinates_keep_their_text() {
    let p = objective("Vista", None, Some(coords(-1.5, 0.125, 12345.678)));
    assert_eq!(click_message(&p), "Selected position: Vista at [-1.50, 0.12, 12345.68]");
}

#[test]
fn rows_follow_file_order() {
    let d = LocationData {
        name: "Zone A".to_string(),
        objectives: vec![
            objective("First", Some("up"), Some(coords(1.0, 2.0, 3.0))),
            objective("Second", None, None),
        ],
    };
    let rows = rows_of(&d);
    assert_eq!(rows.len(), 2);
    assert_eq!(rows[0].label, "First");
    assert_eq!(rows[0].hint, Some("up".to_string()));
    assert_eq!(rows[0].message, "Selected position: First at [1.00, 2.00, 3.00]");
    assert_eq!(rows[1].label, "Second");
    assert_eq!(rows[1].hint, None);
    assert_eq!(rows[1].message, "Selected: Second (no position data)");
}

#[test]
fn empty_group_has_no_rows() {
    let d = LocationData { name: "Empty".to_string(), objectives: vec![] };
    assert!(rows_of(&d).is_empty());
}

#[test]
fn diagnostic_names_the_file() {
    let err = serde_json::from_str::<serde_json::Value>("not json").unwrap_err();
    let line = parse_error_line("broken.json", &err.to_string());
    assert_eq!(line, "Error parsing broken.json: expected ident at line 1 column 2");
}
