use laesutkontroll::page::{csrf_token, house_from_scan, readout_logging_page, room_from_scan, ReadoutError, RoomScan};

const PAGE: &str = r#"<!DOCTYPE html>
<html><head><title>Logger</title></head><body>
<form method="post">
<input type="hidden" name="csrfmiddlewaretoken" value="abc123">
<div data-role="collapsible">
  <h5>  Living room </h5>
  <fieldset>
    <input type="checkbox" id=" sensor_1 ">
    <input type="checkbox" id="sensor_2">
    <input type="text" id="not_a_sensor">
    <input type="checkbox">
  </fieldset>
  <fieldset><input type="checkbox" id="ignored"></fieldset>
</div>
<div data-role="collapsible">
  <fieldset><input type="checkbox" id="s9"></fieldset>
</div>
<div data-role="collapsible"><h5>Attic</h5><h5>Second heading</h5></div>
<div data-role="other"><h5>Not a room</h5></div>
</form></body></html>"#;

#[test]
fn readout_reads_rooms_and_key() {
    let h = readout_logging_page(PAGE).unwrap();
    assert_eq!(h.key, "abc123");
    assert_eq!(h.rooms.len(), 3);
    assert_eq!(h.rooms[0].name, "Living room");
    assert_eq!(
        h.rooms[0].sensors,
        vec!["sensor_1".to_string(), "sensor_2".to_string(), "".to_string()]
    );
    assert_eq!(h.rooms[1].name, "");
    assert_eq!(h.rooms[1].sensors, vec!["s9".to_string()]);
    assert_eq!(h.rooms[2].name, "Attic");
    assert!(h.rooms[2].sensors.is_empty());
    assert_eq!(
        h.all_sensors(),
        vec!["sensor_1".to_string(), "sensor_2".to_string(), "".to_string(), "s9".to_string()]
    );
}

#[test]
fn readout_without_token() {
    let page = r#"<html><body><div data-role="collapsible"><h5>R</h5></div></body></html>"#;
    assert!(matches!(readout_logging_page(page), Err(ReadoutError::CsrfTokenNotFound)));
}

#[test]
fn readout_token_without_value() {
    let page = r#"<html><body><input type="hidden" name="csrfmiddlewaretoken"></body></html>"#;
    assert!(matches!(readout_logging_page(page), Err(ReadoutError::CsrfTokenNotFound)));
}

#[test]
fn readout_page_without_rooms() {
    let page = r#"<input type="hidden" name="csrfmiddlewaretoken" value="k">"#;
    let h = readout_logging_page(page).unwrap();
    assert_eq!(h.key, "k");
    assert!(h.rooms.is_empty());
}

#[test]
fn csrf_token_of_page() {
    assert_eq!(csrf_token(PAGE).unwrap(), "abc123");
    assert!(matches!(csrf_token("<p>no form</p>"), Err(ReadoutError::CsrfTokenNotFound)));
}

#[test]
fn error_messages() {
    assert_eq!(ReadoutError::CsrfTokenNotFound.message(), "CSRF token not found");
    assert_eq!(ReadoutError::InvalidSelector.message(), "invalid CSS selector");
}

#[test]
fn room_from_scan_trims() {
    let scan = RoomScan {
        title: Some("\n Bath \t".to_string()),
        sensor_ids: Some(vec![Some(" a ".to_string()), None, Some("b".to_string())]),
    };
    let r = room_from_scan(&scan);
    assert_eq!(r.name, "Bath");
    assert_eq!(r.sensors, vec!["a".to_string(), "".to_string(), "b".to_string()]);
}

#[test]
fn room_from_empty_scan() {
    let r = room_from_scan(&RoomScan { title: None, sensor_ids: None });
    assert_eq!(r.name, "");
    assert!(r.sensors.is_empty());
}

#[test]
fn house_from_scan_needs_key() {
    let rooms = vec![RoomScan { title: Some("R".to_string()), sensor_ids: None }];
    assert!(matches!(house_from_scan(None, &rooms), Err(ReadoutError::CsrfTokenNotFound)));
    let h = house_from_scan(Some("k".to_string()), &rooms).unwrap();
    assert_eq!(h.key, "k");
    assert_eq!(h.rooms.len(), 1);
    assert_eq!(h.rooms[0].name, "R");
}

#[test]
fn readout_takes_first_token() {
    let page = "<input type=hidden name=csrfmiddlewaretoken value=first><input type=hidden name=csrfmiddlewaretoken value=second>";
    let h = readout_logging_page(page).unwrap();
    assert_eq!(h.key, "first");
    assert!(h.rooms.is_empty());
}
