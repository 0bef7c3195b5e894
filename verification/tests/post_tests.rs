use laesutkontroll::logging::Room;
use laesutkontroll::post::{field, room_request_form, sensor_request_form};

fn pair(a: &str, b: &str) -> (String, String) {
    (a.to_string(), b.to_string())
}

#[test]
fn sensor_form() {
    assert_eq!(
        sensor_request_form("s1", "2024-01-01T00:00", "2024-01-02T00:00", "key"),
        vec![
            pair("von", "2024-01-01T00:00"),
            pair("bis", "2024-01-02T00:00"),
            pair("csrfmiddlewaretoken", "key"),
            pair("s1", "on"),
        ]
    );
}

#[test]
fn room_form() {
    let mut r = Room::new();
    r.add_sensor("a");
    r.add_sensor("b");
    assert_eq!(
        room_request_form(&r, "s", "e", "k"),
        vec![
            pair("von", "s"),
            pair("bis", "e"),
            pair("csrfmiddlewaretoken", "k"),
            pair("a", "on"),
            pair("b", "on"),
        ]
    );
}

#[test]
fn empty_room_form() {
    let r = Room::new();
    assert_eq!(room_request_form(&r, "s", "e", "k").len(), 3);
}

#[test]
fn form_field() {
    assert_eq!(field("x", "y"), pair("x", "y"));
}
