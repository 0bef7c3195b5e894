use laesutkontroll::logging::{House, Room};

fn room(name: &str, sensors: &[&str]) -> Room {
    let mut r = Room::new();
    r.change_name(name);
    for s in sensors {
        r.add_sensor(s);
    }
    r
}

#[test]
fn new_house_is_empty() {
    let h = House::new();
    assert!(h.rooms.is_empty());
    assert_eq!(h.key, "");
    assert!(h.all_sensors().is_empty());
}

#[test]
fn change_key_replaces_key() {
    let mut h = House::new();
    h.change_key("abc");
    h.change_key("xyz");
    assert_eq!(h.key, "xyz");
}

#[test]
fn room_keeps_sensors_in_order() {
    let r = room("Kitchen", &["t1", "t2", "t3"]);
    assert_eq!(r.name, "Kitchen");
    assert_eq!(r.all_sensors(), vec!["t1".to_string(), "t2".to_string(), "t3".to_string()]);
}

#[test]
fn house_all_sensors_concatenates_rooms() {
    let mut h = House::new();
    h.add_room(room("A", &["a1", "a2"]));
    h.add_room(room("B", &[]));
    h.add_room(room("C", &["c1"]));
    assert_eq!(
        h.all_sensors(),
        vec!["a1".to_string(), "a2".to_string(), "c1".to_string()]
    );
}

#[test]
fn room_text() {
    let r = room("Kitchen", &["t1", "t2"]);
    assert_eq!(
        r.to_string(),
        "Room {\n\tname: \"Kitchen\",\n\tsensors: [\n\t\t\"t1\",\n\t\t\"t2\",\n\t],\n}"
    );
}

#[test]
fn empty_room_text() {
    let r = Room::new();
    assert_eq!(r.to_string(), "Room {\n\tname: \"\",\n\tsensors: [\n\t],\n}");
}

#[test]
fn house_text_leaves_out_key() {
    let mut h = House::new();
    h.change_key("secret");
    h.add_room(room("Hall", &["h1"]));
    assert_eq!(
        h.to_string(),
        "House {\n\trooms: [\n\t\tRoom {\n\tname: \"Hall\",\n\tsensors: [\n\t\t\"h1\",\n\t],\n},\n\t],\n}"
    );
}

#[test]
fn empty_house_text() {
    assert_eq!(House::new().to_string(), "House {\n\trooms: [\n\t],\n}");
}
