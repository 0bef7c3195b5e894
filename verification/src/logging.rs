//! The layout of the sensor web page: a house of rooms, each with its
//! sensors, and the key that requests for sensor data carry.

use vstd::prelude::*;
use crate::text::strs;
pub use crate::page::readout_logging_page;

verus! {

broadcast use vstd::seq_lib::group_seq_properties;

/// What a `Room` holds.
pub struct RoomView {
    pub name: Seq<char>,
    pub sensors: Seq<Seq<char>>,
}

/// What a `House` holds.
pub struct HouseView {
    pub rooms: Seq<RoomView>,
    pub key: Seq<char>,
}

/// A room and the identifiers of its sensors.
pub struct Room {
    pub name: String,
    pub sensors: Vec<String>,
}

/// The rooms of the house and the key (the CSRF token of the page) that a
/// request for sensor data carries.
pub struct House {
    pub rooms: Vec<Room>,
    pub key: String,
}

impl View for Room {
    type V = RoomView;

    open spec fn view(&self) -> RoomView {
        RoomView { name: self.name@, sensors: strs(self.sensors@) }
    }
}

/// The views of a sequence of rooms.
pub open spec fn room_views(rooms: Seq<Room>) -> Seq<RoomView> {
    rooms.map_values(|r: Room| r@)
}

impl View for House {
    type V = HouseView;

    open spec fn view(&self) -> HouseView {
        HouseView { rooms: room_views(self.rooms@), key: self.key@ }
    }
}

/// The sensors of all rooms, room after room, each room's in its order.
pub open spec fn house_sensors(h: HouseView) -> Seq<Seq<char>> {
    h.rooms.map_values(|r: RoomView| r.sensors).flatten()
}

/// The lines that list the sensors of a room, one per sensor.
pub open spec fn sensor_lines(sensors: Seq<Seq<char>>) -> Seq<char>
    decreases sensors.len(),
{
    if sensors.len() == 0 {
        Seq::empty()
    } else {
        sensor_lines(sensors.drop_last()) + "\t\t\""@ + sensors.last() + "\",\n"@
    }
}

/// The text that describes a room.
pub open spec fn room_text(r: RoomView) -> Seq<char> {
    "Room {\n"@ + "\tname: \""@ + r.name + "\",\n"@ + "\tsensors: [\n"@ + sensor_lines(r.sensors)
        + "\t],\n"@ + "}"@
}

/// The lines that list the rooms of a house, one entry per room.
pub open spec fn room_lines(rooms: Seq<RoomView>) -> Seq<char>
    decreases rooms.len(),
{
    if rooms.len() == 0 {
        Seq::empty()
    } else {
        room_lines(rooms.drop_last()) + "\t\t"@ + room_text(rooms.last()) + ",\n"@
    }
}

/// The text that describes a house (the key is left out).
pub open spec fn house_text(h: HouseView) -> Seq<char> {
    "House {\n"@ + "\trooms: [\n"@ + room_lines(h.rooms) + "\t],\n"@ + "}"@
}

impl Room {
    /// A room with no name and no sensors.
    pub fn new() -> (r: Room)
        ensures
            r@ == (RoomView { name: Seq::empty(), sensors: Seq::empty() }),
    {
        let r = Room { name: String::new(), sensors: Vec::new() };
        assert(r@.sensors =~= Seq::<Seq<char>>::empty());
        r
    }

    /// Renames the room.
    pub fn change_name(&mut self, name: &str)
        ensures
            final(self)@ == (RoomView { name: name@, ..old(self)@ }),
    {
        self.name = name.to_owned();
    }

    /// Adds a sensor after the others.
    pub fn add_sensor(&mut self, sensor: &str)
        ensures
            final(self)@ == (RoomView { sensors: old(self)@.sensors.push(sensor@), ..old(self)@ }),
    {
        let ghost old_sensors = self.sensors@;
        self.sensors.push(sensor.to_owned());
        assert(strs(self.sensors@) =~= strs(old_sensors).push(sensor@));
    }

    /// The text that describes the room (see `room_text`).
    pub fn to_string(&self) -> (r: String)
        ensures
            r@ == room_text(self@),
    {
        let mut r = String::new();
        r.append("Room {\n");
        r.append("\tname: \"");
        r.append(self.name.as_str());
        r.append("\",\n");
        r.append("\tsensors: [\n");
        let ghost head = r@;
        let ghost ss = self@.sensors;
        let n = self.sensors.len();
        for i in 0..n
            invariant
                n == self.sensors.len(),
                ss == strs(self.sensors@),
                r@ == head + sensor_lines(ss.take(i as int)),
        {
            r.append("\t\t\"");
            r.append(self.sensors[i].as_str());
            r.append("\",\n");
            assert(ss.take(i + 1).drop_last() =~= ss.take(i as int));
        }
        assert(ss.take(n as int) =~= ss);
        r.append("\t],\n");
        r.append("}");
        r
    }

    /// A copy of the room's sensors.
    pub fn all_sensors(&self) -> (r: Vec<String>)
        ensures
            strs(r@) == self@.sensors,
    {
        let mut r: Vec<String> = Vec::new();
        let n = self.sensors.len();
        for i in 0..n
            invariant
                n == self.sensors.len(),
                strs(r@) == strs(self.sensors@).take(i as int),
        {
            let ghost old_r = r@;
            r.push(self.sensors[i].clone());
            assert(strs(r@) =~= strs(old_r).push(self.sensors@[i as int]@));
            assert(strs(self.sensors@).take(i + 1) =~= strs(self.sensors@).take(i as int).push(
                self.sensors@[i as int]@,
            ));
        }
        assert(strs(self.sensors@).take(n as int) =~= strs(self.sensors@));
        r
    }
}

impl House {
    /// A house with no rooms and an empty key.
    pub fn new() -> (r: House)
        ensures
            r@ == (HouseView { rooms: Seq::empty(), key: Seq::empty() }),
    {
        let h = House { rooms: Vec::new(), key: String::new() };
        assert(h@.rooms =~= Seq::<RoomView>::empty());
        h
    }

    /// Replaces the key.
    pub fn change_key(&mut self, key: &str)
        ensures
            final(self)@ == (HouseView { key: key@, ..old(self)@ }),
    {
        self.key = key.to_owned();
    }

    /// Adds a room after the others.
    pub fn add_room(&mut self, room: Room)
        ensures
            final(self)@ == (HouseView { rooms: old(self)@.rooms.push(room@), ..old(self)@ }),
    {
        let ghost old_rooms = self.rooms@;
        self.rooms.push(room);
        assert(room_views(self.rooms@) =~= room_views(old_rooms).push(room@));
    }

    /// The text that describes the house (see `house_text`).
    pub fn to_string(&self) -> (r: String)
        ensures
            r@ == house_text(self@),
    {
        let mut r = String::new();
        r.append("House {\n");
        r.append("\trooms: [\n");
        let ghost head = r@;
        let ghost rs = self@.rooms;
        let n = self.rooms.len();
        for i in 0..n
            invariant
                n == self.rooms.len(),
                rs == room_views(self.rooms@),
                r@ == head + room_lines(rs.take(i as int)),
        {
            r.append("\t\t");
            let t = self.rooms[i].to_string();
            r.append(t.as_str());
            r.append(",\n");
            assert(rs.take(i + 1).drop_last() =~= rs.take(i as int));
        }
        assert(rs.take(n as int) =~= rs);
        r.append("\t],\n");
        r.append("}");
        r
    }

    /// The sensors of all rooms, room after room.
    pub fn all_sensors(&self) -> (r: Vec<String>)
        ensures
            strs(r@) == house_sensors(self@),
    {
        let mut r: Vec<String> = Vec::new();
        let ghost per_room = self@.rooms.map_values(|x: RoomView| x.sensors);
        let n = self.rooms.len();
        for i in 0..n
            invariant
                n == self.rooms.len(),
                per_room == self@.rooms.map_values(|x: RoomView| x.sensors),
                strs(r@) == per_room.take(i as int).flatten(),
        {
            let room = &self.rooms[i];
            let m = room.sensors.len();
            let ghost before = strs(r@);
            for j in 0..m
                invariant
                    m == room.sensors.len(),
                    strs(r@) == before + strs(room.sensors@).take(j as int),
            {
                let ghost old_r = r@;
                r.push(room.sensors[j].clone());
                assert(strs(r@) =~= strs(old_r).push(room.sensors@[j as int]@));
                assert(strs(room.sensors@).take(j + 1) =~= strs(room.sensors@).take(j as int).push(
                    room.sensors@[j as int]@,
                ));
            }
            assert(strs(room.sensors@).take(m as int) =~= strs(room.sensors@));
            assert(per_room[i as int] == strs(room.sensors@));
            assert(per_room.take(i + 1) =~= per_room.take(i as int).push(per_room[i as int]));
            proof { per_room.take(i as int).lemma_flatten_push(per_room[i as int]); }
        }
        assert(per_room.take(n as int) =~= per_room);
        r
    }
}

/// The text of a house with no rooms.
pub proof fn lemma_house_text_no_rooms(key: Seq<char>)
    ensures
        house_text(HouseView { rooms: Seq::empty(), key }) == "House {\n\trooms: [\n\t],\n}"@,
{
    reveal_strlit("House {\n");
    reveal_strlit("\trooms: [\n");
    reveal_strlit("\t],\n");
    reveal_strlit("}");
    reveal_strlit("House {\n\trooms: [\n\t],\n}");
    assert(room_lines(Seq::<RoomView>::empty()) == Seq::<char>::empty());
    assert(house_text(HouseView { rooms: Seq::empty(), key }) =~= "House {\n\trooms: [\n\t],\n}"@);
}

/// The text of a house leaves out its key.
pub proof fn lemma_house_text_without_key(h: HouseView, key: Seq<char>)
    ensures
        house_text(HouseView { key, ..h }) == house_text(h),
{
}

/// Adding a room to a house adds, just before the closing `\t],\n}`, one
/// entry for it: `\t\t`, the text of the room and `,\n`, whatever the room
/// holds (a room without sensors too).
pub proof fn lemma_house_text_add_room(h: HouseView, r: RoomView)
    ensures
        house_text(h).len() >= 5,
        house_text(h).skip(house_text(h).len() - 5) == "\t],\n}"@,
        house_text(HouseView { rooms: h.rooms.push(r), ..h }) == house_text(h).take(
            house_text(h).len() - 5,
        ) + "\t\t"@ + room_text(r) + ",\n\t],\n}"@,
{
    reveal_strlit("\t],\n");
    reveal_strlit("}");
    reveal_strlit("\t],\n}");
    reveal_strlit(",\n");
    reveal_strlit(",\n\t],\n}");
    let head = "House {\n"@ + "\trooms: [\n"@;
    let p = head + room_lines(h.rooms);
    assert(house_text(h) =~= p + "\t],\n}"@);
    assert(house_text(h).take(house_text(h).len() - 5) =~= p);
    assert(house_text(h).skip(house_text(h).len() - 5) =~= "\t],\n}"@);
    let h2 = HouseView { rooms: h.rooms.push(r), ..h };
    assert(h2.rooms.drop_last() =~= h.rooms);
    assert(h2.rooms.last() == r);
    assert(house_text(h2) =~= p + "\t\t"@ + room_text(r) + ",\n\t],\n}"@);
}

/// The text of a room with no sensors.
pub proof fn lemma_room_text_no_sensors(name: Seq<char>)
    ensures
        room_text(RoomView { name, sensors: Seq::empty() }) == "Room {\n\tname: \""@ + name
            + "\",\n\tsensors: [\n\t],\n}"@,
{
    reveal_strlit("Room {\n");
    reveal_strlit("\tname: \"");
    reveal_strlit("Room {\n\tname: \"");
    reveal_strlit("\",\n");
    reveal_strlit("\tsensors: [\n");
    reveal_strlit("\t],\n");
    reveal_strlit("}");
    reveal_strlit("\",\n\tsensors: [\n\t],\n}");
    assert(sensor_lines(Seq::<Seq<char>>::empty()) == Seq::<char>::empty());
    assert(room_text(RoomView { name, sensors: Seq::empty() }) =~= "Room {\n\tname: \""@ + name
        + "\",\n\tsensors: [\n\t],\n}"@);
}

/// Adding a sensor to a room adds, just before the closing `\t],\n}`, one
/// line for it: `\t\t"`, the sensor and `",\n`.
pub proof fn lemma_room_text_add_sensor(r: RoomView, s: Seq<char>)
    ensures
        room_text(r).len() >= 5,
        room_text(r).skip(room_text(r).len() - 5) == "\t],\n}"@,
        room_text(RoomView { sensors: r.sensors.push(s), ..r }) == room_text(r).take(
            room_text(r).len() - 5,
        ) + "\t\t\""@ + s + "\",\n\t],\n}"@,
{
    reveal_strlit("\t],\n");
    reveal_strlit("}");
    reveal_strlit("\t],\n}");
    reveal_strlit("\",\n");
    reveal_strlit("\",\n\t],\n}");
    let p = "Room {\n"@ + "\tname: \""@ + r.name + "\",\n"@ + "\tsensors: [\n"@ + sensor_lines(
        r.sensors,
    );
    assert(room_text(r) =~= p + "\t],\n}"@);
    assert(room_text(r).take(room_text(r).len() - 5) =~= p);
    assert(room_text(r).skip(room_text(r).len() - 5) =~= "\t],\n}"@);
    let r2 = RoomView { sensors: r.sensors.push(s), ..r };
    assert(r2.sensors.drop_last() =~= r.sensors);
    assert(r2.sensors.last() == s);
    assert(room_text(r2) =~= p + "\t\t\""@ + s + "\",\n\t],\n}"@);
}

/// Adding a room adds its sensors after those of the other rooms.
pub proof fn lemma_add_room_sensors(h: HouseView, r: RoomView)
    ensures
        house_sensors(HouseView { rooms: h.rooms.push(r), ..h }) == house_sensors(h) + r.sensors,
{
    let m = h.rooms.map_values(|x: RoomView| x.sensors);
    assert(h.rooms.push(r).map_values(|x: RoomView| x.sensors) =~= m.push(r.sensors));
    m.lemma_flatten_push(r.sensors);
}

} // verus!
