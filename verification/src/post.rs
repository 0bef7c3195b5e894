//! The forms of the requests for sensor data.

use vstd::prelude::*;
use crate::logging::Room;

verus! {

/// The names and values of a form.
pub open spec fn form_view(f: Seq<(String, String)>) -> Seq<(Seq<char>, Seq<char>)> {
    f.map_values(|p: (String, String)| (p.0@, p.1@))
}

/// A form field.
pub fn field(name: &str, value: &str) -> (r: (String, String))
    ensures
        r.0@ == name@,
        r.1@ == value@,
{
    (name.to_owned(), value.to_owned())
}

/// The fields that every request for sensor data starts with: the start and
/// end of the time span, and the CSRF token.
pub open spec fn span_fields(start: Seq<char>, end: Seq<char>, key: Seq<char>) -> Seq<
    (Seq<char>, Seq<char>),
> {
    seq![("von"@, start), ("bis"@, end), ("csrfmiddlewaretoken"@, key)]
}

/// The field that selects a sensor.
pub open spec fn sensor_field(sensor: Seq<char>) -> (Seq<char>, Seq<char>) {
    (sensor, "on"@)
}

fn span_form(start: &str, end: &str, key: &str) -> (r: Vec<(String, String)>)
    ensures
        form_view(r@) == span_fields(start@, end@, key@),
{
    let mut r: Vec<(String, String)> = Vec::new();
    r.push(field("von", start));
    r.push(field("bis", end));
    r.push(field("csrfmiddlewaretoken", key));
    assert(form_view(r@) =~= span_fields(start@, end@, key@));
    r
}

/// The form that requests the data of all sensors of a room from `start` to
/// `end`: the span fields, then one field per sensor.
pub fn room_request_form(room: &Room, start: &str, end: &str, key: &str) -> (r: Vec<
    (String, String),
>)
    ensures
        form_view(r@) == span_fields(start@, end@, key@) + room@.sensors.map_values(
            |s: Seq<char>| sensor_field(s),
        ),
        r.len() == 3 + room@.sensors.len(),
        r@[0].0@ == "von"@ && r@[0].1@ == start@,
        r@[1].0@ == "bis"@ && r@[1].1@ == end@,
        r@[2].0@ == "csrfmiddlewaretoken"@ && r@[2].1@ == key@,
        forall|i: int|
            0 <= i < room@.sensors.len() ==> (#[trigger] r@[3 + i]).0@ == room@.sensors[i]
                && r@[3 + i].1@ == "on"@,
{
    let mut r = span_form(start, end, key);
    let ghost head = form_view(r@);
    let ghost want = room@.sensors.map_values(|s: Seq<char>| sensor_field(s));
    let n = room.sensors.len();
    for i in 0..n
        invariant
            n == room.sensors.len(),
            want == room@.sensors.map_values(|s: Seq<char>| sensor_field(s)),
            form_view(r@) == head + want.take(i as int),
    {
        let ghost before = r@;
        r.push(field(room.sensors[i].as_str(), "on"));
        assert(form_view(r@) =~= form_view(before).push(want[i as int]));
        assert(want.take(i + 1) =~= want.take(i as int).push(want[i as int]));
    }
    assert(want.take(n as int) =~= want);
    proof {
        assert forall|i: int| 0 <= i < room@.sensors.len() implies (#[trigger] r@[3 + i]).0@
            == room@.sensors[i] && r@[3 + i].1@ == "on"@ by {
            assert(form_view(r@)[3 + i] == want[i]);
        }
        assert(form_view(r@)[0] == ("von"@, start@));
        assert(form_view(r@)[1] == ("bis"@, end@));
        assert(form_view(r@)[2] == ("csrfmiddlewaretoken"@, key@));
    }
    r
}

/// The form that requests the data of one sensor from `start` to `end`.
pub fn sensor_request_form(sensor: &str, start: &str, end: &str, key: &str) -> (r: Vec<
    (String, String),
>)
    ensures
        form_view(r@) == span_fields(start@, end@, key@).push(sensor_field(sensor@)),
        r.len() == 4,
        r@[0].0@ == "von"@ && r@[0].1@ == start@,
        r@[1].0@ == "bis"@ && r@[1].1@ == end@,
        r@[2].0@ == "csrfmiddlewaretoken"@ && r@[2].1@ == key@,
        r@[3].0@ == sensor@ && r@[3].1@ == "on"@,
{
    let mut r = span_form(start, end, key);
    let ghost before = r@;
    r.push(field(sensor, "on"));
    assert(form_view(r@) =~= form_view(before).push(sensor_field(sensor@)));
    assert(form_view(r@)[0] == ("von"@, start@));
    assert(form_view(r@)[1] == ("bis"@, end@));
    assert(form_view(r@)[2] == ("csrfmiddlewaretoken"@, key@));
    assert(form_view(r@)[3] == (sensor@, "on"@));
    r
}

/// Every request form carries, unchanged, the start and end of the time
/// span and the key it is given, in its first three fields, whatever they
/// hold.
pub proof fn lemma_span_fields_carry(start: Seq<char>, end: Seq<char>, key: Seq<char>)
    ensures
        span_fields(start, end, key).len() == 3,
        span_fields(start, end, key)[0] == ("von"@, start),
        span_fields(start, end, key)[1] == ("bis"@, end),
        span_fields(start, end, key)[2] == ("csrfmiddlewaretoken"@, key),
{
}

} // verus!
