//! Reading the sensor web page: the CSRF token of a form, and the rooms
//! with their sensors. The HTML is parsed, and CSS selectors are matched,
//! by the `scraper` crate.

use vstd::prelude::*;
use crate::html::{
    document_matches, element_attr, element_attribute, element_matches, element_text,
    element_text_of, select_in_element, select_in_page, selector_is_valid, Page, PageElement,
    PageSelector,
};
use crate::logging::{House, HouseView, Room, RoomView};
use crate::text::{is_trimmed, lemma_trim_is_trimmed, opt_view, trim, trim_str};

verus! {

/// Why the page could not be read.
#[derive(Clone, Copy, Debug, PartialEq, Eq)]
pub enum ReadoutError {
    /// A CSS selector of the page layout was refused.
    InvalidSelector,
    /// The page holds no hidden `csrfmiddlewaretoken` input with a value.
    CsrfTokenNotFound,
}

impl ReadoutError {
    /// The message that describes the error.
    pub fn message(&self) -> (r: &'static str)
        ensures
            r@ == match *self {
                ReadoutError::InvalidSelector => "invalid CSS selector"@,
                ReadoutError::CsrfTokenNotFound => "CSRF token not found"@,
            },
    {
        match self {
            ReadoutError::InvalidSelector => "invalid CSS selector",
            ReadoutError::CsrfTokenNotFound => "CSRF token not found",
        }
    }
}

/// What the page shows of one room: the text of its first `h5` heading, if
/// any, and, if it has a `fieldset`, the `id` of each checkbox in the first
/// one (`None` for a checkbox without one).
pub struct RoomScan {
    pub title: Option<String>,
    pub sensor_ids: Option<Vec<Option<String>>>,
}

/// What a `RoomScan` holds.
pub struct RoomScanView {
    pub title: Option<Seq<char>>,
    pub sensor_ids: Option<Seq<Option<Seq<char>>>>,
}

impl View for RoomScan {
    type V = RoomScanView;

    open spec fn view(&self) -> RoomScanView {
        RoomScanView {
            title: opt_view(self.title),
            sensor_ids: match self.sensor_ids {
                Some(ids) => Some(ids@.map_values(|id: Option<String>| opt_view(id))),
                None => None,
            },
        }
    }
}

/// The sensor that a checkbox stands for: its trimmed `id`, or the empty
/// name where it has none.
pub open spec fn sensor_of_id(id: Option<Seq<char>>) -> Seq<char> {
    match id {
        Some(s) => trim(s),
        None => Seq::empty(),
    }
}

/// The room that a scan describes: named by its trimmed heading (unnamed
/// without one), with a sensor for each checkbox of its first fieldset.
pub open spec fn room_of_scan(s: RoomScanView) -> RoomView {
    RoomView {
        name: match s.title {
            Some(t) => trim(t),
            None => Seq::empty(),
        },
        sensors: match s.sensor_ids {
            Some(ids) => ids.map_values(|id: Option<Seq<char>>| sensor_of_id(id)),
            None => Seq::empty(),
        },
    }
}

/// The house that the page describes, given its CSRF token (if found) and
/// the scans of its rooms in page order.
pub open spec fn house_of_scan(key: Option<Seq<char>>, rooms: Seq<RoomScanView>) -> Result<
    HouseView,
    ReadoutError,
> {
    match key {
        Some(k) => Ok(
            HouseView { rooms: rooms.map_values(|s: RoomScanView| room_of_scan(s)), key: k },
        ),
        None => Err(ReadoutError::CsrfTokenNotFound),
    }
}

/// The room that a scan describes (see `room_of_scan`).
pub fn room_from_scan(scan: &RoomScan) -> (r: Room)
    ensures
        r@ == room_of_scan(scan@),
{
    let mut room = Room::new();
    if let Some(t) = &scan.title {
        let name = trim_str(t.as_str());
        room.change_name(name.as_str());
    }
    assert(room@.name == room_of_scan(scan@).name);
    if let Some(ids) = &scan.sensor_ids {
        let ghost want = room_of_scan(scan@).sensors;
        let n = ids.len();
        for i in 0..n
            invariant
                n == ids.len(),
                scan.sensor_ids == Some(*ids),
                room@.name == room_of_scan(scan@).name,
                want == room_of_scan(scan@).sensors,
                want.len() == n,
                room@.sensors == want.take(i as int),
        {
            let sensor = match &ids[i] {
                Some(id) => trim_str(id.as_str()),
                None => String::new(),
            };
            assert(want[i as int] == sensor_of_id(opt_view(ids@[i as int])));
            room.add_sensor(sensor.as_str());
            assert(want.take(i + 1) =~= want.take(i as int).push(want[i as int]));
        }
        assert(want.take(n as int) =~= want);
    } else {
        assert(room@.sensors =~= room_of_scan(scan@).sensors);
    }
    room
}

/// The house that the page describes (see `house_of_scan`).
pub fn house_from_scan(key: Option<String>, rooms: &Vec<RoomScan>) -> (r: Result<House, ReadoutError>)
    ensures
        match r {
            Ok(h) => house_of_scan(opt_view(key), rooms@.map_values(|s: RoomScan| s@)) == Ok::<
                HouseView,
                ReadoutError,
            >(h@),
            Err(e) => house_of_scan(opt_view(key), rooms@.map_values(|s: RoomScan| s@)) == Err::<
                HouseView,
                ReadoutError,
            >(e),
        },
{
    match key {
        None => Err(ReadoutError::CsrfTokenNotFound),
        Some(k) => {
            let mut house = House::new();
            house.change_key(k.as_str());
            let ghost want = rooms@.map_values(|s: RoomScan| room_of_scan(s@));
            let n = rooms.len();
            for i in 0..n
                invariant
                    n == rooms.len(),
                    want == rooms@.map_values(|s: RoomScan| room_of_scan(s@)),
                    house@.key == k@,
                    house@.rooms == want.take(i as int),
            {
                let room = room_from_scan(&rooms[i]);
                house.add_room(room);
                assert(want.take(i + 1) =~= want.take(i as int).push(want[i as int]));
            }
            assert(want.take(n as int) =~= want);
            assert(want =~= rooms@.map_values(|s: RoomScan| s@).map_values(
                |s: RoomScanView| room_of_scan(s),
            ));
            Ok(house)
        },
    }
}


/// The selector of the hidden input that holds the CSRF token.
pub open spec fn csrf_css() -> Seq<char> {
    "input[name=csrfmiddlewaretoken][type=hidden]"@
}

/// The selector of a room.
pub open spec fn room_css() -> Seq<char> {
    "div[data-role='collapsible']"@
}

/// The selector of a sensor's checkbox.
pub open spec fn checkbox_css() -> Seq<char> {
    "input[type='checkbox']"@
}

/// The selector of the fieldset that holds a room's checkboxes.
pub open spec fn fieldset_css() -> Seq<char> {
    "fieldset"@
}

/// The selector of a room's heading.
pub open spec fn title_css() -> Seq<char> {
    "h5"@
}

/// The selectors of the page layout: token, rooms, checkboxes, fieldsets,
/// headings.
pub open spec fn layout_selectors_valid() -> bool {
    &&& selector_is_valid(csrf_css())
    &&& selector_is_valid(room_css())
    &&& selector_is_valid(checkbox_css())
    &&& selector_is_valid(fieldset_css())
    &&& selector_is_valid(title_css())
}

/// The CSRF token of a page: the `value` of the first hidden
/// `csrfmiddlewaretoken` input, if there is one and it has a value.
pub open spec fn page_token(page: Seq<char>) -> Option<Seq<char>> {
    if document_matches(page, csrf_css()) > 0 {
        element_attribute(page, seq![(csrf_css(), 0nat)], "value"@)
    } else {
        None
    }
}

/// What the page shows of the room that `path` leads to: the text of its
/// first heading, if any, and, if it has a fieldset, the `id` of each
/// checkbox in the first one.
pub open spec fn scan_of(page: Seq<char>, path: Seq<(Seq<char>, nat)>) -> RoomScanView {
    let fs = path.push((fieldset_css(), 0nat));
    RoomScanView {
        title: if element_matches(page, path, title_css()) > 0 {
            Some(element_text_of(page, path.push((title_css(), 0nat))))
        } else {
            None
        },
        sensor_ids: if element_matches(page, path, fieldset_css()) > 0 {
            Some(
                Seq::new(
                    element_matches(page, fs, checkbox_css()),
                    |j: int| element_attribute(page, fs.push((checkbox_css(), j as nat)), "id"@),
                ),
            )
        } else {
            None
        },
    }
}

/// The scans of the rooms of a page, in the order in which `scraper` yields
/// the rooms.
pub open spec fn page_rooms(page: Seq<char>) -> Seq<RoomScanView> {
    Seq::new(
        document_matches(page, room_css()),
        |i: int| scan_of(page, seq![(room_css(), i as nat)]),
    )
}

/// The `value` of the first hidden `csrfmiddlewaretoken` input of a page.
fn first_csrf_value(page: &Page, csrf_selector: &PageSelector) -> (r: Option<String>)
    requires
        csrf_selector@ == csrf_css(),
    ensures
        opt_view(r) == page_token(page@),
{
    let inputs = select_in_page(page, csrf_selector);
    if inputs.len() > 0 {
        assert(inputs[0]@ == (page@, seq![(csrf_css(), 0nat)]));
        element_attr(&inputs[0], "value")
    } else {
        None
    }
}

/// The CSRF token of a page with a form: the `value` of its first hidden
/// `csrfmiddlewaretoken` input (see `page_token`).
pub fn csrf_token(page: &str) -> (r: Result<String, ReadoutError>)
    ensures
        r == Err::<String, ReadoutError>(ReadoutError::InvalidSelector) <==> !selector_is_valid(
            csrf_css(),
        ),
        selector_is_valid(csrf_css()) ==> match r {
            Ok(s) => page_token(page@) == Some(s@),
            Err(e) => page_token(page@) is None && e == ReadoutError::CsrfTokenNotFound,
        },
{
    let html = Page::parse(page);
    let csrf_selector = match PageSelector::parse("input[name=csrfmiddlewaretoken][type=hidden]") {
        Some(s) => s,
        None => {
            return Err(ReadoutError::InvalidSelector);
        },
    };
    match first_csrf_value(&html, &csrf_selector) {
        Some(v) => Ok(v),
        None => Err(ReadoutError::CsrfTokenNotFound),
    }
}

/// What the page shows of one room element (see `scan_of`).
fn scan_room(
    room_element: &PageElement,
    title_selector: &PageSelector,
    field_selector: &PageSelector,
    sensor_selector: &PageSelector,
) -> (r: RoomScan)
    requires
        title_selector@ == title_css(),
        field_selector@ == fieldset_css(),
        sensor_selector@ == checkbox_css(),
    ensures
        r@ == scan_of(room_element@.0, room_element@.1),
{
    let ghost page = room_element@.0;
    let ghost path = room_element@.1;
    let ghost want = scan_of(page, path);
    let titles = select_in_element(room_element, title_selector);
    let title = if titles.len() > 0 {
        assert(titles[0]@ == (page, path.push((title_css(), 0nat))));
        Some(element_text(&titles[0]))
    } else {
        None
    };
    assert(opt_view(title) == want.title);
    let fieldsets = select_in_element(room_element, field_selector);
    let sensor_ids = if fieldsets.len() > 0 {
        let ghost fs = path.push((fieldset_css(), 0nat));
        assert(fieldsets[0]@ == (page, fs));
        let boxes = select_in_element(&fieldsets[0], sensor_selector);
        let ghost wids = want.sensor_ids->0;
        let mut ids: Vec<Option<String>> = Vec::new();
        let n = boxes.len();
        for i in 0..n
            invariant
                n == boxes.len(),
                n == wids.len(),
                wids == want.sensor_ids->0,
                want == scan_of(page, path),
                fs == path.push((fieldset_css(), 0nat)),
                element_matches(page, path, fieldset_css()) > 0,
                forall|k: int| 0 <= k < n ==> #[trigger] boxes[k]@ == (page, fs.push((checkbox_css(), k as nat))),
                ids@.map_values(|id: Option<String>| opt_view(id)) == wids.take(i as int),
        {
            let ghost before = ids@;
            let a = element_attr(&boxes[i], "id");
            ids.push(a);
            assert(boxes[i as int]@ == (page, fs.push((checkbox_css(), i as nat))));
            assert(ids@.map_values(|id: Option<String>| opt_view(id)) =~= before.map_values(
                |id: Option<String>| opt_view(id),
            ).push(opt_view(a)));
            assert(wids.take(i + 1) =~= wids.take(i as int).push(wids[i as int]));
        }
        assert(wids.take(n as int) =~= wids);
        Some(ids)
    } else {
        None
    };
    let r = RoomScan { title, sensor_ids };
    assert(r@.title == want.title);
    assert(r@.sensor_ids == want.sensor_ids);
    r
}

/// The view of a readout result.
pub open spec fn house_result(r: Result<House, ReadoutError>) -> Result<HouseView, ReadoutError> {
    match r {
        Ok(h) => Ok(h@),
        Err(e) => Err(e),
    }
}

/// Reads the logging page: its CSRF token, which becomes the key of the
/// house, and its rooms (the collapsible `div`s) with their sensors (see
/// `page_token`, `page_rooms` and `house_of_scan`).
pub fn readout_logging_page(page: &str) -> (r: Result<House, ReadoutError>)
    ensures
        r == Err::<House, ReadoutError>(ReadoutError::InvalidSelector)
            <==> !layout_selectors_valid(),
        layout_selectors_valid() ==> house_result(r) == house_of_scan(
            page_token(page@),
            page_rooms(page@),
        ),
{
    let html = Page::parse(page);
    let csrf_selector = match PageSelector::parse("input[name=csrfmiddlewaretoken][type=hidden]") {
        Some(s) => s,
        None => {
            return Err(ReadoutError::InvalidSelector);
        },
    };
    let room_selector = match PageSelector::parse("div[data-role='collapsible']") {
        Some(s) => s,
        None => {
            return Err(ReadoutError::InvalidSelector);
        },
    };
    let sensor_selector = match PageSelector::parse("input[type='checkbox']") {
        Some(s) => s,
        None => {
            return Err(ReadoutError::InvalidSelector);
        },
    };
    let field_selector = match PageSelector::parse("fieldset") {
        Some(s) => s,
        None => {
            return Err(ReadoutError::InvalidSelector);
        },
    };
    let title_selector = match PageSelector::parse("h5") {
        Some(s) => s,
        None => {
            return Err(ReadoutError::InvalidSelector);
        },
    };
    let key = match first_csrf_value(&html, &csrf_selector) {
        Some(k) => k,
        None => {
            return Err(ReadoutError::CsrfTokenNotFound);
        },
    };
    let room_elements = select_in_page(&html, &room_selector);
    let ghost want = page_rooms(page@);
    let mut scans: Vec<RoomScan> = Vec::new();
    let n = room_elements.len();
    for i in 0..n
        invariant
            n == room_elements.len(),
            n == want.len(),
            want == page_rooms(page@),
            html@ == page@,
            title_selector@ == title_css(),
            field_selector@ == fieldset_css(),
            sensor_selector@ == checkbox_css(),
            forall|k: int| 0 <= k < n ==> #[trigger] room_elements[k]@ == (page@, seq![(room_css(), k as nat)]),
            scans@.map_values(|s: RoomScan| s@) == want.take(i as int),
    {
        let ghost before = scans@;
        let s = scan_room(&room_elements[i], &title_selector, &field_selector, &sensor_selector);
        assert(room_elements[i as int]@ == (page@, seq![(room_css(), i as nat)]));
        scans.push(s);
        assert(scans@.map_values(|s: RoomScan| s@) =~= before.map_values(|s: RoomScan| s@).push(s@));
        assert(want.take(i + 1) =~= want.take(i as int).push(want[i as int]));
    }
    assert(want.take(n as int) =~= want);
    house_from_scan(Some(key), &scans)
}

/// The names of the rooms and sensors that the page gives are trimmed: they
/// neither start nor end with whitespace.
pub proof fn lemma_scan_names_trimmed(rooms: Seq<RoomScanView>)
    ensures
        forall|i: int|
            0 <= i < rooms.len() ==> is_trimmed(#[trigger] room_of_scan(rooms[i]).name),
        forall|i: int, j: int|
            0 <= i < rooms.len() && 0 <= j < room_of_scan(rooms[i]).sensors.len() ==> is_trimmed(
                #[trigger] room_of_scan(rooms[i]).sensors[j],
            ),
{
    assert forall|i: int| 0 <= i < rooms.len() implies is_trimmed(
        #[trigger] room_of_scan(rooms[i]).name,
    ) by {
        if let Some(t) = rooms[i].title {
            lemma_trim_is_trimmed(t);
        }
    }
    assert forall|i: int, j: int|
        0 <= i < rooms.len() && 0 <= j < room_of_scan(rooms[i]).sensors.len() implies is_trimmed(
        #[trigger] room_of_scan(rooms[i]).sensors[j],
    ) by {
        if let Some(ids) = rooms[i].sensor_ids {
            if let Some(s) = ids[j] {
                lemma_trim_is_trimmed(s);
            }
        }
    }
}

} // verus!
