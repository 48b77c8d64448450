use crate::number::is_nan;
use vstd::prelude::*;

verus! {

/// One attribute of a decoded feature: its key, its text, and the text read
/// as a double (`None` where it does not read as a number).
pub struct Property {
    pub key: String,
    pub text: String,
    pub number: Option<u64>,
}

/// The geometry of a decoded feature: a point with its coordinates, or any
/// other kind.
pub enum RawGeometry {
    Point(Vec<u64>),
    Other,
}

/// A feature as the binary format reader hands it over.
pub struct RawFeature {
    pub id: String,
    pub properties: Vec<Property>,
    pub geometry: RawGeometry,
}

/// One event; every number is the bit pattern of a double.
pub struct EventRecord {
    pub id: String,
    pub org: String,
    pub date: u64,
    pub sentiment: u64,
    pub momentum: u64,
    pub x: u64,
    pub y: u64,
}

/// The mathematical value of an event.
pub struct EventView {
    pub id: Seq<char>,
    pub org: Seq<char>,
    pub date: u64,
    pub sentiment: u64,
    pub momentum: u64,
    pub x: u64,
    pub y: u64,
}

impl View for EventRecord {
    type V = EventView;

    open spec fn view(&self) -> EventView {
        EventView {
            id: self.id@,
            org: self.org@,
            date: self.date,
            sentiment: self.sentiment,
            momentum: self.momentum,
            x: self.x,
            y: self.y,
        }
    }
}

/// The views of a sequence of events.
pub open spec fn views(s: Seq<EventRecord>) -> Seq<EventView> {
    s.map_values(|e: EventRecord| e@)
}

/// The first property with the given key.
pub open spec fn find_property(props: Seq<Property>, key: Seq<char>) -> Option<Property>
    decreases props.len(),
{
    if props.len() == 0 {
        None
    } else if props[0].key@ == key {
        Some(props[0])
    } else {
        find_property(props.drop_first(), key)
    }
}

/// The `org` attribute, empty where absent.
pub open spec fn org_of(props: Seq<Property>) -> Seq<char> {
    match find_property(props, "org"@) {
        Some(p) => p.text@,
        None => Seq::empty(),
    }
}

/// A numeric attribute, positive zero where absent or not a number.
pub open spec fn number_of(props: Seq<Property>, key: Seq<char>) -> u64 {
    match find_property(props, key) {
        Some(p) => match p.number {
            Some(b) => b,
            None => 0,
        },
        None => 0,
    }
}

/// Whether a feature has point geometry.
pub open spec fn is_point(f: RawFeature) -> bool {
    f.geometry is Point
}

/// A point feature with fewer than two coordinates cannot be placed.
pub open spec fn is_malformed(f: RawFeature) -> bool {
    match f.geometry {
        RawGeometry::Point(c) => c@.len() < 2,
        RawGeometry::Other => false,
    }
}

/// The event that a well-formed point feature becomes.
pub open spec fn event_of(f: RawFeature) -> EventView
    recommends
        is_point(f),
        !is_malformed(f),
{
    let props = f.properties@;
    let c = f.geometry->Point_0@;
    EventView {
        id: f.id@,
        org: org_of(props),
        date: number_of(props, "date"@),
        sentiment: number_of(props, "sentiment"@),
        momentum: number_of(props, "momentum"@),
        x: c[0],
        y: c[1],
    }
}

/// Whether both coordinates of an event are numbers.
pub open spec fn has_location(e: EventView) -> bool {
    !is_nan(e.x) && !is_nan(e.y)
}

/// Looks up the first property with the given key.
pub fn find(props: &Vec<Property>, key: &String) -> (r: Option<usize>)
    ensures
        match r {
            Some(i) => i < props@.len() && find_property(props@, key@) == Some(props@[i as int]),
            None => find_property(props@, key@) is None,
        },
{
    let n = props.len();
    let mut i: usize = 0;
    assert(props@.subrange(0, n as int) =~= props@);
    while i < n
        invariant
            i <= n,
            n == props@.len(),
            find_property(props@, key@) == find_property(props@.subrange(i as int, n as int), key@),
        decreases n - i,
    {
        let ghost rest = props@.subrange(i as int, n as int);
        assert(rest.drop_first() =~= props@.subrange(i + 1, n as int));
        if props[i].key == *key {
            return Some(i);
        }
        i = i + 1;
    }
    assert(props@.subrange(n as int, n as int).len() == 0);
    None
}

/// Reads a numeric attribute, with positive zero where it is absent or not
/// a number.
pub fn read_number(props: &Vec<Property>, key: &String) -> (r: u64)
    ensures
        r == number_of(props@, key@),
{
    match find(props, key) {
        Some(i) => match props[i].number {
            Some(b) => b,
            None => 0,
        },
        None => 0,
    }
}

/// Turns a point feature into an event, or reports why it cannot be placed.
pub fn event_from(f: &RawFeature) -> (r: Result<EventRecord, String>)
    requires
        is_point(*f),
    ensures
        match r {
            Ok(e) => !is_malformed(*f) && e@ == event_of(*f),
            Err(_) => is_malformed(*f),
        },
{
    let coords = match &f.geometry {
        RawGeometry::Point(c) => c,
        RawGeometry::Other => {
            return Err("not a point".to_owned());
        },
    };
    if coords.len() < 2 {
        return Err("point with fewer than two coordinates".to_owned());
    }
    let org = match find(&f.properties, &"org".to_owned()) {
        Some(i) => f.properties[i].text.clone(),
        None => String::new(),
    };
    Ok(EventRecord {
        id: f.id.clone(),
        org: org,
        date: read_number(&f.properties, &"date".to_owned()),
        sentiment: read_number(&f.properties, &"sentiment".to_owned()),
        momentum: read_number(&f.properties, &"momentum".to_owned()),
        x: coords[0],
        y: coords[1],
    })
}

} // verus!
