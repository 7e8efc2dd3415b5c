use vstd::prelude::*;
use vstd::string::StringExecFns;
use crate::geometry::Rectangle;

verus! {

/// A decoded JSON value, as handed over by whatever decoded the text.
/// Numbers that are not integers carry no payload: no field of an atlas can
/// hold one.
#[derive(Debug)]
pub enum Decoded {
    Null,
    Bool(bool),
    Int(i128),
    NonInteger,
    Text(String),
    List(Vec<Decoded>),
    Object(Vec<(String, Decoded)>),
}

/// Why an atlas could not be read from a decoded value.
#[derive(Clone, Debug, PartialEq, Eq)]
pub enum DecodeError {
    /// The value that should map frame names to cells is not an object.
    NotAnObject,
    /// The document has no `frames` member.
    MissingFrames,
    /// The cell stored under this frame name lacks `frame` or one of its
    /// `x`, `y`, `w`, `h` members, or one of them is not an integer in `0..=65535`.
    BadEntry(String),
}

/// The value stored under `key` in an object's members; a later member
/// overrides an earlier one of the same name.
pub open spec fn member(es: Seq<(String, Decoded)>, key: Seq<char>) -> Option<Decoded>
    decreases es.len(),
{
    if es.len() == 0 {
        None
    } else if es.last().0@ == key {
        Some(es.last().1)
    } else {
        member(es.drop_last(), key)
    }
}

/// The member `key` of `v`, if `v` is an object that has one.
pub open spec fn member_of(v: Decoded, key: Seq<char>) -> Option<Decoded> {
    match v {
        Decoded::Object(es) => member(es@, key),
        _ => None,
    }
}

/// A pixel coordinate: an integer that fits in 16 bits.
pub open spec fn coord_of(v: Option<Decoded>) -> Option<u16> {
    match v {
        Some(Decoded::Int(n)) => if 0 <= n <= 65535 {
            Some(n as u16)
        } else {
            None
        },
        _ => None,
    }
}

/// The rectangle that an `{x, y, w, h}` object describes.
pub open spec fn rect_of(v: Decoded) -> Option<Rectangle> {
    let x = coord_of(member_of(v, "x"@));
    let y = coord_of(member_of(v, "y"@));
    let w = coord_of(member_of(v, "w"@));
    let h = coord_of(member_of(v, "h"@));
    if v is Object && x is Some && y is Some && w is Some && h is Some {
        Some(Rectangle { x: x.unwrap(), y: y.unwrap(), w: w.unwrap(), h: h.unwrap() })
    } else {
        None
    }
}

/// The rectangle of a cell `{"frame": {x, y, w, h}}`; other members are ignored.
pub open spec fn cell_of(v: Decoded) -> Option<Rectangle> {
    match member_of(v, "frame"@) {
        Some(f) => rect_of(f),
        None => None,
    }
}

/// `i` is the index of the first member whose cell is malformed.
pub open spec fn first_bad(es: Seq<(String, Decoded)>, i: int) -> bool {
    &&& 0 <= i < es.len()
    &&& cell_of(es[i].1) is None
    &&& forall|j: int| 0 <= j < i ==> cell_of(#[trigger] es[j].1) is Some
}

/// Every member's cell is well formed.
pub open spec fn all_cells_ok(es: Seq<(String, Decoded)>) -> bool {
    forall|j: int| 0 <= j < es.len() ==> cell_of(#[trigger] es[j].1) is Some
}

/// The rectangle found under `name` in a well-formed frames object.
pub open spec fn source_region(es: Seq<(String, Decoded)>, name: Seq<char>) -> Option<Rectangle> {
    match member(es, name) {
        Some(c) => cell_of(c),
        None => None,
    }
}

/// The map from frame name to region that a frames object describes.
pub open spec fn frames_of(es: Seq<(String, Decoded)>) -> Map<Seq<char>, Rectangle> {
    Map::new(|k: Seq<char>| source_region(es, k) is Some, |k: Seq<char>| source_region(es, k).unwrap())
}

/// What a lookup by `name` in the map `m` answers.
pub open spec fn region_in(m: Map<Seq<char>, Rectangle>, name: Seq<char>) -> Option<Rectangle> {
    if m.contains_key(name) {
        Some(m[name])
    } else {
        None
    }
}

/// Last-wins lookup in a table of named rectangles.
pub open spec fn lookup(t: Seq<(String, Rectangle)>, name: Seq<char>) -> Option<Rectangle>
    decreases t.len(),
{
    if t.len() == 0 {
        None
    } else if t.last().0@ == name {
        Some(t.last().1)
    } else {
        lookup(t.drop_last(), name)
    }
}

/// Read-only map from frame name to the frame's region of the atlas image.
#[derive(Clone, Debug)]
pub struct AtlasDescriptor {
    frames: Vec<(String, Rectangle)>,
}

impl View for AtlasDescriptor {
    type V = Map<Seq<char>, Rectangle>;

    closed spec fn view(&self) -> Map<Seq<char>, Rectangle> {
        Map::new(
            |k: Seq<char>| lookup(self.frames@, k) is Some,
            |k: Seq<char>| lookup(self.frames@, k).unwrap(),
        )
    }
}

fn text(s: &str) -> (r: String)
    ensures
        r@ == s@,
{
    String::from_str(s)
}

/// The member `key` of an object's member list (last one wins).
fn find_member<'a>(es: &'a Vec<(String, Decoded)>, key: &String) -> (r: Option<&'a Decoded>)
    ensures
        match r {
            Some(d) => member(es@, key@) == Some(*d),
            None => member(es@, key@) is None,
        },
{
    let mut i: usize = es.len();
    assert(es@.take(i as int) =~= es@);
    while i > 0
        invariant
            i <= es.len(),
            member(es@, key@) == member(es@.take(i as int), key@),
        decreases i,
    {
        proof {
            assert(es@.take(i as int).drop_last() =~= es@.take(i - 1));
        }
        proof {
            assert(es@.take(i as int).last() == es@[i - 1]);
        }
        if es[i - 1].0 == *key {
            return Some(&es[i - 1].1);
        }
        i = i - 1;
    }
    None
}

fn find_member_of<'a>(v: &'a Decoded, key: &str) -> (r: Option<&'a Decoded>)
    ensures
        match r {
            Some(d) => member_of(*v, key@) == Some(*d),
            None => member_of(*v, key@) is None,
        },
{
    match v {
        Decoded::Object(es) => {
            let k = text(key);
            find_member(es, &k)
        },
        _ => None,
    }
}

fn coord(v: Option<&Decoded>) -> (r: Option<u16>)
    ensures
        r == coord_of(
            match v {
                Some(d) => Some(*d),
                None => None,
            },
        ),
{
    match v {
        Some(Decoded::Int(n)) => if 0 <= *n && *n <= 65535 {
            Some(*n as u16)
        } else {
            None
        },
        _ => None,
    }
}

fn read_rect(v: &Decoded) -> (r: Option<Rectangle>)
    ensures
        r == rect_of(*v),
{
    if !matches!(v, Decoded::Object(_)) {
        return None;
    }
    let x = coord(find_member_of(v, "x"));
    let y = coord(find_member_of(v, "y"));
    let w = coord(find_member_of(v, "w"));
    let h = coord(find_member_of(v, "h"));
    match (x, y, w, h) {
        (Some(x), Some(y), Some(w), Some(h)) => Some(Rectangle { x, y, w, h }),
        _ => None,
    }
}

fn read_cell(v: &Decoded) -> (r: Option<Rectangle>)
    ensures
        r == cell_of(*v),
{
    match find_member_of(v, "frame") {
        Some(f) => read_rect(f),
        None => None,
    }
}

proof fn lemma_lookup_source(t: Seq<(String, Rectangle)>, es: Seq<(String, Decoded)>, name: Seq<char>)
    requires
        t.len() == es.len(),
        forall|j: int| 0 <= j < t.len() ==> (#[trigger] t[j]).0@ == es[j].0@ && Some(t[j].1) == cell_of(es[j].1),
    ensures
        lookup(t, name) == source_region(es, name),
    decreases t.len(),
{
    if t.len() > 0 {
        let n = t.len() - 1;
        assert(t[n as int].0@ == es[n as int].0@);
        lemma_lookup_source(t.drop_last(), es.drop_last(), name);
    }
}

impl AtlasDescriptor {
    /// Reads an atlas from the object that maps each frame name to a cell
    /// `{"frame": {"x", "y", "w", "h"}}`. Members other than these are ignored.
    pub fn parse(v: &Decoded) -> (r: Result<AtlasDescriptor, DecodeError>)
        ensures
            r is Err && r->Err_0 == DecodeError::NotAnObject <==> !(*v is Object),
            r matches Ok(a) ==> v is Object && all_cells_ok(v->Object_0@) && a@ == frames_of(v->Object_0@),
            r matches Err(DecodeError::BadEntry(name)) ==> v is Object && exists|i: int|
                first_bad(v->Object_0@, i) && (#[trigger] v->Object_0@[i]).0@ == name@,
            !(r matches Err(DecodeError::MissingFrames)),
            (v is Object && all_cells_ok(v->Object_0@)) <==> r is Ok,
    {
        let es = match v {
            Decoded::Object(es) => es,
            _ => return Err(DecodeError::NotAnObject),
        };
        let mut frames: Vec<(String, Rectangle)> = Vec::new();
        let mut i: usize = 0;
        while i < es.len()
            invariant
                i <= es.len(),
                *v == Decoded::Object(*es),
                frames@.len() == i,
                forall|j: int| 0 <= j < i ==> (#[trigger] frames@[j]).0@ == es@[j].0@
                    && Some(frames@[j].1) == cell_of(es@[j].1),
                forall|j: int| 0 <= j < i ==> cell_of(#[trigger] es@[j].1) is Some,
            decreases es.len() - i,
        {
            match read_cell(&es[i].1) {
                Some(rect) => {
                    frames.push((es[i].0.clone(), rect));
                },
                None => {
                    let name = es[i].0.clone();
                    assert(first_bad(v->Object_0@, i as int) && v->Object_0@[i as int].0@ == name@);
                    return Err(DecodeError::BadEntry(name));
                },
            }
            i = i + 1;
        }
        let a = AtlasDescriptor { frames };
        assert forall|k: Seq<char>| #[trigger] lookup(a.frames@, k) == source_region(es@, k) by {
            lemma_lookup_source(a.frames@, es@, k);
        }
        assert(a@ =~= frames_of(es@));
        Ok(a)
    }

    /// Reads an atlas from a document whose `frames` member maps each frame
    /// name to its cell, as [`AtlasDescriptor::parse`] reads it.
    pub fn parse_sheet(doc: &Decoded) -> (r: Result<AtlasDescriptor, DecodeError>)
        ensures
            !(*doc is Object) ==> r == Err::<AtlasDescriptor, DecodeError>(DecodeError::NotAnObject),
            doc is Object && member_of(*doc, "frames"@) is None
                ==> r == Err::<AtlasDescriptor, DecodeError>(DecodeError::MissingFrames),
            match member_of(*doc, "frames"@) {
                Some(f) => match (r, f) {
                    (Ok(a), Decoded::Object(es)) => all_cells_ok(es@) && a@ == frames_of(es@),
                    (Ok(_), _) => false,
                    (Err(DecodeError::NotAnObject), f) => !(f is Object),
                    (Err(DecodeError::MissingFrames), _) => false,
                    (Err(DecodeError::BadEntry(name)), Decoded::Object(es)) => exists|i: int|
                        first_bad(es@, i) && (#[trigger] es@[i]).0@ == name@,
                    (Err(DecodeError::BadEntry(_)), _) => false,
                },
                None => r is Err,
            },
            r is Ok <==> (member_of(*doc, "frames"@) matches Some(Decoded::Object(es)) && all_cells_ok(es@)),
    {
        if !matches!(doc, Decoded::Object(_)) {
            return Err(DecodeError::NotAnObject);
        }
        match find_member_of(doc, "frames") {
            Some(f) => AtlasDescriptor::parse(f),
            None => Err(DecodeError::MissingFrames),
        }
    }

    /// The region stored under `name`, if there is one.
    pub fn region_for(&self, name: &str) -> (r: Option<Rectangle>)
        ensures
            r == region_in(self@, name@),
    {
        let key = text(name);
        let mut i: usize = self.frames.len();
        assert(self.frames@.take(i as int) =~= self.frames@);
        while i > 0
            invariant
                i <= self.frames.len(),
                key@ == name@,
                lookup(self.frames@, key@) == lookup(self.frames@.take(i as int), key@),
            decreases i,
        {
            proof {
                assert(self.frames@.take(i as int).drop_last() =~= self.frames@.take(i - 1));
            }
            proof {
                assert(self.frames@.take(i as int).last() == self.frames@[i - 1]);
            }
            if self.frames[i - 1].0 == key {
                return Some(self.frames[i - 1].1);
            }
            i = i - 1;
        }
        None
    }
}

/// An atlas read from a frames object answers each name with exactly the
/// rectangle that the object gives for it, and with nothing for a name the
/// object lacks.
pub proof fn lemma_region_matches_source(es: Seq<(String, Decoded)>, a: AtlasDescriptor, name: Seq<char>)
    requires
        all_cells_ok(es),
        a@ == frames_of(es),
    ensures
        region_in(a@, name) == source_region(es, name),
        member(es, name) is None ==> region_in(a@, name) is None,
        member(es, name) is Some ==> region_in(a@, name) == cell_of(member(es, name).unwrap())
            && region_in(a@, name) is Some,
{
    lemma_member_in(es, name);
}

proof fn lemma_member_in(es: Seq<(String, Decoded)>, name: Seq<char>)
    requires
        all_cells_ok(es),
    ensures
        member(es, name) is Some ==> cell_of(member(es, name).unwrap()) is Some,
    decreases es.len(),
{
    if es.len() > 0 {
        assert(cell_of(es[es.len() - 1].1) is Some);
        lemma_member_in(es.drop_last(), name);
    }
}

} // verus!
