//! An entity as a level hands it to the game: its properties and the
//! solids to collide with, and how a property is read as a flag, as three
//! numbers or as a colour.

use vstd::prelude::*;
use vstd::string::*;
use crate::valve_maps::convert::{MeshSurface, MeshSurfaceView};
use crate::valve_maps::generate::{visual_surfaces, ConvexCollision, Geometry};
use crate::valve_maps::parse::base::views;
use crate::valve_maps::parse::formats::fields::Fields;
use crate::valve_maps::parse::formats::shared::MapEntity;
use crate::valve_maps::parse::formats::MapFile;

verus! {

/// The offset of the first space in `s` at or after `i`, or the length of
/// `s` where there is none.
pub open spec fn space_from(s: Seq<char>, i: int) -> int
    decreases s.len() - i,
{
    if i < 0 || i >= s.len() {
        s.len() as int
    } else if s[i] == ' ' {
        i
    } else {
        space_from(s, i + 1)
    }
}

/// The piece number `k` of `s` when it is cut at every space, counted from
/// 0 and from offset `i` on. Two spaces in a row have an empty piece between
/// them, and so has the empty text one empty piece.
pub open spec fn piece_from(s: Seq<char>, i: int, k: nat) -> Option<Seq<char>>
    decreases k,
{
    let end = space_from(s, i);
    if i < 0 || i > s.len() {
        None
    } else if k == 0 {
        Some(s.subrange(i, end))
    } else if end >= s.len() {
        None
    } else {
        piece_from(s, end + 1, (k - 1) as nat)
    }
}

/// The piece number `k` of `s` when it is cut at every space.
pub open spec fn piece(s: Seq<char>, k: nat) -> Option<Seq<char>> {
    piece_from(s, 0, k)
}

/// The offset of the first space in `text` at or after `i`.
fn find_space(text: &str, i: usize, n: usize) -> (end: usize)
    requires
        n == text@.len(),
        i <= n,
    ensures
        end == space_from(text@, i as int),
        i <= end <= n,
{
    let mut j = i;
    while j < n && text.get_char(j) != ' '
        invariant
            n == text@.len(),
            i <= j <= n,
            space_from(text@, j as int) == space_from(text@, i as int),
        decreases n - j,
    {
        j += 1;
    }
    j
}

/// The piece number `k` of `text` when it is cut at every space.
pub fn nth_piece<'a>(text: &'a str, k: usize) -> (found: Option<&'a str>)
    ensures
        match found {
            Some(part) => piece(text@, k as nat) == Some(part@),
            None => piece(text@, k as nat).is_none(),
        },
{
    let n = text.unicode_len();
    let mut i: usize = 0;
    let mut left = k;
    loop
        invariant
            n == text@.len(),
            i <= n,
            left <= k,
            piece_from(text@, i as int, left as nat) == piece(text@, k as nat),
        decreases left,
    {
        let end = find_space(text, i, n);
        if left == 0 {
            return Some(text.substring_char(i, end));
        }
        if end >= n {
            return None;
        }
        i = end + 1;
        left -= 1;
    }
}

/// The value of a digit.
pub open spec fn digit(c: char) -> int {
    c as int - '0' as int
}

/// The character is one of `0` to `9`.
pub open spec fn is_digit(c: char) -> bool {
    '0' <= c <= '9'
}

/// The number that the digits write in base ten.
pub open spec fn number(digits: Seq<char>) -> int
    decreases digits.len(),
{
    if digits.len() == 0 {
        0
    } else {
        number(digits.drop_last()) * 10 + digit(digits.last())
    }
}

/// The text without the `+` that it may start with.
pub open spec fn after_sign(s: Seq<char>) -> Seq<char> {
    if s.len() > 0 && s[0] == '+' {
        s.skip(1)
    } else {
        s
    }
}

/// The number from 0 to 255 that `s` writes: digits, which may follow one
/// `+`. Anything else writes none.
pub open spec fn parse_u8(s: Seq<char>) -> Option<u8> {
    let digits = after_sign(s);
    if digits.len() > 0 && (forall|i: int| 0 <= i < digits.len() ==> is_digit(#[trigger] digits[i]))
        && number(digits) <= 255 {
        Some(number(digits) as u8)
    } else {
        None
    }
}

/// A number does not shrink when digits are added at its end.
pub proof fn lemma_number_grows(digits: Seq<char>, k: int)
    requires
        0 <= k <= digits.len(),
        forall|i: int| 0 <= i < digits.len() ==> is_digit(#[trigger] digits[i]),
    ensures
        0 <= number(digits.take(k)) <= number(digits),
    decreases digits.len() - k,
{
    if k < digits.len() {
        lemma_number_grows(digits, k + 1);
        assert(digits.take(k + 1).drop_last() =~= digits.take(k));
        lemma_number_nonnegative(digits.take(k));
    } else {
        assert(digits.take(k) =~= digits);
        lemma_number_nonnegative(digits);
    }
}

/// Digits write a number that is not negative.
pub proof fn lemma_number_nonnegative(digits: Seq<char>)
    requires
        forall|i: int| 0 <= i < digits.len() ==> is_digit(#[trigger] digits[i]),
    ensures
        0 <= number(digits),
    decreases digits.len(),
{
    if digits.len() > 0 {
        lemma_number_nonnegative(digits.drop_last());
    }
}

/// Reads `text` as a number from 0 to 255.
pub fn read_u8(text: &str) -> (value: Option<u8>)
    ensures
        value == parse_u8(text@),
{
    let n = text.unicode_len();
    let start: usize = if n > 0 && text.get_char(0) == '+' {
        1
    } else {
        0
    };
    let ghost digits = after_sign(text@);
    if start == n {
        return None;
    }
    let mut value: u32 = 0;
    let mut i = start;
    proof {
        assert(digits.take(0) =~= Seq::<char>::empty());
    }
    while i < n
        invariant
            n == text@.len(),
            start <= i <= n,
            start <= 1,
            digits == after_sign(text@),
            digits =~= text@.skip(start as int),
            digits.len() == n - start,
            forall|k: int| 0 <= k < i - start ==> is_digit(#[trigger] digits[k]),
            value == number(digits.take(i - start)),
            value <= 255,
        decreases n - i,
    {
        let c = text.get_char(i);
        assert(c == digits[i - start]);
        if !('0' <= c && c <= '9') {
            proof {
                assert(!is_digit(digits[i - start]));
            }
            return None;
        }
        proof {
            assert(digits.take(i - start + 1).drop_last() =~= digits.take(i - start));
        }
        let next = value * 10 + (c as u32 - '0' as u32);
        assert(next == number(digits.take(i - start + 1)));
        if next > 255 {
            proof {
                if forall|k: int| 0 <= k < digits.len() ==> is_digit(#[trigger] digits[k]) {
                    lemma_number_grows(digits, i - start + 1);
                }
            }
            return None;
        }
        value = next;
        i += 1;
    }
    proof {
        assert(digits.take(n - start) =~= digits);
    }
    Some(value as u8)
}

/// The text of the three numbers that `value` holds when it is cut at every
/// space: the first three pieces, with `0.0` in place of a missing one.
pub open spec fn three_pieces(value: Seq<char>) -> (Seq<char>, Seq<char>, Seq<char>) {
    (piece_or(value, 0, "0.0"@), piece_or(value, 1, "0.0"@), piece_or(value, 2, "0.0"@))
}

/// The piece number `k` of `value`, or `missing` where there is none.
pub open spec fn piece_or(value: Seq<char>, k: nat, missing: Seq<char>) -> Seq<char> {
    match piece(value, k) {
        Some(part) => part,
        None => missing,
    }
}

/// The colour that `value` holds when it is cut at every space: red, green
/// and blue are the first three pieces, each read as a number from 0 to 255.
/// A missing piece counts as 255. A piece that writes no such number counts
/// as 255 for red and blue, and as 0 for green.
pub open spec fn colour_of(value: Seq<char>) -> (u8, u8, u8) {
    (
        match parse_u8(piece_or(value, 0, "255"@)) {
            Some(r) => r,
            None => 255u8,
        },
        match parse_u8(piece_or(value, 1, "255"@)) {
            Some(g) => g,
            None => 0u8,
        },
        match parse_u8(piece_or(value, 2, "255"@)) {
            Some(b) => b,
            None => 255u8,
        },
    )
}

/// The piece number `k` of `text`, or `missing` where there is none.
fn nth_piece_or<'a>(text: &'a str, k: usize, missing: &'a str) -> (part: &'a str)
    ensures
        part@ == piece_or(text@, k as nat, missing@),
{
    match nth_piece(text, k) {
        Some(part) => part,
        None => missing,
    }
}

/// An entity of a loaded level.
#[derive(Debug)]
pub struct ValveMapEntity {
    pub fields: Fields,
    pub collision_geometry: Vec<ConvexCollision>,
}

impl ValveMapEntity {
    /// The entity with the properties `fields` and the solids
    /// `collision_geometry`.
    pub fn new(fields: Fields, collision_geometry: Vec<ConvexCollision>) -> (r: ValveMapEntity)
        ensures
            r.fields == fields,
            r.collision_geometry == collision_geometry,
    {
        ValveMapEntity { fields, collision_geometry }
    }

    /// The value of the property `name`.
    pub fn get_property(&self, name: &str) -> (value: Option<&str>)
        ensures
            match value {
                Some(text) => self.fields@.contains_key(name@) && self.fields@[name@] == text@,
                None => !self.fields@.contains_key(name@),
            },
    {
        self.fields.get_property(name)
    }

    /// The entity is a sensor: its `classname` is `sensor`.
    pub fn is_sensor(&self) -> (sensor: bool)
        ensures
            sensor == (self.fields@.contains_key("classname"@) && self.fields@["classname"@]
                == "sensor"@),
    {
        self.fields.is_sensor()
    }

    /// The property `name` as a flag: it is set where the value is `1`.
    pub fn get_bool_property(&self, name: &str) -> (flag: Option<bool>)
        ensures
            match flag {
                Some(set) => self.fields@.contains_key(name@) && set == (self.fields@[name@]
                    == "1"@),
                None => !self.fields@.contains_key(name@),
            },
    {
        match self.fields.get_property(name) {
            Some(value) => {
                let one = "1".to_owned();
                Some(value.to_owned() == one)
            },
            None => None,
        }
    }

    /// The property `name` as the text of three numbers.
    pub fn get_vec3_property_raw(&self, name: &str) -> (numbers: Option<(String, String, String)>)
        ensures
            match numbers {
                Some((x, y, z)) => self.fields@.contains_key(name@) && (x@, y@, z@)
                    == three_pieces(self.fields@[name@]),
                None => !self.fields@.contains_key(name@),
            },
    {
        match self.fields.get_property(name) {
            Some(value) => {
                let x = nth_piece_or(value, 0, "0.0").to_owned();
                let y = nth_piece_or(value, 1, "0.0").to_owned();
                let z = nth_piece_or(value, 2, "0.0").to_owned();
                Some((x, y, z))
            },
            None => None,
        }
    }

    /// The property `name` as a colour: red, green and blue.
    pub fn get_color_property(&self, name: &str) -> (colour: Option<(u8, u8, u8)>)
        ensures
            match colour {
                Some(rgb) => self.fields@.contains_key(name@) && rgb == colour_of(
                    self.fields@[name@],
                ),
                None => !self.fields@.contains_key(name@),
            },
    {
        match self.fields.get_property(name) {
            Some(value) => {
                let r = match read_u8(nth_piece_or(value, 0, "255")) {
                    Some(r) => r,
                    None => 255,
                };
                let g = match read_u8(nth_piece_or(value, 1, "255")) {
                    Some(g) => g,
                    None => 0,
                };
                let b = match read_u8(nth_piece_or(value, 2, "255")) {
                    Some(b) => b,
                    None => 255,
                };
                Some((r, g, b))
            },
            None => None,
        }
    }
}

/// The meshes to show for an entity with the properties `fields` and the
/// geometry `geometry`: none for a sensor, and else those of the geometry.
pub fn entity_surfaces(fields: &Fields, geometry: &Geometry) -> (surfaces: Vec<MeshSurface>)
    requires
        geometry.wf(),
    ensures
        views(surfaces@) == (if fields@.contains_key("classname"@) && fields@["classname"@]
            == "sensor"@ {
            Seq::<MeshSurfaceView>::empty()
        } else {
            visual_surfaces(geometry.brush_geometry@)
        }),
{
    if fields.is_sensor() {
        let surfaces: Vec<MeshSurface> = Vec::new();
        proof {
            assert(views(surfaces@) =~= Seq::<MeshSurfaceView>::empty());
        }
        surfaces
    } else {
        geometry.get_visual_geometry()
    }
}

/// The smaller of two lengths.
pub open spec fn smaller(a: nat, b: nat) -> nat {
    if a <= b {
        a
    } else {
        b
    }
}

/// A loaded level: its entities.
#[derive(Debug)]
pub struct ValveMap {
    pub entities: Vec<ValveMapEntity>,
}

impl ValveMap {
    /// The level of the map `map`, whose entities have the solids `solids`
    /// to collide with, entity by entity. Where one list is longer, what it
    /// has more is left out.
    pub fn new(map: MapFile, solids: Vec<Vec<ConvexCollision>>) -> (level: ValveMap)
        ensures
            level.entities@.len() == smaller(map.entities@.len(), solids@.len()),
            forall|i: int|
                0 <= i < level.entities@.len() ==> (#[trigger] level.entities@[i]).fields
                    == map.entities@[i].fields && level.entities@[i].collision_geometry
                    == solids@[i],
    {
        let ghost all_entities = map.entities@;
        let ghost all_solids = solids@;
        let mut entities = map.entities;
        let mut solids = solids;
        let ghost least = smaller(all_entities.len(), all_solids.len());
        proof {
            assert(entities@ =~= all_entities.take(entities@.len() as int));
        }
        while entities.len() > solids.len()
            invariant
                entities@.len() <= all_entities.len(),
                least == smaller(all_entities.len(), all_solids.len()),
                entities@.len() >= least,
                entities@ == all_entities.take(entities@.len() as int),
                solids@ == all_solids,
            decreases entities@.len(),
        {
            let _ = entities.pop();
            proof {
                assert(entities@ =~= all_entities.take(entities@.len() as int));
            }
        }
        proof {
            assert(solids@ =~= all_solids.take(solids@.len() as int));
        }
        while solids.len() > entities.len()
            invariant
                solids@.len() <= all_solids.len(),
                solids@.len() >= entities@.len(),
                solids@ == all_solids.take(solids@.len() as int),
                entities@ == all_entities.take(entities@.len() as int),
                least == smaller(all_entities.len(), all_solids.len()),
                entities@.len() == least,
            decreases solids@.len(),
        {
            let _ = solids.pop();
            proof {
                assert(solids@ =~= all_solids.take(solids@.len() as int));
            }
        }
        let n = entities.len();
        let mut backwards: Vec<ValveMapEntity> = Vec::new();
        while entities.len() > 0
            invariant
                n == least,
                least == smaller(all_entities.len(), all_solids.len()),
                n <= all_entities.len(),
                n <= all_solids.len(),
                entities@.len() == solids@.len(),
                entities@.len() <= n,
                entities@ == all_entities.take(entities@.len() as int),
                solids@ == all_solids.take(solids@.len() as int),
                backwards@.len() == n - entities@.len(),
                forall|k: int|
                    0 <= k < backwards@.len() ==> (#[trigger] backwards@[k]).fields
                        == all_entities[n - 1 - k].fields && backwards@[k].collision_geometry
                        == all_solids[n - 1 - k],
            decreases entities@.len(),
        {
            let entity = entities.pop().unwrap();
            let hull = solids.pop().unwrap();
            proof {
                assert(entities@ =~= all_entities.take(entities@.len() as int));
                assert(solids@ =~= all_solids.take(solids@.len() as int));
            }
            backwards.push(ValveMapEntity::new(entity.fields, hull));
        }
        let mut level: Vec<ValveMapEntity> = Vec::new();
        while backwards.len() > 0
            invariant
                n == least,
                least == smaller(all_entities.len(), all_solids.len()),
                n <= all_entities.len(),
                n <= all_solids.len(),
                backwards@.len() <= n,
                level@.len() == n - backwards@.len(),
                forall|k: int|
                    0 <= k < backwards@.len() ==> (#[trigger] backwards@[k]).fields
                        == all_entities[n - 1 - k].fields && backwards@[k].collision_geometry
                        == all_solids[n - 1 - k],
                forall|k: int|
                    0 <= k < level@.len() ==> (#[trigger] level@[k]).fields
                        == all_entities[k].fields && level@[k].collision_geometry
                        == all_solids[k],
            decreases backwards@.len(),
        {
            let entity = backwards.pop().unwrap();
            level.push(entity);
        }
        ValveMap { entities: level }
    }
}

} // verus!
