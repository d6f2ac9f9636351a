//! The parts of a map and their rules.

pub mod fields;
pub mod shared;
pub mod valve;

use vstd::prelude::*;
use vstd::string::*;
use crate::valve_maps::parse::base::{
    views, ErrorKind, Failure, Input, Outcome, Parse, Step, Stop,
};
use crate::valve_maps::names::{rising, sorted_names, texts};
use crate::valve_maps::parse::formats::shared::{
    entities, entities_from, entity_at, separator, separator_end, Brush, BrushView, MapEntity,
    MapEntityView, Plane, PlaneView,
};

verus! {

/// A map: its entities, in the order of the text.
#[derive(Debug, Clone)]
pub struct MapFile {
    pub entities: Vec<MapEntity>,
}

/// A map as the grammar gives it.
pub struct MapFileView {
    pub entities: Seq<MapEntityView>,
}

impl View for MapFile {
    type V = MapFileView;

    open spec fn view(&self) -> MapFileView {
        MapFileView { entities: views(self.entities@) }
    }
}

/// The rule for a map at `i`: a separator, then entities with separators
/// after each, at least one. Where no entity stands first, the failure is
/// reported at the place where it should stand.
pub open spec fn map_at(s: Seq<u8>, i: int) -> Outcome<MapFileView> {
    let start = separator_end(s, i);
    match entity_at(s, start) {
        Err(e) => Err(Failure { at: start, kind: ErrorKind::Many1, context: e.context }),
        Ok((first, j)) => {
            let (more, end) = entities_from(s, separator_end(s, j));
            Ok((MapFileView { entities: seq![first] + more }, end))
        },
    }
}

impl Parse for MapFile {
    open spec fn rule(s: Seq<u8>, i: int) -> Outcome<MapFileView> {
        map_at(s, i)
    }

    fn parse_at(input: Input<'_>, i: usize) -> (r: Step<Self>) {
        proof {
            assert(Self::rule(input.spec_bytes(), i as int) == map_at(input.spec_bytes(), i as int));
        }
        let start = separator(input, i);
        let step = MapEntity::parse_at(input, start);
        proof {
            assert(MapEntity::rule(input.spec_bytes(), start as int) == entity_at(
                input.spec_bytes(),
                start as int,
            ));
        }
        match step {
            Err(stop) => Err(Stop { at: start, kind: ErrorKind::Many1, context: stop.context }),
            Ok((first, j)) => {
                let next = separator(input, j);
                let mut found: Vec<MapEntity> = Vec::new();
                found.push(first);
                proof {
                    assert(views(found@) =~= seq![first@]);
                }
                let (all, end) = entities(input, next, found);
                Ok((MapFile { entities: all }, end))
            },
        }
    }
}

/// The names of the textures of the planes, in their order.
pub open spec fn plane_names(planes: Seq<PlaneView>) -> Seq<Seq<char>> {
    planes.map_values(|plane: PlaneView| plane.texture.name)
}

/// The names of the textures of the planes of the brushes, one brush after
/// the other.
pub open spec fn brush_names(brushes: Seq<BrushView>) -> Seq<Seq<char>>
    decreases brushes.len(),
{
    if brushes.len() == 0 {
        Seq::empty()
    } else {
        brush_names(brushes.drop_last()) + plane_names(brushes.last().planes)
    }
}

/// The names of the textures of the planes of the brushes of the entities,
/// one entity after the other.
pub open spec fn entity_names(entities: Seq<MapEntityView>) -> Seq<Seq<char>>
    decreases entities.len(),
{
    if entities.len() == 0 {
        Seq::empty()
    } else {
        entity_names(entities.drop_last()) + brush_names(entities.last().brushes)
    }
}

/// Adds the names of the textures of `planes` to `names`.
fn push_plane_names(planes: &Vec<Plane>, names: &mut Vec<String>)
    ensures
        texts(final(names)@) == texts(old(names)@) + plane_names(views(planes@)),
{
    let ghost before = texts(names@);
    let mut i: usize = 0;
    proof {
        assert(texts(names@) =~= before + plane_names(views(planes@)).take(0));
    }
    while i < planes.len()
        invariant
            i <= planes@.len(),
            texts(names@) == before + plane_names(views(planes@)).take(i as int),
        decreases planes@.len() - i,
    {
        let ghost so_far = names@;
        let name = planes[i].texture.name.clone();
        names.push(name);
        i += 1;
        proof {
            assert(texts(names@) =~= texts(so_far).push(name@));
            assert(plane_names(views(planes@))[i - 1] == name@);
            assert(texts(names@) =~= before + plane_names(views(planes@)).take(i as int));
        }
    }
    proof {
        assert(plane_names(views(planes@)).take(planes@.len() as int) =~= plane_names(
            views(planes@),
        ));
    }
}

/// Adds the names of the textures of the planes of `brushes` to `names`.
fn push_brush_names(brushes: &Vec<Brush>, names: &mut Vec<String>)
    ensures
        texts(final(names)@) == texts(old(names)@) + brush_names(views(brushes@)),
{
    let ghost before = texts(names@);
    let ghost all = views(brushes@);
    let mut i: usize = 0;
    proof {
        assert(all.take(0) =~= Seq::<BrushView>::empty());
        assert(texts(names@) =~= before + brush_names(all.take(0)));
    }
    while i < brushes.len()
        invariant
            i <= brushes@.len(),
            all == views(brushes@),
            texts(names@) == before + brush_names(all.take(i as int)),
        decreases brushes@.len() - i,
    {
        let ghost so_far = texts(names@);
        push_plane_names(&brushes[i].planes, names);
        proof {
            assert(all.take(i + 1).drop_last() =~= all.take(i as int));
            assert(all.take(i + 1).last() == brushes@[i as int]@);
            assert(texts(names@) =~= before + brush_names(all.take(i + 1)));
        }
        i += 1;
    }
    proof {
        assert(all.take(brushes@.len() as int) =~= all);
    }
}

impl MapFile {
    /// The names of the textures of all planes, in the order of the text.
    pub fn texture_names(&self) -> (names: Vec<String>)
        ensures
            texts(names@) == entity_names(self@.entities),
    {
        let ghost all = self@.entities;
        let mut names: Vec<String> = Vec::new();
        let mut i: usize = 0;
        proof {
            assert(all.take(0) =~= Seq::<MapEntityView>::empty());
            assert(texts(names@) =~= entity_names(all.take(0)));
        }
        while i < self.entities.len()
            invariant
                i <= self.entities@.len(),
                all == views(self.entities@),
                texts(names@) == entity_names(all.take(i as int)),
            decreases self.entities@.len() - i,
        {
            push_brush_names(&self.entities[i].brushes, &mut names);
            proof {
                assert(all.take(i + 1).drop_last() =~= all.take(i as int));
                assert(all.take(i + 1).last() == self.entities@[i as int]@);
            }
            i += 1;
        }
        proof {
            assert(all.take(self.entities@.len() as int) =~= all);
        }
        names
    }

    /// The names of the textures that the map uses, each once, in rising
    /// order. The name `__TB_empty`, which stands for no texture, is left
    /// out.
    pub fn get_texture_names(&self) -> (names: Vec<String>)
        ensures
            rising(texts(names@)),
            forall|name: Seq<char>|
                texts(names@).contains(name) <==> (entity_names(self@.entities).contains(name)
                    && name != "__TB_empty"@),
    {
        let all = self.texture_names();
        sorted_names(&all, "__TB_empty")
    }
}

} // verus!
