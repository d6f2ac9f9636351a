//! Reading Valve-220 `.map` text and the bookkeeping around brush geometry.

pub mod convert;
pub mod generate;
pub mod loader;
pub mod names;
pub mod parse;
pub mod table;

use vstd::prelude::*;
use vstd::string::*;
use crate::valve_maps::parse::base::{fails, Error, ErrorKind, Failure, Input, Parse, Stop};
use crate::valve_maps::parse::formats::{map_at, MapFile, MapFileView};
use crate::valve_maps::parse::text::length;

verus! {

/// What the text `s` is as a whole: the map that it holds from its first
/// byte to its last, or why it holds none.
pub open spec fn whole_map(s: Seq<u8>) -> Result<MapFileView, Failure> {
    match map_at(s, 0) {
        Err(e) => Err(e),
        Ok((map, end)) => if end == s.len() {
            Ok(map)
        } else {
            Err(fails(end, ErrorKind::Eof))
        },
    }
}

/// A text that holds a map holds at least one entity.
pub proof fn lemma_whole_map_has_an_entity(s: Seq<u8>)
    ensures
        whole_map(s) matches Ok(map) ==> map.entities.len() >= 1,
{
}

/// Reads a map from `input`, which must hold the map and nothing else.
pub fn parse<'i>(input: Input<'i>) -> (r: Result<MapFile, Error<'i>>)
    ensures
        match r {
            Ok(map) => whole_map(input.spec_bytes()) == Ok::<MapFileView, Failure>(map@),
            Err(error) => whole_map(input.spec_bytes()) matches Err(failure) && error.reports(
                input.spec_bytes(),
                failure,
            ),
        },
{
    let n = length(input);
    let step = MapFile::parse_at(input, 0);
    proof {
        assert(MapFile::rule(input.spec_bytes(), 0) == map_at(input.spec_bytes(), 0));
    }
    match step {
        Err(stop) => Err(Error::at_stop(input, stop)),
        Ok((map, end)) => if end == n {
            Ok(map)
        } else {
            Err(Error::at_stop(input, Stop::new(end, ErrorKind::Eof)))
        },
    }
}

} // verus!
