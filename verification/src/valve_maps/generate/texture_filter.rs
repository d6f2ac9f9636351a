//! Choosing each texture name once.

use vstd::prelude::*;
use vstd::string::*;
use crate::valve_maps::generate::choice::chosen;

verus! {

/// The names as text.
pub open spec fn names_of(textures: Seq<String>) -> Seq<Seq<char>> {
    textures.map_values(|name: String| name@)
}

/// No name after index `i` is `texture`.
pub open spec fn none_after(names: Seq<Seq<char>>, i: int, texture: Seq<char>) -> bool {
    forall|j: int| i < j < names.len() ==> #[trigger] names[j] != texture
}

/// The condition that the name at an index occurs at no later index.
pub open spec fn last_of_its_name(names: Seq<Seq<char>>) -> spec_fn(int) -> bool {
    |i: int| none_after(names, i, names[i])
}

/// The names, in their order, each once: of equal names the last is kept.
pub open spec fn distinct_names(names: Seq<Seq<char>>) -> Seq<Seq<char>> {
    chosen(last_of_its_name(names), names.len() as int).map_values(|i: int| names[i])
}

/// Tests whether no name after index `i` is `texture`.
pub fn unique(textures: &Vec<String>, i: usize, texture: &String) -> (last: bool)
    ensures
        last == none_after(names_of(textures@), i as int, texture@),
{
    let n = textures.len();
    if i >= n {
        return true;
    }
    let mut j = i + 1;
    while j < n
        invariant
            n == textures@.len(),
            i < j <= n,
            forall|k: int| i < k < j ==> #[trigger] names_of(textures@)[k] != texture@,
        decreases n - j,
    {
        if textures[j] == *texture {
            proof {
                assert(names_of(textures@)[j as int] == texture@);
            }
            return false;
        }
        j += 1;
    }
    true
}

/// Keeps each name once: of equal names the last.
pub fn unique_names(textures: &Vec<String>) -> (kept: Vec<String>)
    ensures
        names_of(kept@) == distinct_names(names_of(textures@)),
{
    let n = textures.len();
    let ghost names = names_of(textures@);
    let ghost keep = last_of_its_name(names);
    let mut kept: Vec<String> = Vec::new();
    let mut i: usize = 0;
    proof {
        assert(names_of(kept@) =~= chosen(keep, 0).map_values(|k: int| names[k]));
    }
    while i < n
        invariant
            n == textures@.len(),
            names == names_of(textures@),
            keep == last_of_its_name(names),
            i <= n,
            names_of(kept@) == chosen(keep, i as int).map_values(|k: int| names[k]),
        decreases n - i,
    {
        let ghost before = kept@;
        if unique(textures, i, &textures[i]) {
            let name = textures[i].clone();
            kept.push(name);
            proof {
                assert(names_of(kept@) =~= names_of(before).push(names[i as int]));
            }
        }
        i += 1;
        proof {
            assert(names_of(kept@) =~= chosen(keep, i as int).map_values(|k: int| names[k]));
        }
    }
    kept
}

} // verus!
