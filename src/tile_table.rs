//! The table of tile types: index, display name and sprite cell in the shared
//! texture atlas.
use vstd::prelude::*;

verus! {

/// Number of tile types known to the table.
pub const TILE_TYPE_COUNT: usize = 5;

/// Index of a tile type in the tile property table.
#[derive(Clone, Copy, Debug, PartialEq, Eq, Structural)]
pub struct TileType(pub u32);

/// Display and rendering data of one tile type. The sprite is the cell
/// `atlas_index` of the shared terrain atlas.
#[derive(Clone, Copy, Debug)]
pub struct TileProperty {
    pub tile_name: &'static str,
    pub atlas_index: usize,
}

/// The tile property table, indexed by tile type.
#[derive(Debug)]
pub struct TilePropertyVector {
    pub properties: Vec<TileProperty>,
}

/// The names of the tile types, in index order.
pub open spec fn tile_names() -> Seq<Seq<char>> {
    seq!["Gravel"@, "Stone"@, "Dirt"@, "GrassBlock"@, "Plank"@]
}

/// The table holds one entry per tile type, the entry at index `i` being
/// named `tile_names()[i]` and drawn from atlas cell `i`.
pub open spec fn is_standard_table(props: Seq<TileProperty>) -> bool {
    &&& props.len() == TILE_TYPE_COUNT
    &&& forall|i: int| 0 <= i < props.len() ==> {
        &&& props[i].tile_name@ == #[trigger] tile_names()[i]
        &&& props[i].atlas_index == i
    }
}

impl TilePropertyVector {
    /// Builds the table of the five tile types: Gravel, Stone, Dirt,
    /// GrassBlock and Plank, drawn from atlas cells 0 to 4.
    pub fn setup_tile_properties() -> (r: TilePropertyVector)
        ensures
            is_standard_table(r.properties@),
    {
        let mut tile_properties: Vec<TileProperty> = Vec::new();
        tile_properties.push(TileProperty { tile_name: "Gravel", atlas_index: 0 });
        tile_properties.push(TileProperty { tile_name: "Stone", atlas_index: 1 });
        tile_properties.push(TileProperty { tile_name: "Dirt", atlas_index: 2 });
        tile_properties.push(TileProperty { tile_name: "GrassBlock", atlas_index: 3 });
        tile_properties.push(TileProperty { tile_name: "Plank", atlas_index: 4 });
        proof {
            reveal_strlit("Gravel");
            reveal_strlit("Stone");
            reveal_strlit("Dirt");
            reveal_strlit("GrassBlock");
            reveal_strlit("Plank");
            assert forall|i: int| 0 <= i < tile_properties@.len() implies {
                &&& tile_properties@[i].tile_name@ == #[trigger] tile_names()[i]
                &&& tile_properties@[i].atlas_index == i
            } by {
                if i == 0 {} else if i == 1 {} else if i == 2 {} else if i == 3 {} else {}
            }
        }
        TilePropertyVector { properties: tile_properties }
    }

    /// The property of tile type `t`, where the table has an entry for it.
    pub fn get(&self, t: TileType) -> (r: Option<TileProperty>)
        ensures
            (t.0 as int) < self.properties@.len() ==> r == Some(self.properties@[t.0 as int]),
            (t.0 as int) >= self.properties@.len() ==> r is None,
    {
        let i = t.0 as usize;
        if i < self.properties.len() {
            Some(self.properties[i])
        } else {
            None
        }
    }
}

} // verus!
