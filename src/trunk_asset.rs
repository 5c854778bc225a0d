//! The trunk asset: one 64 by 64 chunk of tile types, and its decoder from
//! the textual `.tk` format, `(grid: [v0, v1, ...])` in RON.
use vstd::prelude::*;

use crate::tile_table::TileType;

verus! {

/// Width and height of a trunk, in tiles.
pub const TRUNK_SIDE: usize = 64;

/// Number of tiles in a trunk.
pub const TRUNK_CELLS: usize = 4096;

#[verifier::external_type_specification]
#[verifier::external_body]
pub struct ExRonSpannedError(ron::error::SpannedError);

#[verifier::external_type_specification]
#[verifier::external_body]
pub struct ExRonError(ron::error::Error);

#[verifier::external_type_specification]
#[verifier::external_body]
pub struct ExIoError(std::io::Error);

/// What RON reports when a text cannot be decoded into named fields of integer lists.
#[derive(Debug)]
pub enum RonFault {
    /// The text is not well-formed RON; the error holds the line and column.
    Syntax(ron::error::SpannedError),
    /// The text is RON, but not a struct whose fields are lists of `u32`.
    Shape(ron::error::Error),
}

/// Why a `.tk` text is not a trunk.
#[derive(Debug)]
pub enum FormatError {
    /// RON could not decode the text.
    Ron(RonFault),
    /// The struct has no field `grid`.
    MissingGrid,
    /// The `grid` field does not hold exactly `expected` values.
    GridLength { expected: usize, found: usize },
}

/// Why a trunk asset could not be loaded.
#[derive(Debug)]
pub enum TrunkAssetLoaderError {
    /// Reading the asset's bytes failed.
    Io(std::io::Error),
    /// The bytes are not a well-formed `.tk` text.
    Format(FormatError),
}

/// One chunk of the map: the tile type of each of its 64 by 64 cells, row by row.
#[derive(Debug)]
pub struct TrunkAsset {
    pub grid: Vec<u32>,
}

impl TrunkAsset {
    pub open spec fn wf(&self) -> bool {
        self.grid@.len() == TRUNK_CELLS
    }

    /// The tile type in column `x` and row `y` of the chunk.
    pub fn tile_at(&self, x: usize, y: usize) -> (r: TileType)
        requires
            self.wf(),
            x < TRUNK_SIDE,
            y < TRUNK_SIDE,
        ensures
            r.0 == self.grid@[y * TRUNK_SIDE + x],
    {
        proof {
            assert(y * 64 + x < 4096) by (nonlinear_arith)
                requires x < 64, y < 64;
        }
        TileType(self.grid[y * TRUNK_SIDE + x])
    }
}

/// The bytes of the field name `grid`.
pub open spec fn grid_key() -> Seq<u8> {
    seq![103u8, 114u8, 105u8, 100u8]
}

/// The fields that RON decodes from the text `text`, each as the bytes of its
/// name and its list of values; `None` where the text is not a struct whose
/// fields are all lists of `u32`.
pub uninterp spec fn ron_fields_of(text: Seq<u8>) -> Option<Seq<(Seq<u8>, Seq<u32>)>>;

pub open spec fn fields_view(fields: Seq<(Vec<u8>, Vec<u32>)>) -> Seq<(Seq<u8>, Seq<u32>)> {
    fields.map_values(|f: (Vec<u8>, Vec<u32>)| (f.0@, f.1@))
}

/// The values of the first field named `grid`, if there is one.
pub open spec fn grid_field(fields: Seq<(Seq<u8>, Seq<u32>)>) -> Option<Seq<u32>>
    decreases fields.len(),
{
    if fields.len() == 0 {
        None
    } else if fields[0].0 == grid_key() {
        Some(fields[0].1)
    } else {
        grid_field(fields.drop_first())
    }
}

/// The grid that the fields `fields` describe, or why they describe none.
pub open spec fn grid_of_fields(fields: Seq<(Seq<u8>, Seq<u32>)>) -> Result<Seq<u32>, FormatError> {
    match grid_field(fields) {
        None => Err(FormatError::MissingGrid),
        Some(g) => if g.len() == TRUNK_CELLS {
            Ok(g)
        } else {
            Err(FormatError::GridLength { expected: TRUNK_CELLS, found: g.len() as usize })
        },
    }
}

/// `r` is the trunk, or the error, that `expected` describes.
pub open spec fn trunk_matches<E>(r: Result<TrunkAsset, E>, expected: Result<Seq<u32>, E>) -> bool {
    match (r, expected) {
        (Ok(a), Ok(g)) => a.wf() && a.grid@ == g,
        (Err(e), Err(f)) => e == f,
        _ => false,
    }
}

/// Decodes the RON text `text` into its fields.
/// Relies on ron::de::from_bytes to parse the text into a ron::Value, and on
/// ron::Value::into_rust to read that value as a map from field names to
/// lists of `u32`; the result depends on the text alone.
#[verifier::external_body]
fn decode_fields(text: &[u8]) -> (r: Result<Vec<(Vec<u8>, Vec<u32>)>, RonFault>)
    ensures
        match r {
            Ok(fields) => ron_fields_of(text@) == Some(fields_view(fields@)),
            Err(_) => ron_fields_of(text@) is None,
        },
{
    match ron::de::from_bytes::<ron::Value>(text) {
        Err(e) => Err(RonFault::Syntax(e)),
        Ok(v) => match v.into_rust::<std::collections::BTreeMap<String, Vec<u32>>>() {
            Err(e) => Err(RonFault::Shape(e)),
            Ok(m) => Ok(m.into_iter().map(|(k, g)| (k.into_bytes(), g)).collect()),
        },
    }
}

/// Whether `name` is the field name `grid`.
fn is_grid_key(name: &Vec<u8>) -> (r: bool)
    ensures
        r == (name@ == grid_key()),
{
    let r = name.len() == 4 && name[0] == 103u8 && name[1] == 114u8 && name[2] == 105u8
        && name[3] == 100u8;
    proof {
        if name@.len() == 4 && !r {
            assert(name@ != grid_key()) by {
                if name@ == grid_key() {
                    assert(name@[0] == 103u8 && name@[1] == 114u8);
                    assert(name@[2] == 105u8 && name@[3] == 100u8);
                }
            }
        }
        if r {
            assert(name@ =~= grid_key());
        }
    }
    r
}

/// Builds the trunk from decoded fields: the values of the field `grid`,
/// which must hold exactly 4096 of them.
pub fn grid_from_fields(fields: &Vec<(Vec<u8>, Vec<u32>)>) -> (r: Result<TrunkAsset, FormatError>)
    ensures
        trunk_matches(r, grid_of_fields(fields_view(fields@))),
{
    let ghost all = fields_view(fields@);
    let mut i: usize = 0;
    assert(all.subrange(0, all.len() as int) =~= all);
    while i < fields.len()
        invariant
            i <= fields@.len(),
            all == fields_view(fields@),
            grid_field(all) == grid_field(all.subrange(i as int, all.len() as int)),
        decreases fields@.len() - i,
    {
        let ghost rest = all.subrange(i as int, all.len() as int);
        assert(rest.drop_first() =~= all.subrange(i + 1, all.len() as int));
        if is_grid_key(&fields[i].0) {
            let n = fields[i].1.len();
            if n == TRUNK_CELLS {
                let grid = fields[i].1.clone();
                return Ok(TrunkAsset { grid });
            } else {
                return Err(FormatError::GridLength { expected: TRUNK_CELLS, found: n });
            }
        }
        i = i + 1;
    }
    assert(all.subrange(i as int, all.len() as int).len() == 0);
    Err(FormatError::MissingGrid)
}

/// Decodes the `.tk` text `text` into a trunk.
pub fn decode_trunk(text: &[u8]) -> (r: Result<TrunkAsset, FormatError>)
    ensures
        match ron_fields_of(text@) {
            None => r matches Err(FormatError::Ron(_)),
            Some(fields) => trunk_matches(r, grid_of_fields(fields)),
        },
{
    match decode_fields(text) {
        Err(e) => Err(FormatError::Ron(e)),
        Ok(fields) => grid_from_fields(&fields),
    }
}

/// The loader of `.tk` trunk assets.
#[derive(Debug, Clone, Copy)]
pub struct TrunkAssetLoader;

impl TrunkAssetLoader {
    /// The file extensions of trunk assets: `tk` alone.
    pub fn extensions(&self) -> (r: &'static [&'static str])
        ensures
            r@.len() == 1,
            r@[0]@ == "tk"@,
    {
        let r: &'static [&'static str] = &["tk"];
        proof {
            reveal_strlit("tk");
        }
        r
    }

    /// Loads a trunk from the outcome of reading its asset file: a read error
    /// is an I/O error, and the bytes read are decoded with `decode_trunk`.
    pub fn load(&self, read: Result<Vec<u8>, std::io::Error>) -> (r: Result<TrunkAsset, TrunkAssetLoaderError>)
        ensures
            match read {
                Err(e) => r == Err::<TrunkAsset, TrunkAssetLoaderError>(TrunkAssetLoaderError::Io(e)),
                Ok(bytes) => match ron_fields_of(bytes@) {
                    None => r matches Err(TrunkAssetLoaderError::Format(FormatError::Ron(_))),
                    Some(fields) => match (r, grid_of_fields(fields)) {
                        (Ok(a), Ok(g)) => a.wf() && a.grid@ == g,
                        (Err(TrunkAssetLoaderError::Format(e)), Err(f)) => e == f,
                        _ => false,
                    },
                },
            },
    {
        match read {
            Err(e) => Err(TrunkAssetLoaderError::Io(e)),
            Ok(bytes) => match decode_trunk(bytes.as_slice()) {
                Ok(a) => Ok(a),
                Err(e) => Err(TrunkAssetLoaderError::Format(e)),
            },
        }
    }
}

} // verus!
