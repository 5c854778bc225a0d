//! Tile data for a chunked 2D tile map: the tile property table, the `.tk`
//! chunk ("trunk") asset and its decoder, and the registry of chunks in a world.
pub mod game_state;
pub mod tile_table;
pub mod trunk_asset;
pub mod trunk_map;
