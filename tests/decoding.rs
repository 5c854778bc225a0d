use trunk_tiles::trunk_asset::{
    decode_trunk, grid_from_fields, FormatError, RonFault, TrunkAssetLoader,
    TrunkAssetLoaderError, TRUNK_CELLS,
};

fn tk_text(values: &[u32]) -> Vec<u8> {
    let items: Vec<String> = values.iter().map(|v| v.to_string()).collect();
    format!("(grid: [{}])", items.join(", ")).into_bytes()
}

#[test]
fn all_zero_chunk_loads_as_gravel() {
    let text = tk_text(&vec![0u32; 64 * 64]);
    let asset = TrunkAssetLoader.load(Ok(text)).expect("well-formed chunk");
    assert_eq!(asset.grid.len(), 4096);
    assert!(asset.grid.iter().all(|&v| v == 0));
    for y in 0..64 {
        for x in 0..64 {
            assert_eq!(asset.tile_at(x, y).0, 0);
        }
    }
}

#[test]
fn grid_of_length_100_is_a_format_error() {
    let text = tk_text(&vec![1u32; 100]);
    match TrunkAssetLoader.load(Ok(text)) {
        Err(TrunkAssetLoaderError::Format(FormatError::GridLength { expected, found })) => {
            assert_eq!(expected, 4096);
            assert_eq!(found, 100);
        }
        other => panic!("unexpected outcome: {:?}", other),
    }
}

#[test]
fn grid_one_too_long_is_a_format_error() {
    let text = tk_text(&vec![2u32; 4097]);
    assert!(matches!(
        TrunkAssetLoader.load(Ok(text)),
        Err(TrunkAssetLoaderError::Format(FormatError::GridLength { expected: 4096, found: 4097 }))
    ));
}

#[test]
fn empty_grid_is_a_format_error() {
    let text = b"(grid: [])".to_vec();
    assert!(matches!(
        decode_trunk(&text),
        Err(FormatError::GridLength { expected: 4096, found: 0 })
    ));
}

#[test]
fn grid_values_keep_their_order() {
    let values: Vec<u32> = (0..4096u32).map(|i| (i * 7919) % 5 + i).collect();
    let asset = TrunkAssetLoader.load(Ok(tk_text(&values))).expect("well-formed chunk");
    assert_eq!(asset.grid, values);
    assert_eq!(asset.tile_at(3, 2).0, values[2 * 64 + 3]);
    assert_eq!(asset.tile_at(63, 63).0, values[4095]);
}

#[test]
fn largest_values_are_kept() {
    let mut values = vec![u32::MAX; 4096];
    values[0] = 0;
    let asset = decode_trunk(&tk_text(&values)).expect("well-formed chunk");
    assert_eq!(asset.grid, values);
}

#[test]
fn named_struct_and_whitespace_are_accepted() {
    let items: Vec<String> = (0..4096u32).map(|v| (v % 5).to_string()).collect();
    let text = format!("TrunkAsset(\n    grid: [\n{},\n    ],\n)\n", items.join(",\n")).into_bytes();
    let asset = decode_trunk(&text).expect("well-formed chunk");
    assert_eq!(asset.grid[4], 4);
    assert_eq!(asset.grid[5], 0);
}

#[test]
fn read_failure_is_an_io_error() {
    let err = std::io::Error::new(std::io::ErrorKind::UnexpectedEof, "stream ended early");
    match TrunkAssetLoader.load(Err(err)) {
        Err(TrunkAssetLoaderError::Io(e)) => {
            assert_eq!(e.kind(), std::io::ErrorKind::UnexpectedEof)
        }
        other => panic!("unexpected outcome: {:?}", other),
    }
}

#[test]
fn truncated_text_is_a_syntax_error() {
    let mut text = tk_text(&vec![0u32; 4096]);
    text.truncate(text.len() / 2);
    assert!(matches!(
        TrunkAssetLoader.load(Ok(text)),
        Err(TrunkAssetLoaderError::Format(FormatError::Ron(RonFault::Syntax(_))))
    ));
}

#[test]
fn wrong_value_type_is_a_shape_error() {
    let text = b"(grid: [\"stone\"])".to_vec();
    assert!(matches!(
        decode_trunk(&text),
        Err(FormatError::Ron(RonFault::Shape(_)))
    ));
}

#[test]
fn negative_value_is_a_shape_error() {
    let text = b"(grid: [-1])".to_vec();
    assert!(matches!(
        decode_trunk(&text),
        Err(FormatError::Ron(RonFault::Shape(_)))
    ));
}

#[test]
fn missing_grid_field_is_reported() {
    let text = b"(cells: [1, 2, 3])".to_vec();
    assert!(matches!(decode_trunk(&text), Err(FormatError::MissingGrid)));
}

#[test]
fn fields_without_grid_are_reported() {
    let fields = vec![(b"gri".to_vec(), vec![0u32; 4096]), (b"grids".to_vec(), vec![0u32; 4096])];
    assert!(matches!(grid_from_fields(&fields), Err(FormatError::MissingGrid)));
}

#[test]
fn grid_field_is_picked_among_others() {
    let fields = vec![(b"alpha".to_vec(), vec![9u32; 3]), (b"grid".to_vec(), vec![7u32; TRUNK_CELLS])];
    let asset = grid_from_fields(&fields).expect("grid present");
    assert_eq!(asset.grid, vec![7u32; 4096]);
}

#[test]
fn loader_claims_the_tk_extension() {
    assert_eq!(TrunkAssetLoader.extensions(), &["tk"]);
}
