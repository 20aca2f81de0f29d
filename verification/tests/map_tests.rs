use nano9::map::{P8Map, Tile};

fn sample() -> P8Map {
    let mut entries = vec![0u8; 128 * 2];
    entries[1] = 5;
    entries[128 + 2] = 7;
    P8Map { entries, sheet_index: 0 }
}

#[test]
fn tiles_of_an_area() {
    let map = sample();
    let tiles = map.tiles(0, 0, 3, 2, None, None);
    assert_eq!(
        tiles,
        vec![Tile { x: 1, y: 1, texture_index: 5 }, Tile { x: 2, y: 0, texture_index: 7 }]
    );
}

#[test]
fn masked_tiles() {
    let map = sample();
    let mut flags = vec![0u8; 256];
    flags[7] = 0b11;
    let tiles = map.tiles(0, 0, 3, 2, Some(0b01), Some(&flags));
    assert_eq!(tiles, vec![Tile { x: 2, y: 0, texture_index: 7 }]);
    let none = map.tiles(0, 0, 3, 2, Some(0b01), None);
    assert!(none.is_empty());
    // Past the end of the map nothing is drawn.
    assert!(map.tiles(0, 5, 2, 2, None, None).is_empty());
}

#[test]
fn get_and_set_cells() {
    let mut map = sample();
    assert_eq!(map.mget(2, 1), 7);
    assert!(map.mset(3, 1, 300).is_ok());
    assert_eq!(map.mget(3, 1), 300u32 as u8);
    assert!(map.mset(0, 9, 1).is_err());
}
