use hypersweeper::tile::GridTiles;

#[test]
fn single_tile_flag() {
    for i in 0..8 {
        let mut tile = GridTiles::default();
        tile.set_mine(i, true);
        assert!(
            tile.is_mine(i),
            "Set mine flag, got back {}",
            tile.is_mine(i)
        );
        assert_eq!(
            tile.get(i),
            0b1,
            "Set mine flag, got back {:03b}",
            tile.get(i)
        );
    }

    for i in 0..8 {
        let mut tile = GridTiles::default();
        tile.set_revealed(i, true);
        assert!(
            tile.revealed(i),
            "Set revealed flag, got back {}",
            tile.revealed(i)
        );
        assert_eq!(
            tile.get(i),
            0b10,
            "Set revealed flag, got back {:03b}",
            tile.get(i)
        );
    }

    for i in 0..8 {
        let mut tile = GridTiles::default();
        tile.set_flagged(i, true);
        assert!(
            tile.flagged(i),
            "Set flagged flag, got back {}",
            tile.flagged(i)
        );
        assert_eq!(
            tile.get(i),
            0b100,
            "Set flagged flag, got back {:03b}",
            tile.get(i)
        );
    }
}

#[test]
fn mass_tile_flag() {
    for i in 0..8 {
        let mut tile = GridTiles::default();
        tile.set(i, 255);
        assert_eq!(
            tile.get(i),
            0b111,
            "Set all tile flags, got back {:03b}",
            tile.get(i)
        );
    }
}

#[test]
fn tile_flag_combinations() {
    let mut tile = GridTiles::default();

    tile.set(0, 0b111);
    tile.set_flagged(1, true);
    tile.set_mine(2, true);
    tile.set_mine(2, false);
    tile.set_revealed(2, true);
    tile.set_mine(3, true);
    tile.set_revealed(4, true);
    tile.set_flagged(5, true);
    tile.set(6, 0b101);
    tile.set(7, 0b110);

    assert_eq!(tile.tile_data(), [0b11100101, 0b01000100, 0b01101110]);
}
