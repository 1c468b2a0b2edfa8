use hypersweeper::tile::{GridTiles, FLAGGED, MINE, REVEALED, STREAM_BITS, TILE_BITS, TILE_COUNT};

fn mirrored(byte: u8) -> u8 {
    ((byte & 0b001) << 2) | (byte & 0b010) | ((byte & 0b100) >> 2)
}

#[test]
fn default_group_is_empty() {
    let tile = GridTiles::default();
    assert_eq!(tile.tile_data(), [0, 0, 0]);
    for i in 0..8 {
        assert_eq!(tile.get(i), 0);
        assert!(!tile.is_mine(i));
        assert!(!tile.revealed(i));
        assert!(!tile.flagged(i));
    }
}

#[test]
fn constants_describe_the_layout() {
    assert_eq!(TILE_COUNT, 8);
    assert_eq!(TILE_BITS, 3);
    assert_eq!(STREAM_BITS, 24);
    assert_eq!(MINE, 0);
    assert_eq!(REVEALED, 1);
    assert_eq!(FLAGGED, 2);
}

#[test]
fn get_after_set_returns_mirrored_field() {
    for i in 0..8 {
        for byte in 0..8u8 {
            let mut tile = GridTiles::default();
            tile.set(i, byte);
            assert_eq!(tile.get(i), mirrored(byte));
        }
    }
}

#[test]
fn get_after_set_returns_symmetric_field_unchanged() {
    for i in 0..8 {
        for byte in [0b000u8, 0b010, 0b101, 0b111] {
            let mut tile = GridTiles::default();
            tile.set(i, byte);
            assert_eq!(tile.get(i), byte);
        }
    }
}

#[test]
fn get_after_set_exact_values() {
    let mut tile = GridTiles::default();
    tile.set(0, 0b001);
    assert_eq!(tile.get(0), 0b100);
    assert_eq!(tile.tile_data(), [0b00100000, 0, 0]);
    tile.set(0, 0b110);
    assert_eq!(tile.get(0), 0b011);
    assert_eq!(tile.tile_data(), [0b11000000, 0, 0]);
    tile.set(0, 0b010);
    assert_eq!(tile.get(0), 0b010);
    assert_eq!(tile.tile_data(), [0b01000000, 0, 0]);
}

#[test]
fn set_ignores_upper_bits_of_byte() {
    for i in 0..8 {
        for byte in 0..8u8 {
            let mut low = GridTiles::default();
            let mut high = GridTiles::default();
            low.set(i, byte);
            high.set(i, byte | 0b11111000);
            assert_eq!(low.tile_data(), high.tile_data());
        }
    }
}

#[test]
fn set_leaves_other_tiles_alone() {
    for i in 0..8 {
        for byte in 0..8u8 {
            for background in [0b000u8, 0b111, 0b101, 0b010] {
                let mut tile = GridTiles::default();
                for j in 0..8 {
                    tile.set(j, background);
                }
                tile.set(i, byte);
                for j in 0..8 {
                    if j != i {
                        assert_eq!(tile.get(j), background);
                    }
                }
                assert_eq!(tile.get(i), mirrored(byte));
            }
        }
    }
}

#[test]
fn set_overwrites_previous_field() {
    for i in 0..8 {
        let mut tile = GridTiles::default();
        tile.set(i, 0b111);
        tile.set(i, 0b000);
        assert_eq!(tile.get(i), 0);
        assert_eq!(tile.tile_data(), [0, 0, 0]);
    }
}

#[test]
fn straddling_tiles_use_two_bytes() {
    let mut tile = GridTiles::default();
    tile.set(2, 0b111);
    assert_eq!(tile.tile_data(), [0b00000011, 0b10000000, 0]);
    assert_eq!(tile.get(2), 0b111);
    assert_eq!(tile.get(1), 0);
    assert_eq!(tile.get(3), 0);

    let mut tile = GridTiles::default();
    tile.set(5, 0b111);
    assert_eq!(tile.tile_data(), [0, 0b00000001, 0b11000000]);
    assert_eq!(tile.get(5), 0b111);
    assert_eq!(tile.get(4), 0);
    assert_eq!(tile.get(6), 0);
}

#[test]
fn straddling_tiles_read_flags_from_both_bytes() {
    let mut tile = GridTiles::default();
    tile.set_flagged(2, true);
    assert_eq!(tile.tile_data(), [0, 0b10000000, 0]);
    assert_eq!(tile.get(2), 0b100);
    tile.set_mine(2, true);
    assert_eq!(tile.tile_data(), [0b00000010, 0b10000000, 0]);
    assert_eq!(tile.get(2), 0b101);

    let mut tile = GridTiles::default();
    tile.set_mine(5, true);
    assert_eq!(tile.tile_data(), [0, 0b00000001, 0]);
    assert_eq!(tile.get(5), 0b001);
    tile.set_revealed(5, true);
    tile.set_flagged(5, true);
    assert_eq!(tile.tile_data(), [0, 0b00000001, 0b11000000]);
    assert_eq!(tile.get(5), 0b111);
}

#[test]
fn straddling_tiles_clear_only_their_own_bits() {
    let mut tile = GridTiles::default();
    for j in 0..8 {
        tile.set(j, 0b111);
    }
    assert_eq!(tile.tile_data(), [0xff, 0xff, 0xff]);
    tile.set(2, 0);
    assert_eq!(tile.tile_data(), [0b11111100, 0b01111111, 0xff]);
    tile.set(5, 0);
    assert_eq!(tile.tile_data(), [0b11111100, 0b01111110, 0b00111111]);
}

#[test]
fn first_stream_bit_is_most_significant_bit_of_first_byte() {
    let mut tile = GridTiles::default();
    tile.set_mine(0, true);
    assert_eq!(tile.tile_data(), [0b10000000, 0, 0]);
    assert_eq!(tile.get(0), 0b001);
    let mut tile = GridTiles::default();
    tile.set_flagged(7, true);
    assert_eq!(tile.tile_data(), [0, 0, 0b00000001]);
    assert_eq!(tile.get(7), 0b100);
}

#[test]
fn flags_combine_by_or() {
    for i in 0..8 {
        for mask in 0..8u8 {
            let mut tile = GridTiles::default();
            if mask & 0b001 != 0 {
                tile.set_mine(i, true);
            }
            if mask & 0b010 != 0 {
                tile.set_revealed(i, true);
            }
            if mask & 0b100 != 0 {
                tile.set_flagged(i, true);
            }
            assert_eq!(tile.get(i), mask);
            assert_eq!(tile.is_mine(i), mask & 0b001 != 0);
            assert_eq!(tile.revealed(i), mask & 0b010 != 0);
            assert_eq!(tile.flagged(i), mask & 0b100 != 0);
        }
    }
}

#[test]
fn setting_a_flag_twice_is_setting_it_once() {
    for i in 0..8 {
        let mut once = GridTiles::default();
        let mut twice = GridTiles::default();
        once.set_revealed(i, true);
        twice.set_revealed(i, true);
        twice.set_revealed(i, true);
        assert_eq!(once.tile_data(), twice.tile_data());
    }
}

#[test]
fn toggling_a_flag_restores_the_group() {
    for i in 0..8 {
        for background in 0..8u8 {
            let mut tile = GridTiles::default();
            for j in 0..8 {
                tile.set(j, background);
            }
            let before: [u8; 3] = tile.tile_data();

            let mine: bool = tile.is_mine(i);
            tile.set_mine(i, !mine);
            assert_eq!(tile.is_mine(i), !mine);
            tile.set_mine(i, mine);
            assert_eq!(tile.tile_data(), before);

            let revealed: bool = tile.revealed(i);
            tile.set_revealed(i, !revealed);
            assert_eq!(tile.revealed(i), !revealed);
            tile.set_revealed(i, revealed);
            assert_eq!(tile.tile_data(), before);

            let flagged: bool = tile.flagged(i);
            tile.set_flagged(i, !flagged);
            assert_eq!(tile.flagged(i), !flagged);
            tile.set_flagged(i, flagged);
            assert_eq!(tile.tile_data(), before);
        }
    }
}

#[test]
fn writing_a_flag_keeps_sibling_flags() {
    for i in 0..8 {
        let mut tile = GridTiles::default();
        tile.set_mine(i, true);
        tile.set_flagged(i, true);
        tile.set_revealed(i, true);
        tile.set_revealed(i, false);
        assert!(tile.is_mine(i));
        assert!(!tile.revealed(i));
        assert!(tile.flagged(i));
        assert_eq!(tile.get(i), 0b101);
        for j in 0..8 {
            if j != i {
                assert_eq!(tile.get(j), 0);
            }
        }
    }
}

#[test]
fn get_is_repeatable() {
    let mut tile = GridTiles::default();
    tile.set(3, 0b101);
    tile.set_revealed(6, true);
    let before: [u8; 3] = tile.tile_data();
    for i in 0..8 {
        let first: u8 = tile.get(i);
        let second: u8 = tile.get(i);
        assert_eq!(first, second);
        assert_eq!(tile.is_mine(i), tile.is_mine(i));
    }
    assert_eq!(tile.tile_data(), before);
}

#[test]
fn get_reads_the_reversed_byte() {
    let mut tile = GridTiles::default();
    tile.set_mine(0, true);
    tile.set_mine(1, true);
    assert_eq!(tile.tile_data(), [0b10010000, 0, 0]);
    assert_eq!(tile.get(0), 0b001);
    assert_eq!(tile.get(1), 0b001);
    assert!(tile.is_mine(0));
    assert!(!tile.revealed(0));
    assert!(!tile.flagged(0));
}
