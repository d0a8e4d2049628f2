use doomfire::palette::pallet;
use doomfire::{DoomFire, DrawError, FirePixel, FIRE_HEIGHT, FIRE_WIDTH, MAX_LEVEL};

fn assert_well_formed(fire: &DoomFire) {
    let w = fire.width();
    let h = fire.height();
    let levels = fire.levels();
    assert_eq!(levels.len(), w * h);
    for (i, &level) in levels.iter().enumerate() {
        assert!(level <= MAX_LEVEL, "cell {} is at {}", i, level);
        if i >= (h - 1) * w {
            assert_eq!(level, MAX_LEVEL, "fuel cell {}", i);
        }
    }
}

#[test]
fn new_seeds_only_the_bottom_row() {
    let fire = DoomFire::new(4, 3);
    assert_eq!(fire.width(), 4);
    assert_eq!(fire.height(), 3);
    assert_eq!(
        fire.levels(),
        &[0, 0, 0, 0, 0, 0, 0, 0, 36, 36, 36, 36][..]
    );
}

#[test]
fn default_is_a_full_size_grid() {
    let fire = DoomFire::default();
    assert_eq!(fire.width(), FIRE_WIDTH);
    assert_eq!(fire.height(), FIRE_HEIGHT);
    let levels = fire.levels();
    assert_eq!(levels.len(), 128 * 96);
    assert!(levels[..95 * 128].iter().all(|&l| l == 0));
    assert!(levels[95 * 128..].iter().all(|&l| l == 36));
    assert_eq!(levels[95 * 128 - 1], 0);
}

#[test]
fn one_step_on_a_four_by_three_grid() {
    let mut fire = DoomFire::new(4, 3);
    fire.update(&[0, 1, 2, 3, 1, 2, 0, 3]);
    assert_eq!(
        fire.levels(),
        &[0, 35, 0, 0, 35, 36, 0, 35, 36, 36, 36, 36][..]
    );
    fire.update(&[0, 1, 2, 3, 1, 2, 0, 3]);
    assert_eq!(
        fire.levels(),
        &[36, 35, 35, 35, 35, 36, 35, 35, 36, 36, 36, 36][..]
    );
}

#[test]
fn only_the_low_two_bits_of_a_draw_count() {
    let mut a = DoomFire::new(4, 3);
    let mut b = DoomFire::new(4, 3);
    a.update(&[0, 1, 2, 3, 1, 2, 0, 3]);
    b.update(&[4, 5, 6, 7, 253, 254, 252, 255]);
    assert_eq!(a.levels(), b.levels());
}

#[test]
fn destination_before_the_grid_saturates_to_the_first_cell() {
    let mut fire = DoomFire::new(3, 2);
    fire.update(&[3, 3, 3]);
    assert_eq!(fire.levels(), &[35, 0, 0, 36, 36, 36][..]);
}

#[test]
fn drift_right_off_the_last_column_wraps_to_the_next_row() {
    let mut fire = DoomFire::new(2, 2);
    fire.update(&[1, 0]);
    // Column 0 with draw 1 lands straight above, one level cooler. Column 1
    // with draw 0 lands at index 3 + 1 - 0 - 2 = 2, a fuel cell, which it
    // rewrites with the same level.
    assert_eq!(fire.levels(), &[35, 0, 36, 36][..]);
}

#[test]
fn levels_stay_in_range_over_many_steps() {
    let mut fire = DoomFire::new(7, 6);
    let mut seed: u32 = 12345;
    for _ in 0..60 {
        let draws: Vec<u8> = (0..7 * 5)
            .map(|_| {
                seed = seed.wrapping_mul(1103515245).wrapping_add(12345);
                (seed >> 16) as u8
            })
            .collect();
        fire.update(&draws);
        assert_well_formed(&fire);
    }
}

#[test]
fn cold_cells_cool_the_cells_above() {
    let mut fire = DoomFire::new(4, 3);
    // Every draw is 2: hot cells land straight above their neighbour to the
    // left, with no decay; cold cells of row 1 cool row 0.
    fire.update(&[2, 2, 2, 2, 2, 2, 2, 2]);
    let levels = fire.levels();
    assert_eq!(&levels[0..4], &[0, 0, 0, 0][..]);
    assert_eq!(&levels[8..12], &[36, 36, 36, 36][..]);
}

#[test]
fn single_row_update_changes_nothing() {
    let mut fire = DoomFire::new(5, 1);
    let before = fire.levels().to_vec();
    fire.update(&[]);
    assert_eq!(fire.levels(), &before[..]);
    assert_eq!(fire.levels(), &[36, 36, 36, 36, 36][..]);
}

#[test]
fn fuel_only_grid_renders_white() {
    let fire = DoomFire::new(3, 1);
    let mut frame = vec![0u8; 12];
    assert_eq!(fire.draw_to_byte_slice(&mut frame), Ok(()));
    assert_eq!(frame, vec![0xFF; 12]);
}

#[test]
fn cold_cells_render_near_black() {
    let fire = DoomFire::new(4, 3);
    let mut frame = vec![0u8; 48];
    assert_eq!(fire.draw_to_byte_slice(&mut frame), Ok(()));
    for cell in frame[..32].chunks(4) {
        assert_eq!(cell, &[0x07, 0x07, 0x07, 0xFF][..]);
    }
    assert!(frame[32..].iter().all(|&b| b == 0xFF));
}

#[test]
fn rendering_follows_the_palette() {
    let mut fire = DoomFire::new(4, 3);
    fire.update(&[0, 1, 2, 3, 1, 2, 0, 3]);
    let mut frame = vec![0u8; 48];
    assert_eq!(fire.draw_to_byte_slice(&mut frame), Ok(()));
    // Cell 1 is at level 35.
    assert_eq!(&frame[4..8], &[0xEF, 0xEF, 0xC7, 0xFF][..]);
    assert_eq!(&frame[0..4], &[0x07, 0x07, 0x07, 0xFF][..]);
}

#[test]
fn short_frame_is_rejected_untouched() {
    let fire = DoomFire::new(4, 3);
    let mut frame = vec![0xAAu8; 47];
    assert_eq!(
        fire.draw_to_byte_slice(&mut frame),
        Err(DrawError::LengthMismatch {
            expected: 48,
            actual: 47
        })
    );
    assert!(frame.iter().all(|&b| b == 0xAA));
}

#[test]
fn long_frame_is_rejected_untouched() {
    let fire = DoomFire::new(2, 2);
    let mut frame = vec![0x55u8; 20];
    assert_eq!(
        fire.draw_to_byte_slice(&mut frame),
        Err(DrawError::LengthMismatch {
            expected: 16,
            actual: 20
        })
    );
    assert!(frame.iter().all(|&b| b == 0x55));
}

#[test]
fn palette_ends() {
    assert_eq!(pallet(0), [0x07, 0x07, 0x07, 0xFF]);
    assert_eq!(pallet(13), [0xDF, 0x57, 0x07, 0xFF]);
    assert_eq!(pallet(36), [0xFF, 0xFF, 0xFF, 0xFF]);
}

#[test]
fn pixels_carry_positions_and_rgb565_colors() {
    let mut fire = DoomFire::new(4, 3);
    let px = fire.pixels();
    assert_eq!(px.len(), 12);
    assert_eq!(px[0], FirePixel { x: 0, y: 0, color: 0x0841 });
    assert_eq!(px[6], FirePixel { x: 2, y: 1, color: 0x0841 });
    assert_eq!(px[11], FirePixel { x: 3, y: 2, color: 0xFFFF });
    fire.update(&[0, 1, 2, 3, 1, 2, 0, 3]);
    let px = fire.pixels();
    // Level 35 is EF EF C7: red 29, green 59, blue 24.
    assert_eq!(px[1], FirePixel { x: 1, y: 0, color: (29 << 11) | (59 << 5) | 24 });
}
