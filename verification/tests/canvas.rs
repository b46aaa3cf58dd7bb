use raycaster::canvas::PixelBuffer;

fn painted(buffer: &PixelBuffer, colour: u32) -> Vec<(u32, u32)> {
    let mut found = Vec::new();
    for y in 0..buffer.height {
        for x in 0..buffer.width {
            if buffer.data[(y * buffer.width + x) as usize] == colour {
                found.push((x, y));
            }
        }
    }
    found
}

#[test]
fn buffer_starts_cleared() {
    let buffer = PixelBuffer::new(7, 5).unwrap();
    assert_eq!(buffer.width, 7);
    assert_eq!(buffer.height, 5);
    assert_eq!(buffer.data, vec![0u32; 35]);
    let empty = PixelBuffer::new(0, 9).unwrap();
    assert!(empty.data.is_empty());
}

#[test]
fn set_pixel_writes_row_major() {
    let mut buffer = PixelBuffer::new(4, 3).unwrap();
    buffer.set_pixel(1, 2, 0xaabbccdd);
    buffer.set_pixel(3, 0, 5);
    let mut expected = vec![0u32; 12];
    expected[2 * 4 + 1] = 0xaabbccdd;
    expected[3] = 5;
    assert_eq!(buffer.data, expected);
}

#[test]
fn set_pixel_skips_what_lies_outside() {
    let mut buffer = PixelBuffer::new(4, 3).unwrap();
    buffer.set_pixel(-1, 0, 9);
    buffer.set_pixel(0, -1, 9);
    buffer.set_pixel(4, 0, 9);
    buffer.set_pixel(0, 3, 9);
    buffer.set_pixel(i64::MAX, i64::MIN, 9);
    assert_eq!(buffer.data, vec![0u32; 12]);
}

#[test]
fn draw_run_includes_both_ends_and_clips() {
    let mut buffer = PixelBuffer::new(6, 2).unwrap();
    buffer.draw_run(2, 4, 1, 3);
    assert_eq!(painted(&buffer, 3), vec![(2, 1), (3, 1), (4, 1)]);
    buffer.draw_run(-10, 1, 0, 8);
    buffer.draw_run(5, i64::MAX, 0, 8);
    assert_eq!(painted(&buffer, 8), vec![(0, 0), (1, 0), (5, 0)]);
    buffer.draw_run(4, 2, 0, 1);
    buffer.draw_run(0, 5, 2, 1);
    buffer.draw_run(0, 5, -1, 1);
    assert!(painted(&buffer, 1).is_empty());
}

#[test]
fn fill_rect_paints_width_times_height_pixels() {
    let mut buffer = PixelBuffer::new(8, 6).unwrap();
    buffer.fill_rect(2, 1, 3, 2, 7);
    assert_eq!(painted(&buffer, 7), vec![(2, 1), (3, 1), (4, 1), (2, 2), (3, 2), (4, 2)]);
}

#[test]
fn fill_rect_clips_and_ignores_empty_sizes() {
    let mut buffer = PixelBuffer::new(4, 4).unwrap();
    buffer.fill_rect(-2, -2, 3, 3, 1);
    assert_eq!(painted(&buffer, 1), vec![(0, 0)]);
    buffer.fill_rect(3, 3, i64::MAX, i64::MAX, 2);
    assert_eq!(painted(&buffer, 2), vec![(3, 3)]);
    buffer.fill_rect(0, 0, 0, 4, 5);
    buffer.fill_rect(0, 0, 4, -1, 5);
    buffer.fill_rect(i64::MIN, 0, 4, 4, 5);
    assert!(painted(&buffer, 5).is_empty());
}

#[test]
fn clear_zeroes_every_pixel() {
    let mut buffer = PixelBuffer::new(5, 5).unwrap();
    buffer.fill_rect(0, 0, 5, 5, 0xffffffff);
    assert_eq!(painted(&buffer, 0xffffffff).len(), 25);
    buffer.clear();
    assert_eq!(buffer.data, vec![0u32; 25]);
}

#[test]
fn line_of_thickness_one_follows_the_stepper() {
    let mut buffer = PixelBuffer::new(8, 8).unwrap();
    buffer.draw_line(0, 0, 3, 1, 1, 9);
    assert_eq!(painted(&buffer, 9), vec![(0, 0), (1, 0), (2, 1), (3, 1)]);
}

#[test]
fn line_runs_in_every_direction() {
    let mut buffer = PixelBuffer::new(8, 8).unwrap();
    buffer.draw_line(5, 2, 1, 2, 1, 1);
    assert_eq!(painted(&buffer, 1), vec![(1, 2), (2, 2), (3, 2), (4, 2), (5, 2)]);
    buffer.draw_line(6, 6, 6, 3, 1, 2);
    assert_eq!(painted(&buffer, 2), vec![(6, 3), (6, 4), (6, 5), (6, 6)]);
    buffer.draw_line(3, 7, 0, 4, 1, 3);
    assert_eq!(painted(&buffer, 3), vec![(0, 4), (1, 5), (2, 6), (3, 7)]);
}

#[test]
fn line_between_equal_points_is_one_stamp() {
    let mut buffer = PixelBuffer::new(8, 8).unwrap();
    buffer.draw_line(4, 4, 4, 4, 1, 6);
    assert_eq!(painted(&buffer, 6), vec![(4, 4)]);
    buffer.draw_line(2, 2, 2, 2, 2, 7);
    assert_eq!(painted(&buffer, 7), vec![(1, 1), (2, 1), (1, 2), (2, 2)]);
}

#[test]
fn thick_line_stamps_a_square_at_every_point() {
    let mut buffer = PixelBuffer::new(8, 8).unwrap();
    buffer.draw_line(2, 2, 4, 2, 2, 5);
    assert_eq!(
        painted(&buffer, 5),
        vec![(1, 1), (2, 1), (3, 1), (4, 1), (1, 2), (2, 2), (3, 2), (4, 2)]
    );
    let mut other = PixelBuffer::new(8, 8).unwrap();
    other.draw_line(3, 3, 3, 3, 3, 5);
    assert_eq!(
        painted(&other, 5),
        vec![(2, 2), (3, 2), (4, 2), (2, 3), (3, 3), (4, 3), (2, 4), (3, 4), (4, 4)]
    );
}

#[test]
fn line_without_thickness_paints_nothing() {
    let mut buffer = PixelBuffer::new(8, 8).unwrap();
    buffer.draw_line(0, 0, 7, 7, 0, 5);
    buffer.draw_line(0, 0, 7, 7, -3, 5);
    assert_eq!(buffer.data, vec![0u32; 64]);
}

#[test]
fn line_is_clipped_to_the_buffer() {
    let mut buffer = PixelBuffer::new(4, 4).unwrap();
    buffer.draw_line(-3, 1, 6, 1, 1, 4);
    assert_eq!(painted(&buffer, 4), vec![(0, 1), (1, 1), (2, 1), (3, 1)]);
}

#[test]
fn line_keeps_other_pixels() {
    let mut buffer = PixelBuffer::new(4, 4).unwrap();
    buffer.fill_rect(0, 0, 4, 4, 1);
    buffer.draw_line(0, 0, 3, 3, 1, 2);
    assert_eq!(painted(&buffer, 2), vec![(0, 0), (1, 1), (2, 2), (3, 3)]);
    assert_eq!(painted(&buffer, 1).len(), 12);
}

#[test]
fn circle_of_radius_three_has_the_midpoint_shape() {
    let mut buffer = PixelBuffer::new(11, 11).unwrap();
    buffer.draw_filled_circle(5, 5, 3, 1);
    let rows: Vec<String> = (0..11)
        .map(|y| (0..11).map(|x| if buffer.data[y * 11 + x] == 1 { '#' } else { '.' }).collect())
        .collect();
    let expected = vec![
        "...........",
        "...........",
        "....###....",
        "...#####...",
        "..#######..",
        "..#######..",
        "..#######..",
        "...#####...",
        "....###....",
        "...........",
        "...........",
    ];
    assert_eq!(rows, expected);
    assert_eq!(painted(&buffer, 1).len(), 37);
}

#[test]
fn circle_of_radius_zero_is_its_centre() {
    let mut buffer = PixelBuffer::new(5, 5).unwrap();
    buffer.draw_filled_circle(2, 3, 0, 8);
    assert_eq!(painted(&buffer, 8), vec![(2, 3)]);
}

#[test]
fn circle_is_clipped_to_the_buffer() {
    let mut buffer = PixelBuffer::new(4, 4).unwrap();
    buffer.draw_filled_circle(0, 0, 2, 3);
    assert_eq!(painted(&buffer, 3), vec![(0, 0), (1, 0), (2, 0), (0, 1), (1, 1), (2, 1), (0, 2), (1, 2)]);
    buffer.draw_filled_circle(100, 100, 3, 4);
    assert!(painted(&buffer, 4).is_empty());
}
