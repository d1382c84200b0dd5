use std::collections::VecDeque;

use playastation::render::software::{
    copy_vram_from_upload_buf, cross2, draw_triangle, polygon_triangles, pop_pixel, triangle_fits,
    VRAM_LEN, VRAM_WIDTH,
};
use playastation::render::types::{Location, Position, Size, Vertex};

fn loc(x: i16, y: i16) -> Location {
    Location { x, y }
}

fn vertex(x: i16, y: i16) -> Vertex {
    Vertex {
        location: loc(x, y),
        color: None,
        texcords: None,
    }
}

#[test]
fn cross2_is_twice_the_signed_area() {
    assert_eq!(cross2(loc(0, 0), loc(4, 0), loc(0, 4)), -16);
    assert_eq!(cross2(loc(0, 0), loc(0, 4), loc(4, 0)), 16);
    assert_eq!(cross2(loc(1, 1), loc(3, 3), loc(5, 5)), 0);
}

#[test]
fn pop_pixel_walks_the_area_row_by_row() {
    let mut vram = vec![0u16; VRAM_LEN];
    vram[10 * VRAM_WIDTH + 20] = 1;
    vram[10 * VRAM_WIDTH + 21] = 2;
    vram[11 * VRAM_WIDTH + 20] = 3;
    vram[11 * VRAM_WIDTH + 21] = 4;
    let pos = Position { x: 20, y: 10 };
    let size = Size { w: 2, h: 2 };
    let mut counter = 0u16;
    let got: Vec<Option<u16>> = (0..5)
        .map(|_| pop_pixel(&vram, pos, size, &mut counter))
        .collect();
    assert_eq!(got, vec![Some(1), Some(2), Some(3), Some(4), None]);
    assert_eq!(counter, 4);

    // Outside VRAM there is no pixel, but the counter moves on.
    let mut counter = 0u16;
    assert_eq!(
        pop_pixel(&vram, Position { x: 1023, y: 0 }, Size { w: 2, h: 1 }, &mut counter),
        Some(0)
    );
    assert_eq!(
        pop_pixel(&vram, Position { x: 1023, y: 0 }, Size { w: 2, h: 1 }, &mut counter),
        None
    );
    assert_eq!(counter, 2);
}

#[test]
fn polygons_split_into_triangles() {
    let tri = [vertex(0, 0), vertex(1, 0), vertex(0, 1)];
    assert_eq!(polygon_triangles(&tri).len(), 1);
    let quad = [vertex(0, 0), vertex(1, 0), vertex(0, 1), vertex(1, 1)];
    let t = polygon_triangles(&quad);
    assert_eq!(t.len(), 2);
    assert_eq!(t[1][0].location, loc(1, 0));
    assert_eq!(t[1][2].location, loc(1, 1));
    assert!(polygon_triangles(&quad[..2]).is_empty());
}

#[test]
fn upload_fills_rectangle_and_pads_with_black() {
    let mut vram = vec![7u16; VRAM_LEN];
    let mut data: VecDeque<u16> = VecDeque::from(vec![1, 2, 3]);
    copy_vram_from_upload_buf(&mut vram, &mut data, Position { x: 5, y: 2 }, Size { w: 2, h: 2 });
    assert_eq!(vram[2 * VRAM_WIDTH + 5], 1);
    assert_eq!(vram[2 * VRAM_WIDTH + 6], 2);
    assert_eq!(vram[3 * VRAM_WIDTH + 5], 3);
    assert_eq!(vram[3 * VRAM_WIDTH + 6], 0);
    assert_eq!(vram[2 * VRAM_WIDTH + 7], 7);
    assert!(data.is_empty());
}

#[test]
fn triangle_is_rasterized_inside_its_box() {
    let mut vram = vec![0u16; VRAM_LEN];
    let area = (Position { x: 0, y: 0 }, Position { x: 1023, y: 511 });
    draw_triangle(
        &mut vram,
        area,
        loc(10, 10),
        [vertex(0, 0), vertex(4, 0), vertex(0, 4)],
    );
    let at = |x: usize, y: usize| vram[y * VRAM_WIDTH + x];
    assert_eq!(at(10, 10), 0xFFFF);
    assert_eq!(at(14, 10), 0xFFFF);
    assert_eq!(at(10, 14), 0xFFFF);
    assert_eq!(at(12, 12), 0xFFFF);
    assert_eq!(at(13, 13), 0);
    assert_eq!(at(15, 10), 0);
    assert_eq!(at(9, 10), 0);
    let painted = vram.iter().filter(|p| **p == 0xFFFF).count();
    assert_eq!(painted, 15);

    // A triangle of no area paints nothing.
    let mut vram = vec![0u16; VRAM_LEN];
    draw_triangle(
        &mut vram,
        area,
        loc(0, 0),
        [vertex(1, 1), vertex(2, 2), vertex(3, 3)],
    );
    assert!(vram.iter().all(|p| *p == 0));

    // The drawing area clips the box.
    let mut vram = vec![0u16; VRAM_LEN];
    draw_triangle(
        &mut vram,
        (Position { x: 0, y: 0 }, Position { x: 1, y: 1 }),
        loc(0, 0),
        [vertex(0, 0), vertex(4, 0), vertex(0, 4)],
    );
    assert_eq!(vram.iter().filter(|p| **p == 0xFFFF).count(), 4);
}

#[test]
fn triangle_fits_checks_range() {
    let area = (Position { x: 0, y: 0 }, Position { x: 1023, y: 511 });
    let tri = [vertex(0, 0), vertex(4, 0), vertex(0, 4)];
    assert!(triangle_fits(VRAM_LEN, area, loc(10, 10), tri));
    // Inside pixels at negative coordinates cannot be drawn.
    let wide = (Position { x: 0xFFF0, y: 0 }, Position { x: 1023, y: 511 });
    assert!(!triangle_fits(VRAM_LEN, wide, loc(-2, 0), tri));
    // The offset overflows 16 bits.
    assert!(!triangle_fits(VRAM_LEN, area, loc(i16::MAX, 0), [vertex(1, 0), vertex(4, 0), vertex(0, 4)]));
    // The drawing area is empty the wrong way round.
    let upside = (Position { x: 10, y: 0 }, Position { x: 5, y: 511 });
    assert!(!triangle_fits(VRAM_LEN, upside, loc(0, 0), tri));
    // A triangle without area fits whatever the box.
    assert!(triangle_fits(0, area, loc(0, 0), [vertex(1, 1), vertex(2, 2), vertex(3, 3)]));
}
