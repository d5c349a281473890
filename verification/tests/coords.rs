use led_grid::render_helpers::grid_coord_to_point;
use led_grid::render_helpers::grid_point_to_coord;
use led_grid::render_helpers::tile_id_to_atlas_pixel;
use led_grid::render_helpers::Point;
use led_grid::render_helpers::RenderGrid;

#[test]
fn point_to_coord_is_row_major() {
    assert_eq!(grid_point_to_coord(Point(0, 0), 4), 0);
    assert_eq!(grid_point_to_coord(Point(3, 0), 4), 3);
    assert_eq!(grid_point_to_coord(Point(0, 1), 4), 4);
    assert_eq!(grid_point_to_coord(Point(2, 3), 4), 14);
}

#[test]
fn coord_to_point_inverts_point_to_coord() {
    for y in 0..5usize {
        for x in 0..4usize {
            let c = grid_point_to_coord(Point(x, y), 4);
            let p = grid_coord_to_point(c, 4);
            assert_eq!(p, Point(x, y));
        }
    }
}

#[test]
fn atlas_pixel_for_tile_five_in_a_four_wide_atlas() {
    // tile 5 sits at column 1, row 1, so with 16-pixel cells and no
    // padding or spacing its top-left pixel is (16, 16)
    assert_eq!(tile_id_to_atlas_pixel(5, 4, 16, 0, 0), Point(16, 16));
}

#[test]
fn atlas_pixel_honours_padding_and_spacing() {
    // tile 6 in a 4-wide atlas: column 2, row 1; cell 8, spacing 1, padding 2
    assert_eq!(tile_id_to_atlas_pixel(6, 4, 8, 2, 1), Point(2 + 2 * 9, 2 + 9));
}

#[test]
fn point_from_tuple_and_default() {
    assert_eq!(Point::from((3, 4)), Point(3, 4));
    assert_eq!(Point::default(), Point(0, 0));
}

#[test]
fn new_grid_is_fully_empty() {
    let g = RenderGrid::new(6, Point(16, 16), Point(3, 2));
    assert_eq!(g.tiles.len(), 6);
    for c in &g.tiles {
        assert!(c.is_empty);
        assert_eq!(c.tile_id, 0);
        assert_eq!(c.atlas_pos, Point(0, 0));
    }
}

#[test]
fn get_tile_reads_row_major_cells() {
    let mut g = RenderGrid::new(6, Point(16, 16), Point(3, 2));
    g.tiles[5].tile_id = 42;
    g.tiles[5].is_empty = false;
    assert_eq!(g.get_tile(2, 1).tile_id, 42);
    assert!(g.get_tile(0, 0).is_empty);
}

#[test]
fn rows_cover_the_grid_top_to_bottom() {
    let mut g = RenderGrid::new(6, Point(16, 16), Point(3, 2));
    for (i, cell) in g.tiles.iter_mut().enumerate() {
        cell.tile_id = i;
    }
    let rows = g.rows();
    assert_eq!(rows.len(), 2);
    for (y, row) in rows.iter().enumerate() {
        assert_eq!(row.len(), 3);
        for (x, cell) in row.iter().enumerate() {
            assert_eq!(cell.tile_id, x + y * 3);
        }
    }
    // re-reading gives the same rows: the grid is untouched by iteration
    let again = g.rows();
    assert_eq!(again.len(), 2);
    assert_eq!(again[1][2].tile_id, 5);
}
