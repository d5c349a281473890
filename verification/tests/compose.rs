use led_grid::render_helpers::ComposeError;
use led_grid::render_helpers::Point;
use led_grid::render_helpers::RenderGrid;
use led_grid::render_helpers::ToRenderGrid;
use led_grid::AutoTileRule;
use led_grid::GridTile;
use led_grid::LayerInstance;
use led_grid::Level;
use led_grid::Project;

fn tile(coord_id: usize, tile_id: usize, tile_x: usize, tile_y: usize) -> GridTile {
    GridTile { coord_id, tile_id, flips: None, tile_x, tile_y }
}

fn layer(
    grid_width: usize,
    grid_height: usize,
    auto_tiles: Vec<AutoTileRule>,
    grid_tiles: Vec<GridTile>,
) -> LayerInstance {
    LayerInstance {
        identifer: String::new(),
        layer_type: String::from("Tiles"),
        grid_width,
        grid_height,
        level_id: 0,
        layer_def_uid: 0,
        px_offset_x: 0,
        px_offset_y: 0,
        seed: 0,
        int_grid: Vec::new(),
        auto_tiles,
        grid_tiles,
        entity_instances: Vec::new(),
    }
}

fn project(levels: Vec<Level>) -> Project {
    Project {
        project_file_path: None,
        project_dir: None,
        name: String::from("test"),
        bg_color: String::from("#FFFFFF"),
        json_version: String::from("1"),
        default_pivot_x_bits: 0,
        default_pivot_y_bits: 0,
        levels,
    }
}

fn level(layer_instances: Vec<LayerInstance>) -> Level {
    Level { identifier: String::from("L"), px_wid: 0, px_hei: 0, layer_instances }
}

fn compose(p: &Project, idx: usize) -> Result<RenderGrid, ComposeError> {
    p.to_merged_render_grid(idx)
}

#[test]
fn one_explicit_tile_fills_one_cell() {
    // 2x1 grid, one layer, one explicit tile at coord 0 with tile_id 5
    let p = project(vec![level(vec![layer(2, 1, vec![], vec![tile(0, 5, 2, 3)])])]);
    let g = compose(&p, 0).unwrap();
    assert_eq!(g.tiles.len(), 2);
    assert!(!g.tiles[0].is_empty);
    assert_eq!(g.tiles[0].tile_id, 5);
    assert_eq!(g.tiles[0].atlas_pos, Point(2, 3));
    assert!(g.tiles[1].is_empty);
    assert_eq!(g.tiles[1].tile_id, 0);
    assert_eq!(g.tile_size, Point(16, 16));
    assert_eq!(g.grid_size, Point(2, 1));
}

#[test]
fn first_declared_layer_wins_across_layers() {
    // 1x1 grid; layer 0 writes tile_id 9 via an auto rule, layer 1 writes
    // tile_id 3 via an explicit tile at the same cell: layer 0 wins.
    let l0 = layer(
        1,
        1,
        vec![AutoTileRule { rule_id: 7, tiles: vec![tile(0, 9, 1, 1)] }],
        vec![],
    );
    let l1 = layer(1, 1, vec![], vec![tile(0, 3, 2, 2)]);
    let p = project(vec![level(vec![l0, l1])]);
    let g = compose(&p, 0).unwrap();
    assert_eq!(g.tiles.len(), 1);
    assert_eq!(g.tiles[0].tile_id, 9);
    assert_eq!(g.tiles[0].atlas_pos, Point(1, 1));
}

#[test]
fn explicit_tile_wins_inside_one_layer() {
    // One layer writes the same cell by an auto rule and an explicit tile:
    // the explicit tile's value stays.
    let l0 = layer(
        1,
        1,
        vec![AutoTileRule { rule_id: 0, tiles: vec![tile(0, 9, 1, 1)] }],
        vec![tile(0, 3, 2, 4)],
    );
    let p = project(vec![level(vec![l0])]);
    let g = compose(&p, 0).unwrap();
    assert_eq!(g.tiles[0].tile_id, 3);
    assert_eq!(g.tiles[0].atlas_pos, Point(2, 4));
}

#[test]
fn explicit_tile_atlas_row_comes_from_tile_y() {
    // The vertical atlas coordinate of an explicit tile is its true row
    // field, also where row and column differ.
    let p = project(vec![level(vec![layer(1, 1, vec![], vec![tile(0, 5, 7, 11)])])]);
    let g = compose(&p, 0).unwrap();
    assert_eq!(g.tiles[0].atlas_pos, Point(7, 11));
}

#[test]
fn later_rules_overwrite_earlier_rules_in_a_layer() {
    let l0 = layer(
        1,
        1,
        vec![
            AutoTileRule { rule_id: 0, tiles: vec![tile(0, 1, 0, 0)] },
            AutoTileRule { rule_id: 1, tiles: vec![tile(0, 2, 5, 6)] },
        ],
        vec![],
    );
    let p = project(vec![level(vec![l0])]);
    let g = compose(&p, 0).unwrap();
    assert_eq!(g.tiles[0].tile_id, 2);
    assert_eq!(g.tiles[0].atlas_pos, Point(5, 6));
}

#[test]
fn untouched_cells_stay_empty() {
    // 3x2 grid with writes at coords 1 and 4 only
    let l0 = layer(3, 2, vec![], vec![tile(1, 8, 0, 0), tile(4, 9, 1, 0)]);
    let p = project(vec![level(vec![l0])]);
    let g = compose(&p, 0).unwrap();
    assert_eq!(g.tiles.len(), 6);
    for c in [0usize, 2, 3, 5] {
        assert!(g.tiles[c].is_empty);
        assert_eq!(g.tiles[c].tile_id, 0);
        assert_eq!(g.tiles[c].atlas_pos, Point(0, 0));
    }
    assert_eq!(g.tiles[1].tile_id, 8);
    assert_eq!(g.tiles[4].tile_id, 9);
}

#[test]
fn out_of_range_level_index_is_not_found() {
    // Scenario: index 5 on a project with 2 levels
    let p = project(vec![
        level(vec![layer(1, 1, vec![], vec![])]),
        level(vec![layer(1, 1, vec![], vec![])]),
    ]);
    match compose(&p, 5) {
        Err(ComposeError::LevelNotFound { requested, available }) => {
            assert_eq!(requested, 5);
            assert_eq!(available, 2);
        }
        _ => panic!("expected a not-found error"),
    }
}

#[test]
fn level_without_layers_is_reported() {
    let p = project(vec![level(vec![])]);
    match compose(&p, 0) {
        Err(ComposeError::EmptyLevel { requested }) => assert_eq!(requested, 0),
        _ => panic!("expected an empty-level error"),
    }
}

#[test]
fn composing_twice_is_identical() {
    let l0 = layer(
        2,
        2,
        vec![AutoTileRule { rule_id: 0, tiles: vec![tile(0, 4, 1, 2), tile(3, 6, 0, 1)] }],
        vec![tile(1, 7, 3, 3)],
    );
    let l1 = layer(2, 2, vec![], vec![tile(0, 2, 9, 9), tile(2, 5, 4, 4)]);
    let p = project(vec![level(vec![l0, l1])]);
    let g1 = compose(&p, 0).unwrap();
    let g2 = compose(&p, 0).unwrap();
    assert_eq!(g1.tiles.len(), g2.tiles.len());
    for (a, b) in g1.tiles.iter().zip(g2.tiles.iter()) {
        assert_eq!(a, b);
    }
    assert_eq!(g1.tile_size, g2.tile_size);
    assert_eq!(g1.grid_size, g2.grid_size);
}

#[test]
fn second_level_composes_independently() {
    let p = project(vec![
        level(vec![layer(1, 1, vec![], vec![tile(0, 1, 0, 0)])]),
        level(vec![layer(1, 1, vec![], vec![tile(0, 2, 0, 0)])]),
    ]);
    assert_eq!(compose(&p, 0).unwrap().tiles[0].tile_id, 1);
    assert_eq!(compose(&p, 1).unwrap().tiles[0].tile_id, 2);
}
