//! Tests for the tile-selection engine.

use hex_substrate::selection::select_tiles;
use hex_substrate::ActionInputs;
use hex_substrate::AreaSelection;
use hex_substrate::LineSelection;
use hex_substrate::SelectedTiles;
use hex_substrate::TilePos;

fn no_inputs() -> ActionInputs {
    ActionInputs {
        select: false,
        deselect: false,
        multiple: false,
        area: false,
        line: false,
        select_just_released: false,
        deselect_just_released: false,
    }
}

#[test]
fn simple_selection() {
    let mut selected_tiles = SelectedTiles::default();
    let tile_pos = TilePos::default();

    selected_tiles.add_tile(tile_pos);
    assert!(selected_tiles.contains_tile(tile_pos));
    assert!(!selected_tiles.is_empty());
    assert_eq!(selected_tiles.selection().len(), 1);

    selected_tiles.remove_tile(tile_pos);
    assert!(!selected_tiles.contains_tile(tile_pos));
    assert!(selected_tiles.is_empty());
    assert_eq!(selected_tiles.selection().len(), 0);
}

#[test]
fn multi_select() {
    let mut selected_tiles = SelectedTiles::default();

    selected_tiles.add_tile(TilePos::new(1, 1));
    // Intentionally doubled
    selected_tiles.add_tile(TilePos::new(1, 1));
    selected_tiles.add_tile(TilePos::new(2, 2));
    selected_tiles.add_tile(TilePos::new(3, 3));

    assert_eq!(selected_tiles.selection().len(), 3);
}

#[test]
fn clear_selection() {
    let mut selected_tiles = SelectedTiles::default();
    selected_tiles.add_tile(TilePos::new(1, 1));
    selected_tiles.add_tile(TilePos::new(2, 2));
    selected_tiles.add_tile(TilePos::new(3, 3));

    assert_eq!(selected_tiles.selection().len(), 3);
    selected_tiles.clear_selection();
    assert_eq!(selected_tiles.selection().len(), 0);
}

#[test]
fn new_selection_is_empty() {
    let selected_tiles = SelectedTiles::default();
    assert!(selected_tiles.is_empty());
    assert_eq!(selected_tiles.selection().len(), 0);
    assert_eq!(selected_tiles.hovered().len(), 0);
}

#[test]
fn absent_cursor_skips_the_tick() {
    let mut selected_tiles = SelectedTiles::default();
    let mut area = AreaSelection::default();
    let mut line = LineSelection::default();
    selected_tiles.add_tile(TilePos::new(1, 0));

    let actions = ActionInputs { select: true, ..no_inputs() };
    select_tiles(None, &mut selected_tiles, &actions, &mut area, &mut line);

    assert_eq!(selected_tiles.selection().len(), 1);
    assert!(selected_tiles.contains_tile(TilePos::new(1, 0)));
    assert_eq!(selected_tiles.hovered().len(), 0);
}

#[test]
fn point_select_paints_the_cursor_tile() {
    let mut selected_tiles = SelectedTiles::default();
    let mut area = AreaSelection::default();
    let mut line = LineSelection::default();

    let actions = ActionInputs { select: true, ..no_inputs() };
    let cursor = TilePos::new(2, -1);
    select_tiles(Some(cursor), &mut selected_tiles, &actions, &mut area, &mut line);

    assert_eq!(selected_tiles.selection().len(), 1);
    assert!(selected_tiles.contains_tile(cursor));
    assert_eq!(selected_tiles.hovered().len(), 1);
    assert!(selected_tiles.hovered().contains(cursor));
}

#[test]
fn area_drag_grows_ring_hover_and_hexagon_selection() {
    let mut selected_tiles = SelectedTiles::default();
    let mut area = AreaSelection::default();
    let mut line = LineSelection::default();

    let actions = ActionInputs { select: true, area: true, ..no_inputs() };
    let anchor = TilePos::new(0, 0);

    // The gesture arms at the anchor with radius zero.
    select_tiles(Some(anchor), &mut selected_tiles, &actions, &mut area, &mut line);
    assert_eq!(selected_tiles.hovered().len(), 1);
    assert_eq!(selected_tiles.selection().len(), 1);

    // Dragging three steps East grows the radius to three.
    for step in 1..=3isize {
        let cursor = TilePos::new(step, 0);
        select_tiles(Some(cursor), &mut selected_tiles, &actions, &mut area, &mut line);

        // Hover previews only the outline ring plus the center.
        assert_eq!(selected_tiles.hovered().len(), (1 + 6 * step) as usize);
        assert!(selected_tiles.hovered().contains(anchor));
        assert!(selected_tiles.hovered().contains(TilePos::new(step, 0)));
        assert!(!selected_tiles.hovered().contains(TilePos::new(step - 1, 0)) || step == 1);

        // Each held tick paints the filled hexagon of the current radius.
        assert_eq!(
            selected_tiles.selection().len(),
            (1 + 3 * step * (step + 1)) as usize
        );
        assert!(selected_tiles.contains_tile(anchor));
        assert!(selected_tiles.contains_tile(TilePos::new(step, 0)));
    }
}

#[test]
fn line_release_commits_the_thick_line_once() {
    let mut selected_tiles = SelectedTiles::default();
    let mut area = AreaSelection::default();
    let mut line = LineSelection::default();

    // Line held together with area: the default committed radius of one
    // gives the line a thickness of one.
    let held = ActionInputs { line: true, area: true, ..no_inputs() };
    let start = TilePos::new(0, 0);
    select_tiles(Some(start), &mut selected_tiles, &held, &mut area, &mut line);
    assert!(selected_tiles.is_empty());

    // Dragging to a tile four steps away and releasing select commits the
    // thick line: five hexagons of seven tiles each, overlapping into
    // nineteen distinct tiles, each exactly once.
    let released = ActionInputs {
        line: true,
        area: true,
        select_just_released: true,
        ..no_inputs()
    };
    let end = TilePos::new(4, 0);
    select_tiles(Some(end), &mut selected_tiles, &released, &mut area, &mut line);

    assert_eq!(selected_tiles.selection().len(), 19);
    for step in 0..=4isize {
        assert!(selected_tiles.contains_tile(TilePos::new(step, 0)));
        assert!(selected_tiles.contains_tile(TilePos::new(step, -1)));
        assert!(selected_tiles.contains_tile(TilePos::new(step - 1, 1)));
    }
}

#[test]
fn conflicting_inputs_leave_selection_untouched() {
    let mut selected_tiles = SelectedTiles::default();
    let mut area = AreaSelection::default();
    let mut line = LineSelection::default();
    selected_tiles.add_tile(TilePos::new(3, -3));
    selected_tiles.add_tile(TilePos::new(1, 2));

    let actions = ActionInputs { select: true, deselect: true, ..no_inputs() };
    let cursor = TilePos::new(0, 0);
    select_tiles(Some(cursor), &mut selected_tiles, &actions, &mut area, &mut line);

    // The selection is unchanged, but the hover was still recomputed.
    assert_eq!(selected_tiles.selection().len(), 2);
    assert!(selected_tiles.contains_tile(TilePos::new(3, -3)));
    assert!(selected_tiles.contains_tile(TilePos::new(1, 2)));
    assert_eq!(selected_tiles.hovered().len(), 1);
    assert!(selected_tiles.hovered().contains(cursor));
}

#[test]
fn select_without_multiple_replaces_prior_selection() {
    let mut selected_tiles = SelectedTiles::default();
    let mut area = AreaSelection::default();
    let mut line = LineSelection::default();
    selected_tiles.add_tile(TilePos::new(5, -5));
    selected_tiles.add_tile(TilePos::new(4, 0));
    assert!(!selected_tiles.is_empty());

    let actions = ActionInputs { select: true, ..no_inputs() };
    let cursor = TilePos::new(-2, 2);
    select_tiles(Some(cursor), &mut selected_tiles, &actions, &mut area, &mut line);

    assert_eq!(selected_tiles.selection().len(), 1);
    assert!(selected_tiles.contains_tile(cursor));
    assert!(!selected_tiles.contains_tile(TilePos::new(5, -5)));
    assert!(!selected_tiles.contains_tile(TilePos::new(4, 0)));
}

#[test]
fn select_with_multiple_extends_prior_selection() {
    let mut selected_tiles = SelectedTiles::default();
    let mut area = AreaSelection::default();
    let mut line = LineSelection::default();
    selected_tiles.add_tile(TilePos::new(5, -5));

    let actions = ActionInputs { select: true, multiple: true, ..no_inputs() };
    let cursor = TilePos::new(-2, 2);
    select_tiles(Some(cursor), &mut selected_tiles, &actions, &mut area, &mut line);

    assert_eq!(selected_tiles.selection().len(), 2);
    assert!(selected_tiles.contains_tile(cursor));
    assert!(selected_tiles.contains_tile(TilePos::new(5, -5)));
}

#[test]
fn bare_deselect_clears_outright() {
    let mut selected_tiles = SelectedTiles::default();
    let mut area = AreaSelection::default();
    let mut line = LineSelection::default();
    selected_tiles.add_tile(TilePos::new(1, 1));
    selected_tiles.add_tile(TilePos::new(2, 0));

    let actions = ActionInputs { deselect: true, ..no_inputs() };
    select_tiles(
        Some(TilePos::new(0, 0)),
        &mut selected_tiles,
        &actions,
        &mut area,
        &mut line,
    );

    assert!(selected_tiles.is_empty());
}

#[test]
fn deselect_release_erases_the_line() {
    let mut selected_tiles = SelectedTiles::default();
    let mut area = AreaSelection::default();
    let mut line = LineSelection::default();
    for step in 0..=4isize {
        selected_tiles.add_tile(TilePos::new(step, 0));
    }
    selected_tiles.add_tile(TilePos::new(-5, 5));

    // Line held without area: thickness zero, so only the line itself.
    let held = ActionInputs { line: true, ..no_inputs() };
    select_tiles(
        Some(TilePos::new(0, 0)),
        &mut selected_tiles,
        &held,
        &mut area,
        &mut line,
    );
    let released = ActionInputs { line: true, deselect_just_released: true, ..no_inputs() };
    select_tiles(
        Some(TilePos::new(4, 0)),
        &mut selected_tiles,
        &released,
        &mut area,
        &mut line,
    );

    assert_eq!(selected_tiles.selection().len(), 1);
    assert!(selected_tiles.contains_tile(TilePos::new(-5, 5)));
}

#[test]
fn line_segments_chain_after_commit() {
    let mut selected_tiles = SelectedTiles::default();
    let mut area = AreaSelection::default();
    let mut line = LineSelection::default();

    // Arm at the origin and commit a thin line to (2, 0).
    let held = ActionInputs { line: true, ..no_inputs() };
    select_tiles(
        Some(TilePos::new(0, 0)),
        &mut selected_tiles,
        &held,
        &mut area,
        &mut line,
    );
    let released = ActionInputs { line: true, select_just_released: true, ..no_inputs() };
    select_tiles(
        Some(TilePos::new(2, 0)),
        &mut selected_tiles,
        &released,
        &mut area,
        &mut line,
    );
    assert_eq!(selected_tiles.selection().len(), 3);

    // The start has moved to the commit point, so the next segment draws
    // from (2, 0) without re-arming.
    select_tiles(
        Some(TilePos::new(2, 2)),
        &mut selected_tiles,
        &released,
        &mut area,
        &mut line,
    );
    assert_eq!(selected_tiles.selection().len(), 5);
    assert!(selected_tiles.contains_tile(TilePos::new(2, 1)));
    assert!(selected_tiles.contains_tile(TilePos::new(2, 2)));
}

#[test]
fn hover_is_replaced_each_tick() {
    let mut selected_tiles = SelectedTiles::default();
    let mut area = AreaSelection::default();
    let mut line = LineSelection::default();

    let actions = no_inputs();
    select_tiles(
        Some(TilePos::new(1, 0)),
        &mut selected_tiles,
        &actions,
        &mut area,
        &mut line,
    );
    select_tiles(
        Some(TilePos::new(0, 1)),
        &mut selected_tiles,
        &actions,
        &mut area,
        &mut line,
    );

    assert_eq!(selected_tiles.hovered().len(), 1);
    assert!(selected_tiles.hovered().contains(TilePos::new(0, 1)));
    assert!(!selected_tiles.hovered().contains(TilePos::new(1, 0)));
}
