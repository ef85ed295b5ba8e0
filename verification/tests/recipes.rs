//! Tests for recipes and their textual rendering.

use hex_substrate::Duration;
use hex_substrate::Energy;
use hex_substrate::Id;
use hex_substrate::ItemCount;
use hex_substrate::RecipeData;

#[test]
fn should_display_inputs_outputs_craft_time() {
    let recipe = RecipeData::new(
        Vec::new(),
        vec![ItemCount::one(Id::acacia_leaf())],
        Duration::from_secs(1),
        Some(Energy(20)),
    );

    assert_eq!(recipe.to_display_string(), "[] -> [acacia_leaf (1)] | 1.00 s")
}

#[test]
fn display_joins_inputs_with_commas() {
    let recipe = RecipeData::new(
        vec![ItemCount::one(Id::acacia_leaf()), ItemCount::one(Id::leuco_chunk())],
        vec![ItemCount::one(Id::ant_egg())],
        Duration::from_millis(2500),
        None,
    );

    assert_eq!(
        recipe.to_display_string(),
        "[acacia_leaf (1), leuco_chunk (1)] -> [ant_egg (1)] | 2.50 s"
    );
}

#[test]
fn display_pads_fractional_seconds() {
    let recipe = RecipeData::new(Vec::new(), Vec::new(), Duration::from_millis(3042), None);
    assert_eq!(recipe.to_display_string(), "[] -> [] | 3.04 s");
}

#[test]
fn named_production_recipes() {
    let acacia = RecipeData::acacia_leaf_production();
    assert_eq!(acacia.inputs().len(), 0);
    assert_eq!(acacia.outputs().len(), 1);
    assert_eq!(acacia.craft_time().as_millis(), 3000);
    assert_eq!(*acacia.energy(), Some(Energy(20)));

    let leuco = RecipeData::leuco_chunk_production();
    assert_eq!(leuco.inputs().len(), 1);
    assert_eq!(leuco.craft_time().as_millis(), 2000);
    assert_eq!(*leuco.energy(), Some(Energy(40)));

    let eggs = RecipeData::ant_egg_production();
    assert_eq!(eggs.craft_time().as_millis(), 5000);
    assert_eq!(*eggs.energy(), None);

    let hatch = RecipeData::hatch_ants();
    assert_eq!(hatch.outputs().len(), 0);
    assert_eq!(hatch.craft_time().as_millis(), 2000);
    assert_eq!(
        hatch.to_display_string(),
        "[ant_egg (1)] -> [] | 2.00 s"
    );
}
