//! Items, crafting, health, chunks and the smaller machines, on concrete
//! values.

use voxel_server::block::{BlockState, Rotation};
use voxel_server::chunk::{Chunk, CHUNK_VOLUME};
use voxel_server::clock::Clock;
use voxel_server::crafting::{CraftingGrid, Pattern, Recipe, RecipeCollection, Recipes};
use voxel_server::dropped::{try_pickup, DroppedItem, PickupOutcome};
use voxel_server::furnace::{Furnace, SMELT_TIME_US};
use voxel_server::health::{player_hit, FallTracker, Health};
use voxel_server::interact::{GameMode, ItemConfig, Items};
use voxel_server::interface::{
    handle_inventory_interaction, Chest, InterfaceInteraction, InventoryNode,
};
use voxel_server::items::{Equipment, Inventory, ItemStack};
use voxel_server::settings::{hash_seed, parse_settings};
use voxel_server::wheat::Wheat;

fn stack(item: u32, size: u32, capacity: u32) -> ItemStack {
    ItemStack::new(item, size, capacity)
}

#[test]
fn item_stack_transfer_conserves_and_caps() {
    let mut src = stack(7, 10, 64);
    let mut dst = stack(7, 60, 64);
    let moved = src.transfer_to(&mut dst, u32::MAX);
    assert_eq!(moved, 4);
    assert_eq!(src.size, 6);
    assert_eq!(dst.size, 64);

    // Different items do not mix.
    let mut other = stack(9, 5, 64);
    let moved = src.transfer_to(&mut other, u32::MAX);
    assert_eq!(moved, 0);
    assert_eq!(src.size, 6);

    // Emptying collapses to the canonical empty stack.
    let mut empty_dst = ItemStack::new_empty();
    let moved = src.transfer_to(&mut empty_dst, u32::MAX);
    assert_eq!(moved, 6);
    assert!(src.is_empty());
    assert_eq!(src.item, None);
    assert_eq!(src.capacity, 0);
    assert_eq!(empty_dst.item, Some(7));
}

#[test]
fn item_stack_take_splits() {
    let mut s = stack(3, 10, 64);
    let taken = s.take(4);
    assert_eq!(taken.size, 4);
    assert_eq!(taken.item, Some(3));
    assert_eq!(s.size, 6);
    let rest = s.take(u32::MAX);
    assert_eq!(rest.size, 6);
    assert!(s.is_empty());
}

#[test]
fn equip_item_clamps_to_hotbar() {
    let mut inv = Inventory::new();
    assert!(inv.equip_item(8));
    assert_eq!(inv.equipped, 8);
    // Slot nine and up is a protocol violation; the caller disconnects.
    assert!(!inv.equip_item(9));
    assert_eq!(inv.equipped, 8);
}

fn grid_3x3(cells: [Option<(u32, u32)>; 9]) -> CraftingGrid {
    let mut grid = CraftingGrid::with_size(9);
    for (i, cell) in cells.iter().enumerate() {
        if let Some((item, size)) = cell {
            grid.slots[i] = stack(*item, *size, 64);
        }
    }
    grid
}

const PLANK: u32 = 21;

#[test]
fn pattern_normalizes_to_bounding_box() {
    // Plank at row 1 column 0 and row 0 column 1 of a 3x3 grid: the minimal
    // bounding sub-grid is the 2x2 corner with the planks on its diagonal.
    let grid = grid_3x3([
        None,
        Some((PLANK, 1)),
        None,
        Some((PLANK, 1)),
        None,
        None,
        None,
        None,
        None,
    ]);
    let pattern = Pattern::from_grid(&grid).unwrap();
    assert_eq!(pattern.rows.len(), 2);
    assert_eq!(pattern.rows[0], vec![None, Some(PLANK)]);
    assert_eq!(pattern.rows[1], vec![Some(PLANK), None]);
}

#[test]
fn pattern_normalization_is_idempotent() {
    let grid = grid_3x3([
        None,
        Some((PLANK, 2)),
        None,
        Some((PLANK, 3)),
        None,
        None,
        None,
        None,
        None,
    ]);
    let once = Pattern::from_grid(&grid).unwrap();
    let twice = once.normalize();
    assert!(once.matches(&twice));

    // An empty grid normalizes to the empty pattern, stably.
    let empty = grid_3x3([None; 9]);
    let once = Pattern::from_grid(&empty).unwrap();
    assert_eq!(once.rows.len(), 0);
    let twice = once.normalize();
    assert!(once.matches(&twice));
}

#[test]
fn pattern_rejects_non_square_grids() {
    let grid = CraftingGrid::with_size(8);
    assert!(Pattern::from_grid(&grid).is_none());
}

fn wooden_hoe_recipe() -> Recipe {
    // Matches the diagonal plank pattern; one craft eats one plank from each
    // slot and yields one hoe.
    let grid = grid_3x3([
        None,
        Some((PLANK, 1)),
        None,
        Some((PLANK, 1)),
        None,
        None,
        None,
        None,
        None,
    ]);
    let pattern = Pattern::from_grid(&grid).unwrap();
    Recipe {
        pattern,
        required: vec![vec![0, 1], vec![1, 0]],
        output: stack(40, 1, 1),
    }
}

#[test]
fn shaped_crafting_produces_one_hoe_per_unit() {
    let recipe = wooden_hoe_recipe();
    let mut input = grid_3x3([
        None,
        Some((PLANK, 3)),
        None,
        Some((PLANK, 5)),
        None,
        None,
        None,
        None,
        None,
    ]);
    assert_eq!(recipe.get_craftable_amount(&input), 3);
    let crafted = recipe.craft(&mut input, 1).unwrap();
    assert_eq!(crafted.item, Some(40));
    assert_eq!(crafted.size, 1);
    // Each consumed slot lost exactly its required amount.
    assert_eq!(input.slots[1].size, 2);
    assert_eq!(input.slots[3].size, 4);
}

#[test]
fn crafting_conserves_inputs_at_the_craftable_amount() {
    let recipe = wooden_hoe_recipe();
    let mut input = grid_3x3([
        None,
        Some((PLANK, 3)),
        None,
        Some((PLANK, 5)),
        None,
        None,
        None,
        None,
        None,
    ]);
    let k = recipe.get_craftable_amount(&input);
    assert_eq!(k, 3);
    let crafted = recipe.craft(&mut input, k).unwrap();
    // The returned stack carries the full craftable amount, and every input
    // slot went down by its requirement times the crafts made.
    assert_eq!(crafted.size, k);
    assert_eq!(input.slots[1].size, 0);
    assert_eq!(input.slots[3].size, 2);
    // The leftover grid no longer matches the recipe's pattern, so crafting
    // through the collection finds nothing.
    let leftover_pattern = Pattern::from_grid(&input).unwrap();
    assert!(!leftover_pattern.matches(&recipe.pattern));
    let mut collection = RecipeCollection::new();
    collection.insert(recipe);
    assert!(collection.craft(&mut input, 1).is_none());
}

#[test]
fn recipe_collection_crafts_through_pattern_lookup() {
    let mut collection = RecipeCollection::new();
    collection.insert(wooden_hoe_recipe());
    let mut recipes = Recipes::new();
    recipes.insert(String::from("crafting"), collection);

    let collection = recipes.get(&String::from("crafting")).unwrap();
    let mut input = grid_3x3([
        None,
        Some((PLANK, 1)),
        None,
        Some((PLANK, 1)),
        None,
        None,
        None,
        None,
        None,
    ]);
    let output = collection.get_output(&input).unwrap();
    assert_eq!(output.item, Some(40));
    assert_eq!(output.size, 1);
    let crafted = collection.craft(&mut input, 1).unwrap();
    assert_eq!(crafted.size, 1);
    assert!(input.slots[1].is_empty());
    assert!(input.slots[3].is_empty());

    // A grid that matches nothing crafts nothing.
    let mut wrong = grid_3x3([Some((PLANK, 1)), None, None, None, None, None, None, None, None]);
    assert!(collection.craft(&mut wrong, 1).is_none());
    assert!(recipes.get(&String::from("smelting")).is_none());
}

#[test]
fn health_saturates_at_both_ends() {
    let mut h = Health::new_player();
    h.damage(u32::MAX);
    assert_eq!(h.hearts, 0);
    assert!(h.is_dead());
    h.heal(u32::MAX);
    assert_eq!(h.hearts, h.max);
    assert!(!h.is_dead());
    h.damage(7);
    assert_eq!(h.hearts, 13);
    h.heal(2);
    assert_eq!(h.hearts, 15);
    let mut zero = Health::new(0);
    assert!(zero.is_dead());
    zero.heal(0);
    assert!(zero.is_dead());
}

#[test]
fn hits_respect_invincibility_and_death_drops_everything() {
    let mut health = Health::new_player();
    let mut inventory = Inventory::new();
    inventory.slots[0] = stack(1, 5, 64);
    inventory.slots[17] = stack(2, 9, 64);
    let mut equipment = Equipment::new();
    equipment.helmet = stack(3, 1, 1);

    let outcome = player_hit(&mut health, &mut inventory, &mut equipment, 6);
    assert!(outcome.applied);
    assert!(!outcome.died);
    assert_eq!(health.hearts, 14);

    // The invincibility window swallows the second blow.
    let outcome = player_hit(&mut health, &mut inventory, &mut equipment, 6);
    assert!(!outcome.applied);
    assert_eq!(health.hearts, 14);

    health.tick_invincibility(600_000);
    let outcome = player_hit(&mut health, &mut inventory, &mut equipment, 99);
    assert!(outcome.died);
    assert_eq!(outcome.dropped.len(), 3);
    assert!(inventory.slots.iter().all(|s| s.is_empty()));
    assert!(equipment.helmet.is_empty());
}

#[test]
fn fall_tracker_accrues_and_converts_on_landing() {
    let mut tracker = FallTracker::new(0, 0);
    // Fall ten blocks over a tenth of a second: far past the fast bound.
    let damage = tracker.update(-10_000, 100_000);
    assert_eq!(damage, 0);
    assert_eq!(tracker.hearts, 10);
    // Landing (no further descent) converts the accrual beyond three hearts.
    let damage = tracker.update(-10_000, 200_000);
    assert_eq!(damage, 7);
    assert_eq!(tracker.hearts, 0);
}

#[test]
fn uniform_chunk_round_trips_to_uniform() {
    // A dense chunk of all air travels in the three-byte uniform form and
    // comes back uniform with the same id.
    let air = 0u16;
    let dense_air = {
        let mut c = Chunk::new_uniform(1);
        for i in 0..CHUNK_VOLUME {
            c.set(i, air);
        }
        c
    };
    assert!(!dense_air.is_uniform());
    let bytes = dense_air.to_bytes();
    assert_eq!(bytes.len(), 3);
    let back = Chunk::from_bytes(&bytes).unwrap();
    assert!(back.is_uniform());
    for i in 0..CHUNK_VOLUME {
        assert_eq!(back.get(i), air);
    }
}

#[test]
fn dense_chunk_round_trips_to_dense() {
    let mut c = Chunk::new_uniform(5);
    c.set(123, 900);
    let bytes = c.to_bytes();
    assert_eq!(bytes.len(), 1 + 2 * CHUNK_VOLUME);
    let back = Chunk::from_bytes(&bytes).unwrap();
    assert!(!back.is_uniform());
    for i in 0..CHUNK_VOLUME {
        assert_eq!(back.get(i), if i == 123 { 900 } else { 5 });
    }
    // Garbage neither length nor tag decodes.
    assert!(Chunk::from_bytes(&vec![2, 0, 0]).is_none());
    assert!(Chunk::from_bytes(&vec![0, 0]).is_none());
}

#[test]
fn block_state_rotation_round_trips() {
    for quadrant in 0..4u16 {
        let state = BlockState(0b1000_0000 | quadrant);
        let rotation = state.rotation();
        let back = state.with_rotation(rotation);
        assert_eq!(back.0 & 0b11, quadrant);
        assert_eq!(back.0 & !0b11, state.0 & !0b11);
    }
    // The disable bit always decodes to the identity.
    for quadrant in 0..4u16 {
        let state = BlockState(0b100 | quadrant);
        assert_eq!(state.rotation(), Rotation::North);
    }
    assert_eq!(BlockState(1).rotation(), Rotation::East);
    assert_eq!(BlockState(2).rotation(), Rotation::South);
    assert_eq!(BlockState(3).rotation(), Rotation::West);
}

#[test]
fn inventory_interface_moves_items_through_the_cursor() {
    let mut inventory = Inventory::new();
    inventory.slots[9] = stack(4, 20, 64);
    let mut held = ItemStack::new_empty();
    // Main slot zero shows inventory slot nine.
    handle_inventory_interaction(
        &mut inventory,
        &mut held,
        InventoryNode::Main,
        InterfaceInteraction::TakeItem { index: 0, quantity: 5 },
    );
    assert_eq!(held.size, 5);
    assert_eq!(inventory.slots[9].size, 15);
    handle_inventory_interaction(
        &mut inventory,
        &mut held,
        InventoryNode::Hotbar,
        InterfaceInteraction::PlaceItem { index: 2, quantity: 5 },
    );
    assert!(held.is_empty());
    assert_eq!(inventory.slots[2].size, 5);
}

#[test]
fn chest_holds_and_returns_items() {
    let mut chest = Chest::new();
    let mut held = stack(6, 10, 64);
    chest.handle_interaction(
        &mut held,
        InterfaceInteraction::PlaceItem { index: 3, quantity: 4 },
    );
    assert_eq!(chest.inventory[3].size, 4);
    assert_eq!(held.size, 6);
    chest.handle_interaction(
        &mut held,
        InterfaceInteraction::TakeItem { index: 3, quantity: 4 },
    );
    assert_eq!(held.size, 10);
    assert!(chest.inventory[3].is_empty());
}

#[test]
fn furnace_smelts_through_fuel_and_progress() {
    let mut items = Items::new();
    let ore = items
        .insert(
            String::from("iron_ore_chunk"),
            ItemConfig {
                block: None,
                tool_efficiency_milli: 1000,
                damage: 5,
                model_id: 0,
                fuel_us: None,
            },
        )
        .unwrap();
    let coal = items
        .insert(
            String::from("coal_lump"),
            ItemConfig {
                block: None,
                tool_efficiency_milli: 1000,
                damage: 5,
                model_id: 0,
                fuel_us: Some(30_000_000),
            },
        )
        .unwrap();
    let ingot = 77u32;

    // One smelting recipe: one ore in the single crucible slot.
    let mut collection = RecipeCollection::new();
    let pattern = {
        let mut grid = CraftingGrid::with_size(1);
        grid.slots[0] = stack(ore, 1, 64);
        Pattern::from_grid(&grid).unwrap()
    };
    collection.insert(Recipe { pattern, required: vec![vec![1]], output: stack(ingot, 1, 1) });

    let mut furnace = Furnace::new();
    furnace.crucible.slots[0] = stack(ore, 2, 64);
    furnace.fuel = stack(coal, 1, 64);

    // Arming the cold furnace burns one coal and opens the heat window.
    assert!(furnace.cold_start(&items, &collection));
    assert!(furnace.fuel.is_empty());
    assert!(furnace.is_smelting());

    // Run one full smelt plus the completing tick.
    let mut finished = false;
    let mut t = 0u64;
    while t <= SMELT_TIME_US + 1_000_000 {
        furnace.tick_heat(100_000);
        if furnace.tick_progress(100_000, &collection) {
            finished = true;
            break;
        }
        t += 100_000;
    }
    assert!(finished);
    assert_eq!(furnace.output.item, Some(ingot));
    assert_eq!(furnace.output.size, 1);
    assert_eq!(furnace.crucible.slots[0].size, 1);
}

#[test]
fn dropped_items_enter_the_inventory_in_reach() {
    let mut inventory = Inventory::new();
    inventory.slots[0] = stack(11, 5, 64);
    let mut dropped = DroppedItem::new(stack(11, 3, 64), 0);

    // The pickup delay holds it first.
    assert_eq!(try_pickup(&mut dropped, &mut inventory, 100_000, 0), PickupOutcome::TooSoon);
    // Too far away after the delay: three blocks out.
    let far = 9_000_000u64;
    assert_eq!(try_pickup(&mut dropped, &mut inventory, 600_000, far), PickupOutcome::TooFar);
    // Inside two blocks but not against the torso yet: the drop is drawn in.
    let near = 1_000_000u64;
    assert_eq!(try_pickup(&mut dropped, &mut inventory, 600_000, near), PickupOutcome::Attracting);
    // In reach: the identical stack tops up the first slot.
    let outcome = try_pickup(&mut dropped, &mut inventory, 600_000, 0);
    assert_eq!(outcome, PickupOutcome::PickedUp { emptied: true });
    assert_eq!(inventory.slots[0].size, 8);

    // A full inventory refuses.
    let mut full = Inventory::new();
    for slot in full.slots.iter_mut() {
        *slot = stack(99, 1, 1);
    }
    let mut dropped = DroppedItem::new(stack(11, 3, 64), 0).with_delay(0);
    assert_eq!(try_pickup(&mut dropped, &mut full, 1, 0), PickupOutcome::NoRoom);
}

#[test]
fn clock_wraps_the_day() {
    let mut clock = Clock::new();
    clock.set_time(1_500_000);
    assert_eq!(clock.get_time(), 300_000);
    clock.set_midnight();
    clock.tick(400_000);
    assert_eq!(clock.get_time(), 100_000);
    assert_eq!(clock.as_secs(), 100);
}

#[test]
fn wheat_grows_one_stage_per_interval() {
    let mut wheat = Wheat::new(0);
    assert_eq!(wheat.tick(600_000), None);
    assert_eq!(wheat.tick(600_000), Some(1));
    let mut ripe = Wheat::new(6);
    assert_eq!(ripe.tick(999_999), None);
    assert_eq!(ripe.stage, 6);
}

#[test]
fn settings_lines_parse_and_bad_lines_fail() {
    let lines: Vec<Vec<u8>> = vec![
        b"# a comment".to_vec(),
        b"".to_vec(),
        b"seed = hilly".to_vec(),
        b"pvp = true".to_vec(),
        b"render-distance = 24".to_vec(),
        b"game-mode = creative".to_vec(),
        b"world-name = plains".to_vec(),
        b"colour = blue".to_vec(),
    ];
    let settings = parse_settings(&lines).unwrap();
    assert_eq!(settings.seed, b"hilly".to_vec());
    assert!(settings.pvp);
    assert_eq!(settings.render_distance, 24);
    assert_eq!(settings.game_mode, GameMode::Creative);
    assert_eq!(settings.world_name, Some(b"plains".to_vec()));

    let bad: Vec<Vec<u8>> = vec![b"seed = x".to_vec(), b"pvp maybe".to_vec()];
    assert!(matches!(parse_settings(&bad), Err(1)));
    let bad_number: Vec<Vec<u8>> = vec![b"render-distance = many".to_vec()];
    assert!(parse_settings(&bad_number).is_err());
}

#[test]
fn seed_hash_is_a_function_of_the_bytes() {
    let a = hash_seed(&b"alpha".to_vec());
    let b = hash_seed(&b"alpha".to_vec());
    assert_eq!(a, b);
}

#[test]
fn shifted_grids_share_a_normal_form() {
    // The diagonal planks in the top-left corner...
    let a = grid_3x3([
        None,
        Some((PLANK, 1)),
        None,
        Some((PLANK, 1)),
        None,
        None,
        None,
        None,
        None,
    ]);
    // ...and the same shape pushed one row down and one column right.
    let b = grid_3x3([
        None,
        None,
        None,
        None,
        None,
        Some((PLANK, 1)),
        None,
        Some((PLANK, 1)),
        None,
    ]);
    let pa = Pattern::from_grid(&a).unwrap();
    let pb = Pattern::from_grid(&b).unwrap();
    assert!(pa.matches(&pb));
}
