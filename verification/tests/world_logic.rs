//! The world side: block lookups, mining, placement, clicks, pathfinding,
//! mobs, terrain and blueprints.

use voxel_server::block::{BlockConfig, BlockFace, Blocks, BlockState, Friction, Rotation};
use voxel_server::blueprints::{Blueprint, HeightDistribution, TerrainFeature, Tree, FoliageStyle};
use voxel_server::breaking::{BreakingRegistry, HitOutcome};
use voxel_server::chunk::{build_surface, find_spawn_index, Chunk, CHUNK_VOLUME};
use voxel_server::interact::{
    block_placement, eat_bread, fragile_break_positions, first_breakable_target, right_click_action,
    use_hoe, use_seeds, GameMode, ItemConfig, ItemRegistry, Items, NeighbourChange,
    RightClickAction, Target,
};
use voxel_server::items::{Inventory, ItemStack};
use voxel_server::mobs::{
    acquire_target, chunk_spawn_seed, is_night_time, pick_wander_goal, plan_zombie_spawns,
    should_attack, MobMap, TargetCandidate,
};
use voxel_server::pathfinding::PathFinder;
use voxel_server::rng::{rng_from_seed, rng_range_u32, rng_unit_ppm};
use voxel_server::terrain::{assign_blocks, is_sky_chunk, Biome, COLUMN_HEIGHT};
use voxel_server::world::{BlockPos, ChunkPos, WorldMap};

const AIR: u16 = 0;
const STONE: u16 = 1;
const GRASS: u16 = 2;
const WATER: u16 = 3;
const DIRT: u16 = 4;
const SOIL: u16 = 5;
const TORCH: u16 = 6;

fn test_blocks() -> Blocks {
    let mut blocks = Blocks::new();
    let all_faces = vec![
        BlockFace::Front,
        BlockFace::Back,
        BlockFace::Left,
        BlockFace::Right,
        BlockFace::Top,
        BlockFace::Bottom,
    ];
    let surface = Friction::Surface { front: 0, back: 0, left: 0, right: 0, top: 300, bottom: 0 };
    let air = BlockConfig {
        hardness_us: None,
        friction: Friction::Drag { x: 0, y: 0, z: 0 },
        solid: false,
        climbable: false,
        replaceable: true,
        placeable_faces: Vec::new(),
        drop: None,
        model: None,
    };
    let stone = BlockConfig {
        hardness_us: Some(1_000_000),
        friction: surface,
        solid: true,
        climbable: false,
        replaceable: false,
        placeable_faces: all_faces.clone(),
        drop: Some((1, 1)),
        model: None,
    };
    let grass = BlockConfig { drop: Some((2, 1)), ..stone.clone() };
    let water = BlockConfig {
        hardness_us: None,
        friction: Friction::Drag { x: 500, y: 900, z: 500 },
        solid: false,
        climbable: false,
        replaceable: true,
        placeable_faces: Vec::new(),
        drop: None,
        model: None,
    };
    let dirt = BlockConfig { drop: Some((4, 1)), ..stone.clone() };
    let soil = BlockConfig { drop: None, ..stone.clone() };
    let torch = BlockConfig {
        hardness_us: Some(0),
        friction: Friction::Drag { x: 0, y: 0, z: 0 },
        solid: false,
        climbable: false,
        replaceable: false,
        placeable_faces: all_faces.clone(),
        drop: Some((6, 1)),
        model: Some(1),
    };
    let wheat = BlockConfig { solid: false, ..torch.clone() };
    blocks.insert(String::from("air"), air).unwrap();
    blocks.insert(String::from("stone"), stone).unwrap();
    blocks.insert(String::from("grass"), grass).unwrap();
    blocks.insert(String::from("surface_water"), water).unwrap();
    blocks.insert(String::from("dirt"), dirt).unwrap();
    blocks.insert(String::from("soil"), soil).unwrap();
    blocks.insert(String::from("torch"), torch).unwrap();
    blocks.insert(String::from("wheat_0"), wheat).unwrap();
    blocks
}

/// A world of one flat layer of stone at height 63, air above, inside the
/// chunk at the origin column; extra solid blocks as asked.
fn flat_world(solid: &[(i32, i32, i32)]) -> WorldMap {
    let mut world = WorldMap::new();
    for cx in -1..=1 {
        for cz in -1..=1 {
            // Ground chunk: its top layer (y = 63) is stone.
            let mut ground = Chunk::new_uniform(AIR);
            for x in 0..16 {
                for z in 0..16 {
                    ground.set(x * 256 + z * 16 + 15, STONE);
                }
            }
            world.insert_chunk(ChunkPos { x: cx, y: 3, z: cz }, ground);
            world.insert_chunk(ChunkPos { x: cx, y: 4, z: cz }, Chunk::new_uniform(AIR));
            world.insert_chunk(ChunkPos { x: cx, y: 5, z: cz }, Chunk::new_uniform(AIR));
        }
    }
    for (x, y, z) in solid {
        let pos = BlockPos { x: *x, y: *y, z: *z };
        set_world_block(&mut world, pos, STONE);
    }
    world
}

fn set_world_block(world: &mut WorldMap, pos: BlockPos, id: u16) {
    let cpos = ChunkPos::of_block(&pos);
    let mut chunk = match world.get_chunk(&cpos) {
        Some(c) => c.clone(),
        None => Chunk::new_uniform(AIR),
    };
    let lx = (pos.x.rem_euclid(16)) as usize;
    let ly = (pos.y.rem_euclid(16)) as usize;
    let lz = (pos.z.rem_euclid(16)) as usize;
    chunk.set(lx * 256 + lz * 16 + ly, id);
    world.insert_chunk(cpos, chunk);
}

#[test]
fn world_lookup_finds_blocks_and_missing_chunks() {
    let world = flat_world(&[(2, 64, 0)]);
    assert_eq!(world.get_block(&BlockPos { x: 0, y: 63, z: 0 }), Some(STONE));
    assert_eq!(world.get_block(&BlockPos { x: 0, y: 64, z: 0 }), Some(AIR));
    assert_eq!(world.get_block(&BlockPos { x: 2, y: 64, z: 0 }), Some(STONE));
    // Chunks never loaded read as missing.
    assert_eq!(world.get_block(&BlockPos { x: 0, y: 500, z: 0 }), None);
}

#[test]
fn astar_goes_around_a_wall() {
    // A two-block wall stands between start and goal; the path bends around
    // it and reaches the goal in few steps.
    let world = flat_world(&[(2, 64, 0), (2, 65, 0)]);
    let blocks = test_blocks();
    let mut finder = PathFinder::new();
    let start = BlockPos { x: 0, y: 64, z: 0 };
    let goal = BlockPos { x: 5, y: 64, z: 0 };
    finder.find_path(&world, &blocks, start, goal);

    let path: Vec<BlockPos> = finder.path.clone();
    assert!(!path.is_empty());
    // The path is consumed from the back; its front entry is the goal.
    assert_eq!(path[0], goal);
    assert!(path.len() <= 10);
    // It bends around the wall through one of the flanking cells.
    let flank_a = BlockPos { x: 1, y: 64, z: 1 };
    let flank_b = BlockPos { x: 1, y: 64, z: -1 };
    let swerves = path.iter().any(|p| *p == flank_a || *p == flank_b || p.z != 0);
    assert!(swerves);
    // It never stands inside the wall.
    assert!(path.iter().all(|p| *p != BlockPos { x: 2, y: 64, z: 0 }));
}

#[test]
fn direct_walk_reaches_an_unobstructed_goal() {
    let world = flat_world(&[]);
    let blocks = test_blocks();
    let mut finder = PathFinder::new();
    let start = BlockPos { x: 0, y: 64, z: 0 };
    let goal = BlockPos { x: 5, y: 64, z: 3 };
    finder.find_path(&world, &blocks, start, goal);
    // A clear line commits just the goal.
    assert_eq!(finder.path, vec![goal]);

    // The follower consumes it when close enough: a quarter block.
    let next = finder.next_node(0, 0);
    assert_eq!(next, Some(goal));
    // Three tenths of a block out (planar): still worth walking to.
    let near = finder.next_node(5_500 - 300, 3_500);
    assert_eq!(near, Some(goal));
    // Inside the quarter-block reach: consumed.
    let arrived = finder.next_node(5_500 - 100, 3_500 - 100);
    assert_eq!(arrived, None);
}

#[test]
fn pathfinding_halts_on_an_unreachable_goal() {
    // The goal floats in a missing chunk far above; the search spends its
    // roundabout budget and still returns.
    let world = flat_world(&[]);
    let blocks = test_blocks();
    let mut finder = PathFinder::new();
    let start = BlockPos { x: 0, y: 64, z: 0 };
    let goal = BlockPos { x: 0, y: 300, z: 0 };
    finder.find_path(&world, &blocks, start, goal);
    // Completion itself is the point; any best-effort path is fine.
    assert!(finder.path.len() < 1000);
}

#[test]
fn mining_breaks_after_ten_spaced_hits() {
    // Hardness one second, bare hand, one hit per tenth of a second: the
    // attempt opens on the first hit and the block breaks on the tenth gap.
    let mut registry = BreakingRegistry::new();
    let pos = BlockPos { x: 1, y: 2, z: 3 };
    let hardness = 1_000_000u64;
    assert_eq!(registry.hit(pos, 0, hardness, 1000), HitOutcome::Started);
    for k in 1..10u64 {
        let outcome = registry.hit(pos, k * 100_000, hardness, 1000);
        match outcome {
            HitOutcome::Progressed { stage_before, stage_after } => {
                assert_eq!(stage_before as u64, k - 1);
                assert_eq!(stage_after as u64, k);
            },
            other => panic!("hit {} gave {:?}", k, other),
        }
    }
    assert_eq!(registry.hit(pos, 1_000_000, hardness, 1000), HitOutcome::Broken);

    // Zero hardness breaks instantly.
    let mut registry = BreakingRegistry::new();
    assert_eq!(registry.hit(pos, 0, 0, 1000), HitOutcome::Broken);
}

#[test]
fn mining_skips_spam_and_forgets_idle_attempts() {
    let mut registry = BreakingRegistry::new();
    let pos = BlockPos { x: 0, y: 0, z: 0 };
    registry.hit(pos, 0, 1_000_000, 1000);
    // A hit on one block never disturbs the attempt on another.
    let other = BlockPos { x: 9, y: 9, z: 9 };
    registry.hit(other, 10_000, 1_000_000, 1000);
    assert_eq!(registry.entries.len(), 2);
    // Forty milliseconds later: under the anti-spam floor.
    assert_eq!(registry.hit(pos, 40_000, 1_000_000, 1000), HitOutcome::TooSoon);
    assert!(registry.entries.iter().any(|(p, e)| *p == other && e.prev_hit_us == 10_000));
    // After the timeout the purge clears the attempt.
    registry.purge(600_001);
    assert_eq!(registry.entries.len(), 0);
    assert_eq!(registry.hit(pos, 700_000, 1_000_000, 1000), HitOutcome::Started);
}

fn test_items() -> Items {
    let mut items = Items::new();
    // Item zero places stone.
    items
        .insert(
            String::from("stone_block"),
            ItemConfig {
                block: Some(STONE),
                tool_efficiency_milli: 1000,
                damage: 5,
                model_id: 0,
                fuel_us: None,
            },
        )
        .unwrap();
    items
        .insert(
            String::from("bread"),
            ItemConfig {
                block: None,
                tool_efficiency_milli: 1000,
                damage: 5,
                model_id: 1,
                fuel_us: None,
            },
        )
        .unwrap();
    items
}

#[test]
fn placement_lands_on_the_face_neighbour() {
    let world = flat_world(&[]);
    let blocks = test_blocks();
    let items = test_items();
    let held = ItemStack::new(0, 3, 64);
    let target = BlockPos { x: 4, y: 63, z: 4 };
    // Placing against the top of the ground: the air above is replaceable.
    let placed = block_placement(&held, STONE, BlockFace::Top, target, &items, &blocks, &world);
    assert_eq!(placed, Some((STONE, BlockPos { x: 4, y: 64, z: 4 })));
    // An empty hand places nothing.
    let empty = ItemStack::new_empty();
    assert_eq!(
        block_placement(&empty, STONE, BlockFace::Top, target, &items, &blocks, &world),
        None,
    );
    // Placing against air anchors nothing.
    let in_air = BlockPos { x: 4, y: 70, z: 4 };
    assert_eq!(
        block_placement(&held, AIR, BlockFace::Top, in_air, &items, &blocks, &world),
        None,
    );
}

#[test]
fn right_click_prefers_interaction_then_placement_then_use() {
    let world = flat_world(&[]);
    let blocks = test_blocks();
    let items = test_items();
    let held = ItemStack::new(0, 1, 64);
    let ground = BlockPos { x: 0, y: 63, z: 0 };
    let targets = vec![
        Target::Entity { entity: 42 },
        Target::Block { position: ground, block_id: STONE, face: BlockFace::Top, entity: None },
    ];

    // A targeted chest-like entity wins.
    let interactable = vec![42u64];
    let action = right_click_action(&targets, &interactable, &held, &items, &blocks, &world);
    assert_eq!(action, RightClickAction::Interact { entity: 42 });

    // Without it, the held block lands above the ground.
    let action = right_click_action(&targets, &Vec::new(), &held, &items, &blocks, &world);
    assert_eq!(
        action,
        RightClickAction::Place { block_id: STONE, position: BlockPos { x: 0, y: 64, z: 0 } },
    );

    // With nothing placeable targeted, the held item is used.
    let only_entity = vec![Target::Entity { entity: 9 }];
    let action = right_click_action(&only_entity, &Vec::new(), &held, &items, &blocks, &world);
    assert_eq!(action, RightClickAction::UseItem { item: 0 });

    // Empty hand, nothing targeted: nothing happens.
    let empty = ItemStack::new_empty();
    let action = right_click_action(&only_entity, &Vec::new(), &empty, &items, &blocks, &world);
    assert_eq!(action, RightClickAction::Nothing);
}

#[test]
fn first_breakable_target_skips_unbreakable_blocks() {
    let blocks = test_blocks();
    let water_pos = BlockPos { x: 0, y: 64, z: 0 };
    let stone_pos = BlockPos { x: 0, y: 63, z: 0 };
    let targets = vec![
        Target::Block { position: water_pos, block_id: WATER, face: BlockFace::Top, entity: None },
        Target::Block { position: stone_pos, block_id: STONE, face: BlockFace::Top, entity: None },
    ];
    let found = first_breakable_target(&targets, &blocks);
    match found {
        Some(Target::Block { position, block_id, .. }) => {
            assert_eq!(position, stone_pos);
            assert_eq!(block_id, STONE);
        },
        other => panic!("unexpected target {:?}", other),
    }
}

#[test]
fn item_use_rules_follow_their_targets() {
    // Bread heals its eater and leaves the hand one lighter.
    let mut inventory = Inventory::new();
    inventory.slots[0] = ItemStack::new(1, 2, 64);
    let healing = eat_bread(&mut inventory);
    assert_eq!(healing, 8);
    assert_eq!(inventory.slots[0].size, 1);

    // A hoe turns the first dirt or grass into soil; grass drops seeds.
    let grass_pos = BlockPos { x: 1, y: 63, z: 1 };
    let targets = vec![Target::Block {
        position: grass_pos,
        block_id: GRASS,
        face: BlockFace::Top,
        entity: None,
    }];
    let hoe_use = use_hoe(&targets, DIRT, GRASS).unwrap();
    assert_eq!(hoe_use.position, grass_pos);
    assert!(hoe_use.drops_seeds);

    // Seeds sprout wheat on soil with air above.
    let mut world = flat_world(&[]);
    let soil_pos = BlockPos { x: 2, y: 63, z: 2 };
    set_world_block(&mut world, soil_pos, SOIL);
    let targets = vec![Target::Block {
        position: soil_pos,
        block_id: SOIL,
        face: BlockFace::Top,
        entity: None,
    }];
    let sprout = use_seeds(&targets, &world, SOIL, AIR).unwrap();
    assert_eq!(sprout, BlockPos { x: 2, y: 64, z: 2 });

    // A registered handler resolves from the item id.
    let mut registry = ItemRegistry::new();
    registry.insert(1, 900);
    assert_eq!(registry.get(1), Some(900));
    assert_eq!(registry.get(2), None);
}

#[test]
fn torches_fall_off_their_lost_support() {
    let change = NeighbourChange {
        position: BlockPos { x: 0, y: 64, z: 0 },
        // The torch east of the change points back at it...
        right: Some((TORCH, Some(BlockState(1)))),
        // ...but the one west points away and stays.
        left: Some((TORCH, Some(BlockState(1)))),
        front: None,
        back: Some((STONE, Some(BlockState(2)))),
        // A torch standing on the block carries no rotation.
        top: Some((TORCH, Some(BlockState(0b100)))),
    };
    let breaks = fragile_break_positions(&change, TORCH);
    assert_eq!(breaks.right, Some(BlockPos { x: 1, y: 64, z: 0 }));
    assert_eq!(breaks.left, None);
    assert_eq!(breaks.back, None);
    assert_eq!(breaks.top, Some(BlockPos { x: 0, y: 65, z: 0 }));
}

#[test]
fn spawn_search_finds_head_room() {
    let mut chunk = Chunk::new_uniform(STONE);
    // Two consecutive air blocks in the column at x=1, z=2, heights 5 and 6.
    chunk.set(1 * 256 + 2 * 16 + 5, AIR);
    chunk.set(1 * 256 + 2 * 16 + 6, AIR);
    let found = find_spawn_index(&chunk, AIR).unwrap();
    assert_eq!(found, 1 * 256 + 2 * 16 + 5);
    let solid = Chunk::new_uniform(STONE);
    assert!(find_spawn_index(&solid, AIR).is_none());
}

#[test]
fn surface_map_finds_the_topmost_grass() {
    let mut chunk = Chunk::new_uniform(AIR);
    // A grass block at height 9 of column (3, 4), air above it.
    chunk.set(3 * 256 + 4 * 16 + 9, GRASS);
    let surface = build_surface(&chunk, &vec![GRASS], AIR);
    assert_eq!(surface[3 * 16 + 4], Some((9, GRASS)));
    assert_eq!(surface[0], None);
}

#[test]
fn zombie_senses_follow_the_rules() {
    assert!(!is_night_time(700));
    assert!(is_night_time(701));
    assert!(!is_night_time(1100));

    let candidates = vec![
        // Too far.
        TargetCandidate {
            entity: 1,
            game_mode: GameMode::Survival,
            distance_squared: 200,
            in_front: true,
            line_of_sight: true,
        },
        // Creative players are not prey.
        TargetCandidate {
            entity: 2,
            game_mode: GameMode::Creative,
            distance_squared: 4,
            in_front: true,
            line_of_sight: true,
        },
        // Behind a wall.
        TargetCandidate {
            entity: 3,
            game_mode: GameMode::Survival,
            distance_squared: 4,
            in_front: true,
            line_of_sight: false,
        },
        // Fair game.
        TargetCandidate {
            entity: 4,
            game_mode: GameMode::Survival,
            distance_squared: 9,
            in_front: true,
            line_of_sight: true,
        },
    ];
    assert_eq!(acquire_target(&candidates), Some(4));
    assert_eq!(acquire_target(&Vec::new()), None);

    assert!(should_attack(3));
    assert!(!should_attack(4));
}

#[test]
fn mob_map_tracks_chunk_membership() {
    let mut map = MobMap::new();
    let a = ChunkPos { x: 0, y: 0, z: 0 };
    let b = ChunkPos { x: 1, y: 0, z: 0 };
    map.open_chunk(a);
    assert!(map.insert_or_move(a, 7));
    assert_eq!(map.get_entities(&a).map(|v| v.clone()), Some(vec![7]));
    // Moving into an unsimulated chunk despawns instead.
    assert!(!map.insert_or_move(b, 7));
    map.open_chunk(b);
    assert!(map.insert_or_move(b, 7));
    assert_eq!(map.get_entities(&b).map(|v| v.clone()), Some(vec![7]));
    let gone = map.remove(&b);
    assert_eq!(gone, vec![7]);
    assert!(map.get_entities(&b).is_none());
}

#[test]
fn wander_goal_stays_reachable() {
    let world = flat_world(&[]);
    let blocks = test_blocks();
    let start = BlockPos { x: 0, y: 64, z: 0 };
    let goal = pick_wander_goal(&world, &blocks, start, 4, WATER);
    // On an open plain something within range is always found, standing on
    // the ground layer.
    let goal = goal.unwrap();
    assert_eq!(goal.y, 64);
    assert!((goal.x - start.x).abs() <= 5 && (goal.z - start.z).abs() <= 5);
}

#[test]
fn zombie_spawns_stand_on_grass() {
    // Whatever the dice say, every planned spawn stands on a grass surface
    // column; and the same seed plans the same spawns.
    let mut chunk = Chunk::new_uniform(AIR);
    for x in 0..16 {
        for z in 0..16 {
            chunk.set(x * 256 + z * 16 + 3, GRASS);
        }
    }
    let surface = build_surface(&chunk, &vec![GRASS], AIR);
    let cpos = ChunkPos { x: 4, y: 0, z: -3 };
    for seed in 0..64u64 {
        let spawns = plan_zombie_spawns(cpos, seed, &surface, GRASS);
        assert!(spawns.len() <= 3);
        for (x, y, z) in spawns.iter() {
            assert_eq!(*y, 3);
            assert_eq!(surface[x * 16 + z], Some((3, GRASS)));
        }
        let again = plan_zombie_spawns(cpos, seed, &surface, GRASS);
        assert_eq!(spawns, again);
    }
    assert_eq!(chunk_spawn_seed(4, -3, 1), chunk_spawn_seed(4, -3, 1));
}

#[test]
fn random_wrappers_stay_in_their_ranges() {
    let mut rng = rng_from_seed(12345);
    for _ in 0..200 {
        let v = rng_range_u32(&mut rng, 10, 20);
        assert!((10..20).contains(&v));
        let p = rng_unit_ppm(&mut rng);
        assert!(p < 1_000_000);
    }
}

#[test]
fn sky_chunks_are_air_and_terrain_assigns_columns() {
    assert!(is_sky_chunk(121));
    assert!(!is_sky_chunk(120));

    let biome = Biome {
        air: AIR,
        surface_liquid: WATER,
        sub_surface_liquid: WATER,
        sand: 8,
        top_layer_block: GRASS,
        mid_layer_block: DIRT,
        bottom_layer_block: STONE,
    };
    // A density field solid below half height, open above.
    let mut terrain: Vec<i32> = Vec::new();
    for _x in 0..16 {
        for _z in 0..16 {
            for y in 0..COLUMN_HEIGHT {
                terrain.push(if y < 8 { 1000 } else { -1000 });
            }
        }
    }
    let continent: Vec<i32> = vec![5_000; 256];
    let chunk = assign_blocks(&terrain, &continent, 64, &biome);
    // The top of the ground is grass over dirt over stone; above is air.
    assert_eq!(chunk.get_xyz(5, 7, 5), GRASS);
    assert_eq!(chunk.get_xyz(5, 6, 5), DIRT);
    assert_eq!(chunk.get_xyz(5, 5, 5), DIRT);
    assert_eq!(chunk.get_xyz(5, 4, 5), STONE);
    assert_eq!(chunk.get_xyz(5, 8, 5), AIR);
    assert_eq!(chunk.get_xyz(5, 15, 5), AIR);
}

#[test]
fn ore_veins_respect_replaceability() {
    // A vein walking through a stone chunk replaces stone only.
    let mut chunk = Chunk::new_uniform(STONE);
    let cpos = ChunkPos { x: 0, y: 0, z: 0 };
    let blueprint = Blueprint::OreVein { ore_block: 9, count: 32, can_replace: vec![STONE] };
    let surface = vec![None; 256];
    let mut rng = rng_from_seed(7);
    let origin = BlockPos { x: 8, y: 8, z: 8 };
    blueprint.construct(origin, &cpos, &mut chunk, &surface, &mut rng, 4);
    let mut ore_cells = 0;
    for i in 0..CHUNK_VOLUME {
        let id = chunk.get(i);
        assert!(id == STONE || id == 9);
        if id == 9 {
            ore_cells += 1;
        }
    }
    assert!(ore_cells >= 1 && ore_cells <= 32);

    // The same vein against a chunk it may not replace changes nothing.
    let mut untouched = Chunk::new_uniform(GRASS);
    let mut rng = rng_from_seed(7);
    blueprint.construct(origin, &cpos, &mut untouched, &surface, &mut rng, 4);
    for i in 0..CHUNK_VOLUME {
        assert_eq!(untouched.get(i), GRASS);
    }
}

#[test]
fn trees_grow_on_their_soil_only() {
    let tree = Tree {
        trunk_block: 10,
        foliage: FoliageStyle::Blob { radius: 2, leaf_block: 11 },
        branches_min: 0,
        branches_max: 0,
        trunk_height: 4,
        random_height: 0,
        soil_blocks: vec![GRASS],
        can_replace: vec![AIR],
    };
    let mut feature = TerrainFeature::new();
    let mut rng = rng_from_seed(3);
    let base = BlockPos { x: 8, y: 4, z: 8 };
    assert!(tree.construct(base, GRASS, &mut feature, &mut rng));
    // The trunk rose exactly four trunk blocks above the base.
    let trunk_cells: Vec<&(BlockPos, u16)> =
        feature.placements.iter().filter(|(_, b)| *b == 10).collect();
    assert_eq!(trunk_cells.len(), 4);
    for (pos, _) in trunk_cells.iter() {
        assert_eq!((pos.x, pos.z), (8, 8));
        assert!(pos.y >= 5 && pos.y <= 8);
    }
    // Leaves exist around the tip.
    assert!(feature.placements.iter().any(|(_, b)| *b == 11));

    // Wrong soil: nothing grows.
    let mut feature = TerrainFeature::new();
    assert!(!tree.construct(base, STONE, &mut feature, &mut rng));
    assert!(feature.placements.is_empty());
}

#[test]
fn height_distributions_gate_by_band() {
    let mut rng = rng_from_seed(1);
    let tri = HeightDistribution::new_triangle(0, 10, 20, 1_000_000).unwrap();
    assert!(!tri.sample(-1, &mut rng));
    assert!(!tri.sample(21, &mut rng));
    // At the peak with certainty one, the roll always passes.
    assert!(tri.sample(10, &mut rng));
    let uniform = HeightDistribution::Uniform { min: 0, max: 5, probability_ppm: 1_000_000 };
    assert!(uniform.sample(3, &mut rng));
    assert!(!uniform.sample(9, &mut rng));
    assert!(HeightDistribution::new_triangle(5, 4, 10, 0).is_none());
}

use voxel_server::movement::{
    resolve_conflict, swim_exit_bob, walk_tick, AabbM, PlayerMotion, Vec3M, GRAVITY_MILLI,
    STEP_UP_SOFT_MILLI,
};
use voxel_server::block::Friction as BlockFriction;

#[test]
fn swim_exit_grants_the_bob() {
    // The tick after leaving water, vertical speed gains the bob.
    assert_eq!(swim_exit_bob(200, true, false), 1_700);
    // Still in the water, or never in it: no change.
    assert_eq!(swim_exit_bob(200, true, true), 200);
    assert_eq!(swim_exit_bob(200, false, false), 200);
}

#[test]
fn aabb_intersection_measures_penetration() {
    let a = AabbM {
        center: Vec3M { x: 0, y: 900, z: 0 },
        half: Vec3M { x: 300, y: 900, z: 300 },
    };
    // A unit block whose near face the box has entered by a tenth.
    let b = AabbM {
        center: Vec3M { x: 0, y: 500, z: 700 },
        half: Vec3M { x: 500, y: 500, z: 500 },
    };
    let overlap = a.intersection(&b).unwrap();
    assert_eq!(overlap.z, -100);
    // Boxes apart on one axis do not intersect.
    let far = AabbM {
        center: Vec3M { x: 5_000, y: 500, z: 0 },
        half: Vec3M { x: 500, y: 500, z: 500 },
    };
    assert!(a.intersection(&far).is_none());
}

#[test]
fn step_up_absorbs_small_vertical_overlaps_only() {
    let surface = BlockFriction::Surface { front: 0, back: 0, left: 0, right: 0, top: 300, bottom: 0 };
    // A grounded walker meets a low step: the rule lifts it a little and
    // keeps it grounded instead of stopping the walk.
    let mut motion = PlayerMotion::new();
    motion.grounded_y = true;
    let velocity = Vec3M { x: 0, y: 0, z: 2_000 };
    let overlap = Vec3M { x: 100, y: 400, z: -80 };
    let r = resolve_conflict(&mut motion, &surface, velocity, overlap, 16_667);
    assert!(r.stepped_up);
    assert!(r.move_back.y > 0 && r.move_back.y <= STEP_UP_SOFT_MILLI);
    assert!(motion.grounded_y);

    // A full-block overlap is past the step-up limit: the walk is resolved
    // against its own axis instead.
    let mut motion = PlayerMotion::new();
    motion.grounded_y = true;
    let overlap = Vec3M { x: 100, y: 1_000, z: -33 };
    let r = resolve_conflict(&mut motion, &surface, velocity, overlap, 16_667);
    assert!(!r.stepped_up);
    assert_eq!(motion.velocity.z, 0);
    assert!(r.move_back.z < 0);
}

#[test]
fn walking_forward_advances_and_keeps_the_floor() {
    // Ground fills the chunks below zero; the player walks along z on top.
    let mut world = WorldMap::new();
    for cx in -1..=1 {
        for cz in -1..=1 {
            world.insert_chunk(ChunkPos { x: cx, y: -1, z: cz }, Chunk::new_uniform(STONE));
            world.insert_chunk(ChunkPos { x: cx, y: 0, z: cz }, Chunk::new_uniform(AIR));
            world.insert_chunk(ChunkPos { x: cx, y: 1, z: cz }, Chunk::new_uniform(AIR));
        }
    }
    let blocks = test_blocks();
    let mut position = Vec3M { x: 500, y: 0, z: 500 };
    let mut motion = PlayerMotion::new();
    // Forward acceleration with gravity, the walking profile.
    let acceleration = Vec3M { x: 0, y: GRAVITY_MILLI, z: 100_000 };
    let mut last_z = position.z;
    for _ in 0..30 {
        let r = walk_tick(&mut position, &mut motion, acceleration, &world, &blocks, 16_667);
        assert!(r.is_some());
        // The floor holds: the feet never sink below the ground plane.
        assert!(position.y >= -200);
        // Pressing forward never walks backwards.
        assert!(position.z >= last_z);
        last_z = position.z;
    }
    // Half a second of walking has covered visible ground.
    assert!(position.z > 600);
    assert!(motion.grounded_y);
}

#[test]
fn a_missing_chunk_aborts_the_tick() {
    let world = WorldMap::new();
    let blocks = test_blocks();
    let mut position = Vec3M { x: 500, y: 0, z: 500 };
    let before = position;
    let mut motion = PlayerMotion::new();
    let acceleration = Vec3M { x: 0, y: GRAVITY_MILLI, z: 100_000 };
    let motion_before = motion;
    let r = walk_tick(&mut position, &mut motion, acceleration, &world, &blocks, 16_667);
    assert!(r.is_none());
    assert_eq!(position, before);
    assert_eq!(motion, motion_before);
}

use voxel_server::blueprints::{BlueprintPlan, PlanIssue};

#[test]
fn blueprint_plans_validate_and_build() {
    let blocks = test_blocks();
    let oak = BlueprintPlan::Tree {
        trunk_block: String::from("stone"),
        leaf_block: String::from("grass"),
        trunk_height: 4,
        blob_radius: Some(2),
        branches: None,
        random_height: 2,
        soil_blocks: vec![String::from("grass")],
        can_replace: vec![String::from("air")],
    };
    let named = vec![(String::from("oak"), oak)];
    let forest = BlueprintPlan::Distribution {
        child: Box::new(BlueprintPlan::Named(String::from("oak"))),
        count: 8,
        distribution: voxel_server::blueprints::HeightDistribution::Uniform {
            min: 0,
            max: 100,
            probability_ppm: 500_000,
        },
    };
    assert!(forest.validate(&named, &blocks, 8).is_none());
    let built = forest.build(&named, &blocks, 8);
    assert!(built.is_ok());

    // An unknown reference is the verdict, both ways.
    let broken = BlueprintPlan::Named(String::from("spruce"));
    assert!(matches!(
        broken.validate(&named, &blocks, 8),
        Some(PlanIssue::UnknownBlueprint(_))
    ));
    assert!(matches!(broken.build(&named, &blocks, 8), Err(PlanIssue::UnknownBlueprint(_))));

    // An unordered distribution is rejected.
    let unordered = BlueprintPlan::Distribution {
        child: Box::new(BlueprintPlan::Named(String::from("oak"))),
        count: 8,
        distribution: voxel_server::blueprints::HeightDistribution::Triangle {
            min: 10,
            mid: 5,
            max: 20,
            probability_ppm: 500_000,
        },
    };
    assert!(matches!(unordered.validate(&named, &blocks, 8), Some(PlanIssue::BadDistribution)));

    // An unknown block name inside a tree is found too.
    let bad_tree = BlueprintPlan::Tree {
        trunk_block: String::from("marble"),
        leaf_block: String::from("grass"),
        trunk_height: 4,
        blob_radius: None,
        branches: None,
        random_height: 0,
        soil_blocks: Vec::new(),
        can_replace: Vec::new(),
    };
    assert!(matches!(bad_tree.validate(&named, &blocks, 8), Some(PlanIssue::UnknownBlock(_))));

    // Counts past a chunk's volume and unbuildable trees are rejected too.
    let oversized = BlueprintPlan::OreVein {
        ore_block: String::from("stone"),
        count: 5000,
        can_replace: Vec::new(),
    };
    assert!(matches!(oversized.validate(&named, &blocks, 8), Some(PlanIssue::BadCount)));
    let flat_tree = BlueprintPlan::Tree {
        trunk_block: String::from("stone"),
        leaf_block: String::from("grass"),
        trunk_height: 0,
        blob_radius: None,
        branches: None,
        random_height: 0,
        soil_blocks: Vec::new(),
        can_replace: Vec::new(),
    };
    assert!(matches!(flat_tree.validate(&named, &blocks, 8), Some(PlanIssue::BadTree)));
    // Reference chains longer than the fuel are cut off.
    let selfish = BlueprintPlan::Named(String::from("loop"));
    let cyclic = vec![(String::from("loop"), selfish)];
    let entry = BlueprintPlan::Named(String::from("loop"));
    assert!(matches!(entry.build(&cyclic, &blocks, 8), Err(PlanIssue::TooDeep)));
}
