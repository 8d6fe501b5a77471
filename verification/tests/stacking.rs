use factory_grid::display::{DisplayKind, DisplayQueue, DisplayRequest};
use factory_grid::tile::{Tile, TileContent, TILE_CAPACITY};
use factory_grid::tile_type::{Resource, TileType, MAX_RESOURCE_PER_TILE};

/// A resource stack holding exactly `units`, padded with copper.
fn stack_of(units: &[Resource]) -> TileType {
    let mut buffer = [Resource::Copper; MAX_RESOURCE_PER_TILE];
    for (slot, unit) in buffer.iter_mut().zip(units.iter()) {
        *slot = *unit;
    }
    TileType::ResourceTile((buffer, units.len()))
}

fn types_on(tile: &Tile) -> Vec<TileType> {
    let mut found = Vec::new();
    for i in 0..tile.occupancy() {
        found.push(tile.content(i).unwrap().tile_type);
    }
    found
}

/// Pushes `first` then `second` on a bare tile and reports how the second push went.
fn second_push(first: TileType, second: TileType) -> (Tile, Tile, bool, usize, usize) {
    let mut q = DisplayQueue::new();
    let (before, ok) = Tile::new((0, 0)).push(&mut q, first, 0);
    assert!(ok);
    let asked = q.len();
    let (after, ok) = before.push(&mut q, second, 0);
    (before, after, ok, asked, q.len())
}

#[test]
fn a_new_tile_is_bare() {
    let tile = Tile::new((-7, 12));
    assert_eq!(tile.position(), (-7, 12));
    assert_eq!(tile.occupancy(), 0);
    assert_eq!(tile.top(), None);
    assert_eq!(tile.content(0), None);
    assert_eq!(Tile::default(), Tile::new((0, 0)));
    assert_eq!(TILE_CAPACITY, 16);
}

#[test]
fn ore_lands_on_bare_ground() {
    for ore in [TileType::Copper, TileType::Iron, TileType::Silicon] {
        let mut q = DisplayQueue::new();
        let (tile, ok) = Tile::new((2, 3)).push(&mut q, ore, 1);
        assert!(ok);
        assert_eq!(tile.occupancy(), 1);
        assert_eq!(tile.content(0), Some(TileContent { this: 0, tile_type: ore, rot: 1 }));
        assert_eq!(tile.top(), tile.content(0));
        assert_eq!(tile.position(), (2, 3));
        assert_eq!(q.len(), 1);
    }
}

#[test]
fn ore_sprites_match_the_ore() {
    let cases = [
        (TileType::Copper, DisplayKind::Copper),
        (TileType::Iron, DisplayKind::Iron),
        (TileType::Silicon, DisplayKind::Silicon),
    ];
    for (ore, kind) in cases {
        let mut q = DisplayQueue::new();
        let (_, ok) = Tile::new((2, 3)).push(&mut q, ore, 1);
        assert!(ok);
        assert_eq!(
            q.get(0),
            Some(DisplayRequest::Create {
                handle: 0,
                kind,
                position: (2, 3),
                rotation: 1,
                parent: None
            })
        );
        assert!(kind.is_ore());
    }
}

#[test]
fn ore_on_an_occupied_tile_fails() {
    let below = [
        TileType::Copper,
        TileType::Iron,
        TileType::Printer3D,
        TileType::Worker,
        stack_of(&[Resource::Iron]),
    ];
    for first in below {
        for ore in [TileType::Copper, TileType::Iron, TileType::Silicon] {
            let (before, after, ok, asked, asked_after) = second_push(first, ore);
            assert!(!ok);
            assert_eq!(after, before);
            assert_eq!(asked_after, asked);
        }
    }
}

#[test]
fn building_on_bare_ground_succeeds() {
    let cases = [
        (TileType::Printer3D, DisplayKind::Printer3D),
        (TileType::WireExtruder, DisplayKind::WireExtruder),
    ];
    for (building, kind) in cases {
        let mut q = DisplayQueue::new();
        let (tile, ok) = Tile::new((0, -1)).push(&mut q, building, 3);
        assert!(ok);
        assert_eq!(types_on(&tile), vec![building]);
        assert_eq!(tile.top().unwrap().rot, 3);
        assert_eq!(q.len(), 1);
        assert_eq!(
            q.get(0),
            Some(DisplayRequest::Create {
                handle: 0,
                kind,
                position: (0, -1),
                rotation: 3,
                parent: None
            })
        );
    }
}

#[test]
fn building_on_ore_succeeds() {
    for ore in [TileType::Copper, TileType::Iron, TileType::Silicon] {
        for building in [TileType::Printer3D, TileType::WireExtruder, TileType::Worker] {
            let (before, after, ok, _, _) = second_push(ore, building);
            assert!(ok);
            assert_eq!(after.occupancy(), 2);
            assert_eq!(after.content(0), before.content(0));
            assert_eq!(after.top().unwrap().tile_type, building);
        }
    }
}

#[test]
fn building_on_building_fails() {
    for first in [TileType::Printer3D, TileType::WireExtruder, TileType::Worker] {
        for second in [TileType::Printer3D, TileType::WireExtruder, TileType::Worker] {
            let (before, after, ok, asked, asked_after) = second_push(first, second);
            assert!(!ok);
            assert_eq!(after, before);
            assert_eq!(asked_after, asked);
        }
    }
}

#[test]
fn building_on_resources_fails() {
    for building in [TileType::Printer3D, TileType::WireExtruder, TileType::Worker] {
        let (before, after, ok, asked, asked_after) =
            second_push(stack_of(&[Resource::Copper, Resource::Iron]), building);
        assert!(!ok);
        assert_eq!(after, before);
        assert_eq!(asked_after, asked);
    }
}

#[test]
fn extruder_goes_on_iron_but_not_on_printer() {
    let mut q = DisplayQueue::new();
    let (tile, ok) = Tile::new((1, 0)).push(&mut q, TileType::Iron, 0);
    assert!(ok);
    let (tile, ok) = tile.push(&mut q, TileType::WireExtruder, 0);
    assert!(ok);
    assert_eq!(types_on(&tile), vec![TileType::Iron, TileType::WireExtruder]);

    let (tile, ok) = Tile::new((0, 0)).push(&mut q, TileType::Printer3D, 0);
    assert!(ok);
    let (after, ok) = tile.push(&mut q, TileType::WireExtruder, 0);
    assert!(!ok);
    assert_eq!(after, tile);
    assert_eq!(types_on(&after), vec![TileType::Printer3D]);
    assert_eq!(q.len(), 3);
}

#[test]
fn a_worker_is_a_base_with_an_arm() {
    let mut q = DisplayQueue::new();
    q.create(DisplayKind::Iron, (9, 9), 0, None);
    let (tile, ok) = Tile::new((0, 1)).push(&mut q, TileType::Worker, 1);
    assert!(ok);
    assert_eq!(tile.occupancy(), 1);
    assert_eq!(
        tile.top(),
        Some(TileContent { this: 1, tile_type: TileType::Worker, rot: 1 })
    );
    assert_eq!(q.len(), 3);
    assert_eq!(
        q.get(1),
        Some(DisplayRequest::Create {
            handle: 1,
            kind: DisplayKind::WorkerBase,
            position: (0, 1),
            rotation: 1,
            parent: None
        })
    );
    assert_eq!(
        q.get(2),
        Some(DisplayRequest::Create {
            handle: 2,
            kind: DisplayKind::WorkerArm,
            position: (0, 1),
            rotation: 0,
            parent: Some(1)
        })
    );
}

#[test]
fn pop_removes_the_top_content() {
    let mut q = DisplayQueue::new();
    let (one, _) = Tile::new((4, 4)).push(&mut q, TileType::Silicon, 0);
    let (two, _) = one.push(&mut q, TileType::Printer3D, 2);
    let (three, _) = two.push(&mut q, stack_of(&[Resource::Silicon]), 0);
    assert_eq!(three.occupancy(), 3);

    let (popped, ok) = three.push(&mut q, TileType::Empty, 0);
    assert!(ok);
    assert_eq!(popped.occupancy(), 2);
    assert_eq!(popped, two);
    assert_eq!(q.get(3), Some(DisplayRequest::Destroy { handle: 2 }));

    let (popped, ok) = popped.push(&mut q, TileType::Empty, 0);
    assert!(ok);
    assert_eq!(popped.occupancy(), 1);
    assert_eq!(popped, one);
    assert_eq!(q.get(4), Some(DisplayRequest::Destroy { handle: 1 }));

    let (popped, ok) = popped.push(&mut q, TileType::Empty, 0);
    assert!(ok);
    assert_eq!(popped, Tile::new((4, 4)));
    assert_eq!(q.get(5), Some(DisplayRequest::Destroy { handle: 0 }));
    assert_eq!(q.len(), 6);
}

#[test]
fn pop_on_a_bare_tile_fails() {
    let mut q = DisplayQueue::new();
    let tile = Tile::new((4, 4));
    let (after, ok) = tile.push(&mut q, TileType::Empty, 2);
    assert!(!ok);
    assert_eq!(after, tile);
    assert_eq!(after.occupancy(), 0);
    assert_eq!(q.len(), 0);
}

#[test]
fn popping_a_worker_destroys_its_base() {
    let mut q = DisplayQueue::new();
    let (tile, _) = Tile::new((0, 1)).push(&mut q, TileType::Worker, 1);
    let (after, ok) = tile.push(&mut q, TileType::Empty, 0);
    assert!(ok);
    assert_eq!(after, Tile::new((0, 1)));
    assert_eq!(q.len(), 3);
    assert_eq!(q.get(2), Some(DisplayRequest::Destroy { handle: 0 }));
}

#[test]
fn resources_go_on_anything_but_resources_as_a_new_content() {
    let incoming = stack_of(&[Resource::Iron, Resource::Iron]);
    let mut q = DisplayQueue::new();
    let (tile, ok) = Tile::new((5, 5)).push(&mut q, incoming, 2);
    assert!(ok);
    assert_eq!(tile.top(), Some(TileContent { this: 0, tile_type: incoming, rot: 2 }));
    assert_eq!(
        q.get(0),
        Some(DisplayRequest::Create {
            handle: 0,
            kind: DisplayKind::ResourceTile,
            position: (5, 5),
            rotation: 2,
            parent: None
        })
    );
    for below in [TileType::Copper, TileType::WireExtruder, TileType::Worker] {
        let (before, after, ok, asked, asked_after) = second_push(below, incoming);
        assert!(ok);
        assert_eq!(after.occupancy(), 2);
        assert_eq!(after.content(0), before.content(0));
        assert_eq!(after.top().unwrap().tile_type, incoming);
        assert_eq!(asked_after, asked + 1);
    }
}

#[test]
fn full_height_stack_is_ore_building_resources() {
    let mut q = DisplayQueue::new();
    let (tile, _) = Tile::new((0, 0)).push(&mut q, TileType::Copper, 0);
    let (tile, _) = tile.push(&mut q, TileType::Worker, 0);
    let top = stack_of(&[Resource::Copper]);
    let (tile, ok) = tile.push(&mut q, top, 0);
    assert!(ok);
    assert_eq!(types_on(&tile), vec![TileType::Copper, TileType::Worker, top]);
    assert_eq!(tile.content(3), None);
    assert_eq!(tile.content(TILE_CAPACITY), None);
}

#[test]
fn resources_without_units_are_rejected() {
    let nothing = stack_of(&[]);
    let mut q = DisplayQueue::new();
    let tile = Tile::new((0, 0));
    let (after, ok) = tile.push(&mut q, nothing, 0);
    assert!(!ok);
    assert_eq!(after, tile);
    assert_eq!(q.len(), 0);

    let (before, after, ok, asked, asked_after) =
        second_push(stack_of(&[Resource::Iron]), nothing);
    assert!(!ok);
    assert_eq!(after, before);
    assert_eq!(asked_after, asked);
}

#[test]
fn merging_appends_the_pushed_units() {
    let have = stack_of(&[Resource::Iron, Resource::Silicon]);
    let more = stack_of(&[Resource::Silicon, Resource::Copper, Resource::Iron]);
    let mut q = DisplayQueue::new();
    let (tile, _) = Tile::new((0, 0)).push(&mut q, TileType::Printer3D, 0);
    let (tile, _) = tile.push(&mut q, have, 1);
    let (merged, ok) = tile.push(&mut q, more, 3);
    assert!(ok);
    assert_eq!(q.len(), 2);
    assert_eq!(merged.occupancy(), 2);
    assert_eq!(merged.content(0), tile.content(0));
    let expected = stack_of(&[
        Resource::Iron,
        Resource::Silicon,
        Resource::Silicon,
        Resource::Copper,
        Resource::Iron,
    ]);
    assert_eq!(merged.top(), Some(TileContent { this: 1, tile_type: expected, rot: 1 }));
}

#[test]
fn merging_copies_only_the_units_in_use() {
    let have = stack_of(&[Resource::Copper]);
    let more = TileType::ResourceTile(([Resource::Silicon; MAX_RESOURCE_PER_TILE], 2));
    let mut q = DisplayQueue::new();
    let (tile, _) = Tile::new((0, 0)).push(&mut q, have, 0);
    let (merged, ok) = tile.push(&mut q, more, 0);
    assert!(ok);
    let expected = stack_of(&[Resource::Copper, Resource::Silicon, Resource::Silicon]);
    assert_eq!(merged.top().unwrap().tile_type, expected);
}

#[test]
fn merging_up_to_one_below_capacity_succeeds() {
    let have = stack_of(&[Resource::Iron; 16]);
    let more = stack_of(&[Resource::Silicon; 15]);
    let (_, after, ok, asked, asked_after) = second_push(have, more);
    assert!(ok);
    assert_eq!(asked_after, asked);
    assert_eq!(after.occupancy(), 1);
    match after.top().unwrap().tile_type {
        TileType::ResourceTile((units, count)) => {
            assert_eq!(count, 31);
            assert_eq!(units[..16], [Resource::Iron; 16]);
            assert_eq!(units[16..31], [Resource::Silicon; 15]);
            assert_eq!(units[31], Resource::Copper);
        }
        other => panic!("expected a resource stack, found {:?}", other),
    }
}

#[test]
fn merging_that_reaches_capacity_fails() {
    let cases: [(usize, usize); 4] = [(16, 16), (31, 1), (1, 31), (20, 25)];
    for (have, more) in cases {
        let have = stack_of(&vec![Resource::Iron; have]);
        let more = stack_of(&vec![Resource::Silicon; more]);
        let (before, after, ok, asked, asked_after) = second_push(have, more);
        assert!(!ok);
        assert_eq!(after, before);
        assert_eq!(after.top().unwrap().tile_type, have);
        assert_eq!(asked_after, asked);
    }
}

#[test]
fn a_first_resource_push_is_stored_as_given() {
    let oversized = TileType::ResourceTile(([Resource::Iron; MAX_RESOURCE_PER_TILE], 40));
    let mut q = DisplayQueue::new();
    let (tile, ok) = Tile::new((0, 0)).push(&mut q, oversized, 0);
    assert!(ok);
    assert_eq!(tile.top().unwrap().tile_type, oversized);
    let (after, ok) = tile.push(&mut q, stack_of(&[Resource::Iron]), 0);
    assert!(!ok);
    assert_eq!(after, tile);
    let huge = TileType::ResourceTile(([Resource::Iron; MAX_RESOURCE_PER_TILE], usize::MAX));
    let (after, ok) = tile.push(&mut q, huge, 0);
    assert!(!ok);
    assert_eq!(after, tile);
    assert_eq!(q.len(), 1);
}

#[test]
fn push_then_pop_restores_the_tile() {
    let starts = [
        Vec::new(),
        vec![TileType::Iron],
        vec![TileType::WireExtruder],
        vec![TileType::Silicon, TileType::Worker],
    ];
    let pushes = [
        TileType::Copper,
        TileType::Iron,
        TileType::Silicon,
        TileType::Printer3D,
        TileType::WireExtruder,
        TileType::Worker,
        stack_of(&[Resource::Copper, Resource::Silicon]),
    ];
    let mut round_trips: usize = 0;
    for start in starts.iter() {
        for pushed in pushes {
            let mut q = DisplayQueue::new();
            let mut tile = Tile::new((3, -3));
            for t in start.iter() {
                let (next, ok) = tile.push(&mut q, *t, 1);
                assert!(ok);
                tile = next;
            }
            let (grown, ok) = tile.push(&mut q, pushed, 2);
            if !ok {
                assert_eq!(grown, tile);
                continue;
            }
            assert_eq!(grown.occupancy(), tile.occupancy() + 1);
            let (back, ok) = grown.push(&mut q, TileType::Empty, 0);
            assert!(ok);
            assert_eq!(back, tile);
            assert_eq!(back.occupancy(), tile.occupancy());
            round_trips += 1;
        }
    }
    assert_eq!(round_trips, 7 + 4 + 1 + 1);
}

#[test]
fn popping_after_a_merge_removes_the_whole_stack() {
    let mut q = DisplayQueue::new();
    let (bare, _) = Tile::new((0, 0)).push(&mut q, TileType::Iron, 0);
    let (tile, _) = bare.push(&mut q, stack_of(&[Resource::Iron]), 0);
    let (merged, ok) = tile.push(&mut q, stack_of(&[Resource::Copper]), 0);
    assert!(ok);
    assert_eq!(merged.occupancy(), tile.occupancy());
    let (popped, ok) = merged.push(&mut q, TileType::Empty, 0);
    assert!(ok);
    assert_eq!(popped, bare);
    assert_ne!(popped, tile);
}

#[test]
fn rotation_is_stored_as_given() {
    for rot in [0u8, 1, 2, 3, 4, 200, 255] {
        let mut q = DisplayQueue::new();
        let (tile, ok) = Tile::new((0, 0)).push(&mut q, TileType::WireExtruder, rot);
        assert!(ok);
        assert_eq!(tile.top().unwrap().rot, rot);
        match q.get(0) {
            Some(DisplayRequest::Create { rotation, .. }) => assert_eq!(rotation, rot),
            other => panic!("expected a create request, found {:?}", other),
        }
    }
}

#[test]
fn stacks_stay_sorted_and_short_under_any_pushes() {
    let pushes = [
        TileType::Empty,
        TileType::Copper,
        TileType::Iron,
        TileType::Silicon,
        TileType::Printer3D,
        TileType::WireExtruder,
        TileType::Worker,
        stack_of(&[Resource::Copper]),
        stack_of(&[Resource::Iron; 7]),
        stack_of(&[]),
    ];
    let mut q = DisplayQueue::new();
    let mut tile = Tile::new((1, 1));
    let mut state: u64 = 0x2545_f491_4f6c_dd1d;
    for _ in 0..5000 {
        state ^= state << 13;
        state ^= state >> 7;
        state ^= state << 17;
        let pick = (state % pushes.len() as u64) as usize;
        let asked = q.len();
        let (next, ok) = tile.push(&mut q, pushes[pick], (state >> 32) as u8);
        if !ok {
            assert_eq!(next, tile);
            assert_eq!(q.len(), asked);
        }
        tile = next;
        assert!(tile.occupancy() <= 3);
        assert!(tile.occupancy() <= TILE_CAPACITY);
        assert_eq!(tile.position(), (1, 1));
        let layers: Vec<usize> = types_on(&tile).iter().map(|t| t.layer()).collect();
        for pair in layers.windows(2) {
            assert!(pair[0] < pair[1]);
        }
        for layer in layers {
            assert!(layer >= 1);
        }
    }
}
