//! What follows from the shape of a well-formed grid and from the way a
//! world is populated.

use vstd::prelude::*;
use crate::direction::Direction;
use crate::display::{DisplayKind, DisplayRequest};
use crate::grid::{
    column_of, flat_index, lemma_flat_index, row_of, scattered, step_from, vein_in_cell, GridView,
    Vein, World,
};
use crate::rules::lemma_push_keeps_order;
use crate::tile::{ContentView, TileView};
use crate::tile_type::TileTypeView;

verus! {

/// Neighbor links come in pairs: if the neighbor of tile `a` in direction
/// `d` is tile `b`, then the neighbor of `b` in the opposite direction is
/// `a`.  A link is absent exactly where the step would leave the grid.
pub proof fn lemma_links_symmetric(g: GridView, a: int, d: Direction)
    requires
        g.wf(),
        0 <= a < g.tiles.len(),
    ensures
        g.tiles[a].neighbors.len() == 4,
        match g.tiles[a].neighbors[d.spec_index() as int] {
            Some(b) => {
                &&& b < g.tiles.len()
                &&& b != a
                &&& g.tiles[b as int].neighbors.len() == 4
                &&& g.tiles[b as int].neighbors[d.spec_opposite().spec_index() as int] == Some(
                    a as usize,
                )
            },
            None => step_from(g.size, column_of(g.size, a), row_of(g.size, a), d) is None,
        },
{
    let n = g.size;
    let col = column_of(n, a);
    let row = row_of(n, a);
    lemma_index_parts(n, a);
    match step_from(n, col, row, d) {
        Some((c, r)) => {
            lemma_flat_index(n, c, r);
            let b = flat_index(n, c, r) as int;
            assert(g.tiles[b].neighbors[d.spec_opposite().spec_index() as int] == Some(
                a as usize,
            ));
        },
        None => {},
    }
}

/// The tiles on an edge of the grid, and only they, lack the neighbor on
/// that side.
pub proof fn lemma_edge_links(g: GridView, a: int)
    requires
        g.wf(),
        0 <= a < g.tiles.len(),
    ensures
        g.tiles[a].neighbors.len() == 4,
        g.tiles[a].neighbors[Direction::East.spec_index() as int] is None <==> column_of(g.size, a)
            == g.size - 1,
        g.tiles[a].neighbors[Direction::West.spec_index() as int] is None <==> column_of(g.size, a)
            == 0,
        g.tiles[a].neighbors[Direction::North.spec_index() as int] is None <==> row_of(g.size, a)
            == g.size - 1,
        g.tiles[a].neighbors[Direction::South.spec_index() as int] is None <==> row_of(g.size, a)
            == 0,
{
    lemma_index_parts(g.size, a);
}

/// An index inside the grid splits into a column and a row inside the grid.
pub proof fn lemma_index_parts(size: nat, a: int)
    requires
        0 <= a < size * size,
    ensures
        column_of(size, a) < size,
        row_of(size, a) < size,
        flat_index(size, column_of(size, a), row_of(size, a)) == a,
{
    assert(size > 0) by (nonlinear_arith)
        requires
            0 <= a < size * size,
    ;
    let n = size as int;
    vstd::arithmetic::div_mod::lemma_fundamental_div_mod(a, n);
    vstd::arithmetic::div_mod::lemma_div_pos_is_pos(a, n);
    assert(a / n < n) by (nonlinear_arith)
        requires
            0 <= a < n * n,
            n > 0,
            a == n * (a / n) + (a % n),
            0 <= a % n,
    ;
    assert(n * (a / n) == (a / n) * n) by (nonlinear_arith);
}

/// A push anywhere in a well-formed grid leaves it well-formed.
pub proof fn lemma_place_keeps_wf(w: World, idx: int, t: TileTypeView, rot: u8)
    requires
        w.grid.wf(),
        0 <= idx < w.grid.tiles.len(),
    ensures
        w.place(idx, t, rot).grid.wf(),
        w.place(idx, t, rot).grid.size == w.grid.size,
{
    lemma_push_keeps_order(w.grid.tiles[idx], w.requests, t, rot);
}

/// Laying ore along a path inside a well-formed grid leaves it well-formed.
pub proof fn lemma_lay_keeps_wf(w: World, ore: TileTypeView, path: Seq<int>)
    requires
        w.grid.wf(),
        forall|k: int| 0 <= k < path.len() ==> 0 <= #[trigger] path[k] < w.grid.tiles.len(),
    ensures
        w.lay(ore, path).grid.wf(),
        w.lay(ore, path).grid.size == w.grid.size,
    decreases path.len(),
{
    if path.len() > 0 {
        lemma_lay_keeps_wf(w, ore, path.drop_last());
        lemma_place_keeps_wf(w.lay(ore, path.drop_last()), path.last(), ore, 0);
    }
}

/// Laying ore along a path inside the grid never changes the number of tiles.
pub proof fn lemma_lay_keeps_size(w: World, ore: TileTypeView, path: Seq<int>)
    requires
        forall|k: int| 0 <= k < path.len() ==> 0 <= #[trigger] path[k] < w.grid.tiles.len(),
    ensures
        w.lay(ore, path).grid.tiles.len() == w.grid.tiles.len(),
        w.lay(ore, path).grid.size == w.grid.size,
    decreases path.len(),
{
    if path.len() > 0 {
        lemma_lay_keeps_size(w, ore, path.drop_last());
    }
}

/// Either nothing happened to a tile, or it was bare and now holds one
/// unrotated ore and nothing else.
pub open spec fn same_or_ore(before: TileView, after: TileView) -> bool {
    ||| after == before
    ||| {
        &&& before.stack.len() == 0
        &&& after.pos == before.pos
        &&& after.neighbors == before.neighbors
        &&& after.stack.len() == 1
        &&& after.stack[0].tile_type.is_ore()
        &&& after.stack[0].rot == 0
    }
}

/// Every path of `veins` stays inside a grid of `tiles` tiles, and every
/// vein is made of ore.
pub open spec fn veins_fit(tiles: nat, veins: Seq<Vein>) -> bool {
    forall|n: int|
        0 <= n < veins.len() ==> {
            let v = #[trigger] veins[n];
            &&& v.ore.is_ore()
            &&& forall|k: int| 0 <= k < v.path.len() ==> 0 <= #[trigger] v.path[k] < tiles
        }
}

/// Ore laid along a path changes only bare tiles on the path, and leaves
/// one ore on each tile it changes.
pub proof fn lemma_lay_tile(w: World, ore: TileTypeView, path: Seq<int>, k: int)
    requires
        ore.is_ore(),
        0 <= k < w.grid.tiles.len(),
        forall|n: int| 0 <= n < path.len() ==> 0 <= #[trigger] path[n] < w.grid.tiles.len(),
    ensures
        w.lay(ore, path).grid.tiles.len() == w.grid.tiles.len(),
        same_or_ore(w.grid.tiles[k], w.lay(ore, path).grid.tiles[k]),
        w.grid.tiles[k].stack.len() > 0 || !path.contains(k) ==> w.lay(ore, path).grid.tiles[k]
            == w.grid.tiles[k],
    decreases path.len(),
{
    if path.len() > 0 {
        let shorter = path.drop_last();
        assert forall|n: int| 0 <= n < shorter.len() implies 0 <= #[trigger] shorter[n]
            < w.grid.tiles.len() by {
            assert(shorter[n] == path[n]);
        }
        if !path.contains(k) {
            assert forall|n: int| 0 <= n < shorter.len() implies shorter[n] != k by {
                assert(shorter[n] == path[n]);
            }
            assert(path.last() == path[path.len() - 1]);
        }
        lemma_lay_tile(w, ore, shorter, k);
    }
}

/// Laying veins changes only bare tiles, and leaves one ore on each tile
/// it changes.
pub proof fn lemma_lay_all_tile(w: World, veins: Seq<Vein>, k: int)
    requires
        0 <= k < w.grid.tiles.len(),
        veins_fit(w.grid.tiles.len(), veins),
    ensures
        w.lay_all(veins).grid.tiles.len() == w.grid.tiles.len(),
        w.lay_all(veins).grid.size == w.grid.size,
        same_or_ore(w.grid.tiles[k], w.lay_all(veins).grid.tiles[k]),
        w.grid.tiles[k].stack.len() > 0 ==> w.lay_all(veins).grid.tiles[k] == w.grid.tiles[k],
    decreases veins.len(),
{
    if veins.len() > 0 {
        let earlier = veins.drop_last();
        assert forall|n: int| 0 <= n < earlier.len() implies {
            let v = #[trigger] earlier[n];
            &&& v.ore.is_ore()
            &&& forall|i: int| 0 <= i < v.path.len() ==> 0 <= #[trigger] v.path[i] < w.grid.tiles.len()
        } by {
            assert(earlier[n] == veins[n]);
        }
        lemma_lay_all_tile(w, earlier, k);
        let v = veins.last();
        assert(v == veins[veins.len() - 1]);
        lemma_lay_tile(w.lay_all(earlier), v.ore, v.path, k);
        lemma_lay_keeps_size(w.lay_all(earlier), v.ore, v.path);
    }
}

/// Laying veins inside a well-formed grid leaves it well-formed.
pub proof fn lemma_lay_all_keeps_wf(w: World, veins: Seq<Vein>)
    requires
        w.grid.wf(),
        veins_fit(w.grid.tiles.len(), veins),
    ensures
        w.lay_all(veins).grid.wf(),
        w.lay_all(veins).grid.size == w.grid.size,
    decreases veins.len(),
{
    if veins.len() > 0 {
        let earlier = veins.drop_last();
        assert forall|n: int| 0 <= n < earlier.len() implies {
            let v = #[trigger] earlier[n];
            &&& v.ore.is_ore()
            &&& forall|i: int| 0 <= i < v.path.len() ==> 0 <= #[trigger] v.path[i] < w.grid.tiles.len()
        } by {
            assert(earlier[n] == veins[n]);
        }
        lemma_lay_all_keeps_wf(w, earlier);
        let v = veins.last();
        assert(v == veins[veins.len() - 1]);
        lemma_lay_keeps_wf(w.lay_all(earlier), v.ore, v.path);
    }
}

/// The veins that a scatter lays fit the grid they are laid on.
pub proof fn lemma_scattered_fits(size: nat, spacing: nat, veins: Seq<Vein>)
    requires
        scattered(size, spacing, veins),
    ensures
        veins_fit(size * size, veins),
{
    assert forall|n: int| 0 <= n < veins.len() implies {
        let v = #[trigger] veins[n];
        &&& v.ore.is_ore()
        &&& forall|k: int| 0 <= k < v.path.len() ==> 0 <= #[trigger] v.path[k] < size * size
    } by {
        let cells = size / spacing;
        assert(vein_in_cell(size, spacing, column_of(cells, n), row_of(cells, n), veins[n]));
    }
}

/// The starting layout on a newly allocated grid: every one of its pushes
/// is accepted, so the centre holds a printer, the tiles east, west and
/// south of it hold a wire extruder on iron, copper and silicon, and the
/// tile north of it holds a worker.  Nine visual objects are asked for, the
/// last two being the worker's base and arm.
pub proof fn lemma_seeded_layout(size: nat, requests: Seq<DisplayRequest>)
    requires
        3 <= size,
        size * size <= usize::MAX,
        requests.len() + 9 <= usize::MAX,
    ensures
        ({
            let w = World::fresh(size, requests).seeded();
            let c = size / 2;
            let h = requests.len() as usize;
            let on = |col: nat, row: nat| w.grid.tiles[flat_index(size, col, row) as int].stack;
            &&& w.grid.size == size
            &&& w.grid.tiles.len() == size * size
            &&& w.requests.len() == requests.len() + 9
            &&& on(c, c) == seq![
                ContentView { handle: h, tile_type: TileTypeView::Printer3D, rot: 0 },
            ]
            &&& on(c + 1, c) == seq![
                ContentView { handle: (h + 1) as usize, tile_type: TileTypeView::Iron, rot: 0 },
                ContentView {
                    handle: (h + 4) as usize,
                    tile_type: TileTypeView::WireExtruder,
                    rot: 0,
                },
            ]
            &&& on((c - 1) as nat, c) == seq![
                ContentView { handle: (h + 2) as usize, tile_type: TileTypeView::Copper, rot: 0 },
                ContentView {
                    handle: (h + 5) as usize,
                    tile_type: TileTypeView::WireExtruder,
                    rot: 2,
                },
            ]
            &&& on(c, (c - 1) as nat) == seq![
                ContentView { handle: (h + 3) as usize, tile_type: TileTypeView::Silicon, rot: 0 },
                ContentView {
                    handle: (h + 6) as usize,
                    tile_type: TileTypeView::WireExtruder,
                    rot: 3,
                },
            ]
            &&& on(c, c + 1) == seq![
                ContentView { handle: (h + 7) as usize, tile_type: TileTypeView::Worker, rot: 1 },
            ]
            &&& w.requests[requests.len() as int + 7] == (DisplayRequest::Create {
                handle: (h + 7) as usize,
                kind: DisplayKind::WorkerBase,
                position: (0, 1),
                rotation: 1,
                parent: None,
            })
            &&& w.requests[requests.len() as int + 8] == (DisplayRequest::Create {
                handle: (h + 8) as usize,
                kind: DisplayKind::WorkerArm,
                position: (0, 1),
                rotation: 0,
                parent: Some((h + 7) as usize),
            })
            &&& forall|k: int|
                #![trigger w.grid.tiles[k]]
                0 <= k < size * size && k != flat_index(size, c, c) && k != flat_index(
                    size,
                    c + 1,
                    c,
                ) && k != flat_index(size, (c - 1) as nat, c) && k != flat_index(
                    size,
                    c,
                    (c - 1) as nat,
                ) && k != flat_index(size, c, c + 1) ==> w.grid.tiles[k]
                    == GridView::fresh(size).tiles[k]
        }),
{
    let c = size / 2;
    lemma_flat_index(size, c, c);
    lemma_flat_index(size, c + 1, c);
    lemma_flat_index(size, (c - 1) as nat, c);
    lemma_flat_index(size, c, (c - 1) as nat);
    lemma_flat_index(size, c, c + 1);
    let middle = flat_index(size, c, c) as int;
    let east = flat_index(size, c + 1, c) as int;
    let west = flat_index(size, (c - 1) as nat, c) as int;
    let south = flat_index(size, c, (c - 1) as nat) as int;
    let north = flat_index(size, c, c + 1) as int;
    let w0 = World::fresh(size, requests);
    let w1 = w0.place(middle, TileTypeView::Printer3D, 0);
    let w2 = w1.place(east, TileTypeView::Iron, 0);
    let w3 = w2.place(west, TileTypeView::Copper, 0);
    let w4 = w3.place(south, TileTypeView::Silicon, 0);
    let w5 = w4.place(east, TileTypeView::WireExtruder, 0);
    let w6 = w5.place(west, TileTypeView::WireExtruder, 2);
    let w7 = w6.place(south, TileTypeView::WireExtruder, 3);
    let w8 = w7.place(north, TileTypeView::Worker, 1);
    assert(w8 == w0.seeded());
    let h = requests.len() as usize;
    assert(w1.grid.tiles[middle].stack =~= seq![
        ContentView { handle: h, tile_type: TileTypeView::Printer3D, rot: 0 },
    ]);
    assert(w1.requests.len() == requests.len() + 1);
    assert(w2.grid.tiles[east].stack =~= seq![
        ContentView { handle: (h + 1) as usize, tile_type: TileTypeView::Iron, rot: 0 },
    ]);
    assert(w2.requests.len() == requests.len() + 2);
    assert(w3.grid.tiles[west].stack =~= seq![
        ContentView { handle: (h + 2) as usize, tile_type: TileTypeView::Copper, rot: 0 },
    ]);
    assert(w3.requests.len() == requests.len() + 3);
    assert(w4.grid.tiles[south].stack =~= seq![
        ContentView { handle: (h + 3) as usize, tile_type: TileTypeView::Silicon, rot: 0 },
    ]);
    assert(w4.requests.len() == requests.len() + 4);
    assert(w5.grid.tiles[east].stack =~= seq![
        ContentView { handle: (h + 1) as usize, tile_type: TileTypeView::Iron, rot: 0 },
        ContentView { handle: (h + 4) as usize, tile_type: TileTypeView::WireExtruder, rot: 0 },
    ]);
    assert(w5.requests.len() == requests.len() + 5);
    assert(w6.grid.tiles[west].stack =~= seq![
        ContentView { handle: (h + 2) as usize, tile_type: TileTypeView::Copper, rot: 0 },
        ContentView { handle: (h + 5) as usize, tile_type: TileTypeView::WireExtruder, rot: 2 },
    ]);
    assert(w6.requests.len() == requests.len() + 6);
    assert(w7.grid.tiles[south].stack =~= seq![
        ContentView { handle: (h + 3) as usize, tile_type: TileTypeView::Silicon, rot: 0 },
        ContentView { handle: (h + 6) as usize, tile_type: TileTypeView::WireExtruder, rot: 3 },
    ]);
    assert(w7.requests.len() == requests.len() + 7);
    assert(w7.grid.tiles[north].pos == (0i32, 1i32));
    assert(w8.grid.tiles[north].stack =~= seq![
        ContentView { handle: (h + 7) as usize, tile_type: TileTypeView::Worker, rot: 1 },
    ]);
    assert(w8.requests.len() == requests.len() + 9);
}

/// What a scatter does to a world, whichever way the random draws fell:
/// the grid stays well-formed, every occupied tile keeps what it holds, and
/// every bare tile stays bare or receives a single ore.
pub proof fn lemma_scatter_world(w: World, spacing: nat, veins: Seq<Vein>, k: int)
    requires
        w.grid.wf(),
        scattered(w.grid.size, spacing, veins),
        0 <= k < w.grid.tiles.len(),
    ensures
        w.lay_all(veins).grid.wf(),
        w.lay_all(veins).grid.size == w.grid.size,
        same_or_ore(w.grid.tiles[k], w.lay_all(veins).grid.tiles[k]),
        w.grid.tiles[k].stack.len() > 0 ==> w.lay_all(veins).grid.tiles[k] == w.grid.tiles[k],
{
    lemma_scattered_fits(w.grid.size, spacing, veins);
    lemma_lay_all_keeps_wf(w, veins);
    lemma_lay_all_tile(w, veins, k);
}

/// A newly allocated grid is well-formed.
pub proof fn lemma_fresh_wf(size: nat)
    requires
        size <= i32::MAX,
        size * size <= usize::MAX,
    ensures
        GridView::fresh(size).wf(),
{
}

/// Placing the starting layout leaves a well-formed grid well-formed.
pub proof fn lemma_seeded_keeps_wf(w: World)
    requires
        w.grid.wf(),
        w.grid.size >= 3,
    ensures
        w.seeded().grid.wf(),
        w.seeded().grid.size == w.grid.size,
{
    let n = w.grid.size;
    let c = n / 2;
    lemma_flat_index(n, c, c);
    lemma_flat_index(n, c + 1, c);
    lemma_flat_index(n, (c - 1) as nat, c);
    lemma_flat_index(n, c, (c - 1) as nat);
    lemma_flat_index(n, c, c + 1);
    let middle = flat_index(n, c, c) as int;
    let east = flat_index(n, c + 1, c) as int;
    let west = flat_index(n, (c - 1) as nat, c) as int;
    let south = flat_index(n, c, (c - 1) as nat) as int;
    let north = flat_index(n, c, c + 1) as int;
    let w1 = w.place(middle, TileTypeView::Printer3D, 0);
    lemma_place_keeps_wf(w, middle, TileTypeView::Printer3D, 0);
    let w2 = w1.place(east, TileTypeView::Iron, 0);
    lemma_place_keeps_wf(w1, east, TileTypeView::Iron, 0);
    let w3 = w2.place(west, TileTypeView::Copper, 0);
    lemma_place_keeps_wf(w2, west, TileTypeView::Copper, 0);
    let w4 = w3.place(south, TileTypeView::Silicon, 0);
    lemma_place_keeps_wf(w3, south, TileTypeView::Silicon, 0);
    let w5 = w4.place(east, TileTypeView::WireExtruder, 0);
    lemma_place_keeps_wf(w4, east, TileTypeView::WireExtruder, 0);
    let w6 = w5.place(west, TileTypeView::WireExtruder, 2);
    lemma_place_keeps_wf(w5, west, TileTypeView::WireExtruder, 2);
    let w7 = w6.place(south, TileTypeView::WireExtruder, 3);
    lemma_place_keeps_wf(w6, south, TileTypeView::WireExtruder, 3);
    lemma_place_keeps_wf(w7, north, TileTypeView::Worker, 1);
}

} // verus!
