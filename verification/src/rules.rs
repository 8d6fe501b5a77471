//! What follows from the stacking rules of [`TileView::push`].
//!
//! Every statement here is about the model of a tile; [`Tile::push`] is
//! proved to behave as the model does.
//!
//! [`Tile::push`]: crate::tile::Tile::push

use vstd::prelude::*;
use crate::display::{DisplayRequest, handles_in_order};
use crate::tile::{
    display_kind, lemma_ordered_stack, merged_units, ContentView, Placement, TileView, TILE_CAPACITY,
};
use crate::tile_type::{Resource, TileTypeView, MAX_RESOURCE_PER_TILE};

verus! {

/// An ordered stack fits the slots of a tile, and its layers never decrease
/// from bottom to top.
pub proof fn lemma_stack_sorted(v: TileView)
    requires
        v.ordered(),
    ensures
        v.stack.len() <= TILE_CAPACITY,
        forall|i: int, j: int|
            0 <= i <= j < v.stack.len() ==> (#[trigger] v.stack[i]).tile_type.layer() <= (
            #[trigger] v.stack[j]).tile_type.layer(),
{
    lemma_ordered_stack(v);
}

/// Whatever is pushed, accepted or not, the stack stays ordered, and the
/// tile keeps its position and its neighbors.
pub proof fn lemma_push_keeps_order(
    v: TileView,
    requests: Seq<DisplayRequest>,
    t: TileTypeView,
    rot: u8,
)
    requires
        v.ordered(),
    ensures
        v.push(requests, t, rot).tile.ordered(),
        v.push(requests, t, rot).tile.pos == v.pos,
        v.push(requests, t, rot).tile.neighbors == v.neighbors,
{
    lemma_ordered_stack(v);
    let after = v.push(requests, t, rot).tile;
    if v.accepts(t) && !(t is Empty) && !v.absorbs(t) {
        assert forall|i: int, j: int| 0 <= i < j < after.stack.len() implies (
        #[trigger] after.stack[i]).tile_type.layer() < (#[trigger] after.stack[j]).tile_type.layer() by {
            if j == v.stack.len() {
                assert(after.stack[i] == v.stack[i]);
                assert(v.stack[i].tile_type.layer() <= v.top_type().layer());
            } else {
                assert(after.stack[i] == v.stack[i]);
                assert(after.stack[j] == v.stack[j]);
            }
        }
    }
}

/// A push never disturbs the numbering of the display queue: if every
/// object so far was created at the queue position its handle names, so is
/// every object afterwards.
pub proof fn lemma_push_keeps_handles(
    v: TileView,
    requests: Seq<DisplayRequest>,
    t: TileTypeView,
    rot: u8,
)
    requires
        handles_in_order(requests),
        requests.len() < usize::MAX,
    ensures
        handles_in_order(v.push(requests, t, rot).requests),
{
}

/// A push only ever adds to the end of the display queue, and adds at most
/// two requests.
pub proof fn lemma_push_extends_queue(
    v: TileView,
    requests: Seq<DisplayRequest>,
    t: TileTypeView,
    rot: u8,
)
    ensures
        requests.is_prefix_of(v.push(requests, t, rot).requests),
        v.push(requests, t, rot).requests.len() <= requests.len() + 2,
        !v.push(requests, t, rot).success ==> v.push(requests, t, rot).requests == requests,
{
}

/// Pushing `Empty` on an occupied tile removes the topmost content and
/// nothing else, and asks for its visual object to be destroyed.  On a bare
/// tile it is rejected and changes nothing.
pub proof fn lemma_pop(v: TileView, requests: Seq<DisplayRequest>, rot: u8)
    ensures
        v.stack.len() > 0 ==> {
            let p = v.push(requests, TileTypeView::Empty, rot);
            &&& p.success
            &&& p.tile.stack.len() == v.stack.len() - 1
            &&& p.tile.stack == v.stack.take(v.stack.len() - 1)
            &&& p.requests == requests.push(
                DisplayRequest::Destroy { handle: v.stack.last().handle },
            )
        },
        v.stack.len() == 0 ==> v.push(requests, TileTypeView::Empty, rot) == (Placement {
            tile: v,
            requests,
            success: false,
        }),
{
}

/// Ore needs bare ground: on an occupied tile it is rejected and nothing
/// changes; on a bare tile it becomes the only content.
pub proof fn lemma_ore_needs_bare_ground(
    v: TileView,
    requests: Seq<DisplayRequest>,
    t: TileTypeView,
    rot: u8,
)
    requires
        t.is_ore(),
    ensures
        v.stack.len() > 0 ==> v.push(requests, t, rot) == (Placement {
            tile: v,
            requests,
            success: false,
        }),
        v.stack.len() == 0 ==> {
            let p = v.push(requests, t, rot);
            &&& p.success
            &&& p.tile.stack == seq![
                ContentView { handle: requests.len() as usize, tile_type: t, rot },
            ]
            &&& p.requests.len() == requests.len() + 1
            &&& p.requests.last() == (DisplayRequest::Create {
                handle: requests.len() as usize,
                kind: display_kind(t),
                position: v.pos,
                rotation: rot,
                parent: None,
            })
        },
{
    if v.stack.len() == 0 {
        assert(v.push(requests, t, rot).tile.stack =~= seq![
            ContentView { handle: requests.len() as usize, tile_type: t, rot },
        ]);
    }
}

/// A building is accepted exactly when what lies on top is below the
/// building layer: on bare ground and on ore it is accepted, on another
/// building or on a resource stack it is rejected and nothing changes.
pub proof fn lemma_building_boundary(
    v: TileView,
    requests: Seq<DisplayRequest>,
    t: TileTypeView,
    rot: u8,
)
    requires
        t.is_building(),
    ensures
        v.push(requests, t, rot).success <==> v.top_type().layer() < 2,
        v.stack.len() == 0 ==> v.push(requests, t, rot).success,
        v.top_type().is_ore() ==> v.push(requests, t, rot).success,
        v.top_type().is_building() ==> v.push(requests, t, rot) == (Placement {
            tile: v,
            requests,
            success: false,
        }),
        v.push(requests, t, rot).success ==> v.push(requests, t, rot).tile.stack == v.stack.push(
            ContentView { handle: requests.len() as usize, tile_type: t, rot },
        ),
{
}

/// Resources pushed onto a resource stack are merged into it when the
/// total stays below the capacity: the stack grows by the pushed units, no
/// content is added and the display queue is left alone.  When the total
/// would reach the capacity the push is rejected and nothing changes.
pub proof fn lemma_merge(
    v: TileView,
    requests: Seq<DisplayRequest>,
    units: Seq<Resource>,
    count: nat,
    rot: u8,
)
    requires
        v.top_type() is ResourceTile,
        count > 0,
    ensures
        ({
            let have = v.top_type();
            let p = v.push(requests, TileTypeView::ResourceTile { units, count }, rot);
            if have->count + count < MAX_RESOURCE_PER_TILE {
                &&& p.success
                &&& p.requests == requests
                &&& p.tile.stack.len() == v.stack.len()
                &&& p.tile.stack.drop_last() == v.stack.drop_last()
                &&& p.tile.stack.last().handle == v.stack.last().handle
                &&& p.tile.stack.last().rot == v.stack.last().rot
                &&& p.tile.top_type() == (TileTypeView::ResourceTile {
                    units: merged_units(have->units, have->count, units, count),
                    count: have->count + count,
                })
            } else {
                p == (Placement { tile: v, requests, success: false })
            }
        }),
{
    let p = v.push(requests, TileTypeView::ResourceTile { units, count }, rot);
    if v.top_type()->count + count < MAX_RESOURCE_PER_TILE {
        assert(p.tile.stack.drop_last() =~= v.stack.drop_last());
    }
}

/// The units that a merge copies in arrive in order behind the units that
/// were there, which stay as they were.
pub proof fn lemma_merged_units(
    have: Seq<Resource>,
    have_count: nat,
    units: Seq<Resource>,
    count: nat,
)
    requires
        have_count + count <= have.len(),
        count <= units.len(),
    ensures
        merged_units(have, have_count, units, count).len() == have.len(),
        merged_units(have, have_count, units, count).take(have_count as int) == have.take(
            have_count as int,
        ),
        merged_units(have, have_count, units, count).subrange(
            have_count as int,
            (have_count + count) as int,
        ) == units.take(count as int),
        merged_units(have, have_count, units, count).skip((have_count + count) as int)
            == have.skip((have_count + count) as int),
{
    let m = merged_units(have, have_count, units, count);
    assert(m.take(have_count as int) =~= have.take(have_count as int));
    let end = (have_count + count) as int;
    assert(m.subrange(have_count as int, end) =~= units.take(count as int));
    assert(m.skip(end) =~= have.skip(end));
}

/// A push that adds a content is undone by pushing `Empty`: the tile is
/// back to what it was.  This covers every accepted push except a merge
/// into a resource stack, which adds no content, and `Empty` itself.
pub proof fn lemma_push_then_pop(
    v: TileView,
    requests: Seq<DisplayRequest>,
    t: TileTypeView,
    rot: u8,
    later: Seq<DisplayRequest>,
    rot2: u8,
)
    requires
        v.accepts(t),
        !(t is Empty),
        !v.absorbs(t),
    ensures
        v.push(requests, t, rot).success,
        v.push(requests, t, rot).tile.stack.len() == v.stack.len() + 1,
        v.push(requests, t, rot).tile.push(later, TileTypeView::Empty, rot2).success,
        v.push(requests, t, rot).tile.push(later, TileTypeView::Empty, rot2).tile == v,
{
    let pushed = v.push(requests, t, rot).tile;
    let popped = pushed.push(later, TileTypeView::Empty, rot2).tile;
    assert(popped.stack =~= v.stack);
}

} // verus!
