//! One grid cell: a bounded stack of placed contents.
//!
//! Contents are stacked bottom to top in strictly increasing layer order: at
//! most one ore, then at most one building, then at most one resource stack.
//! [`Tile::push`] is the only operation that changes a stack.

use vstd::prelude::*;
use crate::direction::Direction;
use crate::display::{DisplayHandle, DisplayKind, DisplayQueue, DisplayRequest};
use crate::tile_type::{Resource, TileType, TileTypeView, MAX_RESOURCE_PER_TILE};

verus! {

/// Number of content slots a tile has.
pub const TILE_CAPACITY: usize = 16;

/// One placed content: the visual object that shows it, what it is, and how
/// many quarter turns it is rotated.
#[derive(Copy, Clone, Debug, PartialEq, Eq)]
pub struct TileContent {
    pub this: DisplayHandle,
    pub tile_type: TileType,
    pub rot: u8,
}

/// Model of a [`TileContent`].
pub struct ContentView {
    pub handle: DisplayHandle,
    pub tile_type: TileTypeView,
    pub rot: u8,
}

impl View for TileContent {
    type V = ContentView;

    open spec fn view(&self) -> ContentView {
        ContentView { handle: self.this, tile_type: self.tile_type@, rot: self.rot }
    }
}

/// One cell of the grid.
#[derive(Copy, Clone, Debug, PartialEq, Eq)]
pub struct Tile {
    pos: (i32, i32),
    contents: [Option<TileContent>; TILE_CAPACITY],
    stuff: usize,
    neighbors: [Option<usize>; 4],
}

/// Model of a [`Tile`]: its position, its occupied slots from bottom to top,
/// and the grid index of the neighbor in each [`Direction`].
pub struct TileView {
    pub pos: (i32, i32),
    pub stack: Seq<ContentView>,
    pub neighbors: Seq<Option<usize>>,
}

/// What a push does: the tile afterwards, the display queue afterwards, and
/// whether the push was accepted.
pub struct Placement {
    pub tile: TileView,
    pub requests: Seq<DisplayRequest>,
    pub success: bool,
}

/// The buffer of a resource stack that already holds `have_count` units
/// after `count` more are copied in from the front of `units`.
pub open spec fn merged_units(
    have: Seq<Resource>,
    have_count: nat,
    units: Seq<Resource>,
    count: nat,
) -> Seq<Resource> {
    Seq::new(
        have.len(),
        |k: int|
            if have_count <= k < have_count + count {
                units[k - have_count]
            } else {
                have[k]
            },
    )
}

/// The sprite that shows a tile type.  A worker is shown by its base; the
/// arm is a second object parented to it.
pub open spec fn display_kind(t: TileTypeView) -> DisplayKind {
    match t {
        TileTypeView::Copper => DisplayKind::Copper,
        TileTypeView::Iron => DisplayKind::Iron,
        TileTypeView::Silicon => DisplayKind::Silicon,
        TileTypeView::Printer3D => DisplayKind::Printer3D,
        TileTypeView::WireExtruder => DisplayKind::WireExtruder,
        TileTypeView::Worker => DisplayKind::WorkerBase,
        _ => DisplayKind::ResourceTile,
    }
}

impl TileView {
    /// A tile at `pos` with nothing on it and no neighbors linked.
    pub open spec fn bare(pos: (i32, i32)) -> TileView {
        TileView { pos, stack: Seq::empty(), neighbors: Seq::new(4, |k: int| None) }
    }

    /// Layers strictly increase from bottom to top, and raw ground is never
    /// stored as a content.
    pub open spec fn ordered(self) -> bool {
        &&& forall|i: int|
            0 <= i < self.stack.len() ==> 1 <= (#[trigger] self.stack[i]).tile_type.layer()
        &&& forall|i: int, j: int|
            0 <= i < j < self.stack.len() ==> (#[trigger] self.stack[i]).tile_type.layer() < (
            #[trigger] self.stack[j]).tile_type.layer()
    }

    /// Type of the topmost content, or `Empty` for a bare tile.
    pub open spec fn top_type(self) -> TileTypeView {
        if self.stack.len() == 0 {
            TileTypeView::Empty
        } else {
            self.stack.last().tile_type
        }
    }

    /// Whether a push of `t` is legal on this tile.
    pub open spec fn accepts(self, t: TileTypeView) -> bool {
        match t {
            TileTypeView::Empty => self.stack.len() > 0,
            TileTypeView::Copper | TileTypeView::Iron | TileTypeView::Silicon => self.stack.len()
                == 0,
            TileTypeView::Printer3D | TileTypeView::WireExtruder | TileTypeView::Worker =>
                self.top_type().layer() < TileTypeView::Printer3D.layer(),
            TileTypeView::ResourceTile { units, count } => {
                &&& count > 0
                &&& match self.top_type() {
                    TileTypeView::ResourceTile { count: have_count, .. } => have_count + count
                        < MAX_RESOURCE_PER_TILE,
                    _ => true,
                }
            },
        }
    }

    /// Whether a push of `t` would be taken up by the resource stack already
    /// on top instead of adding a content.
    pub open spec fn absorbs(self, t: TileTypeView) -> bool {
        t is ResourceTile && self.top_type() is ResourceTile
    }

    /// The stack after an accepted push of `t`, where `handle` is the handle
    /// of the visual object made for a new content.
    pub open spec fn stack_after(self, handle: DisplayHandle, t: TileTypeView, rot: u8) -> Seq<
        ContentView,
    > {
        if t is Empty {
            self.stack.drop_last()
        } else if self.absorbs(t) {
            let top = self.stack.last();
            self.stack.update(
                self.stack.len() - 1,
                ContentView {
                    handle: top.handle,
                    tile_type: TileTypeView::ResourceTile {
                        units: merged_units(
                            top.tile_type->units,
                            top.tile_type->count,
                            t->units,
                            t->count,
                        ),
                        count: top.tile_type->count + t->count,
                    },
                    rot: top.rot,
                },
            )
        } else {
            self.stack.push(ContentView { handle, tile_type: t, rot })
        }
    }

    /// The display queue after an accepted push of `t`.
    pub open spec fn requests_after(
        self,
        requests: Seq<DisplayRequest>,
        t: TileTypeView,
        rot: u8,
    ) -> Seq<DisplayRequest> {
        let base = requests.len() as usize;
        if t is Empty {
            requests.push(DisplayRequest::Destroy { handle: self.stack.last().handle })
        } else if self.absorbs(t) {
            requests
        } else if t is Worker {
            requests.push(
                DisplayRequest::Create {
                    handle: base,
                    kind: DisplayKind::WorkerBase,
                    position: self.pos,
                    rotation: rot,
                    parent: None,
                },
            ).push(
                DisplayRequest::Create {
                    handle: (base + 1) as usize,
                    kind: DisplayKind::WorkerArm,
                    position: self.pos,
                    rotation: 0,
                    parent: Some(base),
                },
            )
        } else {
            requests.push(
                DisplayRequest::Create {
                    handle: base,
                    kind: display_kind(t),
                    position: self.pos,
                    rotation: rot,
                    parent: None,
                },
            )
        }
    }

    /// The effect of pushing `t` with rotation `rot` while the display queue
    /// holds `requests`.  A rejected push changes nothing.
    pub open spec fn push(self, requests: Seq<DisplayRequest>, t: TileTypeView, rot: u8) -> Placement {
        if self.accepts(t) {
            Placement {
                tile: TileView {
                    pos: self.pos,
                    stack: self.stack_after(requests.len() as usize, t, rot),
                    neighbors: self.neighbors,
                },
                requests: self.requests_after(requests, t, rot),
                success: true,
            }
        } else {
            Placement { tile: self, requests, success: false }
        }
    }
}

/// An ordered stack has at most one content per layer, so at most three in
/// all, and no content lies on a layer above the top one.
pub proof fn lemma_ordered_stack(v: TileView)
    requires
        v.ordered(),
    ensures
        v.stack.len() <= 3,
        v.stack.len() > 0 ==> v.top_type().layer() >= v.stack.len(),
        forall|i: int|
            0 <= i < v.stack.len() ==> (#[trigger] v.stack[i]).tile_type.layer()
                <= v.top_type().layer(),
        v.top_type() is ResourceTile <==> v.top_type().layer() == 3,
{
    let n = v.stack.len() as int;
    if n > 0 {
        assert(v.stack[0].tile_type.layer() >= 1);
    }
    if n > 1 {
        assert(v.stack[0].tile_type.layer() < v.stack[1].tile_type.layer());
        assert(v.stack[1].tile_type.layer() <= v.stack[n - 1].tile_type.layer());
    }
    if n > 2 {
        assert(v.stack[1].tile_type.layer() < v.stack[2].tile_type.layer());
        assert(v.stack[2].tile_type.layer() <= v.stack[n - 1].tile_type.layer());
    }
    if n > 3 {
        assert(v.stack[2].tile_type.layer() < v.stack[3].tile_type.layer());
    }
}

/// Copies the first `incoming.1` units of `incoming` in behind the units that
/// `have` already holds.
fn absorb(
    have: ([Resource; MAX_RESOURCE_PER_TILE], usize),
    incoming: ([Resource; MAX_RESOURCE_PER_TILE], usize),
) -> (r: ([Resource; MAX_RESOURCE_PER_TILE], usize))
    requires
        have.1 + incoming.1 < MAX_RESOURCE_PER_TILE,
    ensures
        r.0@ == merged_units(have.0@, have.1 as nat, incoming.0@, incoming.1 as nat),
        r.1 == have.1 + incoming.1,
{
    let mut buf = have.0;
    let mut n = have.1;
    let mut k: usize = 0;
    assert(buf@ =~= merged_units(have.0@, have.1 as nat, incoming.0@, 0));
    while k < incoming.1
        invariant
            k <= incoming.1,
            n == have.1 + k,
            have.1 + incoming.1 < MAX_RESOURCE_PER_TILE,
            buf@ == merged_units(have.0@, have.1 as nat, incoming.0@, k as nat),
        decreases incoming.1 - k,
    {
        buf[n] = incoming.0[k];
        n += 1;
        k += 1;
        assert(buf@ =~= merged_units(have.0@, have.1 as nat, incoming.0@, k as nat));
    }
    (buf, n)
}

impl View for Tile {
    type V = TileView;

    closed spec fn view(&self) -> TileView {
        TileView {
            pos: self.pos,
            stack: Seq::new(self.stuff as nat, |i: int| self.contents@[i].unwrap()@),
            neighbors: self.neighbors@,
        }
    }
}

impl Default for Tile {
    fn default() -> (t: Tile)
        ensures
            t.wf(),
            t@ == TileView::bare((0, 0)),
    {
        Tile::new((0, 0))
    }
}

impl Tile {
    /// The occupied slots are exactly the lowest ones, up to the occupancy count.
    pub closed spec fn packed(&self) -> bool {
        &&& self.stuff <= TILE_CAPACITY
        &&& forall|i: int|
            0 <= i < TILE_CAPACITY ==> ((#[trigger] self.contents@[i]) is Some <==> i < self.stuff)
    }

    /// The slots are packed and the stack is ordered.
    pub open spec fn wf(&self) -> bool {
        &&& self.packed()
        &&& self@.ordered()
    }

    /// A tile never holds more contents than it has slots, and always has
    /// four neighbor entries.
    pub proof fn lemma_capacity(self)
        requires
            self.packed(),
        ensures
            self@.stack.len() <= TILE_CAPACITY,
            self@.neighbors.len() == 4,
    {
    }

    /// A bare tile at `pos`.
    pub fn new(pos: (i32, i32)) -> (t: Tile)
        ensures
            t.wf(),
            t@ == TileView::bare(pos),
    {
        let t = Tile { pos, contents: [None; 16], stuff: 0, neighbors: [None; 4] };
        assert(t@.stack =~= Seq::empty());
        assert(t@.neighbors =~= Seq::new(4, |k: int| None));
        t
    }

    pub fn position(&self) -> (p: (i32, i32))
        ensures
            p == self@.pos,
    {
        self.pos
    }

    /// Number of contents on the tile.
    pub fn occupancy(&self) -> (n: usize)
        ensures
            n == self@.stack.len(),
    {
        self.stuff
    }

    /// The content in slot `i`, counted from the bottom.
    pub fn content(&self, i: usize) -> (c: Option<TileContent>)
        requires
            self.wf(),
        ensures
            i < self@.stack.len() ==> c is Some && c.unwrap()@ == self@.stack[i as int],
            i >= self@.stack.len() ==> c is None,
    {
        if i < self.stuff {
            self.contents[i]
        } else {
            None
        }
    }

    /// The topmost content.
    pub fn top(&self) -> (c: Option<TileContent>)
        requires
            self.wf(),
        ensures
            self@.stack.len() > 0 ==> c is Some && c.unwrap()@ == self@.stack.last(),
            self@.stack.len() == 0 ==> c is None,
    {
        if self.stuff > 0 {
            self.contents[self.stuff - 1]
        } else {
            None
        }
    }

    /// Grid index of the neighbor in direction `d`, if there is one.
    pub fn neighbor(&self, d: Direction) -> (n: Option<usize>)
        ensures
            self@.neighbors.len() == 4,
            n == self@.neighbors[d.spec_index() as int],
    {
        self.neighbors[d.index()]
    }

    /// The same tile with its neighbor list replaced.
    pub(crate) fn with_neighbors(self, neighbors: [Option<usize>; 4]) -> (t: Tile)
        ensures
            t@ == (TileView { neighbors: neighbors@, ..self@ }),
            self.wf() ==> t.wf(),
    {
        let t = Tile { pos: self.pos, contents: self.contents, stuff: self.stuff, neighbors };
        assert(t@.stack =~= self@.stack);
        t
    }

    /// Places `tile_type` on the tile, or removes the top content when
    /// `tile_type` is `Empty`.
    ///
    /// Ore goes only on bare ground, a building only on ground or ore, and a
    /// resource stack on anything; resources pushed onto a resource stack are
    /// merged into it as long as the total stays below
    /// [`MAX_RESOURCE_PER_TILE`].  The renderer is asked to create or destroy
    /// the matching visual object only when the push is accepted; a rejected
    /// push returns the tile as it was.
    pub fn push(self, display: &mut DisplayQueue, tile_type: TileType, rot: u8) -> (r: (Tile, bool))
        requires
            self.wf(),
        ensures
            r.0.wf(),
            r.0@ == self@.push(old(display)@, tile_type@, rot).tile,
            final(display)@ == self@.push(old(display)@, tile_type@, rot).requests,
            r.1 == self@.push(old(display)@, tile_type@, rot).success,
            !r.1 ==> r.0 == self,
            old(display).wf() ==> final(display).wf(),
    {
        let mut tile = self;
        let mut success = false;
        // fetch the type on top for the stacking rules
        let mut prev_tile = TileType::Empty;
        let is_empt = tile.stuff == 0;
        if !is_empt {
            prev_tile = tile.contents[tile.stuff - 1].unwrap().tile_type;
        }
        proof {
            lemma_ordered_stack(self@);
            assert(prev_tile@ == self@.top_type());
        }
        let ent: Option<DisplayHandle> = match tile_type {
            // pushing raw ground pops the top content
            TileType::Empty => {
                if !is_empt {
                    let top = tile.contents[tile.stuff - 1].unwrap();
                    display.destroy(top.this);
                    tile.contents[tile.stuff - 1] = None;
                    tile.stuff -= 1;
                    success = true;
                    proof {
                        assert(tile@.stack =~= self@.stack.drop_last());
                    }
                }
                return (tile, success);
            },
            // ore is the bottom layer and needs bare ground
            TileType::Copper => {
                if is_empt {
                    success = true;
                    Some(display.create(DisplayKind::Copper, tile.pos, rot, None))
                } else {
                    None
                }
            },
            TileType::Iron => {
                if is_empt {
                    success = true;
                    Some(display.create(DisplayKind::Iron, tile.pos, rot, None))
                } else {
                    None
                }
            },
            TileType::Silicon => {
                if is_empt {
                    success = true;
                    Some(display.create(DisplayKind::Silicon, tile.pos, rot, None))
                } else {
                    None
                }
            },
            // buildings sit on ground or ore, never on another building
            TileType::Printer3D => {
                if prev_tile.layer() < TileType::Printer3D.layer() {
                    success = true;
                    Some(display.create(DisplayKind::Printer3D, tile.pos, rot, None))
                } else {
                    None
                }
            },
            TileType::WireExtruder => {
                if prev_tile.layer() < TileType::Printer3D.layer() {
                    success = true;
                    Some(display.create(DisplayKind::WireExtruder, tile.pos, rot, None))
                } else {
                    None
                }
            },
            TileType::Worker => {
                if prev_tile.layer() < TileType::Printer3D.layer() {
                    success = true;
                    // a worker is two objects: the base, and the arm parented to it
                    let base = display.create(DisplayKind::WorkerBase, tile.pos, rot, None);
                    let _arm = display.create(DisplayKind::WorkerArm, tile.pos, 0, Some(base));
                    Some(base)
                } else {
                    None
                }
            },
            TileType::ResourceTile(contents) => {
                if contents.1 > 0 {
                    if prev_tile.layer() == TileType::ResourceTile(contents).layer() {
                        // resources stack: merge into the one on top if it has room
                        if let TileType::ResourceTile(prev_contents) = prev_tile {
                            if prev_contents.1 < MAX_RESOURCE_PER_TILE && contents.1
                                < MAX_RESOURCE_PER_TILE - prev_contents.1 {
                                success = true;
                                let merged = absorb(prev_contents, contents);
                                let top = tile.contents[tile.stuff - 1].unwrap();
                                tile.contents[tile.stuff - 1] = Some(
                                    TileContent {
                                        this: top.this,
                                        tile_type: TileType::ResourceTile(merged),
                                        rot: top.rot,
                                    },
                                );
                                proof {
                                    assert(tile@.stack =~= self@.stack_after(
                                        old(display)@.len() as usize,
                                        tile_type@,
                                        rot,
                                    ));
                                }
                            }
                        }
                        None
                    } else {
                        success = true;
                        Some(display.create(DisplayKind::ResourceTile, tile.pos, rot, None))
                    }
                } else {
                    None
                }
            },
        };
        if let Some(new_ent) = ent {
            let new_content = TileContent { this: new_ent, tile_type, rot };
            tile.contents[tile.stuff] = Some(new_content);
            tile.stuff += 1;
            proof {
                assert(tile@.stack =~= self@.stack.push(new_content@));
            }
        }
        (tile, success)
    }
}

} // verus!
