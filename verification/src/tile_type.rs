//! The kinds of content a tile can hold, and the layer each one occupies.

use vstd::prelude::*;

verus! {

/// Capacity of the unit buffer carried by a resource stack.
pub const MAX_RESOURCE_PER_TILE: usize = 32;

/// A unit of raw material.
#[derive(Copy, Clone, Debug, PartialEq, Eq, Structural)]
pub enum Resource {
    Copper,
    Iron,
    Silicon,
}

impl Default for Resource {
    /// Copper pads the unused tail of a resource buffer.
    fn default() -> (r: Resource)
        ensures
            r == Resource::Copper,
    {
        Resource::Copper
    }
}

/// What can be pushed onto a tile.
///
/// `ResourceTile` carries a fixed buffer of units and the number of units in
/// use; the units in use are the first `count` entries of the buffer.
#[derive(Copy, Clone, Debug, PartialEq, Eq)]
pub enum TileType {
    Empty,
    Copper,
    Iron,
    Silicon,
    Printer3D,
    WireExtruder,
    Worker,
    ResourceTile(([Resource; MAX_RESOURCE_PER_TILE], usize)),
}

/// Mathematical model of a [`TileType`]: the resource buffer becomes a sequence.
pub enum TileTypeView {
    Empty,
    Copper,
    Iron,
    Silicon,
    Printer3D,
    WireExtruder,
    Worker,
    ResourceTile { units: Seq<Resource>, count: nat },
}

impl TileTypeView {
    /// The ordering key of a tile type: ground 0, ore 1, building 2, resource 3.
    pub open spec fn layer(self) -> nat {
        match self {
            TileTypeView::Empty => 0,
            TileTypeView::Copper | TileTypeView::Iron | TileTypeView::Silicon => 1,
            TileTypeView::Printer3D | TileTypeView::WireExtruder | TileTypeView::Worker => 2,
            TileTypeView::ResourceTile { .. } => 3,
        }
    }

    /// The raw material an ore type yields; nothing for any other type.
    pub open spec fn ore(self) -> Option<Resource> {
        match self {
            TileTypeView::Copper => Some(Resource::Copper),
            TileTypeView::Iron => Some(Resource::Iron),
            TileTypeView::Silicon => Some(Resource::Silicon),
            _ => None,
        }
    }

    pub open spec fn is_ore(self) -> bool {
        self.layer() == 1
    }

    pub open spec fn is_building(self) -> bool {
        self.layer() == 2
    }
}

impl View for TileType {
    type V = TileTypeView;

    open spec fn view(&self) -> TileTypeView {
        match *self {
            TileType::Empty => TileTypeView::Empty,
            TileType::Copper => TileTypeView::Copper,
            TileType::Iron => TileTypeView::Iron,
            TileType::Silicon => TileTypeView::Silicon,
            TileType::Printer3D => TileTypeView::Printer3D,
            TileType::WireExtruder => TileTypeView::WireExtruder,
            TileType::Worker => TileTypeView::Worker,
            TileType::ResourceTile(stack) => TileTypeView::ResourceTile {
                units: stack.0@,
                count: stack.1 as nat,
            },
        }
    }
}

impl Default for TileType {
    fn default() -> (t: TileType)
        ensures
            t == TileType::Empty,
    {
        TileType::Empty
    }
}

impl TileType {
    /// The layer this type occupies in a tile's stack.
    pub fn layer(self) -> (l: usize)
        ensures
            l == self@.layer(),
    {
        match self {
            TileType::Empty => 0,
            TileType::Copper => 1,
            TileType::Iron => 1,
            TileType::Silicon => 1,
            TileType::Printer3D => 2,
            TileType::WireExtruder => 2,
            TileType::Worker => 2,
            TileType::ResourceTile(_) => 3,
        }
    }

    /// The ore type with number `k`: copper, iron, silicon.
    pub open spec fn spec_ore_kind(k: usize) -> TileType {
        if k == 0 {
            TileType::Copper
        } else if k == 1 {
            TileType::Iron
        } else {
            TileType::Silicon
        }
    }

    #[verifier::when_used_as_spec(spec_ore_kind)]
    pub fn ore_kind(k: usize) -> (t: TileType)
        requires
            k < 3,
        ensures
            t == TileType::spec_ore_kind(k),
            t@.is_ore(),
    {
        if k == 0 {
            TileType::Copper
        } else if k == 1 {
            TileType::Iron
        } else {
            TileType::Silicon
        }
    }

    /// The raw material mined from this type, if it is an ore.
    pub fn ore(self) -> (r: Option<Resource>)
        ensures
            r == self@.ore(),
    {
        match self {
            TileType::Empty => None,
            TileType::Copper => Some(Resource::Copper),
            TileType::Iron => Some(Resource::Iron),
            TileType::Silicon => Some(Resource::Silicon),
            TileType::Printer3D => None,
            TileType::WireExtruder => None,
            TileType::Worker => None,
            TileType::ResourceTile(_) => None,
        }
    }
}

} // verus!
