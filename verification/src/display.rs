//! Requests to the renderer.
//!
//! The grid never draws anything itself.  Every visual object it wants
//! created or destroyed is appended to a [`DisplayQueue`]; the renderer works
//! the queue off in order.  The queue only grows, and the handle of an object
//! is the position of its `Create` request, so handles are never reused.

use vstd::prelude::*;

verus! {

/// Identifies one visual object: the queue position of the request that made it.
pub type DisplayHandle = usize;

/// What a visual object shows.
#[derive(Copy, Clone, Debug, PartialEq, Eq, Structural)]
pub enum DisplayKind {
    Copper,
    Iron,
    Silicon,
    Printer3D,
    WireExtruder,
    WorkerBase,
    WorkerArm,
    ResourceTile,
}

impl DisplayKind {
    /// Ore sprites carry an extra tag so the renderer can tell deposits from structures.
    pub open spec fn spec_is_ore(self) -> bool {
        self == DisplayKind::Copper || self == DisplayKind::Iron || self == DisplayKind::Silicon
    }

    #[verifier::when_used_as_spec(spec_is_ore)]
    pub fn is_ore(self) -> (b: bool)
        ensures
            b == self.spec_is_ore(),
    {
        match self {
            DisplayKind::Copper | DisplayKind::Iron | DisplayKind::Silicon => true,
            _ => false,
        }
    }
}

/// One entry of the queue.
///
/// `position` is in grid coordinates and `rotation` counts quarter turns.  An
/// object with a `parent` is placed relative to it and is destroyed with it.
#[derive(Copy, Clone, Debug, PartialEq, Eq)]
pub enum DisplayRequest {
    Create {
        handle: DisplayHandle,
        kind: DisplayKind,
        position: (i32, i32),
        rotation: u8,
        parent: Option<DisplayHandle>,
    },
    Destroy { handle: DisplayHandle },
}

/// The ordered log of everything asked of the renderer so far.
#[derive(Clone, Debug, PartialEq, Eq)]
pub struct DisplayQueue {
    requests: Vec<DisplayRequest>,
}

impl View for DisplayQueue {
    type V = Seq<DisplayRequest>;

    closed spec fn view(&self) -> Seq<DisplayRequest> {
        self.requests@
    }
}

/// Every `Create` sits at the position its handle names, and a parent is an
/// object created earlier.
pub open spec fn handles_in_order(requests: Seq<DisplayRequest>) -> bool {
    forall|i: int|
        0 <= i < requests.len() ==> match #[trigger] requests[i] {
            DisplayRequest::Create { handle, parent, .. } => {
                &&& handle == i
                &&& match parent {
                    Some(p) => p < i && requests[p as int] is Create,
                    None => true,
                }
            },
            DisplayRequest::Destroy { .. } => true,
        }
}

impl DisplayQueue {
    pub open spec fn wf(&self) -> bool {
        handles_in_order(self@)
    }

    pub fn new() -> (q: DisplayQueue)
        ensures
            q@ == Seq::<DisplayRequest>::empty(),
            q.wf(),
    {
        DisplayQueue { requests: Vec::new() }
    }

    /// Number of requests issued so far.
    pub fn len(&self) -> (n: usize)
        ensures
            n == self@.len(),
    {
        self.requests.len()
    }

    /// The `i`-th request, if that many were issued.
    pub fn get(&self, i: usize) -> (r: Option<DisplayRequest>)
        ensures
            r == if i < self@.len() { Some(self@[i as int]) } else { None },
    {
        if i < self.requests.len() {
            Some(self.requests[i])
        } else {
            None
        }
    }

    /// Asks for a new visual object and returns the handle it will be known by.
    pub fn create(
        &mut self,
        kind: DisplayKind,
        position: (i32, i32),
        rotation: u8,
        parent: Option<DisplayHandle>,
    ) -> (handle: DisplayHandle)
        ensures
            handle == old(self)@.len(),
            final(self)@ == old(self)@.push(
                (DisplayRequest::Create { handle, kind, position, rotation, parent }),
            ),
    {
        let handle = self.requests.len();
        self.requests.push(DisplayRequest::Create { handle, kind, position, rotation, parent });
        handle
    }

    /// Asks for the object behind `handle`, and everything parented to it, to be removed.
    pub fn destroy(&mut self, handle: DisplayHandle)
        ensures
            final(self)@ == old(self)@.push((DisplayRequest::Destroy { handle })),
    {
        self.requests.push(DisplayRequest::Destroy { handle });
    }
}

} // verus!
