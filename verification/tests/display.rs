use factory_grid::display::{DisplayKind, DisplayQueue, DisplayRequest};

#[test]
fn new_queue_is_empty() {
    let q = DisplayQueue::new();
    assert_eq!(q.len(), 0);
    assert_eq!(q.get(0), None);
}

#[test]
fn handles_count_up_from_zero() {
    let mut q = DisplayQueue::new();
    let a = q.create(DisplayKind::Iron, (1, 2), 0, None);
    let b = q.create(DisplayKind::WorkerBase, (-3, 4), 1, None);
    let c = q.create(DisplayKind::WorkerArm, (-3, 4), 0, Some(b));
    assert_eq!((a, b, c), (0, 1, 2));
    assert_eq!(q.len(), 3);
    assert_eq!(
        q.get(0),
        Some(DisplayRequest::Create {
            handle: 0,
            kind: DisplayKind::Iron,
            position: (1, 2),
            rotation: 0,
            parent: None
        })
    );
    assert_eq!(
        q.get(2),
        Some(DisplayRequest::Create {
            handle: 2,
            kind: DisplayKind::WorkerArm,
            position: (-3, 4),
            rotation: 0,
            parent: Some(1)
        })
    );
    assert_eq!(q.get(3), None);
}

#[test]
fn destroy_is_logged_and_uses_no_handle() {
    let mut q = DisplayQueue::new();
    let a = q.create(DisplayKind::Copper, (0, 0), 3, None);
    q.destroy(a);
    assert_eq!(q.len(), 2);
    assert_eq!(q.get(1), Some(DisplayRequest::Destroy { handle: 0 }));
    let b = q.create(DisplayKind::Copper, (0, 0), 3, None);
    assert_eq!(b, 2);
}

#[test]
fn only_ore_sprites_are_tagged_ore() {
    assert!(DisplayKind::Copper.is_ore());
    assert!(DisplayKind::Iron.is_ore());
    assert!(DisplayKind::Silicon.is_ore());
    assert!(!DisplayKind::Printer3D.is_ore());
    assert!(!DisplayKind::WireExtruder.is_ore());
    assert!(!DisplayKind::WorkerBase.is_ore());
    assert!(!DisplayKind::WorkerArm.is_ore());
    assert!(!DisplayKind::ResourceTile.is_ore());
}
