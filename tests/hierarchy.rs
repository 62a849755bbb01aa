use winit::window::{HierarchyError, NativeWindow, Window, WindowId, WindowTable};
use winit::OsError;

fn make(table: &mut WindowTable, handle: u64, parent: Option<WindowId>) -> Window {
    let native = Ok(NativeWindow { window: handle, delegate: handle + 1000 });
    Window::new(table, native, parent).unwrap()
}

#[test]
fn ids_of_live_windows_are_distinct() {
    let mut table = WindowTable::new();
    let a = make(&mut table, 10, None);
    let b = make(&mut table, 20, None);
    let c = make(&mut table, 30, None);
    assert_ne!(a.id(), b.id());
    assert_ne!(a.id(), c.id());
    assert_ne!(b.id(), c.id());
    assert_eq!(table.lookup(a.id()), Some(10));
    assert_eq!(a.handle(), 10);
    assert_eq!(table.lookup(b.id()), Some(20));
    assert_eq!(table.lookup(c.id()), Some(30));
}

#[test]
fn closed_id_no_longer_resolves_and_is_not_reused() {
    let mut table = WindowTable::new();
    let a = make(&mut table, 10, None);
    let old_id = a.id();
    a.close_window(&mut table);
    assert_eq!(table.lookup(old_id), None);
    assert!(!table.is_live(old_id));
    let b = make(&mut table, 11, None);
    assert_ne!(b.id(), old_id);
    assert_eq!(table.lookup(old_id), None);
    assert_eq!(table.lookup(b.id()), Some(11));
}

#[test]
fn closing_twice_changes_nothing() {
    let mut table = WindowTable::new();
    let a = make(&mut table, 10, None);
    let b = make(&mut table, 20, None);
    a.close_window(&mut table);
    a.close_window(&mut table);
    assert_eq!(table.lookup(a.id()), None);
    assert_eq!(table.lookup(b.id()), Some(20));
}

#[test]
fn attach_then_detach_children() {
    let mut table = WindowTable::new();
    let a = make(&mut table, 1, None);
    let b = make(&mut table, 2, None);
    assert_eq!(table.check_attach(b.id(), a.id()), Ok(()));
    b.add_child_to(&mut table, a.id());
    assert_eq!(a.child_windows(&table), vec![b.id()]);
    b.remove_self_as_child_from_parent(&mut table);
    assert_eq!(a.child_windows(&table), Vec::<WindowId>::new());
    b.remove_self_as_child_from_parent(&mut table);
    assert_eq!(a.child_windows(&table), Vec::<WindowId>::new());
    assert_eq!(table.lookup(b.id()), Some(2));
}

#[test]
fn children_listed_in_id_order() {
    let mut table = WindowTable::new();
    let a = make(&mut table, 1, None);
    let b = make(&mut table, 2, Some(a.id()));
    let c = make(&mut table, 3, None);
    let d = make(&mut table, 4, Some(a.id()));
    c.add_child_to(&mut table, b.id());
    assert_eq!(a.child_windows(&table), vec![b.id(), d.id()]);
    assert_eq!(b.child_windows(&table), vec![c.id()]);
    assert_eq!(c.child_windows(&table), Vec::<WindowId>::new());
}

#[test]
fn reattach_moves_child_to_new_parent() {
    let mut table = WindowTable::new();
    let a = make(&mut table, 1, None);
    let b = make(&mut table, 2, None);
    let c = make(&mut table, 3, Some(a.id()));
    c.add_child_to(&mut table, b.id());
    assert_eq!(a.child_windows(&table), Vec::<WindowId>::new());
    assert_eq!(b.child_windows(&table), vec![c.id()]);
}

#[test]
fn self_attach_is_refused() {
    let mut table = WindowTable::new();
    let a = make(&mut table, 1, None);
    assert_eq!(table.check_attach(a.id(), a.id()), Err(HierarchyError::Cycle));
}

#[test]
fn two_cycle_is_refused() {
    let mut table = WindowTable::new();
    let a = make(&mut table, 1, None);
    let b = make(&mut table, 2, None);
    b.add_child_to(&mut table, a.id());
    assert_eq!(table.check_attach(a.id(), b.id()), Err(HierarchyError::Cycle));
    assert_eq!(a.child_windows(&table), vec![b.id()]);
    assert_eq!(b.child_windows(&table), Vec::<WindowId>::new());
}

#[test]
fn deep_cycle_is_refused() {
    let mut table = WindowTable::new();
    let a = make(&mut table, 1, None);
    let b = make(&mut table, 2, Some(a.id()));
    let c = make(&mut table, 3, Some(b.id()));
    assert_eq!(table.check_attach(a.id(), c.id()), Err(HierarchyError::Cycle));
    assert_eq!(table.check_attach(c.id(), a.id()), Ok(()));
}

#[test]
fn attach_to_unknown_windows_is_refused() {
    let mut table = WindowTable::new();
    let a = make(&mut table, 1, None);
    let b = make(&mut table, 2, None);
    assert_eq!(table.check_attach(a.id(), WindowId(7)), Err(HierarchyError::UnknownParent));
    assert_eq!(table.check_attach(WindowId(7), a.id()), Err(HierarchyError::UnknownWindow));
    b.close_window(&mut table);
    assert_eq!(table.check_attach(a.id(), b.id()), Err(HierarchyError::UnknownParent));
    assert_eq!(table.check_attach(b.id(), a.id()), Err(HierarchyError::UnknownWindow));
}

#[test]
fn child_with_parent_then_closed() {
    let mut table = WindowTable::new();
    let a = make(&mut table, 100, None);
    let b = make(&mut table, 200, Some(a.id()));
    assert_eq!(a.child_windows(&table), vec![b.id()]);
    b.close_window(&mut table);
    assert_eq!(a.child_windows(&table), Vec::<WindowId>::new());
}

#[test]
fn closing_parent_detaches_children() {
    let mut table = WindowTable::new();
    let a = make(&mut table, 1, None);
    let b = make(&mut table, 2, Some(a.id()));
    a.close_window(&mut table);
    assert_eq!(table.lookup(b.id()), Some(2));
    assert_eq!(table.check_attach(b.id(), a.id()), Err(HierarchyError::UnknownParent));
    let c = make(&mut table, 3, None);
    assert_eq!(table.check_attach(b.id(), c.id()), Ok(()));
}

#[test]
fn native_failure_registers_nothing() {
    let mut table = WindowTable::new();
    let r = Window::new(&mut table, Err(OsError::CGError(1000)), None);
    assert!(matches!(r, Err(OsError::CGError(1000))));
    let r = Window::new(&mut table, Err(OsError::CreationError("no window")), None);
    assert!(matches!(r, Err(OsError::CreationError("no window"))));
    let a = make(&mut table, 5, None);
    assert_eq!(a.id(), WindowId(0));
}
