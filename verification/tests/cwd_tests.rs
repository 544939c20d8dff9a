use grate_rs::cwd::CwdTable;

fn bytes(s: &str) -> Vec<u8> {
    s.as_bytes().to_vec()
}

#[test]
fn missing_entry_defaults_to_root() {
    let t = CwdTable::new();
    assert_eq!(t.get(42), bytes("/"));
}

#[test]
fn set_then_get_returns_stored_path() {
    let mut t = CwdTable::new();
    t.set(1, bytes("/home/u"));
    assert_eq!(t.get(1), bytes("/home/u"));
    assert_eq!(t.get(2), bytes("/"));
}

#[test]
fn set_overwrites_existing_entry() {
    let mut t = CwdTable::new();
    t.set(1, bytes("/a"));
    t.set(1, bytes("/b"));
    assert_eq!(t.get(1), bytes("/b"));
}

#[test]
fn inherit_copies_parent_entry() {
    let mut t = CwdTable::new();
    t.set(1, bytes("/work"));
    t.inherit(1, 2);
    assert_eq!(t.get(2), bytes("/work"));
}

#[test]
fn inherit_from_absent_parent_copies_default() {
    let mut t = CwdTable::new();
    t.inherit(5, 6);
    assert_eq!(t.get(6), bytes("/"));
}

#[test]
fn child_keeps_cwd_after_parent_changes() {
    // The child's tracked cwd equals the parent's at the moment of
    // duplication, even if the parent later changes its own.
    let mut t = CwdTable::new();
    t.set(1, bytes("/at/fork"));
    t.inherit(1, 2);
    t.set(1, bytes("/later"));
    assert_eq!(t.get(2), bytes("/at/fork"));
    assert_eq!(t.get(1), bytes("/later"));
}
