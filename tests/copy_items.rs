use chunk_io::{clone_items, copy_items};

#[test]
fn copy_items_writes_only_the_range() {
    let source = [1u8, 2, 3, 4, 5];
    let mut target = [0u8; 6];
    copy_items(&source, 1, &mut target, 2, 3);
    assert_eq!(target, [0, 0, 2, 3, 4, 0]);
}

#[test]
fn copy_items_of_nothing_changes_nothing() {
    let source: [u16; 0] = [];
    let mut target = [7u16; 2];
    copy_items(&source, 0, &mut target, 2, 0);
    assert_eq!(target, [7, 7]);
}

#[test]
fn clone_items_writes_only_the_range() {
    let source = vec![String::from("a"), String::from("b")];
    let mut target = vec![String::from("."); 3];
    clone_items(&source, 0, &mut target, 1, 2);
    assert_eq!(target, vec![".", "a", "b"]);
}
