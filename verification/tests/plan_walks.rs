use fm_application::operation_planner::EntryKind;
use fm_application::walk::{
    DeleteVisit, SymlinkPolicy, VisitedDirectories, WalkStack, delete_visit, follows_link,
    note_direct_directory, skip_followed_directory,
};

fn children(name: &str) -> Vec<&'static str> {
    match name {
        "root" => vec!["a", "b"],
        "a" => vec!["a1", "a2"],
        _ => Vec::new(),
    }
}

fn is_dir(name: &str) -> bool {
    name == "root" || name == "a"
}

#[test]
fn copy_walks_visit_directories_before_their_children_in_listing_order() {
    let mut stack = WalkStack::new("root");
    let mut order = Vec::new();
    while let Some(entry) = stack.pop() {
        order.push(entry);
        if is_dir(entry) {
            stack.push_children(children(entry));
        }
    }
    assert_eq!(order, vec!["root", "a", "a1", "a2", "b"]);
}

#[test]
fn delete_walks_plan_children_before_their_directory() {
    let mut stack = WalkStack::new(("root", false));
    let mut order = Vec::new();
    while let Some((entry, listed)) = stack.pop() {
        let kind = if is_dir(entry) { EntryKind::Directory } else { EntryKind::File };
        match delete_visit(kind, listed) {
            DeleteVisit::ListChildren => {
                stack.push((entry, true));
                stack.push_children(children(entry).into_iter().map(|c| (c, false)).collect());
            }
            DeleteVisit::Plan => order.push(entry),
        }
    }
    assert_eq!(order, vec!["a1", "a2", "a", "b", "root"]);
}

#[test]
fn link_following_walks_enter_each_directory_once() {
    assert!(follows_link(EntryKind::Symlink, SymlinkPolicy::CopyTarget));
    assert!(!follows_link(EntryKind::Symlink, SymlinkPolicy::CopyLink));
    assert!(!follows_link(EntryKind::File, SymlinkPolicy::CopyTarget));

    let mut visited = VisitedDirectories::new();
    note_direct_directory(&mut visited, EntryKind::Directory, false, SymlinkPolicy::CopyTarget, 7);
    assert!(skip_followed_directory(&mut visited, EntryKind::Directory, 7));
    assert!(!skip_followed_directory(&mut visited, EntryKind::Directory, 8));
    assert!(skip_followed_directory(&mut visited, EntryKind::Directory, 8));
    assert!(!skip_followed_directory(&mut visited, EntryKind::File, 8));
    assert!(visited.insert(9));
    assert!(!visited.insert(9));
}
