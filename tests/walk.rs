use teleport::entry::Entry;
use teleport::walk::{Step, Walker};

fn file(name: &str) -> Entry {
    Entry { name: name.to_string(), unicode: true, is_dir: false, listable: false }
}

fn dir(name: &str) -> Entry {
    Entry { name: name.to_string(), unicode: true, is_dir: true, listable: true }
}

#[test]
fn unlistable_root_is_empty() {
    let mut w = Walker::new();
    assert_eq!(w.enter(None), Step::Done);
}

#[test]
fn empty_root() {
    let mut w = Walker::new();
    assert_eq!(w.enter(Some(vec![])), Step::Done);
}

#[test]
fn other_files_are_skipped() {
    let mut w = Walker::new();
    let root = vec![file("notes.txt"), file("a.json"), file(".json"), file("b.jsn")];
    assert_eq!(w.enter(Some(root)), Step::Document { index: 1 });
    assert_eq!(w.advance(), Step::Done);
}

#[test]
fn closed_folder_is_not_listed() {
    let mut w = Walker::new();
    assert_eq!(w.enter(Some(vec![dir("east"), file("z.json")])), Step::Folder { index: 0 });
    assert_eq!(w.folder_state(false), Step::Document { index: 1 });
    assert_eq!(w.advance(), Step::Done);
}

#[test]
fn open_folder_is_listed_and_closed() {
    let mut w = Walker::new();
    assert_eq!(w.enter(Some(vec![file("x.txt"), dir("east"), file("z.json")])), Step::Folder { index: 1 });
    assert_eq!(w.folder_state(true), Step::List { index: 1 });
    assert_eq!(w.enter(Some(vec![file("inner.json"), dir("deeper")])), Step::Document { index: 0 });
    assert_eq!(w.advance(), Step::Folder { index: 1 });
    assert_eq!(w.folder_state(false), Step::Close);
    assert_eq!(w.advance(), Step::Document { index: 2 });
    assert_eq!(w.advance(), Step::Done);
}

#[test]
fn unlistable_folder_is_not_shown() {
    let mut w = Walker::new();
    let locked = Entry { name: "locked".to_string(), unicode: true, is_dir: true, listable: false };
    assert_eq!(w.enter(Some(vec![locked, dir("open")])), Step::Folder { index: 1 });
    assert_eq!(w.folder_state(false), Step::Done);
}

#[test]
fn folder_that_fails_to_list_closes_at_once() {
    let mut w = Walker::new();
    assert_eq!(w.enter(Some(vec![dir("gone"), dir("open")])), Step::Folder { index: 0 });
    assert_eq!(w.folder_state(true), Step::List { index: 0 });
    assert_eq!(w.enter(None), Step::Close);
    assert_eq!(w.advance(), Step::Folder { index: 1 });
}

#[test]
fn folders_only_tree_has_no_documents() {
    let mut w = Walker::new();
    let mut steps = vec![w.enter(Some(vec![dir("a"), file("readme.md"), dir("b")]))];
    steps.push(w.folder_state(true));
    steps.push(w.enter(Some(vec![dir("c"), file("img.png")])));
    steps.push(w.folder_state(true));
    steps.push(w.enter(Some(vec![])));
    steps.push(w.advance());
    steps.push(w.advance());
    steps.push(w.folder_state(false));
    assert_eq!(
        steps,
        vec![
            Step::Folder { index: 0 },
            Step::List { index: 0 },
            Step::Folder { index: 0 },
            Step::List { index: 0 },
            Step::Close,
            Step::Close,
            Step::Folder { index: 2 },
            Step::Done,
        ]
    );
}

#[test]
fn invalid_file_does_not_stop_siblings() {
    let mut w = Walker::new();
    let root = vec![file("broken.json"), file("good.json"), dir("more")];
    assert_eq!(w.enter(Some(root)), Step::Document { index: 0 });
    assert_eq!(w.advance(), Step::Document { index: 1 });
    assert_eq!(w.advance(), Step::Folder { index: 2 });
    assert_eq!(w.folder_state(false), Step::Done);
}

fn frame(open: bool) -> Vec<Step> {
    let mut w = Walker::new();
    let mut steps = vec![w.enter(Some(vec![dir("sub"), file("a.json")]))];
    steps.push(w.folder_state(open));
    if open {
        steps.push(w.enter(Some(vec![file("b.json")])));
        steps.push(w.advance());
        steps.push(w.advance());
    }
    steps.push(w.advance());
    steps
}

#[test]
fn same_tree_same_frame() {
    assert_eq!(frame(true), frame(true));
    assert_eq!(frame(false), frame(false));
    assert_eq!(
        frame(true),
        vec![
            Step::Folder { index: 0 },
            Step::List { index: 0 },
            Step::Document { index: 0 },
            Step::Close,
            Step::Document { index: 1 },
            Step::Done,
        ]
    );
}

#[test]
fn walk_without_the_bad_file_is_the_same_but_for_it() {
    let mut with = Walker::new();
    let mut without = Walker::new();
    let listing = vec![dir("a"), file("bad.json"), file("x.txt"), file("good.json")];
    let rest = vec![dir("a"), file("x.txt"), file("good.json")];
    assert_eq!(with.enter(Some(listing)), Step::Folder { index: 0 });
    assert_eq!(without.enter(Some(rest)), Step::Folder { index: 0 });
    assert_eq!(with.folder_state(false), Step::Document { index: 1 });
    assert_eq!(with.advance(), Step::Document { index: 3 });
    assert_eq!(without.folder_state(false), Step::Document { index: 2 });
    assert_eq!(with.advance(), Step::Done);
    assert_eq!(without.advance(), Step::Done);
}
