use linkwalk::fspath::FsPath;
use linkwalk::policy::Action;
use linkwalk::policy::WalkPolicy;
use linkwalk::prompt::Confirmation;
use linkwalk::prompt::Reply;
use linkwalk::prompt::ReplyScript;
use linkwalk::walk::create_dir;
use linkwalk::walk::get_definitive_file_type;
use linkwalk::walk::link_file;
use linkwalk::walk::recurse_into_dir;
use linkwalk::walk::walk;
use linkwalk::walk::CreateDirContinuation;
use linkwalk::walk::EntryKind;
use linkwalk::walk::FsOp;
use linkwalk::walk::RawKind;
use linkwalk::walk::ShouldExit;
use linkwalk::walk::SourceTree;
use linkwalk::walk::SrcEntry;

fn path(parts: &[&str]) -> FsPath {
    FsPath::new(parts.iter().map(|s| s.to_string()).collect())
}

fn file(name: &str) -> SrcEntry {
    SrcEntry { name: name.to_string(), kind: RawKind::File, children: Vec::new() }
}

fn dir(name: &str, children: Vec<SrcEntry>) -> SrcEntry {
    SrcEntry { name: name.to_string(), kind: RawKind::Dir, children }
}

fn entry(name: &str, kind: RawKind, children: Vec<SrcEntry>) -> SrcEntry {
    SrcEntry { name: name.to_string(), kind, children }
}

fn always_policy() -> WalkPolicy {
    WalkPolicy {
        link_creation: Action::Always,
        dir_creation: Action::Always,
        recursion: Action::Always,
        ask_rename_links: false,
        ask_rename_dirs: false,
        use_symlink: false,
    }
}

fn link_op(original: &[&str], link: &[&str]) -> FsOp {
    FsOp::Link { original: path(original), link: path(link) }
}

fn mkdir_op(dir: &[&str]) -> FsOp {
    FsOp::MkDir { dir: path(dir) }
}

#[test]
fn whole_tree_under_always_policy() {
    // Source root holds `a.txt` and `sub/` (holding `b.txt`); the policy
    // acts everywhere without renames, so the walk attempts a link for
    // `a.txt`, recreates `sub`, and links `b.txt` inside it.
    let entries = vec![file("a.txt"), dir("sub", vec![file("b.txt")])];
    let mut script = ReplyScript::new(Vec::new());
    let mut ops: Vec<FsOp> = Vec::new();
    let r = recurse_into_dir(
        &entries,
        &path(&["source"]),
        &path(&["target"]),
        &always_policy(),
        &mut script,
        &mut ops,
    );
    assert_eq!(r, ShouldExit::No);
    assert_eq!(
        ops,
        vec![
            link_op(&["source", "a.txt"], &["target", "a.txt"]),
            mkdir_op(&["target", "sub"]),
            link_op(&["source", "sub", "b.txt"], &["target", "sub", "b.txt"]),
        ]
    );
    assert_eq!(script.pos, 0);
}

#[test]
fn one_operation_per_entry_never_twice() {
    // Three files and two directories: exactly five operations, one per
    // source entry.
    let entries = vec![
        file("one"),
        dir("d1", vec![file("two"), dir("d2", vec![file("three")])]),
    ];
    let mut script = ReplyScript::new(Vec::new());
    let mut ops: Vec<FsOp> = Vec::new();
    let r = recurse_into_dir(
        &entries,
        &path(&["src"]),
        &path(&["tgt"]),
        &always_policy(),
        &mut script,
        &mut ops,
    );
    assert_eq!(r, ShouldExit::No);
    let links = ops.iter().filter(|o| matches!(o, FsOp::Link { .. })).count();
    let mkdirs = ops.iter().filter(|o| matches!(o, FsOp::MkDir { .. })).count();
    assert_eq!(links, 3);
    assert_eq!(mkdirs, 2);
    assert_eq!(ops.len(), 5);
}

#[test]
fn renaming_a_link_uses_the_entered_name() {
    // Linking source/bar.txt into target/ and renaming to foo.txt must
    // produce the link at target/foo.txt, not target/bar.txt.
    let policy = WalkPolicy { ask_rename_links: true, ..always_policy() };
    let mut script = ReplyScript::new(vec![Reply::Entered("foo.txt".to_string())]);
    let mut ops: Vec<FsOp> = Vec::new();
    let r = link_file(
        &path(&["source", "bar.txt"]),
        &path(&["target", "bar.txt"]),
        &policy,
        &mut script,
        &mut ops,
    );
    assert_eq!(r, ShouldExit::No);
    assert_eq!(ops, vec![link_op(&["source", "bar.txt"], &["target", "foo.txt"])]);
}

#[test]
fn empty_rename_keeps_the_original_name() {
    let policy = WalkPolicy { ask_rename_links: true, ..always_policy() };
    let mut script = ReplyScript::new(vec![Reply::Entered(String::new())]);
    let mut ops: Vec<FsOp> = Vec::new();
    let r = link_file(
        &path(&["source", "bar.txt"]),
        &path(&["target", "bar.txt"]),
        &policy,
        &mut script,
        &mut ops,
    );
    assert_eq!(r, ShouldExit::No);
    assert_eq!(ops, vec![link_op(&["source", "bar.txt"], &["target", "bar.txt"])]);
}

#[test]
fn single_file_source_links_once_and_reads_no_directory() {
    // A single-file source performs exactly one link operation against
    // target/<original file name>; there is no listing to read.
    let mut script = ReplyScript::new(Vec::new());
    let mut ops: Vec<FsOp> = Vec::new();
    let r = walk(
        &SourceTree::File,
        &path(&["somewhere", "base.txt"]),
        &path(&["target"]),
        &always_policy(),
        &mut script,
        &mut ops,
    );
    assert_eq!(r, ShouldExit::No);
    assert_eq!(ops, vec![link_op(&["somewhere", "base.txt"], &["target", "base.txt"])]);
    assert_eq!(script.pos, 0);
}

#[test]
fn abort_at_first_link_prompt_stops_everything() {
    // Two files under a link policy that asks; the user aborts the first
    // confirmation, so nothing is attempted and the second file is never
    // offered (only one reply is consumed).
    let policy = WalkPolicy { link_creation: Action::Ask, ..always_policy() };
    let mut script = ReplyScript::new(vec![
        Reply::Confirm(Confirmation::Abort),
        Reply::Confirm(Confirmation::Yes),
    ]);
    let mut ops: Vec<FsOp> = Vec::new();
    let r = recurse_into_dir(
        &vec![file("a.txt"), file("b.txt")],
        &path(&["src"]),
        &path(&["tgt"]),
        &policy,
        &mut script,
        &mut ops,
    );
    assert_eq!(r, ShouldExit::Yes);
    assert!(ops.is_empty());
    assert_eq!(script.pos, 1);
}

#[test]
fn abort_below_a_descent_stops_ancestors() {
    // The abort comes at depth one, inside `sub`; the sibling `d.txt`
    // at depth zero is never visited and the walk reports the abort.
    let policy = WalkPolicy { link_creation: Action::Ask, ..always_policy() };
    let entries = vec![dir("sub", vec![file("c.txt")]), file("d.txt")];
    let mut script = ReplyScript::new(vec![Reply::Confirm(Confirmation::Abort)]);
    let mut ops: Vec<FsOp> = Vec::new();
    let r = recurse_into_dir(
        &entries,
        &path(&["src"]),
        &path(&["tgt"]),
        &policy,
        &mut script,
        &mut ops,
    );
    assert_eq!(r, ShouldExit::Yes);
    // The directory creation before the abort point stands; nothing after.
    assert_eq!(ops, vec![mkdir_op(&["tgt", "sub"])]);
    assert_eq!(script.pos, 1);
}

#[test]
fn recursion_never_leaves_subtrees_unvisited() {
    // The directory is still recreated, but its contents are never
    // visited, whatever the directory-creation policy says.
    let policy = WalkPolicy { recursion: Action::Never, ..always_policy() };
    let entries = vec![file("x.txt"), dir("sub", vec![file("deep.txt")])];
    let mut script = ReplyScript::new(Vec::new());
    let mut ops: Vec<FsOp> = Vec::new();
    let r = recurse_into_dir(
        &entries,
        &path(&["src"]),
        &path(&["tgt"]),
        &policy,
        &mut script,
        &mut ops,
    );
    assert_eq!(r, ShouldExit::No);
    assert_eq!(
        ops,
        vec![link_op(&["src", "x.txt"], &["tgt", "x.txt"]), mkdir_op(&["tgt", "sub"])]
    );
    assert_eq!(script.pos, 0);
}

#[test]
fn declined_recursion_skips_the_subtree() {
    let policy = WalkPolicy { recursion: Action::Ask, ..always_policy() };
    let entries = vec![dir("sub", vec![file("deep.txt")])];
    let mut script = ReplyScript::new(vec![Reply::Confirm(Confirmation::No)]);
    let mut ops: Vec<FsOp> = Vec::new();
    let r = recurse_into_dir(
        &entries,
        &path(&["src"]),
        &path(&["tgt"]),
        &policy,
        &mut script,
        &mut ops,
    );
    assert_eq!(r, ShouldExit::No);
    assert_eq!(ops, vec![mkdir_op(&["tgt", "sub"])]);
    assert_eq!(script.pos, 1);
}

#[test]
fn symlink_entries_count_as_what_they_point_at() {
    assert_eq!(
        get_definitive_file_type(&entry("f", RawKind::SymlinkToFile, Vec::new())),
        Some(EntryKind::File)
    );
    assert_eq!(
        get_definitive_file_type(&entry("d", RawKind::SymlinkToDir, Vec::new())),
        Some(EntryKind::Dir)
    );
    assert_eq!(get_definitive_file_type(&file("f")), Some(EntryKind::File));
    assert_eq!(
        get_definitive_file_type(&dir("d", Vec::new())),
        Some(EntryKind::Dir)
    );
    assert_eq!(
        get_definitive_file_type(&entry("u", RawKind::Unreadable, Vec::new())),
        None
    );
}

#[test]
fn symlinks_are_walked_as_files_and_directories() {
    // A link to a file is linked; a link to a directory is recreated and
    // descended into.
    let entries = vec![
        entry("alias.txt", RawKind::SymlinkToFile, Vec::new()),
        entry("portal", RawKind::SymlinkToDir, vec![file("inner.txt")]),
    ];
    let mut script = ReplyScript::new(Vec::new());
    let mut ops: Vec<FsOp> = Vec::new();
    let r = recurse_into_dir(
        &entries,
        &path(&["src"]),
        &path(&["tgt"]),
        &always_policy(),
        &mut script,
        &mut ops,
    );
    assert_eq!(r, ShouldExit::No);
    assert_eq!(
        ops,
        vec![
            link_op(&["src", "alias.txt"], &["tgt", "alias.txt"]),
            mkdir_op(&["tgt", "portal"]),
            link_op(&["src", "portal", "inner.txt"], &["tgt", "portal", "inner.txt"]),
        ]
    );
}

#[test]
fn unreadable_entries_are_skipped() {
    let entries = vec![entry("bad", RawKind::Unreadable, Vec::new()), file("good.txt")];
    let mut script = ReplyScript::new(Vec::new());
    let mut ops: Vec<FsOp> = Vec::new();
    let r = recurse_into_dir(
        &entries,
        &path(&["src"]),
        &path(&["tgt"]),
        &always_policy(),
        &mut script,
        &mut ops,
    );
    assert_eq!(r, ShouldExit::No);
    assert_eq!(ops, vec![link_op(&["src", "good.txt"], &["tgt", "good.txt"])]);
}

#[test]
fn declined_link_creates_nothing_and_continues() {
    let policy = WalkPolicy { link_creation: Action::Ask, ..always_policy() };
    let mut script = ReplyScript::new(vec![
        Reply::Confirm(Confirmation::No),
        Reply::Confirm(Confirmation::Yes),
    ]);
    let mut ops: Vec<FsOp> = Vec::new();
    let r = recurse_into_dir(
        &vec![file("a.txt"), file("b.txt")],
        &path(&["src"]),
        &path(&["tgt"]),
        &policy,
        &mut script,
        &mut ops,
    );
    assert_eq!(r, ShouldExit::No);
    assert_eq!(ops, vec![link_op(&["src", "b.txt"], &["tgt", "b.txt"])]);
    assert_eq!(script.pos, 2);
}

#[test]
fn link_creation_never_skips_silently() {
    let policy = WalkPolicy { link_creation: Action::Never, ..always_policy() };
    let mut script = ReplyScript::new(Vec::new());
    let mut ops: Vec<FsOp> = Vec::new();
    let r = link_file(
        &path(&["src", "a.txt"]),
        &path(&["tgt", "a.txt"]),
        &policy,
        &mut script,
        &mut ops,
    );
    assert_eq!(r, ShouldExit::No);
    assert!(ops.is_empty());
    assert_eq!(script.pos, 0);
}

#[test]
fn directory_rename_settles_the_created_path() {
    let policy = WalkPolicy {
        dir_creation: Action::Ask,
        ask_rename_dirs: true,
        ..always_policy()
    };
    let mut script = ReplyScript::new(vec![
        Reply::Confirm(Confirmation::Yes),
        Reply::Entered("renamed".to_string()),
    ]);
    let mut ops: Vec<FsOp> = Vec::new();
    let r = create_dir(
        &path(&["tgt"]),
        &"orig".to_string(),
        &policy,
        &mut script,
        &mut ops,
    );
    match r {
        CreateDirContinuation::MaybeRecurse(p) => assert_eq!(p, path(&["tgt", "renamed"])),
        _ => panic!("expected a created directory"),
    }
    assert_eq!(ops, vec![mkdir_op(&["tgt", "renamed"])]);
    assert_eq!(script.pos, 2);
}

#[test]
fn abandoned_dir_rename_aborts() {
    let policy = WalkPolicy { ask_rename_dirs: true, ..always_policy() };
    let mut script = ReplyScript::new(vec![Reply::Cancelled]);
    let mut ops: Vec<FsOp> = Vec::new();
    let r = create_dir(
        &path(&["tgt"]),
        &"sub".to_string(),
        &policy,
        &mut script,
        &mut ops,
    );
    assert!(matches!(r, CreateDirContinuation::Exit));
    assert!(ops.is_empty());
}

#[test]
fn declined_dir_creation_continues() {
    let policy = WalkPolicy { dir_creation: Action::Ask, ..always_policy() };
    let mut script = ReplyScript::new(vec![Reply::Confirm(Confirmation::No)]);
    let mut ops: Vec<FsOp> = Vec::new();
    let r = create_dir(
        &path(&["tgt"]),
        &"sub".to_string(),
        &policy,
        &mut script,
        &mut ops,
    );
    assert!(matches!(r, CreateDirContinuation::Continue));
    assert!(ops.is_empty());
}

#[test]
fn exhausted_script_counts_as_abort() {
    // A confirmation with no reply left behaves as if the user declined
    // to answer: the walk stops.
    let policy = WalkPolicy { link_creation: Action::Ask, ..always_policy() };
    let mut script = ReplyScript::new(Vec::new());
    let mut ops: Vec<FsOp> = Vec::new();
    let r = link_file(
        &path(&["src", "a.txt"]),
        &path(&["tgt", "a.txt"]),
        &policy,
        &mut script,
        &mut ops,
    );
    assert_eq!(r, ShouldExit::Yes);
    assert!(ops.is_empty());
    assert_eq!(script.pos, 0);
}

#[test]
fn mismatched_reply_counts_as_abort() {
    // A text reply where a confirmation is expected reads as abort.
    let policy = WalkPolicy { link_creation: Action::Ask, ..always_policy() };
    let mut script = ReplyScript::new(vec![Reply::Entered("stray".to_string())]);
    let mut ops: Vec<FsOp> = Vec::new();
    let r = link_file(
        &path(&["src", "a.txt"]),
        &path(&["tgt", "a.txt"]),
        &policy,
        &mut script,
        &mut ops,
    );
    assert_eq!(r, ShouldExit::Yes);
    assert!(ops.is_empty());
    assert_eq!(script.pos, 1);
}

#[test]
fn empty_source_directory_walks_to_nothing() {
    let mut script = ReplyScript::new(Vec::new());
    let mut ops: Vec<FsOp> = Vec::new();
    let r = walk(
        &SourceTree::Dir { entries: Vec::new() },
        &path(&["src"]),
        &path(&["tgt"]),
        &always_policy(),
        &mut script,
        &mut ops,
    );
    assert_eq!(r, ShouldExit::No);
    assert!(ops.is_empty());
}
