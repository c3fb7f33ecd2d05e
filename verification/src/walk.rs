//! The depth-first walk and its per-entry decisions.
//!
//! A source tree is a value: each entry carries its name, the type hint a
//! directory listing resolved for it, and, where that type is a
//! directory, its own entries. Walking the tree under a policy and a
//! script of prompt replies yields the sequence of attempted filesystem
//! operations (links and directory creations) and a single outcome:
//! continue, or abort everything now.
//!
//! The spec-level functions ([`walk_spec`], [`entry_spec`],
//! [`link_file_spec`], [`create_dir_spec`]) are the model; each
//! executable function is proved to produce exactly what the model says.
//! Per-entry I/O failures of a real filesystem are not part of the model:
//! the walk records what it attempts, and a front end that meets a failed
//! attempt reports it and moves to the next entry, which is the same
//! control path as a completed one.

use vstd::prelude::*;
use crate::fspath::FsPath;
use crate::policy::WalkPolicy;
use crate::prompt::chosen_name;
use crate::prompt::entered_at;
use crate::prompt::next_pos;
use crate::prompt::spec_chosen_name;
use crate::prompt::spec_gate_script;
use crate::prompt::Decision;
use crate::prompt::Reply;
use crate::prompt::ReplyScript;

verus! {

/// Whether the whole walk must stop now, as one entry's visit reports it.
#[derive(Clone, Copy, Debug, PartialEq, Eq, Structural)]
pub enum ShouldExit {
    No,
    Yes,
}

impl ShouldExit {
    /// Whether this outcome tears the walk down.
    pub open spec fn spec_should_exit(self) -> bool {
        self is Yes
    }

    pub fn should_exit(&self) -> (b: bool)
        ensures
            b == self.spec_should_exit(),
    {
        matches!(self, ShouldExit::Yes)
    }
}

/// The type a directory listing resolves for one entry: a regular file,
/// a directory, a symbolic link pointing at one of the two, or an entry
/// whose metadata could not be read at all.
#[derive(Clone, Copy, Debug, PartialEq, Eq, Structural)]
pub enum RawKind {
    File,
    Dir,
    SymlinkToFile,
    SymlinkToDir,
    Unreadable,
}

/// An entry's definitive type, after following symbolic links: only a
/// file or a directory, never a link.
#[derive(Clone, Copy, Debug, PartialEq, Eq, Structural)]
pub enum EntryKind {
    File,
    Dir,
}

/// The definitive type behind a raw hint: a symbolic link counts as what
/// it points at, and an unreadable entry has none.
pub open spec fn spec_definitive(kind: RawKind) -> Option<EntryKind> {
    match kind {
        RawKind::File => Some(EntryKind::File),
        RawKind::SymlinkToFile => Some(EntryKind::File),
        RawKind::Dir => Some(EntryKind::Dir),
        RawKind::SymlinkToDir => Some(EntryKind::Dir),
        RawKind::Unreadable => None,
    }
}

/// One source entry: its name, its resolved type hint, and, where the
/// definitive type is a directory, that directory's own entries as seen
/// through any link.
#[derive(Debug)]
pub struct SrcEntry {
    /// The entry's base name.
    pub name: String,
    /// The type the listing resolved for the entry.
    pub kind: RawKind,
    /// The entries below this one; meaningful only for a directory.
    pub children: Vec<SrcEntry>,
}

/// Resolve an entry's definitive type. A symbolic-link entry is
/// classified by what it points at — a file is linked, a directory is
/// offered for creation — and is never surfaced as a type of its own;
/// an unreadable entry yields nothing and is skipped by the walk.
pub fn get_definitive_file_type(entry: &SrcEntry) -> (k: Option<EntryKind>)
    ensures
        k == spec_definitive(entry.kind),
{
    match entry.kind {
        RawKind::File => Some(EntryKind::File),
        RawKind::SymlinkToFile => Some(EntryKind::File),
        RawKind::Dir => Some(EntryKind::Dir),
        RawKind::SymlinkToDir => Some(EntryKind::Dir),
        RawKind::Unreadable => None,
    }
}

/// One attempted filesystem operation, at the model level.
pub enum FsOpModel {
    /// A link at `link` pointing back at `original`.
    Link { original: Seq<Seq<char>>, link: Seq<Seq<char>> },
    /// A directory created at `dir`.
    MkDir { dir: Seq<Seq<char>> },
}

/// One attempted filesystem operation, as the walk records it.
#[derive(Debug, Clone, PartialEq, Eq)]
pub enum FsOp {
    /// A link at `link` pointing back at `original`.
    Link { original: FsPath, link: FsPath },
    /// A directory created at `dir`.
    MkDir { dir: FsPath },
}

impl View for FsOp {
    type V = FsOpModel;

    open spec fn view(&self) -> FsOpModel {
        match self {
            FsOp::Link { original, link } => FsOpModel::Link {
                original: original@,
                link: link@,
            },
            FsOp::MkDir { dir } => FsOpModel::MkDir { dir: dir@ },
        }
    }
}

/// The model views of a sequence of recorded operations.
pub open spec fn ops_model(ops: Seq<FsOp>) -> Seq<FsOpModel> {
    Seq::new(ops.len(), |i: int| ops[i]@)
}

/// What visiting one entry or one subtree produced: the attempted
/// operations, where the reply script stands afterwards, and whether the
/// whole walk must stop.
pub struct WalkRes {
    pub ops: Seq<FsOpModel>,
    pub pos: int,
    pub exit: bool,
}

/// What the directory-creation step decided.
pub enum DirActModel {
    /// The user declined to answer: stop the whole walk.
    Abort,
    /// No directory was created: skip this subtree and continue.
    Skip,
    /// A directory was created at the given path; recursion may follow.
    Recurse(Seq<Seq<char>>),
}

/// Result of the directory-creation step: its decision, the attempted
/// operations, and where the reply script stands afterwards.
pub struct DirRes {
    pub act: DirActModel,
    pub ops: Seq<FsOpModel>,
    pub pos: int,
}

/// The model of linking one file: consult the link-creation gate, then,
/// when proceeding and renames are prompted for, settle the link's final
/// name, and record one link operation from the settled link path back
/// to `original`. An abort at either prompt stops the walk with nothing
/// recorded.
pub open spec fn link_file_spec(
    original: Seq<Seq<char>>,
    link: Seq<Seq<char>>,
    policy: WalkPolicy,
    items: Seq<Reply>,
    pos: int,
) -> WalkRes
    recommends
        link.len() > 0,
{
    let (d, p1) = spec_gate_script(policy.link_creation, items, pos);
    match d {
        Decision::Abort => WalkRes { ops: seq![], pos: p1, exit: true },
        Decision::Skip => WalkRes { ops: seq![], pos: p1, exit: false },
        Decision::Proceed => if policy.ask_rename_links {
            match entered_at(items, p1) {
                None => WalkRes { ops: seq![], pos: next_pos(items, p1), exit: true },
                Some(entered) => WalkRes {
                    ops: seq![
                        FsOpModel::Link {
                            original,
                            link: link.update(
                                link.len() - 1,
                                spec_chosen_name(entered, link.last()),
                            ),
                        },
                    ],
                    pos: next_pos(items, p1),
                    exit: false,
                },
            }
        } else {
            WalkRes { ops: seq![FsOpModel::Link { original, link }], pos: p1, exit: false }
        },
    }
}

/// The model of recreating one directory named `name` inside `target`:
/// consult the directory-creation gate, then, when proceeding and
/// renames are prompted for, settle the new directory's name, and record
/// one directory creation. The caller decides recursion afterwards.
pub open spec fn create_dir_spec(
    target: Seq<Seq<char>>,
    name: Seq<char>,
    policy: WalkPolicy,
    items: Seq<Reply>,
    pos: int,
) -> DirRes {
    let (d, p1) = spec_gate_script(policy.dir_creation, items, pos);
    match d {
        Decision::Abort => DirRes { act: DirActModel::Abort, ops: seq![], pos: p1 },
        Decision::Skip => DirRes { act: DirActModel::Skip, ops: seq![], pos: p1 },
        Decision::Proceed => if policy.ask_rename_dirs {
            match entered_at(items, p1) {
                None => DirRes {
                    act: DirActModel::Abort,
                    ops: seq![],
                    pos: next_pos(items, p1),
                },
                Some(entered) => DirRes {
                    act: DirActModel::Recurse(target.push(spec_chosen_name(entered, name))),
                    ops: seq![FsOpModel::MkDir { dir: target.push(spec_chosen_name(entered, name)) }],
                    pos: next_pos(items, p1),
                },
            }
        } else {
            DirRes {
                act: DirActModel::Recurse(target.push(name)),
                ops: seq![FsOpModel::MkDir { dir: target.push(name) }],
                pos: p1,
            }
        },
    }
}

/// The model of visiting one entry: a file is offered for linking, a
/// directory for creation and then, through the recursion gate, for a
/// descent into its entries with the created directory as the new
/// target; an unreadable entry is skipped.
pub open spec fn entry_spec(
    entry: SrcEntry,
    source: Seq<Seq<char>>,
    target: Seq<Seq<char>>,
    policy: WalkPolicy,
    items: Seq<Reply>,
    pos: int,
) -> WalkRes
    decreases entry, 0int,
{
    match spec_definitive(entry.kind) {
        None => WalkRes { ops: seq![], pos, exit: false },
        Some(EntryKind::File) => link_file_spec(
            source.push(entry.name@),
            target.push(entry.name@),
            policy,
            items,
            pos,
        ),
        Some(EntryKind::Dir) => {
            let d = create_dir_spec(target, entry.name@, policy, items, pos);
            match d.act {
                DirActModel::Abort => WalkRes { ops: d.ops, pos: d.pos, exit: true },
                DirActModel::Skip => WalkRes { ops: d.ops, pos: d.pos, exit: false },
                DirActModel::Recurse(new_dir) => {
                    let (rd, p2) = spec_gate_script(policy.recursion, items, d.pos);
                    match rd {
                        Decision::Abort => WalkRes { ops: d.ops, pos: p2, exit: true },
                        Decision::Skip => WalkRes { ops: d.ops, pos: p2, exit: false },
                        Decision::Proceed => {
                            let sub = walk_spec(
                                entry.children@,
                                source.push(entry.name@),
                                new_dir,
                                policy,
                                items,
                                p2,
                            );
                            WalkRes { ops: d.ops + sub.ops, pos: sub.pos, exit: sub.exit }
                        },
                    }
                },
            }
        },
    }
}

/// The model of walking one directory listing, entry by entry in order:
/// each entry's result is appended, and the first abort stops everything
/// with no later entry visited.
pub open spec fn walk_spec(
    entries: Seq<SrcEntry>,
    source: Seq<Seq<char>>,
    target: Seq<Seq<char>>,
    policy: WalkPolicy,
    items: Seq<Reply>,
    pos: int,
) -> WalkRes
    decreases entries, 1int,
{
    if entries.len() == 0 {
        WalkRes { ops: seq![], pos, exit: false }
    } else {
        let first = entry_spec(entries[0], source, target, policy, items, pos);
        if first.exit {
            first
        } else {
            let rest = walk_spec(entries.drop_first(), source, target, policy, items, first.pos);
            WalkRes { ops: first.ops + rest.ops, pos: rest.pos, exit: rest.exit }
        }
    }
}

/// The source argument as the walk sees it once resolved: a single
/// regular file, or a directory together with its listing.
#[derive(Debug)]
pub enum SourceTree {
    File,
    Dir { entries: Vec<SrcEntry> },
}

/// The model of the whole run: a single-file source is offered for one
/// link directly inside the target, with no directory read at all; a
/// directory source has its listing walked.
pub open spec fn walk_source_spec(
    root: SourceTree,
    root_path: Seq<Seq<char>>,
    target: Seq<Seq<char>>,
    policy: WalkPolicy,
    items: Seq<Reply>,
    pos: int,
) -> WalkRes
    recommends
        root is File ==> root_path.len() > 0,
{
    match root {
        SourceTree::File => link_file_spec(
            root_path,
            target.push(root_path.last()),
            policy,
            items,
            pos,
        ),
        SourceTree::Dir { entries } => walk_spec(entries@, root_path, target, policy, items, pos),
    }
}

/// How an executable visit corresponds to a model result `res`: the
/// script stands at `res.pos`, the recorded operations grew by exactly
/// `res.ops`, and the outcome says to stop exactly when the model aborts.
pub open spec fn walk_matches(
    res: WalkRes,
    r: ShouldExit,
    pos: int,
    ops0: Seq<FsOpModel>,
    ops1: Seq<FsOpModel>,
) -> bool {
    &&& pos == res.pos
    &&& ops1 == ops0 + res.ops
    &&& (r is Yes <==> res.exit)
}

/// How an executable directory-creation step corresponds to a model
/// result `res`.
pub open spec fn dir_matches(
    res: DirRes,
    r: CreateDirContinuation,
    pos: int,
    ops0: Seq<FsOpModel>,
    ops1: Seq<FsOpModel>,
) -> bool {
    &&& pos == res.pos
    &&& ops1 == ops0 + res.ops
    &&& match r {
        CreateDirContinuation::Exit => res.act is Abort,
        CreateDirContinuation::Continue => res.act is Skip,
        CreateDirContinuation::MaybeRecurse(p) => res.act == DirActModel::Recurse(p@),
    }
}

proof fn lemma_ops_unchanged(s: Seq<FsOp>)
    ensures
        ops_model(s) == ops_model(s) + Seq::<FsOpModel>::empty(),
{
    assert(ops_model(s) =~= ops_model(s) + Seq::<FsOpModel>::empty());
}

proof fn lemma_ops_push(s: Seq<FsOp>, o: FsOp)
    ensures
        ops_model(s.push(o)) == ops_model(s) + seq![o@],
{
    assert(ops_model(s.push(o)) =~= ops_model(s) + seq![o@]);
}

/// How the walk continues after one directory has been recreated.
#[derive(Debug)]
pub enum CreateDirContinuation {
    /// Stop the whole walk.
    Exit,
    /// Skip this subtree and move to the next sibling.
    Continue,
    /// The directory was created at the given path; recursion may follow.
    MaybeRecurse(FsPath),
}

/// Offer to create a link at `link` pointing back at `original`,
/// consulting the policy's link-creation gate and, when proceeding,
/// the rename prompt; the settled name replaces the final component of
/// `link`. Produces exactly what [`link_file_spec`] says. The link path
/// must carry a final name component: the walk always hands one over,
/// and anything else would be a fault in the caller, not in its input.
pub fn link_file(
    original: &FsPath,
    link: &FsPath,
    policy: &WalkPolicy,
    script: &mut ReplyScript,
    ops: &mut Vec<FsOp>,
) -> (r: ShouldExit)
    requires
        link@.len() > 0,
    ensures
        final(script).items == old(script).items,
        walk_matches(
            link_file_spec(original@, link@, *policy, old(script).items@, old(script).pos as int),
            r,
            final(script).pos as int,
            ops_model(old(ops)@),
            ops_model(final(ops)@),
        ),
{
    proof {
        lemma_ops_unchanged(ops@);
    }
    let d = script.gate(policy.link_creation);
    match d {
        Decision::Abort => ShouldExit::Yes,
        Decision::Skip => ShouldExit::No,
        Decision::Proceed => {
            if policy.ask_rename_links {
                match script.next_text() {
                    None => ShouldExit::Yes,
                    Some(entered) => {
                        let base = link.file_name().unwrap();
                        let name = chosen_name(entered, base);
                        let new_link = link.with_file_name(name);
                        let op = FsOp::Link { original: original.duplicate(), link: new_link };
                        proof {
                            lemma_ops_push(ops@, op);
                        }
                        ops.push(op);
                        ShouldExit::No
                    },
                }
            } else {
                let op = FsOp::Link { original: original.duplicate(), link: link.duplicate() };
                proof {
                    lemma_ops_push(ops@, op);
                }
                ops.push(op);
                ShouldExit::No
            }
        },
    }
}

/// Offer to recreate the directory `name` inside `target`, consulting
/// the policy's directory-creation gate and, when proceeding, the rename
/// prompt. Produces exactly what [`create_dir_spec`] says; the created
/// path comes back so the caller can decide on recursion.
pub fn create_dir(
    target: &FsPath,
    name: &String,
    policy: &WalkPolicy,
    script: &mut ReplyScript,
    ops: &mut Vec<FsOp>,
) -> (r: CreateDirContinuation)
    ensures
        final(script).items == old(script).items,
        dir_matches(
            create_dir_spec(target@, name@, *policy, old(script).items@, old(script).pos as int),
            r,
            final(script).pos as int,
            ops_model(old(ops)@),
            ops_model(final(ops)@),
        ),
{
    proof {
        lemma_ops_unchanged(ops@);
    }
    let d = script.gate(policy.dir_creation);
    match d {
        Decision::Abort => CreateDirContinuation::Exit,
        Decision::Skip => CreateDirContinuation::Continue,
        Decision::Proceed => {
            let new_name: String = if policy.ask_rename_dirs {
                match script.next_text() {
                    None => {
                        return CreateDirContinuation::Exit;
                    },
                    Some(entered) => chosen_name(entered, name),
                }
            } else {
                name.clone()
            };
            let new_dir = target.join(&new_name);
            let op = FsOp::MkDir { dir: new_dir.duplicate() };
            proof {
                lemma_ops_push(ops@, op);
            }
            ops.push(op);
            CreateDirContinuation::MaybeRecurse(new_dir)
        },
    }
}

pub(crate) proof fn lemma_empty_add(s: Seq<FsOpModel>)
    ensures
        Seq::<FsOpModel>::empty() + s == s,
{
    assert(Seq::<FsOpModel>::empty() + s =~= s);
}

pub(crate) proof fn lemma_add_assoc(a: Seq<FsOpModel>, b: Seq<FsOpModel>, c: Seq<FsOpModel>)
    ensures
        (a + b) + c == a + (b + c),
{
    assert((a + b) + c =~= a + (b + c));
}

/// Visit the entries of one directory listing from index `i` on, in
/// order, stopping at the first abort.
fn walk_from(
    entries: &Vec<SrcEntry>,
    i: usize,
    source: &FsPath,
    target: &FsPath,
    policy: &WalkPolicy,
    script: &mut ReplyScript,
    ops: &mut Vec<FsOp>,
) -> (r: ShouldExit)
    requires
        i <= entries@.len(),
    ensures
        final(script).items == old(script).items,
        walk_matches(
            walk_spec(
                entries@.skip(i as int),
                source@,
                target@,
                *policy,
                old(script).items@,
                old(script).pos as int,
            ),
            r,
            final(script).pos as int,
            ops_model(old(ops)@),
            ops_model(final(ops)@),
        ),
    decreases entries@, entries@.len() - i,
{
    let ghost items0 = script.items@;
    let ghost pos0: int = script.pos as int;
    let ghost ops0 = ops_model(ops@);
    if i == entries.len() {
        proof {
            assert(entries@.skip(i as int) =~= Seq::<SrcEntry>::empty());
            lemma_ops_unchanged(ops@);
        }
        return ShouldExit::No;
    }
    let ghost s = entries@.skip(i as int);
    let ghost first = entry_spec(s[0], source@, target@, *policy, items0, pos0);
    proof {
        assert(s[0] == entries@[i as int]);
        assert(s.drop_first() =~= entries@.skip(i as int + 1));
    }
    let e = &entries[i];
    match get_definitive_file_type(e) {
        None => {
            proof {
                assert(first == WalkRes { ops: Seq::<FsOpModel>::empty(), pos: pos0, exit: false });
            }
            let rest = walk_from(entries, i + 1, source, target, policy, script, ops);
            proof {
                let restres = walk_spec(s.drop_first(), source@, target@, *policy, items0, pos0);
                lemma_empty_add(restres.ops);
            }
            rest
        },
        Some(EntryKind::File) => {
            let original = source.join(&e.name);
            let link = target.join(&e.name);
            let r1 = link_file(&original, &link, policy, script, ops);
            proof {
                assert(first == link_file_spec(
                    source@.push(e.name@),
                    target@.push(e.name@),
                    *policy,
                    items0,
                    pos0,
                ));
            }
            match r1 {
                ShouldExit::Yes => ShouldExit::Yes,
                ShouldExit::No => {
                    let rest = walk_from(entries, i + 1, source, target, policy, script, ops);
                    proof {
                        let restres = walk_spec(
                            s.drop_first(),
                            source@,
                            target@,
                            *policy,
                            items0,
                            first.pos,
                        );
                        lemma_add_assoc(ops0, first.ops, restres.ops);
                    }
                    rest
                },
            }
        },
        Some(EntryKind::Dir) => {
            let ghost cds = create_dir_spec(target@, e.name@, *policy, items0, pos0);
            match create_dir(target, &e.name, policy, script, ops) {
                CreateDirContinuation::Exit => ShouldExit::Yes,
                CreateDirContinuation::Continue => {
                    let rest = walk_from(entries, i + 1, source, target, policy, script, ops);
                    proof {
                        let restres = walk_spec(
                            s.drop_first(),
                            source@,
                            target@,
                            *policy,
                            items0,
                            first.pos,
                        );
                        lemma_add_assoc(ops0, first.ops, restres.ops);
                    }
                    rest
                },
                CreateDirContinuation::MaybeRecurse(new_dir) => {
                    let rd = script.gate(policy.recursion);
                    let ghost p2: int = script.pos as int;
                    match rd {
                        Decision::Abort => ShouldExit::Yes,
                        Decision::Skip => {
                            let rest = walk_from(
                                entries,
                                i + 1,
                                source,
                                target,
                                policy,
                                script,
                                ops,
                            );
                            proof {
                                let restres = walk_spec(
                                    s.drop_first(),
                                    source@,
                                    target@,
                                    *policy,
                                    items0,
                                    first.pos,
                                );
                                lemma_add_assoc(ops0, first.ops, restres.ops);
                            }
                            rest
                        },
                        Decision::Proceed => {
                            let sub_source = source.join(&e.name);
                            proof {
                                assert(decreases_to!(entries@ => entries@[i as int]));
                                assert(decreases_to!(
                                    entries@[i as int] => entries@[i as int].children
                                ));
                                assert(decreases_to!(
                                    entries@[i as int].children => entries@[i as int].children@
                                ));
                            }
                            let sub = recurse_into_dir(
                                &e.children,
                                &sub_source,
                                &new_dir,
                                policy,
                                script,
                                ops,
                            );
                            match sub {
                                ShouldExit::Yes => {
                                    proof {
                                        let subres = walk_spec(
                                            e.children@,
                                            source@.push(e.name@),
                                            new_dir@,
                                            *policy,
                                            items0,
                                            p2,
                                        );
                                        lemma_add_assoc(ops0, cds.ops, subres.ops);
                                    }
                                    ShouldExit::Yes
                                },
                                ShouldExit::No => {
                                    proof {
                                        let subres = walk_spec(
                                            e.children@,
                                            source@.push(e.name@),
                                            new_dir@,
                                            *policy,
                                            items0,
                                            p2,
                                        );
                                        lemma_add_assoc(ops0, cds.ops, subres.ops);
                                    }
                                    let rest = walk_from(
                                        entries,
                                        i + 1,
                                        source,
                                        target,
                                        policy,
                                        script,
                                        ops,
                                    );
                                    proof {
                                        let restres = walk_spec(
                                            s.drop_first(),
                                            source@,
                                            target@,
                                            *policy,
                                            items0,
                                            first.pos,
                                        );
                                        lemma_add_assoc(ops0, first.ops, restres.ops);
                                        lemma_add_assoc(
                                            ops0 + cds.ops,
                                            first.ops,
                                            restres.ops,
                                        );
                                    }
                                    rest
                                },
                            }
                        },
                    }
                },
            }
        },
    }
}

/// Walk the entries of one source directory, linking files into `target`
/// and offering directories for recreation and descent. Produces exactly
/// what [`walk_spec`] says: operations in entry order, the first abort
/// stopping everything.
pub fn recurse_into_dir(
    entries: &Vec<SrcEntry>,
    source: &FsPath,
    target: &FsPath,
    policy: &WalkPolicy,
    script: &mut ReplyScript,
    ops: &mut Vec<FsOp>,
) -> (r: ShouldExit)
    ensures
        final(script).items == old(script).items,
        walk_matches(
            walk_spec(
                entries@,
                source@,
                target@,
                *policy,
                old(script).items@,
                old(script).pos as int,
            ),
            r,
            final(script).pos as int,
            ops_model(old(ops)@),
            ops_model(final(ops)@),
        ),
    decreases entries@, entries@.len() + 1,
{
    proof {
        assert(entries@.skip(0) =~= entries@);
    }
    walk_from(entries, 0, source, target, policy, script, ops)
}

/// Run the whole walk: a source that is a single regular file is offered
/// for one link directly inside `target`, and no directory is read; a
/// directory source has its listing walked. Produces exactly what
/// [`walk_source_spec`] says. A single-file source must carry a final
/// name component.
pub fn walk(
    root: &SourceTree,
    root_path: &FsPath,
    target: &FsPath,
    policy: &WalkPolicy,
    script: &mut ReplyScript,
    ops: &mut Vec<FsOp>,
) -> (r: ShouldExit)
    requires
        root is File ==> root_path@.len() > 0,
    ensures
        final(script).items == old(script).items,
        walk_matches(
            walk_source_spec(
                *root,
                root_path@,
                target@,
                *policy,
                old(script).items@,
                old(script).pos as int,
            ),
            r,
            final(script).pos as int,
            ops_model(old(ops)@),
            ops_model(final(ops)@),
        ),
{
    match root {
        SourceTree::File => {
            let base = root_path.file_name().unwrap();
            let link = target.join(base);
            link_file(root_path, &link, policy, script, ops)
        },
        SourceTree::Dir { entries } => recurse_into_dir(
            entries,
            root_path,
            target,
            policy,
            script,
            ops,
        ),
    }
}

} // verus!

