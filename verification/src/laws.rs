//! Laws of the walk, stated and proved over the model.
//!
//! These proof functions pin down the walk's global behaviour: how many
//! operations an unattended walk attempts, that an abort cuts the walk
//! off with nothing recorded after it, that a walk whose recursion mode
//! is never stays at the top level, and what a single-file source yields.

use vstd::prelude::*;
use crate::policy::WalkPolicy;
use crate::prompt::spec_gate_script;
use crate::prompt::Reply;
use crate::walk::create_dir_spec;
use crate::walk::entry_spec;
use crate::walk::lemma_add_assoc;
use crate::walk::lemma_empty_add;
use crate::walk::spec_definitive;
use crate::walk::walk_spec;
use crate::walk::walk_source_spec;
use crate::walk::DirActModel;
use crate::walk::EntryKind;
use crate::walk::FsOpModel;
use crate::walk::SourceTree;
use crate::walk::SrcEntry;
use crate::walk::WalkRes;

verus! {

/// A policy under which the walk runs unattended: every gate always
/// proceeds and no rename is prompted for.
pub open spec fn all_always(policy: WalkPolicy) -> bool {
    &&& policy.link_creation is Always
    &&& policy.dir_creation is Always
    &&& policy.recursion is Always
    &&& !policy.ask_rename_links
    &&& !policy.ask_rename_dirs
}

/// How many readable files one entry holds, recursively.
pub open spec fn count_files_entry(entry: SrcEntry) -> nat
    decreases entry, 0int,
{
    match spec_definitive(entry.kind) {
        Some(EntryKind::File) => 1,
        Some(EntryKind::Dir) => count_files(entry.children@),
        None => 0,
    }
}

/// How many readable files a listing holds, recursively.
pub open spec fn count_files(entries: Seq<SrcEntry>) -> nat
    decreases entries, 1int,
{
    if entries.len() == 0 {
        0
    } else {
        count_files_entry(entries[0]) + count_files(entries.drop_first())
    }
}

/// How many readable directories one entry holds, itself included,
/// recursively.
pub open spec fn count_dirs_entry(entry: SrcEntry) -> nat
    decreases entry, 0int,
{
    match spec_definitive(entry.kind) {
        Some(EntryKind::File) => 0,
        Some(EntryKind::Dir) => 1 + count_dirs(entry.children@),
        None => 0,
    }
}

/// How many readable directories a listing holds, recursively.
pub open spec fn count_dirs(entries: Seq<SrcEntry>) -> nat
    decreases entries, 1int,
{
    if entries.len() == 0 {
        0
    } else {
        count_dirs_entry(entries[0]) + count_dirs(entries.drop_first())
    }
}

/// How many of the operations are link creations.
pub open spec fn count_link_ops(ops: Seq<FsOpModel>) -> nat
    decreases ops,
{
    if ops.len() == 0 {
        0
    } else {
        (if ops[0] is Link {
            1nat
        } else {
            0nat
        }) + count_link_ops(ops.drop_first())
    }
}

/// How many of the operations are directory creations.
pub open spec fn count_mkdir_ops(ops: Seq<FsOpModel>) -> nat
    decreases ops,
{
    if ops.len() == 0 {
        0
    } else {
        (if ops[0] is MkDir {
            1nat
        } else {
            0nat
        }) + count_mkdir_ops(ops.drop_first())
    }
}

/// Every operation is a link or a directory creation, so the two counts
/// exhaust the sequence.
pub proof fn lemma_counts_total(ops: Seq<FsOpModel>)
    ensures
        count_link_ops(ops) + count_mkdir_ops(ops) == ops.len(),
    decreases ops,
{
    if ops.len() > 0 {
        lemma_counts_total(ops.drop_first());
    }
}

proof fn lemma_count_concat(a: Seq<FsOpModel>, b: Seq<FsOpModel>)
    ensures
        count_link_ops(a + b) == count_link_ops(a) + count_link_ops(b),
        count_mkdir_ops(a + b) == count_mkdir_ops(a) + count_mkdir_ops(b),
    decreases a,
{
    if a.len() == 0 {
        assert(a + b =~= b);
    } else {
        assert((a + b).drop_first() =~= a.drop_first() + b);
        lemma_count_concat(a.drop_first(), b);
    }
}

proof fn lemma_count_singleton(op: FsOpModel)
    ensures
        count_link_ops(seq![op]) == (if op is Link {
            1nat
        } else {
            0nat
        }),
        count_mkdir_ops(seq![op]) == (if op is MkDir {
            1nat
        } else {
            0nat
        }),
{
    assert(seq![op].drop_first() =~= Seq::<FsOpModel>::empty());
    assert(count_link_ops(Seq::<FsOpModel>::empty()) == 0);
    assert(count_mkdir_ops(Seq::<FsOpModel>::empty()) == 0);
}

/// Under an unattended policy, visiting one entry consumes no reply,
/// never aborts, and attempts exactly one link per readable file and one
/// directory creation per readable directory below it.
pub proof fn lemma_always_entry(
    entry: SrcEntry,
    source: Seq<Seq<char>>,
    target: Seq<Seq<char>>,
    policy: WalkPolicy,
    items: Seq<Reply>,
    pos: int,
)
    requires
        all_always(policy),
    ensures
        ({
            let r = entry_spec(entry, source, target, policy, items, pos);
            &&& !r.exit
            &&& r.pos == pos
            &&& count_link_ops(r.ops) == count_files_entry(entry)
            &&& count_mkdir_ops(r.ops) == count_dirs_entry(entry)
        }),
    decreases entry, 0int,
{
    match spec_definitive(entry.kind) {
        Some(EntryKind::File) => {
            lemma_count_singleton(
                FsOpModel::Link {
                    original: source.push(entry.name@),
                    link: target.push(entry.name@),
                },
            );
        },
        Some(EntryKind::Dir) => {
            let mk = FsOpModel::MkDir { dir: target.push(entry.name@) };
            lemma_count_singleton(mk);
            lemma_always_walk(
                entry.children@,
                source.push(entry.name@),
                target.push(entry.name@),
                policy,
                items,
                pos,
            );
            let sub = walk_spec(
                entry.children@,
                source.push(entry.name@),
                target.push(entry.name@),
                policy,
                items,
                pos,
            );
            lemma_count_concat(seq![mk], sub.ops);
        },
        None => {
        },
    }
}

/// For every tree, under an unattended policy the walk consumes no
/// reply, never aborts, and attempts exactly one link-creation operation
/// per readable file and one directory-creation operation per readable
/// directory — one per source entry, never twice.
pub proof fn lemma_always_walk(
    entries: Seq<SrcEntry>,
    source: Seq<Seq<char>>,
    target: Seq<Seq<char>>,
    policy: WalkPolicy,
    items: Seq<Reply>,
    pos: int,
)
    requires
        all_always(policy),
    ensures
        ({
            let r = walk_spec(entries, source, target, policy, items, pos);
            &&& !r.exit
            &&& r.pos == pos
            &&& count_link_ops(r.ops) == count_files(entries)
            &&& count_mkdir_ops(r.ops) == count_dirs(entries)
            &&& r.ops.len() == count_files(entries) + count_dirs(entries)
        }),
    decreases entries, 1int,
{
    let r = walk_spec(entries, source, target, policy, items, pos);
    if entries.len() == 0 {
    } else {
        lemma_always_entry(entries[0], source, target, policy, items, pos);
        lemma_always_walk(entries.drop_first(), source, target, policy, items, pos);
        let first = entry_spec(entries[0], source, target, policy, items, pos);
        let rest = walk_spec(entries.drop_first(), source, target, policy, items, pos);
        lemma_count_concat(first.ops, rest.ops);
    }
    lemma_counts_total(r.ops);
}

/// Walking a listing split in two is walking its first part and, only
/// when that part did not abort, walking the second part from where the
/// first left off.
pub proof fn lemma_walk_append(
    s1: Seq<SrcEntry>,
    s2: Seq<SrcEntry>,
    source: Seq<Seq<char>>,
    target: Seq<Seq<char>>,
    policy: WalkPolicy,
    items: Seq<Reply>,
    pos: int,
)
    ensures
        ({
            let r1 = walk_spec(s1, source, target, policy, items, pos);
            let r12 = walk_spec(s1 + s2, source, target, policy, items, pos);
            if r1.exit {
                r12 == r1
            } else {
                let r2 = walk_spec(s2, source, target, policy, items, r1.pos);
                &&& r12.ops == r1.ops + r2.ops
                &&& r12.pos == r2.pos
                &&& r12.exit == r2.exit
            }
        }),
    decreases s1,
{
    let r1 = walk_spec(s1, source, target, policy, items, pos);
    if s1.len() == 0 {
        assert(s1 + s2 =~= s2);
        if !r1.exit {
            let r2 = walk_spec(s2, source, target, policy, items, r1.pos);
            lemma_empty_add(r2.ops);
        }
    } else {
        assert((s1 + s2)[0] == s1[0]);
        assert((s1 + s2).drop_first() =~= s1.drop_first() + s2);
        let first = entry_spec(s1[0], source, target, policy, items, pos);
        if !first.exit {
            lemma_walk_append(s1.drop_first(), s2, source, target, policy, items, first.pos);
            let rest1 = walk_spec(s1.drop_first(), source, target, policy, items, first.pos);
            if !rest1.exit {
                let r2 = walk_spec(s2, source, target, policy, items, rest1.pos);
                lemma_add_assoc(first.ops, rest1.ops, r2.ops);
            }
        }
    }
}

/// An abort issued while visiting some entry stops all further entry
/// processing at that depth: whatever entries follow the aborting ones,
/// the walk's result — its attempted operations included — is exactly
/// that of the aborting part, so nothing after the abort point leaves a
/// trace. An abort below a descent propagates unchanged to every
/// ancestor depth, since a subtree whose walk aborts makes its entry's
/// visit abort.
pub proof fn lemma_abort_stops_siblings(
    s1: Seq<SrcEntry>,
    s2: Seq<SrcEntry>,
    source: Seq<Seq<char>>,
    target: Seq<Seq<char>>,
    policy: WalkPolicy,
    items: Seq<Reply>,
    pos: int,
)
    requires
        walk_spec(s1, source, target, policy, items, pos).exit,
    ensures
        walk_spec(s1 + s2, source, target, policy, items, pos) == walk_spec(
            s1,
            source,
            target,
            policy,
            items,
            pos,
        ),
{
    lemma_walk_append(s1, s2, source, target, policy, items, pos);
}

/// Whether one operation stands exactly one name below the walk's
/// current source and target directories.
pub open spec fn op_at_depth_one(
    op: FsOpModel,
    source: Seq<Seq<char>>,
    target: Seq<Seq<char>>,
) -> bool {
    match op {
        FsOpModel::Link { original, link } => {
            &&& original.len() == source.len() + 1
            &&& original.drop_last() == source
            &&& link.len() == target.len() + 1
            &&& link.drop_last() == target
        },
        FsOpModel::MkDir { dir } => {
            &&& dir.len() == target.len() + 1
            &&& dir.drop_last() == target
        },
    }
}

proof fn lemma_depth_one_concat(
    a: Seq<FsOpModel>,
    b: Seq<FsOpModel>,
    source: Seq<Seq<char>>,
    target: Seq<Seq<char>>,
)
    requires
        forall|j: int| 0 <= j < a.len() ==> op_at_depth_one(#[trigger] a[j], source, target),
        forall|j: int| 0 <= j < b.len() ==> op_at_depth_one(#[trigger] b[j], source, target),
    ensures
        forall|j: int| 0 <= j < (a + b).len() ==> op_at_depth_one(#[trigger] (a + b)[j], source, target),
{
    assert forall|j: int| 0 <= j < (a + b).len() implies op_at_depth_one(
        #[trigger] (a + b)[j],
        source,
        target,
    ) by {
        if j < a.len() {
            assert((a + b)[j] == a[j]);
        } else {
            assert((a + b)[j] == b[j - a.len()]);
        }
    }
}

/// When the recursion mode is never, no subdirectory's contents are ever
/// visited, whatever the directory-creation policy: every attempted
/// operation stands exactly one name below the top-level source and
/// target directories.
pub proof fn lemma_recursion_never_stays_shallow(
    entries: Seq<SrcEntry>,
    source: Seq<Seq<char>>,
    target: Seq<Seq<char>>,
    policy: WalkPolicy,
    items: Seq<Reply>,
    pos: int,
)
    requires
        policy.recursion is Never,
    ensures
        ({
            let r = walk_spec(entries, source, target, policy, items, pos);
            forall|j: int| 0 <= j < r.ops.len() ==> op_at_depth_one(#[trigger] r.ops[j], source, target)
        }),
    decreases entries,
{
    if entries.len() > 0 {
        let first = entry_spec(entries[0], source, target, policy, items, pos);
        lemma_entry_never_stays_shallow(entries[0], source, target, policy, items, pos);
        if !first.exit {
            lemma_recursion_never_stays_shallow(
                entries.drop_first(),
                source,
                target,
                policy,
                items,
                first.pos,
            );
            let rest = walk_spec(entries.drop_first(), source, target, policy, items, first.pos);
            lemma_depth_one_concat(first.ops, rest.ops, source, target);
        }
    }
}

proof fn lemma_entry_never_stays_shallow(
    entry: SrcEntry,
    source: Seq<Seq<char>>,
    target: Seq<Seq<char>>,
    policy: WalkPolicy,
    items: Seq<Reply>,
    pos: int,
)
    requires
        policy.recursion is Never,
    ensures
        ({
            let r = entry_spec(entry, source, target, policy, items, pos);
            forall|j: int| 0 <= j < r.ops.len() ==> op_at_depth_one(#[trigger] r.ops[j], source, target)
        }),
{
    let r = entry_spec(entry, source, target, policy, items, pos);
    assert forall|j: int| 0 <= j < r.ops.len() implies op_at_depth_one(
        #[trigger] r.ops[j],
        source,
        target,
    ) by {
        match r.ops[j] {
            FsOpModel::Link { original, link } => {
                assert(original.drop_last() =~= source);
                assert(link.drop_last() =~= target);
            },
            FsOpModel::MkDir { dir } => {
                assert(dir.drop_last() =~= target);
            },
        }
    }
}

/// Whether one entry and, below a directory, all of its descendants
/// carry non-empty names.
pub open spec fn entry_names_nonempty(entry: SrcEntry) -> bool
    decreases entry, 0int,
{
    &&& entry.name@.len() > 0
    &&& match spec_definitive(entry.kind) {
        Some(EntryKind::Dir) => names_nonempty(entry.children@),
        _ => true,
    }
}

/// Whether every entry of a listing, descendants included, carries a
/// non-empty name.
pub open spec fn names_nonempty(entries: Seq<SrcEntry>) -> bool
    decreases entries, 1int,
{
    if entries.len() == 0 {
        true
    } else {
        entry_names_nonempty(entries[0]) && names_nonempty(entries.drop_first())
    }
}

/// Whether the path an operation creates ends in a non-empty name.
pub open spec fn op_final_name_nonempty(op: FsOpModel) -> bool {
    match op {
        FsOpModel::Link { original: _, link } => link.len() > 0 && link.last().len() > 0,
        FsOpModel::MkDir { dir } => dir.len() > 0 && dir.last().len() > 0,
    }
}

proof fn lemma_nonempty_concat(a: Seq<FsOpModel>, b: Seq<FsOpModel>)
    requires
        forall|j: int| 0 <= j < a.len() ==> op_final_name_nonempty(#[trigger] a[j]),
        forall|j: int| 0 <= j < b.len() ==> op_final_name_nonempty(#[trigger] b[j]),
    ensures
        forall|j: int| 0 <= j < (a + b).len() ==> op_final_name_nonempty(#[trigger] (a + b)[j]),
{
    assert forall|j: int| 0 <= j < (a + b).len() implies op_final_name_nonempty(
        #[trigger] (a + b)[j],
    ) by {
        if j < a.len() {
            assert((a + b)[j] == a[j]);
        } else {
            assert((a + b)[j] == b[j - a.len()]);
        }
    }
}

proof fn lemma_entry_names_nonempty(
    entry: SrcEntry,
    source: Seq<Seq<char>>,
    target: Seq<Seq<char>>,
    policy: WalkPolicy,
    items: Seq<Reply>,
    pos: int,
)
    requires
        entry_names_nonempty(entry),
    ensures
        ({
            let r = entry_spec(entry, source, target, policy, items, pos);
            forall|j: int| 0 <= j < r.ops.len() ==> op_final_name_nonempty(#[trigger] r.ops[j])
        }),
    decreases entry, 0int,
{
    match spec_definitive(entry.kind) {
        Some(EntryKind::Dir) => {
            let d = create_dir_spec(target, entry.name@, policy, items, pos);
            match d.act {
                DirActModel::Recurse(new_dir) => {
                    let (rd, p2) = spec_gate_script(policy.recursion, items, d.pos);
                    if rd is Proceed {
                        lemma_walk_names_nonempty(
                            entry.children@,
                            source.push(entry.name@),
                            new_dir,
                            policy,
                            items,
                            p2,
                        );
                        let sub = walk_spec(
                            entry.children@,
                            source.push(entry.name@),
                            new_dir,
                            policy,
                            items,
                            p2,
                        );
                        lemma_nonempty_concat(d.ops, sub.ops);
                    }
                },
                _ => {
                },
            }
        },
        _ => {
        },
    }
}

/// Every path the walk attempts to create — a link's or a created
/// directory's — ends in a non-empty name, provided every entry of the
/// source tree carries one: a settled name is either entered text, which
/// a rename only adopts when it is non-empty, or the entry's own name.
pub proof fn lemma_walk_names_nonempty(
    entries: Seq<SrcEntry>,
    source: Seq<Seq<char>>,
    target: Seq<Seq<char>>,
    policy: WalkPolicy,
    items: Seq<Reply>,
    pos: int,
)
    requires
        names_nonempty(entries),
    ensures
        ({
            let r = walk_spec(entries, source, target, policy, items, pos);
            forall|j: int| 0 <= j < r.ops.len() ==> op_final_name_nonempty(#[trigger] r.ops[j])
        }),
    decreases entries, 1int,
{
    if entries.len() > 0 {
        lemma_entry_names_nonempty(entries[0], source, target, policy, items, pos);
        let first = entry_spec(entries[0], source, target, policy, items, pos);
        if !first.exit {
            lemma_walk_names_nonempty(
                entries.drop_first(),
                source,
                target,
                policy,
                items,
                first.pos,
            );
            let rest = walk_spec(entries.drop_first(), source, target, policy, items, first.pos);
            lemma_nonempty_concat(first.ops, rest.ops);
        }
    }
}

/// When the source argument is a single file and links are created
/// without prompting or renaming, the walk performs exactly one link
/// operation, from the file to the target directory joined with the
/// file's own name, consumes no reply, and does not abort; a single-file
/// source carries no directory listing at all, so no directory is read.
pub proof fn lemma_single_file_source(
    root_path: Seq<Seq<char>>,
    target: Seq<Seq<char>>,
    policy: WalkPolicy,
    items: Seq<Reply>,
    pos: int,
)
    requires
        policy.link_creation is Always,
        !policy.ask_rename_links,
        root_path.len() > 0,
    ensures
        walk_source_spec(SourceTree::File, root_path, target, policy, items, pos) == (WalkRes {
            ops: seq![
                FsOpModel::Link { original: root_path, link: target.push(root_path.last()) },
            ],
            pos,
            exit: false,
        }),
{
}

} // verus!
