use vstd::multiset::Multiset;
use vstd::prelude::*;

use crate::api::{BatchMemoryRequest, MemoryItem};
use crate::doc_id::{doc_id_text, generate_doc_id, LocalStamp};
use crate::text::same_text;

verus! {

/// An entry found under the directory being imported.
pub struct DirEntry {
    pub path: String,
    /// The extension of the file name, without the dot.
    pub extension: Option<String>,
    /// How far below the directory the entry lies: 1 for its own children.
    pub depth: usize,
    pub is_file: bool,
}

/// What the import path turned out to be.
pub enum ImportSource {
    /// Nothing exists at the path.
    Missing { path: String },
    /// The path is a file, which is imported whatever its name.
    File { path: String },
    /// The path is a directory with these entries, in traversal order.
    Directory { entries: Vec<DirEntry> },
}

/// What an import does.
pub enum ImportPlan {
    /// Fail: nothing exists at the path.
    Missing { message: String },
    /// No file qualifies: warn and finish without calling the service.
    NothingToImport,
    /// Read these files, in order, and store them as one batch.
    Upload { files: Vec<String> },
}

/// Text files are imported: `.txt` and `.md`.
pub open spec fn is_importable_extension(ext: Option<String>) -> bool {
    match ext {
        Some(e) => e@ == "txt"@ || e@ == "md"@,
        None => false,
    }
}

/// Whether an import takes the entry.
pub open spec fn is_selected(e: DirEntry, recursive: bool) -> bool {
    &&& e.is_file
    &&& is_importable_extension(e.extension)
    &&& (recursive || e.depth == 1)
}

/// The paths of the entries an import takes, in traversal order.
pub open spec fn selection(entries: Seq<DirEntry>, recursive: bool) -> Seq<Seq<char>>
    decreases entries.len(),
{
    if entries.len() == 0 {
        Seq::empty()
    } else {
        let rest = selection(entries.drop_last(), recursive);
        if is_selected(entries.last(), recursive) {
            rest.push(entries.last().path@)
        } else {
            rest
        }
    }
}

pub open spec fn paths_view(v: Seq<String>) -> Seq<Seq<char>> {
    v.map_values(|s: String| s@)
}

pub open spec fn missing_message(path: Seq<char>) -> Seq<char> {
    "Path does not exist: "@ + path
}

/// Whether a file with this extension is imported.
pub fn is_importable(ext: &Option<String>) -> (r: bool)
    ensures
        r == is_importable_extension(*ext),
{
    match ext {
        Some(e) => same_text(e.as_str(), "txt") || same_text(e.as_str(), "md"),
        None => false,
    }
}

/// The paths of the entries an import takes: files with an importable
/// extension, only the directory's own children unless `recursive`.
pub fn select_files(entries: &Vec<DirEntry>, recursive: bool) -> (r: Vec<String>)
    ensures
        paths_view(r@) == selection(entries@, recursive),
{
    let mut out: Vec<String> = Vec::new();
    let mut i: usize = 0;
    while i < entries.len()
        invariant
            i <= entries@.len(),
            paths_view(out@) == selection(entries@.subrange(0, i as int), recursive),
        decreases entries@.len() - i,
    {
        let e = &entries[i];
        if e.is_file && is_importable(&e.extension) && (recursive || e.depth == 1) {
            out.push(e.path.clone());
        }
        proof {
            let s = entries@.subrange(0, i + 1);
            assert(s.drop_last() =~= entries@.subrange(0, i as int));
            assert(s.last() == entries@[i as int]);
            assert(paths_view(out@) =~= selection(s, recursive));
        }
        i = i + 1;
    }
    proof {
        assert(entries@.subrange(0, entries@.len() as int) =~= entries@);
    }
    out
}

/// What an import of `source` does.
pub fn plan_import(source: ImportSource, recursive: bool) -> (r: ImportPlan)
    ensures
        match source {
            ImportSource::Missing { path } => r matches ImportPlan::Missing { message } && message@
                == missing_message(path@),
            ImportSource::File { path } => r matches ImportPlan::Upload { files } && paths_view(
                files@,
            ) == seq![path@],
            ImportSource::Directory { entries } => if selection(entries@, recursive).len() == 0 {
                r is NothingToImport
            } else {
                r matches ImportPlan::Upload { files } && paths_view(files@) == selection(
                    entries@,
                    recursive,
                )
            },
        },
{
    match source {
        ImportSource::Missing { path } => {
            let mut message = String::from_str("Path does not exist: ");
            message.append(path.as_str());
            ImportPlan::Missing { message }
        },
        ImportSource::File { path } => {
            let mut files: Vec<String> = Vec::new();
            files.push(path);
            proof {
                assert(paths_view(files@) =~= seq![path@]);
            }
            ImportPlan::Upload { files }
        },
        ImportSource::Directory { entries } => {
            let files = select_files(&entries, recursive);
            if files.len() == 0 {
                ImportPlan::NothingToImport
            } else {
                ImportPlan::Upload { files }
            }
        },
    }
}

/// A directory without any `.txt` or `.md` file gives nothing to import, so
/// the service is not called.
pub proof fn lemma_no_text_files_nothing_to_import(entries: Seq<DirEntry>, recursive: bool)
    requires
        forall|i: int| 0 <= i < entries.len() ==> !is_importable_extension(#[trigger] entries[i].extension),
    ensures
        selection(entries, recursive).len() == 0,
    decreases entries.len(),
{
    if entries.len() > 0 {
        assert forall|i: int| 0 <= i < entries.drop_last().len() implies !is_importable_extension(
            #[trigger] entries.drop_last()[i].extension,
        ) by {
            assert(entries.drop_last()[i] == entries[i]);
        }
        lemma_no_text_files_nothing_to_import(entries.drop_last(), recursive);
        assert(!is_importable_extension(entries[entries.len() - 1].extension));
    }
}

/// The entries that are the directory's own children, in traversal order.
pub open spec fn top_level(entries: Seq<DirEntry>) -> Seq<DirEntry>
    decreases entries.len(),
{
    if entries.len() == 0 {
        Seq::empty()
    } else {
        let rest = top_level(entries.drop_last());
        if entries.last().depth == 1 {
            rest.push(entries.last())
        } else {
            rest
        }
    }
}

/// A non-recursive import takes exactly what a recursive import takes from
/// the directory's own children.
pub proof fn lemma_non_recursive_is_top_level(entries: Seq<DirEntry>)
    ensures
        selection(entries, false) == selection(top_level(entries), true),
    decreases entries.len(),
{
    if entries.len() > 0 {
        let rest = entries.drop_last();
        lemma_non_recursive_is_top_level(rest);
        if entries.last().depth == 1 {
            let t = top_level(entries);
            assert(t.drop_last() =~= top_level(rest));
            assert(t.last() == entries.last());
        }
    }
}

/// A recursive import takes every `.txt` and `.md` file, at any depth.
pub proof fn lemma_recursive_takes_every_text_file(entries: Seq<DirEntry>, i: int)
    requires
        0 <= i < entries.len(),
        entries[i].is_file,
        is_importable_extension(entries[i].extension),
    ensures
        selection(entries, true).contains(entries[i].path@),
    decreases entries.len(),
{
    let sel = selection(entries, true);
    let rest = entries.drop_last();
    if i == entries.len() - 1 {
        assert(sel[sel.len() - 1] == entries[i].path@);
    } else {
        assert(rest[i] == entries[i]);
        lemma_recursive_takes_every_text_file(rest, i);
        let r = selection(rest, true);
        let j = choose|j: int| 0 <= j < r.len() && r[j] == entries[i].path@;
        assert(sel[j] == r[j]);
    }
}

/// An import takes a path exactly when some entry with that path qualifies:
/// no other file contributes.
pub proof fn lemma_selection_members(entries: Seq<DirEntry>, recursive: bool, p: Seq<char>)
    ensures
        selection(entries, recursive).contains(p) <==> exists|i: int|
            0 <= i < entries.len() && is_selected(#[trigger] entries[i], recursive) && entries[i].path@ == p,
    decreases entries.len(),
{
    if entries.len() > 0 {
        let rest = entries.drop_last();
        let sel = selection(entries, recursive);
        let r = selection(rest, recursive);
        lemma_selection_members(rest, recursive, p);
        if sel.contains(p) {
            let j = choose|j: int| 0 <= j < sel.len() && sel[j] == p;
            if j < r.len() {
                assert(r[j] == p);
                let i = choose|i: int| 0 <= i < rest.len() && is_selected(#[trigger] rest[i], recursive) && rest[i].path@ == p;
                assert(entries[i] == rest[i]);
            } else {
                assert(entries[entries.len() - 1] == entries.last());
            }
        }
        if exists|i: int| 0 <= i < entries.len() && is_selected(#[trigger] entries[i], recursive) && entries[i].path@ == p {
            let i = choose|i: int| 0 <= i < entries.len() && is_selected(#[trigger] entries[i], recursive) && entries[i].path@ == p;
            if i < rest.len() {
                assert(rest[i] == entries[i]);
                let j = choose|j: int| 0 <= j < r.len() && r[j] == p;
                assert(sel[j] == p);
            } else {
                assert(sel[sel.len() - 1] == p);
            }
        }
    }
}

/// What one entry adds to an import: its path when it is taken.
pub open spec fn taken(e: DirEntry, recursive: bool) -> Multiset<Seq<char>> {
    if is_selected(e, recursive) {
        Multiset::singleton(e.path@)
    } else {
        Multiset::empty()
    }
}

/// The paths an import takes, counted with multiplicity and without order.
pub open spec fn taken_paths(entries: Seq<DirEntry>, recursive: bool) -> Multiset<Seq<char>>
    decreases entries.len(),
{
    if entries.len() == 0 {
        Multiset::empty()
    } else {
        taken_paths(entries.drop_last(), recursive).add(taken(entries.last(), recursive))
    }
}

proof fn lemma_selection_multiset(entries: Seq<DirEntry>, recursive: bool)
    ensures
        selection(entries, recursive).to_multiset() == taken_paths(entries, recursive),
    decreases entries.len(),
{
    broadcast use vstd::seq_lib::to_multiset_build, vstd::seq_lib::to_multiset_contains,
        vstd::multiset::group_multiset_axioms;

    if entries.len() == 0 {
        let e = selection(entries, recursive);
        assert forall|p: Seq<char>| e.to_multiset().count(p) == 0 by {
            assert(!e.contains(p));
        }
        assert(e.to_multiset() =~= Multiset::empty());
    } else {
        lemma_selection_multiset(entries.drop_last(), recursive);
        let rest = selection(entries.drop_last(), recursive);
        if is_selected(entries.last(), recursive) {
            assert(rest.push(entries.last().path@).to_multiset() =~= rest.to_multiset().insert(
                entries.last().path@,
            ));
        }
        assert(selection(entries, recursive).to_multiset() =~= taken_paths(entries, recursive));
    }
}

proof fn lemma_taken_paths_remove(entries: Seq<DirEntry>, recursive: bool, k: int)
    requires
        0 <= k < entries.len(),
    ensures
        taken_paths(entries, recursive) == taken_paths(entries.remove(k), recursive).add(
            taken(entries[k], recursive),
        ),
    decreases entries.len(),
{
    broadcast use vstd::multiset::group_multiset_axioms;

    let n = entries.len();
    if k == n - 1 {
        assert(entries.remove(k) =~= entries.drop_last());
    } else {
        let rest = entries.drop_last();
        lemma_taken_paths_remove(rest, recursive, k);
        let r = entries.remove(k);
        assert(r.drop_last() =~= rest.remove(k));
        assert(r.last() == entries.last());
        assert(rest[k] == entries[k]);
        assert(taken_paths(entries, recursive) =~= taken_paths(r, recursive).add(taken(entries[k], recursive)));
    }
}

/// The paths an import takes do not depend on the order in which the
/// directory is walked: two walks that meet the same entries, in any order,
/// take the same paths, as often each.
pub proof fn lemma_selection_order_free(a: Seq<DirEntry>, b: Seq<DirEntry>, recursive: bool)
    requires
        a.to_multiset() == b.to_multiset(),
    ensures
        selection(a, recursive).to_multiset() == selection(b, recursive).to_multiset(),
    decreases a.len(),
{
    lemma_selection_multiset(a, recursive);
    lemma_selection_multiset(b, recursive);
    lemma_taken_order_free(a, b, recursive);
}

proof fn lemma_taken_order_free(a: Seq<DirEntry>, b: Seq<DirEntry>, recursive: bool)
    requires
        a.to_multiset() == b.to_multiset(),
    ensures
        taken_paths(a, recursive) == taken_paths(b, recursive),
    decreases a.len(),
{
    broadcast use vstd::seq_lib::to_multiset_build, vstd::seq_lib::to_multiset_remove,
        vstd::seq_lib::to_multiset_len, vstd::seq_lib::to_multiset_contains,
        vstd::multiset::group_multiset_axioms;

    if a.len() == 0 {
        assert(b.to_multiset().len() == 0);
        assert(b.len() == 0);
    } else {
        let x = a.last();
        let a0 = a.drop_last();
        assert(a0.push(x) =~= a);
        assert(a.to_multiset() == a0.to_multiset().insert(x));
        assert(b.to_multiset().count(x) > 0);
        assert(b.contains(x));
        let k = choose|k: int| 0 <= k < b.len() && b[k] == x;
        let b0 = b.remove(k);
        assert(b0.to_multiset() == b.to_multiset().remove(x));
        assert(a0.to_multiset() =~= a.to_multiset().remove(x));
        lemma_taken_order_free(a0, b0, recursive);
        lemma_taken_paths_remove(b, recursive, k);
    }
}

/// The items of a batch hold the texts `contents`, in order, without context.
pub open spec fn items_hold(items: Seq<MemoryItem>, contents: Seq<String>) -> bool {
    &&& items.len() == contents.len()
    &&& forall|i: int|
        0 <= i < contents.len() ==> #[trigger] items[i].content@ == contents[i]@ && items[i].context is None
}

/// The batch of an import: one item per file text, grouped under the first
/// file's name without extension, or under a generated id when that name is
/// not available.
pub fn files_batch(agent_id: String, contents: Vec<String>, first_stem: Option<String>) -> (r:
    BatchMemoryRequest)
    ensures
        r.agent_id@ == agent_id@,
        items_hold(r.items@, contents@),
        r.document_id is Some,
        match first_stem {
            Some(stem) => r.document_id->0@ == stem@,
            None => exists|t: LocalStamp| t.wf() && r.document_id->0@ == doc_id_text(t),
        },
{
    let mut items: Vec<MemoryItem> = Vec::new();
    let mut i: usize = 0;
    while i < contents.len()
        invariant
            i <= contents@.len(),
            items_hold(items@, contents@.subrange(0, i as int)),
        decreases contents@.len() - i,
    {
        let ghost prev = items@;
        let c = contents[i].clone();
        items.push(MemoryItem { content: c, context: None });
        proof {
            let sub = contents@.subrange(0, i + 1);
            assert forall|j: int| 0 <= j < sub.len() implies #[trigger] items@[j].content@ == sub[j]@
                && items@[j].context is None by {
                if j < i {
                    assert(items@[j] == prev[j]);
                    assert(sub[j] == contents@.subrange(0, i as int)[j]);
                }
            }
        }
        i = i + 1;
    }
    proof {
        assert(contents@.subrange(0, contents@.len() as int) =~= contents@);
    }
    let document_id = match first_stem {
        Some(stem) => stem,
        None => generate_doc_id(),
    };
    BatchMemoryRequest { agent_id, items, document_id: Some(document_id) }
}

/// The batch of a single memory, grouped under `document_id`, or under a
/// generated id when none is given.
pub fn single_memory_batch(
    agent_id: String,
    content: String,
    context: Option<String>,
    document_id: Option<String>,
) -> (r: BatchMemoryRequest)
    ensures
        r.agent_id@ == agent_id@,
        r.items@.len() == 1,
        r.items@[0].content@ == content@,
        r.items@[0].context == context,
        r.document_id is Some,
        match document_id {
            Some(d) => r.document_id->0@ == d@,
            None => exists|t: LocalStamp| t.wf() && r.document_id->0@ == doc_id_text(t),
        },
{
    let doc = match document_id {
        Some(d) => d,
        None => generate_doc_id(),
    };
    let mut items: Vec<MemoryItem> = Vec::new();
    items.push(MemoryItem { content, context });
    BatchMemoryRequest { agent_id, items, document_id: Some(doc) }
}

} // verus!
