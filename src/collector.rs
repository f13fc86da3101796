use vstd::prelude::*;

use crate::filetypes::{is_supported_file, has_document_extension};

verus! {

/// What the filesystem showed at one path while it was walked.
pub enum FsEntry {
    /// A regular file, with its full path.
    File(String),
    /// A directory that could be listed, with its entries in listing order.
    Dir(Vec<FsEntry>),
    /// A path that is missing, unreadable, or neither a file nor a directory.
    Skipped,
}

/// The supported files under one entry, depth first, in listing order.
pub open spec fn collected(e: FsEntry) -> Seq<String>
    decreases e,
{
    match e {
        FsEntry::File(p) => if has_document_extension(p@) {
            seq![p]
        } else {
            seq![]
        },
        FsEntry::Dir(children) => collected_all(children@),
        FsEntry::Skipped => seq![],
    }
}

/// The supported files under each entry in turn.
pub open spec fn collected_all(es: Seq<FsEntry>) -> Seq<String>
    decreases es,
{
    if es.len() == 0 {
        seq![]
    } else {
        collected_all(es.drop_last()) + collected(es.last())
    }
}

/// Every file under one entry, whatever its name.
pub open spec fn files_under(e: FsEntry) -> Set<String>
    decreases e,
{
    match e {
        FsEntry::File(p) => set![p],
        FsEntry::Dir(children) => files_under_all(children@),
        FsEntry::Skipped => Set::empty(),
    }
}

/// Every file under any of the entries.
pub open spec fn files_under_all(es: Seq<FsEntry>) -> Set<String>
    decreases es,
{
    if es.len() == 0 {
        Set::empty()
    } else {
        files_under_all(es.drop_last()).union(files_under(es.last()))
    }
}

/// A collection holds exactly the files reachable under the roots whose
/// extension is supported: none is left out and no other is taken.
pub proof fn lemma_collect_exact(roots: Seq<FsEntry>)
    ensures
        collected_all(roots).to_set() == files_under_all(roots).filter(
            |p: String| has_document_extension(p@),
        ),
    decreases roots,
{
    if roots.len() > 0 {
        lemma_collect_exact(roots.drop_last());
        lemma_collect_entry_exact(roots.last());
        lemma_concat_to_set(
            collected_all(roots.drop_last()),
            collected(roots.last()),
        );
        assert(collected_all(roots).to_set() =~= files_under_all(roots).filter(
            |p: String| has_document_extension(p@),
        ));
    } else {
        assert(collected_all(roots).to_set() =~= files_under_all(roots).filter(
            |p: String| has_document_extension(p@),
        ));
    }
}

proof fn lemma_concat_to_set(a: Seq<String>, b: Seq<String>)
    ensures
        (a + b).to_set() == a.to_set().union(b.to_set()),
{
    assert forall|x: String| (a + b).to_set().contains(x) implies a.to_set().union(
        b.to_set(),
    ).contains(x) by {
        let i = choose|i: int| 0 <= i < (a + b).len() && (a + b)[i] == x;
        if i < a.len() {
            assert(a[i] == x);
        } else {
            assert(b[i - a.len()] == x);
        }
    }
    assert forall|x: String| a.to_set().union(b.to_set()).contains(x) implies (a
        + b).to_set().contains(x) by {
        if a.contains(x) {
            let i = choose|i: int| 0 <= i < a.len() && a[i] == x;
            assert((a + b)[i] == x);
        } else {
            let i = choose|i: int| 0 <= i < b.len() && b[i] == x;
            assert((a + b)[i + a.len()] == x);
        }
    }
    assert((a + b).to_set() =~= a.to_set().union(b.to_set()));
}

/// The one-entry form of `lemma_collect_exact`.
pub proof fn lemma_collect_entry_exact(e: FsEntry)
    ensures
        collected(e).to_set() == files_under(e).filter(|p: String| has_document_extension(p@)),
    decreases e,
{
    match e {
        FsEntry::File(p) => {
            if has_document_extension(p@) {
                let one = seq![p];
                assert(one[0] == p);
                assert forall|x: String| one.to_set().contains(x) implies x == p by {
                    let i = choose|i: int| 0 <= i < one.len() && one[i] == x;
                }
                assert(one.to_set() =~= set![p]);
            }
            assert(collected(e).to_set() =~= files_under(e).filter(
                |p: String| has_document_extension(p@),
            ));
        },
        FsEntry::Dir(children) => {
            lemma_collect_exact(children@);
        },
        FsEntry::Skipped => {
            assert(collected(e).to_set() =~= files_under(e).filter(
                |p: String| has_document_extension(p@),
            ));
        },
    }
}

fn collect_into(e: &FsEntry, out: &mut Vec<String>)
    ensures
        final(out)@ == old(out)@ + collected(*e),
    decreases e,
{
    match e {
        FsEntry::File(p) => {
            if is_supported_file(p.as_str()) {
                out.push(p.clone());
            } else {
                assert(old(out)@ + collected(*e) =~= old(out)@);
            }
        },
        FsEntry::Dir(children) => {
            collect_all_into(children, out);
        },
        FsEntry::Skipped => {
            assert(old(out)@ + collected(*e) =~= old(out)@);
        },
    }
}

fn collect_all_into(es: &Vec<FsEntry>, out: &mut Vec<String>)
    ensures
        final(out)@ == old(out)@ + collected_all(es@),
    decreases es,
{
    let mut i: usize = 0;
    assert(es@.subrange(0, 0) =~= Seq::<FsEntry>::empty());
    assert(out@ =~= old(out)@ + collected_all(es@.subrange(0, 0)));
    while i < es.len()
        invariant
            i <= es@.len(),
            out@ == old(out)@ + collected_all(es@.subrange(0, i as int)),
        decreases es@.len() - i,
    {
        assert(decreases_to!(es => es@[i as int]));
        collect_into(&es[i], out);
        assert(es@.subrange(0, i + 1).drop_last() =~= es@.subrange(0, i as int));
        assert(out@ =~= old(out)@ + collected_all(es@.subrange(0, i + 1)));
        i = i + 1;
    }
    assert(es@.subrange(0, i as int) =~= es@);
}

/// The supported files under one root, depth first, in listing order. A root
/// that is itself a file is taken when its extension is supported.
pub fn collect_files(root: &FsEntry) -> (r: Vec<String>)
    ensures
        r@ == collected(*root),
{
    let mut out: Vec<String> = Vec::new();
    collect_into(root, &mut out);
    assert(out@ =~= collected(*root));
    out
}

/// The supported files under each root in turn; a root that could not be read
/// adds nothing and the others are still collected.
pub fn collect_roots(roots: &Vec<FsEntry>) -> (r: Vec<String>)
    ensures
        r@ == collected_all(roots@),
{
    let mut out: Vec<String> = Vec::new();
    collect_all_into(roots, &mut out);
    assert(out@ =~= collected_all(roots@));
    out
}

} // verus!
