use vstd::prelude::*;

use crate::filetypes::{has_document_extension, should_process};

verus! {

/// The kinds of filesystem change a watcher reports, as far as ingestion cares.
#[derive(PartialEq, Eq, Structural, Clone, Copy, Debug)]
pub enum WatchEventKind {
    Create,
    Modify,
    Other,
}

/// The paths of an event that are ingested, in the order reported.
pub open spec fn paths_to_ingest_of(kind: WatchEventKind, paths: Seq<String>) -> Seq<String> {
    if kind == WatchEventKind::Other {
        seq![]
    } else {
        paths.filter(|p: String| has_document_extension(p@))
    }
}

/// The paths of a watcher event that should be ingested: those with a document
/// extension, from events that create or modify files.
pub fn paths_to_ingest(kind: WatchEventKind, paths: &Vec<String>) -> (r: Vec<String>)
    ensures
        r@ == paths_to_ingest_of(kind, paths@),
{
    let mut out: Vec<String> = Vec::new();
    if kind == WatchEventKind::Other {
        return out;
    }
    let mut i: usize = 0;
    while i < paths.len()
        invariant
            i <= paths@.len(),
            out@ == paths@.subrange(0, i as int).filter(|p: String| has_document_extension(p@)),
        decreases paths@.len() - i,
    {
        let ghost before = paths@.subrange(0, i as int);
        assert(paths@.subrange(0, i + 1).drop_last() =~= before);
        proof {
            reveal(Seq::filter);
        }
        if should_process(paths[i].as_str()) {
            out.push(paths[i].clone());
        }
        i = i + 1;
    }
    assert(paths@.subrange(0, i as int) =~= paths@);
    out
}

} // verus!
