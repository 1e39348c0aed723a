//! Retrieval settings, the chunking of a tokenised document, and the template
//! that wraps retrieved context around a query.

use vstd::prelude::*;

verus! {

/// The settings of a retrieval store.
#[derive(Debug)]
pub struct Rag {
    pub rag_embedding_model: String,
    pub rag_top_k: usize,
    pub rag_chunk_size: usize,
    pub rag_chunk_overlap: usize,
    pub documents: Vec<String>,
}

impl Default for Rag {
    fn default() -> (rag: Rag)
        ensures
            rag.rag_embedding_model@ == Seq::<char>::empty(),
            rag.rag_top_k == 0,
            rag.rag_chunk_size == 0,
            rag.rag_chunk_overlap == 0,
            rag.documents@ == Seq::<String>::empty(),
    {
        Rag {
            rag_embedding_model: String::new(),
            rag_top_k: 0,
            rag_chunk_size: 0,
            rag_chunk_overlap: 0,
            documents: Vec::new(),
        }
    }
}

/// The chunk that starts at token `start`: it ends after `size` tokens, or at
/// the end of the document.
pub open spec fn chunk_end(start: int, size: int, total: int) -> int {
    if start + size < total {
        start + size
    } else {
        total
    }
}

/// The token ranges of the chunks of a document of `total` tokens, from token
/// `start` on: each chunk holds up to `size` tokens, and the next one starts
/// `size - overlap` tokens after it.
pub open spec fn chunks_from(start: int, size: int, overlap: int, total: int) -> Seq<(int, int)>
    decreases
            (if start < total {
                total - start
            } else {
                0
            }),
{
    if 0 <= start < total && 0 <= overlap < size {
        let rest = chunks_from(start + (size - overlap), size, overlap, total);
        seq![(start, chunk_end(start, size, total))] + rest
    } else {
        Seq::empty()
    }
}

/// The token ranges of the chunks of a document of `total` tokens.
///
/// The overlap must be smaller than the chunk size: the chunks would not
/// advance otherwise.
pub fn chunk_ranges(total: usize, size: usize, overlap: usize) -> (ranges: Vec<(usize, usize)>)
    requires
        overlap < size,
    ensures
        ranges.len() == chunks_from(0, size as int, overlap as int, total as int).len(),
        forall|i: int|
            0 <= i < ranges.len() ==> (#[trigger] ranges[i]).0 as int == chunks_from(
                0,
                size as int,
                overlap as int,
                total as int,
            )[i].0 && ranges[i].1 as int == chunks_from(
                0,
                size as int,
                overlap as int,
                total as int,
            )[i].1,
{
    let ghost all = chunks_from(0, size as int, overlap as int, total as int);
    let mut ranges: Vec<(usize, usize)> = Vec::new();
    let mut start: usize = 0;
    let ghost mut built: Seq<(int, int)> = Seq::empty();
    assert(built + chunks_from(0, size as int, overlap as int, total as int) =~= all);
    while start < total
        invariant
            overlap < size,
            all == chunks_from(0, size as int, overlap as int, total as int),
            built + chunks_from(start as int, size as int, overlap as int, total as int) == all,
            ranges.len() == built.len(),
            forall|i: int|
                0 <= i < ranges.len() ==> (#[trigger] ranges[i]).0 as int == built[i].0
                    && ranges[i].1 as int == built[i].1,
        decreases total - start,
    {
        let end = if size < total - start {
            start + size
        } else {
            total
        };
        ranges.push((start, end));
        let ghost rest = chunks_from(
            start + (size - overlap),
            size as int,
            overlap as int,
            total as int,
        );
        proof {
            assert(built.push((start as int, end as int)) + rest =~= built + (seq![
                (start as int, end as int),
            ] + rest));
            built = built.push((start as int, end as int));
        }
        if size - overlap >= total - start {
            start = total;
            assert(rest =~= Seq::empty());
            assert(chunks_from(total as int, size as int, overlap as int, total as int)
                =~= Seq::empty());
        } else {
            start = start + (size - overlap);
        }
    }
    assert(built + Seq::<(int, int)>::empty() =~= built);
    ranges
}

} // verus!
