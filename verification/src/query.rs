//! The query pipeline's logic: questions against an empty or absent
//! knowledge base are answered with an explicit message, search results
//! decide whether generation runs, the retrieval context is assembled in
//! store-ranked order, and source labels are listed once each, in order.

use vstd::prelude::*;
use crate::qdrant::ChunkData;
use crate::qdrant::DocumentChunk;

verus! {

/// The context block for one retrieved chunk: its source label, then its
/// content.
pub open spec fn spec_chunk_block(c: ChunkData) -> Seq<char> {
    "[Source: "@ + c.source + "]\n"@ + c.content
}

/// The whole retrieval context: each chunk's block, in the
/// relevance-ranked order the store returned (no re-ranking), blocks
/// separated by an explicit delimiter.
pub open spec fn spec_context(chunks: Seq<ChunkData>) -> Seq<char>
    decreases chunks.len(),
{
    if chunks.len() == 0 {
        Seq::empty()
    } else if chunks.len() == 1 {
        spec_chunk_block(chunks[0])
    } else {
        spec_context(chunks.drop_last()) + "\n---\n"@ + spec_chunk_block(chunks.last())
    }
}

/// Assemble the context string handed to generation.
pub fn assemble_context(chunks: &Vec<DocumentChunk>) -> (r: String)
    ensures
        r@ == spec_context(chunks@.map_values(|c: DocumentChunk| c@)),
{
    let ghost views = chunks@.map_values(|c: DocumentChunk| c@);
    let mut out = String::new();
    let n = chunks.len();
    proof {
        assert(views.subrange(0, 0) =~= Seq::<ChunkData>::empty());
    }
    for i in 0..n
        invariant
            n == chunks@.len(),
            views == chunks@.map_values(|c: DocumentChunk| c@),
            out@ == spec_context(views.subrange(0, i as int)),
    {
        if i > 0 {
            out.append("\n---\n");
        }
        out.append("[Source: ");
        out.append(chunks[i].source.as_str());
        out.append("]\n");
        out.append(chunks[i].content.as_str());
        proof {
            assert(views.subrange(0, i + 1).drop_last() =~= views.subrange(0, i as int));
            assert(views.subrange(0, i + 1).last() == views[i as int]);
            assert(views[i as int] == chunks@[i as int]@);
            if i == 0 {
                assert(views.subrange(0, 1)[0] == views[0]);
            }
        }
    }
    proof {
        assert(views.subrange(0, n as int) =~= views);
    }
    out
}

/// The distinct source labels among retrieved chunks, each kept at its
/// first appearance, in order.
pub open spec fn spec_distinct_sources(chunks: Seq<ChunkData>) -> Seq<Seq<char>>
    decreases chunks.len(),
{
    if chunks.len() == 0 {
        Seq::empty()
    } else {
        let rest = spec_distinct_sources(chunks.drop_last());
        if rest.contains(chunks.last().source) {
            rest
        } else {
            rest.push(chunks.last().source)
        }
    }
}

/// What de-duplication guarantees: no label appears twice, every
/// retrieved chunk's source is listed, and nothing but retrieved chunks'
/// sources is listed — the list reflects only the current query's
/// retrieval.
pub proof fn lemma_distinct_sources(chunks: Seq<ChunkData>)
    ensures
        forall|i: int, j: int|
            0 <= i < j < spec_distinct_sources(chunks).len() ==> spec_distinct_sources(chunks)[i]
                != spec_distinct_sources(chunks)[j],
        forall|i: int|
            0 <= i < chunks.len() ==> spec_distinct_sources(chunks).contains(
                (#[trigger] chunks[i]).source,
            ),
        forall|j: int|
            0 <= j < spec_distinct_sources(chunks).len() ==> exists|i: int|
                0 <= i < chunks.len() && (#[trigger] spec_distinct_sources(chunks)[j])
                    == chunks[i].source,
    decreases chunks.len(),
{
    if chunks.len() > 0 {
        lemma_distinct_sources(chunks.drop_last());
        let rest = spec_distinct_sources(chunks.drop_last());
        let cur = spec_distinct_sources(chunks);
        assert forall|i: int|
            0 <= i < chunks.len() implies cur.contains((#[trigger] chunks[i]).source) by {
            if i < chunks.len() - 1 {
                assert(chunks.drop_last()[i] == chunks[i]);
                assert(rest.contains(chunks[i].source));
                let l = choose|l: int| 0 <= l < rest.len() && rest[l] == chunks[i].source;
                assert(cur[l] == rest[l]);
            } else {
                if rest.contains(chunks.last().source) {
                    let l = choose|l: int|
                        0 <= l < rest.len() && rest[l] == chunks.last().source;
                    assert(cur[l] == rest[l]);
                } else {
                    assert(cur[cur.len() - 1] == chunks.last().source);
                }
            }
        }
        assert forall|j: int|
            0 <= j < cur.len() implies exists|i: int|
            0 <= i < chunks.len() && (#[trigger] cur[j]) == chunks[i].source by {
            if j < rest.len() {
                assert(cur[j] == rest[j]);
                let i = choose|i: int|
                    0 <= i < chunks.drop_last().len() && rest[j] == chunks.drop_last()[i].source;
                assert(chunks[i] == chunks.drop_last()[i]);
                assert(cur[j] == chunks[i].source);
            } else {
                assert(cur[j] == chunks.last().source);
                assert(cur[j] == chunks[chunks.len() - 1].source);
            }
        }
        assert forall|i: int, j: int| 0 <= i < j < cur.len() implies cur[i] != cur[j] by {
            if j < rest.len() {
                assert(cur[i] == rest[i]);
                assert(cur[j] == rest[j]);
            } else if j == rest.len() && cur.len() == rest.len() + 1 {
                assert(cur[i] == rest[i]);
                assert(!rest.contains(chunks.last().source));
                assert(cur[j] == chunks.last().source);
            }
        }
    }
}

fn seen_source(out: &Vec<String>, source: &String) -> (r: bool)
    ensures
        r == exists|l: int| 0 <= l < out@.len() && (#[trigger] out@[l])@ == source@,
{
    let mut j: usize = 0;
    while j < out.len()
        invariant
            0 <= j <= out@.len(),
            forall|l: int| 0 <= l < j ==> (#[trigger] out@[l])@ != source@,
        decreases out@.len() - j,
    {
        if out[j].eq(source) {
            return true;
        }
        j = j + 1;
    }
    false
}

/// List each retrieved chunk's source once, in first-appearance order.
pub fn distinct_sources(chunks: &Vec<DocumentChunk>) -> (r: Vec<String>)
    ensures
        r@.map_values(|s: String| s@) == spec_distinct_sources(
            chunks@.map_values(|c: DocumentChunk| c@),
        ),
{
    let ghost views = chunks@.map_values(|c: DocumentChunk| c@);
    let mut out: Vec<String> = Vec::new();
    let n = chunks.len();
    proof {
        assert(views.subrange(0, 0) =~= Seq::<ChunkData>::empty());
    }
    for i in 0..n
        invariant
            n == chunks@.len(),
            views == chunks@.map_values(|c: DocumentChunk| c@),
            out@.map_values(|s: String| s@) == spec_distinct_sources(views.subrange(0, i as int)),
    {
        let ghost rest = spec_distinct_sources(views.subrange(0, i as int));
        let seen = seen_source(&out, &chunks[i].source);
        proof {
            assert(views.subrange(0, i + 1).drop_last() =~= views.subrange(0, i as int));
            assert(views.subrange(0, i + 1).last() == views[i as int]);
            assert(views[i as int] == chunks@[i as int]@);
            if seen {
                let l = choose|l: int|
                    0 <= l < out@.len() && (#[trigger] out@[l])@ == chunks@[i as int].source@;
                assert(out@.map_values(|s: String| s@)[l] == out@[l]@);
                assert(rest.contains(views[i as int].source));
            } else {
                if rest.contains(views[i as int].source) {
                    let l = choose|l: int|
                        0 <= l < rest.len() && rest[l] == views[i as int].source;
                    assert(out@.map_values(|s: String| s@)[l] == out@[l]@);
                    assert(false);
                }
            }
        }
        if !seen {
            let ghost before = out@;
            out.push(chunks[i].source.clone());
            proof {
                assert(out@.map_values(|s: String| s@) =~= before.map_values(|s: String| s@).push(
                    views[i as int].source,
                ));
            }
        }
    }
    proof {
        assert(views.subrange(0, n as int) =~= views);
    }
    out
}

/// Whether a question may proceed against the collection.
pub enum QueryGate {
    /// The collection is absent or holds no points: answer with the
    /// user-facing message, never invoke embedding or generation.
    EmptyKnowledgeBase,
    /// The collection holds data: embed the question and search.
    Proceed,
}

/// Gate a question on what the store reports for the collection:
/// `points_count` is `None` when the collection does not exist. A
/// question against an empty or absent knowledge base is answered with
/// an explicit message, never passed to the generation model.
pub fn query_gate(points_count: Option<usize>) -> (r: QueryGate)
    ensures
        (r is EmptyKnowledgeBase) <==> (match points_count {
            None => true,
            Some(n) => n == 0,
        }),
{
    match points_count {
        None => QueryGate::EmptyKnowledgeBase,
        Some(n) => {
            if n == 0 {
                QueryGate::EmptyKnowledgeBase
            } else {
                QueryGate::Proceed
            }
        },
    }
}

/// The user-facing reply for a question against an empty knowledge base.
pub fn empty_kb_message() -> (r: String)
    ensures
        r@ == "Knowledge base is empty. Run 'know ingest <path>' first."@,
{
    "Knowledge base is empty. Run 'know ingest <path>' first.".to_owned()
}

/// The user-facing reply when the search returned nothing relevant.
pub fn no_results_message() -> (r: String)
    ensures
        r@ == "No relevant documents found."@,
{
    "No relevant documents found.".to_owned()
}

/// What to do with the store's ranked results.
pub enum SearchVerdict {
    /// Zero results: report so, rather than invoking generation on an
    /// empty context.
    NoRelevantDocuments,
    /// Results came back: generate over this context and attribute these
    /// sources.
    Generate { context: String, sources: Vec<String> },
}

/// Decide on the search results: empty results short-circuit; otherwise
/// the context is assembled in the store's ranking order and the source
/// list de-duplicated preserving first appearance.
pub fn after_search(results: &Vec<DocumentChunk>) -> (r: SearchVerdict)
    ensures
        results@.len() == 0 ==> r is NoRelevantDocuments,
        results@.len() > 0 ==> (r matches SearchVerdict::Generate { context, sources }
            && context@ == spec_context(results@.map_values(|c: DocumentChunk| c@))
            && sources@.map_values(|s: String| s@) == spec_distinct_sources(
            results@.map_values(|c: DocumentChunk| c@),
        )),
{
    if results.len() == 0 {
        SearchVerdict::NoRelevantDocuments
    } else {
        let context = assemble_context(results);
        let sources = distinct_sources(results);
        SearchVerdict::Generate { context, sources }
    }
}

} // verus!
