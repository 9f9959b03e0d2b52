//! The ingestion pipeline's logic: splitting extracted text into bounded
//! chunks, deriving stable chunk ids, choosing the extraction route for a
//! file, filtering discovered files by extension, pairing chunks with the
//! embeddings that succeeded, and tallying what was stored.
//!
//! Chunk ids are derived from the chunk's source path, position and
//! content, so re-ingesting identical content writes the same ids and the
//! store overwrites instead of duplicating (see
//! `lemma_reingestion_idempotent`).

use vstd::prelude::*;
use crate::error::KnowError;
use crate::qdrant::ChunkData;
use crate::qdrant::DocumentChunk;
use crate::qdrant::PointData;
use crate::qdrant::apply_upsert;
use crate::qdrant::lemma_upsert_idempotent;
use crate::qdrant::to_points;
use crate::text::is_blank;
use crate::text::is_blank_str;
use crate::text::spec_digits;
use crate::text::spec_split;
use crate::text::spec_trim;
use crate::text::split_on;
use crate::text::str_eq;
use crate::text::trim_str;
use crate::text::u64_to_string;

verus! {

/// The character budget of one chunk.
pub const CHUNK_SIZE: usize = 512;

/// The chunk sequence that the text splitter produces for a text, before
/// blank chunks are discarded. A function of the text alone.
pub uninterp spec fn split_of(text: Seq<char>) -> Seq<Seq<char>>;

/// Relies on text_splitter's `TextSplitter::chunks` with a character
/// budget of `CHUNK_SIZE`: it splits a text into an ordered sequence of
/// chunks, each at most `CHUNK_SIZE` characters, preferring natural text
/// boundaries, and depends on the text alone.
#[verifier::external_body]
fn split_text(text: &str) -> (r: Vec<String>)
    ensures
        r@.map_values(|s: String| s@) == split_of(text@),
        forall|i: int| 0 <= i < r@.len() ==> (#[trigger] r@[i])@.len() <= CHUNK_SIZE,
{
    let splitter = text_splitter::TextSplitter::new(CHUNK_SIZE);
    splitter.chunks(text).map(|piece| piece.to_string()).collect()
}

/// The hyphenated rendering of the name-based UUID of a name. A function
/// of the name alone.
pub uninterp spec fn uuid5_of(name: Seq<char>) -> Seq<char>;

/// Relies on uuid's `Uuid::new_v5` over the OID namespace: a name-based
/// (SHA-1) UUID, a function of the name bytes alone, rendered by
/// `Uuid::to_string` in the 36-character hyphenated form.
#[verifier::external_body]
fn uuid_v5_string(name: &str) -> (r: String)
    ensures
        r@ == uuid5_of(name@),
        r@.len() == 36,
{
    uuid::Uuid::new_v5(&uuid::Uuid::NAMESPACE_OID, name.as_bytes()).to_string()
}

/// The pieces that remain after blank pieces are discarded, in order.
pub open spec fn spec_keep_nonblank(pieces: Seq<Seq<char>>) -> Seq<Seq<char>>
    decreases pieces.len(),
{
    if pieces.len() == 0 {
        Seq::empty()
    } else {
        let rest = spec_keep_nonblank(pieces.drop_last());
        if is_blank(pieces.last()) {
            rest
        } else {
            rest.push(pieces.last())
        }
    }
}

/// The chunk sequence for a text: what the splitter produces, with empty
/// and whitespace-only chunks discarded.
pub open spec fn spec_chunks(text: Seq<char>) -> Seq<Seq<char>> {
    spec_keep_nonblank(split_of(text))
}

proof fn lemma_keep_nonblank(pieces: Seq<Seq<char>>)
    ensures
        forall|i: int|
            0 <= i < spec_keep_nonblank(pieces).len() ==> !is_blank(
                #[trigger] spec_keep_nonblank(pieces)[i],
            ),
    decreases pieces.len(),
{
    if pieces.len() > 0 {
        lemma_keep_nonblank(pieces.drop_last());
        let rest = spec_keep_nonblank(pieces.drop_last());
        let cur = spec_keep_nonblank(pieces);
        assert forall|i: int| 0 <= i < cur.len() implies !is_blank(#[trigger] cur[i]) by {
            if is_blank(pieces.last()) {
                assert(cur[i] == rest[i]);
            } else {
                if i < rest.len() {
                    assert(cur[i] == rest[i]);
                } else {
                    assert(cur[i] == pieces.last());
                }
            }
        }
    }
}

/// Chunking is deterministic: identical input text yields the identical
/// ordered chunk sequence, and no chunk is empty or whitespace-only.
pub proof fn lemma_chunking_deterministic(a: Seq<char>, b: Seq<char>)
    requires
        a == b,
    ensures
        spec_chunks(a) == spec_chunks(b),
        forall|i: int|
            0 <= i < spec_chunks(a).len() ==> !is_blank(#[trigger] spec_chunks(a)[i])
                && spec_chunks(a)[i].len() > 0,
{
    lemma_keep_nonblank(split_of(a));
}

/// Split a text into its chunks: each at most `CHUNK_SIZE` characters and
/// none empty or whitespace-only.
pub fn chunk_text(text: &str) -> (r: Vec<String>)
    ensures
        r@.map_values(|s: String| s@) == spec_chunks(text@),
        forall|i: int|
            0 <= i < r@.len() ==> !is_blank((#[trigger] r@[i])@) && r@[i]@.len() > 0 && r@[i]@.len()
                <= CHUNK_SIZE,
{
    let pieces = split_text(text);
    let ghost all = split_of(text@);
    let mut out: Vec<String> = Vec::new();
    proof {
        assert(all.subrange(0, 0) =~= Seq::<Seq<char>>::empty());
    }
    let n = pieces.len();
    for i in 0..n
        invariant
            n == pieces@.len(),
            pieces@.map_values(|s: String| s@) == all,
            all == split_of(text@),
            forall|l: int| 0 <= l < pieces@.len() ==> (#[trigger] pieces@[l])@.len() <= CHUNK_SIZE,
            out@.map_values(|s: String| s@) == spec_keep_nonblank(all.subrange(0, i as int)),
            forall|l: int|
                0 <= l < out@.len() ==> !is_blank((#[trigger] out@[l])@) && out@[l]@.len() > 0
                    && out@[l]@.len() <= CHUNK_SIZE,
    {
        proof {
            assert(all.subrange(0, i + 1).drop_last() =~= all.subrange(0, i as int));
            assert(all.subrange(0, i + 1).last() == all[i as int]);
            assert(pieces@.map_values(|s: String| s@)[i as int] == all[i as int]);
        }
        if !is_blank_str(pieces[i].as_str()) {
            out.push(pieces[i].clone());
        }
    }
    proof {
        assert(all.subrange(0, n as int) =~= all);
    }
    out
}

/// The name a chunk's id is derived from: the source path, the chunk's
/// position, and the chunk's content.
pub open spec fn spec_id_material(source: Seq<char>, index: nat, piece: Seq<char>) -> Seq<char> {
    source + "#"@ + spec_digits(index) + "#"@ + piece
}

/// The chunk record at one position of a plan.
pub open spec fn spec_chunk_at(source: Seq<char>, index: nat, piece: Seq<char>) -> ChunkData {
    ChunkData {
        id: uuid5_of(spec_id_material(source, index, piece)),
        content: piece,
        source: source,
    }
}

/// The chunks that ingesting a file writes: one record per non-blank
/// chunk of its content, each with a content-derived id. A file with
/// empty content contributes nothing.
pub open spec fn spec_plan(source: Seq<char>, content: Seq<char>) -> Seq<ChunkData> {
    if content.len() == 0 {
        Seq::empty()
    } else {
        spec_chunks(content).map(
            |i: int, piece: Seq<char>| spec_chunk_at(source, i as nat, piece),
        )
    }
}

/// The id of the chunk at `index` of a source's chunk sequence.
fn chunk_id(source: &String, index: u64, piece: &String) -> (r: String)
    ensures
        r@ == uuid5_of(spec_id_material(source@, index as nat, piece@)),
        r@.len() == 36,
{
    let mut material = String::new();
    material.append(source.as_str());
    material.append("#");
    let digits = u64_to_string(index);
    material.append(digits.as_str());
    material.append("#");
    material.append(piece.as_str());
    uuid_v5_string(material.as_str())
}

/// Chunk a file's content and attach the source path and the derived id
/// to each chunk.
pub fn make_chunks(source: &String, content: &String) -> (r: Vec<DocumentChunk>)
    ensures
        r@.map_values(|c: DocumentChunk| c@) == spec_plan(source@, content@),
        content@.len() == 0 ==> r@.len() == 0,
{
    if content.as_str().unicode_len() == 0 {
        let empty: Vec<DocumentChunk> = Vec::new();
        proof {
            assert(empty@.map_values(|c: DocumentChunk| c@) =~= spec_plan(source@, content@));
        }
        return empty;
    }
    let pieces = chunk_text(content.as_str());
    let ghost planned = spec_plan(source@, content@);
    let mut out: Vec<DocumentChunk> = Vec::new();
    let n = pieces.len();
    proof {
        assert(planned.len() == pieces@.len());
    }
    for i in 0..n
        invariant
            n == pieces@.len(),
            pieces@.map_values(|s: String| s@) == spec_chunks(content@),
            content@.len() > 0,
            planned == spec_plan(source@, content@),
            planned.len() == n,
            out@.map_values(|c: DocumentChunk| c@) == planned.subrange(0, i as int),
            i <= u64::MAX,
    {
        let id = chunk_id(source, i as u64, &pieces[i]);
        let record = DocumentChunk { id, content: pieces[i].clone(), source: source.clone() };
        let ghost before = out@;
        out.push(record);
        proof {
            assert(pieces@.map_values(|s: String| s@)[i as int] == spec_chunks(content@)[i as int]);
            assert(record@ == planned[i as int]);
            assert(out@.map_values(|c: DocumentChunk| c@) =~= before.map_values(
                |c: DocumentChunk| c@,
            ).push(record@));
            assert(planned.subrange(0, i as int).push(planned[i as int]) =~= planned.subrange(
                0,
                i + 1,
            ));
        }
    }
    proof {
        assert(planned.subrange(0, n as int) =~= planned);
    }
    out
}

/// Re-ingesting a file with identical content is idempotent at the store
/// level: chunk ids are content-derived, so writing the planned chunks a
/// second time leaves the collection's contents exactly as the first
/// write did.
pub proof fn lemma_reingestion_idempotent(
    m: Map<Seq<char>, PointData>,
    source: Seq<char>,
    content: Seq<char>,
    dim: nat,
)
    ensures
        apply_upsert(
            apply_upsert(m, to_points(spec_plan(source, content), dim)),
            to_points(spec_plan(source, content), dim),
        ) == apply_upsert(m, to_points(spec_plan(source, content), dim)),
{
    lemma_upsert_idempotent(m, to_points(spec_plan(source, content), dim));
}

/// The file extension this library reads from a path: the characters
/// after the last `.` of the final path component, empty when that
/// component has no `.`.
pub open spec fn ext_scan(s: Seq<char>, acc: Seq<char>) -> Seq<char>
    decreases s.len(),
{
    if s.len() == 0 {
        Seq::empty()
    } else if s.last() == '.' {
        acc
    } else if s.last() == '/' {
        Seq::empty()
    } else {
        ext_scan(s.drop_last(), seq![s.last()] + acc)
    }
}

pub open spec fn spec_extension(path: Seq<char>) -> Seq<char> {
    ext_scan(path, Seq::empty())
}

/// The extension of a file path.
pub fn extension_of(path: &str) -> (r: String)
    ensures
        r@ == spec_extension(path@),
{
    let n = path.unicode_len();
    let mut i: usize = n;
    proof {
        assert(path@.subrange(0, n as int) =~= path@);
        assert(path@.subrange(n as int, n as int) =~= Seq::<char>::empty());
    }
    while i > 0
        invariant
            n == path@.len(),
            0 <= i <= n,
            spec_extension(path@) == ext_scan(
                path@.subrange(0, i as int),
                path@.subrange(i as int, n as int),
            ),
        decreases i,
    {
        let c = path.get_char(i - 1);
        proof {
            assert(path@.subrange(0, i as int).last() == path@[i - 1]);
            assert(path@.subrange(0, i as int).drop_last() =~= path@.subrange(0, i - 1));
            assert(seq![path@[i - 1]] + path@.subrange(i as int, n as int) =~= path@.subrange(
                i - 1,
                n as int,
            ));
        }
        if c == '.' {
            let piece = path.substring_char(i, n);
            return piece.to_owned();
        }
        if c == '/' {
            return String::new();
        }
        i = i - 1;
    }
    proof {
        assert(path@.subrange(0, 0) =~= Seq::<char>::empty());
    }
    String::new()
}

/// The formats that need layout-aware parsing by the external conversion
/// service; every other format is read directly.
pub open spec fn spec_layout_ext(e: Seq<char>) -> bool {
    e == "pdf"@ || e == "docx"@ || e == "pptx"@ || e == "xlsx"@ || e == "html"@
}

pub fn needs_layout_parse(ext: &str) -> (r: bool)
    ensures
        r == spec_layout_ext(ext@),
{
    str_eq(ext, "pdf") || str_eq(ext, "docx") || str_eq(ext, "pptx") || str_eq(ext, "xlsx")
        || str_eq(ext, "html")
}

/// How a file's text is extracted.
pub enum ExtractionRoute {
    /// Upload to the external conversion service.
    LayoutService,
    /// Read the bytes directly.
    DirectRead,
}

/// Route a file: the conversion service is used exactly for the
/// layout-heavy formats, and only while the service answers its health
/// probe; plain-text formats never go to the service.
pub fn route_extraction(ext: &str, converter_available: bool) -> (r: ExtractionRoute)
    ensures
        (r is LayoutService) <==> (converter_available && spec_layout_ext(ext@)),
{
    if converter_available && needs_layout_parse(ext) {
        ExtractionRoute::LayoutService
    } else {
        ExtractionRoute::DirectRead
    }
}

/// Interpret the conversion service's reply: a success status with a
/// document body yields the extracted text; an error status yields the
/// service's error with its body; a success status without the promised
/// document shape is a malformed reply.
pub fn docling_reply(status: u16, md_content: Option<String>, error_body: String) -> (r: Result<
    String,
    KnowError,
>)
    ensures
        match r {
            Ok(text) => 200 <= status < 300 && (md_content matches Some(m) && text@ == m@),
            Err(e) => match e {
                KnowError::ServiceHttp { service, status: st, body } => !(200 <= status < 300)
                    && service@ == "Docling"@ && st == status && body@ == error_body@,
                KnowError::MalformedReply { operation, service } => 200 <= status < 300
                    && md_content is None && operation@ == "conversion"@ && service@
                    == "Docling"@,
                _ => false,
            },
        },
        (r is Ok) <==> (200 <= status < 300 && md_content is Some),
{
    if !(200 <= status && status < 300) {
        let mut service = String::new();
        service.append("Docling");
        return Err(KnowError::ServiceHttp { service, status, body: error_body });
    }
    match md_content {
        Some(m) => Ok(m),
        None => {
            let mut operation = String::new();
            operation.append("conversion");
            let mut service = String::new();
            service.append("Docling");
            Err(KnowError::MalformedReply { operation, service })
        },
    }
}

/// The text the pipeline proceeds with when a read may have failed:
/// extraction failures degrade to empty content, so one unreadable file
/// never aborts the run.
pub fn content_or_empty(read: Option<String>) -> (r: String)
    ensures
        match read {
            Some(text) => r@ == text@,
            None => r@ == Seq::<char>::empty(),
        },
{
    match read {
        Some(text) => text,
        None => String::new(),
    }
}

/// Parse a comma-separated extension allow-list, trimming whitespace
/// around each entry.
pub fn parse_extensions(extensions: &str) -> (r: Vec<String>)
    ensures
        r@.map_values(|t: String| t@) == spec_split(extensions@, ',').map_values(
            |t: Seq<char>| spec_trim(t),
        ),
{
    let raw = split_on(extensions, ',');
    let ghost segments = spec_split(extensions@, ',');
    let mut out: Vec<String> = Vec::new();
    let n = raw.len();
    for i in 0..n
        invariant
            n == raw@.len(),
            raw@.map_values(|t: String| t@) == segments,
            out@.map_values(|t: String| t@) =~= segments.map_values(
                |t: Seq<char>| spec_trim(t),
            ).subrange(0, i as int),
    {
        let ghost before = out@;
        out.push(trim_str(raw[i].as_str()));
        proof {
            assert(raw@.map_values(|t: String| t@)[i as int] == segments[i as int]);
            assert(out@.map_values(|t: String| t@) =~= before.map_values(|t: String| t@).push(
                spec_trim(segments[i as int]),
            ));
            assert(segments.map_values(|t: Seq<char>| spec_trim(t)).subrange(0, i as int).push(
                spec_trim(segments[i as int]),
            ) =~= segments.map_values(|t: Seq<char>| spec_trim(t)).subrange(0, i + 1));
        }
    }
    proof {
        let mapped = segments.map_values(|t: Seq<char>| spec_trim(t));
        assert(mapped.subrange(0, mapped.len() as int) =~= mapped);
    }
    out
}

/// Whether a file's extension is in the allow-list.
pub fn file_matches(ext: &String, allow: &Vec<String>) -> (r: bool)
    ensures
        r == exists|i: int| 0 <= i < allow@.len() && (#[trigger] allow@[i])@ == ext@,
{
    let mut i: usize = 0;
    while i < allow.len()
        invariant
            0 <= i <= allow@.len(),
            forall|l: int| 0 <= l < i ==> (#[trigger] allow@[l])@ != ext@,
        decreases allow@.len() - i,
    {
        if allow[i].eq(ext) {
            return true;
        }
        i = i + 1;
    }
    false
}

/// The chunks whose embedding succeeded, in order; a chunk whose
/// embedding failed is skipped and never reaches the store.
pub open spec fn spec_kept_flags(chunks: Seq<ChunkData>, flags: Seq<bool>) -> Seq<ChunkData>
    decreases chunks.len(),
{
    if chunks.len() == 0 {
        Seq::empty()
    } else {
        let rest = spec_kept_flags(chunks.drop_last(), flags.drop_last());
        if flags[chunks.len() - 1] {
            rest.push(chunks.last())
        } else {
            rest
        }
    }
}

/// Keep the chunks whose positionally paired embedding succeeded.
pub fn keep_embedded(chunks: &Vec<DocumentChunk>, embedded: &Vec<bool>) -> (r: Vec<DocumentChunk>)
    requires
        chunks@.len() == embedded@.len(),
    ensures
        r@.map_values(|c: DocumentChunk| c@) == spec_kept_flags(
            chunks@.map_values(|c: DocumentChunk| c@),
            embedded@,
        ),
{
    let ghost all = chunks@.map_values(|c: DocumentChunk| c@);
    let mut out: Vec<DocumentChunk> = Vec::new();
    let n = chunks.len();
    proof {
        assert(all.subrange(0, 0) =~= Seq::<ChunkData>::empty());
        assert(spec_kept_flags(all.subrange(0, 0), embedded@.subrange(0, 0)) =~= Seq::<
            ChunkData,
        >::empty());
    }
    for i in 0..n
        invariant
            n == chunks@.len(),
            chunks@.len() == embedded@.len(),
            all == chunks@.map_values(|c: DocumentChunk| c@),
            out@.map_values(|c: DocumentChunk| c@) == spec_kept_flags(
                all.subrange(0, i as int),
                embedded@.subrange(0, i as int),
            ),
    {
        let ghost before = out@;
        proof {
            assert(all.subrange(0, i + 1).drop_last() =~= all.subrange(0, i as int));
            assert(embedded@.subrange(0, i + 1).drop_last() =~= embedded@.subrange(0, i as int));
            assert(all.subrange(0, i + 1).last() == all[i as int]);
            assert(all[i as int] == chunks@[i as int]@);
        }
        if embedded[i] {
            out.push(chunks[i].duplicate());
            proof {
                assert(out@.map_values(|c: DocumentChunk| c@) =~= before.map_values(
                    |c: DocumentChunk| c@,
                ).push(chunks@[i as int]@));
            }
        }
    }
    proof {
        assert(all.subrange(0, n as int) =~= all);
        assert(embedded@.subrange(0, n as int) =~= embedded@);
    }
    out
}

/// The running tally of one ingestion: how many files were looked at and
/// how many chunks were actually stored. The final report depends only on
/// the chunk total, not on how many files were scanned or skipped.
pub struct IngestRun {
    pub files_seen: usize,
    pub chunks_stored: usize,
}

impl IngestRun {
    /// A fresh tally.
    pub fn new() -> (r: IngestRun)
        ensures
            r.files_seen == 0,
            r.chunks_stored == 0,
    {
        IngestRun { files_seen: 0, chunks_stored: 0 }
    }

    /// Count one processed file and the chunks stored for it; a skipped
    /// or empty file is counted with zero chunks.
    pub fn record_file(&mut self, stored: usize)
        requires
            old(self).files_seen < usize::MAX,
            old(self).chunks_stored + stored <= usize::MAX,
        ensures
            final(self).files_seen == old(self).files_seen + 1,
            final(self).chunks_stored == old(self).chunks_stored + stored,
    {
        self.files_seen = self.files_seen + 1;
        self.chunks_stored = self.chunks_stored + stored;
    }

    /// The closing report of an ingestion run.
    pub fn report(&self, collection: &String) -> (r: String)
        ensures
            r@ == "Ingested "@ + spec_digits(self.chunks_stored as nat)
                + " chunks into collection '"@ + collection@ + "'"@,
    {
        let mut s = String::new();
        s.append("Ingested ");
        let digits = u64_to_string(self.chunks_stored as u64);
        s.append(digits.as_str());
        s.append(" chunks into collection '");
        s.append(collection.as_str());
        s.append("'");
        s
    }
}

} // verus!
