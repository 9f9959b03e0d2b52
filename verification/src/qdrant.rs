//! Client-side model of the vector store's contract: named collections,
//! batched upsert keyed by chunk id (last write wins), point counts, and
//! the payload filtering applied to search replies. The store itself is a
//! network service; the similarity ranking it performs is delegated, not
//! modelled. What is modelled here is exactly what the rest of the
//! pipeline relies on: which points a collection holds after a sequence of
//! operations.

use vstd::prelude::*;

verus! {

/// One chunk of a document, as it is embedded and stored.
///
/// Chunk ids are derived from the chunk's source and content (see
/// `ingest`), so re-ingesting identical content yields identical ids and a
/// second upsert overwrites rather than duplicates.
#[derive(Debug, Clone)]
pub struct DocumentChunk {
    pub id: String,
    pub content: String,
    pub source: String,
}

/// The mathematical value of a `DocumentChunk`.
pub struct ChunkData {
    pub id: Seq<char>,
    pub content: Seq<char>,
    pub source: Seq<char>,
}

impl View for DocumentChunk {
    type V = ChunkData;

    open spec fn view(&self) -> ChunkData {
        ChunkData { id: self.id@, content: self.content@, source: self.source@ }
    }
}

impl DocumentChunk {
    /// A copy whose fields read the same as the original's.
    pub fn duplicate(&self) -> (r: DocumentChunk)
        ensures
            r@ == self@,
    {
        DocumentChunk { id: self.id.clone(), content: self.content.clone(), source: self.source.clone() }
    }
}

/// What the store holds for one point: the chunk's fields and the
/// dimension of the vector stored with it.
pub struct PointData {
    pub id: Seq<char>,
    pub content: Seq<char>,
    pub source: Seq<char>,
    pub dim: nat,
}

/// One stored point, in the executable model.
pub struct StoredPoint {
    pub id: String,
    pub content: String,
    pub source: String,
    pub dim: usize,
}

impl View for StoredPoint {
    type V = PointData;

    open spec fn view(&self) -> PointData {
        PointData {
            id: self.id@,
            content: self.content@,
            source: self.source@,
            dim: self.dim as nat,
        }
    }
}

/// The batch of points that storing `chunks` with vectors of dimension
/// `dim` writes.
pub open spec fn to_points(chunks: Seq<ChunkData>, dim: nat) -> Seq<PointData> {
    chunks.map_values(
        |c: ChunkData| (PointData { id: c.id, content: c.content, source: c.source, dim: dim }),
    )
}

/// The id-keyed contents of a sequence of points; a later point with the
/// same id shadows an earlier one.
pub open spec fn points_map(ps: Seq<PointData>) -> Map<Seq<char>, PointData>
    decreases ps.len(),
{
    if ps.len() == 0 {
        Map::<Seq<char>, PointData>::empty()
    } else {
        points_map(ps.drop_last()).insert(ps.last().id, ps.last())
    }
}

/// No two points share an id.
pub open spec fn unique_ids(ps: Seq<PointData>) -> bool {
    forall|i: int, j: int| 0 <= i < j < ps.len() ==> ps[i].id != ps[j].id
}

/// Whether some point in the batch has the given id.
pub open spec fn batch_has_id(b: Seq<PointData>, k: Seq<char>) -> bool {
    exists|i: int| 0 <= i < b.len() && b[i].id == k
}

/// The last point in the batch with the given id: the one that wins an
/// upsert.
pub open spec fn batch_value(b: Seq<PointData>, k: Seq<char>) -> PointData
    decreases b.len(),
{
    if b.len() == 0 {
        PointData { id: k, content: Seq::empty(), source: Seq::empty(), dim: 0 }
    } else if b.last().id == k {
        b.last()
    } else {
        batch_value(b.drop_last(), k)
    }
}

/// The contents of the store after upserting the batch `b` over contents
/// `m`: every point is written under its id, later entries winning.
pub open spec fn apply_upsert(m: Map<Seq<char>, PointData>, b: Seq<PointData>) -> Map<
    Seq<char>,
    PointData,
>
    decreases b.len(),
{
    if b.len() == 0 {
        m
    } else {
        apply_upsert(m, b.drop_last()).insert(b.last().id, b.last())
    }
}

/// What an upsert does to one key: a key named in the batch now maps to
/// the last batch entry with that id; every other key is untouched.
pub proof fn lemma_apply_upsert_key(m: Map<Seq<char>, PointData>, b: Seq<PointData>, k: Seq<char>)
    ensures
        batch_has_id(b, k) ==> apply_upsert(m, b).contains_key(k) && apply_upsert(m, b)[k]
            == batch_value(b, k),
        !batch_has_id(b, k) ==> apply_upsert(m, b).contains_key(k) == m.contains_key(k) && (
        m.contains_key(k) ==> apply_upsert(m, b)[k] == m[k]),
    decreases b.len(),
{
    if b.len() > 0 {
        lemma_apply_upsert_key(m, b.drop_last(), k);
        if b.last().id == k {
        } else {
            if batch_has_id(b, k) {
                let i = choose|i: int| 0 <= i < b.len() && b[i].id == k;
                assert(b.drop_last()[i] == b[i]);
            }
            if batch_has_id(b.drop_last(), k) {
                let i = choose|i: int| 0 <= i < b.drop_last().len() && b.drop_last()[i].id == k;
                assert(b[i] == b.drop_last()[i]);
            }
        }
    }
}

/// Upserting the same batch twice leaves the store exactly as upserting
/// it once: writes are idempotent keyed by chunk id.
pub proof fn lemma_upsert_idempotent(m: Map<Seq<char>, PointData>, b: Seq<PointData>)
    ensures
        apply_upsert(apply_upsert(m, b), b) == apply_upsert(m, b),
{
    let once = apply_upsert(m, b);
    let twice = apply_upsert(once, b);
    assert forall|k: Seq<char>| #[trigger] twice.dom().contains(k) implies once.dom().contains(k)
        && twice[k] == once[k] by {
        lemma_apply_upsert_key(m, b, k);
        lemma_apply_upsert_key(once, b, k);
    }
    assert forall|k: Seq<char>| #[trigger] once.dom().contains(k) implies twice.dom().contains(
        k,
    ) by {
        lemma_apply_upsert_key(m, b, k);
        lemma_apply_upsert_key(once, b, k);
    }
    assert(twice =~= once);
}

/// In a batch of distinct ids, the winning entry for each id is the entry
/// itself.
proof fn lemma_batch_value_unique(b: Seq<PointData>, i: int)
    requires
        unique_ids(b),
        0 <= i < b.len(),
    ensures
        batch_has_id(b, b[i].id),
        batch_value(b, b[i].id) == b[i],
    decreases b.len(),
{
    if i == b.len() - 1 {
    } else {
        assert(b[i].id != b.last().id);
        assert(b.drop_last()[i] == b[i]);
        lemma_batch_value_unique(b.drop_last(), i);
    }
}

/// After upserting a batch of distinct ids, every chunk of the batch is
/// present in the store under its id, with its own payload.
pub proof fn lemma_upsert_stores_batch(m: Map<Seq<char>, PointData>, b: Seq<PointData>)
    requires
        unique_ids(b),
    ensures
        forall|i: int|
            0 <= i < b.len() ==> apply_upsert(m, b).contains_key(#[trigger] b[i].id)
                && apply_upsert(m, b)[b[i].id] == b[i],
{
    assert forall|i: int|
        0 <= i < b.len() implies apply_upsert(m, b).contains_key(#[trigger] b[i].id)
        && apply_upsert(m, b)[b[i].id] == b[i] by {
        lemma_batch_value_unique(b, i);
        lemma_apply_upsert_key(m, b, b[i].id);
    }
}

/// In a sequence of points with distinct ids, overwriting the point that
/// already carries an id is the same, at the map level, as inserting
/// under that id.
proof fn lemma_points_map_update(ps: Seq<PointData>, j: int, p: PointData)
    requires
        0 <= j < ps.len(),
        ps[j].id == p.id,
        unique_ids(ps),
    ensures
        points_map(ps.update(j, p)) == points_map(ps).insert(p.id, p),
    decreases ps.len(),
{
    let u = ps.update(j, p);
    if j == ps.len() - 1 {
        assert(u.drop_last() =~= ps.drop_last());
        assert(u.last() == p);
        assert(points_map(ps.drop_last()).insert(ps.last().id, ps.last()).insert(p.id, p)
            =~= points_map(ps.drop_last()).insert(p.id, p));
    } else {
        assert(u.drop_last() =~= ps.drop_last().update(j, p));
        assert(u.last() == ps.last());
        assert(ps.drop_last()[j] == ps[j]);
        lemma_points_map_update(ps.drop_last(), j, p);
        assert(p.id != ps.last().id);
        assert(points_map(ps.drop_last()).insert(p.id, p).insert(ps.last().id, ps.last())
            =~= points_map(ps.drop_last()).insert(ps.last().id, ps.last()).insert(p.id, p));
    }
}

/// The id-keyed contents are the result of upserting the whole point
/// sequence into an empty store.
proof fn lemma_points_map_is_upsert(ps: Seq<PointData>)
    ensures
        points_map(ps) == apply_upsert(Map::<Seq<char>, PointData>::empty(), ps),
    decreases ps.len(),
{
    if ps.len() > 0 {
        lemma_points_map_is_upsert(ps.drop_last());
    }
}

/// Information the store reports about a collection.
pub struct CollectionInfo {
    pub points_count: usize,
    pub indexed_vectors_count: usize,
}

/// One named collection: a dimension fixed at creation and the points it
/// holds, each point's id unique.
pub struct Collection {
    pub name: String,
    pub dim: usize,
    pub points: Vec<StoredPoint>,
}

/// The mathematical value of a `Collection`.
pub struct CollectionData {
    pub name: Seq<char>,
    pub dim: nat,
    pub points: Seq<PointData>,
}

impl View for Collection {
    type V = CollectionData;

    open spec fn view(&self) -> CollectionData {
        CollectionData {
            name: self.name@,
            dim: self.dim as nat,
            points: self.points@.map_values(|p: StoredPoint| p@),
        }
    }
}

impl Collection {
    /// The id-keyed contents of the collection.
    pub open spec fn contents(&self) -> Map<Seq<char>, PointData> {
        points_map(self@.points)
    }

    /// Well-formed: ids are unique and every stored vector has the
    /// collection's dimension.
    pub open spec fn wf(&self) -> bool {
        &&& unique_ids(self@.points)
        &&& forall|i: int| 0 <= i < self@.points.len() ==> self@.points[i].dim == self@.dim
    }

    /// A fresh, empty collection of the given dimension.
    pub fn new(name: String, dim: usize) -> (r: Collection)
        ensures
            r.wf(),
            r@.name == name@,
            r@.dim == dim as nat,
            r@.points.len() == 0,
            r.contents() == Map::<Seq<char>, PointData>::empty(),
    {
        Collection { name, dim, points: Vec::new() }
    }

    /// How many points the collection holds.
    pub fn points_count(&self) -> (n: usize)
        ensures
            n == self@.points.len(),
    {
        self.points.len()
    }

    fn find_index(&self, id: &String) -> (r: Option<usize>)
        ensures
            match r {
                Some(j) => 0 <= j < self@.points.len() && self@.points[j as int].id == id@,
                None => forall|l: int| 0 <= l < self@.points.len() ==> self@.points[l].id != id@,
            },
    {
        let mut j: usize = 0;
        while j < self.points.len()
            invariant
                0 <= j <= self@.points.len(),
                forall|l: int| 0 <= l < j ==> self@.points[l].id != id@,
            decreases self@.points.len() - j,
        {
            if self.points[j].id.eq(id) {
                return Some(j);
            }
            j = j + 1;
        }
        None
    }

    /// Write each chunk under its id, with a vector of the collection's
    /// dimension: an existing point with the same id is overwritten, a
    /// new id is appended. Chunks and vector dimensions are positionally
    /// paired and must have the same length.
    pub fn upsert_batch(&mut self, chunks: &Vec<DocumentChunk>, dims: &Vec<usize>)
        requires
            old(self).wf(),
            chunks@.len() == dims@.len(),
            forall|i: int| 0 <= i < dims@.len() ==> dims@[i] == old(self).dim,
        ensures
            final(self).wf(),
            final(self)@.name == old(self)@.name,
            final(self)@.dim == old(self)@.dim,
            final(self).contents() == apply_upsert(
                old(self).contents(),
                to_points(chunks@.map_values(|c: DocumentChunk| c@), old(self)@.dim),
            ),
    {
        let ghost batch = to_points(chunks@.map_values(|c: DocumentChunk| c@), self@.dim);
        let ghost orig = old(self).contents();
        let mut k: usize = 0;
        proof {
            assert(batch.subrange(0, 0) =~= Seq::<PointData>::empty());
        }
        while k < chunks.len()
            invariant
                self.wf(),
                self@.name == old(self)@.name,
                self@.dim == old(self)@.dim,
                chunks@.len() == dims@.len(),
                0 <= k <= chunks@.len(),
                batch == to_points(chunks@.map_values(|c: DocumentChunk| c@), self@.dim),
                orig == old(self).contents(),
                self.contents() == apply_upsert(orig, batch.subrange(0, k as int)),
            decreases chunks@.len() - k,
        {
            let chunk = &chunks[k];
            let fresh = StoredPoint {
                id: chunk.id.clone(),
                content: chunk.content.clone(),
                source: chunk.source.clone(),
                dim: self.dim,
            };
            let ghost before = self@.points;
            proof {
                assert(fresh@ == batch[k as int]);
            }
            match self.find_index(&chunk.id) {
                Some(j) => {
                    self.points.set(j, fresh);
                    proof {
                        assert(self@.points =~= before.update(j as int, batch[k as int]));
                        lemma_points_map_update(before, j as int, batch[k as int]);
                        assert forall|a: int| 0 <= a < self@.points.len() implies (
                        #[trigger] self@.points[a]).id == before[a].id && self@.points[a].dim
                            == self@.dim by {
                            if a != j {
                                assert(self@.points[a] == before[a]);
                            }
                        }
                    }
                },
                None => {
                    self.points.push(fresh);
                    proof {
                        assert(self@.points.drop_last() =~= before);
                        assert(self@.points.last() == batch[k as int]);
                        let ps = self@.points;
                        assert forall|a: int, b2: int| 0 <= a < b2 < ps.len() implies (
                        #[trigger] ps[a]).id != (#[trigger] ps[b2]).id by {
                            assert(ps[a] == before[a]);
                            if b2 < ps.len() - 1 {
                                assert(ps[b2] == before[b2]);
                            }
                        }
                        assert forall|a: int| 0 <= a < ps.len() implies (#[trigger] ps[a]).dim
                            == self@.dim by {
                            if a < ps.len() - 1 {
                                assert(ps[a] == before[a]);
                            }
                        }
                    }
                },
            }
            proof {
                assert(batch.subrange(0, k + 1).drop_last() =~= batch.subrange(0, k as int));
                assert(batch.subrange(0, k + 1).last() == batch[k as int]);
            }
            k = k + 1;
        }
        proof {
            assert(batch.subrange(0, batch.len() as int) =~= batch);
        }
    }

    /// The content and source stored under an id, if any point carries
    /// it.
    pub fn find_point(&self, id: &String) -> (r: Option<(String, String)>)
        requires
            self.wf(),
        ensures
            match r {
                Some(pair) => self.contents().contains_key(id@) && self.contents()[id@].content
                    == pair.0@ && self.contents()[id@].source == pair.1@,
                None => !self.contents().contains_key(id@),
            },
    {
        proof {
            lemma_points_map_is_upsert(self@.points);
            lemma_apply_upsert_key(Map::<Seq<char>, PointData>::empty(), self@.points, id@);
        }
        match self.find_index(id) {
            Some(j) => {
                proof {
                    lemma_batch_value_unique(self@.points, j as int);
                }
                Some((self.points[j].content.clone(), self.points[j].source.clone()))
            },
            None => None,
        }
    }
}

/// The collections of a store, each name unique. `ensure_collection` is
/// idempotent; a collection's dimension is fixed when it is created and
/// never changed by this layer.
pub struct Store {
    pub collections: Vec<Collection>,
}

impl View for Store {
    type V = Seq<CollectionData>;

    open spec fn view(&self) -> Seq<CollectionData> {
        self.collections@.map_values(|c: Collection| c@)
    }
}

impl Store {
    /// Well-formed: every collection is, and no two share a name.
    pub open spec fn wf(&self) -> bool {
        &&& forall|i: int| 0 <= i < self.collections@.len() ==> (
        #[trigger] self.collections@[i]).wf()
        &&& forall|i: int, j: int| 0 <= i < j < self@.len() ==> self@[i].name != self@[j].name
    }

    /// Whether a collection of this name exists.
    pub open spec fn has_collection(&self, name: Seq<char>) -> bool {
        exists|i: int| 0 <= i < self@.len() && self@[i].name == name
    }

    /// An empty store.
    pub fn new() -> (r: Store)
        ensures
            r.wf(),
            r@.len() == 0,
    {
        Store { collections: Vec::new() }
    }

    fn find_collection(&self, name: &String) -> (r: Option<usize>)
        ensures
            match r {
                Some(i) => 0 <= i < self@.len() && self@[i as int].name == name@,
                None => !self.has_collection(name@),
            },
    {
        let mut i: usize = 0;
        while i < self.collections.len()
            invariant
                0 <= i <= self@.len(),
                forall|l: int| 0 <= l < i ==> self@[l].name != name@,
            decreases self@.len() - i,
        {
            if self.collections[i].name.eq(name) {
                return Some(i);
            }
            i = i + 1;
        }
        None
    }

    /// Create the named collection with the given dimension if it does
    /// not exist; an existing collection is left exactly as it is, so the
    /// call is idempotent. Calling with a different dimension while the
    /// collection exists changes nothing: the dimension is fixed at
    /// creation.
    pub fn ensure_collection(&mut self, name: &String, dim: usize)
        requires
            old(self).wf(),
        ensures
            final(self).wf(),
            final(self).has_collection(name@),
            old(self).has_collection(name@) ==> final(self)@ == old(self)@,
            !old(self).has_collection(name@) ==> final(self)@.len() == old(self)@.len() + 1
                && final(self)@.subrange(0, old(self)@.len() as int) == old(self)@
                && final(self)@.last().name == name@ && final(self)@.last().dim == dim as nat
                && final(self)@.last().points.len() == 0,
    {
        match self.find_collection(name) {
            Some(_) => {},
            None => {
                let ghost before = self@;
                self.collections.push(Collection::new(name.clone(), dim));
                proof {
                    assert(self@.drop_last() =~= before);
                    assert(self@.subrange(0, before.len() as int) =~= before);
                    assert(self@[before.len() as int].name == name@);
                    assert forall|i: int, j: int| 0 <= i < j < self@.len() implies self@[i].name
                        != self@[j].name by {
                        if j < self@.len() - 1 {
                            assert(self@[i] == before[i]);
                            assert(self@[j] == before[j]);
                        } else {
                            assert(self@[i] == before[i]);
                        }
                    }
                }
            },
        }
    }

    /// The point count of the named collection, or `None` if it does not
    /// exist: the caller's signal that the knowledge base is absent.
    pub fn collection_info(&self, name: &String) -> (r: Option<CollectionInfo>)
        requires
            self.wf(),
        ensures
            (r is Some) <==> self.has_collection(name@),
            r matches Some(info) ==> forall|i: int|
                0 <= i < self@.len() && self@[i].name == name@ ==> info.points_count
                    == self@[i].points.len() && info.indexed_vectors_count
                    == self@[i].points.len(),
    {
        match self.find_collection(name) {
            Some(i) => {
                let n = self.collections[i].points_count();
                Some(CollectionInfo { points_count: n, indexed_vectors_count: n })
            },
            None => None,
        }
    }

    /// Upsert positionally paired chunks and vector dimensions into the
    /// named collection; every other collection is untouched.
    pub fn upsert_batch(&mut self, name: &String, chunks: &Vec<DocumentChunk>, dims: &Vec<usize>)
        requires
            old(self).wf(),
            old(self).has_collection(name@),
            chunks@.len() == dims@.len(),
            forall|i: int, j: int|
                0 <= i < dims@.len() && 0 <= j < old(self)@.len() && old(self)@[j].name == name@
                    ==> dims@[i] as nat == old(self)@[j].dim,
        ensures
            final(self).wf(),
            final(self)@.len() == old(self)@.len(),
            forall|j: int|
                0 <= j < old(self)@.len() && old(self)@[j].name != name@ ==> final(self)@[j]
                    == old(self)@[j],
            forall|j: int|
                0 <= j < old(self)@.len() && old(self)@[j].name == name@
                    ==> (#[trigger] final(self)@[j]).name == name@
                    && final(self)@[j].dim == old(self)@[j].dim && points_map(
                    final(self)@[j].points,
                ) == apply_upsert(
                    points_map(old(self)@[j].points),
                    to_points(chunks@.map_values(|c: DocumentChunk| c@), old(self)@[j].dim),
                ),
    {
        let i = match self.find_collection(name) {
            Some(i) => i,
            None => {
                proof {
                    assert(false);
                }
                0
            },
        };
        let ghost before = self@;
        let mut target = self.collections.remove(i);
        target.upsert_batch(chunks, dims);
        self.collections.insert(i, target);
        proof {
            assert forall|j: int| 0 <= j < before.len() && j != i implies #[trigger] self@[j]
                == before[j] by {
                if j < i {
                    assert(self.collections@[j] == old(self).collections@[j]);
                } else {
                    assert(self.collections@[j] == old(self).collections@[j]);
                }
            }
            assert(self@.len() == before.len());
            assert(self@[i as int].name == name@);
            assert forall|j: int|
                0 <= j < before.len() && before[j].name == name@ implies j == i by {
                if j != i {
                    assert(before[j].name != before[i as int].name);
                }
            }
        }
    }

    /// Store one chunk with a vector of the given dimension: a batch of
    /// one.
    pub fn upsert(&mut self, name: &String, chunk: &DocumentChunk, dim: usize)
        requires
            old(self).wf(),
            old(self).has_collection(name@),
            forall|j: int|
                0 <= j < old(self)@.len() && old(self)@[j].name == name@ ==> dim as nat == old(
                    self,
                )@[j].dim,
        ensures
            final(self).wf(),
            final(self)@.len() == old(self)@.len(),
            forall|j: int|
                0 <= j < old(self)@.len() && old(self)@[j].name != name@ ==> final(self)@[j]
                    == old(self)@[j],
            forall|j: int|
                0 <= j < old(self)@.len() && old(self)@[j].name == name@
                    ==> (#[trigger] final(self)@[j]).name == name@
                    && final(self)@[j].dim == old(self)@[j].dim && points_map(
                    final(self)@[j].points,
                ) == apply_upsert(
                    points_map(old(self)@[j].points),
                    to_points(seq![chunk@], old(self)@[j].dim),
                ),
    {
        let mut chunks: Vec<DocumentChunk> = Vec::new();
        chunks.push(chunk.duplicate());
        let mut dims: Vec<usize> = Vec::new();
        dims.push(dim);
        proof {
            assert(chunks@.map_values(|c: DocumentChunk| c@) =~= seq![chunk@]);
        }
        self.upsert_batch(name, &chunks, &dims);
    }

    /// Remove the named collection; every other collection is untouched.
    /// Destructive: used only by the explicit cleanup operation.
    pub fn delete_collection(&mut self, name: &String)
        requires
            old(self).wf(),
        ensures
            final(self).wf(),
            !final(self).has_collection(name@),
            old(self).has_collection(name@) ==> exists|i: int|
                0 <= i < old(self)@.len() && old(self)@[i].name == name@ && final(self)@ == old(
                    self,
                )@.remove(i),
            !old(self).has_collection(name@) ==> final(self)@ == old(self)@,
    {
        match self.find_collection(name) {
            Some(i) => {
                let ghost before = self@;
                self.collections.remove(i);
                proof {
                    assert(self@ =~= before.remove(i as int));
                    assert forall|l: int| 0 <= l < self@.len() implies #[trigger] self@[l].name
                        != name@ by {
                        if l < i {
                            assert(self@[l] == before[l]);
                            assert(before[l].name != before[i as int].name);
                        } else {
                            assert(self@[l] == before[l + 1]);
                            assert(before[l + 1].name != before[i as int].name);
                        }
                    }
                    assert forall|a: int, b2: int| 0 <= a < b2 < self@.len() implies self@[a].name
                        != self@[b2].name by {
                        let a0 = if a < i {
                            a
                        } else {
                            a + 1
                        };
                        let b0 = if b2 < i {
                            b2
                        } else {
                            b2 + 1
                        };
                        assert(self@[a] == before[a0]);
                        assert(self@[b2] == before[b0]);
                    }
                }
            },
            None => {},
        }
    }
}

/// The report after an explicit cleanup deleted a collection.
pub fn deleted_message(collection: &String) -> (r: String)
    ensures
        r@ == "Collection '"@ + collection@ + "' deleted."@,
{
    let mut s = String::new();
    s.append("Collection '");
    s.append(collection.as_str());
    s.append("' deleted.");
    s
}

/// The payload of one search hit, as the store returns it: a hit may
/// arrive without a payload.
pub struct SearchPayload {
    pub content: String,
    pub source: String,
}

/// The payloads that survive filtering, in order.
pub open spec fn spec_kept_payloads(hits: Seq<Option<SearchPayload>>) -> Seq<
    (Seq<char>, Seq<char>),
>
    decreases hits.len(),
{
    if hits.len() == 0 {
        Seq::empty()
    } else {
        let rest = spec_kept_payloads(hits.drop_last());
        match hits.last() {
            Some(p) => rest.push((p.content@, p.source@)),
            None => rest,
        }
    }
}

/// Turn ranked search hits into chunks, silently dropping hits without a
/// payload and keeping the store's ranking order. Search results carry no
/// id.
pub fn chunks_from_hits(hits: Vec<Option<SearchPayload>>) -> (r: Vec<DocumentChunk>)
    ensures
        r@.len() == spec_kept_payloads(hits@).len(),
        forall|i: int|
            0 <= i < r@.len() ==> (#[trigger] r@[i])@.id == Seq::<char>::empty() && (r@[i]@.content,
            r@[i]@.source) == spec_kept_payloads(hits@)[i],
{
    let n = hits.len();
    let mut out: Vec<DocumentChunk> = Vec::new();
    proof {
        assert(hits@.subrange(0, 0) =~= Seq::<Option<SearchPayload>>::empty());
    }
    for i in 0..n
        invariant
            n == hits@.len(),
            out@.len() == spec_kept_payloads(hits@.subrange(0, i as int)).len(),
            forall|l: int|
                0 <= l < out@.len() ==> (#[trigger] out@[l])@.id == Seq::<char>::empty()
                    && (out@[l]@.content, out@[l]@.source) == spec_kept_payloads(
                    hits@.subrange(0, i as int),
                )[l],
    {
        proof {
            assert(hits@.subrange(0, i + 1).drop_last() =~= hits@.subrange(0, i as int));
            assert(hits@.subrange(0, i + 1).last() == hits@[i as int]);
        }
        match &hits[i] {
            Some(p) => {
                out.push(
                    DocumentChunk {
                        id: String::new(),
                        content: p.content.clone(),
                        source: p.source.clone(),
                    },
                );
            },
            None => {},
        }
    }
    proof {
        assert(hits@.subrange(0, n as int) =~= hits@);
    }
    out
}

} // verus!
