//! The indexed mesh-geometry builder.
//!
//! Faces (triangles or quads) are added with per-corner payloads. Payload
//! positions are deduplicated bit-exactly into dense vertex ids, and every
//! vertex keeps back-references to the faces that use it, as
//! (section, face index) pairs. Faces live in sections: sparse,
//! integer-keyed face lists sharing one vertex pool.
//!
//! The central invariant is bidirectional consistency: every back-reference
//! resolves to a live face that lists the vertex, and every face is
//! back-referenced exactly once by each of its vertices. All mutating
//! operations are verified to preserve it.

use vstd::prelude::*;
use vstd::seq_lib::*;
use crate::fvec::Vec3Bits;
use crate::payload::Position3D;

verus! {

/// The address of a face: which section holds it, and at which position in
/// that section's face list it currently stands.
#[derive(Clone, Copy, PartialEq, Eq, Structural, Debug)]
pub struct SectionIndex {
    pub section: usize,
    pub index: usize,
}

impl From<usize> for SectionIndex {
    /// A bare index addresses the default section 0.
    fn from(index: usize) -> (r: Self) {
        SectionIndex { section: 0, index }
    }
}

impl vstd::std_specs::convert::FromSpecImpl<usize> for SectionIndex {
    open spec fn obeys_from_spec() -> bool {
        true
    }

    open spec fn from_spec(index: usize) -> Self {
        SectionIndex { section: 0, index }
    }
}

/// A face: an ordered list of 3 or 4 distinct vertex ids, an optional
/// explicit normal (which skips normal generation), and an optional payload
/// override merged into the vertex payloads at emission.
#[derive(Clone)]
pub struct Face<V> {
    pub vertices: Vec<usize>,
    pub face_normal: Option<Vec3Bits>,
    pub data: Option<V>,
}

/// The mathematical content of a [`Face`].
pub struct FaceView<V> {
    pub verts: Seq<usize>,
    pub normal: Option<Vec3Bits>,
    pub data: Option<V>,
}

impl<V> View for Face<V> {
    type V = FaceView<V>;

    open spec fn view(&self) -> FaceView<V> {
        FaceView { verts: self.vertices@, normal: self.face_normal, data: self.data }
    }
}

/// A face view is well formed for a pool of `n` vertices when it lists 3 or
/// 4 pairwise distinct ids, all below `n`.
pub open spec fn face_view_wf<V>(f: FaceView<V>, n: int) -> bool {
    &&& 3 <= f.verts.len() <= 4
    &&& (forall|i: int| 0 <= i < f.verts.len() ==> (#[trigger] f.verts[i]) < n)
    &&& (forall|i: int, j: int|
        0 <= i < j < f.verts.len() ==> f.verts[i] != f.verts[j])
}

/// One vertex of the pool: its payload (last write wins), its unordered
/// back-reference list, and a slot for a persisted normal (unused by the
/// builder itself, which computes normals per emission).
pub struct MeshVertex<V> {
    pub data: V,
    pub faces: Vec<SectionIndex>,
    pub vertex_normal: Option<Vec3Bits>,
}

impl<V> MeshVertex<V> {
    /// The face indices of this vertex's back-references into `section`,
    /// in back-reference list order.
    pub open spec fn spec_section_faces(self, section: usize) -> Seq<usize> {
        self.faces@.filter(|si: SectionIndex| si.section == section).map_values(
            |si: SectionIndex| si.index,
        )
    }

    pub fn section_faces(&self, section: usize) -> (r: Vec<usize>)
        ensures
            r@ == self.spec_section_faces(section),
    {
        let mut r: Vec<usize> = Vec::new();
        let mut m: usize = 0;
        while m < self.faces.len()
            invariant
                m <= self.faces@.len(),
                r@ == self.faces@.take(m as int).filter(|si: SectionIndex| si.section == section)
                    .map_values(|si: SectionIndex| si.index),
            decreases self.faces@.len() - m,
        {
            let si = self.faces[m];
            proof {
                reveal_with_fuel(Seq::filter, 2);
                assert(self.faces@.take(m + 1).drop_last() == self.faces@.take(m as int));
                assert(self.faces@.take(m + 1).last() == self.faces@[m as int]);
            }
            if si.section == section {
                r.push(si.index);
            }
            m = m + 1;
        }
        proof {
            assert(self.faces@.take(self.faces@.len() as int) == self.faces@);
        }
        r
    }
}

/// Per-face optional configuration: an explicit normal, an override
/// payload, and a target section. Everything defaults to none / section 0.
#[derive(Clone, Copy, Debug)]
pub struct FaceDataProps<V> {
    pub normal: Option<Vec3Bits>,
    pub data: Option<V>,
    pub section: Option<usize>,
}

impl<V> Default for FaceDataProps<V> {
    fn default() -> (r: Self)
        ensures
            r.normal is None,
            r.data is None,
            r.section is None,
    {
        FaceDataProps { normal: None, data: None, section: None }
    }
}

impl<V> FaceDataProps<V> {
    pub fn with_normal(self, normal: Vec3Bits) -> (r: Self)
        ensures
            r == (FaceDataProps { normal: Some(normal), ..self }),
    {
        FaceDataProps { normal: Some(normal), ..self }
    }

    pub fn with_data(self, data: V) -> (r: Self)
        ensures
            r.normal == self.normal,
            r.data == Some(data),
            r.section == self.section,
    {
        FaceDataProps { normal: self.normal, data: Some(data), section: self.section }
    }

    pub fn with_section(self, section: usize) -> (r: Self)
        ensures
            r == (FaceDataProps { section: Some(section), ..self }),
    {
        FaceDataProps { section: Some(section), ..self }
    }
}

/// Face configuration with only an explicit normal set.
pub fn face_normal<V>(normal: Vec3Bits) -> (r: FaceDataProps<V>)
    ensures
        r.normal == Some(normal),
        r.data is None,
        r.section is None,
{
    FaceDataProps { normal: Some(normal), data: None, section: None }
}

/// Face configuration with only an override payload set.
pub fn face_data<V>(data: V) -> (r: FaceDataProps<V>)
    ensures
        r.normal is None,
        r.data == Some(data),
        r.section is None,
{
    FaceDataProps { normal: None, data: Some(data), section: None }
}

/// Face configuration with only a target section set.
pub fn face_section<V>(section: usize) -> (r: FaceDataProps<V>)
    ensures
        r.normal is None,
        r.data is None,
        r.section == Some(section),
{
    FaceDataProps { normal: None, data: None, section: Some(section) }
}

/// The error a face addition reports when its corners do not resolve to
/// enough distinct vertices.
#[derive(Clone, Copy, PartialEq, Eq, Structural, Debug)]
pub enum MeshError {
    /// Two corners of the face carry bit-identical positions, so the face
    /// would have fewer distinct vertex ids than corners.
    InvalidFace,
}

/// One section: a face list under an integer section id.
pub struct SectionFaces<V> {
    pub id: usize,
    pub faces: Vec<Face<V>>,
}

/// The mesh-geometry builder.
///
/// The ghost fields record the addition history that the counting law is
/// stated over: how many triangle-equivalents were added (a triangle counts
/// 1, a quad 2), every position that entered the dedup index, and how many
/// ids were handed out by [`MeshGeometry::get_vertex_index`] without an
/// accompanying face.
pub struct MeshGeometry<V> {
    pub vertices: Vec<MeshVertex<V>>,
    pub sections: Vec<SectionFaces<V>>,
    pub next_index: usize,
    pub position_ids: Vec<Vec3Bits>,
    pub tri_adds: Ghost<int>,
    pub quad_adds: Ghost<int>,
    pub loose_resolves: Ghost<int>,
    pub pos_log: Ghost<Seq<Vec3Bits>>,
}

impl<V> MeshGeometry<V> {
    pub open spec fn n_vertices(self) -> int {
        self.vertices@.len() as int
    }

    /// Whether a section with id `sid` exists.
    pub open spec fn has_section(self, sid: usize) -> bool {
        exists|s: int| 0 <= s < self.sections@.len() && (#[trigger] self.sections@[s].id) == sid
    }

    /// The position of section `sid` in the sorted section list.
    pub open spec fn section_pos(self, sid: usize) -> int {
        choose|s: int| 0 <= s < self.sections@.len() && (#[trigger] self.sections@[s].id) == sid
    }

    /// The face list of section `sid`; empty where the section is absent.
    pub open spec fn section_list(self, sid: usize) -> Seq<Face<V>> {
        if self.has_section(sid) {
            self.sections@[self.section_pos(sid)].faces@
        } else {
            Seq::empty()
        }
    }

    /// The face views of section `sid`, in face-list order.
    pub open spec fn section_views(self, sid: usize) -> Seq<FaceView<V>> {
        self.section_list(sid).map_values(|f: Face<V>| f@)
    }

    /// Whether `si` addresses a live face.
    pub open spec fn valid_section_index(self, si: SectionIndex) -> bool {
        si.index < self.section_list(si.section).len()
    }

    /// The view of the face `si` addresses.
    pub open spec fn face_view(self, si: SectionIndex) -> FaceView<V> {
        self.section_views(si.section)[si.index as int]
    }

    /// A back-reference is good for vertex `v` when it addresses a live
    /// face that lists `v`.
    pub open spec fn backref_ok(self, si: SectionIndex, v: usize) -> bool {
        &&& self.valid_section_index(si)
        &&& self.face_view(si).verts.contains(v)
    }

    /// Section ids strictly increase along the section list.
    pub open spec fn sections_sorted(self) -> bool {
        forall|i: int, j: int|
            0 <= i < j < self.sections@.len() ==> (#[trigger] self.sections@[i].id) < (
            #[trigger] self.sections@[j].id)
    }

    /// Every face lists 3 or 4 distinct vertex ids below the pool size.
    pub open spec fn faces_wf(self) -> bool {
        forall|s: int, k: int|
            0 <= s < self.sections@.len() && 0 <= k < self.sections@[s].faces@.len()
                ==> face_view_wf((#[trigger] self.sections@[s].faces@[k])@, self.n_vertices())
    }

    /// Every back-reference resolves to a live face listing its vertex.
    pub open spec fn backrefs_valid(self) -> bool {
        forall|v: int, m: int|
            0 <= v < self.n_vertices() && 0 <= m < self.vertices@[v].faces@.len()
                ==> self.backref_ok(
                #[trigger] self.vertices@[v].faces@[m],
                v as usize,
            )
    }

    /// No vertex holds the same back-reference twice.
    pub open spec fn backrefs_unique(self) -> bool {
        forall|v: int|
            0 <= v < self.n_vertices() ==> (#[trigger] self.vertices@[v].faces@).no_duplicates()
    }

    /// Every face is back-referenced by each of its vertices.
    pub open spec fn backrefs_complete(self) -> bool {
        forall|s: int, k: int, i: int|
            0 <= s < self.sections@.len() && 0 <= k < self.sections@[s].faces@.len() && 0 <= i
                < self.sections@[s].faces@[k].vertices@.len()
                ==> self.vertices@[(#[trigger] self.sections@[s].faces@[k].vertices@[i]) as int].faces@.contains(
                SectionIndex { section: self.sections@[s].id, index: k as usize },
            )
    }

    /// The dedup index assigns dense ids: `position_ids[i]` is the position
    /// that owns id `i`, positions are pairwise distinct, and every id below
    /// the vertex-pool size is materialized.
    pub open spec fn index_wf(self) -> bool {
        &&& self.position_ids@.no_duplicates()
        &&& self.next_index == self.position_ids@.len()
        &&& self.vertices@.len() <= self.position_ids@.len()
    }

    /// The structural invariant: bidirectional vertex/face consistency plus
    /// a well-formed dedup index.
    pub open spec fn wf_core(self) -> bool {
        &&& self.sections_sorted()
        &&& self.faces_wf()
        &&& self.backrefs_valid()
        &&& self.backrefs_unique()
        &&& self.backrefs_complete()
        &&& self.index_wf()
    }

    /// The ghost accounting invariant: the position log holds exactly the
    /// indexed positions, three per added triangle, four per added quad and
    /// one per loose id, and without loose ids the pool is dense.
    pub open spec fn log_wf(self) -> bool {
        &&& self.pos_log@.to_set() == self.position_ids@.to_set()
        &&& self.pos_log@.len() == 3 * self.tri_adds@ + 4 * self.quad_adds@
            + self.loose_resolves@
        &&& self.tri_adds@ >= 0
        &&& self.quad_adds@ >= 0
        &&& self.loose_resolves@ >= 0
        &&& (self.loose_resolves@ == 0 ==> self.vertices@.len() == self.position_ids@.len())
    }

    pub open spec fn wf(self) -> bool {
        &&& self.wf_core()
        &&& self.log_wf()
    }

    /// Whether `pos` already owns a vertex id.
    pub open spec fn has_pos(self, pos: Vec3Bits) -> bool {
        self.position_ids@.contains(pos)
    }

    /// The vertex id a known position resolves to. The dedup index holds
    /// each position at most once, so the id is unique.
    pub open spec fn pos_id(self, pos: Vec3Bits) -> int {
        self.position_ids@.index_of(pos)
    }

    /// In a sorted section list, a section id determines its position.
    pub(crate) proof fn lemma_section_pos_unique(self, s1: int, s2: int)
        requires
            self.sections_sorted(),
            0 <= s1 < self.sections@.len(),
            0 <= s2 < self.sections@.len(),
            self.sections@[s1].id == self.sections@[s2].id,
        ensures
            s1 == s2,
    {
    }
}

/// Pushing an element onto a sequence inserts it into the element set.
proof fn lemma_to_set_push<A>(s: Seq<A>, x: A)
    ensures
        s.push(x).to_set() =~= s.to_set().insert(x),
{
    assert forall|a: A| #[trigger] s.push(x).to_set().contains(a) implies s.to_set().insert(
        x,
    ).contains(a) by {
        let i = choose|i: int| 0 <= i < s.push(x).len() && s.push(x)[i] == a;
        if i < s.len() {
            assert(s[i] == a);
        }
    }
    assert forall|a: A| #[trigger] s.to_set().insert(x).contains(a) implies s.push(x).to_set()
        .contains(a) by {
        if a == x {
            assert(s.push(x)[s.len() as int] == a);
        } else {
            let i = choose|i: int| 0 <= i < s.len() && s[i] == a;
            assert(s.push(x)[i] == a);
        }
    }
}

/// Removing an element of a duplicate-free sequence removes it from the
/// element set.
proof fn lemma_to_set_remove<A>(s: Seq<A>, i: int)
    requires
        s.no_duplicates(),
        0 <= i < s.len(),
    ensures
        s.remove(i).to_set() =~= s.to_set().remove(s[i]),
        s.remove(i).no_duplicates(),
{
    let r = s.remove(i);
    assert forall|a: A| #[trigger] r.to_set().contains(a) implies s.to_set().remove(s[i]).contains(
        a,
    ) by {
        let w = choose|w: int| 0 <= w < r.len() && r[w] == a;
        if w < i {
            assert(s[w] == a);
        } else {
            assert(s[w + 1] == a);
        }
    }
    assert forall|a: A| s.to_set().remove(s[i]).contains(a) implies #[trigger] r.to_set().contains(
        a,
    ) by {
        let w = choose|w: int| 0 <= w < s.len() && s[w] == a;
        if w < i {
            assert(r[w] == a);
        } else {
            assert(w != i);
            assert(r[w - 1] == a);
        }
    }
    assert forall|a: int, b: int| 0 <= a < b < r.len() implies r[a] != r[b] by {
        let a2: int = if a < i {
            a
        } else {
            a + 1
        };
        let b2: int = if b < i {
            b
        } else {
            b + 1
        };
        assert(r[a] == s[a2] && r[b] == s[b2]);
    }
}

/// Overwriting position `i` of a duplicate-free sequence with a fresh
/// element swaps the old element for the new one in the element set.
proof fn lemma_to_set_update<A>(s: Seq<A>, i: int, y: A)
    requires
        s.no_duplicates(),
        0 <= i < s.len(),
        !s.contains(y),
    ensures
        s.update(i, y).to_set() =~= s.to_set().remove(s[i]).insert(y),
        s.update(i, y).no_duplicates(),
{
    let r = s.update(i, y);
    assert forall|a: A| #[trigger] r.to_set().contains(a) implies s.to_set().remove(s[i]).insert(
        y,
    ).contains(a) by {
        let w = choose|w: int| 0 <= w < r.len() && r[w] == a;
        if w != i {
            assert(s[w] == a);
        }
    }
    assert forall|a: A| s.to_set().remove(s[i]).insert(y).contains(a) implies #[trigger] r.to_set()
        .contains(a) by {
        if a == y {
            assert(r[i] == a);
        } else {
            let w = choose|w: int| 0 <= w < s.len() && s[w] == a;
            assert(w != i);
            assert(r[w] == a);
        }
    }
    assert forall|a: int, b: int| 0 <= a < b < r.len() implies r[a] != r[b] by {
        if a != i && b != i {
            assert(r[a] == s[a] && r[b] == s[b]);
        } else if a == i {
            assert(r[b] == s[b] && s.contains(s[b]));
        } else {
            assert(r[a] == s[a] && s.contains(s[a]));
        }
    }
}

/// Pushing a fresh element preserves freedom from duplicates.
proof fn lemma_no_duplicates_push<A>(s: Seq<A>, x: A)
    requires
        s.no_duplicates(),
        !s.contains(x),
    ensures
        s.push(x).no_duplicates(),
{
    assert forall|i: int, j: int|
        0 <= i < s.push(x).len() && 0 <= j < s.push(x).len() && i != j implies s.push(x)[i] != s
        .push(x)[j] by {
        if i < s.len() && j < s.len() {
        } else if j == s.len() {
            assert(s.push(x)[i] == s[i]);
        } else {
            assert(s.push(x)[j] == s[j]);
        }
    }
}

impl<V: Position3D + Copy> MeshGeometry<V> {
    /// A fresh, empty geometry.
    pub fn new() -> (r: Self)
        ensures
            r.wf(),
            r.vertices@.len() == 0,
            r.sections@.len() == 0,
            r.position_ids@.len() == 0,
            r.tri_adds@ == 0,
            r.quad_adds@ == 0,
            r.loose_resolves@ == 0,
            r.pos_log@ == Seq::<Vec3Bits>::empty(),
    {
        let r = MeshGeometry {
            vertices: Vec::new(),
            sections: Vec::new(),
            next_index: 0,
            position_ids: Vec::new(),
            tri_adds: Ghost(0),
            quad_adds: Ghost(0),
            loose_resolves: Ghost(0),
            pos_log: Ghost(Seq::empty()),
        };
        proof {
            assert(r.pos_log@.to_set() =~= r.position_ids@.to_set());
        }
        r
    }

    /// Looks a position up in the dedup index without changing anything.
    fn find_position(&self, pos: Vec3Bits) -> (r: Option<usize>)
        ensures
            match r {
                Some(i) => i < self.position_ids@.len() && self.position_ids@[i as int] == pos,
                None => !self.position_ids@.contains(pos),
            },
    {
        let mut i: usize = 0;
        while i < self.position_ids.len()
            invariant
                i <= self.position_ids@.len(),
                forall|j: int| 0 <= j < i ==> self.position_ids@[j] != pos,
            decreases self.position_ids@.len() - i,
        {
            if self.position_ids[i] == pos {
                return Some(i);
            }
            i = i + 1;
        }
        None
    }

    /// Resolves a position to its vertex id: the existing id for a known
    /// position, else the next sequential id, which is recorded in the
    /// index. An id assigned here has no vertex entry yet; the next face
    /// addition materializes it.
    pub fn get_vertex_index(&mut self, pos: Vec3Bits) -> (id: usize)
        requires
            old(self).wf(),
        ensures
            final(self).wf(),
            final(self).vertices == old(self).vertices,
            final(self).sections == old(self).sections,
            final(self).tri_adds == old(self).tri_adds,
            final(self).quad_adds == old(self).quad_adds,
            id < final(self).position_ids@.len(),
            final(self).position_ids@[id as int] == pos,
            old(self).has_pos(pos) ==> {
                &&& final(self).position_ids == old(self).position_ids
                &&& final(self).pos_log == old(self).pos_log
                &&& final(self).loose_resolves == old(self).loose_resolves
            },
            !old(self).has_pos(pos) ==> {
                &&& final(self).position_ids@ == old(self).position_ids@.push(pos)
                &&& id == old(self).position_ids@.len()
                &&& final(self).pos_log@ == old(self).pos_log@.push(pos)
                &&& final(self).loose_resolves@ == old(self).loose_resolves@ + 1
            },
    {
        match self.find_position(pos) {
            Some(i) => i,
            None => {
                let id = self.next_index;
                self.position_ids.push(pos);
                self.next_index = self.position_ids.len();
                proof {
                    lemma_no_duplicates_push(old(self).position_ids@, pos);
                    lemma_to_set_push(old(self).position_ids@, pos);
                    lemma_to_set_push(old(self).pos_log@, pos);
                }
                self.pos_log = Ghost(self.pos_log@.push(pos));
                self.loose_resolves = Ghost(self.loose_resolves@ + 1);
                id
            },
        }
    }

    /// Creates vertex entries for ids the index has assigned but no face
    /// addition has materialized yet. The placeholder payload is replaced
    /// as soon as a face references the id's position.
    fn materialize_pending(&mut self, filler: &V)
        requires
            old(self).wf(),
        ensures
            final(self).wf(),
            final(self).vertices@.len() == final(self).position_ids@.len(),
            final(self).sections == old(self).sections,
            final(self).position_ids == old(self).position_ids,
            final(self).next_index == old(self).next_index,
            final(self).tri_adds == old(self).tri_adds,
            final(self).quad_adds == old(self).quad_adds,
            final(self).loose_resolves == old(self).loose_resolves,
            final(self).pos_log == old(self).pos_log,
            final(self).vertices@.len() >= old(self).vertices@.len(),
            forall|v: int|
                0 <= v < old(self).vertices@.len()
                    ==> final(self).vertices@[v] == old(self).vertices@[v],
            forall|v: int|
                old(self).vertices@.len() <= v < final(self).vertices@.len()
                    ==> (#[trigger] final(self).vertices@[v]).faces@ =~= Seq::<
                    SectionIndex,
                >::empty(),
    {
        while self.vertices.len() < self.position_ids.len()
            invariant
                self.wf(),
                self.sections == old(self).sections,
                self.position_ids == old(self).position_ids,
                self.next_index == old(self).next_index,
                self.tri_adds == old(self).tri_adds,
                self.quad_adds == old(self).quad_adds,
                self.loose_resolves == old(self).loose_resolves,
                self.pos_log == old(self).pos_log,
                self.vertices@.len() >= old(self).vertices@.len(),
                forall|v: int|
                    0 <= v < old(self).vertices@.len() ==> self.vertices@[v] == old(
                    self,
                ).vertices@[v],
                forall|v: int|
                    old(self).vertices@.len() <= v < self.vertices@.len() ==> (
                    #[trigger] self.vertices@[v]).faces@ =~= Seq::<SectionIndex>::empty(),
            decreases self.position_ids@.len() - self.vertices@.len(),
        {
            let ghost pre = *self;
            self.vertices.push(
                MeshVertex { data: *filler, faces: Vec::new(), vertex_normal: None },
            );
            proof {
                assert forall|s: int, k: int|
                    0 <= s < self.sections@.len() && 0 <= k
                        < self.sections@[s].faces@.len() implies face_view_wf(
                    (self.sections@[s].faces@[k])@,
                    self.n_vertices(),
                ) by {
                    assert(face_view_wf((pre.sections@[s].faces@[k])@, pre.n_vertices()));
                }
            }
        }
    }

    /// Resolves one payload to a vertex id, materializing the vertex entry
    /// for a fresh position and overwriting the payload (last write wins)
    /// for a known one.
    fn resolve_vertex(&mut self, data: V) -> (id: usize)
        requires
            old(self).wf_core(),
            old(self).vertices@.len() == old(self).position_ids@.len(),
        ensures
            final(self).wf_core(),
            final(self).vertices@.len() == final(self).position_ids@.len(),
            final(self).sections == old(self).sections,
            final(self).tri_adds == old(self).tri_adds,
            final(self).quad_adds == old(self).quad_adds,
            final(self).loose_resolves == old(self).loose_resolves,
            final(self).pos_log == old(self).pos_log,
            id < final(self).vertices@.len(),
            final(self).position_ids@[id as int] == data.spec_position(),
            final(self).vertices@[id as int].data == data,
            final(self).vertices@[id as int].faces@ == if old(self).has_pos(
                data.spec_position(),
            ) {
                old(self).vertices@[id as int].faces@
            } else {
                Seq::<SectionIndex>::empty()
            },
            forall|v: int|
                0 <= v < old(self).vertices@.len() && v != id ==> final(self).vertices@[v] == old(
                    self,
                ).vertices@[v],
            old(self).has_pos(data.spec_position()) ==> {
                &&& final(self).position_ids == old(self).position_ids
                &&& final(self).vertices@.len() == old(self).vertices@.len()
                &&& final(self).vertices@[id as int].vertex_normal == old(self).vertices@[
                    id as int
                ].vertex_normal
            },
            !old(self).has_pos(data.spec_position()) ==> {
                &&& final(self).position_ids@ == old(self).position_ids@.push(
                    data.spec_position(),
                )
                &&& id == old(self).position_ids@.len()
                &&& final(self).vertices@.len() == old(self).vertices@.len() + 1
            },
    {
        let pos = data.position();
        match self.find_position(pos) {
            Some(i) => {
                self.vertices[i].data = data;
                i
            },
            None => {
                let id = self.next_index;
                self.position_ids.push(pos);
                self.next_index = self.position_ids.len();
                self.vertices.push(MeshVertex { data, faces: Vec::new(), vertex_normal: None });
                proof {
                    lemma_no_duplicates_push(old(self).position_ids@, pos);
                    let pre = *old(self);
                    assert forall|s: int, k: int|
                        0 <= s < self.sections@.len() && 0 <= k
                            < self.sections@[s].faces@.len() implies face_view_wf(
                        (self.sections@[s].faces@[k])@,
                        self.n_vertices(),
                    ) by {
                        assert(face_view_wf((pre.sections@[s].faces@[k])@, pre.n_vertices()));
                    }
                }
                id
            },
        }
    }

    /// Returns the position of section `sid` in the sorted section list,
    /// creating an empty section at its sorted place where it is missing.
    fn ensure_section(&mut self, sid: usize) -> (s: usize)
        requires
            old(self).wf_core(),
        ensures
            final(self).wf_core(),
            s < final(self).sections@.len(),
            final(self).sections@[s as int].id == sid,
            final(self).has_section(sid),
            final(self).section_pos(sid) == s as int,
            final(self).vertices == old(self).vertices,
            final(self).position_ids == old(self).position_ids,
            final(self).next_index == old(self).next_index,
            final(self).tri_adds == old(self).tri_adds,
            final(self).quad_adds == old(self).quad_adds,
            final(self).loose_resolves == old(self).loose_resolves,
            final(self).pos_log == old(self).pos_log,
            old(self).has_section(sid) ==> final(self).sections == old(self).sections,
            final(self).sections@.len() == old(self).sections@.len() + (if old(self).has_section(
                sid,
            ) {
                0int
            } else {
                1int
            }),
            final(self).section_list(sid) == old(self).section_list(sid),
            forall|s2: usize|
                s2 != sid ==> final(self).section_list(s2) == old(self).section_list(s2),
            forall|s2: usize|
                #[trigger] final(self).has_section(s2) <==> old(self).has_section(s2) || s2
                    == sid,
    {
        let ghost pre = *old(self);
        let mut i: usize = 0;
        while i < self.sections.len() && self.sections[i].id < sid
            invariant
                *self == pre,
                i <= self.sections@.len(),
                forall|j: int| 0 <= j < i ==> (#[trigger] self.sections@[j].id) < sid,
            decreases self.sections@.len() - i,
        {
            i = i + 1;
        }
        if i < self.sections.len() && self.sections[i].id == sid {
            proof {
                self.lemma_section_pos_unique(self.section_pos(sid), i as int);
            }
            return i;
        }
        proof {
            // every position right of i holds an id above sid, so sid is new
            assert forall|j: int|
                0 <= j < pre.sections@.len() implies (#[trigger] pre.sections@[j].id) != sid by {
                if j >= i {
                    if i < pre.sections@.len() && j > i {
                        assert(pre.sections@[i as int].id < pre.sections@[j].id);
                    }
                }
            }
            assert(!pre.has_section(sid));
        }
        self.sections.insert(i, SectionFaces { id: sid, faces: Vec::new() });
        proof {
            let post = *self;
            assert forall|a: int, b: int|
                0 <= a < b < post.sections@.len() implies (#[trigger] post.sections@[a].id) < (
            #[trigger] post.sections@[b].id) by {
                if a < i && b > i {
                    assert(pre.sections@[a].id == post.sections@[a].id);
                    assert(pre.sections@[b - 1].id == post.sections@[b].id);
                    assert(pre.sections@[a].id < pre.sections@[b - 1].id);
                } else if b == i {
                    assert(post.sections@[a].id == pre.sections@[a].id);
                    assert(pre.sections@[a].id < sid);
                } else if a == i && b > i {
                    assert(post.sections@[b].id == pre.sections@[b - 1].id);
                    assert(pre.sections@[i as int].id > sid || i == pre.sections@.len());
                    if i < pre.sections@.len() {
                        if b - 1 > i {
                            assert(pre.sections@[i as int].id < pre.sections@[b - 1].id);
                        }
                    }
                }
            }
            self.lemma_views_after_insert(pre, i as int, sid);
            self.lemma_section_pos_unique(self.section_pos(sid), i as int);
        }
        i
    }

    /// After inserting a fresh empty section at position `i`, every other
    /// section keeps its face list, and section membership only gains `sid`.
    proof fn lemma_views_after_insert(self, pre: MeshGeometry<V>, i: int, sid: usize)
        requires
            pre.wf_core(),
            !pre.has_section(sid),
            0 <= i <= pre.sections@.len(),
            self.vertices == pre.vertices,
            self.position_ids == pre.position_ids,
            self.next_index == pre.next_index,
            self.sections@.len() == pre.sections@.len() + 1,
            forall|j: int| 0 <= j < i ==> self.sections@[j] == pre.sections@[j],
            forall|j: int|
                i < j < self.sections@.len() ==> self.sections@[j] == pre.sections@[j - 1],
            self.sections_sorted(),
            self.sections@[i].faces@ == Seq::<Face<V>>::empty(),
            self.sections@[i].id == sid,
        ensures
            self.wf_core(),
            self.has_section(sid),
            self.section_list(sid) == Seq::<Face<V>>::empty(),
            forall|s2: usize| s2 != sid ==> self.section_list(s2) == pre.section_list(s2),
            forall|s2: usize|
                #[trigger] self.has_section(s2) <==> pre.has_section(s2) || s2 == sid,
    {
        assert(self.has_section(sid)) by {
            assert(self.sections@[i].id == sid);
        }
        assert forall|s2: usize| #[trigger] self.has_section(s2) implies pre.has_section(s2) || s2
            == sid by {
            let s = self.section_pos(s2);
            if s < i {
                assert(pre.sections@[s].id == s2);
            } else if s > i {
                assert(pre.sections@[s - 1].id == s2);
            }
        }
        assert forall|s2: usize| pre.has_section(s2) implies self.has_section(s2) by {
            let s = pre.section_pos(s2);
            if s < i {
                assert(self.sections@[s].id == s2);
            } else {
                assert(self.sections@[s + 1].id == s2);
            }
        }
        assert forall|s2: usize| s2 != sid implies self.section_list(s2) == pre.section_list(
            s2,
        ) by {
            if pre.has_section(s2) {
                let s = pre.section_pos(s2);
                if s < i {
                    assert(self.sections@[s].id == s2);
                    self.lemma_section_pos_unique(self.section_pos(s2), s);
                } else {
                    assert(self.sections@[s + 1].id == s2);
                    self.lemma_section_pos_unique(self.section_pos(s2), s + 1);
                }
            }
        }
        assert(self.section_list(sid) == Seq::<Face<V>>::empty()) by {
            self.lemma_section_pos_unique(self.section_pos(sid), i);
        }
        assert(self.faces_wf()) by {
            assert forall|s: int, k: int|
                0 <= s < self.sections@.len() && 0 <= k
                    < self.sections@[s].faces@.len() implies face_view_wf(
                (#[trigger] self.sections@[s].faces@[k])@,
                self.n_vertices(),
            ) by {
                if s < i {
                    assert(self.sections@[s] == pre.sections@[s]);
                } else if s > i {
                    assert(self.sections@[s] == pre.sections@[s - 1]);
                }
            }
        }
        assert(self.backrefs_valid()) by {
            assert forall|v: int, m: int|
                0 <= v < self.n_vertices() && 0 <= m
                    < self.vertices@[v].faces@.len() implies self.backref_ok(
                #[trigger] self.vertices@[v].faces@[m],
                v as usize,
            ) by {
                let si = self.vertices@[v].faces@[m];
                assert(pre.backref_ok(si, v as usize));
                assert(si.section != sid) by {
                    if si.section == sid {
                        assert(pre.section_list(sid).len() == 0);
                    }
                }
            }
        }
        assert(self.backrefs_complete()) by {
            assert forall|s: int, k: int, j: int|
                0 <= s < self.sections@.len() && 0 <= k < self.sections@[s].faces@.len() && 0 <= j
                    < self.sections@[s].faces@[k].vertices@.len() implies self.vertices@[(
                #[trigger] self.sections@[s].faces@[k].vertices@[j]) as int].faces@.contains(
                SectionIndex { section: self.sections@[s].id, index: k as usize },
            ) by {
                if s < i {
                    assert(self.sections@[s] == pre.sections@[s]);
                } else if s > i {
                    assert(self.sections@[s] == pre.sections@[s - 1]);
                }
            }
        }
    }

    /// Appends `face` to section `sid` (creating the section if needed) and
    /// pushes the matching back-reference onto each of its vertices.
    pub(crate) fn attach_face(&mut self, face: Face<V>, sid: usize)
        requires
            old(self).wf_core(),
            face_view_wf(face@, old(self).n_vertices()),
        ensures
            final(self).wf_core(),
            final(self).vertices@.len() == old(self).vertices@.len(),
            forall|v: int|
                0 <= v < old(self).vertices@.len() ==> {
                    &&& (#[trigger] final(self).vertices@[v]).data == old(self).vertices@[v].data
                    &&& final(self).vertices@[v].vertex_normal == old(self).vertices@[
                        v
                    ].vertex_normal
                },
            forall|v: int|
                0 <= v < old(self).vertices@.len() && !face@.verts.contains(v as usize) ==> (
                #[trigger] final(self).vertices@[v]).faces == old(self).vertices@[v].faces,
            forall|v: int|
                0 <= v < old(self).vertices@.len() && face@.verts.contains(v as usize) ==> (
                #[trigger] final(self).vertices@[v]).faces@ == old(self).vertices@[v].faces@.push(
                    SectionIndex {
                        section: sid,
                        index: old(self).section_list(sid).len() as usize,
                    },
                ),
            final(self).section_views(sid) =~= old(self).section_views(sid).push(face@),
            old(self).has_section(sid) ==> {
                &&& final(self).sections@.len() == old(self).sections@.len()
                &&& (forall|p: int|
                    0 <= p < old(self).sections@.len() && p != old(self).section_pos(sid)
                        ==> final(self).sections@[p] == old(self).sections@[p])
                &&& final(self).sections@[old(self).section_pos(sid)].id == sid
                &&& final(self).sections@[old(self).section_pos(sid)].faces@ == old(
                    self,
                ).sections@[old(self).section_pos(sid)].faces@.push(face)
            },
            forall|s2: usize|
                s2 != sid ==> final(self).section_list(s2) == old(self).section_list(s2),
            forall|s2: usize|
                #[trigger] final(self).has_section(s2) <==> old(self).has_section(s2) || s2
                    == sid,
            final(self).sections@.len() == old(self).sections@.len() + (if old(self).has_section(
                sid,
            ) {
                0int
            } else {
                1int
            }),
            final(self).position_ids == old(self).position_ids,
            final(self).next_index == old(self).next_index,
            final(self).tri_adds == old(self).tri_adds,
            final(self).quad_adds == old(self).quad_adds,
            final(self).loose_resolves == old(self).loose_resolves,
            final(self).pos_log == old(self).pos_log,
    {
        let ghost fv = face@;
        let ghost pre = *old(self);
        let s = self.ensure_section(sid);
        let ghost mid = *self;
        let k = self.sections[s].faces.len();
        proof {
            assert(mid.section_pos(sid) == s as int);
            assert(k as int == pre.section_list(sid).len());
        }
        // keep the vertex ids: the face itself is moved into the section
        let mut ids: Vec<usize> = Vec::new();
        let mut j: usize = 0;
        while j < face.vertices.len()
            invariant
                j <= face.vertices@.len(),
                ids@ == face.vertices@.take(j as int),
                face@ == fv,
            decreases face.vertices@.len() - j,
        {
            ids.push(face.vertices[j]);
            proof {
                assert(ids@ =~= face.vertices@.take(j + 1));
            }
            j = j + 1;
        }
        proof {
            assert(ids@ =~= fv.verts);
        }
        self.sections[s].faces.push(face);
        let ghost mid2 = *self;
        proof {
            // the push lands in section sid and leaves every other section alone
            assert(mid2.sections@[s as int].id == sid);
            assert(mid2.has_section(sid)) by {
                assert(mid2.sections@[s as int].id == sid);
            }
            mid2.lemma_section_pos_unique(mid2.section_pos(sid), s as int);
            assert(mid2.section_list(sid) == mid2.sections@[s as int].faces@);
            assert(mid2.sections@[s as int].faces@.last()@ == fv);
            assert(mid2.section_list(sid).drop_last() == mid.section_list(sid));
        }
        let si = SectionIndex { section: sid, index: k };
        let mut m: usize = 0;
        while m < ids.len()
            invariant
                m <= ids@.len(),
                ids@ == fv.verts,
                face_view_wf(fv, mid2.n_vertices()),
                si == (SectionIndex { section: sid, index: k }),
                self.sections == mid2.sections,
                self.position_ids == mid2.position_ids,
                self.next_index == mid2.next_index,
                self.tri_adds == mid2.tri_adds,
                self.quad_adds == mid2.quad_adds,
                self.loose_resolves == mid2.loose_resolves,
                self.pos_log == mid2.pos_log,
                self.vertices@.len() == mid2.vertices@.len(),
                forall|v: int|
                    0 <= v < self.vertices@.len() ==> {
                        &&& (#[trigger] self.vertices@[v]).data == mid2.vertices@[v].data
                        &&& self.vertices@[v].vertex_normal == mid2.vertices@[v].vertex_normal
                    },
                forall|v: int|
                    0 <= v < self.vertices@.len() && !fv.verts.take(m as int).contains(v as usize)
                        ==> (#[trigger] self.vertices@[v]).faces == mid2.vertices@[v].faces,
                forall|j2: int|
                    0 <= j2 < m ==> (#[trigger] self.vertices@[fv.verts[j2] as int]).faces@
                        == mid2.vertices@[fv.verts[j2] as int].faces@.push(si),
            decreases ids@.len() - m,
        {
            let v = ids[m];
            self.vertices[v].faces.push(si);
            proof {
                assert(fv.verts.take(m + 1).drop_last() =~= fv.verts.take(m as int));
                assert forall|v2: int|
                    0 <= v2 < self.vertices@.len() && !fv.verts.take(m + 1).contains(
                        v2 as usize,
                    ) implies (#[trigger] self.vertices@[v2]).faces == mid2.vertices@[v2].faces by {
                    assert(fv.verts.take(m + 1)[m as int] == fv.verts[m as int]);
                    assert(v2 as usize != fv.verts[m as int]);
                    if fv.verts.take(m as int).contains(v2 as usize) {
                        let w = choose|w: int|
                            0 <= w < m && fv.verts.take(m as int)[w] == v2 as usize;
                        assert(fv.verts.take(m + 1)[w] == v2 as usize);
                    }
                }
                assert forall|j2: int|
                    0 <= j2 < m + 1 implies (#[trigger] self.vertices@[fv.verts[j2] as int]).faces@
                    == mid2.vertices@[fv.verts[j2] as int].faces@.push(si) by {
                    if j2 < m {
                        assert(fv.verts[j2] != fv.verts[m as int]);
                    }
                }
            }
            m = m + 1;
        }
        proof {
            assert(fv.verts.take(fv.verts.len() as int) =~= fv.verts);
            let post = *self;
            // the face push only changed position s, and kept every id
            assert forall|p: int|
                0 <= p < post.sections@.len() implies (#[trigger] post.sections@[p].id)
                == mid.sections@[p].id by {
                if p != s as int {
                    assert(post.sections@[p] == mid.sections@[p]);
                }
            }
            assert forall|s2: usize| #[trigger]
                post.has_section(s2) <==> mid.has_section(s2) by {
                if post.has_section(s2) {
                    let p = post.section_pos(s2);
                    assert(mid.sections@[p].id == s2);
                }
                if mid.has_section(s2) {
                    let p = mid.section_pos(s2);
                    assert(post.sections@[p].id == s2);
                }
            }
            // every section but sid keeps its face list
            assert forall|s2: usize| s2 != sid implies post.section_list(s2) == pre.section_list(
                s2,
            ) by {
                if post.has_section(s2) {
                    let p2 = post.section_pos(s2);
                    assert(post.sections@[p2].id == s2);
                    assert(p2 != s as int);
                    assert(post.sections@[p2] == mid.sections@[p2]);
                    mid.lemma_section_pos_unique(mid.section_pos(s2), p2);
                    assert(mid.section_list(s2) == pre.section_list(s2));
                }
            }
            // section sid gained exactly the new face at position k
            assert(post.section_pos(sid) == s as int) by {
                assert(post.sections@[s as int].id == sid);
                post.lemma_section_pos_unique(post.section_pos(sid), s as int);
            }
            assert(post.section_list(sid) == mid.section_list(sid).push(
                post.section_list(sid).last(),
            ));
            assert(post.section_list(sid).last()@ == fv);
            assert(post.section_list(sid).len() == k + 1);
            assert(mid.section_list(sid) == pre.section_list(sid));
            assert(post.section_views(sid) =~= pre.section_views(sid).push(fv)) by {
                assert forall|k2: int|
                    0 <= k2 < k implies post.section_list(sid)[k2] == pre.section_list(
                    sid,
                )[k2] by {
                }
            }
            // bidirectional consistency, with the state after ensure_section
            // as the baseline
            assert(post.backrefs_valid()) by {
                assert forall|v: int, m2: int|
                    0 <= v < post.n_vertices() && 0 <= m2
                        < post.vertices@[v].faces@.len() implies post.backref_ok(
                    #[trigger] post.vertices@[v].faces@[m2],
                    v as usize,
                ) by {
                    let lst = post.vertices@[v].faces@;
                    let si2 = lst[m2];
                    if fv.verts.contains(v as usize) && m2 == lst.len() - 1 {
                        let w = choose|w: int| 0 <= w < fv.verts.len() && fv.verts[w] == v as usize;
                        assert(si2 == si);
                        assert(post.section_list(sid)[k as int]@ == fv);
                    } else {
                        assert(mid.backref_ok(si2, v as usize)) by {
                            if fv.verts.contains(v as usize) {
                                assert(lst == mid.vertices@[v].faces@.push(si));
                                assert(mid.vertices@[v].faces@[m2] == si2);
                            } else {
                                assert(lst == mid.vertices@[v].faces@);
                            }
                        }
                        if si2.section == sid {
                            assert(si2.index < k);
                            assert(post.section_list(sid)[si2.index as int] == mid.section_list(
                                sid,
                            )[si2.index as int]);
                        } else {
                            assert(post.section_list(si2.section) == pre.section_list(
                                si2.section,
                            ));
                            assert(mid.section_list(si2.section) == pre.section_list(si2.section));
                        }
                    }
                }
            }
            assert(post.backrefs_unique()) by {
                assert forall|v: int|
                    0 <= v < post.n_vertices() implies (
                #[trigger] post.vertices@[v].faces@).no_duplicates() by {
                    if fv.verts.contains(v as usize) {
                        assert(!mid.vertices@[v].faces@.contains(si)) by {
                            if mid.vertices@[v].faces@.contains(si) {
                                let w = choose|w: int|
                                    0 <= w < mid.vertices@[v].faces@.len() && mid.vertices@[
                                        v
                                    ].faces@[w] == si;
                                assert(mid.backref_ok(si, v as usize));
                                assert(si.index < mid.section_list(sid).len());
                            }
                        }
                        lemma_no_duplicates_push(mid.vertices@[v].faces@, si);
                        assert(post.vertices@[v].faces@ == mid.vertices@[v].faces@.push(si));
                    }
                }
            }
            assert(post.backrefs_complete()) by {
                assert forall|s2: int, k2: int, i2: int|
                    0 <= s2 < post.sections@.len() && 0 <= k2 < post.sections@[s2].faces@.len()
                        && 0 <= i2
                        < post.sections@[s2].faces@[k2].vertices@.len() implies post.vertices@[(
                #[trigger] post.sections@[s2].faces@[k2].vertices@[i2]) as int].faces@.contains(
                    SectionIndex { section: post.sections@[s2].id, index: k2 as usize },
                ) by {
                    let vv = post.sections@[s2].faces@[k2].vertices@[i2];
                    let target = SectionIndex {
                        section: post.sections@[s2].id,
                        index: k2 as usize,
                    };
                    if s2 == s as int && k2 == k as int {
                        // the new face: its corners just received this reference
                        assert(post.sections@[s2].faces@[k2]@ == fv);
                        assert(fv.verts.contains(vv)) by {
                            assert(fv.verts[i2] == vv);
                        }
                        assert(vv < post.n_vertices());
                        assert(post.vertices@[vv as int].faces@ == mid.vertices@[
                            vv as int
                        ].faces@.push(si));
                        assert(post.vertices@[vv as int].faces@.last() == si);
                        assert(target == si);
                    } else {
                        // an old face: the reference was present and pushes keep it
                        assert(mid.sections@[s2].faces@[k2] == post.sections@[s2].faces@[k2]) by {
                            if s2 == s as int {
                                assert(post.section_list(sid)[k2] == mid.section_list(sid)[k2]);
                            } else {
                                assert(post.sections@[s2] == mid.sections@[s2]);
                            }
                        }
                        assert(mid.vertices@[vv as int].faces@.contains(target));
                        let w = choose|w: int|
                            0 <= w < mid.vertices@[vv as int].faces@.len() && mid.vertices@[
                                vv as int
                            ].faces@[w] == target;
                        assert(post.vertices@[vv as int].faces@[w] == target);
                    }
                }
            }
            assert(post.faces_wf()) by {
                assert forall|s2: int, k2: int|
                    0 <= s2 < post.sections@.len() && 0 <= k2
                        < post.sections@[s2].faces@.len() implies face_view_wf(
                    (#[trigger] post.sections@[s2].faces@[k2])@,
                    post.n_vertices(),
                ) by {
                    if s2 == s as int && k2 == k as int {
                        assert(post.sections@[s2].faces@[k2]@ == fv);
                    } else {
                        assert(mid.sections@[s2].faces@[k2] == post.sections@[s2].faces@[k2]) by {
                            if s2 == s as int {
                                assert(post.section_list(sid)[k2] == mid.section_list(sid)[k2]);
                            } else {
                                assert(post.sections@[s2] == mid.sections@[s2]);
                            }
                        }
                        assert(face_view_wf((mid.sections@[s2].faces@[k2])@, mid.n_vertices()));
                    }
                }
            }
            if pre.has_section(sid) {
                assert(mid == pre);
                assert(pre.section_pos(sid) == s as int);
                assert(post.sections@[s as int].id == sid);
            }
        }
    }

    /// Adds a triangle face from three payloads, with per-face
    /// configuration. The corner positions are deduplicated into vertex
    /// ids; the face is rejected, and the geometry left untouched, exactly
    /// when two corners carry bit-identical positions.
    #[verifier::rlimit(60)]
    pub fn add_face3_data(&mut self, v1: V, v2: V, v3: V, data: FaceDataProps<V>) -> (r: Result<
        (),
        MeshError,
    >)
        requires
            old(self).wf(),
        ensures
            final(self).wf(),
            r is Err <==> (v1.spec_position() == v2.spec_position() || v1.spec_position()
                == v3.spec_position() || v2.spec_position() == v3.spec_position()),
            r is Err ==> *final(self) == *old(self) && r == Result::<(), MeshError>::Err(
                MeshError::InvalidFace,
            ),
            r is Ok ==> {
                let sid = spec_target_section(data);
                let p1 = v1.spec_position();
                let p2 = v2.spec_position();
                let p3 = v3.spec_position();
                let id1 = final(self).pos_id(p1);
                let id2 = final(self).pos_id(p2);
                let id3 = final(self).pos_id(p3);
                &&& final(self).section_views(sid) =~= old(self).section_views(sid).push(
                    (FaceView {
                        verts: seq![id1 as usize, id2 as usize, id3 as usize],
                        normal: data.normal,
                        data: data.data,
                    }),
                )
                &&& (forall|s2: usize|
                    s2 != sid ==> final(self).section_views(s2) == old(self).section_views(s2))
                &&& final(self).has_pos(p1) && final(self).has_pos(p2) && final(self).has_pos(p3)
                &&& (forall|pos: Vec3Bits|
                    #[trigger] final(self).has_pos(pos) <==> old(self).has_pos(pos) || pos == p1
                        || pos == p2 || pos == p3)
                &&& (forall|pos: Vec3Bits|
                    old(self).has_pos(pos) ==> final(self).pos_id(pos) == old(self).pos_id(pos))
                &&& final(self).vertices@[id1].data == v1
                &&& final(self).vertices@[id2].data == v2
                &&& final(self).vertices@[id3].data == v3
                &&& (forall|v: int|
                    0 <= v < old(self).vertices@.len() && v != id1 && v != id2 && v != id3 ==> (
                    #[trigger] final(self).vertices@[v]).data == old(self).vertices@[v].data)
                &&& (old(self).vertices@.len() == old(self).position_ids@.len()
                    ==> final(self).vertices@.len() == final(self).position_ids@.len())
                &&& old(self).vertices@.len() <= final(self).vertices@.len()
                &&& final(self).sections@.len() == old(self).sections@.len() + (if old(
                    self,
                ).has_section(sid) {
                    0int
                } else {
                    1int
                })
                &&& (forall|s2: usize|
                    #[trigger] final(self).has_section(s2) <==> old(self).has_section(s2) || s2
                        == sid)
                &&& final(self).tri_adds@ == old(self).tri_adds@ + 1
                &&& final(self).quad_adds@ == old(self).quad_adds@
                &&& final(self).loose_resolves@ == old(self).loose_resolves@
                &&& final(self).pos_log@ == old(self).pos_log@ + seq![p1, p2, p3]
            },
    {
        let p1 = v1.position();
        let p2 = v2.position();
        let p3 = v3.position();
        if p1 == p2 || p1 == p3 || p2 == p3 {
            return Err(MeshError::InvalidFace);
        }
        self.materialize_pending(&v1);
        let ghost g0 = *self;
        let id1 = self.resolve_vertex(v1);
        let ghost g1 = *self;
        let id2 = self.resolve_vertex(v2);
        let ghost g2 = *self;
        let id3 = self.resolve_vertex(v3);
        let ghost g3 = *self;
        proof {
            assert(g3.position_ids@[id1 as int] == p1);
            assert(g3.position_ids@[id2 as int] == p2);
            assert(g3.position_ids@[id3 as int] == p3);
        }
        let sid = match data.section {
            Some(s) => s,
            None => 0,
        };
        let mut verts: Vec<usize> = Vec::new();
        verts.push(id1);
        verts.push(id2);
        verts.push(id3);
        let face = Face { vertices: verts, face_normal: data.normal, data: data.data };
        proof {
            assert(face@.verts =~= seq![id1, id2, id3]);
            assert(face_view_wf(face@, g3.n_vertices()));
        }
        self.attach_face(face, sid);
        let ghost g4 = *self;
        self.tri_adds = Ghost(self.tri_adds@ + 1);
        self.pos_log = Ghost(self.pos_log@ + seq![p1, p2, p3]);
        proof {
            g3.lemma_same_sections(*old(self));
            self.lemma_same_sections(g4);
            assert forall|s2: usize| s2 != sid implies self.section_views(s2) == old(
                self,
            ).section_views(s2) by {
                assert(self.section_list(s2) == g4.section_list(s2));
                assert(g4.section_list(s2) == g3.section_list(s2));
                assert(g3.section_list(s2) == old(self).section_list(s2));
            }
            assert(self.section_views(sid) =~= old(self).section_views(sid).push(face@)) by {
                assert(self.section_list(sid) == g4.section_list(sid));
                assert(g4.section_views(sid) =~= g3.section_views(sid).push(face@));
                assert(g3.section_list(sid) == old(self).section_list(sid));
            }
            assert forall|s2: usize| #[trigger]
                self.has_section(s2) <==> old(self).has_section(s2) || s2 == sid by {
                assert(self.has_section(s2) <==> g4.has_section(s2));
                assert(g4.has_section(s2) <==> g3.has_section(s2) || s2 == sid);
                assert(g3.has_section(s2) <==> old(self).has_section(s2));
            }
            self.lemma_log_after_three(*old(self), g0, g1, g2, g3, p1, p2, p3);
            assert(self.pos_id(p1) == id1 as int && self.pos_id(p2) == id2 as int && self.pos_id(
                p3,
            ) == id3 as int) by {
                self.lemma_pos_id_at(id1 as int, p1);
                self.lemma_pos_id_at(id2 as int, p2);
                self.lemma_pos_id_at(id3 as int, p3);
            }
            assert forall|pos: Vec3Bits| old(self).has_pos(pos) implies self.pos_id(pos) == old(
                self,
            ).pos_id(pos) by {
                let i = old(self).pos_id(pos);
                old(self).lemma_pos_id_at(i, pos);
                assert(self.position_ids@[i] == pos);
                self.lemma_pos_id_at(i, pos);
            }
        }
        Ok(())
    }

    /// Two states with the same section store agree on every section view.
    proof fn lemma_same_sections(self, other: MeshGeometry<V>)
        requires
            self.sections == other.sections,
            self.sections_sorted(),
        ensures
            forall|s2: usize| #[trigger]
                self.section_list(s2) == other.section_list(s2),
            forall|s2: usize| #[trigger] self.has_section(s2) <==> other.has_section(s2),
    {
        assert forall|s2: usize| #[trigger] self.section_list(s2) == other.section_list(s2) by {
            if self.has_section(s2) {
                let p = self.section_pos(s2);
                assert(other.sections@[p].id == s2);
                let q = other.section_pos(s2);
                assert(self.sections@[q].id == s2);
                self.lemma_section_pos_unique(p, q);
            } else {
                if other.has_section(s2) {
                    let q = other.section_pos(s2);
                    assert(self.sections@[q].id == s2);
                }
            }
        }
        assert forall|s2: usize| #[trigger] self.has_section(s2) <==> other.has_section(s2) by {
            if self.has_section(s2) {
                let p = self.section_pos(s2);
                assert(other.sections@[p].id == s2);
            }
            if other.has_section(s2) {
                let q = other.section_pos(s2);
                assert(self.sections@[q].id == s2);
            }
        }
    }

    /// Adds a quad face from four payloads, with per-face configuration.
    /// The face is rejected, and the geometry left untouched, exactly when
    /// two corners carry bit-identical positions.
    #[verifier::rlimit(60)]
    pub fn add_face4_data(&mut self, v1: V, v2: V, v3: V, v4: V, data: FaceDataProps<V>) -> (r:
        Result<(), MeshError>)
        requires
            old(self).wf(),
        ensures
            final(self).wf(),
            r is Err <==> (v1.spec_position() == v2.spec_position() || v1.spec_position()
                == v3.spec_position() || v1.spec_position() == v4.spec_position()
                || v2.spec_position() == v3.spec_position() || v2.spec_position()
                == v4.spec_position() || v3.spec_position() == v4.spec_position()),
            r is Err ==> *final(self) == *old(self) && r == Result::<(), MeshError>::Err(
                MeshError::InvalidFace,
            ),
            r is Ok ==> {
                let sid = spec_target_section(data);
                let p1 = v1.spec_position();
                let p2 = v2.spec_position();
                let p3 = v3.spec_position();
                let p4 = v4.spec_position();
                let id1 = final(self).pos_id(p1);
                let id2 = final(self).pos_id(p2);
                let id3 = final(self).pos_id(p3);
                let id4 = final(self).pos_id(p4);
                &&& final(self).section_views(sid) =~= old(self).section_views(sid).push(
                    (FaceView {
                        verts: seq![id1 as usize, id2 as usize, id3 as usize, id4 as usize],
                        normal: data.normal,
                        data: data.data,
                    }),
                )
                &&& (forall|s2: usize|
                    s2 != sid ==> final(self).section_views(s2) == old(self).section_views(s2))
                &&& final(self).has_pos(p1) && final(self).has_pos(p2) && final(self).has_pos(p3)
                    && final(self).has_pos(p4)
                &&& (forall|pos: Vec3Bits|
                    #[trigger] final(self).has_pos(pos) <==> old(self).has_pos(pos) || pos == p1
                        || pos == p2 || pos == p3 || pos == p4)
                &&& (forall|pos: Vec3Bits|
                    old(self).has_pos(pos) ==> final(self).pos_id(pos) == old(self).pos_id(pos))
                &&& final(self).vertices@[id1].data == v1
                &&& final(self).vertices@[id2].data == v2
                &&& final(self).vertices@[id3].data == v3
                &&& final(self).vertices@[id4].data == v4
                &&& (forall|v: int|
                    0 <= v < old(self).vertices@.len() && v != id1 && v != id2 && v != id3 && v
                        != id4 ==> (#[trigger] final(self).vertices@[v]).data == old(
                        self,
                    ).vertices@[v].data)
                &&& (old(self).vertices@.len() == old(self).position_ids@.len()
                    ==> final(self).vertices@.len() == final(self).position_ids@.len())
                &&& old(self).vertices@.len() <= final(self).vertices@.len()
                &&& final(self).sections@.len() == old(self).sections@.len() + (if old(
                    self,
                ).has_section(sid) {
                    0int
                } else {
                    1int
                })
                &&& (forall|s2: usize|
                    #[trigger] final(self).has_section(s2) <==> old(self).has_section(s2) || s2
                        == sid)
                &&& final(self).tri_adds@ == old(self).tri_adds@
                &&& final(self).quad_adds@ == old(self).quad_adds@ + 1
                &&& final(self).loose_resolves@ == old(self).loose_resolves@
                &&& final(self).pos_log@ == old(self).pos_log@ + seq![p1, p2, p3, p4]
            },
    {
        let p1 = v1.position();
        let p2 = v2.position();
        let p3 = v3.position();
        let p4 = v4.position();
        if p1 == p2 || p1 == p3 || p1 == p4 || p2 == p3 || p2 == p4 || p3 == p4 {
            return Err(MeshError::InvalidFace);
        }
        self.materialize_pending(&v1);
        let ghost g0 = *self;
        let id1 = self.resolve_vertex(v1);
        let ghost g1 = *self;
        let id2 = self.resolve_vertex(v2);
        let ghost g2 = *self;
        let id3 = self.resolve_vertex(v3);
        let ghost g3 = *self;
        let id4 = self.resolve_vertex(v4);
        let ghost g4 = *self;
        proof {
            assert(g4.position_ids@[id1 as int] == p1);
            assert(g4.position_ids@[id2 as int] == p2);
            assert(g4.position_ids@[id3 as int] == p3);
            assert(g4.position_ids@[id4 as int] == p4);
        }
        let sid = match data.section {
            Some(s) => s,
            None => 0,
        };
        let mut verts: Vec<usize> = Vec::new();
        verts.push(id1);
        verts.push(id2);
        verts.push(id3);
        verts.push(id4);
        let face = Face { vertices: verts, face_normal: data.normal, data: data.data };
        proof {
            assert(face@.verts =~= seq![id1, id2, id3, id4]);
            assert(face_view_wf(face@, g4.n_vertices()));
        }
        self.attach_face(face, sid);
        let ghost g5 = *self;
        self.quad_adds = Ghost(self.quad_adds@ + 1);
        self.pos_log = Ghost(self.pos_log@ + seq![p1, p2, p3, p4]);
        proof {
            g4.lemma_same_sections(*old(self));
            self.lemma_same_sections(g5);
            assert forall|s2: usize| s2 != sid implies self.section_views(s2) == old(
                self,
            ).section_views(s2) by {
                assert(self.section_list(s2) == g5.section_list(s2));
                assert(g5.section_list(s2) == g4.section_list(s2));
                assert(g4.section_list(s2) == old(self).section_list(s2));
            }
            assert(self.section_views(sid) =~= old(self).section_views(sid).push(face@)) by {
                assert(self.section_list(sid) == g5.section_list(sid));
                assert(g5.section_views(sid) =~= g4.section_views(sid).push(face@));
                assert(g4.section_list(sid) == old(self).section_list(sid));
            }
            assert forall|s2: usize| #[trigger]
                self.has_section(s2) <==> old(self).has_section(s2) || s2 == sid by {
                assert(self.has_section(s2) <==> g5.has_section(s2));
                assert(g5.has_section(s2) <==> g4.has_section(s2) || s2 == sid);
                assert(g4.has_section(s2) <==> old(self).has_section(s2));
            }
            self.lemma_log_after_four(*old(self), g0, g1, g2, g3, g4, p1, p2, p3, p4);
            assert(self.pos_id(p1) == id1 as int && self.pos_id(p2) == id2 as int && self.pos_id(
                p3,
            ) == id3 as int && self.pos_id(p4) == id4 as int) by {
                self.lemma_pos_id_at(id1 as int, p1);
                self.lemma_pos_id_at(id2 as int, p2);
                self.lemma_pos_id_at(id3 as int, p3);
                self.lemma_pos_id_at(id4 as int, p4);
            }
            assert forall|pos: Vec3Bits| old(self).has_pos(pos) implies self.pos_id(pos) == old(
                self,
            ).pos_id(pos) by {
                let i = old(self).pos_id(pos);
                old(self).lemma_pos_id_at(i, pos);
                assert(self.position_ids@[i] == pos);
                self.lemma_pos_id_at(i, pos);
            }
        }
        Ok(())
    }

    /// Ghost accounting for one face addition of four corners.
    proof fn lemma_log_after_four(
        self,
        orig: MeshGeometry<V>,
        g0: MeshGeometry<V>,
        g1: MeshGeometry<V>,
        g2: MeshGeometry<V>,
        g3: MeshGeometry<V>,
        g4: MeshGeometry<V>,
        p1: Vec3Bits,
        p2: Vec3Bits,
        p3: Vec3Bits,
        p4: Vec3Bits,
    )
        requires
            orig.log_wf(),
            g0.position_ids == orig.position_ids,
            g0.pos_log == orig.pos_log,
            g0.tri_adds == orig.tri_adds,
            g0.quad_adds == orig.quad_adds,
            g0.loose_resolves == orig.loose_resolves,
            g1.position_ids@ == if g0.has_pos(p1) {
                g0.position_ids@
            } else {
                g0.position_ids@.push(p1)
            },
            g2.position_ids@ == if g1.has_pos(p2) {
                g1.position_ids@
            } else {
                g1.position_ids@.push(p2)
            },
            g3.position_ids@ == if g2.has_pos(p3) {
                g2.position_ids@
            } else {
                g2.position_ids@.push(p3)
            },
            g4.position_ids@ == if g3.has_pos(p4) {
                g3.position_ids@
            } else {
                g3.position_ids@.push(p4)
            },
            self.position_ids == g4.position_ids,
            self.pos_log@ == orig.pos_log@ + seq![p1, p2, p3, p4],
            self.tri_adds@ == orig.tri_adds@,
            self.quad_adds@ == orig.quad_adds@ + 1,
            self.loose_resolves@ == orig.loose_resolves@,
        ensures
            self.pos_log@.to_set() == self.position_ids@.to_set(),
            self.pos_log@.len() == 3 * self.tri_adds@ + 4 * self.quad_adds@
                + self.loose_resolves@,
            forall|pos: Vec3Bits|
                #[trigger] self.has_pos(pos) <==> orig.has_pos(pos) || pos == p1 || pos == p2
                    || pos == p3 || pos == p4,
    {
        assert(self.pos_log@ =~= orig.pos_log@.push(p1).push(p2).push(p3).push(p4));
        lemma_to_set_push(orig.pos_log@, p1);
        lemma_to_set_push(orig.pos_log@.push(p1), p2);
        lemma_to_set_push(orig.pos_log@.push(p1).push(p2), p3);
        lemma_to_set_push(orig.pos_log@.push(p1).push(p2).push(p3), p4);
        if !g0.has_pos(p1) {
            lemma_to_set_push(g0.position_ids@, p1);
        }
        if !g1.has_pos(p2) {
            lemma_to_set_push(g1.position_ids@, p2);
        }
        if !g2.has_pos(p3) {
            lemma_to_set_push(g2.position_ids@, p3);
        }
        if !g3.has_pos(p4) {
            lemma_to_set_push(g3.position_ids@, p4);
        }
        assert(self.pos_log@.to_set() =~= self.position_ids@.to_set()) by {
            assert(self.pos_log@.to_set() == orig.pos_log@.to_set().insert(p1).insert(p2).insert(
                p3,
            ).insert(p4));
            assert forall|pos: Vec3Bits| #[trigger]
                self.position_ids@.to_set().contains(pos) implies orig.position_ids@.to_set()
                .insert(p1).insert(p2).insert(p3).insert(p4).contains(pos) by {}
            assert forall|pos: Vec3Bits|
                orig.position_ids@.to_set().insert(p1).insert(p2).insert(p3).insert(p4).contains(
                    pos,
                ) implies #[trigger] self.position_ids@.to_set().contains(pos) by {
                if orig.position_ids@.to_set().contains(pos) {
                    let w = choose|w: int|
                        0 <= w < orig.position_ids@.len() && orig.position_ids@[w] == pos;
                    assert(self.position_ids@[w] == pos);
                } else if pos == p1 {
                    assert(g1.position_ids@.contains(p1)) by {
                        if !g0.has_pos(p1) {
                            assert(g1.position_ids@[g0.position_ids@.len() as int] == p1);
                        }
                    }
                    let w = choose|w: int|
                        0 <= w < g1.position_ids@.len() && g1.position_ids@[w] == pos;
                    assert(self.position_ids@[w] == pos);
                } else if pos == p2 {
                    assert(g2.position_ids@.contains(p2)) by {
                        if !g1.has_pos(p2) {
                            assert(g2.position_ids@[g1.position_ids@.len() as int] == p2);
                        }
                    }
                    let w = choose|w: int|
                        0 <= w < g2.position_ids@.len() && g2.position_ids@[w] == pos;
                    assert(self.position_ids@[w] == pos);
                } else if pos == p3 {
                    assert(g3.position_ids@.contains(p3)) by {
                        if !g2.has_pos(p3) {
                            assert(g3.position_ids@[g2.position_ids@.len() as int] == p3);
                        }
                    }
                    let w = choose|w: int|
                        0 <= w < g3.position_ids@.len() && g3.position_ids@[w] == pos;
                    assert(self.position_ids@[w] == pos);
                } else {
                    assert(g4.position_ids@.contains(p4)) by {
                        if !g3.has_pos(p4) {
                            assert(g4.position_ids@[g3.position_ids@.len() as int] == p4);
                        }
                    }
                }
            }
        }
        assert forall|pos: Vec3Bits| #[trigger]
            self.has_pos(pos) <==> orig.has_pos(pos) || pos == p1 || pos == p2 || pos == p3 || pos
                == p4 by {
            assert(self.has_pos(pos) <==> self.position_ids@.to_set().contains(pos));
            assert(orig.has_pos(pos) <==> orig.position_ids@.to_set().contains(pos));
        }
    }

    /// Adds a triangle face with default configuration.
    pub fn add_face3(&mut self, v1: V, v2: V, v3: V) -> (r: Result<(), MeshError>)
        requires
            old(self).wf(),
        ensures
            final(self).wf(),
            r is Err <==> (v1.spec_position() == v2.spec_position() || v1.spec_position()
                == v3.spec_position() || v2.spec_position() == v3.spec_position()),
            r is Err ==> *final(self) == *old(self),
            r is Ok ==> {
                let id1 = final(self).pos_id(v1.spec_position());
                let id2 = final(self).pos_id(v2.spec_position());
                let id3 = final(self).pos_id(v3.spec_position());
                &&& final(self).section_views(0) =~= old(self).section_views(0).push(
                    (FaceView {
                        verts: seq![id1 as usize, id2 as usize, id3 as usize],
                        normal: None,
                        data: None,
                    }),
                )
                &&& (forall|s2: usize|
                    s2 != 0 ==> final(self).section_views(s2) == old(self).section_views(s2))
                &&& final(self).sections@.len() == old(self).sections@.len() + (if old(
                    self,
                ).has_section(0) {
                    0int
                } else {
                    1int
                })
                &&& (forall|s2: usize|
                    #[trigger] final(self).has_section(s2) <==> old(self).has_section(s2) || s2
                        == 0)
                &&& final(self).tri_adds@ == old(self).tri_adds@ + 1
                &&& final(self).quad_adds@ == old(self).quad_adds@
                &&& final(self).loose_resolves@ == old(self).loose_resolves@
            },
    {
        self.add_face3_data(v1, v2, v3, FaceDataProps::default())
    }

    /// Adds a quad face with default configuration.
    pub fn add_face4(&mut self, v1: V, v2: V, v3: V, v4: V) -> (r: Result<(), MeshError>)
        requires
            old(self).wf(),
        ensures
            final(self).wf(),
            r is Err <==> (v1.spec_position() == v2.spec_position() || v1.spec_position()
                == v3.spec_position() || v1.spec_position() == v4.spec_position()
                || v2.spec_position() == v3.spec_position() || v2.spec_position()
                == v4.spec_position() || v3.spec_position() == v4.spec_position()),
            r is Err ==> *final(self) == *old(self),
            r is Ok ==> {
                let id1 = final(self).pos_id(v1.spec_position());
                let id2 = final(self).pos_id(v2.spec_position());
                let id3 = final(self).pos_id(v3.spec_position());
                let id4 = final(self).pos_id(v4.spec_position());
                &&& final(self).section_views(0) =~= old(self).section_views(0).push(
                    (FaceView {
                        verts: seq![id1 as usize, id2 as usize, id3 as usize, id4 as usize],
                        normal: None,
                        data: None,
                    }),
                )
                &&& (forall|s2: usize|
                    s2 != 0 ==> final(self).section_views(s2) == old(self).section_views(s2))
                &&& final(self).sections@.len() == old(self).sections@.len() + (if old(
                    self,
                ).has_section(0) {
                    0int
                } else {
                    1int
                })
                &&& (forall|s2: usize|
                    #[trigger] final(self).has_section(s2) <==> old(self).has_section(s2) || s2
                        == 0)
                &&& final(self).tri_adds@ == old(self).tri_adds@
                &&& final(self).quad_adds@ == old(self).quad_adds@ + 1
                &&& final(self).loose_resolves@ == old(self).loose_resolves@
            },
    {
        self.add_face4_data(v1, v2, v3, v4, FaceDataProps::default())
    }

    /// The vertex entry that owns id `i`.
    pub fn vertex(&self, i: usize) -> (r: &MeshVertex<V>)
        requires
            i < self.vertices@.len(),
        ensures
            *r == self.vertices@[i as int],
    {
        &self.vertices[i]
    }

    /// Finds the position of section `sid` in the section list.
    fn find_section(&self, sid: usize) -> (r: Option<usize>)
        ensures
            match r {
                Some(s) => s < self.sections@.len() && self.sections@[s as int].id == sid,
                None => !self.has_section(sid),
            },
    {
        let mut s: usize = 0;
        while s < self.sections.len()
            invariant
                s <= self.sections@.len(),
                forall|j: int| 0 <= j < s ==> (#[trigger] self.sections@[j].id) != sid,
            decreases self.sections@.len() - s,
        {
            if self.sections[s].id == sid {
                return Some(s);
            }
            s = s + 1;
        }
        None
    }

    /// The face standing at `idx`.
    pub fn face(&self, idx: SectionIndex) -> (r: &Face<V>)
        requires
            self.sections_sorted(),
            self.valid_section_index(idx),
        ensures
            r@ == self.face_view(idx),
    {
        match self.find_section(idx.section) {
            Some(s) => {
                proof {
                    self.lemma_section_pos_unique(self.section_pos(idx.section), s as int);
                }
                &self.sections[s].faces[idx.index]
            },
            None => {
                proof {
                    assert(self.section_list(idx.section).len() == 0);
                    assert(false);
                }
                unreached()
            },
        }
    }

    /// Overwrites the payload of vertex `vertex_idx`; ids out of range are
    /// ignored.
    pub fn set_vertex(&mut self, vertex_idx: usize, data: V)
        requires
            old(self).wf(),
        ensures
            final(self).wf(),
            vertex_idx < old(self).vertices@.len() ==> {
                &&& final(self).vertices@[vertex_idx as int].data == data
                &&& final(self).vertices@[vertex_idx as int].faces == old(self).vertices@[
                    vertex_idx as int
                ].faces
                &&& final(self).vertices@[vertex_idx as int].vertex_normal == old(
                    self,
                ).vertices@[vertex_idx as int].vertex_normal
                &&& forall|v: int|
                    0 <= v < old(self).vertices@.len() && v != vertex_idx
                        ==> final(self).vertices@[v] == old(self).vertices@[v]
            },
            vertex_idx >= old(self).vertices@.len() ==> *final(self) == *old(self),
            final(self).sections == old(self).sections,
            final(self).vertices@.len() == old(self).vertices@.len(),
            final(self).position_ids == old(self).position_ids,
            final(self).tri_adds == old(self).tri_adds,
            final(self).quad_adds == old(self).quad_adds,
            final(self).loose_resolves == old(self).loose_resolves,
            final(self).pos_log == old(self).pos_log,
    {
        if vertex_idx < self.vertices.len() {
            self.vertices[vertex_idx].data = data;
        }
    }

    /// Removes the back-reference `si` from vertex `v`'s list, keeping the
    /// order of the remaining entries.
    fn remove_backref(&mut self, v: usize, si: SectionIndex)
        requires
            v < old(self).vertices@.len(),
            old(self).vertices@[v as int].faces@.contains(si),
            old(self).vertices@[v as int].faces@.no_duplicates(),
        ensures
            final(self).vertices@.len() == old(self).vertices@.len(),
            forall|w: int|
                0 <= w < old(self).vertices@.len() && w != v ==> final(self).vertices@[w] == old(
                self,
            ).vertices@[w],
            final(self).vertices@[v as int].data == old(self).vertices@[v as int].data,
            final(self).vertices@[v as int].vertex_normal == old(self).vertices@[
                v as int
            ].vertex_normal,
            final(self).vertices@[v as int].faces@ == old(self).vertices@[v as int].faces@.remove(
                old(self).vertices@[v as int].faces@.index_of(si),
            ),
            final(self).sections == old(self).sections,
            final(self).position_ids == old(self).position_ids,
            final(self).next_index == old(self).next_index,
            final(self).tri_adds == old(self).tri_adds,
            final(self).quad_adds == old(self).quad_adds,
            final(self).loose_resolves == old(self).loose_resolves,
            final(self).pos_log == old(self).pos_log,
    {
        let ghost lst = self.vertices@[v as int].faces@;
        proof {
            assert(lst.no_duplicates());
        }
        let mut m: usize = 0;
        while m < self.vertices[v].faces.len()
            invariant
                *self == *old(self),
                v < self.vertices@.len(),
                m <= lst.len(),
                lst.no_duplicates(),
                lst.contains(si),
                lst == self.vertices@[v as int].faces@,
                forall|j: int| 0 <= j < m ==> lst[j] != si,
            decreases lst.len() - m,
        {
            if self.vertices[v].faces[m] == si {
                proof {
                    assert(lst[m as int] == si);
                }
                self.vertices[v].faces.remove(m);
                proof {
                    let io = lst.index_of(si);
                    assert(0 <= io < lst.len() && lst[io] == si);
                    if io != m as int {
                        assert(lst[io] != lst[m as int]);
                    }
                    assert(io == m as int);
                }
                return ;
            }
            m = m + 1;
        }
        proof {
            let w = choose|w: int| 0 <= w < lst.len() && lst[w] == si;
            assert(false);
        }
    }

    /// Rewrites the back-reference `from` of vertex `v` to `to`, in place.
    fn replace_backref(&mut self, v: usize, from: SectionIndex, to: SectionIndex)
        requires
            v < old(self).vertices@.len(),
            old(self).vertices@[v as int].faces@.contains(from),
            old(self).vertices@[v as int].faces@.no_duplicates(),
        ensures
            final(self).vertices@.len() == old(self).vertices@.len(),
            forall|w: int|
                0 <= w < old(self).vertices@.len() && w != v ==> final(self).vertices@[w] == old(
                self,
            ).vertices@[w],
            final(self).vertices@[v as int].data == old(self).vertices@[v as int].data,
            final(self).vertices@[v as int].vertex_normal == old(self).vertices@[
                v as int
            ].vertex_normal,
            final(self).vertices@[v as int].faces@ == old(self).vertices@[v as int].faces@.update(
                old(self).vertices@[v as int].faces@.index_of(from),
                to,
            ),
            final(self).sections == old(self).sections,
            final(self).position_ids == old(self).position_ids,
            final(self).next_index == old(self).next_index,
            final(self).tri_adds == old(self).tri_adds,
            final(self).quad_adds == old(self).quad_adds,
            final(self).loose_resolves == old(self).loose_resolves,
            final(self).pos_log == old(self).pos_log,
    {
        let ghost lst = self.vertices@[v as int].faces@;
        proof {
            assert(lst.no_duplicates());
        }
        let mut m: usize = 0;
        while m < self.vertices[v].faces.len()
            invariant
                *self == *old(self),
                v < self.vertices@.len(),
                m <= lst.len(),
                lst.no_duplicates(),
                lst.contains(from),
                lst == self.vertices@[v as int].faces@,
                forall|j: int| 0 <= j < m ==> lst[j] != from,
            decreases lst.len() - m,
        {
            if self.vertices[v].faces[m] == from {
                proof {
                    assert(lst[m as int] == from);
                }
                self.vertices[v].faces.set(m, to);
                proof {
                    let io = lst.index_of(from);
                    assert(0 <= io < lst.len() && lst[io] == from);
                    if io != m as int {
                        assert(lst[io] != lst[m as int]);
                    }
                    assert(io == m as int);
                }
                return ;
            }
            m = m + 1;
        }
        proof {
            let w = choose|w: int| 0 <= w < lst.len() && lst[w] == from;
            assert(false);
        }
    }

    /// Swap-removes the face at list position `k` of the section standing
    /// at `s`, strips the dead back-reference from the face's vertices, and
    /// rewrites the back-references of the face that moved into the slot.
    #[verifier::rlimit(100)]
    pub(crate) fn remove_face_at(&mut self, s: usize, k: usize)
        requires
            old(self).wf_core(),
            s < old(self).sections@.len(),
            k < old(self).sections@[s as int].faces@.len(),
        ensures
            final(self).wf_core(),
            final(self).sections@.len() == old(self).sections@.len(),
            forall|p: int|
                0 <= p < old(self).sections@.len() && p != s ==> final(self).sections@[p] == old(
                self,
            ).sections@[p],
            final(self).sections@[s as int].id == old(self).sections@[s as int].id,
            final(self).sections@[s as int].faces@ == old(self).sections@[s as int].faces@.update(
                k as int,
                old(self).sections@[s as int].faces@.last(),
            ).drop_last(),
            final(self).vertices@.len() == old(self).vertices@.len(),
            forall|v: int|
                0 <= v < old(self).vertices@.len() ==> {
                    &&& (#[trigger] final(self).vertices@[v]).data == old(self).vertices@[v].data
                    &&& final(self).vertices@[v].vertex_normal == old(self).vertices@[
                        v
                    ].vertex_normal
                },
            ({
                let sid = old(self).sections@[s as int].id;
                let lng = old(self).sections@[s as int].faces@.len() as int;
                let rm = SectionIndex { section: sid, index: k };
                let mv = SectionIndex { section: sid, index: (lng - 1) as usize };
                let rf = old(self).sections@[s as int].faces@[k as int]@.verts;
                let mf = old(self).sections@[s as int].faces@[lng - 1]@.verts;
                forall|v: int|
                    0 <= v < old(self).vertices@.len() ==> {
                        let so = old(self).vertices@[v].faces@.to_set();
                        let sn = (#[trigger] final(self).vertices@[v]).faces@.to_set();
                        &&& (rf.contains(v as usize) && (k as int == lng - 1 || !mf.contains(
                            v as usize,
                        )) ==> sn == so.remove(rm))
                        &&& (k as int != lng - 1 && mf.contains(v as usize) && !rf.contains(
                            v as usize,
                        ) ==> sn == so.remove(mv).insert(rm))
                        &&& (k as int != lng - 1 && mf.contains(v as usize) && rf.contains(
                            v as usize,
                        ) ==> sn == so.remove(mv))
                        &&& (!rf.contains(v as usize) && !mf.contains(v as usize)
                            ==> final(self).vertices@[v].faces == old(self).vertices@[v].faces)
                    }
            }),
            final(self).position_ids == old(self).position_ids,
            final(self).next_index == old(self).next_index,
            final(self).tri_adds == old(self).tri_adds,
            final(self).quad_adds == old(self).quad_adds,
            final(self).loose_resolves == old(self).loose_resolves,
            final(self).pos_log == old(self).pos_log,
    {
        let ghost orig = *old(self);
        let ghost lng = orig.sections@[s as int].faces@.len() as int;
        let ghost rf = orig.sections@[s as int].faces@[k as int]@.verts;
        let ghost mf = orig.sections@[s as int].faces@[lng - 1]@.verts;
        let sid = self.sections[s].id;
        let rm = SectionIndex { section: sid, index: k };
        let ghost mv = SectionIndex { section: sid, index: (lng - 1) as usize };
        let face = self.sections[s].faces.swap_remove(k);
        let ghost mid0 = *self;
        proof {
            assert(face@.verts == rf);
            assert(face_view_wf(face@, orig.n_vertices()));
        }
        let mut i: usize = 0;
        while i < face.vertices.len()
            invariant
                orig.wf_core(),
                i <= rf.len(),
                face@.verts == rf,
                face_view_wf(face@, orig.n_vertices()),
                rm == (SectionIndex { section: orig.sections@[s as int].id, index: k }),
                s < orig.sections@.len(),
                k < orig.sections@[s as int].faces@.len(),
                rf == orig.sections@[s as int].faces@[k as int]@.verts,
                self.sections == mid0.sections,
                self.position_ids == orig.position_ids,
                self.next_index == orig.next_index,
                self.tri_adds == orig.tri_adds,
                self.quad_adds == orig.quad_adds,
                self.loose_resolves == orig.loose_resolves,
                self.pos_log == orig.pos_log,
                self.vertices@.len() == orig.vertices@.len(),
                forall|w: int|
                    0 <= w < orig.vertices@.len() ==> {
                        &&& (#[trigger] self.vertices@[w]).data == orig.vertices@[w].data
                        &&& self.vertices@[w].vertex_normal == orig.vertices@[w].vertex_normal
                    },
                forall|w: int|
                    0 <= w < orig.vertices@.len() && !rf.take(i as int).contains(w as usize) ==> (
                    #[trigger] self.vertices@[w]).faces == orig.vertices@[w].faces,
                forall|j: int|
                    0 <= j < i ==> (#[trigger] self.vertices@[rf[j] as int]).faces@
                        == orig.vertices@[rf[j] as int].faces@.remove(
                        orig.vertices@[rf[j] as int].faces@.index_of(rm),
                    ),
            decreases rf.len() - i,
        {
            let v = face.vertices[i];
            proof {
                assert(rf.take(i as int).contains(rf[i as int]) == false) by {
                    if rf.take(i as int).contains(rf[i as int]) {
                        let w = choose|w: int| 0 <= w < i && rf.take(i as int)[w] == rf[i as int];
                        assert(rf[w] == rf[i as int]);
                    }
                }
                assert(self.vertices@[v as int].faces == orig.vertices@[v as int].faces);
                assert(orig.vertices@[v as int].faces@.contains(rm)) by {
                    assert(orig.sections@[s as int].faces@[k as int].vertices@[i as int] == v);
                }
                assert(orig.vertices@[v as int].faces@.no_duplicates());
            }
            self.remove_backref(v, rm);
            proof {
                assert forall|w: int|
                    0 <= w < orig.vertices@.len() && !rf.take(i + 1).contains(w as usize) implies (
                #[trigger] self.vertices@[w]).faces == orig.vertices@[w].faces by {
                    assert(rf.take(i + 1)[i as int] == rf[i as int]);
                    assert(w as usize != rf[i as int]);
                    if rf.take(i as int).contains(w as usize) {
                        let w2 = choose|w2: int| 0 <= w2 < i && rf.take(i as int)[w2] == w as usize;
                        assert(rf.take(i + 1)[w2] == w as usize);
                    }
                }
                assert forall|j: int|
                    0 <= j < i + 1 implies (#[trigger] self.vertices@[rf[j] as int]).faces@
                    == orig.vertices@[rf[j] as int].faces@.remove(
                    orig.vertices@[rf[j] as int].faces@.index_of(rm),
                ) by {
                    if j < i {
                        assert(rf[j] != rf[i as int]);
                    }
                }
            }
            i = i + 1;
        }
        proof {
            assert(rf.take(rf.len() as int) =~= rf);
        }
        let ghost mid1 = *self;
        let moved_len = self.sections[s].faces.len();
        if k < moved_len {
            // the face formerly at the end now stands at k; collect its ids
            let mut ids: Vec<usize> = Vec::new();
            let nv = self.sections[s].faces[k].vertices.len();
            let mut j: usize = 0;
            while j < nv
                invariant
                    *self == mid1,
                    j <= nv,
                    s < self.sections@.len(),
                    k < self.sections@[s as int].faces@.len(),
                    nv == self.sections@[s as int].faces@[k as int].vertices@.len(),
                    ids@ == self.sections@[s as int].faces@[k as int].vertices@.take(j as int),
                decreases nv - j,
            {
                let id = self.sections[s].faces[k].vertices[j];
                ids.push(id);
                proof {
                    assert(ids@ =~= self.sections@[s as int].faces@[k as int].vertices@.take(
                        j + 1,
                    ));
                }
                j = j + 1;
            }
            proof {
                assert(mid1.sections@[s as int].faces@[k as int] == orig.sections@[s as int].faces@[
                    lng - 1
                ]);
                assert(ids@ =~= mf);
                assert(k as int != lng - 1);
            }
            let mvx = SectionIndex { section: sid, index: moved_len };
            proof {
                assert(moved_len as int == lng - 1);
                assert(lng - 1 <= usize::MAX);
                assert(mvx == mv);
            }
            let mut m2: usize = 0;
            while m2 < ids.len()
                invariant
                    orig.wf_core(),
                    m2 <= mf.len(),
                    ids@ == mf,
                    s < orig.sections@.len(),
                    k < orig.sections@[s as int].faces@.len(),
                    k as int != lng - 1,
                    lng - 1 <= usize::MAX,
                    lng == orig.sections@[s as int].faces@.len() as int,
                    rf == orig.sections@[s as int].faces@[k as int]@.verts,
                    mf == orig.sections@[s as int].faces@[lng - 1]@.verts,
                    face_view_wf(orig.sections@[s as int].faces@[lng - 1]@, orig.n_vertices()),
                    rm == (SectionIndex { section: orig.sections@[s as int].id, index: k }),
                    mvx == mv,
                    mv == (SectionIndex {
                        section: orig.sections@[s as int].id,
                        index: (lng - 1) as usize,
                    }),
                    self.sections == mid1.sections,
                    self.position_ids == orig.position_ids,
                    self.next_index == orig.next_index,
                    self.tri_adds == orig.tri_adds,
                    self.quad_adds == orig.quad_adds,
                    self.loose_resolves == orig.loose_resolves,
                    self.pos_log == orig.pos_log,
                    self.vertices@.len() == orig.vertices@.len(),
                    mid1.vertices@.len() == orig.vertices@.len(),
                    forall|w: int|
                        0 <= w < orig.vertices@.len() ==> {
                            &&& (#[trigger] self.vertices@[w]).data == orig.vertices@[w].data
                            &&& self.vertices@[w].vertex_normal == orig.vertices@[w].vertex_normal
                        },
                    forall|w: int|
                        0 <= w < orig.vertices@.len() && !rf.take(rf.len() as int).contains(
                            w as usize,
                        ) ==> (#[trigger] mid1.vertices@[w]).faces == orig.vertices@[w].faces,
                    forall|j2: int|
                        0 <= j2 < rf.len() ==> (#[trigger] mid1.vertices@[rf[j2] as int]).faces@
                            == orig.vertices@[rf[j2] as int].faces@.remove(
                            orig.vertices@[rf[j2] as int].faces@.index_of(rm),
                        ),
                    forall|w: int|
                        0 <= w < orig.vertices@.len() && !mf.take(m2 as int).contains(w as usize)
                            ==> (#[trigger] self.vertices@[w]).faces == mid1.vertices@[w].faces,
                    forall|j2: int|
                        0 <= j2 < m2 ==> (#[trigger] self.vertices@[mf[j2] as int]).faces@
                            == mid1.vertices@[mf[j2] as int].faces@.update(
                            mid1.vertices@[mf[j2] as int].faces@.index_of(mv),
                            rm,
                        ),
                decreases mf.len() - m2,
            {
                let v = ids[m2];
                proof {
                    assert(mf.take(m2 as int).contains(mf[m2 as int]) == false) by {
                        if mf.take(m2 as int).contains(mf[m2 as int]) {
                            let w = choose|w: int|
                                0 <= w < m2 && mf.take(m2 as int)[w] == mf[m2 as int];
                            assert(mf[w] == mf[m2 as int]);
                        }
                    }
                    assert(self.vertices@[v as int].faces == mid1.vertices@[v as int].faces);
                    assert(orig.vertices@[v as int].faces@.contains(mv)) by {
                        assert(orig.sections@[s as int].faces@[lng - 1].vertices@[m2 as int] == v);
                    }
                    assert(orig.vertices@[v as int].faces@.no_duplicates());
                    if rf.contains(v as usize) {
                        let jr = choose|jr: int| 0 <= jr < rf.len() && rf[jr] == v as usize;
                        assert(mid1.vertices@[v as int].faces@ == orig.vertices@[
                            v as int
                        ].faces@.remove(orig.vertices@[v as int].faces@.index_of(rm)));
                        lemma_to_set_remove(
                            orig.vertices@[v as int].faces@,
                            orig.vertices@[v as int].faces@.index_of(rm),
                        );
                        assert(orig.vertices@[v as int].faces@[orig.vertices@[
                            v as int
                        ].faces@.index_of(rm)] == rm) by {
                            assert(orig.vertices@[v as int].faces@.contains(rm)) by {
                                assert(orig.sections@[s as int].faces@[k as int].vertices@[jr]
                                    == v);
                            }
                        }
                        assert(mid1.vertices@[v as int].faces@.to_set() == orig.vertices@[
                            v as int
                        ].faces@.to_set().remove(rm));
                        assert(mid1.vertices@[v as int].faces@.to_set().contains(mv)) by {
                            assert(mv != rm);
                        }
                        assert(mid1.vertices@[v as int].faces@.contains(mv));
                    } else {
                        assert(mid1.vertices@[v as int].faces == orig.vertices@[v as int].faces)
                            by {
                            if rf.take(rf.len() as int).contains(v as usize) {
                                assert(rf.contains(v as usize));
                            }
                        }
                    }
                    assert(mid1.vertices@[v as int].faces@.no_duplicates());
                }
                self.replace_backref(v, mvx, rm);
                proof {
                    assert forall|w: int|
                        0 <= w < orig.vertices@.len() && !mf.take(m2 + 1).contains(
                            w as usize,
                        ) implies (#[trigger] self.vertices@[w]).faces == mid1.vertices@[w].faces by {
                        assert(mf.take(m2 + 1)[m2 as int] == mf[m2 as int]);
                        assert(w as usize != mf[m2 as int]);
                        if mf.take(m2 as int).contains(w as usize) {
                            let w2 = choose|w2: int|
                                0 <= w2 < m2 && mf.take(m2 as int)[w2] == w as usize;
                            assert(mf.take(m2 + 1)[w2] == w as usize);
                        }
                    }
                    assert forall|j2: int|
                        0 <= j2 < m2 + 1 implies (#[trigger] self.vertices@[mf[j2] as int]).faces@
                        == mid1.vertices@[mf[j2] as int].faces@.update(
                        mid1.vertices@[mf[j2] as int].faces@.index_of(mv),
                        rm,
                    ) by {
                        if j2 < m2 {
                            assert(mf[j2] != mf[m2 as int]);
                        }
                    }
                }
                m2 = m2 + 1;
            }
            proof {
                assert(mf.take(mf.len() as int) =~= mf);
            }
        } else {
            proof {
                assert(k as int == lng - 1);
            }
        }
        proof {
            assert(moved_len as int == lng - 1);
            self.lemma_remove_face_post(orig, mid1, s as int, k as int);
        }
    }

    /// After the strip and patch passes of a face removal, the structural
    /// invariant holds again and each vertex's back-reference set has
    /// changed exactly as the surgery describes.
    #[verifier::rlimit(100)]
    proof fn lemma_remove_face_post(
        self,
        orig: MeshGeometry<V>,
        mid1: MeshGeometry<V>,
        s: int,
        k: int,
    )
        requires
            orig.wf_core(),
            0 <= s < orig.sections@.len(),
            0 <= k < orig.sections@[s].faces@.len(),
            orig.sections@[s].faces@.len() - 1 <= usize::MAX,
            self.sections@.len() == orig.sections@.len(),
            forall|p: int|
                0 <= p < orig.sections@.len() && p != s ==> self.sections@[p] == orig.sections@[p],
            self.sections@[s].id == orig.sections@[s].id,
            self.sections@[s].faces@ == orig.sections@[s].faces@.update(
                k,
                orig.sections@[s].faces@.last(),
            ).drop_last(),
            self.vertices@.len() == orig.vertices@.len(),
            mid1.vertices@.len() == orig.vertices@.len(),
            forall|v: int|
                0 <= v < orig.vertices@.len() ==> {
                    &&& (#[trigger] self.vertices@[v]).data == orig.vertices@[v].data
                    &&& self.vertices@[v].vertex_normal == orig.vertices@[v].vertex_normal
                },
            self.position_ids == orig.position_ids,
            self.next_index == orig.next_index,
            ({
                let lng = orig.sections@[s].faces@.len() as int;
                let rm = SectionIndex { section: orig.sections@[s].id, index: k as usize };
                let mv = SectionIndex {
                    section: orig.sections@[s].id,
                    index: (lng - 1) as usize,
                };
                let rf = orig.sections@[s].faces@[k]@.verts;
                let mf = orig.sections@[s].faces@[lng - 1]@.verts;
                &&& (forall|v: int|
                    0 <= v < orig.vertices@.len() && !rf.contains(v as usize) ==> (
                    #[trigger] mid1.vertices@[v]).faces == orig.vertices@[v].faces)
                &&& (forall|j: int|
                    0 <= j < rf.len() ==> (#[trigger] mid1.vertices@[rf[j] as int]).faces@
                        == orig.vertices@[rf[j] as int].faces@.remove(
                        orig.vertices@[rf[j] as int].faces@.index_of(rm),
                    ))
                &&& (k == lng - 1 ==> forall|v: int|
                    0 <= v < orig.vertices@.len() ==> (#[trigger] self.vertices@[v]).faces
                        == mid1.vertices@[v].faces)
                &&& (k != lng - 1 ==> (forall|v: int|
                    0 <= v < orig.vertices@.len() && !mf.contains(v as usize) ==> (
                    #[trigger] self.vertices@[v]).faces == mid1.vertices@[v].faces))
                &&& (k != lng - 1 ==> (forall|j: int|
                    0 <= j < mf.len() ==> (#[trigger] self.vertices@[mf[j] as int]).faces@
                        == mid1.vertices@[mf[j] as int].faces@.update(
                        mid1.vertices@[mf[j] as int].faces@.index_of(mv),
                        rm,
                    )))
            }),
        ensures
            self.wf_core(),
            ({
                let lng = orig.sections@[s].faces@.len() as int;
                let rm = SectionIndex { section: orig.sections@[s].id, index: k as usize };
                let mv = SectionIndex {
                    section: orig.sections@[s].id,
                    index: (lng - 1) as usize,
                };
                let rf = orig.sections@[s].faces@[k]@.verts;
                let mf = orig.sections@[s].faces@[lng - 1]@.verts;
                forall|v: int|
                    0 <= v < orig.vertices@.len() ==> {
                        let so = orig.vertices@[v].faces@.to_set();
                        let sn = (#[trigger] self.vertices@[v]).faces@.to_set();
                        &&& (rf.contains(v as usize) && (k == lng - 1 || !mf.contains(v as usize))
                            ==> sn == so.remove(rm))
                        &&& (k != lng - 1 && mf.contains(v as usize) && !rf.contains(v as usize)
                            ==> sn == so.remove(mv).insert(rm))
                        &&& (k != lng - 1 && mf.contains(v as usize) && rf.contains(v as usize)
                            ==> sn == so.remove(mv))
                        &&& (!rf.contains(v as usize) && !mf.contains(v as usize)
                            ==> self.vertices@[v].faces == orig.vertices@[v].faces)
                    }
            }),
    {
        let lng = orig.sections@[s].faces@.len() as int;
        let sid = orig.sections@[s].id;
        let rm = SectionIndex { section: sid, index: k as usize };
        let mv = SectionIndex { section: sid, index: (lng - 1) as usize };
        let rf = orig.sections@[s].faces@[k]@.verts;
        let mf = orig.sections@[s].faces@[lng - 1]@.verts;
        let n = orig.vertices@.len() as int;
        assert(k as usize as int == k);
        assert((lng - 1) as usize as int == lng - 1);
        // membership facts about the original lists
        assert forall|v: int| 0 <= v < n implies {
            &&& (orig.vertices@[v].faces@.contains(rm) <==> rf.contains(v as usize))
            &&& (orig.vertices@[v].faces@.contains(mv) <==> mf.contains(v as usize))
        } by {
            if orig.vertices@[v].faces@.contains(rm) {
                let w = choose|w: int|
                    0 <= w < orig.vertices@[v].faces@.len() && orig.vertices@[v].faces@[w] == rm;
                assert(orig.backref_ok(rm, v as usize));
                assert(orig.section_list(sid) == orig.sections@[s].faces@) by {
                    orig.lemma_section_pos_unique(orig.section_pos(sid), s);
                }
            }
            if rf.contains(v as usize) {
                let w = choose|w: int| 0 <= w < rf.len() && rf[w] == v as usize;
                assert(orig.sections@[s].faces@[k].vertices@[w] == v as usize);
            }
            if orig.vertices@[v].faces@.contains(mv) {
                let w = choose|w: int|
                    0 <= w < orig.vertices@[v].faces@.len() && orig.vertices@[v].faces@[w] == mv;
                assert(orig.backref_ok(mv, v as usize));
                assert(orig.section_list(sid) == orig.sections@[s].faces@) by {
                    orig.lemma_section_pos_unique(orig.section_pos(sid), s);
                }
            }
            if mf.contains(v as usize) {
                let w = choose|w: int| 0 <= w < mf.len() && mf[w] == v as usize;
                assert(orig.sections@[s].faces@[lng - 1].vertices@[w] == v as usize);
            }
        }
        // per-vertex final lists and their element sets
        assert forall|v: int| 0 <= v < n implies {
            let so = orig.vertices@[v].faces@.to_set();
            let sn = (#[trigger] self.vertices@[v]).faces@.to_set();
            &&& self.vertices@[v].faces@.no_duplicates()
            &&& (rf.contains(v as usize) && (k == lng - 1 || !mf.contains(v as usize)) ==> sn
                =~= so.remove(rm))
            &&& (k != lng - 1 && mf.contains(v as usize) && !rf.contains(v as usize) ==> sn
                =~= so.remove(mv).insert(rm))
            &&& (k != lng - 1 && mf.contains(v as usize) && rf.contains(v as usize) ==> sn
                =~= so.remove(mv))
            &&& (!rf.contains(v as usize) && !mf.contains(v as usize) ==> self.vertices@[v].faces
                == orig.vertices@[v].faces)
            &&& (!self.vertices@[v].faces@.contains(mv) || (k == lng - 1 && !rf.contains(
                v as usize,
            )))
            &&& (self.vertices@[v].faces@.contains(rm) ==> k != lng - 1 && mf.contains(v as usize))
        } by {
            let lo = orig.vertices@[v].faces@;
            let so = lo.to_set();
            assert(lo.no_duplicates());
            if rf.contains(v as usize) {
                let jr = choose|jr: int| 0 <= jr < rf.len() && rf[jr] == v as usize;
                assert(mid1.vertices@[rf[jr] as int].faces@ == lo.remove(lo.index_of(rm)));
                assert(lo.contains(rm));
                assert(lo[lo.index_of(rm)] == rm);
                lemma_to_set_remove(lo, lo.index_of(rm));
                assert(mid1.vertices@[v].faces@.to_set() =~= so.remove(rm));
                if k == lng - 1 {
                    assert(self.vertices@[v].faces == mid1.vertices@[v].faces);
                } else if !mf.contains(v as usize) {
                    assert(self.vertices@[v].faces == mid1.vertices@[v].faces);
                } else {
                    // both faces use v: the stripped list is then patched
                    let jm = choose|jm: int| 0 <= jm < mf.len() && mf[jm] == v as usize;
                    let lm = mid1.vertices@[v].faces@;
                    assert(self.vertices@[mf[jm] as int].faces@ == lm.update(
                        lm.index_of(mv),
                        rm,
                    ));
                    assert(lm.contains(mv)) by {
                        assert(lm.to_set().contains(mv)) by {
                            assert(lo.contains(mv));
                            assert(mv != rm);
                        }
                    }
                    assert(lm[lm.index_of(mv)] == mv);
                    assert(!lm.contains(rm)) by {
                        if lm.contains(rm) {
                            assert(lm.to_set().contains(rm));
                        }
                    }
                    lemma_to_set_update(lm, lm.index_of(mv), rm);
                    assert(self.vertices@[v].faces@.to_set() =~= so.remove(rm).remove(mv).insert(
                        rm,
                    ));
                    assert(so.remove(rm).remove(mv).insert(rm) =~= so.remove(mv)) by {
                        assert(so.contains(rm));
                        assert(rm != mv);
                    }
                }
            } else {
                assert(mid1.vertices@[v].faces == orig.vertices@[v].faces);
                if k != lng - 1 && mf.contains(v as usize) {
                    let jm = choose|jm: int| 0 <= jm < mf.len() && mf[jm] == v as usize;
                    let lm = mid1.vertices@[v].faces@;
                    assert(lm == lo);
                    assert(self.vertices@[mf[jm] as int].faces@ == lm.update(
                        lm.index_of(mv),
                        rm,
                    ));
                    assert(lm.contains(mv));
                    assert(lm[lm.index_of(mv)] == mv);
                    assert(!lm.contains(rm));
                    lemma_to_set_update(lm, lm.index_of(mv), rm);
                    assert(self.vertices@[v].faces@.to_set() =~= so.remove(mv).insert(rm));
                } else {
                    assert(self.vertices@[v].faces == mid1.vertices@[v].faces);
                }
            }
            // no list retains the moved face's old slot, and the vacated
            // slot reappears only on the moved face's vertices
            if self.vertices@[v].faces@.contains(mv) {
                assert(self.vertices@[v].faces@.to_set().contains(mv));
                if k != lng - 1 {
                    if mf.contains(v as usize) {
                        assert(false);
                    } else if rf.contains(v as usize) {
                        assert(false);
                    } else {
                        assert(lo.contains(mv));
                        assert(false);
                    }
                } else {
                    if rf.contains(v as usize) {
                        assert(false);
                    }
                }
            }
            if self.vertices@[v].faces@.contains(rm) {
                assert(self.vertices@[v].faces@.to_set().contains(rm));
                if k == lng - 1 {
                    if rf.contains(v as usize) {
                        assert(false);
                    } else {
                        assert(lo.contains(rm));
                        assert(false);
                    }
                } else if !mf.contains(v as usize) {
                    if rf.contains(v as usize) {
                        assert(false);
                    } else {
                        assert(lo.contains(rm));
                        assert(false);
                    }
                }
            }
        }
        // the invariant clauses
        assert(self.sections_sorted());
        assert(self.faces_wf()) by {
            assert forall|s2: int, k2: int|
                0 <= s2 < self.sections@.len() && 0 <= k2
                    < self.sections@[s2].faces@.len() implies face_view_wf(
                (#[trigger] self.sections@[s2].faces@[k2])@,
                self.n_vertices(),
            ) by {
                if s2 == s {
                    if k2 == k {
                        assert(self.sections@[s2].faces@[k2] == orig.sections@[s].faces@[lng - 1]);
                    } else {
                        assert(self.sections@[s2].faces@[k2] == orig.sections@[s].faces@[k2]);
                    }
                }
            }
        }
        assert(self.section_list(sid) == self.sections@[s].faces@) by {
            assert(self.sections@[s].id == sid);
            self.lemma_section_pos_unique(self.section_pos(sid), s);
        }
        assert forall|sid2: usize| sid2 != sid implies self.section_list(sid2) == orig.section_list(
            sid2,
        ) by {
            if self.has_section(sid2) {
                let p = self.section_pos(sid2);
                assert(p != s);
                assert(orig.sections@[p].id == sid2);
                orig.lemma_section_pos_unique(orig.section_pos(sid2), p);
            } else {
                if orig.has_section(sid2) {
                    let p = orig.section_pos(sid2);
                    assert(p != s);
                    assert(self.sections@[p].id == sid2);
                }
            }
        }
        assert(self.backrefs_valid()) by {
            assert forall|v: int, m: int|
                0 <= v < self.n_vertices() && 0 <= m
                    < self.vertices@[v].faces@.len() implies self.backref_ok(
                #[trigger] self.vertices@[v].faces@[m],
                v as usize,
            ) by {
                let si2 = self.vertices@[v].faces@[m];
                assert(self.vertices@[v].faces@.contains(si2));
                assert(self.vertices@[v].faces@.to_set().contains(si2));
                if si2 == rm {
                    // only vertices of the moved face hold the vacated slot
                    assert(k != lng - 1 && mf.contains(v as usize));
                    assert(self.section_list(sid)[k]@ == orig.sections@[s].faces@[lng - 1]@);
                } else {
                    // an untouched reference, already valid before
                    assert(orig.vertices@[v].faces@.to_set().contains(si2)) by {
                        if rf.contains(v as usize) || mf.contains(v as usize) {
                        }
                    }
                    assert(orig.vertices@[v].faces@.contains(si2));
                    let w = choose|w: int|
                        0 <= w < orig.vertices@[v].faces@.len() && orig.vertices@[v].faces@[w]
                            == si2;
                    assert(orig.backref_ok(si2, v as usize));
                    if si2.section == sid {
                        assert(orig.section_list(sid) == orig.sections@[s].faces@) by {
                            orig.lemma_section_pos_unique(orig.section_pos(sid), s);
                        }
                        assert(si2 != mv);
                        assert(si2.index < lng - 1);
                        assert(si2.index != k as usize || si2 == rm);
                        assert(self.section_list(sid)[si2.index as int] == orig.sections@[
                            s
                        ].faces@[si2.index as int]);
                    } else {
                        assert(self.section_list(si2.section) == orig.section_list(si2.section));
                    }
                }
            }
        }
        assert(self.backrefs_unique());
        assert(self.backrefs_complete()) by {
            assert forall|s2: int, k2: int, i2: int|
                0 <= s2 < self.sections@.len() && 0 <= k2 < self.sections@[s2].faces@.len() && 0
                    <= i2 < self.sections@[s2].faces@[k2].vertices@.len() implies self.vertices@[(
            #[trigger] self.sections@[s2].faces@[k2].vertices@[i2]) as int].faces@.contains(
                SectionIndex { section: self.sections@[s2].id, index: k2 as usize },
            ) by {
                let vv = self.sections@[s2].faces@[k2].vertices@[i2];
                let target = SectionIndex { section: self.sections@[s2].id, index: k2 as usize };
                if s2 == s && k2 == k {
                    // the moved face: its vertices were patched to k
                    assert(self.sections@[s2].faces@[k2] == orig.sections@[s].faces@[lng - 1]);
                    assert(mf.contains(vv)) by {
                        assert(mf[i2] == vv);
                    }
                    assert(vv < orig.vertices@.len());
                    assert(target == rm);
                    assert(k != lng - 1);
                    if rf.contains(vv as usize) {
                        assert(self.vertices@[vv as int].faces@.to_set().contains(rm)) by {
                            assert(orig.vertices@[vv as int].faces@.to_set().contains(rm));
                            assert(rm != mv);
                        }
                    } else {
                        assert(self.vertices@[vv as int].faces@.to_set().contains(rm));
                    }
                    assert(self.vertices@[vv as int].faces@.contains(rm));
                } else {
                    let of = if s2 == s && k2 == k {
                        orig.sections@[s].faces@[lng - 1]
                    } else if s2 == s {
                        orig.sections@[s].faces@[k2]
                    } else {
                        orig.sections@[s2].faces@[k2]
                    };
                    assert(self.sections@[s2].faces@[k2] == of);
                    assert(orig.vertices@[vv as int].faces@.contains(target)) by {
                        assert(orig.sections@[s2].faces@[k2].vertices@[i2] == vv);
                    }
                    assert(vv < orig.vertices@.len()) by {
                        assert(face_view_wf(orig.sections@[s2].faces@[k2]@, orig.n_vertices()));
                    }
                    assert(target != rm) by {
                        if s2 == s {
                            assert(k2 != k);
                        } else {
                            assert(self.sections@[s2].id != sid) by {
                                if self.sections@[s2].id == sid {
                                    self.lemma_section_pos_unique(s2, s);
                                }
                            }
                        }
                    }
                    assert(target != mv) by {
                        if s2 == s {
                            assert(k2 < lng - 1);
                        }
                    }
                    assert(self.vertices@[vv as int].faces@.to_set().contains(target)) by {
                        assert(orig.vertices@[vv as int].faces@.to_set().contains(target));
                    }
                    assert(self.vertices@[vv as int].faces@.contains(target));
                }
            }
        }
    }

    /// Removes the face `face_idx` addresses by swap-removal: the last face
    /// of the section moves into the vacated slot and every back-reference
    /// to its old slot is rewritten. Bidirectional consistency is restored
    /// before the call returns.
    pub fn remove_face(&mut self, face_idx: SectionIndex)
        requires
            old(self).wf(),
            old(self).valid_section_index(face_idx),
        ensures
            final(self).wf(),
            final(self).section_views(face_idx.section) =~= old(self).section_views(
                face_idx.section,
            ).update(
                face_idx.index as int,
                old(self).section_views(face_idx.section).last(),
            ).drop_last(),
            forall|s2: usize|
                s2 != face_idx.section ==> final(self).section_views(s2) == old(
                self,
            ).section_views(s2),
            final(self).sections@.len() == old(self).sections@.len(),
            forall|s2: usize|
                #[trigger] final(self).has_section(s2) <==> old(self).has_section(s2),
            final(self).vertices@.len() == old(self).vertices@.len(),
            forall|v: int|
                0 <= v < old(self).vertices@.len() ==> {
                    &&& (#[trigger] final(self).vertices@[v]).data == old(self).vertices@[v].data
                    &&& final(self).vertices@[v].vertex_normal == old(self).vertices@[
                        v
                    ].vertex_normal
                },
            final(self).position_ids == old(self).position_ids,
            final(self).tri_adds == old(self).tri_adds,
            final(self).quad_adds == old(self).quad_adds,
            final(self).loose_resolves == old(self).loose_resolves,
            final(self).pos_log == old(self).pos_log,
    {
        let sid = face_idx.section;
        proof {
            assert(old(self).has_section(sid)) by {
                if !old(self).has_section(sid) {
                    assert(old(self).section_list(sid).len() == 0);
                }
            }
        }
        match self.find_section(sid) {
            Some(s) => {
                proof {
                    self.lemma_section_pos_unique(self.section_pos(sid), s as int);
                }
                let ghost pre = *self;
                self.remove_face_at(s, face_idx.index);
                proof {
                    assert(self.section_pos(sid) == s as int) by {
                        assert(self.sections@[s as int].id == sid);
                        self.lemma_section_pos_unique(self.section_pos(sid), s as int);
                    }
                    assert(self.section_views(sid) =~= pre.section_views(sid).update(
                        face_idx.index as int,
                        pre.section_views(sid).last(),
                    ).drop_last());
                    assert forall|s2: usize| s2 != sid implies self.section_views(s2)
                        == pre.section_views(s2) by {
                        if self.has_section(s2) {
                            let p = self.section_pos(s2);
                            assert(p != s);
                            assert(pre.sections@[p].id == s2);
                            pre.lemma_section_pos_unique(pre.section_pos(s2), p);
                            assert(self.sections@[p] == pre.sections@[p]);
                        } else {
                            if pre.has_section(s2) {
                                let p = pre.section_pos(s2);
                                assert(p != s);
                                assert(self.sections@[p].id == s2);
                            }
                        }
                    }
                    assert forall|s2: usize| #[trigger]
                        self.has_section(s2) <==> pre.has_section(s2) by {
                        if self.has_section(s2) {
                            let p = self.section_pos(s2);
                            assert(pre.sections@[p].id == s2) by {
                                if p != s {
                                    assert(pre.sections@[p] == self.sections@[p]);
                                }
                            }
                        }
                        if pre.has_section(s2) {
                            let p = pre.section_pos(s2);
                            assert(self.sections@[p].id == s2) by {
                                if p != s {
                                    assert(self.sections@[p] == pre.sections@[p]);
                                }
                            }
                        }
                    }
                }
            },
            None => {
                proof {
                    assert(false);
                }
            },
        }
    }

    /// A position the index holds stands at its own id.
    pub(crate) proof fn lemma_pos_id_witness(self, pos: Vec3Bits)
        requires
            self.has_pos(pos),
        ensures
            0 <= self.pos_id(pos) < self.position_ids@.len(),
            self.position_ids@[self.pos_id(pos)] == pos,
    {
        let w = choose|w: int| 0 <= w < self.position_ids@.len() && self.position_ids@[w] == pos;
    }

    /// `position_ids[i] == pos` pins `pos_id(pos)` to `i`.
    pub(crate) proof fn lemma_pos_id_at(self, i: int, pos: Vec3Bits)
        requires
            self.position_ids@.no_duplicates(),
            0 <= i < self.position_ids@.len(),
            self.position_ids@[i] == pos,
        ensures
            self.has_pos(pos),
            self.pos_id(pos) == i,
    {
        assert(self.has_pos(pos));
        let j = self.pos_id(pos);
    }

    /// Ghost accounting for one face addition of three corners: the
    /// position log extension matches the dedup-index extension.
    proof fn lemma_log_after_three(
        self,
        orig: MeshGeometry<V>,
        g0: MeshGeometry<V>,
        g1: MeshGeometry<V>,
        g2: MeshGeometry<V>,
        g3: MeshGeometry<V>,
        p1: Vec3Bits,
        p2: Vec3Bits,
        p3: Vec3Bits,
    )
        requires
            orig.log_wf(),
            g0.position_ids == orig.position_ids,
            g0.pos_log == orig.pos_log,
            g0.tri_adds == orig.tri_adds,
            g0.quad_adds == orig.quad_adds,
            g0.loose_resolves == orig.loose_resolves,
            g1.position_ids@ == if g0.has_pos(p1) {
                g0.position_ids@
            } else {
                g0.position_ids@.push(p1)
            },
            g2.position_ids@ == if g1.has_pos(p2) {
                g1.position_ids@
            } else {
                g1.position_ids@.push(p2)
            },
            g3.position_ids@ == if g2.has_pos(p3) {
                g2.position_ids@
            } else {
                g2.position_ids@.push(p3)
            },
            self.position_ids == g3.position_ids,
            self.pos_log@ == orig.pos_log@ + seq![p1, p2, p3],
            self.tri_adds@ == orig.tri_adds@ + 1,
            self.quad_adds@ == orig.quad_adds@,
            self.loose_resolves@ == orig.loose_resolves@,
        ensures
            self.pos_log@.to_set() == self.position_ids@.to_set(),
            self.pos_log@.len() == 3 * self.tri_adds@ + 4 * self.quad_adds@
                + self.loose_resolves@,
            forall|pos: Vec3Bits|
                #[trigger] self.has_pos(pos) <==> orig.has_pos(pos) || pos == p1 || pos == p2
                    || pos == p3,
    {
        assert(self.pos_log@ =~= orig.pos_log@.push(p1).push(p2).push(p3));
        lemma_to_set_push(orig.pos_log@, p1);
        lemma_to_set_push(orig.pos_log@.push(p1), p2);
        lemma_to_set_push(orig.pos_log@.push(p1).push(p2), p3);
        if !g0.has_pos(p1) {
            lemma_to_set_push(g0.position_ids@, p1);
        }
        if !g1.has_pos(p2) {
            lemma_to_set_push(g1.position_ids@, p2);
        }
        if !g2.has_pos(p3) {
            lemma_to_set_push(g2.position_ids@, p3);
        }
        assert(self.pos_log@.to_set() =~= self.position_ids@.to_set()) by {
            assert(self.pos_log@.to_set() == orig.pos_log@.to_set().insert(p1).insert(p2).insert(
                p3,
            ));
            assert forall|pos: Vec3Bits| #[trigger]
                self.position_ids@.to_set().contains(pos) implies orig.position_ids@.to_set()
                .insert(p1).insert(p2).insert(p3).contains(pos) by {}
            assert forall|pos: Vec3Bits|
                orig.position_ids@.to_set().insert(p1).insert(p2).insert(p3).contains(
                    pos,
                ) implies #[trigger] self.position_ids@.to_set().contains(pos) by {
                if orig.position_ids@.to_set().contains(pos) {
                    let w = choose|w: int|
                        0 <= w < orig.position_ids@.len() && orig.position_ids@[w] == pos;
                    assert(self.position_ids@[w] == pos);
                } else if pos == p1 {
                    assert(g1.position_ids@.contains(p1)) by {
                        if !g0.has_pos(p1) {
                            assert(g1.position_ids@[g0.position_ids@.len() as int] == p1);
                        }
                    }
                    let w = choose|w: int|
                        0 <= w < g1.position_ids@.len() && g1.position_ids@[w] == pos;
                    assert(self.position_ids@[w] == pos);
                } else if pos == p2 {
                    assert(g2.position_ids@.contains(p2)) by {
                        if !g1.has_pos(p2) {
                            assert(g2.position_ids@[g1.position_ids@.len() as int] == p2);
                        }
                    }
                    let w = choose|w: int|
                        0 <= w < g2.position_ids@.len() && g2.position_ids@[w] == pos;
                    assert(self.position_ids@[w] == pos);
                } else {
                    assert(g3.position_ids@.contains(p3)) by {
                        if !g2.has_pos(p3) {
                            assert(g3.position_ids@[g2.position_ids@.len() as int] == p3);
                        }
                    }
                }
            }
        }
        assert forall|pos: Vec3Bits| #[trigger]
            self.has_pos(pos) <==> orig.has_pos(pos) || pos == p1 || pos == p2 || pos == p3 by {
            assert(self.has_pos(pos) <==> self.position_ids@.to_set().contains(pos));
            assert(orig.has_pos(pos) <==> orig.position_ids@.to_set().contains(pos));
        }
    }
}

/// The counting law of face additions: however faces were added, the
/// vertex pool holds at most three vertices per added triangle-equivalent,
/// a triangle counting one and a quad two. Where only triangles were added,
/// the bound is met exactly when no two corner positions handed to the
/// additions were ever bit-identical, so that nothing was deduplicated.
///
/// The law speaks of geometries built by face additions alone: ids handed
/// out by `get_vertex_index` without a face are excluded by the
/// `loose_resolves` premise.
pub proof fn lemma_vertex_count_bound<V: Position3D + Copy>(g: MeshGeometry<V>)
    requires
        g.wf(),
        g.loose_resolves@ == 0,
    ensures
        g.vertices@.len() <= 3 * (g.tri_adds@ + 2 * g.quad_adds@),
        g.quad_adds@ == 0 ==> (g.vertices@.len() == 3 * g.tri_adds@ <==> g.pos_log@.no_duplicates(
        )),
{
    g.position_ids@.unique_seq_to_set();
    assert(g.pos_log@.to_set().len() == g.position_ids@.to_set().len());
    g.pos_log@.lemma_cardinality_of_set();
    assert(g.vertices@.len() == g.pos_log@.to_set().len());
    assert(g.pos_log@.len() == 3 * g.tri_adds@ + 4 * g.quad_adds@);
    if g.quad_adds@ == 0 {
        if g.pos_log@.no_duplicates() {
            g.pos_log@.unique_seq_to_set();
        }
        if g.vertices@.len() == 3 * g.tri_adds@ {
            assert(g.pos_log@.to_set().len() == g.pos_log@.len());
            g.pos_log@.lemma_no_dup_set_cardinality();
        }
    }
}

impl<V: Position3D> Position3D for MeshVertex<V> {
    open spec fn spec_position(&self) -> Vec3Bits {
        self.data.spec_position()
    }

    /// A stored vertex sits where its payload says.
    fn position(&self) -> (p: Vec3Bits)
        ensures
            p == self.spec_position(),
    {
        self.data.position()
    }
}

/// The section a face configuration targets: the explicit one, else 0.
pub open spec fn spec_target_section<V>(data: FaceDataProps<V>) -> usize {
    match data.section {
        Some(s) => s,
        None => 0,
    }
}

} // verus!
