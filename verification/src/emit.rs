//! Buffer emission: the mesh flattened into raw vertex bytes, and for the
//! indexed modes raw index bytes, in one of four layout modes.
//!
//! Every emitter states the produced bytes exactly: the vertex buffer is
//! the concatenation of one record per emitted vertex, a record being the
//! payload bytes followed (in the normal-bearing modes) by the twelve
//! little-endian bytes of a normal; the index buffer is the concatenation
//! of the four little-endian bytes of each index.

use vstd::prelude::*;
use crate::fvec::Vec3Bits;
use crate::layout::RenderableBuffer;
use crate::mesh::FaceView;
use crate::mesh::MeshGeometry;
use crate::mesh::MeshVertex;
use crate::mesh::SectionFaces;
use crate::mesh::SectionIndex;
use crate::normal::all_normals_set;
use crate::normal::spec_vertex_normal;
use crate::normal::vertex_normal_of;
use crate::payload::BufferedVertexData;
use crate::payload::OverrideAttributesWith;
use crate::payload::Position3D;
use crate::payload::spec_u32_le;
use crate::payload::spec_vec3_le;
use crate::payload::push_u32_le;
use crate::payload::push_vec3_le;
use crate::tri::views_of;

verus! {

/// The concatenation of a list of byte strings, in order.
pub open spec fn concat_bytes(bs: Seq<Seq<u8>>) -> Seq<u8>
    decreases bs.len(),
{
    if bs.len() == 0 {
        Seq::empty()
    } else {
        concat_bytes(bs.drop_last()) + bs.last()
    }
}

proof fn lemma_concat_push(bs: Seq<Seq<u8>>, x: Seq<u8>)
    ensures
        concat_bytes(bs.push(x)) == concat_bytes(bs) + x,
{
    assert(bs.push(x).drop_last() =~= bs);
    assert(bs.push(x).last() == x);
}

/// The vertex ids a face list references, face by face, corner by corner.
pub open spec fn spec_face_ids<V>(fs: Seq<FaceView<V>>) -> Seq<usize>
    decreases fs.len(),
{
    if fs.len() == 0 {
        Seq::empty()
    } else {
        spec_face_ids(fs.drop_last()) + fs.last().verts
    }
}

/// The vertex ids of all sections, in ascending section order.
pub open spec fn spec_mesh_ids<V>(ss: Seq<SectionFaces<V>>) -> Seq<usize>
    decreases ss.len(),
{
    if ss.len() == 0 {
        Seq::empty()
    } else {
        spec_mesh_ids(ss.drop_last()) + spec_face_ids(views_of(ss.last().faces@))
    }
}

/// The total face count over all sections.
pub open spec fn spec_total_faces<V>(ss: Seq<SectionFaces<V>>) -> int
    decreases ss.len(),
{
    if ss.len() == 0 {
        0
    } else {
        spec_total_faces(ss.drop_last()) + ss.last().faces@.len()
    }
}

/// The little-endian bytes of a list of indices, four per index.
pub open spec fn spec_index_bytes(ids: Seq<usize>) -> Seq<u8> {
    concat_bytes(ids.map_values(|id: usize| spec_u32_le(id as u32)))
}

/// One vertex record of the payload-only mode.
pub open spec fn spec_payload_records<V: BufferedVertexData>(vs: Seq<MeshVertex<V>>) -> Seq<u8> {
    concat_bytes(vs.map_values(|mv: MeshVertex<V>| mv.data.spec_bytes()))
}

impl<V: Position3D + OverrideAttributesWith + BufferedVertexData + Copy> MeshGeometry<V> {
    /// The payload of corner `v` of face `fv`, with the face's override
    /// payload merged in where it has one.
    pub open spec fn spec_merged(self, fv: FaceView<V>, v: usize) -> V {
        if fv.data is Some {
            self.vertices@[v as int].data.spec_override_with(&fv.data->Some_0)
        } else {
            self.vertices@[v as int].data
        }
    }

    /// The unrolled records of one face under the face-normal mode: per
    /// corner the merged payload bytes followed by the face normal.
    pub open spec fn spec_face_normal_records(self, fv: FaceView<V>) -> Seq<u8> {
        concat_bytes(
            fv.verts.map_values(
                |v: usize| self.spec_merged(fv, v).spec_bytes() + spec_vec3_le(fv.normal->Some_0),
            ),
        )
    }

    /// The unrolled face-normal records of a whole face list.
    pub open spec fn spec_face_normal_buffer(self, fs: Seq<FaceView<V>>) -> Seq<u8>
        decreases fs.len(),
    {
        if fs.len() == 0 {
            Seq::empty()
        } else {
            self.spec_face_normal_buffer(fs.drop_last()) + self.spec_face_normal_records(fs.last())
        }
    }

    /// The unrolled face-normal records of all sections.
    pub open spec fn spec_face_normal_mesh(self, ss: Seq<SectionFaces<V>>) -> Seq<u8>
        decreases ss.len(),
    {
        if ss.len() == 0 {
            Seq::empty()
        } else {
            self.spec_face_normal_mesh(ss.drop_last()) + self.spec_face_normal_buffer(
                views_of(ss.last().faces@),
            )
        }
    }

    /// Emits the payload bytes of every vertex, in id order.
    fn emit_payload_buffer(&self) -> (r: Vec<u8>)
        ensures
            r@ == spec_payload_records(self.vertices@),
    {
        let ghost recs = self.vertices@.map_values(|mv: MeshVertex<V>| mv.data.spec_bytes());
        let mut out: Vec<u8> = Vec::new();
        let mut v: usize = 0;
        while v < self.vertices.len()
            invariant
                v <= self.vertices@.len(),
                recs == self.vertices@.map_values(|mv: MeshVertex<V>| mv.data.spec_bytes()),
                out@ == concat_bytes(recs.take(v as int)),
            decreases self.vertices@.len() - v,
        {
            let bytes = self.vertices[v].data.to_bytes();
            let ghost pre = out@;
            let mut w: usize = 0;
            while w < bytes.len()
                invariant
                    w <= bytes@.len(),
                    out@ == pre + bytes@.take(w as int),
                decreases bytes@.len() - w,
            {
                out.push(bytes[w]);
                proof {
                    assert(out@ =~= pre + bytes@.take(w + 1));
                }
                w = w + 1;
            }
            proof {
                assert(bytes@.take(bytes@.len() as int) =~= bytes@);
                assert(recs.take(v + 1).drop_last() =~= recs.take(v as int));
                assert(recs.take(v + 1).last() == recs[v as int]);
                assert(recs[v as int] == self.vertices@[v as int].data.spec_bytes());
                assert(out@ =~= concat_bytes(recs.take(v + 1)));
            }
            v = v + 1;
        }
        proof {
            assert(recs.take(recs.len() as int) =~= recs);
        }
        out
    }
}

proof fn lemma_concat_bytes_add(a: Seq<Seq<u8>>, b: Seq<Seq<u8>>)
    ensures
        concat_bytes(a + b) == concat_bytes(a) + concat_bytes(b),
    decreases b.len(),
{
    if b.len() == 0 {
        assert(a + b =~= a);
        assert(concat_bytes(a) + concat_bytes(b) =~= concat_bytes(a));
    } else {
        assert((a + b).drop_last() =~= a + b.drop_last());
        assert((a + b).last() == b.last());
        lemma_concat_bytes_add(a, b.drop_last());
        assert(concat_bytes(a) + concat_bytes(b) =~= (concat_bytes(a) + concat_bytes(
            b.drop_last(),
        )) + b.last());
    }
}

proof fn lemma_index_bytes_add(a: Seq<usize>, b: Seq<usize>)
    ensures
        spec_index_bytes(a + b) == spec_index_bytes(a) + spec_index_bytes(b),
{
    let f = |id: usize| spec_u32_le(id as u32);
    assert((a + b).map_values(f) =~= a.map_values(f) + b.map_values(f));
    lemma_concat_bytes_add(a.map_values(f), b.map_values(f));
}

proof fn lemma_index_bytes_push(a: Seq<usize>, id: usize)
    ensures
        spec_index_bytes(a.push(id)) == spec_index_bytes(a) + spec_u32_le(id as u32),
{
    let f = |id2: usize| spec_u32_le(id2 as u32);
    assert(a.push(id).map_values(f) =~= a.map_values(f).push(f(id)));
    lemma_concat_push(a.map_values(f), f(id));
}

/// Each id sequence prefix never outgrows the whole.
proof fn lemma_mesh_ids_prefix<V>(ss: Seq<SectionFaces<V>>, s: int)
    requires
        0 <= s <= ss.len(),
    ensures
        spec_mesh_ids(ss.take(s)).len() <= spec_mesh_ids(ss).len(),
        spec_total_faces(ss.take(s)) <= spec_total_faces(ss),
        spec_total_faces(ss) >= 0,
    decreases ss.len(),
{
    if s == ss.len() {
        assert(ss.take(s) =~= ss);
        lemma_total_faces_nonneg(ss);
    } else {
        assert(ss.drop_last().take(s) =~= ss.take(s));
        lemma_mesh_ids_prefix(ss.drop_last(), s);
    }
}

proof fn lemma_total_faces_nonneg<V>(ss: Seq<SectionFaces<V>>)
    ensures
        spec_total_faces(ss) >= 0,
    decreases ss.len(),
{
    if ss.len() > 0 {
        lemma_total_faces_nonneg(ss.drop_last());
    }
}

/// Unfolds the per-section id and face totals over a one-section step.
proof fn lemma_mesh_ids_step<V>(ss: Seq<SectionFaces<V>>, s: int)
    requires
        0 <= s < ss.len(),
    ensures
        spec_mesh_ids(ss.take(s + 1)) == spec_mesh_ids(ss.take(s)) + spec_face_ids(
            views_of(ss[s].faces@),
        ),
        spec_total_faces(ss.take(s + 1)) == spec_total_faces(ss.take(s)) + ss[s].faces@.len(),
{
    assert(ss.take(s + 1).drop_last() =~= ss.take(s));
    assert(ss.take(s + 1).last() == ss[s]);
}

proof fn lemma_face_ids_step<V>(fs: Seq<FaceView<V>>, k: int)
    requires
        0 <= k < fs.len(),
    ensures
        spec_face_ids(fs.take(k + 1)) == spec_face_ids(fs.take(k)) + fs[k].verts,
{
    assert(fs.take(k + 1).drop_last() =~= fs.take(k));
    assert(fs.take(k + 1).last() == fs[k]);
}

impl<V: Position3D + OverrideAttributesWith + BufferedVertexData + Copy> MeshGeometry<V> {
    /// Emits the global index buffer: for each section in ascending order,
    /// for each face, the face's vertex ids as 32-bit little-endian words.
    /// Returns the bytes and the number of indices.
    #[verifier::rlimit(100)]
    fn emit_index_buffer(&self) -> (r: (Vec<u8>, usize))
        requires
            self.wf(),
            spec_mesh_ids(self.sections@).len() <= u32::MAX,
            self.vertices@.len() <= u32::MAX,
        ensures
            r.0@ == spec_index_bytes(spec_mesh_ids(self.sections@)),
            r.1 == spec_mesh_ids(self.sections@).len(),
    {
        let ghost full = spec_mesh_ids(self.sections@);
        let mut out: Vec<u8> = Vec::new();
        let mut count: usize = 0;
        let mut s: usize = 0;
        while s < self.sections.len()
            invariant
                self.wf(),
                spec_mesh_ids(self.sections@).len() <= u32::MAX,
                self.vertices@.len() <= u32::MAX,
                s <= self.sections@.len(),
                full == spec_mesh_ids(self.sections@),
                out@ == spec_index_bytes(spec_mesh_ids(self.sections@.take(s as int))),
                count == spec_mesh_ids(self.sections@.take(s as int)).len(),
            decreases self.sections@.len() - s,
        {
            let ghost secpre = spec_mesh_ids(self.sections@.take(s as int));
            let ghost fviews = views_of(self.sections@[s as int].faces@);
            let nf = self.sections[s].faces.len();
            let mut k: usize = 0;
            while k < nf
                invariant
                    self.wf(),
                    spec_mesh_ids(self.sections@).len() <= u32::MAX,
                    self.vertices@.len() <= u32::MAX,
                    s < self.sections@.len(),
                    secpre == spec_mesh_ids(self.sections@.take(s as int)),
                    fviews == views_of(self.sections@[s as int].faces@),
                    nf == fviews.len(),
                    k <= nf,
                    out@ == spec_index_bytes(secpre + spec_face_ids(fviews.take(k as int))),
                    count == secpre.len() + spec_face_ids(fviews.take(k as int)).len(),
                decreases nf - k,
            {
                let ghost fpre = secpre + spec_face_ids(fviews.take(k as int));
                let ghost fv = fviews[k as int];
                let nvs = self.sections[s].faces[k].vertices.len();
                proof {
                    lemma_step_bound(self.sections@, s as int, k as int, 0, fpre.len() as int);
                }
                let mut i: usize = 0;
                while i < nvs
                    invariant
                        self.wf(),
                        spec_mesh_ids(self.sections@).len() <= u32::MAX,
                        self.vertices@.len() <= u32::MAX,
                        s < self.sections@.len(),
                        k < self.sections@[s as int].faces@.len(),
                        secpre == spec_mesh_ids(self.sections@.take(s as int)),
                        fviews == views_of(self.sections@[s as int].faces@),
                        fpre == secpre + spec_face_ids(fviews.take(k as int)),
                        fv == self.sections@[s as int].faces@[k as int]@,
                        nvs == fv.verts.len(),
                        i <= nvs,
                        fpre.len() + i <= spec_mesh_ids(self.sections@).len(),
                        out@ == spec_index_bytes(fpre + fv.verts.take(i as int)),
                        count == fpre.len() + i,
                    decreases nvs - i,
                {
                    let id = self.sections[s].faces[k].vertices[i];
                    proof {
                        assert(crate::mesh::face_view_wf(fv, self.n_vertices()));
                        assert(fv.verts[i as int] < self.vertices@.len());
                        assert((fpre + fv.verts.take(i as int)).push(id) =~= fpre + fv.verts.take(
                            i + 1,
                        ));
                        lemma_index_bytes_push(fpre + fv.verts.take(i as int), id);
                        lemma_step_bound(
                            self.sections@,
                            s as int,
                            k as int,
                            i as int + 1,
                            fpre.len() as int,
                        );
                    }
                    push_u32_le(&mut out, id as u32);
                    count = count + 1;
                    i = i + 1;
                }
                proof {
                    assert(fv.verts.take(nvs as int) =~= fv.verts);
                    lemma_face_ids_step(fviews, k as int);
                    lemma_index_bytes_add(secpre, spec_face_ids(fviews.take(k + 1)));
                    lemma_index_bytes_add(secpre, spec_face_ids(fviews.take(k as int)));
                    lemma_index_bytes_add(
                        secpre + spec_face_ids(fviews.take(k as int)),
                        fv.verts,
                    );
                    assert((secpre + spec_face_ids(fviews.take(k as int))) + fv.verts
                        =~= secpre + spec_face_ids(fviews.take(k + 1)));
                }
                k = k + 1;
            }
            proof {
                assert(fviews.take(nf as int) =~= fviews);
                lemma_mesh_ids_step(self.sections@, s as int);
            }
            s = s + 1;
        }
        proof {
            assert(self.sections@.take(self.sections@.len() as int) =~= self.sections@);
        }
        (out, count)
    }
}

/// Inside the corner loop, the running index count stays below the whole
/// mesh's id count.
proof fn lemma_step_bound<V>(ss: Seq<SectionFaces<V>>, s: int, k: int, i: int, pre_len: int)
    requires
        0 <= s < ss.len(),
        0 <= k < ss[s].faces@.len(),
        0 <= i <= ss[s].faces@[k]@.verts.len(),
        pre_len == spec_mesh_ids(ss.take(s)).len() + spec_face_ids(
            views_of(ss[s].faces@).take(k),
        ).len(),
    ensures
        pre_len + i <= spec_mesh_ids(ss).len(),
{
    let fviews = views_of(ss[s].faces@);
    lemma_mesh_ids_step(ss, s);
    lemma_mesh_ids_prefix(ss, s + 1);
    lemma_face_ids_prefix_through(fviews, k, i);
}

/// Within one face list, the ids counted through face `k` plus `i` corners
/// of face `k` never exceed the list's id count.
proof fn lemma_face_ids_prefix_through<V>(fs: Seq<FaceView<V>>, k: int, i: int)
    requires
        0 <= k < fs.len(),
        0 <= i <= fs[k].verts.len(),
    ensures
        spec_face_ids(fs.take(k)).len() + i <= spec_face_ids(fs).len(),
    decreases fs.len(),
{
    if k == fs.len() - 1 {
        assert(fs.take(k) =~= fs.drop_last());
        assert(fs.last() == fs[k]);
    } else {
        assert(fs.drop_last().take(k) =~= fs.take(k));
        assert(fs.drop_last()[k] == fs[k]);
        lemma_face_ids_prefix_through(fs.drop_last(), k, i);
    }
}

/// Every element of a filtered sequence comes from the original.
proof fn lemma_filter_subset<A>(s: Seq<A>, pred: spec_fn(A) -> bool, j: int)
    requires
        0 <= j < s.filter(pred).len(),
    ensures
        s.contains(s.filter(pred)[j]),
    decreases s.len(),
{
    reveal_with_fuel(Seq::filter, 2);
    if s.len() > 0 {
        let out = s.filter(pred);
        let sub = s.drop_last().filter(pred);
        if pred(s.last()) && j == out.len() - 1 {
            assert(s[s.len() - 1] == out[j]);
        } else {
            lemma_filter_subset(s.drop_last(), pred, j);
            let w = choose|w: int| 0 <= w < s.drop_last().len() && s.drop_last()[w] == sub[j];
            assert(s[w] == sub[j]);
        }
    }
}

impl<V: Position3D + OverrideAttributesWith + BufferedVertexData + Copy> MeshGeometry<V> {
    /// The normals of the faces of section `sid` that corner `v`
    /// back-references, in back-reference order.
    pub open spec fn spec_corner_normals(self, sid: usize, v: usize) -> Seq<Vec3Bits> {
        self.vertices@[v as int].spec_section_faces(sid).map_values(
            |k: usize| self.section_views(sid)[k as int].normal->Some_0,
        )
    }

    /// The unrolled records of one face under the per-section vertex
    /// normal mode: per corner the merged payload bytes followed by that
    /// corner's section vertex normal.
    pub open spec fn spec_vn_records(self, sid: usize, fv: FaceView<V>) -> Seq<u8> {
        concat_bytes(
            fv.verts.map_values(
                |v: usize| self.spec_merged(fv, v).spec_bytes() + spec_vec3_le(
                    spec_vertex_normal(self.spec_corner_normals(sid, v)),
                ),
            ),
        )
    }

    /// The unrolled vertex-normal records of a whole face list.
    pub open spec fn spec_vn_buffer(self, sid: usize, fs: Seq<FaceView<V>>) -> Seq<u8>
        decreases fs.len(),
    {
        if fs.len() == 0 {
            Seq::empty()
        } else {
            self.spec_vn_buffer(sid, fs.drop_last()) + self.spec_vn_records(sid, fs.last())
        }
    }

    /// The unrolled vertex-normal records of all sections.
    pub open spec fn spec_vn_mesh(self, ss: Seq<SectionFaces<V>>) -> Seq<u8>
        decreases ss.len(),
    {
        if ss.len() == 0 {
            Seq::empty()
        } else {
            self.spec_vn_mesh(ss.drop_last()) + self.spec_vn_buffer(
                ss.last().id,
                views_of(ss.last().faces@),
            )
        }
    }

    /// The indices into section `sid` that corner `v` back-references all
    /// address live faces.
    proof fn lemma_corner_faces_valid(self, sid: usize, v: usize)
        requires
            self.wf(),
            (v as int) < self.vertices@.len(),
        ensures
            forall|j: int|
                0 <= j < self.vertices@[v as int].spec_section_faces(sid).len() ==> (
                #[trigger] self.vertices@[v as int].spec_section_faces(sid)[j] as int)
                    < self.section_list(sid).len(),
    {
        let lst = self.vertices@[v as int].faces@;
        let pred = |si: crate::mesh::SectionIndex| si.section == sid;
        assert forall|j: int|
            0 <= j < self.vertices@[v as int].spec_section_faces(sid).len() implies (
        #[trigger] self.vertices@[v as int].spec_section_faces(sid)[j] as int) < self.section_list(
            sid,
        ).len() by {
            lemma_filter_subset(lst, pred, j);
            broadcast use vstd::seq_lib::group_filter_ensures;

            let si = lst.filter(pred)[j];
            let w = choose|w: int| 0 <= w < lst.len() && lst[w] == si;
            assert(self.backref_ok(si, v));
            assert(self.vertices@[v as int].spec_section_faces(sid)[j] == si.index);
        }
    }

    /// The section vertex normal of corner `v` for the section standing at
    /// `s`: the normalized sum of the normals of that section's faces the
    /// corner takes part in, in back-reference order.
    fn corner_normal(&self, s: usize, sid: usize, v: usize) -> (r: Vec3Bits)
        requires
            self.wf(),
            all_normals_set(*self),
            s < self.sections@.len(),
            self.sections@[s as int].id == sid,
            v < self.vertices@.len(),
        ensures
            r == spec_vertex_normal(self.spec_corner_normals(sid, v)),
    {
        proof {
            self.lemma_section_pos_unique(self.section_pos(sid), s as int);
            self.lemma_corner_faces_valid(sid, v);
        }
        let fidx = self.vertices[v].section_faces(sid);
        let ghost cns = self.spec_corner_normals(sid, v);
        let mut ns: Vec<Vec3Bits> = Vec::new();
        let mut j: usize = 0;
        while j < fidx.len()
            invariant
                self.wf(),
                all_normals_set(*self),
                s < self.sections@.len(),
                self.sections@[s as int].id == sid,
                self.section_pos(sid) == s as int,
                v < self.vertices@.len(),
                j <= fidx@.len(),
                fidx@ == self.vertices@[v as int].spec_section_faces(sid),
                cns == self.spec_corner_normals(sid, v),
                cns.len() == fidx@.len(),
                forall|j2: int|
                    0 <= j2 < fidx@.len() ==> (#[trigger] fidx@[j2] as int) < self.section_list(
                        sid,
                    ).len(),
                ns@ == cns.take(j as int),
            decreases fidx@.len() - j,
        {
            let k2 = fidx[j];
            proof {
                assert((k2 as int) < self.sections@[s as int].faces@.len());
                assert(cns[j as int] == self.section_views(sid)[k2 as int].normal->Some_0);
                assert(self.section_views(sid)[k2 as int].normal == self.sections@[
                    s as int
                ].faces@[k2 as int]@.normal);
            }
            match self.sections[s].faces[k2].face_normal {
                Some(nrm) => {
                    ns.push(nrm);
                    proof {
                        assert(ns@ =~= cns.take(j + 1));
                    }
                },
                None => {
                    proof {
                        assert(false);
                    }
                },
            }
            j = j + 1;
        }
        proof {
            assert(cns.take(cns.len() as int) =~= cns);
        }
        vertex_normal_of(&ns)
    }

    /// The payload emitted for corner `v` of the face at `(s, k)`: the
    /// vertex payload, overridden by the face payload where one is set.
    fn merged_payload(&self, s: usize, k: usize, v: usize) -> (r: V)
        requires
            s < self.sections@.len(),
            k < self.sections@[s as int].faces@.len(),
            v < self.vertices@.len(),
        ensures
            r == self.spec_merged(self.sections@[s as int].faces@[k as int]@, v),
    {
        match &self.sections[s].faces[k].data {
            Some(fd) => self.vertices[v].data.override_with(fd),
            None => self.vertices[v].data,
        }
    }
}

impl<V: Position3D + OverrideAttributesWith + BufferedVertexData + Copy> MeshGeometry<V> {
    /// Emits the unrolled face-normal buffer: one record per face corner,
    /// the merged payload followed by the face's normal. Returns the bytes
    /// and the number of emitted vertices.
    #[verifier::rlimit(100)]
    fn emit_face_normals_buffer(&self) -> (r: (Vec<u8>, usize))
        requires
            self.wf(),
            all_normals_set(*self),
            spec_mesh_ids(self.sections@).len() <= u32::MAX,
        ensures
            r.0@ == self.spec_face_normal_mesh(self.sections@),
            r.1 == spec_mesh_ids(self.sections@).len(),
    {
        let mut out: Vec<u8> = Vec::new();
        let mut count: usize = 0;
        let mut s: usize = 0;
        while s < self.sections.len()
            invariant
                self.wf(),
                all_normals_set(*self),
                spec_mesh_ids(self.sections@).len() <= u32::MAX,
                s <= self.sections@.len(),
                out@ == self.spec_face_normal_mesh(self.sections@.take(s as int)),
                count == spec_mesh_ids(self.sections@.take(s as int)).len(),
            decreases self.sections@.len() - s,
        {
            let ghost secpre = out@;
            let ghost cntpre = spec_mesh_ids(self.sections@.take(s as int)).len() as int;
            let ghost fviews = views_of(self.sections@[s as int].faces@);
            let nf = self.sections[s].faces.len();
            let mut k: usize = 0;
            while k < nf
                invariant
                    self.wf(),
                    all_normals_set(*self),
                    spec_mesh_ids(self.sections@).len() <= u32::MAX,
                    s < self.sections@.len(),
                    secpre == self.spec_face_normal_mesh(self.sections@.take(s as int)),
                    cntpre == spec_mesh_ids(self.sections@.take(s as int)).len() as int,
                    fviews == views_of(self.sections@[s as int].faces@),
                    nf == fviews.len(),
                    k <= nf,
                    out@ == secpre + self.spec_face_normal_buffer(fviews.take(k as int)),
                    count == cntpre + spec_face_ids(fviews.take(k as int)).len(),
                decreases nf - k,
            {
                let ghost fpre = out@;
                let ghost fv = fviews[k as int];
                let ghost recmap = fv.verts.map_values(
                    |v: usize| self.spec_merged(fv, v).spec_bytes() + spec_vec3_le(
                        fv.normal->Some_0,
                    ),
                );
                let normal = match self.sections[s].faces[k].face_normal {
                    Some(nrm) => nrm,
                    None => {
                        proof {
                            assert(false);
                        }
                        Vec3Bits::zero()
                    },
                };
                let nvs = self.sections[s].faces[k].vertices.len();
                proof {
                    lemma_step_bound(
                        self.sections@,
                        s as int,
                        k as int,
                        0,
                        cntpre + spec_face_ids(fviews.take(k as int)).len(),
                    );
                }
                let mut i: usize = 0;
                while i < nvs
                    invariant
                        self.wf(),
                        all_normals_set(*self),
                        spec_mesh_ids(self.sections@).len() <= u32::MAX,
                        s < self.sections@.len(),
                        k < self.sections@[s as int].faces@.len(),
                        cntpre == spec_mesh_ids(self.sections@.take(s as int)).len() as int,
                        fviews == views_of(self.sections@[s as int].faces@),
                        fv == self.sections@[s as int].faces@[k as int]@,
                        normal == fv.normal->Some_0,
                        recmap == fv.verts.map_values(
                            |v: usize| self.spec_merged(fv, v).spec_bytes() + spec_vec3_le(
                                fv.normal->Some_0,
                            ),
                        ),
                        nvs == fv.verts.len(),
                        i <= nvs,
                        cntpre + spec_face_ids(fviews.take(k as int)).len() + i <= spec_mesh_ids(
                            self.sections@,
                        ).len(),
                        out@ == fpre + concat_bytes(recmap.take(i as int)),
                        count == cntpre + spec_face_ids(fviews.take(k as int)).len() + i,
                    decreases nvs - i,
                {
                    let v = self.sections[s].faces[k].vertices[i];
                    proof {
                        assert(crate::mesh::face_view_wf(fv, self.n_vertices()));
                        assert(fv.verts[i as int] < self.vertices@.len());
                        lemma_step_bound(
                            self.sections@,
                            s as int,
                            k as int,
                            i as int + 1,
                            cntpre + spec_face_ids(fviews.take(k as int)).len(),
                        );
                    }
                    let merged = self.merged_payload(s, k, v);
                    let bytes = merged.to_bytes();
                    let ghost before = out@;
                    extend_bytes(&mut out, &bytes);
                    push_vec3_le(&mut out, normal);
                    proof {
                        assert(recmap.take(i + 1).drop_last() =~= recmap.take(i as int));
                        assert(recmap.take(i + 1).last() == recmap[i as int]);
                        assert(recmap[i as int] == self.spec_merged(fv, fv.verts[i as int])
                            .spec_bytes() + spec_vec3_le(fv.normal->Some_0));
                        assert(out@ =~= fpre + concat_bytes(recmap.take(i + 1)));
                    }
                    count = count + 1;
                    i = i + 1;
                }
                proof {
                    assert(recmap.take(nvs as int) =~= recmap);
                    assert(self.spec_face_normal_records(fv) == concat_bytes(recmap));
                    assert(fviews.take(k + 1).drop_last() =~= fviews.take(k as int));
                    assert(fviews.take(k + 1).last() == fv);
                    assert(out@ =~= secpre + self.spec_face_normal_buffer(fviews.take(k + 1)));
                    lemma_face_ids_step(fviews, k as int);
                }
                k = k + 1;
            }
            proof {
                assert(fviews.take(nf as int) =~= fviews);
                assert(self.sections@.take(s + 1).drop_last() =~= self.sections@.take(s as int));
                assert(self.sections@.take(s + 1).last() == self.sections@[s as int]);
                lemma_mesh_ids_step(self.sections@, s as int);
            }
            s = s + 1;
        }
        proof {
            assert(self.sections@.take(self.sections@.len() as int) =~= self.sections@);
        }
        (out, count)
    }

    /// Emits the unrolled per-section vertex-normal buffer: one record per
    /// face corner, the merged payload followed by the corner's section
    /// vertex normal. Returns the bytes and the number of emitted vertices.
    #[verifier::rlimit(100)]
    fn emit_vertex_normal_face_data_buffer(&self) -> (r: (Vec<u8>, usize))
        requires
            self.wf(),
            all_normals_set(*self),
            spec_mesh_ids(self.sections@).len() <= u32::MAX,
        ensures
            r.0@ == self.spec_vn_mesh(self.sections@),
            r.1 == spec_mesh_ids(self.sections@).len(),
    {
        let mut out: Vec<u8> = Vec::new();
        let mut count: usize = 0;
        let mut s: usize = 0;
        while s < self.sections.len()
            invariant
                self.wf(),
                all_normals_set(*self),
                spec_mesh_ids(self.sections@).len() <= u32::MAX,
                s <= self.sections@.len(),
                out@ == self.spec_vn_mesh(self.sections@.take(s as int)),
                count == spec_mesh_ids(self.sections@.take(s as int)).len(),
            decreases self.sections@.len() - s,
        {
            let ghost secpre = out@;
            let ghost cntpre = spec_mesh_ids(self.sections@.take(s as int)).len() as int;
            let ghost fviews = views_of(self.sections@[s as int].faces@);
            let sid = self.sections[s].id;
            let nf = self.sections[s].faces.len();
            let mut k: usize = 0;
            while k < nf
                invariant
                    self.wf(),
                    all_normals_set(*self),
                    spec_mesh_ids(self.sections@).len() <= u32::MAX,
                    s < self.sections@.len(),
                    sid == self.sections@[s as int].id,
                    secpre == self.spec_vn_mesh(self.sections@.take(s as int)),
                    cntpre == spec_mesh_ids(self.sections@.take(s as int)).len() as int,
                    fviews == views_of(self.sections@[s as int].faces@),
                    nf == fviews.len(),
                    k <= nf,
                    out@ == secpre + self.spec_vn_buffer(sid, fviews.take(k as int)),
                    count == cntpre + spec_face_ids(fviews.take(k as int)).len(),
                decreases nf - k,
            {
                let ghost fpre = out@;
                let ghost fv = fviews[k as int];
                let ghost recmap = fv.verts.map_values(
                    |v: usize| self.spec_merged(fv, v).spec_bytes() + spec_vec3_le(
                        spec_vertex_normal(self.spec_corner_normals(sid, v)),
                    ),
                );
                let nvs = self.sections[s].faces[k].vertices.len();
                proof {
                    lemma_step_bound(
                        self.sections@,
                        s as int,
                        k as int,
                        0,
                        cntpre + spec_face_ids(fviews.take(k as int)).len(),
                    );
                }
                let mut i: usize = 0;
                while i < nvs
                    invariant
                        self.wf(),
                        all_normals_set(*self),
                        spec_mesh_ids(self.sections@).len() <= u32::MAX,
                        s < self.sections@.len(),
                        k < self.sections@[s as int].faces@.len(),
                        sid == self.sections@[s as int].id,
                        cntpre == spec_mesh_ids(self.sections@.take(s as int)).len() as int,
                        fviews == views_of(self.sections@[s as int].faces@),
                        fv == self.sections@[s as int].faces@[k as int]@,
                        recmap == fv.verts.map_values(
                            |v: usize| self.spec_merged(fv, v).spec_bytes() + spec_vec3_le(
                                spec_vertex_normal(self.spec_corner_normals(sid, v)),
                            ),
                        ),
                        nvs == fv.verts.len(),
                        i <= nvs,
                        cntpre + spec_face_ids(fviews.take(k as int)).len() + i <= spec_mesh_ids(
                            self.sections@,
                        ).len(),
                        out@ == fpre + concat_bytes(recmap.take(i as int)),
                        count == cntpre + spec_face_ids(fviews.take(k as int)).len() + i,
                    decreases nvs - i,
                {
                    let v = self.sections[s].faces[k].vertices[i];
                    proof {
                        assert(crate::mesh::face_view_wf(fv, self.n_vertices()));
                        assert(fv.verts[i as int] < self.vertices@.len());
                        lemma_step_bound(
                            self.sections@,
                            s as int,
                            k as int,
                            i as int + 1,
                            cntpre + spec_face_ids(fviews.take(k as int)).len(),
                        );
                    }
                    let merged = self.merged_payload(s, k, v);
                    let bytes = merged.to_bytes();
                    let normal = self.corner_normal(s, sid, v);
                    extend_bytes(&mut out, &bytes);
                    push_vec3_le(&mut out, normal);
                    proof {
                        assert(recmap.take(i + 1).drop_last() =~= recmap.take(i as int));
                        assert(recmap.take(i + 1).last() == recmap[i as int]);
                        assert(recmap[i as int] == self.spec_merged(fv, fv.verts[i as int])
                            .spec_bytes() + spec_vec3_le(
                            spec_vertex_normal(
                                self.spec_corner_normals(sid, fv.verts[i as int]),
                            ),
                        ));
                        assert(out@ =~= fpre + concat_bytes(recmap.take(i + 1)));
                    }
                    count = count + 1;
                    i = i + 1;
                }
                proof {
                    assert(recmap.take(nvs as int) =~= recmap);
                    assert(self.spec_vn_records(sid, fv) == concat_bytes(recmap));
                    assert(fviews.take(k + 1).drop_last() =~= fviews.take(k as int));
                    assert(fviews.take(k + 1).last() == fv);
                    assert(out@ =~= secpre + self.spec_vn_buffer(sid, fviews.take(k + 1)));
                    lemma_face_ids_step(fviews, k as int);
                }
                k = k + 1;
            }
            proof {
                assert(fviews.take(nf as int) =~= fviews);
                assert(self.sections@.take(s + 1).drop_last() =~= self.sections@.take(s as int));
                assert(self.sections@.take(s + 1).last() == self.sections@[s as int]);
                lemma_mesh_ids_step(self.sections@, s as int);
            }
            s = s + 1;
        }
        proof {
            assert(self.sections@.take(self.sections@.len() as int) =~= self.sections@);
        }
        (out, count)
    }
}

/// Whether a vertex takes part in section `sid`: it back-references at
/// least one of the section's faces.
pub open spec fn spec_participates<V>(mv: MeshVertex<V>, sid: usize) -> bool {
    mv.spec_section_faces(sid).len() > 0
}

/// The vertices among ids `0..m` taking part in section `sid`, in
/// ascending id order: the first-discovery order of a scan over the
/// vertices' back-reference lists.
pub open spec fn spec_participants_upto<V>(vs: Seq<MeshVertex<V>>, sid: usize, m: int) -> Seq<
    usize,
> {
    Seq::new(m as nat, |i: int| i as usize).filter(
        |v: usize| spec_participates(vs[v as int], sid),
    )
}

/// All vertices taking part in section `sid`.
pub open spec fn spec_participants<V>(vs: Seq<MeshVertex<V>>, sid: usize) -> Seq<usize> {
    spec_participants_upto(vs, sid, vs.len() as int)
}

/// The section-local index of participant `v`: how many participants
/// stand before it.
pub open spec fn spec_rank<V>(vs: Seq<MeshVertex<V>>, sid: usize, v: usize) -> int {
    spec_participants_upto(vs, sid, v as int).len() as int
}

/// No element satisfies the predicate, so the filter is empty.
proof fn lemma_filter_empty<A>(s: Seq<A>, pred: spec_fn(A) -> bool)
    requires
        forall|i: int| 0 <= i < s.len() ==> !pred(#[trigger] s[i]),
    ensures
        s.filter(pred).len() == 0,
    decreases s.len(),
{
    reveal_with_fuel(Seq::filter, 2);
    if s.len() > 0 {
        lemma_filter_empty(s.drop_last(), pred);
    }
}

/// One scan step of the participant list.
proof fn lemma_participants_step<V>(vs: Seq<MeshVertex<V>>, sid: usize, m: int)
    requires
        0 <= m < vs.len(),
        vs.len() <= usize::MAX,
    ensures
        spec_participants_upto(vs, sid, m + 1) == if spec_participates(vs[m], sid) {
            spec_participants_upto(vs, sid, m).push(m as usize)
        } else {
            spec_participants_upto(vs, sid, m)
        },
{
    reveal_with_fuel(Seq::filter, 2);
    let base = Seq::new((m + 1) as nat, |i: int| i as usize);
    let prev = Seq::new(m as nat, |i: int| i as usize);
    assert(base.drop_last() =~= prev);
    assert(base.last() == m as usize);
    let pred = |v: usize| spec_participates(vs[v as int], sid);
    assert(base.filter(pred) == if pred(m as usize) {
        prev.filter(pred).push(m as usize)
    } else {
        prev.filter(pred)
    });
}

/// Participant counts only grow along the scan.
proof fn lemma_participants_mono<V>(vs: Seq<MeshVertex<V>>, sid: usize, a: int, b: int)
    requires
        0 <= a <= b <= vs.len(),
        vs.len() <= usize::MAX,
    ensures
        spec_participants_upto(vs, sid, a).len() <= spec_participants_upto(vs, sid, b).len(),
    decreases b - a,
{
    if a < b {
        lemma_participants_mono(vs, sid, a, b - 1);
        lemma_participants_step(vs, sid, b - 1);
    }
}

/// A participant's rank lies strictly below the participant count.
proof fn lemma_rank_below<V>(vs: Seq<MeshVertex<V>>, sid: usize, v: usize)
    requires
        (v as int) < vs.len(),
        vs.len() <= usize::MAX,
        spec_participates(vs[v as int], sid),
    ensures
        spec_rank(vs, sid, v) < spec_participants(vs, sid).len(),
{
    lemma_participants_step(vs, sid, v as int);
    lemma_participants_mono(vs, sid, v as int + 1, vs.len() as int);
}

impl<V: Position3D + OverrideAttributesWith + BufferedVertexData + Copy> MeshGeometry<V> {
    /// One emitted record per participant of section `sid`: the payload
    /// bytes followed by the participant's section vertex normal.
    pub open spec fn spec_section_vertex_records(self, sid: usize) -> Seq<u8> {
        concat_bytes(
            spec_participants(self.vertices@, sid).map_values(
                |v: usize| self.vertices@[v as int].data.spec_bytes() + spec_vec3_le(
                    spec_vertex_normal(self.spec_corner_normals(sid, v)),
                ),
            ),
        )
    }

    /// The shared vertex buffer of the indexed vertex-normal mode.
    pub open spec fn spec_vtx_normals_mesh(self, ss: Seq<SectionFaces<V>>) -> Seq<u8>
        decreases ss.len(),
    {
        if ss.len() == 0 {
            Seq::empty()
        } else {
            self.spec_vtx_normals_mesh(ss.drop_last()) + self.spec_section_vertex_records(
                ss.last().id,
            )
        }
    }

    /// How many vertex records the sections before position `s` emit: the
    /// per-section index offset.
    pub open spec fn spec_vtx_offset(self, s: int) -> int
        decreases s,
    {
        if s <= 0 {
            0
        } else {
            self.spec_vtx_offset(s - 1) + spec_participants(
                self.vertices@,
                self.sections@[s - 1].id,
            ).len()
        }
    }

    /// The global indices emitted for the sections before position `s`:
    /// per face corner, the section offset plus the corner's rank.
    pub open spec fn spec_vtx_index_ids(self, s: int) -> Seq<usize>
        decreases s,
    {
        if s <= 0 {
            Seq::empty()
        } else {
            self.spec_vtx_index_ids(s - 1) + spec_face_ids(
                views_of(self.sections@[s - 1].faces@),
            ).map_values(
                |v: usize| (self.spec_vtx_offset(s - 1) + spec_rank(
                    self.vertices@,
                    self.sections@[s - 1].id,
                    v,
                )) as usize,
            )
        }
    }

    /// Whether vertex `v` takes part in section `sid`.
    fn vertex_participates(&self, v: usize, sid: usize) -> (r: bool)
        requires
            v < self.vertices@.len(),
        ensures
            r == spec_participates(self.vertices@[v as int], sid),
    {
        let ghost lst = self.vertices@[v as int].faces@;
        let ghost pred = |si: crate::mesh::SectionIndex| si.section == sid;
        let mut m: usize = 0;
        while m < self.vertices[v].faces.len()
            invariant
                v < self.vertices@.len(),
                lst == self.vertices@[v as int].faces@,
                pred == (|si: crate::mesh::SectionIndex| si.section == sid),
                m <= lst.len(),
                forall|j: int| 0 <= j < m ==> (#[trigger] lst[j]).section != sid,
            decreases lst.len() - m,
        {
            if self.vertices[v].faces[m].section == sid {
                proof {
                    broadcast use vstd::seq_lib::group_filter_ensures;

                    assert(lst.filter(pred).contains(lst[m as int]));
                    let w = choose|w: int|
                        0 <= w < lst.filter(pred).len() && lst.filter(pred)[w] == lst[m as int];
                    assert(self.vertices@[v as int].spec_section_faces(sid).len() == lst.filter(
                        pred,
                    ).len());
                }
                return true;
            }
            m = m + 1;
        }
        proof {
            lemma_filter_empty(lst, pred);
            assert(self.vertices@[v as int].spec_section_faces(sid).len() == lst.filter(
                pred,
            ).len());
        }
        false
    }

    /// A corner of a live face of section `sid` takes part in the section.
    proof fn lemma_corner_participates(self, s: int, k: int, i: int)
        requires
            self.wf(),
            0 <= s < self.sections@.len(),
            0 <= k < self.sections@[s].faces@.len(),
            0 <= i < self.sections@[s].faces@[k].vertices@.len(),
        ensures
            spec_participates(
                self.vertices@[self.sections@[s].faces@[k].vertices@[i] as int],
                self.sections@[s].id,
            ),
    {
        broadcast use vstd::seq_lib::group_filter_ensures;

        let sid = self.sections@[s].id;
        let v = self.sections@[s].faces@[k].vertices@[i];
        let lst = self.vertices@[v as int].faces@;
        let pred = |si: crate::mesh::SectionIndex| si.section == sid;
        let target = SectionIndex { section: sid, index: k as usize };
        assert(lst.contains(target));
        let w = choose|w: int| 0 <= w < lst.len() && lst[w] == target;
        assert(lst.filter(pred).contains(lst[w]));
        let w2 = choose|w2: int|
            0 <= w2 < lst.filter(pred).len() && lst.filter(pred)[w2] == target;
        assert(self.vertices@[v as int].spec_section_faces(sid).len() == lst.filter(pred).len());
    }
}

/// Participants are vertex ids below the scan bound, and they participate.
proof fn lemma_participants_elems<V>(vs: Seq<MeshVertex<V>>, sid: usize, m: int)
    requires
        0 <= m <= vs.len(),
        vs.len() <= usize::MAX,
    ensures
        forall|j: int|
            0 <= j < spec_participants_upto(vs, sid, m).len() ==> (
            #[trigger] spec_participants_upto(vs, sid, m)[j] as int) < m && spec_participates(
                vs[spec_participants_upto(vs, sid, m)[j] as int],
                sid,
            ),
{
    broadcast use vstd::seq_lib::group_filter_ensures;

    let base = Seq::new(m as nat, |i: int| i as usize);
    let pred = |v: usize| spec_participates(vs[v as int], sid);
    assert forall|j: int|
        0 <= j < spec_participants_upto(vs, sid, m).len() implies (
    #[trigger] spec_participants_upto(vs, sid, m)[j] as int) < m && spec_participates(
        vs[spec_participants_upto(vs, sid, m)[j] as int],
        sid,
    ) by {
        lemma_filter_subset(base, pred, j);
        let e = base.filter(pred)[j];
        let w = choose|w: int| 0 <= w < base.len() && base[w] == e;
        assert(pred(e));
    }
}

impl<V: Position3D + OverrideAttributesWith + BufferedVertexData + Copy> MeshGeometry<V> {
    /// The per-section index offsets only grow along the section list.
    proof fn lemma_vtx_offset_mono(self, a: int, b: int)
        requires
            a <= b,
        ensures
            self.spec_vtx_offset(a) <= self.spec_vtx_offset(b),
        decreases b - a,
    {
        if a < b {
            self.lemma_vtx_offset_mono(a, b - 1);
        }
    }

    /// Emits the indexed vertex-normal mode: one vertex record per
    /// (vertex, section) participation, ordered section by section and by
    /// vertex id within a section; the index buffer addresses the records
    /// through per-section offsets. Returns vertex bytes, vertex count,
    /// index bytes and index count.
    #[verifier::rlimit(100)]
    fn emit_vertex_normals(&self) -> (r: (Vec<u8>, usize, Vec<u8>, usize))
        requires
            self.wf(),
            all_normals_set(*self),
            self.spec_vtx_offset(self.sections@.len() as int) <= u32::MAX,
            spec_mesh_ids(self.sections@).len() <= u32::MAX,
        ensures
            r.0@ == self.spec_vtx_normals_mesh(self.sections@),
            r.1 == self.spec_vtx_offset(self.sections@.len() as int),
            r.2@ == spec_index_bytes(self.spec_vtx_index_ids(self.sections@.len() as int)),
            r.3 == spec_mesh_ids(self.sections@).len(),
    {
        let ghost vs = self.vertices@;
        let nv = self.vertices.len();
        let mut vbuf: Vec<u8> = Vec::new();
        let mut ibuf: Vec<u8> = Vec::new();
        let mut off: usize = 0;
        let mut icount: usize = 0;
        let mut s: usize = 0;
        while s < self.sections.len()
            invariant
                self.wf(),
                all_normals_set(*self),
                self.spec_vtx_offset(self.sections@.len() as int) <= u32::MAX,
                spec_mesh_ids(self.sections@).len() <= u32::MAX,
                vs == self.vertices@,
                nv == vs.len(),
                s <= self.sections@.len(),
                vbuf@ == self.spec_vtx_normals_mesh(self.sections@.take(s as int)),
                off == self.spec_vtx_offset(s as int),
                ibuf@ == spec_index_bytes(self.spec_vtx_index_ids(s as int)),
                icount == spec_mesh_ids(self.sections@.take(s as int)).len(),
            decreases self.sections@.len() - s,
        {
            let sid = self.sections[s].id;
            proof {
                self.lemma_vtx_offset_mono(s as int + 1, self.sections@.len() as int);
            }
            // the participants of this section, with their local ranks
            let mut part: Vec<usize> = Vec::new();
            let mut rank: Vec<usize> = Vec::new();
            let mut v: usize = 0;
            while v < nv
                invariant
                    self.wf(),
                    vs == self.vertices@,
                    nv == vs.len(),
                    v <= nv,
                    part@ == spec_participants_upto(vs, sid, v as int),
                    rank@.len() == v,
                    forall|w: int|
                        0 <= w < v && spec_participates(vs[w], sid) ==> (#[trigger] rank@[w]) as int
                            == spec_rank(vs, sid, w as usize),
                decreases nv - v,
            {
                proof {
                    lemma_participants_step(vs, sid, v as int);
                }
                if self.vertex_participates(v, sid) {
                    rank.push(part.len());
                    part.push(v);
                } else {
                    rank.push(0);
                }
                v = v + 1;
            }
            proof {
                assert(part@ == spec_participants(vs, sid));
                lemma_participants_elems(vs, sid, nv as int);
            }
            // one record per participant
            let ghost secpre = vbuf@;
            let ghost recmap = spec_participants(vs, sid).map_values(
                |v2: usize| self.vertices@[v2 as int].data.spec_bytes() + spec_vec3_le(
                    spec_vertex_normal(self.spec_corner_normals(sid, v2)),
                ),
            );
            let mut j: usize = 0;
            while j < part.len()
                invariant
                    self.wf(),
                    all_normals_set(*self),
                    vs == self.vertices@,
                    nv == vs.len(),
                    s < self.sections@.len(),
                    sid == self.sections@[s as int].id,
                    part@ == spec_participants(vs, sid),
                    j <= part@.len(),
                    forall|j2: int|
                        0 <= j2 < part@.len() ==> (#[trigger] part@[j2] as int) < nv,
                    recmap == spec_participants(vs, sid).map_values(
                        |v2: usize| self.vertices@[v2 as int].data.spec_bytes() + spec_vec3_le(
                            spec_vertex_normal(self.spec_corner_normals(sid, v2)),
                        ),
                    ),
                    vbuf@ == secpre + concat_bytes(recmap.take(j as int)),
                decreases part@.len() - j,
            {
                let v2 = part[j];
                let bytes = self.vertices[v2].data.to_bytes();
                let normal = self.corner_normal(s, sid, v2);
                extend_bytes(&mut vbuf, &bytes);
                push_vec3_le(&mut vbuf, normal);
                proof {
                    assert(recmap.take(j + 1).drop_last() =~= recmap.take(j as int));
                    assert(recmap.take(j + 1).last() == recmap[j as int]);
                    assert(recmap[j as int] == self.vertices@[part@[j as int] as int].data
                        .spec_bytes() + spec_vec3_le(
                        spec_vertex_normal(self.spec_corner_normals(sid, part@[j as int])),
                    ));
                    assert(vbuf@ =~= secpre + concat_bytes(recmap.take(j + 1)));
                }
                j = j + 1;
            }
            proof {
                assert(recmap.take(recmap.len() as int) =~= recmap);
                assert(self.spec_section_vertex_records(sid) == concat_bytes(recmap));
                assert(self.sections@.take(s + 1).drop_last() =~= self.sections@.take(s as int));
                assert(self.sections@.take(s + 1).last() == self.sections@[s as int]);
                assert(vbuf@ =~= self.spec_vtx_normals_mesh(self.sections@.take(s + 1)));
            }
            // the indices of this section's faces, shifted by the offset
            let ghost idmap = |v2: usize|
                (self.spec_vtx_offset(s as int) + spec_rank(vs, sid, v2)) as usize;
            let ghost ibpre = self.spec_vtx_index_ids(s as int);
            let ghost fviews = views_of(self.sections@[s as int].faces@);
            let nf = self.sections[s].faces.len();
            let mut k: usize = 0;
            while k < nf
                invariant
                    self.wf(),
                    all_normals_set(*self),
                    self.spec_vtx_offset(self.sections@.len() as int) <= u32::MAX,
                    spec_mesh_ids(self.sections@).len() <= u32::MAX,
                    vs == self.vertices@,
                    nv == vs.len(),
                    s < self.sections@.len(),
                    sid == self.sections@[s as int].id,
                    off == self.spec_vtx_offset(s as int),
                    self.spec_vtx_offset(s as int + 1) <= u32::MAX,
                    part@ == spec_participants(vs, sid),
                    rank@.len() == nv,
                    forall|w: int|
                        0 <= w < nv && spec_participates(vs[w], sid) ==> (#[trigger] rank@[w]) as int
                            == spec_rank(vs, sid, w as usize),
                    idmap == (|v2: usize|
                        (self.spec_vtx_offset(s as int) + spec_rank(vs, sid, v2)) as usize),
                    ibpre == self.spec_vtx_index_ids(s as int),
                    fviews == views_of(self.sections@[s as int].faces@),
                    nf == fviews.len(),
                    k <= nf,
                    ibuf@ == spec_index_bytes(
                        ibpre + spec_face_ids(fviews.take(k as int)).map_values(idmap),
                    ),
                    icount == spec_mesh_ids(self.sections@.take(s as int)).len() + spec_face_ids(
                        fviews.take(k as int),
                    ).len(),
                decreases nf - k,
            {
                let ghost fpre = ibpre + spec_face_ids(fviews.take(k as int)).map_values(idmap);
                let ghost fv = fviews[k as int];
                let nvs = self.sections[s].faces[k].vertices.len();
                proof {
                    lemma_step_bound(
                        self.sections@,
                        s as int,
                        k as int,
                        0,
                        spec_mesh_ids(self.sections@.take(s as int)).len() + spec_face_ids(
                            fviews.take(k as int),
                        ).len() as int,
                    );
                }
                let mut i: usize = 0;
                while i < nvs
                    invariant
                        self.wf(),
                        all_normals_set(*self),
                        self.spec_vtx_offset(self.sections@.len() as int) <= u32::MAX,
                        spec_mesh_ids(self.sections@).len() <= u32::MAX,
                        vs == self.vertices@,
                        nv == vs.len(),
                        s < self.sections@.len(),
                        k < self.sections@[s as int].faces@.len(),
                        sid == self.sections@[s as int].id,
                        off == self.spec_vtx_offset(s as int),
                        self.spec_vtx_offset(s as int + 1) <= u32::MAX,
                        part@ == spec_participants(vs, sid),
                        rank@.len() == nv,
                        forall|w: int|
                            0 <= w < nv && spec_participates(vs[w], sid) ==> (
                            #[trigger] rank@[w]) as int == spec_rank(vs, sid, w as usize),
                        idmap == (|v2: usize|
                            (self.spec_vtx_offset(s as int) + spec_rank(vs, sid, v2)) as usize),
                        ibpre == self.spec_vtx_index_ids(s as int),
                        fviews == views_of(self.sections@[s as int].faces@),
                        fpre == ibpre + spec_face_ids(fviews.take(k as int)).map_values(idmap),
                        fv == self.sections@[s as int].faces@[k as int]@,
                        nvs == fv.verts.len(),
                        i <= nvs,
                        spec_mesh_ids(self.sections@.take(s as int)).len() + spec_face_ids(
                            fviews.take(k as int),
                        ).len() + i <= spec_mesh_ids(self.sections@).len(),
                        ibuf@ == spec_index_bytes(fpre + fv.verts.take(i as int).map_values(idmap)),
                        icount == spec_mesh_ids(self.sections@.take(s as int)).len()
                            + spec_face_ids(fviews.take(k as int)).len() + i,
                    decreases nvs - i,
                {
                    let v2 = self.sections[s].faces[k].vertices[i];
                    proof {
                        assert(crate::mesh::face_view_wf(fv, self.n_vertices()));
                        assert(fv.verts[i as int] < vs.len());
                        self.lemma_corner_participates(s as int, k as int, i as int);
                        lemma_rank_below(vs, sid, v2);
                        assert((fpre + fv.verts.take(i as int).map_values(idmap)).push(
                            idmap(v2),
                        ) =~= fpre + fv.verts.take(i + 1).map_values(idmap));
                        lemma_index_bytes_push(
                            fpre + fv.verts.take(i as int).map_values(idmap),
                            idmap(v2),
                        );
                        lemma_step_bound(
                            self.sections@,
                            s as int,
                            k as int,
                            i as int + 1,
                            spec_mesh_ids(self.sections@.take(s as int)).len() + spec_face_ids(
                                fviews.take(k as int),
                            ).len() as int,
                        );
                    }
                    let idx = off + rank[v2];
                    proof {
                        assert(idx == idmap(v2));
                        assert(idx <= u32::MAX);
                    }
                    push_u32_le(&mut ibuf, idx as u32);
                    icount = icount + 1;
                    i = i + 1;
                }
                proof {
                    assert(fv.verts.take(nvs as int) =~= fv.verts);
                    lemma_face_ids_step(fviews, k as int);
                    assert(spec_face_ids(fviews.take(k + 1)).map_values(idmap) =~= spec_face_ids(
                        fviews.take(k as int),
                    ).map_values(idmap) + fv.verts.map_values(idmap));
                    lemma_index_bytes_add(
                        ibpre,
                        spec_face_ids(fviews.take(k + 1)).map_values(idmap),
                    );
                    lemma_index_bytes_add(
                        ibpre,
                        spec_face_ids(fviews.take(k as int)).map_values(idmap),
                    );
                    lemma_index_bytes_add(
                        ibpre + spec_face_ids(fviews.take(k as int)).map_values(idmap),
                        fv.verts.map_values(idmap),
                    );
                    assert((ibpre + spec_face_ids(fviews.take(k as int)).map_values(idmap))
                        + fv.verts.map_values(idmap) =~= ibpre + spec_face_ids(
                        fviews.take(k + 1),
                    ).map_values(idmap));
                }
                k = k + 1;
            }
            proof {
                assert(fviews.take(nf as int) =~= fviews);
                lemma_mesh_ids_step(self.sections@, s as int);
                assert(self.spec_vtx_index_ids(s as int + 1) =~= ibpre + spec_face_ids(
                    fviews,
                ).map_values(idmap));
            }
            off = off + part.len();
            s = s + 1;
        }
        proof {
            assert(self.sections@.take(self.sections@.len() as int) =~= self.sections@);
        }
        (vbuf, off, ibuf, icount)
    }
}

/// The four emission layout modes.
#[derive(Clone, Copy, Debug, PartialEq, Eq, Structural)]
pub enum MeshBufferType {
    /// Payload only; a global index buffer shares one entry per vertex.
    NoNormals,
    /// Payload plus per-section-averaged vertex normal; an index buffer
    /// shares one entry per (vertex, section) pair.
    VertexNormals,
    /// Payload merged with the face override plus per-section vertex
    /// normal, unrolled: one entry per face corner, no index buffer.
    VertexNormalFaceData,
    /// Payload merged with the face override plus the face normal
    /// broadcast to its corners, unrolled: no index buffer.
    FaceNormals,
}

/// A face list's views with every missing normal filled in as generation
/// computes it from the pre-generation state `g`.
pub open spec fn spec_with_generated_normals<V: Position3D>(
    g: MeshGeometry<V>,
    fs: Seq<FaceView<V>>,
) -> Seq<FaceView<V>> {
    fs.map_values(
        |fv: FaceView<V>| FaceView {
            verts: fv.verts,
            normal: crate::normal::spec_generated_normal(g, fv),
            data: fv.data,
        },
    )
}

/// Three corners for every face of a quad-free list.
proof fn lemma_no_quads_all_tris<V>(fs: Seq<FaceView<V>>)
    requires
        crate::tri::count_quads(fs) == 0,
        forall|k: int| 0 <= k < fs.len() ==> 3 <= (#[trigger] fs[k]).verts.len() <= 4,
    ensures
        spec_face_ids(fs).len() == 3 * fs.len(),
    decreases fs.len(),
{
    if fs.len() > 0 {
        assert(crate::tri::count_quads(fs.drop_last()) >= 0) by {
            crate::tri::lemma_count_quads_nonneg(fs.drop_last());
        }
        lemma_no_quads_all_tris(fs.drop_last());
        assert(fs.last().verts.len() == 3);
    }
}

/// Every face of the triangulated expansion of a normal-bearing list
/// carries a normal.
proof fn lemma_triangulated_normals<V>(fs: Seq<FaceView<V>>, x: FaceView<V>)
    requires
        forall|k: int| 0 <= k < fs.len() ==> (#[trigger] fs[k]).normal is Some,
        crate::tri::spec_triangulated(fs).contains(x),
    ensures
        x.normal is Some,
    decreases fs.len(),
{
    broadcast use vstd::multiset::group_multiset_axioms;

    if fs.len() > 0 {
        if crate::tri::face_tris(fs.last()).contains(x) {
            assert(fs.last().normal is Some);
        } else {
            lemma_triangulated_normals(fs.drop_last(), x);
        }
    }
}

/// The positional face total equals the per-section sums a triangulation
/// leaves behind.
proof fn lemma_total_faces_by_position<V>(
    a: Seq<SectionFaces<V>>,
    b: Seq<SectionFaces<V>>,
)
    requires
        a.len() == b.len(),
        forall|p: int|
            0 <= p < a.len() ==> (#[trigger] b[p].faces@.len()) as int == a[p].faces@.len()
                + crate::tri::count_quads(views_of(a[p].faces@)),
    ensures
        spec_total_faces(b) == spec_total_faces(a) + spec_total_quads(a),
    decreases a.len(),
{
    if a.len() > 0 {
        lemma_total_faces_by_position(a.drop_last(), b.drop_last());
        assert(b.drop_last().len() == a.drop_last().len());
    }
}

/// The positional quad total.
pub open spec fn spec_total_quads<V>(ss: Seq<SectionFaces<V>>) -> int
    decreases ss.len(),
{
    if ss.len() == 0 {
        0
    } else {
        spec_total_quads(ss.drop_last()) + crate::tri::count_quads(views_of(ss.last().faces@))
    }
}

/// The id total of a quad-free mesh is three per face.
proof fn lemma_mesh_ids_all_tris<V>(ss: Seq<SectionFaces<V>>)
    requires
        forall|p: int|
            0 <= p < ss.len() ==> crate::tri::count_quads(views_of((#[trigger] ss[p]).faces@))
                == 0,
        forall|p: int, k: int|
            0 <= p < ss.len() && 0 <= k < ss[p].faces@.len() ==> 3 <= (
            #[trigger] ss[p].faces@[k]).vertices@.len() <= 4,
    ensures
        spec_mesh_ids(ss).len() == 3 * spec_total_faces(ss),
    decreases ss.len(),
{
    if ss.len() > 0 {
        lemma_mesh_ids_all_tris(ss.drop_last());
        lemma_no_quads_all_tris(views_of(ss.last().faces@));
    }
}

/// Two face lists with corners of the same sizes hold the same number of
/// quads.
proof fn lemma_count_quads_same_shape<V>(a: Seq<FaceView<V>>, b: Seq<FaceView<V>>)
    requires
        a.len() == b.len(),
        forall|k: int| 0 <= k < a.len() ==> (#[trigger] a[k]).verts.len() == b[k].verts.len(),
    ensures
        crate::tri::count_quads(a) == crate::tri::count_quads(b),
    decreases a.len(),
{
    if a.len() > 0 {
        lemma_count_quads_same_shape(a.drop_last(), b.drop_last());
    }
}

/// Four bytes per index.
proof fn lemma_index_bytes_len(ids: Seq<usize>)
    ensures
        spec_index_bytes(ids).len() == 4 * ids.len(),
    decreases ids.len(),
{
    let f = |id: usize| spec_u32_le(id as u32);
    if ids.len() > 0 {
        lemma_index_bytes_len(ids.drop_last());
        assert(ids.map_values(f).drop_last() =~= ids.drop_last().map_values(f));
    }
}

impl<V: Position3D + OverrideAttributesWith + BufferedVertexData + Copy> MeshGeometry<V> {
    /// Per-section offsets stay below sections-times-vertices.
    proof fn lemma_vtx_offset_bound(self, s: int)
        requires
            0 <= s <= self.sections@.len(),
            self.vertices@.len() <= usize::MAX,
        ensures
            self.spec_vtx_offset(s) <= s * self.vertices@.len(),
        decreases s,
    {
        broadcast use vstd::seq_lib::group_filter_ensures;

        if s > 0 {
            self.lemma_vtx_offset_bound(s - 1);
            let sid = self.sections@[s - 1].id;
            assert(spec_participants(self.vertices@, sid).len() <= self.vertices@.len()) by {
                let base = Seq::new(
                    self.vertices@.len(),
                    |i: int| i as usize,
                );
                assert(spec_participants(self.vertices@, sid) == base.filter(
                    |v: usize| spec_participates(self.vertices@[v as int], sid),
                ));
            }
            assert(s * self.vertices@.len() == (s - 1) * self.vertices@.len()
                + self.vertices@.len()) by (nonlinear_arith);
        }
    }

    /// After triangulation the id total is three per face, and the face
    /// total is the pre-triangulation faces plus quads.
    proof fn lemma_counts_after(self, gold: MeshGeometry<V>)
        requires
            self.wf(),
            gold.wf(),
            self.sections@.len() == gold.sections@.len(),
            forall|p: int|
                0 <= p < gold.sections@.len() ==> (#[trigger] self.sections@[p].id)
                    == gold.sections@[p].id,
            forall|sid: usize| crate::tri::count_quads(#[trigger] self.section_views(sid)) == 0,
            forall|sid: usize|
                (#[trigger] self.section_views(sid)).len() == gold.section_views(sid).len()
                    + crate::tri::count_quads(gold.section_views(sid)),
        ensures
            spec_mesh_ids(self.sections@).len() == 3 * (spec_total_faces(gold.sections@)
                + spec_total_quads(gold.sections@)),
            spec_total_faces(self.sections@) == spec_total_faces(gold.sections@)
                + spec_total_quads(gold.sections@),
    {
        assert forall|p: int|
            0 <= p < self.sections@.len() implies crate::tri::count_quads(
            views_of((#[trigger] self.sections@[p]).faces@),
        ) == 0 && (self.sections@[p].faces@.len()) as int == gold.sections@[p].faces@.len()
            + crate::tri::count_quads(views_of(gold.sections@[p].faces@)) by {
            let sid = self.sections@[p].id;
            self.lemma_section_pos_unique(self.section_pos(sid), p);
            assert(self.section_views(sid) == views_of(self.sections@[p].faces@));
            gold.lemma_section_pos_unique(gold.section_pos(sid), p);
            assert(gold.sections@[p].id == sid);
            assert(gold.section_views(sid) == views_of(gold.sections@[p].faces@));
        }
        lemma_total_faces_by_position(gold.sections@, self.sections@);
        assert forall|p: int, k: int|
            0 <= p < self.sections@.len() && 0 <= k
                < self.sections@[p].faces@.len() implies 3 <= (
        #[trigger] self.sections@[p].faces@[k]).vertices@.len() <= 4 by {
            assert(crate::mesh::face_view_wf(
                self.sections@[p].faces@[k]@,
                self.n_vertices(),
            ));
        }
        lemma_mesh_ids_all_tris(self.sections@);
    }

    /// Triangulates the mesh (and, for the normal-bearing modes, fills
    /// face normals in first, so quads still offer their fourth-vertex
    /// fallback) and emits the flat buffer bundle of the requested mode.
    ///
    /// Emission mutates the builder: repeated calls see the accumulated
    /// triangulation and normals.
    #[verifier::rlimit(100)]
    pub fn to_renderable_buffer_by_type(&mut self, geom_type: MeshBufferType) -> (r:
        RenderableBuffer)
        requires
            old(self).wf(),
            old(self).vertices@.len() <= u32::MAX,
            3 * (spec_total_faces(old(self).sections@) + spec_total_quads(old(self).sections@))
                <= u32::MAX,
            geom_type == MeshBufferType::VertexNormals ==> old(self).sections@.len() * old(
                self,
            ).vertices@.len() <= u32::MAX,
        ensures
            final(self).wf(),
            final(self).vertices@.len() == old(self).vertices@.len(),
            forall|v: int|
                0 <= v < old(self).vertices@.len() ==> (#[trigger] final(self).vertices@[v]).data
                    == old(self).vertices@[v].data,
            final(self).tri_adds == old(self).tri_adds,
            final(self).quad_adds == old(self).quad_adds,
            final(self).loose_resolves == old(self).loose_resolves,
            final(self).pos_log == old(self).pos_log,
            final(self).position_ids == old(self).position_ids,
            forall|sid: usize|
                crate::tri::count_quads(#[trigger] final(self).section_views(sid)) == 0,
            forall|sid: usize|
                (#[trigger] final(self).section_views(sid)).len() == old(self).section_views(
                    sid,
                ).len() + crate::tri::count_quads(old(self).section_views(sid)),
            ((forall|sid: usize|
                crate::tri::count_quads(#[trigger] old(self).section_views(sid)) == 0) && (
            geom_type != MeshBufferType::NoNormals ==> all_normals_set(*old(self))))
                ==> *final(self) == *old(self),
            geom_type == MeshBufferType::NoNormals ==> {
                &&& (forall|sid: usize|
                    (#[trigger] final(self).section_views(sid)).to_multiset()
                        == crate::tri::spec_triangulated(old(self).section_views(sid)))
                &&& r.vertex_buffer@ == spec_payload_records(final(self).vertices@)
                &&& r.vertex_count as int == old(self).vertices@.len()
                &&& r.index_count as int == 3 * (spec_total_faces(old(self).sections@)
                    + spec_total_quads(old(self).sections@))
                &&& (match r.index_buffer {
                    Some(ib) => ib@ == spec_index_bytes(spec_mesh_ids(final(self).sections@))
                        && ib@.len() > 0,
                    None => spec_mesh_ids(final(self).sections@).len() == 0,
                })
            },
            geom_type != MeshBufferType::NoNormals ==> {
                &&& (forall|sid: usize|
                    (#[trigger] final(self).section_views(sid)).to_multiset()
                        == crate::tri::spec_triangulated(
                        spec_with_generated_normals(
                            *old(self),
                            old(self).section_views(sid),
                        ),
                    ))
                &&& all_normals_set(*final(self))
            },
            geom_type == MeshBufferType::FaceNormals ==> {
                &&& r.vertex_buffer@ == final(self).spec_face_normal_mesh(final(self).sections@)
                &&& r.vertex_count as int == 3 * (spec_total_faces(old(self).sections@)
                    + spec_total_quads(old(self).sections@))
                &&& r.index_buffer is None
                &&& r.index_count == 0
            },
            geom_type == MeshBufferType::VertexNormalFaceData ==> {
                &&& r.vertex_buffer@ == final(self).spec_vn_mesh(final(self).sections@)
                &&& r.vertex_count as int == 3 * (spec_total_faces(old(self).sections@)
                    + spec_total_quads(old(self).sections@))
                &&& r.index_buffer is None
                &&& r.index_count == 0
            },
            geom_type == MeshBufferType::VertexNormals ==> {
                &&& r.vertex_buffer@ == final(self).spec_vtx_normals_mesh(final(self).sections@)
                &&& r.vertex_count as int == final(self).spec_vtx_offset(
                    final(self).sections@.len() as int,
                )
                &&& r.index_count as int == 3 * (spec_total_faces(old(self).sections@)
                    + spec_total_quads(old(self).sections@))
                &&& (match r.index_buffer {
                    Some(ib) => ib@ == spec_index_bytes(
                        final(self).spec_vtx_index_ids(final(self).sections@.len() as int),
                    ) && ib@.len() > 0,
                    None => spec_mesh_ids(final(self).sections@).len() == 0,
                })
            },
    {
        match geom_type {
            MeshBufferType::NoNormals => {
                self.triangulate();
                proof {
                    self.lemma_counts_after(*old(self));
                }
                let vbuf = self.emit_payload_buffer();
                let (ibytes, icount) = self.emit_index_buffer();
                proof {
                    lemma_index_bytes_len(spec_mesh_ids(self.sections@));
                }
                let index_buffer = if ibytes.len() == 0 {
                    None
                } else {
                    Some(ibytes)
                };
                RenderableBuffer {
                    vertex_buffer: vbuf,
                    index_buffer,
                    vertex_count: self.vertices.len() as u32,
                    index_count: icount as u32,
                }
            },
            _ => {
                self.generate_face_normals();
                let ghost g1 = *self;
                self.triangulate();
                proof {
                    // after generation the views are the generated views
                    assert forall|sid: usize| #[trigger]
                        g1.section_views(sid) =~= spec_with_generated_normals(
                        *old(self),
                        old(self).section_views(sid),
                    ) by {}
                    // quad counts survive normal generation
                    assert forall|sid: usize| crate::tri::count_quads(
                        #[trigger] g1.section_views(sid),
                    ) == crate::tri::count_quads(old(self).section_views(sid)) by {
                        lemma_count_quads_same_shape(
                            g1.section_views(sid),
                            old(self).section_views(sid),
                        );
                    }
                    self.lemma_counts_after(g1);
                    // a triangulated, normal-bearing mesh passes through unchanged
                    if (forall|sid: usize|
                        crate::tri::count_quads(#[trigger] old(self).section_views(sid)) == 0)
                        && all_normals_set(*old(self)) {
                        assert(g1 == *old(self));
                        assert(forall|sid: usize|
                            crate::tri::count_quads(#[trigger] g1.section_views(sid)) == 0);
                        assert(*self == g1);
                    }
                    // normal generation kept every section's shape
                    assert forall|p: int|
                        0 <= p < old(self).sections@.len() implies (
                    #[trigger] g1.sections@[p].faces@.len()) == old(self).sections@[p].faces@.len()
                        && crate::tri::count_quads(views_of(g1.sections@[p].faces@))
                        == crate::tri::count_quads(views_of(old(self).sections@[p].faces@)) by {
                        let sid = g1.sections@[p].id;
                        g1.lemma_section_pos_unique(g1.section_pos(sid), p);
                        assert(old(self).sections@[p].id == sid);
                        old(self).lemma_section_pos_unique(old(self).section_pos(sid), p);
                        assert(g1.section_views(sid) == views_of(g1.sections@[p].faces@));
                        assert(old(self).section_views(sid) == views_of(
                            old(self).sections@[p].faces@,
                        ));
                        lemma_count_quads_same_shape(
                            views_of(g1.sections@[p].faces@),
                            views_of(old(self).sections@[p].faces@),
                        );
                    }
                    lemma_totals_eq(old(self).sections@, g1.sections@);
                    // every face of the triangulated expansion keeps a normal
                    assert(all_normals_set(*self)) by {
                        assert forall|s: int, k: int|
                            0 <= s < self.sections@.len() && 0 <= k
                                < self.sections@[s].faces@.len() implies (
                        #[trigger] self.sections@[s].faces@[k]).face_normal is Some by {
                            let sid = self.sections@[s].id;
                            self.lemma_section_pos_unique(self.section_pos(sid), s);
                            assert(self.section_views(sid) == views_of(self.sections@[s].faces@));
                            let fv = self.sections@[s].faces@[k]@;
                            broadcast use vstd::seq_lib::group_to_multiset_ensures;

                            assert(self.section_views(sid).contains(fv)) by {
                                assert(self.section_views(sid)[k] == fv);
                            }
                            assert(self.section_views(sid).to_multiset().count(fv) > 0);
                            assert(crate::tri::spec_triangulated(g1.section_views(sid)).contains(
                                fv,
                            ));
                            assert forall|k2: int|
                                0 <= k2 < g1.section_views(sid).len() implies (
                            #[trigger] g1.section_views(sid)[k2]).normal is Some by {}
                            lemma_triangulated_normals(g1.section_views(sid), fv);
                        }
                    }
                }
                match geom_type {
                    MeshBufferType::FaceNormals => {
                        let (vbuf, vcount) = self.emit_face_normals_buffer();
                        RenderableBuffer {
                            vertex_buffer: vbuf,
                            index_buffer: None,
                            vertex_count: vcount as u32,
                            index_count: 0,
                        }
                    },
                    MeshBufferType::VertexNormalFaceData => {
                        let (vbuf, vcount) = self.emit_vertex_normal_face_data_buffer();
                        RenderableBuffer {
                            vertex_buffer: vbuf,
                            index_buffer: None,
                            vertex_count: vcount as u32,
                            index_count: 0,
                        }
                    },
                    _ => {
                        proof {
                            self.lemma_vtx_offset_bound(self.sections@.len() as int);
                            let a = self.sections@.len() as int;
                            let b = self.vertices@.len() as int;
                            let a2 = old(self).sections@.len() as int;
                            let b2 = old(self).vertices@.len() as int;
                            assert(a * b <= a2 * b2) by (nonlinear_arith)
                                requires
                                    a == a2,
                                    b == b2,
                                    a >= 0,
                                    b >= 0,
                            ;
                        }
                        let (vbuf, vcount, ibytes, icount) = self.emit_vertex_normals();
                        proof {
                            lemma_index_bytes_len(
                                self.spec_vtx_index_ids(self.sections@.len() as int),
                            );
                            lemma_mesh_ids_count_eq(self, self.sections@.len() as int);
                            assert(self.sections@.take(self.sections@.len() as int)
                                =~= self.sections@);
                        }
                        let index_buffer = if ibytes.len() == 0 {
                            None
                        } else {
                            Some(ibytes)
                        };
                        RenderableBuffer {
                            vertex_buffer: vbuf,
                            index_buffer,
                            vertex_count: vcount as u32,
                            index_count: icount as u32,
                        }
                    },
                }
            },
        }
    }
}

/// Equal per-section shapes give equal face and quad totals.
proof fn lemma_totals_eq<V>(a: Seq<SectionFaces<V>>, b: Seq<SectionFaces<V>>)
    requires
        a.len() == b.len(),
        forall|p: int|
            0 <= p < a.len() ==> (#[trigger] b[p].faces@.len()) == a[p].faces@.len()
                && crate::tri::count_quads(views_of(b[p].faces@)) == crate::tri::count_quads(
                views_of(a[p].faces@),
            ),
    ensures
        spec_total_faces(b) == spec_total_faces(a),
        spec_total_quads(b) == spec_total_quads(a),
    decreases a.len(),
{
    if a.len() > 0 {
        lemma_totals_eq(a.drop_last(), b.drop_last());
    }
}

/// The shifted index list of the indexed vertex-normal mode has one entry
/// per mesh id.
proof fn lemma_mesh_ids_count_eq<V: Position3D + OverrideAttributesWith + BufferedVertexData + Copy>(
    g: &MeshGeometry<V>,
    s: int,
)
    requires
        0 <= s <= g.sections@.len(),
    ensures
        g.spec_vtx_index_ids(s).len() == spec_mesh_ids(g.sections@.take(s)).len(),
    decreases s,
{
    if s > 0 {
        lemma_mesh_ids_count_eq(g, s - 1);
        assert(g.sections@.take(s).drop_last() =~= g.sections@.take(s - 1));
        assert(g.sections@.take(s).last() == g.sections@[s - 1]);
    }
}

/// The attribute layout one emission mode produces: the payload's declared
/// attributes, followed by a three-float normal for the normal-bearing
/// modes.
pub open spec fn spec_mode_layout<V: BufferedVertexData>(geom_type: MeshBufferType) -> Seq<
    crate::layout::VertexType,
> {
    if geom_type == MeshBufferType::NoNormals {
        V::spec_layout()
    } else {
        V::spec_layout().push(
            (crate::layout::VertexType {
                name: "normal",
                format: crate::layout::VertexFormat::Float32x3,
            }),
        )
    }
}

impl<V: Position3D + OverrideAttributesWith + BufferedVertexData + Copy> MeshGeometry<V> {
    /// Emits the flat buffer bundle of the requested mode together with
    /// the record layout a consumer needs to bind it: the payload's
    /// declared attributes, plus a trailing three-float normal for the
    /// normal-bearing modes, each with its byte offset, and the record
    /// size. The reported vertex count is the index count where an index
    /// buffer is present.
    #[verifier::rlimit(100)]
    pub fn to_buffered_geometry_by_type(&mut self, geom_type: MeshBufferType) -> (r:
        crate::layout::BufferedGeometry)
        requires
            old(self).wf(),
            old(self).vertices@.len() <= u32::MAX,
            3 * (spec_total_faces(old(self).sections@) + spec_total_quads(old(self).sections@))
                <= u32::MAX,
            geom_type == MeshBufferType::VertexNormals ==> old(self).sections@.len() * old(
                self,
            ).vertices@.len() <= u32::MAX,
            crate::layout::spec_layout_size(
                V::spec_layout(),
                V::spec_layout().len() as int,
            ) + 12 <= u32::MAX,
        ensures
            final(self).wf(),
            ((forall|sid: usize|
                crate::tri::count_quads(#[trigger] old(self).section_views(sid)) == 0) && (
            geom_type != MeshBufferType::NoNormals ==> all_normals_set(*old(self))))
                ==> *final(self) == *old(self),
            r.rendering_primitive == crate::layout::RenderingPrimitive::Triangles,
            r.vertex_layout@.len() == spec_mode_layout::<V>(geom_type).len(),
            r.vertex_size == crate::layout::spec_layout_size(
                spec_mode_layout::<V>(geom_type),
                spec_mode_layout::<V>(geom_type).len() as int,
            ),
            forall|i: int|
                0 <= i < spec_mode_layout::<V>(geom_type).len() ==> {
                    let a = #[trigger] r.vertex_layout@[i];
                    let vt = spec_mode_layout::<V>(geom_type)[i];
                    &&& a.name == vt.name
                    &&& a.size == vt.format.spec_count()
                    &&& a.attr_type == vt.format.spec_attr_type()
                    &&& a.normalized == vt.format.spec_normalized()
                    &&& a.offset == crate::layout::spec_layout_size(
                        spec_mode_layout::<V>(geom_type),
                        i,
                    )
                },
            geom_type == MeshBufferType::NoNormals ==> {
                &&& r.buffer@ == spec_payload_records(final(self).vertices@)
                &&& (match r.indices {
                    Some(ib) => ib@ == spec_index_bytes(spec_mesh_ids(final(self).sections@))
                        && r.vertex_count as int == 3 * (spec_total_faces(old(self).sections@)
                        + spec_total_quads(old(self).sections@)),
                    None => r.vertex_count as int == old(self).vertices@.len(),
                })
            },
            geom_type == MeshBufferType::FaceNormals ==> {
                &&& r.buffer@ == final(self).spec_face_normal_mesh(final(self).sections@)
                &&& r.indices is None
                &&& r.vertex_count as int == 3 * (spec_total_faces(old(self).sections@)
                    + spec_total_quads(old(self).sections@))
            },
            geom_type == MeshBufferType::VertexNormalFaceData ==> {
                &&& r.buffer@ == final(self).spec_vn_mesh(final(self).sections@)
                &&& r.indices is None
                &&& r.vertex_count as int == 3 * (spec_total_faces(old(self).sections@)
                    + spec_total_quads(old(self).sections@))
            },
            geom_type == MeshBufferType::VertexNormals ==> {
                &&& r.buffer@ == final(self).spec_vtx_normals_mesh(final(self).sections@)
                &&& (match r.indices {
                    Some(ib) => ib@ == spec_index_bytes(
                        final(self).spec_vtx_index_ids(final(self).sections@.len() as int),
                    ) && r.vertex_count as int == 3 * (spec_total_faces(old(self).sections@)
                        + spec_total_quads(old(self).sections@)),
                    None => r.vertex_count as int == final(self).spec_vtx_offset(
                        final(self).sections@.len() as int,
                    ),
                })
            },
    {
        let mut layout = V::vertex_layout();
        let ghost base = V::spec_layout();
        if geom_type != MeshBufferType::NoNormals {
            layout.push(
                crate::layout::VertexType {
                    name: "normal",
                    format: crate::layout::VertexFormat::Float32x3,
                },
            );
            proof {
                crate::layout::lemma_layout_size_push(
                    base,
                    crate::layout::VertexType {
                        name: "normal",
                        format: crate::layout::VertexFormat::Float32x3,
                    },
                );
            }
        }
        proof {
            assert(layout@ == spec_mode_layout::<V>(geom_type));
            crate::layout::lemma_layout_size_nonneg(base, base.len() as int);
        }
        let buffer = self.to_renderable_buffer_by_type(geom_type);
        let geom_layout = crate::layout::create_buffered_geometry_layout(layout);
        let vertex_count = if buffer.index_buffer.is_some() {
            buffer.index_count
        } else {
            buffer.vertex_count
        };
        crate::layout::BufferedGeometry {
            rendering_primitive: crate::layout::RenderingPrimitive::Triangles,
            vertex_count,
            vertex_size: geom_layout.vertex_size,
            vertex_layout: geom_layout.vertex_layout,
            buffer: buffer.vertex_buffer,
            indices: buffer.index_buffer,
        }
    }
}

/// Appends every byte of `bytes` to `out`.
pub fn extend_bytes(out: &mut Vec<u8>, bytes: &Vec<u8>)
    ensures
        final(out)@ == old(out)@ + bytes@,
{
    let ghost pre = out@;
    let mut w: usize = 0;
    while w < bytes.len()
        invariant
            w <= bytes@.len(),
            out@ == pre + bytes@.take(w as int),
        decreases bytes@.len() - w,
    {
        out.push(bytes[w]);
        proof {
            assert(out@ =~= pre + bytes@.take(w + 1));
        }
        w = w + 1;
    }
    proof {
        assert(bytes@.take(bytes@.len() as int) =~= bytes@);
        assert(out@ =~= pre + bytes@);
    }
}

} // verus!
