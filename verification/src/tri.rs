//! Triangulation: every quad face is replaced, in place, by the two
//! triangles of its diagonal split.
//!
//! The exact statement is multiset-level: after `triangulate`, a section's
//! faces are precisely the triangulated expansion of what it held before —
//! each triangle kept, each quad (v0,v1,v2,v3) replaced by (v0,v1,v2) and
//! (v0,v2,v3), both inheriting the quad's explicit normal and override
//! payload. Face order inside a section is not preserved.

use vstd::prelude::*;
use vstd::multiset::Multiset;
use crate::mesh::Face;
use crate::mesh::FaceView;
use crate::mesh::MeshGeometry;
use crate::mesh::face_view_wf;
use crate::payload::Position3D;

verus! {

/// The views of a face list, in list order.
pub open spec fn views_of<V>(fs: Seq<Face<V>>) -> Seq<FaceView<V>> {
    fs.map_values(|f: Face<V>| f@)
}

/// 1 for a quad, 0 for a triangle.
pub open spec fn is_quad<V>(f: FaceView<V>) -> int {
    if f.verts.len() == 4 {
        1
    } else {
        0
    }
}

/// How many faces of the list are quads.
pub open spec fn count_quads<V>(fs: Seq<FaceView<V>>) -> int
    decreases fs.len(),
{
    if fs.len() == 0 {
        0
    } else {
        count_quads(fs.drop_last()) + is_quad(fs.last())
    }
}

/// What one face contributes to the triangulated mesh: itself for a
/// triangle, the two triangles of the diagonal split for a quad.
pub open spec fn face_tris<V>(f: FaceView<V>) -> Multiset<FaceView<V>> {
    if f.verts.len() == 4 {
        Multiset::empty().insert(
            (FaceView { verts: seq![f.verts[0], f.verts[1], f.verts[2]], normal: f.normal, data: f.data }),
        ).insert(
            (FaceView { verts: seq![f.verts[0], f.verts[2], f.verts[3]], normal: f.normal, data: f.data }),
        )
    } else {
        Multiset::empty().insert(f)
    }
}

/// The triangulated expansion of a face list, as a multiset.
pub open spec fn spec_triangulated<V>(fs: Seq<FaceView<V>>) -> Multiset<FaceView<V>>
    decreases fs.len(),
{
    if fs.len() == 0 {
        Multiset::empty()
    } else {
        spec_triangulated(fs.drop_last()).add(face_tris(fs.last()))
    }
}

/// Unfolds both measures over a push.
proof fn lemma_tri_push<V>(fs: Seq<FaceView<V>>, f: FaceView<V>)
    ensures
        spec_triangulated(fs.push(f)) == spec_triangulated(fs).add(face_tris(f)),
        count_quads(fs.push(f)) == count_quads(fs) + is_quad(f),
{
    broadcast use vstd::multiset::group_multiset_axioms;

    assert(fs.push(f).drop_last() =~= fs);
    assert(fs.push(f).last() == f);
}

/// Overwriting one face swaps its contribution for the new face's.
proof fn lemma_tri_update<V>(fs: Seq<FaceView<V>>, k: int, y: FaceView<V>)
    requires
        0 <= k < fs.len(),
    ensures
        spec_triangulated(fs.update(k, y)).add(face_tris(fs[k])) == spec_triangulated(fs).add(
            face_tris(y),
        ),
        count_quads(fs.update(k, y)) + is_quad(fs[k]) == count_quads(fs) + is_quad(y),
    decreases fs.len(),
{
    broadcast use vstd::multiset::group_multiset_axioms;

    let up = fs.update(k, y);
    if k == fs.len() - 1 {
        assert(up.drop_last() =~= fs.drop_last());
        assert(up.last() == y);
        assert(fs.last() == fs[k]);
        assert(spec_triangulated(up).add(face_tris(fs[k])) =~= spec_triangulated(fs).add(
            face_tris(y),
        ));
    } else {
        assert(up.drop_last() =~= fs.drop_last().update(k, y));
        assert(up.last() == fs.last());
        lemma_tri_update(fs.drop_last(), k, y);
        assert(fs.drop_last()[k] == fs[k]);
        assert(spec_triangulated(up) == spec_triangulated(fs.drop_last().update(k, y)).add(
            face_tris(fs.last()),
        ));
        assert(spec_triangulated(fs) == spec_triangulated(fs.drop_last()).add(
            face_tris(fs.last()),
        ));
        assert forall|e: FaceView<V>|
            #[trigger] spec_triangulated(up).add(face_tris(fs[k])).count(e) == spec_triangulated(
                fs,
            ).add(face_tris(y)).count(e) by {
            assert(spec_triangulated(up).count(e) == spec_triangulated(
                fs.drop_last().update(k, y),
            ).count(e) + face_tris(fs.last()).count(e));
            assert(spec_triangulated(fs.drop_last().update(k, y)).add(face_tris(fs[k])).count(e)
                == spec_triangulated(fs.drop_last()).add(face_tris(y)).count(e));
            assert(spec_triangulated(fs.drop_last().update(k, y)).count(e) + face_tris(
                fs[k],
            ).count(e) == spec_triangulated(fs.drop_last()).count(e) + face_tris(y).count(e));
            assert(spec_triangulated(fs).count(e) == spec_triangulated(fs.drop_last()).count(e)
                + face_tris(fs.last()).count(e));
        }
        assert(spec_triangulated(up).add(face_tris(fs[k])) =~= spec_triangulated(fs).add(
            face_tris(y),
        ));
        assert(count_quads(up) == count_quads(fs.drop_last().update(k, y)) + is_quad(fs.last()));
    }
}

/// Swap-removal takes exactly the removed face's contribution away.
proof fn lemma_tri_swap_remove<V>(fs: Seq<FaceView<V>>, k: int)
    requires
        0 <= k < fs.len(),
    ensures
        spec_triangulated(fs.update(k, fs.last()).drop_last()).add(face_tris(fs[k]))
            == spec_triangulated(fs),
        count_quads(fs.update(k, fs.last()).drop_last()) + is_quad(fs[k]) == count_quads(fs),
    decreases fs.len(),
{
    broadcast use vstd::multiset::group_multiset_axioms;

    let g = fs.update(k, fs.last()).drop_last();
    if k == fs.len() - 1 {
        assert(g =~= fs.drop_last());
        assert(fs[k] == fs.last());
    } else {
        assert(g =~= fs.drop_last().update(k, fs.last()));
        lemma_tri_update(fs.drop_last(), k, fs.last());
        assert(fs.drop_last()[k] == fs[k]);
        assert(spec_triangulated(fs.drop_last().update(k, fs.last())).add(face_tris(fs[k]))
            == spec_triangulated(fs.drop_last()).add(face_tris(fs.last())));
        assert(spec_triangulated(fs) == spec_triangulated(fs.drop_last()).add(
            face_tris(fs.last()),
        ));
        assert(spec_triangulated(g).add(face_tris(fs[k])) =~= spec_triangulated(fs));
    }
}

/// A list without quads contributes itself, face for face.
proof fn lemma_tri_no_quads_identity<V>(fs: Seq<FaceView<V>>)
    requires
        count_quads(fs) == 0,
    ensures
        spec_triangulated(fs) == fs.to_multiset(),
    decreases fs.len(),
{
    broadcast use vstd::seq_lib::group_to_multiset_ensures;
    broadcast use vstd::multiset::group_multiset_axioms;

    if fs.len() == 0 {
        assert(fs.to_multiset() =~= Multiset::<FaceView<V>>::empty()) by {
            assert(fs.to_multiset().len() == 0);
        }
    } else {
        assert(count_quads(fs.drop_last()) >= 0) by {
            lemma_count_quads_nonneg(fs.drop_last());
        }
        assert(is_quad(fs.last()) >= 0);
        lemma_tri_no_quads_identity(fs.drop_last());
        assert(fs.drop_last().push(fs.last()) =~= fs);
        assert(fs.drop_last().to_multiset().insert(fs.last()) == fs.to_multiset());
        assert(spec_triangulated(fs) =~= fs.to_multiset());
    }
}

/// Quad counts are never negative.
pub(crate) proof fn lemma_count_quads_nonneg<V>(fs: Seq<FaceView<V>>)
    ensures
        count_quads(fs) >= 0,
    decreases fs.len(),
{
    if fs.len() > 0 {
        lemma_count_quads_nonneg(fs.drop_last());
    }
}

impl<V: Position3D + Copy> MeshGeometry<V> {
    /// Splits every quad of every section into two triangles, in place:
    /// the quad is swap-removed and the triangles (v0,v1,v2) and
    /// (v0,v2,v3) are appended, inheriting its explicit normal and
    /// override payload and registering fresh back-references. A second
    /// call finds no quads and changes nothing.
    #[verifier::rlimit(100)]
    pub fn triangulate(&mut self)
        requires
            old(self).wf(),
        ensures
            final(self).wf(),
            final(self).sections@.len() == old(self).sections@.len(),
            forall|p: int|
                0 <= p < old(self).sections@.len() ==> (#[trigger] final(self).sections@[p].id)
                    == old(self).sections@[p].id,
            forall|sid: usize|
                (#[trigger] final(self).section_views(sid)).to_multiset() == spec_triangulated(
                    old(self).section_views(sid),
                ),
            forall|sid: usize|
                (#[trigger] final(self).section_views(sid)).len() == old(self).section_views(
                    sid,
                ).len() + count_quads(old(self).section_views(sid)),
            forall|sid: usize| count_quads(#[trigger] final(self).section_views(sid)) == 0,
            forall|sid: usize|
                count_quads(old(self).section_views(sid)) == 0 ==> final(self).section_views(sid)
                    =~= old(self).section_views(sid),
            (forall|sid: usize| count_quads(#[trigger] old(self).section_views(sid)) == 0)
                ==> *final(self) == *old(self),
            final(self).vertices@.len() == old(self).vertices@.len(),
            forall|v: int|
                0 <= v < old(self).vertices@.len() ==> {
                    &&& (#[trigger] final(self).vertices@[v]).data == old(self).vertices@[v].data
                    &&& final(self).vertices@[v].vertex_normal == old(self).vertices@[
                        v
                    ].vertex_normal
                },
            final(self).position_ids == old(self).position_ids,
            final(self).tri_adds == old(self).tri_adds,
            final(self).quad_adds == old(self).quad_adds,
            final(self).loose_resolves == old(self).loose_resolves,
            final(self).pos_log == old(self).pos_log,
    {
        let ghost orig = *old(self);
        let mut s: usize = 0;
        while s < self.sections.len()
            invariant
                self.wf(),
                orig.wf(),
                s <= self.sections@.len(),
                self.sections@.len() == orig.sections@.len(),
                forall|p: int|
                    0 <= p < orig.sections@.len() ==> (#[trigger] self.sections@[p].id)
                        == orig.sections@[p].id,
                forall|p: int|
                    s <= p < orig.sections@.len() ==> (#[trigger] self.sections@[p])
                        == orig.sections@[p],
                forall|p: int|
                    0 <= p < s ==> section_triangulated(
                        views_of((#[trigger] orig.sections@[p]).faces@),
                        views_of(self.sections@[p].faces@),
                    ),
                (forall|sid: usize| count_quads(#[trigger] orig.section_views(sid)) == 0)
                    ==> *self == orig,
                self.vertices@.len() == orig.vertices@.len(),
                forall|v: int|
                    0 <= v < orig.vertices@.len() ==> {
                        &&& (#[trigger] self.vertices@[v]).data == orig.vertices@[v].data
                        &&& self.vertices@[v].vertex_normal == orig.vertices@[v].vertex_normal
                    },
                self.position_ids == orig.position_ids,
                self.tri_adds == orig.tri_adds,
                self.quad_adds == orig.quad_adds,
                self.loose_resolves == orig.loose_resolves,
                self.pos_log == orig.pos_log,
            decreases self.sections@.len() - s,
        {
            let ghost pre_it = *self;
            self.triangulate_section(s);
            proof {
                // a mesh with no quads anywhere is left exactly as it was
                if forall|sid: usize| count_quads(#[trigger] orig.section_views(sid)) == 0 {
                    assert(pre_it == orig);
                    let sid_s = orig.sections@[s as int].id;
                    assert(orig.has_section(sid_s)) by {
                        assert(orig.sections@[s as int].id == sid_s);
                    }
                    orig.lemma_section_pos_unique(orig.section_pos(sid_s), s as int);
                    assert(orig.section_views(sid_s) == views_of(orig.sections@[s as int].faces@));
                    assert(count_quads(views_of(pre_it.sections@[s as int].faces@)) == 0);
                    assert(*self == pre_it);
                }
            }
            s = s + 1;
        }
        proof {
            assert forall|sid: usize| #[trigger]
                self.has_section(sid) <==> orig.has_section(sid) by {
                if self.has_section(sid) {
                    let p = self.section_pos(sid);
                    assert(orig.sections@[p].id == sid);
                }
                if orig.has_section(sid) {
                    let p = orig.section_pos(sid);
                    assert(self.sections@[p].id == sid);
                }
            }
            assert forall|sid: usize| (#[trigger] self.section_views(sid)).to_multiset()
                == spec_triangulated(orig.section_views(sid)) && self.section_views(sid).len()
                == orig.section_views(sid).len() + count_quads(orig.section_views(sid))
                && count_quads(self.section_views(sid)) == 0 && (count_quads(
                orig.section_views(sid),
            ) == 0 ==> self.section_views(sid) =~= orig.section_views(sid)) by {
                if self.has_section(sid) {
                    let p = self.section_pos(sid);
                    assert(orig.sections@[p].id == sid);
                    orig.lemma_section_pos_unique(orig.section_pos(sid), p);
                    assert(section_triangulated(
                        views_of(orig.sections@[p].faces@),
                        views_of(self.sections@[p].faces@),
                    ));
                } else {
                    assert(self.section_views(sid) =~= Seq::<FaceView<V>>::empty());
                    assert(orig.section_views(sid) =~= Seq::<FaceView<V>>::empty());
                    broadcast use vstd::seq_lib::group_to_multiset_ensures;

                    assert(self.section_views(sid).to_multiset().len() == 0);
                    assert(self.section_views(sid).to_multiset() =~= Multiset::<
                        FaceView<V>,
                    >::empty());
                }
            }
        }
    }
}

impl<V: Position3D + Copy> MeshGeometry<V> {
    /// Triangulates the section standing at position `s`: quads are
    /// processed from the highest list index down, so that the pending
    /// quad slots survive each swap-removal.
    #[verifier::rlimit(100)]
    fn triangulate_section(&mut self, s: usize)
        requires
            old(self).wf(),
            s < old(self).sections@.len(),
        ensures
            final(self).wf(),
            final(self).sections@.len() == old(self).sections@.len(),
            forall|p: int|
                0 <= p < old(self).sections@.len() && p != s ==> final(self).sections@[p] == old(
                self,
            ).sections@[p],
            final(self).sections@[s as int].id == old(self).sections@[s as int].id,
            section_triangulated(
                views_of(old(self).sections@[s as int].faces@),
                views_of(final(self).sections@[s as int].faces@),
            ),
            count_quads(views_of(old(self).sections@[s as int].faces@)) == 0 ==> *final(self)
                == *old(self),
            final(self).vertices@.len() == old(self).vertices@.len(),
            forall|v: int|
                0 <= v < old(self).vertices@.len() ==> {
                    &&& (#[trigger] final(self).vertices@[v]).data == old(self).vertices@[v].data
                    &&& final(self).vertices@[v].vertex_normal == old(self).vertices@[
                        v
                    ].vertex_normal
                },
            final(self).position_ids == old(self).position_ids,
            final(self).tri_adds == old(self).tri_adds,
            final(self).quad_adds == old(self).quad_adds,
            final(self).loose_resolves == old(self).loose_resolves,
            final(self).pos_log == old(self).pos_log,
    {
        let ghost orig = *old(self);
        let ghost f0 = views_of(orig.sections@[s as int].faces@);
        let sid = self.sections[s].id;
        // collect the quad positions, in ascending order
        let mut quad_idx: Vec<usize> = Vec::new();
        let n = self.sections[s].faces.len();
        let mut m: usize = 0;
        while m < n
            invariant
                *self == orig,
                orig.wf(),
                s < self.sections@.len(),
                f0 == views_of(self.sections@[s as int].faces@),
                n == self.sections@[s as int].faces@.len(),
                m <= n,
                forall|i: int, j: int|
                    0 <= i < j < quad_idx@.len() ==> quad_idx@[i] < quad_idx@[j],
                forall|j: int|
                    0 <= j < quad_idx@.len() ==> (#[trigger] quad_idx@[j]) < m && f0[
                        quad_idx@[j] as int
                    ].verts.len() == 4,
                forall|m2: int|
                    0 <= m2 < m && f0[m2].verts.len() == 4 ==> quad_idx@.contains(m2 as usize),
                count_quads(f0.take(m as int)) == quad_idx@.len(),
            decreases n - m,
        {
            proof {
                assert(f0.take(m + 1).drop_last() =~= f0.take(m as int));
                assert(f0.take(m + 1).last() == f0[m as int]);
                assert(f0[m as int] == self.sections@[s as int].faces@[m as int]@);
            }
            if self.sections[s].faces[m].vertices.len() == 4 {
                let ghost qpre = quad_idx@;
                quad_idx.push(m);
                proof {
                    assert forall|m2: int|
                        0 <= m2 < m + 1 && f0[m2].verts.len() == 4 implies quad_idx@.contains(
                        m2 as usize,
                    ) by {
                        if m2 < m {
                            assert(qpre.contains(m2 as usize));
                            let w = choose|w: int|
                                0 <= w < qpre.len() && (#[trigger] qpre[w]) == m2 as usize;
                            assert(quad_idx@[w] == m2 as usize);
                        } else {
                            assert(quad_idx@.last() == m2 as usize);
                        }
                    }
                }
            }
            m = m + 1;
        }
        proof {
            assert(f0.take(n as int) =~= f0);
            assert(quad_idx@.take(quad_idx@.len() as int) =~= quad_idx@);
            assert forall|m2: int|
                0 <= m2 < f0.len() && !quad_idx@.take(quad_idx@.len() as int).contains(
                    m2 as usize,
                ) implies f0[m2].verts.len() == 3 by {
                assert(face_view_wf(self.sections@[s as int].faces@[m2]@, self.n_vertices()));
                assert(f0[m2] == self.sections@[s as int].faces@[m2]@);
                if f0[m2].verts.len() == 4 {
                    assert(quad_idx@.contains(m2 as usize));
                }
            }
        }
        // split the quads, from the highest position down
        let ghost qi = quad_idx@;
        let mut q: usize = quad_idx.len();
        while q > 0
            invariant
                self.wf(),
                orig.wf(),
                q <= qi.len(),
                quad_idx@ == qi,
                s < self.sections@.len(),
                sid == self.sections@[s as int].id,
                self.sections@.len() == orig.sections@.len(),
                forall|p: int|
                    0 <= p < orig.sections@.len() && p != s ==> (#[trigger] self.sections@[p])
                        == orig.sections@[p],
                f0 == views_of(orig.sections@[s as int].faces@),
                forall|i: int, j: int| 0 <= i < j < qi.len() ==> qi[i] < qi[j],
                forall|j: int|
                    0 <= j < qi.len() ==> (#[trigger] qi[j]) < f0.len() && f0[qi[j] as int]
                        .verts.len() == 4,
                views_of(self.sections@[s as int].faces@).len() == f0.len() + qi.len() - q,
                forall|j: int|
                    0 <= j < q ==> views_of(self.sections@[s as int].faces@)[(
                    #[trigger] qi[j]) as int] == f0[qi[j] as int],
                forall|m2: int|
                    0 <= m2 < views_of(self.sections@[s as int].faces@).len() && !qi.take(
                        q as int,
                    ).contains(m2 as usize) ==> views_of(self.sections@[s as int].faces@)[m2]
                        .verts.len() == 3,
                spec_triangulated(views_of(self.sections@[s as int].faces@))
                    == spec_triangulated(f0),
                count_quads(views_of(self.sections@[s as int].faces@)) == q,
                q == qi.len() ==> *self == orig,
                self.vertices@.len() == orig.vertices@.len(),
                forall|v: int|
                    0 <= v < orig.vertices@.len() ==> {
                        &&& (#[trigger] self.vertices@[v]).data == orig.vertices@[v].data
                        &&& self.vertices@[v].vertex_normal == orig.vertices@[v].vertex_normal
                    },
                self.position_ids == orig.position_ids,
                self.tri_adds == orig.tri_adds,
                self.quad_adds == orig.quad_adds,
                self.loose_resolves == orig.loose_resolves,
                self.pos_log == orig.pos_log,
            decreases q,
        {
            q = q - 1;
            let k = quad_idx[q];
            let cur_len = self.sections[s].faces.len();
            let ghost pre = *self;
            let ghost curv = views_of(pre.sections@[s as int].faces@);
            let ghost qv = curv[k as int];
            proof {
                assert(curv.len() == cur_len as int);
                assert(qi.take(q + 1)[q as int] == qi[q as int]);
                assert(qi.take(q + 1).contains(k));
                assert(qv == f0[k as int]);
                assert(qv.verts.len() == 4);
                assert((k as int) < curv.len());
            }
            let v0 = self.sections[s].faces[k].vertices[0];
            let v1 = self.sections[s].faces[k].vertices[1];
            let v2 = self.sections[s].faces[k].vertices[2];
            let v3 = self.sections[s].faces[k].vertices[3];
            let normal = self.sections[s].faces[k].face_normal;
            let fdata = self.sections[s].faces[k].data;
            proof {
                assert(self.sections@[s as int].faces@[k as int]@ == qv);
                assert(face_view_wf(qv, self.n_vertices()));
            }
            self.remove_face_at(s, k);
            let ghost mid = *self;
            proof {
                let midv = views_of(mid.sections@[s as int].faces@);
                assert(midv =~= curv.update(k as int, curv.last()).drop_last());
                lemma_tri_swap_remove(curv, k as int);
                // every slot that survives is a triangle, and the pending
                // quads keep their places
                assert forall|j: int| 0 <= j < q implies midv[(#[trigger] qi[j]) as int] == f0[
                    qi[j] as int
                ] by {
                    assert(qi[j] < qi[q as int]);
                    assert(midv[qi[j] as int] == curv[qi[j] as int]);
                }
                assert forall|m2: int|
                    0 <= m2 < midv.len() && !qi.take(q as int).contains(m2 as usize) implies midv[
                    m2
                ].verts.len() == 3 by {
                    if m2 == k as int {
                        if (k as int) < curv.len() - 1 {
                            assert(midv[m2] == curv.last());
                            assert(!qi.take(q + 1).contains((curv.len() - 1) as usize)) by {
                                if qi.take(q + 1).contains((curv.len() - 1) as usize) {
                                    let lastpos = (curv.len() - 1) as usize;
                                    let w = choose|w: int|
                                        0 <= w < q + 1 && (#[trigger] qi.take(q + 1)[w])
                                            == lastpos;
                                    assert(qi.take(q + 1)[w] == qi[w]);
                                    if w < q {
                                        assert(qi[w] < qi[q as int]);
                                    }
                                    assert(qi[q as int] == k);
                                }
                            }
                            assert(curv.last().verts.len() == 3);
                        }
                    } else {
                        assert(midv[m2] == curv[m2]);
                        assert(!qi.take(q + 1).contains(m2 as usize)) by {
                            if qi.take(q + 1).contains(m2 as usize) {
                                let w = choose|w: int|
                                    0 <= w < q + 1 && (#[trigger] qi.take(q + 1)[w]) == m2
                                        as usize;
                                assert(qi.take(q + 1)[w] == qi[w]);
                                if w < q {
                                    assert(qi.take(q as int)[w] == m2 as usize);
                                } else {
                                    assert(qi[q as int] == k);
                                }
                            }
                        }
                    }
                }
            }
            // the two triangles of the diagonal split
            let mut verts1: Vec<usize> = Vec::new();
            verts1.push(v0);
            verts1.push(v1);
            verts1.push(v2);
            let face1 = Face { vertices: verts1, face_normal: normal, data: fdata };
            proof {
                assert(face1@.verts =~= seq![qv.verts[0], qv.verts[1], qv.verts[2]]);
                assert(face_view_wf(face1@, self.n_vertices()));
                assert(self.has_section(sid)) by {
                    assert(self.sections@[s as int].id == sid);
                }
                self.lemma_section_pos_unique(self.section_pos(sid), s as int);
            }
            let ghost t1 = face1@;
            self.attach_face(face1, sid);
            let ghost mid2 = *self;
            proof {
                assert(mid.section_pos(sid) == s as int) by {
                    assert(mid.sections@[s as int].id == sid);
                    mid.lemma_section_pos_unique(mid.section_pos(sid), s as int);
                }
                assert(mid2.sections@[s as int].id == sid);
                mid2.lemma_section_pos_unique(mid2.section_pos(sid), s as int);
            }
            let mut verts2: Vec<usize> = Vec::new();
            verts2.push(v0);
            verts2.push(v2);
            verts2.push(v3);
            let face2 = Face { vertices: verts2, face_normal: normal, data: fdata };
            proof {
                assert(face2@.verts =~= seq![qv.verts[0], qv.verts[2], qv.verts[3]]);
                assert(face_view_wf(face2@, self.n_vertices()));
                assert(self.has_section(sid)) by {
                    assert(self.sections@[s as int].id == sid);
                }
            }
            let ghost t2 = face2@;
            self.attach_face(face2, sid);
            proof {
                assert(self.sections@[s as int].id == sid);
                self.lemma_section_pos_unique(self.section_pos(sid), s as int);
                let midv = views_of(mid.sections@[s as int].faces@);
                let mid2v = views_of(mid2.sections@[s as int].faces@);
                let curv2 = views_of(self.sections@[s as int].faces@);
                assert(mid2v =~= midv.push(t1));
                assert(curv2 =~= mid2v.push(t2));
                lemma_tri_push(midv, t1);
                lemma_tri_push(mid2v, t2);
                assert(t1.verts.len() == 3 && t2.verts.len() == 3);
                assert(face_tris(qv) =~= Multiset::<FaceView<V>>::empty().insert(t1).insert(t2))
                    by {
                    assert(t1 == (FaceView {
                        verts: seq![qv.verts[0], qv.verts[1], qv.verts[2]],
                        normal: qv.normal,
                        data: qv.data,
                    }));
                    assert(t2 == (FaceView {
                        verts: seq![qv.verts[0], qv.verts[2], qv.verts[3]],
                        normal: qv.normal,
                        data: qv.data,
                    }));
                }
                assert(spec_triangulated(curv2) =~= spec_triangulated(f0)) by {
                    assert(spec_triangulated(midv).add(face_tris(qv)) == spec_triangulated(curv));
                    assert(spec_triangulated(curv2) == spec_triangulated(midv).add(
                        face_tris(t1),
                    ).add(face_tris(t2)));
                    assert(spec_triangulated(midv).add(face_tris(t1)).add(face_tris(t2))
                        =~= spec_triangulated(midv).add(face_tris(qv)));
                }
                assert(count_quads(curv2) == q) by {
                    assert(count_quads(midv) + is_quad(qv) == count_quads(curv));
                }
                // quad slots and triangle slots after the two pushes
                assert forall|j: int| 0 <= j < q implies curv2[(#[trigger] qi[j]) as int] == f0[
                    qi[j] as int
                ] by {
                    assert((qi[j] as int) < midv.len());
                    assert(curv2[qi[j] as int] == midv[qi[j] as int]);
                }
                assert forall|m2: int|
                    0 <= m2 < curv2.len() && !qi.take(q as int).contains(m2 as usize) implies curv2[
                    m2
                ].verts.len() == 3 by {
                    if m2 < midv.len() {
                        assert(curv2[m2] == midv[m2]);
                    } else if m2 == midv.len() {
                        assert(curv2[m2] == t1);
                    } else {
                        assert(curv2[m2] == t2);
                    }
                }
            }
        }
        proof {
            let fin = views_of(self.sections@[s as int].faces@);
            assert(qi.take(0) =~= Seq::<usize>::empty());
            lemma_tri_no_quads_identity(fin);
            if count_quads(f0) == 0 {
                assert(qi.len() == 0);
                assert(*self == orig);
                assert(fin =~= f0);
            }
        }
    }
}

/// How a triangulated section relates to what it held before.
pub open spec fn section_triangulated<V>(before: Seq<FaceView<V>>, after: Seq<FaceView<V>>) -> bool {
    &&& after.to_multiset() == spec_triangulated(before)
    &&& after.len() == before.len() + count_quads(before)
    &&& count_quads(after) == 0
    &&& (count_quads(before) == 0 ==> after =~= before)
}

} // verus!
