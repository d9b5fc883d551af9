//! Face and vertex normal generation.
//!
//! A face normal is the normalized cross product of two face edges, with a
//! degenerate-geometry fallback: where an edge is shorter than the
//! threshold, or the two edges are nearly parallel, and the face has a
//! fourth vertex, the offending edge is rebuilt from that vertex and the
//! normal recomputed. Triangles keep the degenerate result: a documented
//! limitation, not silently repaired. A vertex normal is the normalized sum
//! of face normals, the zero vector where the sum cannot be normalized.

use vstd::prelude::*;
use crate::fvec::ABS_MASK;
use crate::fvec::DEGENERATE_EDGE_BITS;
use crate::fvec::PARALLEL_COS_BITS;
use crate::fvec::Vec3Bits;
use crate::fvec::add_bits;
use crate::fvec::cross_bits;
use crate::fvec::div_bits;
use crate::fvec::dot_bits;
use crate::fvec::f32_gt_bits;
use crate::fvec::f32_lt_bits;
use crate::fvec::length_bits;
use crate::fvec::normalize_bits;
use crate::fvec::normalize_or_zero_bits;
use crate::fvec::sub_bits;
use crate::fvec::f32_gt;
use crate::fvec::f32_lt;
use crate::fvec::v3_add;
use crate::fvec::v3_cross;
use crate::fvec::v3_div;
use crate::fvec::v3_dot;
use crate::fvec::v3_length;
use crate::fvec::v3_normalize;
use crate::fvec::v3_normalize_or_zero;
use crate::fvec::v3_sub;
use crate::mesh::FaceView;
use crate::mesh::MeshGeometry;
use crate::mesh::SectionIndex;
use crate::mesh::face_view_wf;
use crate::payload::Position3D;

verus! {

/// The normal generation computes for a face with corner positions `p0`,
/// `p1`, `p2` and optional fourth corner `p3`: the normalized cross product
/// of the edges `p1 - p0` and `p2 - p0`, with the degenerate-case fallback
/// substituting the fourth corner.
pub open spec fn spec_face_normal(
    p0: Vec3Bits,
    p1: Vec3Bits,
    p2: Vec3Bits,
    p3: Option<Vec3Bits>,
) -> Vec3Bits {
    let v1 = sub_bits(p2, p0);
    let v2 = sub_bits(p1, p0);
    let v1_len = length_bits(v1);
    let v2_len = length_bits(v2);
    let v1_zero = f32_lt_bits(v1_len, DEGENERATE_EDGE_BITS);
    let v2_zero = f32_lt_bits(v2_len, DEGENERATE_EDGE_BITS);
    let d = dot_bits(div_bits(v2, v2_len), div_bits(v1, v1_len));
    let parallel = f32_gt_bits(d & ABS_MASK, PARALLEL_COS_BITS);
    if (v1_zero || v2_zero || parallel) && p3 is Some {
        if v2_zero {
            normalize_bits(cross_bits(sub_bits(p1, p3->Some_0), v1))
        } else {
            normalize_bits(cross_bits(v2, sub_bits(p3->Some_0, p0)))
        }
    } else {
        normalize_bits(cross_bits(v2, v1))
    }
}

/// Computes the face normal for the given corner positions, decisions and
/// arithmetic exactly as [`spec_face_normal`] states them.
pub fn face_normal_of(p0: Vec3Bits, p1: Vec3Bits, p2: Vec3Bits, p3: Option<Vec3Bits>) -> (r:
    Vec3Bits)
    ensures
        r == spec_face_normal(p0, p1, p2, p3),
{
    let v1 = v3_sub(p2, p0);
    let v2 = v3_sub(p1, p0);
    let v1_len = v3_length(v1);
    let v2_len = v3_length(v2);
    let v1_zero = f32_lt(v1_len, DEGENERATE_EDGE_BITS);
    let v2_zero = f32_lt(v2_len, DEGENERATE_EDGE_BITS);
    let d = v3_dot(v3_div(v2, v2_len), v3_div(v1, v1_len));
    let parallel = f32_gt(d & ABS_MASK, PARALLEL_COS_BITS);
    match p3 {
        Some(q3) if v1_zero || v2_zero || parallel => {
            if v2_zero {
                v3_normalize(v3_cross(v3_sub(p1, q3), v1))
            } else {
                v3_normalize(v3_cross(v2, v3_sub(q3, p0)))
            }
        },
        _ => v3_normalize(v3_cross(v2, v1)),
    }
}

/// The sum of a list of normals, accumulated left to right from the zero
/// vector, exactly as the generation loop adds them.
pub open spec fn fold_normals(ns: Seq<Vec3Bits>) -> Vec3Bits
    decreases ns.len(),
{
    if ns.len() == 0 {
        Vec3Bits { x: 0, y: 0, z: 0 }
    } else {
        add_bits(fold_normals(ns.drop_last()), ns.last())
    }
}

/// What a vertex normal is: the normalized sum of the given face normals,
/// the zero vector where the sum cannot be normalized.
pub open spec fn spec_vertex_normal(ns: Seq<Vec3Bits>) -> Vec3Bits {
    normalize_or_zero_bits(fold_normals(ns))
}

/// Sums the normals listed by `ns` and normalizes, returning the zero
/// vector for a numerically zero sum.
pub fn vertex_normal_of(ns: &Vec<Vec3Bits>) -> (r: Vec3Bits)
    ensures
        r == spec_vertex_normal(ns@),
{
    let mut acc = Vec3Bits::zero();
    let mut j: usize = 0;
    while j < ns.len()
        invariant
            j <= ns@.len(),
            acc == fold_normals(ns@.take(j as int)),
        decreases ns@.len() - j,
    {
        proof {
            assert(ns@.take(j + 1).drop_last() =~= ns@.take(j as int));
            assert(ns@.take(j + 1).last() == ns@[j as int]);
        }
        acc = v3_add(acc, ns[j]);
        j = j + 1;
    }
    proof {
        assert(ns@.take(ns@.len() as int) =~= ns@);
    }
    v3_normalize_or_zero(acc)
}

/// Every face of every section carries a normal.
pub open spec fn all_normals_set<V>(g: MeshGeometry<V>) -> bool {
    forall|s: int, k: int|
        0 <= s < g.sections@.len() && 0 <= k < g.sections@[s].faces@.len() ==> (
        #[trigger] g.sections@[s].faces@[k]).face_normal is Some
}

/// The normal a face carries after generation: its explicit normal where
/// it has one, else the generated normal over its corner positions in `g`.
pub open spec fn spec_generated_normal<V: Position3D>(
    g: MeshGeometry<V>,
    fv: FaceView<V>,
) -> Option<Vec3Bits> {
    if fv.normal is Some {
        fv.normal
    } else {
        Some(
            spec_face_normal(
                g.vertices@[fv.verts[0] as int].data.spec_position(),
                g.vertices@[fv.verts[1] as int].data.spec_position(),
                g.vertices@[fv.verts[2] as int].data.spec_position(),
                if fv.verts.len() > 3 {
                    Some(g.vertices@[fv.verts[3] as int].data.spec_position())
                } else {
                    None
                },
            ),
        )
    }
}

impl<V: Position3D + Copy> MeshGeometry<V> {
    /// Fills in the normal of every face that lacks an explicit one, from
    /// its corner positions, leaving everything else untouched.
    #[verifier::rlimit(100)]
    pub fn generate_face_normals(&mut self)
        requires
            old(self).wf(),
        ensures
            final(self).wf(),
            *final(self) == (MeshGeometry { sections: final(self).sections, ..*old(self) }),
            final(self).sections@.len() == old(self).sections@.len(),
            forall|p: int|
                0 <= p < old(self).sections@.len() ==> (#[trigger] final(self).sections@[p].id)
                    == old(self).sections@[p].id,
            forall|sid: usize|
                (#[trigger] final(self).section_views(sid)).len() == old(self).section_views(
                    sid,
                ).len(),
            forall|sid: usize, kk: int|
                0 <= kk < old(self).section_views(sid).len() ==> {
                    let ofv = old(self).section_views(sid)[kk];
                    let nfv = #[trigger] final(self).section_views(sid)[kk];
                    &&& nfv.verts == ofv.verts
                    &&& nfv.data == ofv.data
                    &&& nfv.normal == spec_generated_normal(*old(self), ofv)
                    &&& nfv.normal is Some
                },
            all_normals_set(*old(self)) ==> *final(self) == *old(self),
    {
        let ghost orig = *old(self);
        let mut s: usize = 0;
        while s < self.sections.len()
            invariant
                self.wf(),
                orig.wf(),
                s <= self.sections@.len(),
                self.vertices == orig.vertices,
                self.position_ids == orig.position_ids,
                self.next_index == orig.next_index,
                self.tri_adds == orig.tri_adds,
                self.quad_adds == orig.quad_adds,
                self.loose_resolves == orig.loose_resolves,
                self.pos_log == orig.pos_log,
                self.sections@.len() == orig.sections@.len(),
                forall|p: int|
                    s <= p < orig.sections@.len() ==> (#[trigger] self.sections@[p])
                        == orig.sections@[p],
                forall|p: int|
                    0 <= p < s ==> (#[trigger] self.sections@[p]).id == orig.sections@[p].id,
                forall|p: int|
                    0 <= p < s ==> (#[trigger] self.sections@[p]).faces@.len()
                        == orig.sections@[p].faces@.len(),
                forall|p: int, kk: int|
                    0 <= p < s && 0 <= kk < orig.sections@[p].faces@.len() ==> {
                        let ofv = orig.sections@[p].faces@[kk]@;
                        let nfv = (#[trigger] self.sections@[p].faces@[kk])@;
                        &&& nfv.verts == ofv.verts
                        &&& nfv.data == ofv.data
                        &&& nfv.normal == spec_generated_normal(orig, ofv)
                        &&& nfv.normal is Some
                    },
                all_normals_set(orig) ==> *self == orig,
            decreases self.sections@.len() - s,
        {
            let ghost pre_it = *self;
            self.generate_section_normals(s, Ghost(orig));
            proof {
                // a mesh whose faces all carry normals is left as it was
                if all_normals_set(orig) {
                    assert(pre_it == orig);
                    assert forall|k2: int|
                        0 <= k2 < pre_it.sections@[s as int].faces@.len() implies (
                    #[trigger] pre_it.sections@[s as int].faces@[k2]).face_normal is Some by {}
                    assert(*self == pre_it);
                }
            }
            s = s + 1;
        }
        proof {
            assert(*self == (MeshGeometry { sections: self.sections, ..orig }));
            assert forall|sid: usize| #[trigger]
                self.has_section(sid) <==> orig.has_section(sid) by {
                if self.has_section(sid) {
                    let p = self.section_pos(sid);
                    assert(orig.sections@[p].id == sid);
                }
                if orig.has_section(sid) {
                    let p = orig.section_pos(sid);
                    assert(self.sections@[p].id == sid);
                }
            }
            assert forall|sid: usize| (#[trigger] self.section_views(sid)).len()
                == orig.section_views(sid).len() by {
                if self.has_section(sid) {
                    let p = self.section_pos(sid);
                    assert(orig.sections@[p].id == sid);
                    orig.lemma_section_pos_unique(orig.section_pos(sid), p);
                }
            }
            assert forall|sid: usize, kk: int|
                0 <= kk < orig.section_views(sid).len() implies {
                let ofv = orig.section_views(sid)[kk];
                let nfv = #[trigger] self.section_views(sid)[kk];
                &&& nfv.verts == ofv.verts
                &&& nfv.data == ofv.data
                &&& nfv.normal == spec_generated_normal(orig, ofv)
                &&& nfv.normal is Some
            } by {
                assert(orig.has_section(sid));
                let p = orig.section_pos(sid);
                assert(self.sections@[p].id == sid);
                self.lemma_section_pos_unique(self.section_pos(sid), p);
            }
        }
    }

    /// Fills in the missing normals of the section standing at `s`.
    #[verifier::rlimit(100)]
    fn generate_section_normals(&mut self, s: usize, Ghost(orig): Ghost<MeshGeometry<V>>)
        requires
            old(self).wf(),
            s < old(self).sections@.len(),
            old(self).vertices == orig.vertices,
            old(self).sections@[s as int] == orig.sections@[s as int],
        ensures
            final(self).wf(),
            final(self).sections@.len() == old(self).sections@.len(),
            forall|p: int|
                0 <= p < old(self).sections@.len() && p != s ==> final(self).sections@[p] == old(
                self,
            ).sections@[p],
            final(self).sections@[s as int].id == old(self).sections@[s as int].id,
            final(self).sections@[s as int].faces@.len() == old(self).sections@[
                s as int
            ].faces@.len(),
            forall|kk: int|
                0 <= kk < old(self).sections@[s as int].faces@.len() ==> {
                    let ofv = orig.sections@[s as int].faces@[kk]@;
                    let nfv = (#[trigger] final(self).sections@[s as int].faces@[kk])@;
                    &&& nfv.verts == ofv.verts
                    &&& nfv.data == ofv.data
                    &&& nfv.normal == spec_generated_normal(orig, ofv)
                    &&& nfv.normal is Some
                },
            (forall|k2: int|
                0 <= k2 < old(self).sections@[s as int].faces@.len() ==> (#[trigger] old(
                    self,
                ).sections@[s as int].faces@[k2]).face_normal is Some) ==> *final(self) == *old(
                self,
            ),
            final(self).vertices == old(self).vertices,
            final(self).position_ids == old(self).position_ids,
            final(self).next_index == old(self).next_index,
            final(self).tri_adds == old(self).tri_adds,
            final(self).quad_adds == old(self).quad_adds,
            final(self).loose_resolves == old(self).loose_resolves,
            final(self).pos_log == old(self).pos_log,
    {
        let ghost pre = *old(self);
        let n = self.sections[s].faces.len();
        let mut kk: usize = 0;
        while kk < n
            invariant
                self.wf(),
                pre.wf(),
                orig.vertices == pre.vertices,
                orig.sections@[s as int] == pre.sections@[s as int],
                s < pre.sections@.len(),
                kk <= n,
                n == pre.sections@[s as int].faces@.len(),
                self.sections@.len() == pre.sections@.len(),
                forall|p: int|
                    0 <= p < pre.sections@.len() && p != s ==> (#[trigger] self.sections@[p])
                        == pre.sections@[p],
                self.sections@[s as int].id == pre.sections@[s as int].id,
                self.sections@[s as int].faces@.len() == n,
                forall|k2: int|
                    kk <= k2 < n ==> (#[trigger] self.sections@[s as int].faces@[k2])
                        == pre.sections@[s as int].faces@[k2],
                forall|k2: int|
                    0 <= k2 < kk ==> {
                        let ofv = pre.sections@[s as int].faces@[k2]@;
                        let nfv = (#[trigger] self.sections@[s as int].faces@[k2])@;
                        &&& nfv.verts == ofv.verts
                        &&& nfv.data == ofv.data
                        &&& nfv.normal == spec_generated_normal(orig, ofv)
                        &&& nfv.normal is Some
                    },
                self.vertices == pre.vertices,
                self.position_ids == pre.position_ids,
                self.next_index == pre.next_index,
                self.tri_adds == pre.tri_adds,
                self.quad_adds == pre.quad_adds,
                self.loose_resolves == pre.loose_resolves,
                self.pos_log == pre.pos_log,
                (forall|k2: int|
                    0 <= k2 < n ==> (#[trigger] pre.sections@[s as int].faces@[k2]).face_normal
                        is Some) ==> *self == pre,
            decreases n - kk,
        {
            let ghost before = *self;
            let ghost ofv = pre.sections@[s as int].faces@[kk as int]@;
            if self.sections[s].faces[kk].face_normal.is_none() {
                proof {
                    assert(face_view_wf(ofv, pre.n_vertices()));
                }
                let nvs = self.sections[s].faces[kk].vertices.len();
                let v0 = self.sections[s].faces[kk].vertices[0];
                let v1 = self.sections[s].faces[kk].vertices[1];
                let v2 = self.sections[s].faces[kk].vertices[2];
                let p0 = self.vertices[v0].data.position();
                let p1 = self.vertices[v1].data.position();
                let p2 = self.vertices[v2].data.position();
                let p3 = if nvs > 3 {
                    let v3 = self.sections[s].faces[kk].vertices[3];
                    Some(self.vertices[v3].data.position())
                } else {
                    None
                };
                let normal = face_normal_of(p0, p1, p2, p3);
                self.sections[s].faces[kk].face_normal = Some(normal);
                proof {
                    assert(self.sections@[s as int].faces@[kk as int]@.normal
                        == spec_generated_normal(orig, ofv)) by {
                        assert(orig.vertices@ == pre.vertices@);
                    }
                    assert forall|s2: int, k2: int|
                        0 <= s2 < self.sections@.len() && 0 <= k2
                            < self.sections@[s2].faces@.len() implies face_view_wf(
                        (#[trigger] self.sections@[s2].faces@[k2])@,
                        self.n_vertices(),
                    ) by {
                        if s2 != s as int || k2 != kk as int {
                            assert(self.sections@[s2].faces@[k2] == before.sections@[s2].faces@[
                                k2
                            ]);
                            assert(face_view_wf(
                                before.sections@[s2].faces@[k2]@,
                                before.n_vertices(),
                            ));
                        } else {
                            assert(self.sections@[s2].faces@[k2]@.verts == ofv.verts);
                        }
                    }
                    assert(self.backrefs_valid()) by {
                        assert forall|v: int, m: int|
                            0 <= v < self.n_vertices() && 0 <= m
                                < self.vertices@[v].faces@.len() implies self.backref_ok(
                            #[trigger] self.vertices@[v].faces@[m],
                            v as usize,
                        ) by {
                            let si = self.vertices@[v].faces@[m];
                            assert(before.backref_ok(si, v as usize));
                            self.lemma_norm_section_stable(before, s as int, kk as int);
                        }
                    }
                    assert(self.backrefs_complete()) by {
                        assert forall|s2: int, k2: int, i2: int|
                            0 <= s2 < self.sections@.len() && 0 <= k2
                                < self.sections@[s2].faces@.len() && 0 <= i2
                                < self.sections@[s2].faces@[k2].vertices@.len() implies self.vertices@[(
                        #[trigger] self.sections@[s2].faces@[k2].vertices@[i2]) as int].faces@.contains(
                            SectionIndex { section: self.sections@[s2].id, index: k2 as usize },
                        ) by {
                            if s2 == s as int && k2 == kk as int {
                                assert(self.sections@[s2].faces@[k2].vertices@
                                    == before.sections@[s2].faces@[k2].vertices@);
                            } else {
                                assert(self.sections@[s2].faces@[k2] == before.sections@[s2].faces@[
                                    k2
                                ]);
                            }
                        }
                    }
                }
            }
            kk = kk + 1;
        }
    }

    /// Rewriting one face's normal leaves every section's face count and
    /// every face's vertex list as they were.
    proof fn lemma_norm_section_stable(self, before: MeshGeometry<V>, s: int, kk: int)
        requires
            before.wf(),
            0 <= s < before.sections@.len(),
            0 <= kk < before.sections@[s].faces@.len(),
            self.vertices == before.vertices,
            self.sections@.len() == before.sections@.len(),
            forall|p: int|
                0 <= p < before.sections@.len() && p != s ==> (#[trigger] self.sections@[p])
                    == before.sections@[p],
            self.sections@[s].id == before.sections@[s].id,
            self.sections@[s].faces@.len() == before.sections@[s].faces@.len(),
            forall|k2: int|
                0 <= k2 < before.sections@[s].faces@.len() ==> (
                #[trigger] self.sections@[s].faces@[k2]).vertices@ == before.sections@[
                    s
                ].faces@[k2].vertices@,
        ensures
            forall|si: SectionIndex, v: usize|
                before.backref_ok(si, v) ==> #[trigger] self.backref_ok(si, v),
    {
        assert forall|si: SectionIndex, v: usize|
            before.backref_ok(si, v) implies #[trigger] self.backref_ok(si, v) by {
            let sid = si.section;
            assert(before.has_section(sid));
            let p = before.section_pos(sid);
            assert(self.sections@[p].id == sid);
            assert(self.has_section(sid));
            self.lemma_section_pos_unique(self.section_pos(sid), p);
            assert(self.section_list(sid) == self.sections@[p].faces@);
            assert(before.section_list(sid) == before.sections@[p].faces@);
            assert(self.sections@[p].faces@[si.index as int].vertices@ == before.sections@[
                p
            ].faces@[si.index as int].vertices@) by {
                if p != s {
                    assert(self.sections@[p] == before.sections@[p]);
                }
            }
        }
    }
}

} // verus!
