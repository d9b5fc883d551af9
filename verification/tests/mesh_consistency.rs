use rand::RngExt;
use rand::SeedableRng;
use rand::rngs::StdRng;
use trivalibs::fvec::Vec3Bits;
use trivalibs::mesh::MeshGeometry;
use trivalibs::mesh::SectionIndex;
use trivalibs::payload::PosVertex;

fn bits(x: f32, y: f32, z: f32) -> Vec3Bits {
    Vec3Bits { x: x.to_bits(), y: y.to_bits(), z: z.to_bits() }
}

fn v(x: f32, y: f32, z: f32) -> PosVertex {
    PosVertex { pos: bits(x, y, z) }
}

/// Walks the whole structure and checks bidirectional consistency: every
/// back-reference addresses a live face listing the vertex, and every
/// face's corner back-references the face exactly once.
fn check_consistency(g: &MeshGeometry<PosVertex>) {
    for (vi, vert) in g.vertices.iter().enumerate() {
        for si in &vert.faces {
            let sec = g
                .sections
                .iter()
                .find(|s| s.id == si.section)
                .expect("back-reference to a missing section");
            assert!(si.index < sec.faces.len(), "back-reference past the face list");
            assert!(
                sec.faces[si.index].vertices.contains(&vi),
                "face does not list its back-referencing vertex"
            );
        }
        // no duplicate back-references
        for a in 0..vert.faces.len() {
            for b in (a + 1)..vert.faces.len() {
                assert_ne!(vert.faces[a], vert.faces[b], "duplicate back-reference");
            }
        }
    }
    for sec in &g.sections {
        for (fi, face) in sec.faces.iter().enumerate() {
            for &vi in &face.vertices {
                let occurrences = g.vertices[vi]
                    .faces
                    .iter()
                    .filter(|si| **si == SectionIndex { section: sec.id, index: fi })
                    .count();
                assert_eq!(occurrences, 1, "corner must back-reference its face exactly once");
            }
        }
    }
}

#[test]
fn consistency_follows_removals_with_patching() {
    let mut g: MeshGeometry<PosVertex> = MeshGeometry::new();
    for i in 0..4 {
        let o = i as f32 * 10.0;
        g.add_face3(v(o, 0.0, 0.0), v(o + 1.0, 0.0, 0.0), v(o, 1.0, 0.0)).unwrap();
    }
    check_consistency(&g);
    // removing the first face moves the last face into its slot
    g.remove_face(SectionIndex { section: 0, index: 0 });
    assert_eq!(g.sections[0].faces.len(), 3);
    check_consistency(&g);
    // removing the last face moves nothing
    g.remove_face(SectionIndex { section: 0, index: 2 });
    assert_eq!(g.sections[0].faces.len(), 2);
    check_consistency(&g);
}

#[test]
fn consistency_survives_randomized_add_remove() {
    let mut rng = StdRng::seed_from_u64(0x5eed);
    let mut g: MeshGeometry<PosVertex> = MeshGeometry::new();
    let mut next: u32 = 0;
    for _ in 0..200 {
        let faces_in_0 = g.sections.get(0).map(|s| s.faces.len()).unwrap_or(0);
        if faces_in_0 == 0 || rng.random_range(0..3) > 0 {
            // add a triangle or quad of partly shared, partly fresh corners
            let base = (next % 7) as f32;
            next += 1;
            let fresh = next as f32 * 0.25;
            if rng.random_range(0..2) == 0 {
                let _ = g.add_face3(
                    v(base, 0.0, 0.0),
                    v(fresh, 1.0, 0.0),
                    v(base, fresh + 2.0, 0.0),
                );
            } else {
                let _ = g.add_face4(
                    v(base, 0.0, 0.0),
                    v(fresh, 1.0, 0.0),
                    v(fresh + 1.0, 2.0, 0.0),
                    v(base, fresh + 3.0, 0.0),
                );
            }
        } else {
            let idx = rng.random_range(0..faces_in_0);
            g.remove_face(SectionIndex { section: 0, index: idx });
        }
        check_consistency(&g);
    }
}

#[test]
fn consistency_survives_triangulation() {
    let mut g: MeshGeometry<PosVertex> = MeshGeometry::new();
    g.add_face4(v(0.0, 0.0, 0.0), v(1.0, 0.0, 0.0), v(1.0, 1.0, 0.0), v(0.0, 1.0, 0.0))
        .unwrap();
    g.add_face3(v(5.0, 0.0, 0.0), v(6.0, 0.0, 0.0), v(5.0, 1.0, 0.0)).unwrap();
    g.add_face4(v(9.0, 0.0, 0.0), v(8.0, 0.0, 0.0), v(8.0, 1.0, 0.0), v(9.0, 1.0, 0.0))
        .unwrap();
    check_consistency(&g);
    g.triangulate();
    check_consistency(&g);
}
