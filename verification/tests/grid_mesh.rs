use trivalibs::fvec::Vec3Bits;
use trivalibs::grid::Grid;
use trivalibs::mesh::MeshGeometry;
use trivalibs::payload::PosVertex;

fn v(x: f32, y: f32, z: f32) -> PosVertex {
    PosVertex { pos: Vec3Bits { x: x.to_bits(), y: y.to_bits(), z: z.to_bits() } }
}

#[test]
fn grid_quads_feed_the_mesh() {
    let mut grid: Grid<PosVertex> = Grid::new(3, 2);
    for x in 0..3i32 {
        for y in 0..2i32 {
            grid.set(x, y, v(x as f32, y as f32, 0.0));
        }
    }
    let mut g: MeshGeometry<PosVertex> = MeshGeometry::new();
    g.add_grid_ccw_quads(&grid).unwrap();
    // one quad per interior cell, vertices deduplicated across the seam
    assert_eq!(g.sections[0].faces.len(), 2);
    assert_eq!(g.vertices.len(), 6);
    for f in &g.sections[0].faces {
        assert_eq!(f.vertices.len(), 4);
    }
}

#[test]
fn cw_and_ccw_windings_reverse_each_other() {
    let mut grid: Grid<PosVertex> = Grid::new(2, 2);
    for x in 0..2i32 {
        for y in 0..2i32 {
            grid.set(x, y, v(x as f32, y as f32, 0.0));
        }
    }
    let mut a: MeshGeometry<PosVertex> = MeshGeometry::new();
    a.add_grid_ccw_quads(&grid).unwrap();
    let mut b: MeshGeometry<PosVertex> = MeshGeometry::new();
    b.add_grid_cw_quads(&grid).unwrap();
    let pa: Vec<_> = a.sections[0].faces[0]
        .vertices
        .iter()
        .map(|&i| a.vertices[i].data.pos)
        .collect();
    let pb: Vec<_> = b.sections[0].faces[0]
        .vertices
        .iter()
        .map(|&i| b.vertices[i].data.pos)
        .collect();
    // same corner positions, opposite traversal
    assert_eq!(pa[0], pb[0]);
    assert_eq!(pa[1], pb[3]);
    assert_eq!(pa[2], pb[2]);
    assert_eq!(pa[3], pb[1]);
}
