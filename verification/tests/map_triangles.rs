use deadlocked::dmx::{parse_dmx_checked, Vec3Bits};
use deadlocked::mesh::{
    classify_geometry_file, extract_file_triangles, hull_triangles, map_triangles,
    triple_triangles, FileType, GeometryFile, TriangleBits,
};

fn v(i: u32) -> Vec3Bits {
    Vec3Bits { x: i, y: i, z: i }
}

fn tri(a: u32, b: u32, c: u32) -> TriangleBits {
    TriangleBits { a: v(a), b: v(b), c: v(c) }
}

fn push_i32(out: &mut Vec<u8>, value: i32) {
    out.extend_from_slice(&value.to_ne_bytes());
}

fn push_str(out: &mut Vec<u8>, s: &str) {
    out.extend_from_slice(s.as_bytes());
    out.push(0);
}

/// A geometry document: a material named `material`, vertex positions 0..n
/// (each vertex's coordinates are all `i`), and an index list stored either
/// as hull faces or as physics triples.
fn geometry_document(material: &str, vertex_count: u32, indices: &[i32], hull: bool) -> Vec<u8> {
    let strings = [
        "DmeMaterial",
        "material",
        "mtlName",
        material,
        "DmeVertexData",
        "bind",
        "position$0",
        "position$0Indices",
        "DmeFaceSet",
        "hull faces",
        "faces",
    ];
    let mut out = Vec::new();
    push_str(&mut out, "header");
    push_i32(&mut out, 0);
    push_i32(&mut out, strings.len() as i32);
    for s in strings {
        push_str(&mut out, s);
    }
    let elements: &[(i32, i32)] = if hull { &[(0, 1), (4, 5), (8, 9)] } else { &[(0, 1), (4, 5)] };
    push_i32(&mut out, elements.len() as i32);
    for (k, n) in elements {
        push_i32(&mut out, *k);
        push_i32(&mut out, *n);
        out.extend_from_slice(&[0; 16]);
    }
    // material
    push_i32(&mut out, 1);
    push_i32(&mut out, 2);
    out.push(5);
    push_i32(&mut out, 3);
    // vertices (and, for physics files, indices)
    push_i32(&mut out, if hull { 1 } else { 2 });
    push_i32(&mut out, 6);
    out.push(42);
    push_i32(&mut out, vertex_count as i32);
    for i in 0..vertex_count {
        for _ in 0..3 {
            out.extend_from_slice(&i.to_ne_bytes());
        }
    }
    let push_indices = |out: &mut Vec<u8>, name: i32| {
        push_i32(out, name);
        out.push(34);
        push_i32(out, indices.len() as i32);
        for ix in indices {
            push_i32(out, *ix);
        }
    };
    if hull {
        push_i32(&mut out, 1);
        push_indices(&mut out, 10);
    } else {
        push_indices(&mut out, 7);
    }
    out
}

#[test]
fn hull_faces_are_fanned_around_their_first_corner() {
    let vertices: Vec<Vec3Bits> = (0..6).map(v).collect();
    let indices = vec![0, 1, 2, 3, -1, 4, 5, 1, -1, -1, 2, 3];
    let triangles = hull_triangles(&indices, &vertices);
    assert_eq!(triangles, vec![tri(0, 1, 2), tri(0, 2, 3), tri(4, 5, 1)]);
}

#[test]
fn faces_with_missing_vertices_are_dropped_whole() {
    let vertices: Vec<Vec3Bits> = (0..4).map(v).collect();
    let indices = vec![0, 1, 9, 2, -1, 1, 2, 3, -1, 3, -7, 0];
    assert_eq!(hull_triangles(&indices, &vertices), vec![tri(1, 2, 3)]);
    assert!(hull_triangles(&vec![], &vertices).is_empty());
}

#[test]
fn physics_indices_are_read_as_triples() {
    let vertices: Vec<Vec3Bits> = (0..5).map(v).collect();
    let indices = vec![0, 1, 2, 2, 3, 4, 4, 9, 1, 3, 2];
    assert_eq!(triple_triangles(&indices, &vertices), vec![tri(0, 1, 2), tri(2, 3, 4)]);
}

#[test]
fn geometry_files_are_recognised_by_name() {
    assert_eq!(classify_geometry_file("world_physics_hull_0.dmx"), Some(FileType::Hull));
    assert_eq!(classify_geometry_file("x_world_physics_phys.dmx"), Some(FileType::Phys));
    assert_eq!(classify_geometry_file("world_physics.vmdl_c"), None);
}

#[test]
fn file_triangles_need_a_collision_material() {
    let data = geometry_document("$default", 4, &[0, 1, 2, 3], true);
    let elements = parse_dmx_checked(&data).unwrap();
    assert_eq!(
        extract_file_triangles(&elements, FileType::Hull),
        vec![tri(0, 1, 2), tri(0, 2, 3)]
    );

    let data = geometry_document("concrete", 4, &[0, 1, 2, 3], true);
    let elements = parse_dmx_checked(&data).unwrap();
    assert!(extract_file_triangles(&elements, FileType::Hull).is_empty());

    let data = geometry_document("$phys", 4, &[0, 1, 2, 1, 2, 3], false);
    let elements = parse_dmx_checked(&data).unwrap();
    assert_eq!(
        extract_file_triangles(&elements, FileType::Phys),
        vec![tri(0, 1, 2), tri(1, 2, 3)]
    );
    // a physics document read as a hull file has no face set
    assert!(extract_file_triangles(&elements, FileType::Hull).is_empty());
}

#[test]
fn map_triangles_collects_in_file_order() {
    let files = vec![
        GeometryFile { name: "readme.txt".to_string(), data: vec![0xff; 3] },
        GeometryFile {
            name: "world_physics_phys.dmx".to_string(),
            data: geometry_document("$a", 3, &[2, 1, 0], false),
        },
        GeometryFile {
            name: "world_physics_hull.dmx".to_string(),
            data: geometry_document("$b", 4, &[0, 1, 2, 3], true),
        },
    ];
    match map_triangles(&files) {
        Ok(Some(t)) => assert_eq!(t, vec![tri(2, 1, 0), tri(0, 1, 2), tri(0, 2, 3)]),
        other => panic!("unexpected {other:?}"),
    }

    let nothing = vec![GeometryFile {
        name: "world_physics_hull.dmx".to_string(),
        data: geometry_document("plain", 4, &[0, 1, 2], true),
    }];
    assert!(matches!(map_triangles(&nothing), Ok(None)));
    assert!(matches!(map_triangles(&vec![]), Ok(None)));

    let mut broken = Vec::new();
    push_str(&mut broken, "h");
    push_i32(&mut broken, 0);
    push_i32(&mut broken, -1);
    let files = vec![
        GeometryFile { name: "notes".to_string(), data: broken.clone() },
        GeometryFile { name: "world_physics_hull.dmx".to_string(), data: broken },
    ];
    assert!(matches!(map_triangles(&files), Err(1)));
}
