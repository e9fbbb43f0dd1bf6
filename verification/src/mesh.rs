//! Collision triangles of a map, taken from the extracted geometry files.
//!
//! Two kinds of file carry geometry. Hull files list faces as runs of vertex
//! indices separated by -1; physics files list triangles as consecutive
//! index triples. Each face with at least three valid indices is split into
//! a fan of triangles around its first vertex; faces with an index outside
//! the vertex list are dropped whole.
use vstd::prelude::*;

use crate::dmx::{
    element_models, find_element, last_attribute, last_element, parse_dmx_checked, readable,
    document, Attribute, AttributeModel, Element, ElementModel, Vec3Bits,
};

verus! {

/// Three corners of a triangle, as float bit patterns.
#[derive(Debug, Clone, Copy, PartialEq, Eq, Structural)]
pub struct TriangleBits {
    pub a: Vec3Bits,
    pub b: Vec3Bits,
    pub c: Vec3Bits,
}

/// `index` names one of `count` vertices.
pub open spec fn valid_index(index: i32, count: nat) -> bool {
    0 <= index < count
}

/// The fan of triangles of one face: none when the face has fewer than
/// three corners or names a vertex that does not exist.
pub open spec fn face_triangles(face: Seq<i32>, vertices: Seq<Vec3Bits>) -> Seq<TriangleBits> {
    if face.len() < 3 || exists|j: int| 0 <= j < face.len() && !valid_index(#[trigger] face[j], vertices.len()) {
        Seq::empty()
    } else {
        Seq::new(
            (face.len() - 2) as nat,
            |k: int|
                TriangleBits {
                    a: vertices[face[0] as int],
                    b: vertices[face[k + 1] as int],
                    c: vertices[face[k + 2] as int],
                },
        )
    }
}

/// A face of `n` valid corners, `n` at least three, gives `n - 2` triangles,
/// all sharing its first corner; any other face gives none.
pub proof fn law_fan_size(face: Seq<i32>, vertices: Seq<Vec3Bits>)
    ensures
        face.len() >= 3 && (forall|j: int| 0 <= j < face.len() ==> valid_index(#[trigger] face[j], vertices.len()))
            ==> face_triangles(face, vertices).len() == face.len() - 2 && forall|k: int|
            0 <= k < face.len() - 2 ==> #[trigger] face_triangles(face, vertices)[k].a
                == vertices[face[0] as int] && face_triangles(face, vertices)[k].b
                == vertices[face[k + 1] as int] && face_triangles(face, vertices)[k].c
                == vertices[face[k + 2] as int],
        !(face.len() >= 3 && (forall|j: int| 0 <= j < face.len() ==> valid_index(#[trigger] face[j], vertices.len())))
            ==> face_triangles(face, vertices).len() == 0,
{
}

/// Consecutive triangles of a fan share an edge: each starts where the one
/// before it ended, so the fan covers the face's corners in order, from the
/// second corner to the last, each once.
pub proof fn law_fan_walks_the_corners(face: Seq<i32>, vertices: Seq<Vec3Bits>)
    requires
        face.len() >= 3,
        forall|j: int| 0 <= j < face.len() ==> valid_index(#[trigger] face[j], vertices.len()),
    ensures
        face_triangles(face, vertices)[0].b == vertices[face[1] as int],
        face_triangles(face, vertices)[face.len() - 3].c == vertices[face[face.len() - 1] as int],
        forall|k: int|
            0 <= k < face.len() - 3 ==> #[trigger] face_triangles(face, vertices)[k].c
                == face_triangles(face, vertices)[k + 1].b,
{
}

/// The triangles of a list of faces, face after face.
pub open spec fn all_triangles(faces: Seq<Seq<i32>>, vertices: Seq<Vec3Bits>) -> Seq<TriangleBits>
    decreases faces.len(),
{
    if faces.len() == 0 {
        Seq::empty()
    } else {
        all_triangles(faces.drop_last(), vertices) + face_triangles(faces.last(), vertices)
    }
}

/// Index of the last face separator (-1) in `indices`, if any.
pub open spec fn last_separator(indices: Seq<i32>) -> Option<int>
    decreases indices.len(),
{
    if indices.len() == 0 {
        None
    } else if indices.last() == -1 {
        Some(indices.len() - 1)
    } else {
        last_separator(indices.drop_last())
    }
}

/// The faces of a hull file: the runs of indices between separators, empty
/// runs included.
pub open spec fn hull_faces(indices: Seq<i32>) -> Seq<Seq<i32>>
    decreases indices.len(),
{
    match last_separator(indices) {
        None => seq![indices],
        Some(k) => {
            if 0 <= k < indices.len() {
                hull_faces(indices.take(k)).push(indices.skip(k + 1))
            } else {
                seq![indices]
            }
        },
    }
}

/// The faces of a physics file: consecutive triples, a trailing partial
/// triple dropped.
pub open spec fn triple_faces(indices: Seq<i32>) -> Seq<Seq<i32>> {
    Seq::new(indices.len() / 3, |k: int| indices.subrange(3 * k, 3 * k + 3))
}

proof fn lemma_last_separator(indices: Seq<i32>, from: int)
    requires
        0 <= from <= indices.len(),
        forall|i: int| from <= i < indices.len() ==> indices[i] != -1,
    ensures
        from > 0 && indices[from - 1] == -1 ==> last_separator(indices) == Some(from - 1),
        from == 0 ==> last_separator(indices) is None,
    decreases indices.len(),
{
    if indices.len() > 0 && indices.len() > from {
        lemma_last_separator(indices.drop_last(), from);
    }
}

/// Faces joined back together with a separator between each two.
pub open spec fn joined_faces(faces: Seq<Seq<i32>>) -> Seq<i32>
    decreases faces.len(),
{
    if faces.len() <= 1 {
        if faces.len() == 1 {
            faces[0]
        } else {
            Seq::empty()
        }
    } else {
        joined_faces(faces.drop_last()) + seq![-1i32] + faces.last()
    }
}

proof fn lemma_last_separator_found(indices: Seq<i32>)
    ensures
        match last_separator(indices) {
            Some(k) => 0 <= k < indices.len() && indices[k] == -1 && forall|i: int|
                k < i < indices.len() ==> indices[i] != -1,
            None => forall|i: int| 0 <= i < indices.len() ==> indices[i] != -1,
        },
    decreases indices.len(),
{
    if indices.len() > 0 && indices.last() != -1 {
        lemma_last_separator_found(indices.drop_last());
        assert forall|i: int| 0 <= i < indices.len() - 1 implies indices.drop_last()[i] == indices[i] by {}
    }
}

/// The faces of a hull file are its index list cut at the separators:
/// there is at least one, none holds a separator, and joining them back
/// with a separator between each two gives the list again.
pub proof fn law_hull_faces_split(indices: Seq<i32>)
    ensures
        hull_faces(indices).len() >= 1,
        forall|f: int, i: int|
            0 <= f < hull_faces(indices).len() && 0 <= i < hull_faces(indices)[f].len()
                ==> #[trigger] hull_faces(indices)[f][i] != -1,
        joined_faces(hull_faces(indices)) == indices,
    decreases indices.len(),
{
    lemma_last_separator_found(indices);
    match last_separator(indices) {
        None => {
            assert(hull_faces(indices) == seq![indices]);
            assert(joined_faces(seq![indices]) == indices);
        },
        Some(k) => {
            let front = indices.take(k);
            let back = indices.skip(k + 1);
            law_hull_faces_split(front);
            let faces = hull_faces(front).push(back);
            assert(hull_faces(indices) == faces);
            assert(faces.drop_last() =~= hull_faces(front));
            assert(joined_faces(faces) == joined_faces(hull_faces(front)) + seq![-1i32] + back);
            assert(front + seq![-1i32] + back =~= indices);
            assert forall|f: int, i: int|
                0 <= f < faces.len() && 0 <= i < faces[f].len() implies #[trigger] faces[f][i] != -1 by {
                if f < faces.len() - 1 {
                    assert(faces[f] == hull_faces(front)[f]);
                } else {
                    assert(faces[f][i] == indices[k + 1 + i]);
                }
            }
        },
    }
}

/// A physics file's faces are its indices taken three at a time in order:
/// every index but those of a trailing partial triple lies in exactly one
/// face, at its place.
pub proof fn law_triple_faces_cover(indices: Seq<i32>)
    ensures
        3 * triple_faces(indices).len() <= indices.len() < 3 * triple_faces(indices).len() + 3,
        forall|k: int, j: int|
            0 <= k < triple_faces(indices).len() && 0 <= j < 3 ==> #[trigger] triple_faces(indices)[k][j]
                == indices[3 * k + j] && triple_faces(indices)[k].len() == 3,
{
    let n = indices.len() as int;
    assert(3 * (n / 3) <= n < 3 * (n / 3) + 3) by (nonlinear_arith);
    assert forall|k: int, j: int|
        0 <= k < triple_faces(indices).len() && 0 <= j < 3 implies #[trigger] triple_faces(indices)[k][j]
            == indices[3 * k + j] && triple_faces(indices)[k].len() == 3 by {
        assert(3 * k + 3 <= 3 * (n / 3)) by (nonlinear_arith)
            requires
                0 <= k < n / 3,
        ;
    }
}

/// The triangles of index list `t` whose last run starts at `begin`: those
/// of the runs before it, then the fan of that last run.
proof fn lemma_hull_last_run(t: Seq<i32>, begin: int, vertices: Seq<Vec3Bits>)
    requires
        0 <= begin <= t.len(),
        forall|i: int| begin <= i < t.len() ==> t[i] != -1,
        begin > 0 ==> t[begin - 1] == -1,
    ensures
        all_triangles(hull_faces(t), vertices) == (if begin > 0 {
            all_triangles(hull_faces(t.take(begin - 1)), vertices)
        } else {
            Seq::empty()
        }) + face_triangles(t.skip(begin), vertices),
{
    let face = t.skip(begin);
    lemma_last_separator(t, begin);
    if begin > 0 {
        let front = hull_faces(t.take(begin - 1));
        assert(hull_faces(t) == front.push(face));
        assert(front.push(face).drop_last() =~= front);
    } else {
        assert(t =~= face);
        assert(hull_faces(t) == seq![face]);
        assert(seq![face].drop_last() =~= Seq::<Seq<i32>>::empty());
        assert(all_triangles(Seq::<Seq<i32>>::empty(), vertices) =~= Seq::empty());
        assert(all_triangles(seq![face], vertices) =~= Seq::empty() + face_triangles(face, vertices));
    }
}

/// Appends the fan of triangles of `face` to `out`.
fn push_face(face: &[i32], vertices: &Vec<Vec3Bits>, out: &mut Vec<TriangleBits>)
    ensures
        final(out)@ == old(out)@ + face_triangles(face@, vertices@),
{
    let n = face.len();
    if n < 3 {
        assert(face_triangles(face@, vertices@) =~= Seq::empty());
        assert(final(out)@ =~= old(out)@ + Seq::empty());
        return;
    }
    let mut j: usize = 0;
    while j < n
        invariant
            j <= n,
            n == face@.len(),
            forall|k: int| 0 <= k < j ==> valid_index(#[trigger] face@[k], vertices@.len()),
        decreases n - j,
    {
        let index = face[j];
        if index < 0 || index as usize >= vertices.len() {
            assert(!valid_index(face@[j as int], vertices@.len()));
            assert(face_triangles(face@, vertices@) =~= Seq::empty());
            assert(out@ =~= old(out)@ + Seq::empty());
            return;
        }
        j = j + 1;
    }
    let ghost start = out@;
    let first = vertices[face[0] as usize];
    let mut k: usize = 1;
    while k + 1 < n
        invariant
            1 <= k <= n - 1,
            n == face@.len(),
            n >= 3,
            first == vertices@[face@[0] as int],
            forall|i: int| 0 <= i < n ==> valid_index(#[trigger] face@[i], vertices@.len()),
            out@ == start + face_triangles(face@, vertices@).take(k - 1),
        decreases n - k,
    {
        let triangle = TriangleBits {
            a: first,
            b: vertices[face[k] as usize],
            c: vertices[face[k + 1] as usize],
        };
        out.push(triangle);
        k = k + 1;
        assert(face_triangles(face@, vertices@).take(k - 1) =~= face_triangles(
            face@,
            vertices@,
        ).take(k - 2).push(triangle));
    }
    assert(face_triangles(face@, vertices@).take(n - 2) =~= face_triangles(face@, vertices@));
}

/// The triangles of a hull file's index list.
pub fn hull_triangles(indices: &Vec<i32>, vertices: &Vec<Vec3Bits>) -> (triangles: Vec<TriangleBits>)
    ensures
        triangles@ == all_triangles(hull_faces(indices@), vertices@),
{
    let ghost s = indices@;
    let n = indices.len();
    let mut out: Vec<TriangleBits> = Vec::new();
    let mut begin: usize = 0;
    let mut j: usize = 0;
    while j < n
        invariant
            begin <= j <= n,
            n == s.len(),
            s == indices@,
            forall|i: int| begin <= i < j ==> s[i] != -1,
            begin > 0 ==> s[begin - 1] == -1,
            begin > 0 ==> out@ == all_triangles(hull_faces(s.take(begin - 1)), vertices@),
            begin == 0 ==> out@ == Seq::<TriangleBits>::empty(),
        decreases n - j,
    {
        if indices[j] == -1 {
            push_face(&indices.as_slice()[begin..j], vertices, &mut out);
            proof {
                let t = s.take(j as int);
                if begin > 0 {
                    assert(t.take(begin - 1) =~= s.take(begin - 1));
                }
                assert(t.skip(begin as int) =~= s.subrange(begin as int, j as int));
                lemma_hull_last_run(t, begin as int, vertices@);
            }
            begin = j + 1;
        }
        j = j + 1;
    }
    push_face(&indices.as_slice()[begin..n], vertices, &mut out);
    proof {
        assert(s.skip(begin as int) =~= s.subrange(begin as int, n as int));
        lemma_hull_last_run(s, begin as int, vertices@);
    }
    out
}

/// The triangles of a physics file's index triples.
pub fn triple_triangles(indices: &Vec<i32>, vertices: &Vec<Vec3Bits>) -> (triangles: Vec<TriangleBits>)
    ensures
        triangles@ == all_triangles(triple_faces(indices@), vertices@),
{
    let ghost faces = triple_faces(indices@);
    let len = indices.len();
    let count = len / 3;
    let mut out: Vec<TriangleBits> = Vec::new();
    let mut k: usize = 0;
    while k < count
        invariant
            k <= count,
            len == indices@.len(),
            count == len / 3,
            faces == triple_faces(indices@),
            out@ == all_triangles(faces.take(k as int), vertices@),
        decreases count - k,
    {
        assert(3 * k + 3 <= len) by (nonlinear_arith)
            requires
                k < count,
                count == len / 3,
        ;
        push_face(&indices.as_slice()[3 * k..3 * k + 3], vertices, &mut out);
        proof {
            assert(faces.take(k + 1).drop_last() =~= faces.take(k as int));
            assert(faces.take(k + 1).last() =~= indices@.subrange(3 * k, 3 * k + 3));
        }
        k = k + 1;
    }
    assert(faces.take(count as int) =~= faces);
    out
}


/// `part` occurs somewhere in `text`.
pub open spec fn contains_text(text: Seq<char>, part: Seq<char>) -> bool {
    exists|i: int| 0 <= i <= text.len() - part.len() && #[trigger] text.subrange(i, i + part.len()) == part
}

/// `str::contains` with a string pattern: whether `part` occurs in `text`.
#[verifier::external_body]
pub(crate) fn str_contains(text: &str, part: &str) -> (found: bool)
    ensures
        found == contains_text(text@, part@),
{
    text.contains(part)
}

/// The two kinds of geometry file.
#[derive(Debug, Clone, Copy, PartialEq, Eq, Structural)]
pub enum FileType {
    Hull,
    Phys,
}

/// The kind of geometry a file holds, judged by its name; `None` for files
/// that hold none.
pub open spec fn geometry_file_type(name: Seq<char>) -> Option<FileType> {
    if contains_text(name, "world_physics_hull"@) {
        Some(FileType::Hull)
    } else if contains_text(name, "world_physics_phys"@) {
        Some(FileType::Phys)
    } else {
        None
    }
}

/// Tells a hull file from a physics file by its name.
pub fn classify_geometry_file(file_name: &str) -> (kind: Option<FileType>)
    ensures
        kind == geometry_file_type(file_name@),
{
    if str_contains(file_name, "world_physics_hull") {
        Some(FileType::Hull)
    } else if str_contains(file_name, "world_physics_phys") {
        Some(FileType::Phys)
    } else {
        None
    }
}

/// The document's material marks collision geometry: its name starts with `$`.
pub open spec fn collision_material(elements: Seq<ElementModel>) -> bool {
    match last_element(elements, "DmeMaterial_material"@) {
        Some(material) => match last_attribute(material.attributes, "mtlName"@) {
            Some(AttributeModel::String(name)) => name.len() > 0 && name[0] == '$',
            _ => false,
        },
        None => false,
    }
}

/// The vertex positions of the document, if present.
pub open spec fn vertex_positions(elements: Seq<ElementModel>) -> Option<Seq<Vec3Bits>> {
    match last_element(elements, "DmeVertexData_bind"@) {
        Some(vertex) => match last_attribute(vertex.attributes, "position$0"@) {
            Some(AttributeModel::Vec3Array(positions)) => Some(positions),
            _ => None,
        },
        None => None,
    }
}

/// The vertex index list of the document, if present: the hull faces of a
/// hull file, the position indices of a physics file.
pub open spec fn face_indices(elements: Seq<ElementModel>, kind: FileType) -> Option<Seq<i32>> {
    match kind {
        FileType::Hull => match last_element(elements, "DmeFaceSet_hull faces"@) {
            Some(faces) => match last_attribute(faces.attributes, "faces"@) {
                Some(AttributeModel::IntegerArray(indices)) => Some(indices),
                _ => None,
            },
            None => None,
        },
        FileType::Phys => match last_element(elements, "DmeVertexData_bind"@) {
            Some(vertex) => match last_attribute(vertex.attributes, "position$0Indices"@) {
                Some(AttributeModel::IntegerArray(indices)) => Some(indices),
                _ => None,
            },
            None => None,
        },
    }
}

/// The collision triangles of one parsed file; none when its material is
/// not collision geometry or its vertices or indices are missing.
pub open spec fn file_triangles(elements: Seq<ElementModel>, kind: FileType) -> Seq<TriangleBits> {
    if !collision_material(elements) {
        Seq::empty()
    } else {
        match (vertex_positions(elements), face_indices(elements, kind)) {
            (Some(vertices), Some(indices)) => match kind {
                FileType::Hull => all_triangles(hull_faces(indices), vertices),
                FileType::Phys => all_triangles(triple_faces(indices), vertices),
            },
            _ => Seq::empty(),
        }
    }
}

/// The integer list of attribute `name` of `element`, when it is one.
fn integer_list<'a>(element: &'a Element, name: &str) -> (indices: Option<&'a Vec<i32>>)
    ensures
        match indices {
            Some(v) => last_attribute(element@.attributes, name@) == Some(
                AttributeModel::IntegerArray(v@),
            ),
            None => !(last_attribute(element@.attributes, name@) matches Some(
                AttributeModel::IntegerArray(_),
            )),
        },
{
    match element.attribute(name) {
        Some(Attribute::IntegerArray(indices)) => Some(indices),
        _ => None,
    }
}

/// The collision triangles of one parsed geometry file.
pub fn extract_file_triangles(elements: &Vec<Element>, kind: FileType) -> (triangles: Vec<TriangleBits>)
    ensures
        triangles@ == file_triangles(element_models(elements@), kind),
{
    let material = match find_element(elements, "DmeMaterial_material") {
        Some(m) => m,
        None => return Vec::new(),
    };
    match material.attribute("mtlName") {
        Some(Attribute::String(name)) => {
            let text = name.as_str();
            if text.unicode_len() == 0 || text.get_char(0) != '$' {
                return Vec::new();
            }
        },
        _ => return Vec::new(),
    }
    let vertex = match find_element(elements, "DmeVertexData_bind") {
        Some(v) => v,
        None => return Vec::new(),
    };
    let vertices = match vertex.attribute("position$0") {
        Some(Attribute::Vec3Array(positions)) => positions,
        _ => return Vec::new(),
    };
    match kind {
        FileType::Hull => {
            let faces = match find_element(elements, "DmeFaceSet_hull faces") {
                Some(f) => f,
                None => return Vec::new(),
            };
            match integer_list(faces, "faces") {
                Some(indices) => hull_triangles(indices, vertices),
                None => Vec::new(),
            }
        },
        FileType::Phys => match integer_list(vertex, "position$0Indices") {
            Some(indices) => triple_triangles(indices, vertices),
            None => Vec::new(),
        },
    }
}


/// A file of the map's geometry directory: its name and contents.
#[derive(Debug, Clone)]
pub struct GeometryFile {
    pub name: String,
    pub data: Vec<u8>,
}

/// The triangles that one file adds: none for files that hold no geometry.
pub open spec fn file_contribution(name: Seq<char>, data: Seq<u8>) -> Seq<TriangleBits> {
    match geometry_file_type(name) {
        None => Seq::empty(),
        Some(kind) => match document(data) {
            Some(elements) => file_triangles(elements, kind),
            None => Seq::empty(),
        },
    }
}

/// A geometry file whose contents have no reading.
pub open spec fn unreadable_geometry(file: GeometryFile) -> bool {
    geometry_file_type(file.name@) is Some && !readable(file.data@)
}

/// All triangles of the files, in file order.
pub open spec fn map_triangle_list(files: Seq<GeometryFile>) -> Seq<TriangleBits>
    decreases files.len(),
{
    if files.len() == 0 {
        Seq::empty()
    } else {
        map_triangle_list(files.drop_last()) + file_contribution(
            files.last().name@,
            files.last().data@,
        )
    }
}

/// Collects the collision triangles of a map's geometry files, in order.
/// `Err` names the first geometry file whose contents have no reading;
/// `Ok(None)` means that no file yielded a triangle.
pub fn map_triangles(files: &Vec<GeometryFile>) -> (outcome: Result<Option<Vec<TriangleBits>>, usize>)
    ensures
        match outcome {
            Err(i) => {
                &&& i < files@.len()
                &&& unreadable_geometry(files@[i as int])
                &&& forall|j: int| 0 <= j < i ==> !unreadable_geometry(#[trigger] files@[j])
            },
            Ok(found) => {
                &&& forall|j: int| 0 <= j < files@.len() ==> !unreadable_geometry(#[trigger] files@[j])
                &&& match found {
                    Some(triangles) => triangles@ == map_triangle_list(files@) && triangles@.len()
                        > 0,
                    None => map_triangle_list(files@).len() == 0,
                }
            },
        },
{
    let mut triangles: Vec<TriangleBits> = Vec::new();
    let mut i: usize = 0;
    while i < files.len()
        invariant
            i <= files@.len(),
            triangles@ == map_triangle_list(files@.take(i as int)),
            forall|j: int| 0 <= j < i ==> !unreadable_geometry(#[trigger] files@[j]),
        decreases files.len() - i,
    {
        let file = &files[i];
        proof {
            assert(files@.take(i + 1).drop_last() =~= files@.take(i as int));
            assert(files@.take(i + 1).last() == files@[i as int]);
        }
        match classify_geometry_file(file.name.as_str()) {
            None => {
                assert(file_contribution(file.name@, file.data@) =~= Seq::empty());
                assert(triangles@ =~= map_triangle_list(files@.take(i + 1)));
            },
            Some(kind) => {
                match parse_dmx_checked(file.data.as_slice()) {
                    None => {
                        return Err(i);
                    },
                    Some(elements) => {
                        let found = extract_file_triangles(&elements, kind);
                        let mut k: usize = 0;
                        let ghost before = triangles@;
                        while k < found.len()
                            invariant
                                k <= found@.len(),
                                triangles@ == before + found@.take(k as int),
                            decreases found.len() - k,
                        {
                            triangles.push(found[k]);
                            k = k + 1;
                            assert(triangles@ =~= before + found@.take(k as int));
                        }
                        assert(found@.take(k as int) =~= found@);
                    },
                }
            },
        }
        i = i + 1;
    }
    assert(files@.take(i as int) =~= files@);
    if triangles.len() == 0 {
        Ok(None)
    } else {
        Ok(Some(triangles))
    }
}

} // verus!
