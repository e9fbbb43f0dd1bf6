use deadlocked::dmx::{
    find_element, parse_dmx, parse_dmx_checked, read_attribute, read_bytes, read_many,
    read_string, Attribute, ByteCursor, Element, Mat4Bits, QuatBits, Vec3Bits, Vec4Bits,
    WireValue,
};

fn push_i32(out: &mut Vec<u8>, v: i32) {
    out.extend_from_slice(&v.to_ne_bytes());
}

fn push_f32(out: &mut Vec<u8>, v: f32) {
    out.extend_from_slice(&v.to_ne_bytes());
}

fn push_str(out: &mut Vec<u8>, s: &str) {
    out.extend_from_slice(s.as_bytes());
    out.push(0);
}

/// A document with the given string table and elements; each element is
/// (kind index, name index, attribute bytes already encoded, attribute count).
fn document(strings: &[&str], elements: &[(i32, i32, i32, Vec<u8>)]) -> Vec<u8> {
    let mut out = Vec::new();
    push_str(&mut out, "<!-- dmx encoding binary 5 format model 22 -->\n");
    push_i32(&mut out, 0);
    push_i32(&mut out, strings.len() as i32);
    for s in strings {
        push_str(&mut out, s);
    }
    push_i32(&mut out, elements.len() as i32);
    for (kind, name, _, _) in elements {
        push_i32(&mut out, *kind);
        push_i32(&mut out, *name);
        out.extend_from_slice(&[0xAB; 16]);
    }
    for (_, _, count, attrs) in elements {
        push_i32(&mut out, *count);
        out.extend_from_slice(attrs);
    }
    out
}

#[test]
fn reads_elements_and_typed_attributes() {
    let strings = ["DmeMaterial", "material", "mtlName", "$default", "scale", "flag", "ids"];
    let mut attrs = Vec::new();
    // mtlName = strings[3]
    push_i32(&mut attrs, 2);
    attrs.push(5);
    push_i32(&mut attrs, 3);
    // scale = 2.5 as float
    push_i32(&mut attrs, 4);
    attrs.push(3);
    push_f32(&mut attrs, 2.5);
    // flag = true
    push_i32(&mut attrs, 5);
    attrs.push(4);
    attrs.push(7);
    // ids = integer array [4, -1, 9]
    push_i32(&mut attrs, 6);
    attrs.push(34);
    push_i32(&mut attrs, 3);
    for v in [4, -1, 9] {
        push_i32(&mut attrs, v);
    }
    let data = document(&strings, &[(0, 1, 4, attrs)]);

    let elements = parse_dmx_checked(&data).expect("consistent document");
    assert_eq!(elements.len(), 1);
    let e = &elements[0];
    assert_eq!(e.kind, "DmeMaterial");
    assert_eq!(e.name, "material");
    match e.attribute("mtlName") {
        Some(Attribute::String(s)) => assert_eq!(s, "$default"),
        other => panic!("unexpected {other:?}"),
    }
    match e.attribute("scale") {
        Some(Attribute::Float(bits)) => assert_eq!(f32::from_bits(*bits), 2.5),
        other => panic!("unexpected {other:?}"),
    }
    assert!(matches!(e.attribute("flag"), Some(Attribute::Bool(true))));
    match e.attribute("ids") {
        Some(Attribute::IntegerArray(v)) => assert_eq!(v, &vec![4, -1, 9]),
        other => panic!("unexpected {other:?}"),
    }
    assert!(e.attribute("missing").is_none());

    let same = parse_dmx(&data);
    assert_eq!(same.len(), 1);
    assert_eq!(same[0].kind, "DmeMaterial");
}

#[test]
fn later_elements_and_attributes_replace_earlier_ones() {
    let strings = ["Dme", "a_b", "Dme_a", "b", "v"];
    let mut first = Vec::new();
    push_i32(&mut first, 4);
    first.push(2);
    push_i32(&mut first, 1);
    push_i32(&mut first, 4);
    first.push(2);
    push_i32(&mut first, 2);
    let mut second = Vec::new();
    push_i32(&mut second, 4);
    second.push(2);
    push_i32(&mut second, 3);
    // element 0: kind "Dme", name "a_b" -> key "Dme_a_b"
    // element 1: kind "Dme_a", name "b" -> key "Dme_a_b" as well
    let data = document(&strings, &[(0, 1, 2, first), (2, 3, 1, second)]);
    let elements = parse_dmx_checked(&data).unwrap();
    assert_eq!(elements.len(), 2);
    assert!(matches!(elements[0].attribute("v"), Some(Attribute::Integer(2))));
    let found = find_element(&elements, "Dme_a_b").unwrap();
    assert_eq!(found.kind, "Dme_a");
    assert!(matches!(found.attribute("v"), Some(Attribute::Integer(3))));
    assert!(find_element(&elements, "Dme_a").is_none());

    let mut element = Element::new("k".to_string(), "n".to_string());
    element.add("x".to_string(), Attribute::Integer(1));
    element.add("x".to_string(), Attribute::Integer(5));
    assert!(matches!(element.attribute("x"), Some(Attribute::Integer(5))));
    assert_eq!(element.attributes.len(), 2);
}

#[test]
fn inconsistent_tables_have_no_reading() {
    // negative string count
    let mut data = Vec::new();
    push_str(&mut data, "h");
    push_i32(&mut data, 0);
    push_i32(&mut data, -1);
    assert!(parse_dmx_checked(&data).is_none());

    // negative element count
    let mut data = Vec::new();
    push_str(&mut data, "h");
    push_i32(&mut data, 0);
    push_i32(&mut data, 0);
    push_i32(&mut data, -3);
    assert!(parse_dmx_checked(&data).is_none());

    // element kind index outside the table
    let data = document(&["a", "b"], &[(2, 0, 0, Vec::new())]);
    assert!(parse_dmx_checked(&data).is_none());

    // attribute name index outside the table
    let mut attrs = Vec::new();
    push_i32(&mut attrs, -1);
    attrs.push(2);
    push_i32(&mut attrs, 0);
    let data = document(&["a", "b"], &[(0, 1, 1, attrs)]);
    assert!(parse_dmx_checked(&data).is_none());

    // negative byte count
    let mut attrs = Vec::new();
    push_i32(&mut attrs, 0);
    attrs.push(6);
    push_i32(&mut attrs, -5);
    let data = document(&["a", "b"], &[(0, 1, 1, attrs)]);
    assert!(parse_dmx_checked(&data).is_none());

    // string value index outside the table
    let mut attrs = Vec::new();
    push_i32(&mut attrs, 0);
    attrs.push(5);
    push_i32(&mut attrs, 2);
    let data = document(&["a", "b"], &[(0, 1, 1, attrs)]);
    assert!(parse_dmx_checked(&data).is_none());
}

#[test]
fn empty_and_truncated_input_reads_defaults() {
    // no bytes at all: empty header, zero counts, no elements
    let elements = parse_dmx_checked(&[]).unwrap();
    assert!(elements.is_empty());

    // one element whose attribute value runs past the end
    let mut data = document(&["E", "n", "m"], &[(0, 1, 2, Vec::new())]);
    push_i32(&mut data, 2);
    data.push(13); // quaternion
    data.extend_from_slice(&[1, 2, 3]);
    let elements = parse_dmx_checked(&data).unwrap();
    let e = &elements[0];
    assert_eq!(e.attributes.len(), 2);
    match &e.attributes[0].1 {
        Attribute::Quaternion(q) => {
            assert_eq!(*q, QuatBits { x: 0, y: 0, z: 0, w: 1.0f32.to_bits() });
        },
        other => panic!("unexpected {other:?}"),
    }
    // the second attribute finds the data exhausted: name index 0, type 0
    assert_eq!(e.attributes[1].0, "E");
    assert!(matches!(&e.attributes[1].1, Attribute::ByteArray(v) if v.is_empty()));
}

#[test]
fn matrix_defaults_to_identity_and_reads_columns() {
    let short = [0u8; 10];
    let mut cursor = ByteCursor::new(&short);
    let m = Mat4Bits::read(&mut cursor);
    let one = 1.0f32.to_bits();
    assert_eq!(m.x_axis, Vec4Bits { x: one, y: 0, z: 0, w: 0 });
    assert_eq!(m.w_axis, Vec4Bits { x: 0, y: 0, z: 0, w: one });
    assert_eq!(cursor.pos, 10);

    let mut bytes = Vec::new();
    for i in 0..16 {
        push_f32(&mut bytes, i as f32);
    }
    let mut cursor = ByteCursor::new(&bytes);
    let m = Mat4Bits::read(&mut cursor);
    assert_eq!(f32::from_bits(m.y_axis.x), 4.0);
    assert_eq!(f32::from_bits(m.w_axis.w), 15.0);
    assert_eq!(cursor.pos, 64);
}

#[test]
fn strings_stop_at_zero_or_end_and_must_be_utf8() {
    let data = b"abc\0\xff\xfe\0tail";
    let mut cursor = ByteCursor::new(data);
    assert_eq!(read_string(&mut cursor), "abc");
    assert_eq!(cursor.pos, 4);
    assert_eq!(read_string(&mut cursor), "");
    assert_eq!(cursor.pos, 7);
    assert_eq!(read_string(&mut cursor), "tail");
    assert_eq!(cursor.pos, data.len());
    assert_eq!(read_string(&mut cursor), "");
    assert_eq!(cursor.pos, data.len());
}

#[test]
fn byte_runs_are_padded_with_zeros_at_the_end() {
    let data = [1u8, 2, 3, 4, 5];
    let mut cursor = ByteCursor::new(&data);
    assert_eq!(read_bytes(&mut cursor, 2), vec![1, 2]);
    assert_eq!(cursor.pos, 2);
    assert_eq!(read_bytes(&mut cursor, 6), vec![3, 4, 5, 0, 0, 0]);
    assert_eq!(cursor.pos, 5);
}

#[test]
fn counted_values_and_element_references() {
    let mut data = Vec::new();
    push_i32(&mut data, 4);
    for v in [-1, -2, -3, 8] {
        push_i32(&mut data, v);
    }
    let strings: Vec<String> = Vec::new();
    let mut cursor = ByteCursor::new(&data);
    match read_attribute(&mut cursor, 33, &strings) {
        Some(Attribute::ElementArray(refs)) => assert_eq!(refs, vec![None, None, Some(-3), Some(8)]),
        other => panic!("unexpected {other:?}"),
    }

    let mut data = Vec::new();
    push_i32(&mut data, -7);
    let mut cursor = ByteCursor::new(&data);
    assert!(matches!(read_attribute(&mut cursor, 1, &strings), Some(Attribute::Element(None))));

    // a negative count announces nothing
    let mut data = Vec::new();
    push_i32(&mut data, -2);
    let mut cursor = ByteCursor::new(&data);
    let values: Vec<i32> = read_many(&mut cursor, -2);
    assert!(values.is_empty());
    assert_eq!(cursor.pos, 0);

    // unknown and empty type codes read nothing
    let mut cursor = ByteCursor::new(&data);
    assert!(matches!(read_attribute(&mut cursor, 38, &strings), Some(Attribute::ByteArray(v)) if v.is_empty()));
    assert!(matches!(read_attribute(&mut cursor, 200, &strings), Some(Attribute::ByteArray(v)) if v.is_empty()));
    assert_eq!(cursor.pos, 0);

    // vectors
    let mut data = Vec::new();
    push_i32(&mut data, 2);
    for v in [1.0f32, 2.0, 3.0, 4.0, 5.0, 6.0] {
        push_f32(&mut data, v);
    }
    let mut cursor = ByteCursor::new(&data);
    match read_attribute(&mut cursor, 42, &strings) {
        Some(Attribute::Vec3Array(v)) => {
            assert_eq!(v.len(), 2);
            assert_eq!(v[1], Vec3Bits { x: 4.0f32.to_bits(), y: 5.0f32.to_bits(), z: 6.0f32.to_bits() });
        },
        other => panic!("unexpected {other:?}"),
    }

    // strings arrays and bytes
    let mut data = Vec::new();
    push_i32(&mut data, 2);
    push_str(&mut data, "x");
    push_str(&mut data, "yz");
    push_i32(&mut data, 3);
    data.extend_from_slice(&[9, 8]);
    let mut cursor = ByteCursor::new(&data);
    match read_attribute(&mut cursor, 37, &strings) {
        Some(Attribute::StringArray(v)) => assert_eq!(v, vec!["x".to_string(), "yz".to_string()]),
        other => panic!("unexpected {other:?}"),
    }
    match read_attribute(&mut cursor, 47, &strings) {
        Some(Attribute::ByteArray(v)) => assert_eq!(v, vec![9, 8, 0]),
        other => panic!("unexpected {other:?}"),
    }
}

#[test]
fn numbers_follow_the_machine_byte_order() {
    let data = 0x0102_0304_0506_0708u64.to_ne_bytes();
    let mut cursor = ByteCursor::new(&data);
    assert_eq!(u64::read(&mut cursor), 0x0102_0304_0506_0708);
    let data = (-5i32).to_ne_bytes();
    let mut cursor = ByteCursor::new(&data);
    assert_eq!(i32::read(&mut cursor), -5);
    // fewer bytes than a value needs: the default, cursor at the end
    let mut cursor = ByteCursor::new(&data[..3]);
    assert_eq!(u32::read(&mut cursor), 0);
    assert_eq!(cursor.pos, 3);
}
