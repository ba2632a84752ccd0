use obj_mesh::mesh::{parse_obj_as_tris, Mesh, Tri, Vertex};
use obj_mesh::scanner::{scan_obj, ObjError, ObjTables, Position, Token};
use obj_mesh::text::{is_whitespace, parse_index};

fn chars(s: &str) -> Vec<char> {
    s.chars().collect()
}

fn token_text(text: &[char], t: Option<Token>) -> String {
    match t {
        Some(t) => text[t.start..t.end].iter().collect(),
        None => String::from("0"),
    }
}

fn coords(text: &[char], p: &Position) -> [f32; 3] {
    [
        token_text(text, p.x).parse::<f32>().unwrap(),
        token_text(text, p.y).parse::<f32>().unwrap(),
        token_text(text, p.z).parse::<f32>().unwrap(),
    ]
}

fn scan(s: &str) -> (Vec<char>, ObjTables) {
    let text = chars(s);
    let tables = match scan_obj(&text) {
        Ok(t) => t,
        Err(e) => panic!("scan failed: {:?}", e),
    };
    (text, tables)
}

#[test]
fn round_trip_single_triangle() {
    let (text, tables) = scan("# one triangle\nv 0 0 0\nv 1 0 0\nv 0 1 0\nf 1 2 3\n");
    assert_eq!(tables.positions.len(), 3);
    assert_eq!(tables.faces.len(), 1);
    let tri = tables.faces[0];
    assert_eq!(coords(&text, &tri.v0), [0.0, 0.0, 0.0]);
    assert_eq!(coords(&text, &tri.v1), [1.0, 0.0, 0.0]);
    assert_eq!(coords(&text, &tri.v2), [0.0, 1.0, 0.0]);
    assert_eq!(tri.v1, tables.positions[1]);
    assert_eq!(tri.v1.x, Some(Token { start: 25, end: 26 }));
}

#[test]
fn sizes_and_sequential_indices() {
    let text = chars("o quad\nv 0 0 0\nv 1 0 0\nv 1 1 0\nv 0 1 0\nf 1 2 3\nf 1 3 4\nf 4 3 2\n");
    let mesh = Mesh::from_obj(&text).unwrap();
    assert_eq!(mesh.verts.len(), 9);
    assert_eq!(mesh.indices, vec![0u32, 1, 2, 3, 4, 5, 6, 7, 8]);
    for (k, v) in mesh.verts.iter().enumerate() {
        assert_eq!(v.norm, k / 3);
    }
    assert_eq!(mesh.verts[4].pos, scan_obj(&text).unwrap().positions[2]);
}

#[test]
fn empty_text_gives_empty_mesh() {
    let mesh = Mesh::from_obj(&chars("")).unwrap();
    assert!(mesh.verts.is_empty());
    assert!(mesh.indices.is_empty());
}

#[test]
fn marker_on_first_line_is_not_seen() {
    let (_, tables) = scan("v 1 2 3\nv 4 5 6\n");
    assert_eq!(tables.positions.len(), 1);
    assert_eq!(tables.positions[0].x, Some(Token { start: 10, end: 11 }));
}

#[test]
fn degenerate_face_is_accepted() {
    let text = chars("\nv 0 0 0\nv 1 1 1\nv 2 2 2\nf 1 2 3\nf 1 1 1\n");
    let mesh = Mesh::from_obj(&text).unwrap();
    assert_eq!(mesh.verts.len(), 6);
    assert_eq!(mesh.verts[3].pos, mesh.verts[4].pos);
    assert_eq!(mesh.verts[4].pos, mesh.verts[5].pos);
}

#[test]
fn face_index_beyond_positions_is_malformed() {
    let text = chars("\nv 0 0 0\nv 1 0 0\nv 0 1 0\nf 1 2 99\n");
    let err = Mesh::from_obj(&text).err().unwrap();
    assert_eq!(err, ObjError::MalformedToken { start: 31, end: 33 });
    let token: String = text[31..33].iter().collect();
    assert_eq!(token, "99");
}

#[test]
fn face_index_zero_is_malformed() {
    let text = chars("\nv 0 0 0\nf 0 1 1\n");
    assert_eq!(scan_obj(&text).err().unwrap(), ObjError::MalformedToken { start: 11, end: 12 });
}

#[test]
fn face_index_of_later_position_is_malformed() {
    let text = chars("\nv 0 0 0\nf 1 1 2\nv 1 1 1\n");
    assert_eq!(scan_obj(&text).err().unwrap(), ObjError::MalformedToken { start: 15, end: 16 });
}

#[test]
fn compound_face_token_is_malformed() {
    let text = chars("\nv 0 0 0\nf 1/1/1 1 1\n");
    assert_eq!(scan_obj(&text).err().unwrap(), ObjError::MalformedToken { start: 11, end: 16 });
}

#[test]
fn double_space_after_face_marker_is_malformed() {
    let text = chars("\nv 0 0 0\nf  1 1 1\n");
    assert_eq!(scan_obj(&text).err().unwrap(), ObjError::MalformedToken { start: 11, end: 11 });
}

#[test]
fn shared_positions_are_not_welded() {
    let text = chars("\nv 0 0 0\nv 1 0 0\nv 0 1 0\nf 1 2 3\nf 1 2 3\n");
    let mesh = Mesh::from_obj(&text).unwrap();
    assert_eq!(mesh.verts.len(), 6);
    assert_eq!(mesh.verts[0].pos, mesh.verts[3].pos);
    assert_ne!(mesh.verts[0], mesh.verts[3]);
    assert_ne!(mesh.indices[0], mesh.indices[3]);
    assert_eq!(mesh.verts[3], Vertex { pos: mesh.verts[0].pos, norm: 1 });
}

#[test]
fn normal_line_is_read_as_position() {
    let (text, tables) = scan("\nv 1 2 3\nvn 0 0 1\nf 1 2 1\n");
    assert_eq!(tables.positions.len(), 2);
    assert_eq!(tables.positions[1].x, Some(Token { start: 12, end: 13 }));
    assert_eq!(coords(&text, &tables.positions[1]), [0.0, 0.0, 1.0]);
    assert_eq!(tables.faces[0].v1, tables.positions[1]);
}

#[test]
fn unfinished_face_keeps_corner_at_origin() {
    let (_, tables) = scan("\nv 1 2 3\nf 1 1");
    assert_eq!(tables.faces.len(), 1);
    assert_eq!(tables.faces[0].v0, tables.positions[0]);
    assert_eq!(tables.faces[0].v1, Position::origin());
    assert_eq!(tables.faces[0].v2, Position::origin());
}

#[test]
fn unfinished_position_keeps_zero_coordinate() {
    let (_, tables) = scan("\nv 1 2\n");
    assert_eq!(tables.positions.len(), 1);
    assert_eq!(tables.positions[0].y, Some(Token { start: 5, end: 6 }));
    assert_eq!(tables.positions[0].z, None);
}

#[test]
fn unicode_white_space_separates_tokens() {
    let (text, tables) = scan("\nv\u{3000}1\u{A0}2\t3\n");
    assert_eq!(coords(&text, &tables.positions[0]), [1.0, 2.0, 3.0]);
}

#[test]
fn conversion_appends_after_existing_items() {
    let text = chars("\nv 0 0 0\nv 1 0 0\nv 0 1 0\nf 3 2 1\n");
    let first = Tri::blank();
    let mut tris = vec![first];
    parse_obj_as_tris(&mut tris, &text).unwrap();
    assert_eq!(tris.len(), 2);
    assert_eq!(tris[0], first);
    let tables = scan_obj(&text).unwrap();
    assert_eq!(tris[1], Tri::new(tables.positions[2], tables.positions[1], tables.positions[0]));
}

#[test]
fn failed_conversion_leaves_list_unchanged() {
    let text = chars("\nv 0 0 0\nf 1 1 x\n");
    let mut tris = vec![Tri::blank()];
    assert!(parse_obj_as_tris(&mut tris, &text).is_err());
    assert_eq!(tris.len(), 1);
}

#[test]
fn index_tokens_parse_like_usize() {
    let cases: Vec<(&str, Option<usize>)> = vec![
        ("7", Some(7)),
        ("+7", Some(7)),
        ("007", Some(7)),
        ("+", None),
        ("", None),
        ("-1", None),
        ("1.0", None),
        ("18446744073709551615", Some(usize::MAX)),
        ("18446744073709551616", None),
        ("99999999999999999999999", None),
    ];
    for (s, want) in cases {
        let t = chars(s);
        assert_eq!(parse_index(&t, 0, t.len()), want, "token {:?}", s);
        assert_eq!(s.parse::<usize>().ok(), want, "token {:?}", s);
    }
    let t = chars("f 12 ");
    assert_eq!(parse_index(&t, 2, 4), Some(12));
}

#[test]
fn white_space_matches_char_is_whitespace() {
    for c in ['\t', '\n', '\u{0B}', '\u{0C}', '\r', ' ', '\u{85}', '\u{A0}', '\u{1680}', '\u{2000}',
        '\u{200A}', '\u{2028}', '\u{2029}', '\u{202F}', '\u{205F}', '\u{3000}', 'a', '0', '\u{200B}',
        '\u{1F}', '\u{FEFF}'] {
        assert_eq!(is_whitespace(c), c.is_whitespace(), "char {:?}", c);
    }
}

#[test]
fn from_tris_expands_each_corner() {
    let (_, tables) = scan("\nv 0 0 0\nv 1 0 0\nv 0 1 0\nf 1 2 3\n");
    let tris = vec![tables.faces[0], Tri::blank()];
    let mesh = Mesh::from_tris(&tris);
    assert_eq!(mesh.verts[2], Vertex { pos: tables.positions[2], norm: 0 });
    assert_eq!(mesh.verts[5], Vertex { pos: Position::origin(), norm: 1 });
    assert_eq!(mesh.indices, vec![0u32, 1, 2, 3, 4, 5]);
}
