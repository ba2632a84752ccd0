//! The single-pass scanner: a four-state machine over the characters of the
//! text that collects the position table and the face table.
use vstd::prelude::*;

use crate::mesh::Tri;
use crate::text::{index_value, is_whitespace, parse_index, white_space};

verus! {

/// The characters `[start, end)` of the text that make up one numeric token.
#[derive(Clone, Copy, Debug, PartialEq, Eq)]
pub struct Token {
    pub start: usize,
    pub end: usize,
}

/// One vertex position: each coordinate is the token it was read from, or
/// `None` where no token was stored, which reads as zero.
#[derive(Clone, Copy, Debug, PartialEq, Eq)]
pub struct Position {
    pub x: Option<Token>,
    pub y: Option<Token>,
    pub z: Option<Token>,
}

impl Position {
    /// The fresh slot that a `v` marker opens: every coordinate at zero.
    pub fn origin() -> (r: Position)
        ensures
            r == Position::spec_origin(),
    {
        Position { x: None, y: None, z: None }
    }

    pub open spec fn spec_origin() -> Position {
        Position { x: None, y: None, z: None }
    }

    /// The coordinate `k` (0, 1 or 2).
    pub open spec fn coord(self, k: int) -> Option<Token> {
        if k == 0 {
            self.x
        } else if k == 1 {
            self.y
        } else {
            self.z
        }
    }

    pub open spec fn spec_with_coord(self, k: int, t: Token) -> Position {
        if k == 0 {
            Position { x: Some(t), ..self }
        } else if k == 1 {
            Position { y: Some(t), ..self }
        } else {
            Position { z: Some(t), ..self }
        }
    }

    /// This position with coordinate `k` read from `t`.
    pub fn with_coord(self, k: usize, t: Token) -> (r: Position)
        requires
            k < 3,
        ensures
            r == self.spec_with_coord(k as int, t),
    {
        if k == 0 {
            Position { x: Some(t), ..self }
        } else if k == 1 {
            Position { y: Some(t), ..self }
        } else {
            Position { z: Some(t), ..self }
        }
    }
}

/// Where the scanner stands. `Verts(field, start)` and `Faces(field, start)`
/// read the field `field` of the current line; `start` is where its token
/// began, or 0 while the white space after the marker is still awaited.
#[derive(Clone, Copy, Debug, PartialEq, Eq)]
pub enum ObjParserState {
    Inactive,
    Verts(usize, usize),
    Faces(usize, usize),
}

/// Why a geometry text could not be turned into a mesh.
#[derive(Clone, Debug, PartialEq, Eq)]
pub enum ObjError {
    /// The named resource could not be opened or read.
    ResourceUnavailable { path: String },
    /// The token `[start, end)` is not a number of the expected kind, or a
    /// face index that names no position read before it.
    MalformedToken { start: usize, end: usize },
    /// More triangles than 32-bit indices can number.
    TooManyTriangles,
}

/// What the scanner has collected so far, and where it stands.
pub struct ScanModel {
    pub state: ObjParserState,
    pub positions: Seq<Position>,
    pub faces: Seq<Tri>,
}

/// The two tables of a scanned text: the positions in the order of their `v`
/// lines, and each face with its three positions resolved.
pub struct ObjTables {
    pub positions: Vec<Position>,
    pub faces: Vec<Tri>,
}

/// Whether a line starts at `i` with the marker `m`. The first character of
/// the text follows no line terminator, so it is never a marker.
pub open spec fn marker_at(text: Seq<char>, i: int, m: char) -> bool {
    i > 0 && text[i - 1] == '\n' && text[i] == m
}

/// One transition of the scanner, on the character `text[i]`.
pub open spec fn scan_step(text: Seq<char>, m: ScanModel, i: int) -> Result<ScanModel, ObjError> {
    let c = text[i];
    let next = (i + 1) as usize;
    match m.state {
        ObjParserState::Inactive => {
            if marker_at(text, i, 'v') {
                Ok(
                    ScanModel {
                        state: ObjParserState::Verts(0, 0),
                        positions: m.positions.push(Position::spec_origin()),
                        faces: m.faces,
                    },
                )
            } else if marker_at(text, i, 'f') {
                Ok(
                    ScanModel {
                        state: ObjParserState::Faces(0, 0),
                        positions: m.positions,
                        faces: m.faces.push(Tri::spec_blank()),
                    },
                )
            } else {
                Ok(m)
            }
        },
        ObjParserState::Verts(field, start) => {
            if !white_space(c) {
                Ok(m)
            } else if start == 0 {
                Ok(ScanModel { state: ObjParserState::Verts(field, next), ..m })
            } else {
                let last = m.positions.len() - 1;
                let tok = Token { start, end: i as usize };
                Ok(
                    ScanModel {
                        state: if field == 2 {
                            ObjParserState::Inactive
                        } else {
                            ObjParserState::Verts((field + 1) as usize, next)
                        },
                        positions: m.positions.update(
                            last,
                            m.positions[last].spec_with_coord(field as int, tok),
                        ),
                        faces: m.faces,
                    },
                )
            }
        },
        ObjParserState::Faces(field, start) => {
            if !white_space(c) {
                Ok(m)
            } else if start == 0 {
                Ok(ScanModel { state: ObjParserState::Faces(field, next), ..m })
            } else {
                match index_value(text.subrange(start as int, i)) {
                    Some(vi) if 1 <= vi && vi <= m.positions.len() => {
                        let last = m.faces.len() - 1;
                        Ok(
                            ScanModel {
                                state: if field == 2 {
                                    ObjParserState::Inactive
                                } else {
                                    ObjParserState::Faces((field + 1) as usize, next)
                                },
                                positions: m.positions,
                                faces: m.faces.update(
                                    last,
                                    m.faces[last].spec_with_corner(
                                        field as int,
                                        m.positions[vi - 1],
                                    ),
                                ),
                            },
                        )
                    },
                    _ => Err(ObjError::MalformedToken { start, end: i as usize }),
                }
            }
        },
    }
}

/// The scanner after the first `n` characters of `text`.
pub open spec fn scan_prefix(text: Seq<char>, n: nat) -> Result<ScanModel, ObjError>
    decreases n,
{
    if n == 0 {
        Ok(ScanModel { state: ObjParserState::Inactive, positions: Seq::empty(), faces: Seq::empty() })
    } else {
        match scan_prefix(text, (n - 1) as nat) {
            Ok(m) => scan_step(text, m, n - 1),
            Err(e) => Err(e),
        }
    }
}

/// The scanner after the whole of `text`.
pub open spec fn scan_text(text: Seq<char>) -> Result<ScanModel, ObjError> {
    scan_prefix(text, text.len())
}

/// Once the scanner has failed, it stays failed with the same error.
pub proof fn lemma_scan_error_persists(text: Seq<char>, k: nat, n: nat)
    requires
        k <= n,
        scan_prefix(text, k) is Err,
    ensures
        scan_prefix(text, n) == scan_prefix(text, k),
    decreases n - k,
{
    if k < n {
        lemma_scan_error_persists(text, k, (n - 1) as nat);
    }
}

/// A face token that is no unsigned index, or that names no position read
/// before it (index 0, or beyond the positions so far), ends the scan with that token as a malformed one; the
/// index is never wrapped or clamped.
pub proof fn lemma_face_index_out_of_range_fails(text: Seq<char>, i: nat)
    requires
        i < text.len(),
        scan_prefix(text, i) is Ok,
        scan_prefix(text, i)->Ok_0.state is Faces,
        scan_prefix(text, i)->Ok_0.state->Faces_1 != 0,
        white_space(text[i as int]),
        ({
            let m = scan_prefix(text, i)->Ok_0;
            let start = m.state->Faces_1;
            match index_value(text.subrange(start as int, i as int)) {
                Some(vi) => vi == 0 || vi > m.positions.len(),
                None => true,
            }
        }),
    ensures
        scan_text(text) == Err::<ScanModel, ObjError>(
            ObjError::MalformedToken {
                start: scan_prefix(text, i)->Ok_0.state->Faces_1,
                end: i as usize,
            },
        ),
{
    assert(scan_prefix(text, i + 1) == scan_step(text, scan_prefix(text, i)->Ok_0, i as int));
    lemma_scan_error_persists(text, i + 1, text.len());
}

/// The bounds that hold of the scanner's state after `i` characters.
pub open spec fn scan_state_ok(m: ScanModel, i: int) -> bool {
    match m.state {
        ObjParserState::Inactive => true,
        ObjParserState::Verts(field, start) => m.positions.len() > 0 && field < 3 && start <= i,
        ObjParserState::Faces(field, start) => m.faces.len() > 0 && field < 3 && start <= i,
    }
}

/// Scans `text` once, left to right, and returns its position table and face
/// table, or the first token that could not be read.
pub fn scan_obj(text: &[char]) -> (r: Result<ObjTables, ObjError>)
    ensures
        r is Ok <==> scan_text(text@) is Ok,
        r is Ok ==> r->Ok_0.positions@ == scan_text(text@)->Ok_0.positions
            && r->Ok_0.faces@ == scan_text(text@)->Ok_0.faces,
        r is Err ==> scan_text(text@) == Err::<ScanModel, ObjError>(r->Err_0),
{
    let mut state = ObjParserState::Inactive;
    let mut vs: Vec<Position> = Vec::new();
    let mut fs: Vec<Tri> = Vec::new();
    let mut c_prev: char = '\0';
    let mut i: usize = 0;
    while i < text.len()
        invariant
            i <= text@.len(),
            scan_prefix(text@, i as nat) == Ok::<ScanModel, ObjError>(
                ScanModel { state, positions: vs@, faces: fs@ },
            ),
            scan_state_ok(ScanModel { state, positions: vs@, faces: fs@ }, i as int),
            i > 0 ==> c_prev == text@[i - 1],
        decreases text@.len() - i,
    {
        let c = text[i];
        let ghost m = ScanModel { state, positions: vs@, faces: fs@ };
        assert(scan_prefix(text@, (i + 1) as nat) == scan_step(text@, m, i as int));
        match state {
            ObjParserState::Inactive => {
                if c == 'v' && i > 0 && c_prev == '\n' {
                    vs.push(Position::origin());
                    state = ObjParserState::Verts(0, 0);
                } else if c == 'f' && i > 0 && c_prev == '\n' {
                    fs.push(Tri::blank());
                    state = ObjParserState::Faces(0, 0);
                }
            },
            ObjParserState::Verts(field, start) => {
                if is_whitespace(c) {
                    if start != 0 {
                        let last = vs.len() - 1;
                        let p = vs[last].with_coord(field, Token { start, end: i });
                        vs.set(last, p);
                        if field == 2 {
                            state = ObjParserState::Inactive;
                        } else {
                            state = ObjParserState::Verts(field + 1, i + 1);
                        }
                    } else {
                        state = ObjParserState::Verts(field, i + 1);
                    }
                }
            },
            ObjParserState::Faces(field, start) => {
                if is_whitespace(c) {
                    if start != 0 {
                        let vi = match parse_index(text, start, i) {
                            Some(vi) if 1 <= vi && vi <= vs.len() => vi,
                            _ => {
                                proof {
                                    lemma_scan_error_persists(text@, (i + 1) as nat, text@.len());
                                }
                                return Err(ObjError::MalformedToken { start, end: i });
                            },
                        };
                        let last = fs.len() - 1;
                        let f = fs[last].with_corner(field, vs[vi - 1]);
                        fs.set(last, f);
                        if field == 2 {
                            state = ObjParserState::Inactive;
                        } else {
                            state = ObjParserState::Faces(field + 1, i + 1);
                        }
                    } else {
                        state = ObjParserState::Faces(field, i + 1);
                    }
                }
            },
        }
        c_prev = c;
        i = i + 1;
    }
    Ok(ObjTables { positions: vs, faces: fs })
}

} // verus!
