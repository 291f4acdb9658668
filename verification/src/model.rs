//! The indexed mesh, the rules by which the lines of a file build it, and
//! its two flat streams.
use crate::number::{indices_of, is_number};
use crate::text::{lines_of, tokens_of};
use vstd::prelude::*;

verus! {

/// Why a line was refused.
#[derive(Clone, Copy, Debug, PartialEq, Eq, Structural)]
pub enum FormatReason {
    /// The line holds white space only.
    MissingMarker,
    /// The first token is none of `o`, `g`, `s`, `v`, `vn`, `f`.
    UnknownMarker,
    /// Nothing follows an `o`, `g` or `s`.
    MissingToken,
    /// What follows an `s` is none of `0`, `1`, `off`, `on`.
    InvalidSmoothing,
    /// A coordinate is no decimal floating-point literal.
    NotANumber,
    /// A `v` or `vn` has more or fewer than three coordinates.
    CoordinateCount,
    /// An `f` has more or fewer than three corners.
    CornerCount,
    /// A corner does not begin with an index.
    MissingVertexIndex,
    /// A corner holds the index zero: indices count from one.
    ZeroIndex,
    /// A corner refers to a vertex or a normal that no earlier line declared.
    IndexOutOfRange,
}

/// A refused line: its place among the lines, counted from zero, and why.
#[derive(Clone, Copy, Debug, PartialEq, Eq, Structural)]
pub struct FormatError {
    pub line: usize,
    pub reason: FormatReason,
}

/// One corner of a face: the places of its vertex, texture coordinate and
/// normal in their tables, counted from zero.
#[derive(Clone, Copy, Debug)]
pub struct Corner {
    pub vertex: usize,
    pub texture: Option<usize>,
    pub normal: Option<usize>,
}

/// Three coordinates, each as the decimal text that denotes it.
#[derive(Debug)]
pub struct Coords {
    pub x: Vec<char>,
    pub y: Vec<char>,
    pub z: Vec<char>,
}

/// What a `Coords` holds.
pub struct Triple {
    pub x: Seq<char>,
    pub y: Seq<char>,
    pub z: Seq<char>,
}

/// What an `Object` holds.
pub struct Mesh {
    pub name: Seq<char>,
    pub vertices: Seq<Triple>,
    pub normals: Seq<Triple>,
    pub faces: Seq<Corner>,
}

/// A model: its name, the table of its vertices, the table of its normals,
/// and the corners of its faces, three for each face.
#[derive(Debug)]
pub struct Object {
    pub name: Vec<char>,
    pub vertices: Vec<Coords>,
    pub normals: Vec<Coords>,
    pub faces: Vec<Corner>,
}

/// The kinds of line, each with the first token that announces it.
pub enum Marker {
    /// `o`: an object begins.
    Object,
    /// `g`: a group begins.
    Group,
    /// `s`: smooth shading is set.
    Smoothing,
    /// `v`: a vertex.
    Vertex,
    /// `vn`: a normal.
    Normal,
    /// `f`: a face.
    Face,
}

/// What a line tells beside the geometry.
#[derive(Debug)]
pub enum Notice {
    /// An object of this name begins.
    Object(Vec<char>),
    /// A group of this name begins.
    Group(Vec<char>),
    /// Smooth shading is switched on, or off.
    Smoothing(bool),
}

/// What a `Notice` holds.
pub enum Told {
    /// An object of this name begins.
    Object(Seq<char>),
    /// A group of this name begins.
    Group(Seq<char>),
    /// Smooth shading is switched on, or off.
    Smoothing(bool),
}

impl View for Notice {
    type V = Told;

    open spec fn view(&self) -> Told {
        match self {
            Notice::Object(name) => Told::Object(name@),
            Notice::Group(name) => Told::Group(name@),
            Notice::Smoothing(on) => Told::Smoothing(*on),
        }
    }
}

/// What a vector of notices holds.
pub open spec fn told(v: Seq<Notice>) -> Seq<Told> {
    Seq::new(v.len(), |i: int| v[i]@)
}

impl Triple {
    /// The triple of three zeros.
    pub open spec fn zero() -> Triple {
        Triple { x: seq!['0'], y: seq!['0'], z: seq!['0'] }
    }

    /// Whether each of the three texts is a decimal floating-point literal.
    pub open spec fn numeric(self) -> bool {
        is_number(self.x) && is_number(self.y) && is_number(self.z)
    }
}

impl View for Coords {
    type V = Triple;

    open spec fn view(&self) -> Triple {
        Triple { x: self.x@, y: self.y@, z: self.z@ }
    }
}

/// The triples that a vector of coordinates holds.
pub open spec fn triples(v: Seq<Coords>) -> Seq<Triple> {
    Seq::new(v.len(), |i: int| v[i]@)
}

/// Whether each entry of a table is numeric.
pub open spec fn all_numeric_in(table: Seq<Triple>) -> bool {
    forall|i: int| 0 <= i < table.len() ==> (#[trigger] table[i]).numeric()
}

impl Mesh {
    /// The mesh without geometry that bears `name`.
    pub open spec fn named(name: Seq<char>) -> Mesh {
        Mesh { name, vertices: Seq::empty(), normals: Seq::empty(), faces: Seq::empty() }
    }

    /// Whether the corners come in threes, each corner refers to an entry of
    /// the tables, and each coordinate is a number.
    pub open spec fn wf(self) -> bool {
        &&& self.faces.len() % 3 == 0
        &&& forall|i: int|
            0 <= i < self.faces.len() ==> (#[trigger] self.faces[i]).vertex < self.vertices.len()
        &&& forall|i: int|
            0 <= i < self.faces.len() ==> match (#[trigger] self.faces[i]).normal {
                Some(n) => n < self.normals.len(),
                None => true,
            }
        &&& all_numeric_in(self.vertices)
        &&& all_numeric_in(self.normals)
    }

    /// The number of faces.
    pub open spec fn face_count(self) -> nat {
        self.faces.len() / 3
    }

    /// The vertex of each corner, in the order of the corners.
    pub open spec fn positions(self) -> Seq<Triple> {
        Seq::new(self.faces.len(), |i: int| self.vertices[self.faces[i].vertex as int])
    }

    /// The normal of each corner, in the order of the corners: the zero
    /// triple for a corner without one.
    pub open spec fn corner_normals(self) -> Seq<Triple> {
        Seq::new(
            self.faces.len(),
            |i: int|
                match self.faces[i].normal {
                    Some(n) => self.normals[n as int],
                    None => Triple::zero(),
                },
        )
    }
}

/// Whether a line is passed over: an empty one, or one that begins with `#`.
pub open spec fn ignored(line: Seq<char>) -> bool {
    line.len() == 0 || line[0] == '#'
}

/// The kind of line that a first token announces.
pub open spec fn marker_of(token: Seq<char>) -> Option<Marker> {
    if token == seq!['o'] {
        Some(Marker::Object)
    } else if token == seq!['g'] {
        Some(Marker::Group)
    } else if token == seq!['s'] {
        Some(Marker::Smoothing)
    } else if token == seq!['v'] {
        Some(Marker::Vertex)
    } else if token == seq!['v', 'n'] {
        Some(Marker::Normal)
    } else if token == seq!['f'] {
        Some(Marker::Face)
    } else {
        None
    }
}

/// Whether a token switches smooth shading on or off.
pub open spec fn is_smoothing(token: Seq<char>) -> bool {
    token == seq!['0'] || token == seq!['1'] || token == seq!['o', 'n'] || token == seq![
        'o',
        'f',
        'f',
    ]
}

/// The triple that the tokens after a `v` or `vn` denote: each must be a
/// number, and there must be three.
pub open spec fn coords_of(args: Seq<Seq<char>>) -> Result<Triple, FormatReason> {
    if !(forall|i: int| 0 <= i < args.len() ==> is_number(#[trigger] args[i])) {
        Err(FormatReason::NotANumber)
    } else if args.len() != 3 {
        Err(FormatReason::CoordinateCount)
    } else {
        Ok(Triple { x: args[0], y: args[1], z: args[2] })
    }
}

/// An index of a file, which counts from one, as a place in a table.
pub open spec fn zero_based(index: Option<usize>) -> Option<usize> {
    match index {
        Some(i) => Some((i - 1) as usize),
        None => None,
    }
}

/// The corner that a token of a face denotes, in a model with `vertices`
/// vertices and `normals` normals. The first index is the vertex, the second
/// the texture coordinate, the third the normal; further ones are not read.
pub open spec fn corner_of(token: Seq<char>, vertices: nat, normals: nat) -> Result<
    Corner,
    FormatReason,
> {
    let found = indices_of(token);
    let v = if found.len() > 0 {
        found[0]
    } else {
        None
    };
    let t = if found.len() > 1 {
        found[1]
    } else {
        None
    };
    let n = if found.len() > 2 {
        found[2]
    } else {
        None
    };
    if v is None {
        Err(FormatReason::MissingVertexIndex)
    } else if v == Some(0usize) || t == Some(0usize) || n == Some(0usize) {
        Err(FormatReason::ZeroIndex)
    } else if v->0 > vertices || (n is Some && n->0 > normals) {
        Err(FormatReason::IndexOutOfRange)
    } else {
        Ok(Corner { vertex: (v->0 - 1) as usize, texture: zero_based(t), normal: zero_based(n) })
    }
}

/// The corners that the first `k` tokens denote, or why the first token
/// among them that denotes none does not.
pub open spec fn corners_upto(args: Seq<Seq<char>>, k: int, vertices: nat, normals: nat) -> Result<
    Seq<Corner>,
    FormatReason,
>
    decreases k,
{
    if k <= 0 {
        Ok(Seq::empty())
    } else {
        match corners_upto(args, k - 1, vertices, normals) {
            Err(reason) => Err(reason),
            Ok(corners) => match corner_of(args[k - 1], vertices, normals) {
                Err(reason) => Err(reason),
                Ok(corner) => Ok(corners.push(corner)),
            },
        }
    }
}

/// The corners that the tokens after an `f` denote: each must denote one,
/// and there must be three.
pub open spec fn face_of(args: Seq<Seq<char>>, vertices: nat, normals: nat) -> Result<
    Seq<Corner>,
    FormatReason,
> {
    match corners_upto(args, args.len() as int, vertices, normals) {
        Err(reason) => Err(reason),
        Ok(corners) => if args.len() != 3 {
            Err(FormatReason::CornerCount)
        } else {
            Ok(corners)
        },
    }
}

/// What a line of the kind `marker` with the arguments `args` makes of `m`.
pub open spec fn apply_marker(m: Mesh, marker: Marker, args: Seq<Seq<char>>) -> Result<
    Mesh,
    FormatReason,
> {
    match marker {
        Marker::Object => if args.len() == 0 {
            Err(FormatReason::MissingToken)
        } else {
            Ok(Mesh::named(args[0]))
        },
        Marker::Group => if args.len() == 0 {
            Err(FormatReason::MissingToken)
        } else {
            Ok(m)
        },
        Marker::Smoothing => if args.len() == 0 {
            Err(FormatReason::MissingToken)
        } else if !is_smoothing(args[0]) {
            Err(FormatReason::InvalidSmoothing)
        } else {
            Ok(m)
        },
        Marker::Vertex => match coords_of(args) {
            Err(reason) => Err(reason),
            Ok(t) => Ok(Mesh { vertices: m.vertices.push(t), ..m }),
        },
        Marker::Normal => match coords_of(args) {
            Err(reason) => Err(reason),
            Ok(t) => Ok(Mesh { normals: m.normals.push(t), ..m }),
        },
        Marker::Face => match face_of(args, m.vertices.len(), m.normals.len()) {
            Err(reason) => Err(reason),
            Ok(corners) => Ok(Mesh { faces: m.faces + corners, ..m }),
        },
    }
}

/// What a line makes of `m`: nothing where it is passed over; else its
/// first token says what the tokens after it mean.
pub open spec fn apply_line(m: Mesh, line: Seq<char>) -> Result<Mesh, FormatReason> {
    let tokens = tokens_of(line);
    if ignored(line) {
        Ok(m)
    } else if tokens.len() == 0 {
        Err(FormatReason::MissingMarker)
    } else {
        match marker_of(tokens[0]) {
            None => Err(FormatReason::UnknownMarker),
            Some(marker) => apply_marker(m, marker, tokens.skip(1)),
        }
    }
}

/// What the lines from the `k`th on make of `m`, or the first of them that
/// is refused.
pub open spec fn apply_lines(lines: Seq<Seq<char>>, k: int, m: Mesh) -> Result<Mesh, FormatError>
    decreases lines.len() - k,
{
    if k < 0 || k >= lines.len() {
        Ok(m)
    } else {
        match apply_line(m, lines[k]) {
            Err(reason) => Err(FormatError { line: k as usize, reason }),
            Ok(next) => apply_lines(lines, k + 1, next),
        }
    }
}

/// Whether `line` is of the kind `marker`: it is not passed over, and its
/// first token announces that kind.
pub open spec fn is_line_of(line: Seq<char>, marker: Marker) -> bool {
    &&& !ignored(line)
    &&& tokens_of(line).len() > 0
    &&& marker_of(tokens_of(line)[0]) == Some(marker)
}

/// The models that the lines from the `k`th on describe when each line of
/// the kind `o` sets the model read so far aside and begins another:
/// `done` are those set aside, `m` is the one being read. The first model
/// is what comes before the first such line.
pub open spec fn apply_lines_each(lines: Seq<Seq<char>>, k: int, done: Seq<Mesh>, m: Mesh) -> Result<
    Seq<Mesh>,
    FormatError,
>
    decreases lines.len() - k,
{
    if k < 0 || k >= lines.len() {
        Ok(done.push(m))
    } else {
        match apply_line(m, lines[k]) {
            Err(reason) => Err(FormatError { line: k as usize, reason }),
            Ok(next) => if is_line_of(lines[k], Marker::Object) {
                apply_lines_each(lines, k + 1, done.push(m), next)
            } else {
                apply_lines_each(lines, k + 1, done, next)
            },
        }
    }
}

/// The models that a text describes, one for what comes before its first
/// line of the kind `o` and one for each such line, or its first line that
/// is refused.
pub open spec fn load_each_of(content: Seq<char>) -> Result<Seq<Mesh>, FormatError> {
    apply_lines_each(lines_of(content), 0, Seq::empty(), Mesh::named(Seq::empty()))
}

/// What a line tells beside the geometry: the name of the object or group
/// that it begins, or the state of smooth shading that it sets. A line that
/// is refused tells nothing.
pub open spec fn notice_of(line: Seq<char>) -> Option<Told> {
    let tokens = tokens_of(line);
    if ignored(line) || tokens.len() < 2 {
        None
    } else {
        match marker_of(tokens[0]) {
            Some(Marker::Object) => Some(Told::Object(tokens[1])),
            Some(Marker::Group) => Some(Told::Group(tokens[1])),
            Some(Marker::Smoothing) => if is_smoothing(tokens[1]) {
                Some(Told::Smoothing(tokens[1] == seq!['1'] || tokens[1] == seq!['o', 'n']))
            } else {
                None
            },
            _ => None,
        }
    }
}

/// What the first `k` lines tell, in their order.
pub open spec fn notices_upto(lines: Seq<Seq<char>>, k: int) -> Seq<Told>
    decreases k,
{
    if k <= 0 {
        Seq::empty()
    } else {
        match notice_of(lines[k - 1]) {
            Some(n) => notices_upto(lines, k - 1).push(n),
            None => notices_upto(lines, k - 1),
        }
    }
}

/// How many lines of a text are read: all of them, or those before the
/// first that is refused.
pub open spec fn lines_read(content: Seq<char>) -> int {
    match load_of(content) {
        Ok(_) => lines_of(content).len() as int,
        Err(e) => e.line as int,
    }
}

/// What the lines of a text that are read tell.
pub open spec fn notices_of(content: Seq<char>) -> Seq<Told> {
    notices_upto(lines_of(content), lines_read(content))
}

/// The mesh that a text describes, or its first line that is refused.
pub open spec fn load_of(content: Seq<char>) -> Result<Mesh, FormatError> {
    apply_lines(lines_of(content), 0, Mesh::named(Seq::empty()))
}

} // verus!
