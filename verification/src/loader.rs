//! Reading a model from its text.
use crate::model::{
    apply_line, apply_lines, apply_lines_each, apply_marker, corner_of, corners_upto, face_of,
    ignored, is_line_of, is_smoothing, load_each_of, load_of, marker_of, notice_of, notices_of,
    notices_upto, told, triples, Coords, Corner, FormatError, FormatReason, Marker, Mesh, Notice,
    Object, Told,
};
use crate::number::{is_number, number, parse_token_indices};
use crate::text::{chars_of, lines_of, slice, split_lines, split_tokens, texts, tokens_of};
use vstd::prelude::*;

verus! {

impl View for Object {
    type V = Mesh;

    open spec fn view(&self) -> Mesh {
        Mesh {
            name: self.name@,
            vertices: triples(self.vertices@),
            normals: triples(self.normals@),
            faces: self.faces@,
        }
    }
}

/// A result with the mesh of its model in the model's place.
pub open spec fn meshed<E>(r: Result<Object, E>) -> Result<Mesh, E> {
    match r {
        Ok(object) => Ok(object@),
        Err(e) => Err(e),
    }
}

/// Where each of the first `k` tokens denotes a corner, there is one corner
/// for each of them, the one that it denotes; else one of them denotes none.
pub proof fn lemma_corners(args: Seq<Seq<char>>, k: int, vertices: nat, normals: nat)
    requires
        0 <= k <= args.len(),
    ensures
        match corners_upto(args, k, vertices, normals) {
            Ok(corners) => {
                &&& corners.len() == k
                &&& forall|j: int|
                    0 <= j < k ==> corner_of(args[j], vertices, normals) == Ok::<
                        Corner,
                        FormatReason,
                    >(#[trigger] corners[j])
            },
            Err(_) => exists|j: int| 0 <= j < k && corner_of(args[j], vertices, normals) is Err,
        },
    decreases k,
{
    if k > 0 {
        lemma_corners(args, k - 1, vertices, normals);
        if corners_upto(args, k - 1, vertices, normals) is Ok && corner_of(
            args[k - 1],
            vertices,
            normals,
        ) is Err {
            assert(corner_of(args[k - 1], vertices, normals) is Err);
        }
    }
}

/// The first token that denotes no corner decides the outcome.
pub proof fn lemma_error_stays(args: Seq<Seq<char>>, k: int, n: int, vertices: nat, normals: nat)
    requires
        0 <= k <= n,
        corners_upto(args, k, vertices, normals) is Err,
    ensures
        corners_upto(args, n, vertices, normals) == corners_upto(args, k, vertices, normals),
    decreases n - k,
{
    if k < n {
        lemma_error_stays(args, k, n - 1, vertices, normals);
    }
}

/// A line that is accepted keeps a well-formed mesh well-formed.
pub proof fn lemma_line_keeps_wf(m: Mesh, line: Seq<char>)
    requires
        m.wf(),
        apply_line(m, line) is Ok,
    ensures
        apply_line(m, line)->Ok_0.wf(),
{
    let tokens = tokens_of(line);
    if !ignored(line) {
        let args = tokens.skip(1);
        let next = apply_line(m, line)->Ok_0;
        match marker_of(tokens[0])->0 {
            Marker::Face => {
                lemma_corners(args, args.len() as int, m.vertices.len(), m.normals.len());
                let corners = face_of(args, m.vertices.len(), m.normals.len())->Ok_0;
                assert forall|i: int| 0 <= i < next.faces.len() implies (#[trigger] next.faces[i]).vertex
                    < next.vertices.len() && match next.faces[i].normal {
                    Some(n) => n < next.normals.len(),
                    None => true,
                } by {
                    if i >= m.faces.len() {
                        let j = i - m.faces.len();
                        assert(next.faces[i] == corners[j]);
                        assert(corner_of(args[j], m.vertices.len(), m.normals.len()) == Ok::<
                            Corner,
                            FormatReason,
                        >(corners[j]));
                    } else {
                        assert(next.faces[i] == m.faces[i]);
                    }
                }
            },
            Marker::Vertex => {
                assert(is_number(args[0]) && is_number(args[1]) && is_number(args[2]));
                assert forall|i: int| 0 <= i < next.faces.len() implies (#[trigger] next.faces[i]).vertex
                    < next.vertices.len() by {
                    assert(next.faces[i] == m.faces[i]);
                }
            },
            Marker::Normal => {
                assert(is_number(args[0]) && is_number(args[1]) && is_number(args[2]));
                assert forall|i: int| 0 <= i < next.faces.len() implies match (
                #[trigger] next.faces[i]).normal {
                    Some(n) => n < next.normals.len(),
                    None => true,
                } by {
                    assert(next.faces[i] == m.faces[i]);
                }
            },
            _ => {},
        }
    }
}

/// The meshes of a vector of models.
pub open spec fn meshes(v: Seq<Object>) -> Seq<Mesh> {
    Seq::new(v.len(), |i: int| v[i]@)
}

/// What an optional notice holds.
pub open spec fn noted(n: Option<Notice>) -> Option<Told> {
    match n {
        Some(n) => Some(n@),
        None => None,
    }
}

/// A copy of a text.
pub fn copy_of(s: &Vec<char>) -> (r: Vec<char>)
    ensures
        r@ == s@,
{
    let r = slice(s, 0, s.len());
    assert(r@ =~= s@);
    r
}

/// Whether `token` is the one character `a`.
fn spells1(token: &Vec<char>, a: char) -> (r: bool)
    ensures
        r == (token@ == seq![a]),
{
    let r = token.len() == 1 && token[0] == a;
    proof {
        if r {
            assert(token@ =~= seq![a]);
        } else if token.len() == 1 {
            assert(seq![a][0] == a);
        } else {
            assert(seq![a].len() == 1);
        }
    }
    r
}

/// Whether `token` is the two characters `a`, `b`.
fn spells2(token: &Vec<char>, a: char, b: char) -> (r: bool)
    ensures
        r == (token@ == seq![a, b]),
{
    let r = token.len() == 2 && token[0] == a && token[1] == b;
    proof {
        if r {
            assert(token@ =~= seq![a, b]);
        } else if token.len() == 2 {
            assert(seq![a, b][0] == a && seq![a, b][1] == b);
        } else {
            assert(seq![a, b].len() == 2);
        }
    }
    r
}

/// Whether `token` is the three characters `a`, `b`, `c`.
fn spells3(token: &Vec<char>, a: char, b: char, c: char) -> (r: bool)
    ensures
        r == (token@ == seq![a, b, c]),
{
    let r = token.len() == 3 && token[0] == a && token[1] == b && token[2] == c;
    proof {
        if r {
            assert(token@ =~= seq![a, b, c]);
        } else if token.len() == 3 {
            assert(seq![a, b, c][0] == a && seq![a, b, c][1] == b && seq![a, b, c][2] == c);
        } else {
            assert(seq![a, b, c].len() == 3);
        }
    }
    r
}

/// Reads the kind of a line from its first token.
pub fn marker(token: &Vec<char>) -> (r: Option<Marker>)
    ensures
        r == marker_of(token@),
{
    if spells1(token, 'o') {
        Some(Marker::Object)
    } else if spells1(token, 'g') {
        Some(Marker::Group)
    } else if spells1(token, 's') {
        Some(Marker::Smoothing)
    } else if spells1(token, 'v') {
        Some(Marker::Vertex)
    } else if spells2(token, 'v', 'n') {
        Some(Marker::Normal)
    } else if spells1(token, 'f') {
        Some(Marker::Face)
    } else {
        None
    }
}

/// Decides `is_smoothing`.
pub fn smoothing(token: &Vec<char>) -> (r: bool)
    ensures
        r == is_smoothing(token@),
{
    spells1(token, '0') || spells1(token, '1') || spells2(token, 'o', 'n') || spells3(
        token,
        'o',
        'f',
        'f',
    )
}

/// Reads one corner of a face, in a model with `vertices` vertices and
/// `normals` normals.
pub fn corner(token: &Vec<char>, vertices: usize, normals: usize) -> (r: Result<
    Corner,
    FormatReason,
>)
    ensures
        r == corner_of(token@, vertices as nat, normals as nat),
{
    let found = parse_token_indices(token);
    let v = if found.len() > 0 {
        found[0]
    } else {
        None
    };
    let t = if found.len() > 1 {
        found[1]
    } else {
        None
    };
    let n = if found.len() > 2 {
        found[2]
    } else {
        None
    };
    let vertex = match v {
        None => {
            return Err(FormatReason::MissingVertexIndex);
        },
        Some(i) => i,
    };
    let texture = match t {
        None => None,
        Some(i) => {
            if i == 0 {
                return Err(FormatReason::ZeroIndex);
            }
            Some(i - 1)
        },
    };
    if vertex == 0 {
        return Err(FormatReason::ZeroIndex);
    }
    let normal = match n {
        None => None,
        Some(i) => {
            if i == 0 {
                return Err(FormatReason::ZeroIndex);
            }
            if vertex <= vertices && i > normals {
                return Err(FormatReason::IndexOutOfRange);
            }
            Some(i - 1)
        },
    };
    if vertex > vertices {
        return Err(FormatReason::IndexOutOfRange);
    }
    Ok(Corner { vertex: vertex - 1, texture, normal })
}

impl Coords {
    /// A copy.
    pub fn copy(&self) -> (r: Coords)
        ensures
            r@ == self@,
    {
        Coords { x: copy_of(&self.x), y: copy_of(&self.y), z: copy_of(&self.z) }
    }

    /// The triple of three zeros.
    pub fn zero() -> (r: Coords)
        ensures
            r@ == crate::model::Triple::zero(),
    {
        let r = Coords { x: vec!['0'], y: vec!['0'], z: vec!['0'] };
        assert(r.x@ =~= seq!['0'] && r.y@ =~= seq!['0'] && r.z@ =~= seq!['0']);
        r
    }
}

impl Default for Object {
    /// The model without a name and without geometry.
    fn default() -> (r: Object)
        ensures
            r@ == Mesh::named(Seq::empty()),
            r@.wf(),
    {
        Object::named(Vec::new())
    }
}

impl Object {
    /// The model without geometry that bears `name`.
    pub fn named(name: Vec<char>) -> (r: Object)
        ensures
            r@ == Mesh::named(name@),
            r@.wf(),
    {
        let r = Object { name, vertices: Vec::new(), normals: Vec::new(), faces: Vec::new() };
        assert(triples(r.vertices@) =~= Seq::empty());
        assert(triples(r.normals@) =~= Seq::empty());
        assert(r.faces@ =~= Seq::empty());
        r
    }

    /// Adds the vertex that the tokens after the first denote, or the
    /// normal where `normal` is set.
    fn push_coords(self, tokens: &Vec<Vec<char>>, normal: bool) -> (r: Result<Object, FormatReason>)
        requires
            tokens.len() >= 1,
        ensures
            meshed(r) == apply_marker(
                self@,
                if normal {
                    Marker::Normal
                } else {
                    Marker::Vertex
                },
                texts(tokens@).skip(1),
            ),
    {
        let ghost args = texts(tokens@).skip(1);
        let mut k: usize = 1;
        while k < tokens.len()
            invariant
                1 <= k <= tokens.len(),
                args == texts(tokens@).skip(1),
                forall|i: int| 0 <= i < k - 1 ==> is_number(#[trigger] args[i]),
            decreases tokens.len() - k,
        {
            if !number(&tokens[k]) {
                assert(!is_number(args[k - 1]));
                return Err(FormatReason::NotANumber);
            }
            k += 1;
        }
        if tokens.len() != 4 {
            return Err(FormatReason::CoordinateCount);
        }
        let coords = Coords {
            x: copy_of(&tokens[1]),
            y: copy_of(&tokens[2]),
            z: copy_of(&tokens[3]),
        };
        assert(coords.x@ == args[0] && coords.y@ == args[1] && coords.z@ == args[2]);
        let mut object = self;
        if normal {
            object.normals.push(coords);
            assert(triples(object.normals@) =~= triples(self.normals@).push(coords@));
        } else {
            object.vertices.push(coords);
            assert(triples(object.vertices@) =~= triples(self.vertices@).push(coords@));
        }
        Ok(object)
    }

    /// Adds the three corners that the tokens after the first denote.
    fn push_face(self, tokens: &Vec<Vec<char>>) -> (r: Result<Object, FormatReason>)
        requires
            tokens.len() >= 1,
        ensures
            meshed(r) == apply_marker(self@, Marker::Face, texts(tokens@).skip(1)),
    {
        let ghost args = texts(tokens@).skip(1);
        let vertices = self.vertices.len();
        let normals = self.normals.len();
        let mut corners: Vec<Corner> = Vec::new();
        let mut k: usize = 1;
        while k < tokens.len()
            invariant
                1 <= k <= tokens.len(),
                args == texts(tokens@).skip(1),
                vertices == self@.vertices.len(),
                normals == self@.normals.len(),
                corners_upto(args, k - 1, vertices as nat, normals as nat) == Ok::<
                    Seq<Corner>,
                    FormatReason,
                >(corners@),
            decreases tokens.len() - k,
        {
            assert(args[k - 1] == tokens[k as int]@);
            match corner(&tokens[k], vertices, normals) {
                Ok(c) => {
                    corners.push(c);
                },
                Err(reason) => {
                    proof {
                        assert(corners_upto(args, k as int, vertices as nat, normals as nat)
                            == Err::<Seq<Corner>, FormatReason>(reason));
                        assert(args.len() == tokens.len() - 1);
                        lemma_error_stays(
                            args,
                            k as int,
                            args.len() as int,
                            vertices as nat,
                            normals as nat,
                        );
                    }
                    return Err(reason);
                },
            }
            k += 1;
        }
        proof {
            lemma_corners(args, args.len() as int, vertices as nat, normals as nat);
        }
        if corners.len() != 3 {
            return Err(FormatReason::CornerCount);
        }
        let mut object = self;
        object.faces.push(corners[0]);
        object.faces.push(corners[1]);
        object.faces.push(corners[2]);
        assert(object.faces@ =~= self.faces@ + corners@);
        Ok(object)
    }

    /// Takes one line into the model, says what the line tells beside the
    /// geometry, and hands back the model that a line of the kind `o` has
    /// replaced.
    pub fn step(self, line: &Vec<char>) -> (r: (
        Result<Object, FormatReason>,
        Option<Notice>,
        Option<Object>,
    ))
        ensures
            meshed(r.0) == apply_line(self@, line@),
            self@.wf() && r.0 is Ok ==> r.0->Ok_0@.wf(),
            noted(r.1) == notice_of(line@),
            r.2 is Some <==> r.0 is Ok && is_line_of(line@, Marker::Object),
            r.2 is Some ==> r.2->0@ == self@,
    {
        proof {
            if self@.wf() && apply_line(self@, line@) is Ok {
                lemma_line_keeps_wf(self@, line@);
            }
        }
        if line.len() == 0 || line[0] == '#' {
            return (Ok(self), None, None);
        }
        let tokens = split_tokens(line);
        if tokens.len() == 0 {
            return (Err(FormatReason::MissingMarker), None, None);
        }
        let ghost args = texts(tokens@).skip(1);
        assert(texts(tokens@)[0] == tokens[0]@);
        assert(tokens.len() >= 2 ==> args[0] == tokens[1]@ && texts(tokens@)[1] == tokens[1]@);
        match marker(&tokens[0]) {
            None => (Err(FormatReason::UnknownMarker), None, None),
            Some(Marker::Object) => {
                if tokens.len() < 2 {
                    return (Err(FormatReason::MissingToken), None, None);
                }
                let name = copy_of(&tokens[1]);
                (Ok(Object::named(name)), Some(Notice::Object(copy_of(&tokens[1]))), Some(self))
            },
            Some(Marker::Group) => {
                if tokens.len() < 2 {
                    return (Err(FormatReason::MissingToken), None, None);
                }
                (Ok(self), Some(Notice::Group(copy_of(&tokens[1]))), None)
            },
            Some(Marker::Smoothing) => {
                if tokens.len() < 2 {
                    return (Err(FormatReason::MissingToken), None, None);
                }
                if !smoothing(&tokens[1]) {
                    return (Err(FormatReason::InvalidSmoothing), None, None);
                }
                let on = spells1(&tokens[1], '1') || spells2(&tokens[1], 'o', 'n');
                (Ok(self), Some(Notice::Smoothing(on)), None)
            },
            Some(Marker::Vertex) => (self.push_coords(&tokens, false), None, None),
            Some(Marker::Normal) => (self.push_coords(&tokens, true), None, None),
            Some(Marker::Face) => (self.push_face(&tokens), None, None),
        }
    }

    /// Takes one line into the model, and says what the line tells beside
    /// the geometry.
    pub fn apply_noting(self, line: &Vec<char>) -> (r: (Result<Object, FormatReason>, Option<Notice>))
        ensures
            meshed(r.0) == apply_line(self@, line@),
            self@.wf() && r.0 is Ok ==> r.0->Ok_0@.wf(),
            noted(r.1) == notice_of(line@),
    {
        let (outcome, notice, _) = self.step(line);
        (outcome, notice)
    }

    /// Takes one line into the model.
    pub fn apply(self, line: &Vec<char>) -> (r: Result<Object, FormatReason>)
        ensures
            meshed(r) == apply_line(self@, line@),
            self@.wf() && r is Ok ==> r->Ok_0@.wf(),
    {
        self.apply_noting(line).0
    }

    /// Reads a model from the text of a file, and collects what the lines
    /// that were read tell beside the geometry. The lines are taken in
    /// turn; the first one that is refused ends the reading, and is
    /// reported with its place and the reason.
    pub fn load_noting(content: &str) -> (r: (Result<Object, FormatError>, Vec<Notice>))
        ensures
            meshed(r.0) == load_of(content@),
            r.0 is Ok ==> r.0->Ok_0@.wf(),
            told(r.1@) == notices_of(content@),
    {
        let chars = chars_of(content);
        let lines = split_lines(&chars);
        let mut notices: Vec<Notice> = Vec::new();
        let mut object = Object::named(Vec::new());
        let mut k: usize = 0;
        assert(told(notices@) =~= Seq::empty());
        while k < lines.len()
            invariant
                k <= lines.len(),
                object@.wf(),
                texts(lines@) == lines_of(content@),
                load_of(content@) == apply_lines(texts(lines@), k as int, object@),
                told(notices@) == notices_upto(texts(lines@), k as int),
            decreases lines.len() - k,
        {
            assert(texts(lines@)[k as int] == lines[k as int]@);
            let (outcome, notice) = object.apply_noting(&lines[k]);
            match outcome {
                Ok(next) => {
                    object = next;
                },
                Err(reason) => {
                    return (Err(FormatError { line: k, reason }), notices);
                },
            }
            let ghost before = told(notices@);
            match notice {
                Some(n) => {
                    notices.push(n);
                    assert(told(notices@) =~= before.push(n@));
                },
                None => {},
            }
            k += 1;
        }
        (Ok(object), notices)
    }

    /// Reads the models of a text, where each line of the kind `o` sets
    /// the model read so far aside and begins another: the first model is
    /// what comes before the first such line, and the last is what `load`
    /// gives. The first line that is refused ends the reading.
    pub fn load_each(content: &str) -> (r: Result<Vec<Object>, FormatError>)
        ensures
            match r {
                Ok(each) => load_each_of(content@) == Ok::<Seq<Mesh>, FormatError>(meshes(each@)),
                Err(e) => load_each_of(content@) == Err::<Seq<Mesh>, FormatError>(e),
            },
            r is Ok ==> forall|j: int| 0 <= j < r->Ok_0@.len() ==> (#[trigger] r->Ok_0@[j])@.wf(),
    {
        let chars = chars_of(content);
        let lines = split_lines(&chars);
        let mut done: Vec<Object> = Vec::new();
        let mut object = Object::named(Vec::new());
        let mut k: usize = 0;
        assert(meshes(done@) =~= Seq::empty());
        while k < lines.len()
            invariant
                k <= lines.len(),
                texts(lines@) == lines_of(content@),
                object@.wf(),
                forall|j: int| 0 <= j < done@.len() ==> (#[trigger] done@[j])@.wf(),
                load_each_of(content@) == apply_lines_each(
                    texts(lines@),
                    k as int,
                    meshes(done@),
                    object@,
                ),
            decreases lines.len() - k,
        {
            assert(texts(lines@)[k as int] == lines[k as int]@);
            let ghost before = meshes(done@);
            let (outcome, _, replaced) = object.step(&lines[k]);
            match outcome {
                Ok(next) => {
                    object = next;
                },
                Err(reason) => {
                    return Err(FormatError { line: k, reason });
                },
            }
            match replaced {
                Some(old) => {
                    done.push(old);
                    assert(meshes(done@) =~= before.push(old@));
                },
                None => {},
            }
            k += 1;
        }
        let ghost before = meshes(done@);
        done.push(object);
        assert(meshes(done@) =~= before.push(object@));
        Ok(done)
    }

    /// Reads a model from the text of a file. The lines are taken in turn;
    /// the first one that is refused ends the reading, and is reported with
    /// its place and the reason.
    pub fn load(content: &str) -> (r: Result<Object, FormatError>)
        ensures
            meshed(r) == load_of(content@),
            r is Ok ==> r->Ok_0@.wf(),
    {
        Object::load_noting(content).0
    }
}

} // verus!
