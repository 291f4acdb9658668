//! What holds of every model file and of every model read from one.
use crate::model::{
    apply_line, apply_lines, apply_lines_each, corner_of, ignored, is_line_of, load_each_of,
    load_of, marker_of, Corner, FormatError, FormatReason, Marker, Mesh, Triple,
};
use crate::loader::{lemma_corners, lemma_line_keeps_wf};
use crate::number::{indices_of, is_decimal, is_number, magnitude};
use crate::text::{
    is_space, lemma_scan, line_text, lines_from, lines_of, run, scan, tokens_from, tokens_of, Stop,
};
use vstd::prelude::*;

verus! {

/// The tokens of a line after its first.
pub open spec fn arguments(line: Seq<char>) -> Seq<Seq<char>> {
    tokens_of(line).skip(1)
}

/// Whether a line is refused whatever was read before it.
pub open spec fn always_refused(line: Seq<char>) -> bool {
    forall|m: Mesh| (#[trigger] apply_line(m, line)) is Err
}

/// The two streams of a well-formed model have the same length, three
/// entries for each face.
pub proof fn law_stream_lengths(m: Mesh)
    requires
        m.wf(),
    ensures
        m.positions().len() == 3 * m.face_count(),
        m.corner_normals().len() == 3 * m.face_count(),
{
}

/// A line of the kind `f` that is accepted adds one face, that is three
/// corners, and leaves the tables as they are.
pub proof fn law_face_line_adds_one_face(m: Mesh, line: Seq<char>)
    requires
        m.wf(),
        is_line_of(line, Marker::Face),
        apply_line(m, line) is Ok,
    ensures
        apply_line(m, line)->Ok_0.faces.len() == m.faces.len() + 3,
        apply_line(m, line)->Ok_0.face_count() == m.face_count() + 1,
        apply_line(m, line)->Ok_0.vertices == m.vertices,
        apply_line(m, line)->Ok_0.normals == m.normals,
{
    let args = arguments(line);
    lemma_corners(args, args.len() as int, m.vertices.len(), m.normals.len());
}

/// The three corners that an accepted line of the kind `f` adds are those
/// that its three tokens denote, in their order.
pub proof fn law_face_line_corners(m: Mesh, line: Seq<char>, j: int)
    requires
        is_line_of(line, Marker::Face),
        apply_line(m, line) is Ok,
        0 <= j < 3,
    ensures
        arguments(line).len() == 3,
        corner_of(arguments(line)[j], m.vertices.len(), m.normals.len()) == Ok::<
            Corner,
            FormatReason,
        >(apply_line(m, line)->Ok_0.faces[m.faces.len() + j]),
        forall|i: int| 0 <= i < m.faces.len() ==> apply_line(m, line)->Ok_0.faces[i] == m.faces[i],
{
    let args = arguments(line);
    lemma_corners(args, args.len() as int, m.vertices.len(), m.normals.len());
}

/// A line of the kind `v` or `vn` that is accepted adds the triple of its
/// three tokens to the end of its table, and leaves the rest as it is.
pub proof fn law_coords_line_appends(m: Mesh, line: Seq<char>)
    requires
        is_line_of(line, Marker::Vertex) || is_line_of(line, Marker::Normal),
        apply_line(m, line) is Ok,
    ensures
        ({
            let next = apply_line(m, line)->Ok_0;
            let args = arguments(line);
            let added = Triple { x: args[0], y: args[1], z: args[2] };
            &&& args.len() == 3
            &&& added.numeric()
            &&& next.faces == m.faces
            &&& next.name == m.name
            &&& is_line_of(line, Marker::Vertex) ==> next.vertices == m.vertices.push(added)
                && next.normals == m.normals
            &&& is_line_of(line, Marker::Normal) ==> next.normals == m.normals.push(added)
                && next.vertices == m.vertices
        }),
{
    let args = arguments(line);
    assert(is_number(args[0]) && is_number(args[1]) && is_number(args[2]));
}

/// The normal of a corner is the entry of the table that the corner refers
/// to, and the zero triple where it refers to none.
pub proof fn law_normal_of_corner(m: Mesh, i: int)
    requires
        m.wf(),
        0 <= i < m.faces.len(),
    ensures
        m.faces[i].normal is None ==> m.corner_normals()[i] == Triple::zero(),
        m.faces[i].normal is Some ==> m.corner_normals()[i] == m.normals[m.faces[i].normal->0 as int],
        m.positions()[i] == m.vertices[m.faces[i].vertex as int],
{
}

/// Where no normal of the table is the zero triple, a corner's normal is
/// the zero triple exactly if the corner refers to no normal.
pub proof fn law_zero_normal_means_none(m: Mesh, i: int)
    requires
        m.wf(),
        0 <= i < m.faces.len(),
        forall|n: int| 0 <= n < m.normals.len() ==> #[trigger] m.normals[n] != Triple::zero(),
    ensures
        m.corner_normals()[i] == Triple::zero() <==> m.faces[i].normal is None,
{
}

/// A corner holds each index of its token less one; it has a normal
/// exactly if the token's third part denotes an index, and a texture
/// coordinate exactly if the second does.
pub proof fn law_indices_count_from_one(token: Seq<char>, vertices: nat, normals: nat)
    requires
        corner_of(token, vertices, normals) is Ok,
    ensures
        ({
            let c = corner_of(token, vertices, normals)->Ok_0;
            let found = indices_of(token);
            &&& found.len() > 0
            &&& found[0] == Some((c.vertex + 1) as usize)
            &&& c.vertex < vertices
            &&& c.texture is Some <==> found.len() > 1 && found[1] is Some
            &&& c.texture is Some ==> found[1] == Some((c.texture->0 + 1) as usize)
            &&& c.normal is Some <==> found.len() > 2 && found[2] is Some
            &&& c.normal is Some ==> found[2] == Some((c.normal->0 + 1) as usize) && c.normal->0
                < normals
        }),
{
}

/// The index one denotes the first entry of the table.
pub proof fn law_index_one_is_first(token: Seq<char>, vertices: nat, normals: nat)
    requires
        corner_of(token, vertices, normals) is Ok,
        indices_of(token)[0] == Some(1usize),
    ensures
        corner_of(token, vertices, normals)->Ok_0.vertex == 0,
{
}

/// A face with more or fewer than three corners is refused, whatever was
/// read before it.
pub proof fn law_face_needs_three_corners(line: Seq<char>)
    requires
        is_line_of(line, Marker::Face),
        arguments(line).len() != 3,
    ensures
        always_refused(line),
{
}

/// A vertex or a normal with more or fewer than three coordinates is
/// refused, whatever was read before it.
pub proof fn law_coords_need_three_numbers(line: Seq<char>)
    requires
        is_line_of(line, Marker::Vertex) || is_line_of(line, Marker::Normal),
        arguments(line).len() != 3,
    ensures
        always_refused(line),
{
}

/// A line whose first token is no known marker is refused, whatever was
/// read before it.
pub proof fn law_unknown_marker_refused(line: Seq<char>)
    requires
        !ignored(line),
        tokens_of(line).len() > 0,
        marker_of(tokens_of(line)[0]) is None,
    ensures
        always_refused(line),
        forall|m: Mesh| #[trigger] apply_line(m, line) == Err::<Mesh, FormatReason>(FormatReason::UnknownMarker),
{
}

/// From the `k`th line on, a line that is always refused has the lines
/// refused, whatever the lines before it hold.
pub proof fn lemma_refused_line(lines: Seq<Seq<char>>, k: int, i: int, m: Mesh)
    requires
        0 <= k <= i < lines.len(),
        always_refused(lines[i]),
    ensures
        apply_lines(lines, k, m) is Err,
        apply_lines(lines, k, m)->Err_0.line <= i,
    decreases i - k,
{
    assert(apply_line(m, lines[k]) is Err || k < i) by {
        if k == i {
            assert(apply_line(m, lines[i]) is Err);
        }
    }
    if k < i {
        match apply_line(m, lines[k]) {
            Ok(next) => {
                lemma_refused_line(lines, k + 1, i, next);
            },
            Err(_) => {},
        }
    }
}

/// A text with a line that is always refused is refused, at that line or
/// before it.
pub proof fn law_refused_line_refuses_text(content: Seq<char>, i: int)
    requires
        0 <= i < lines_of(content).len(),
        always_refused(lines_of(content)[i]),
    ensures
        load_of(content) is Err,
        load_of(content)->Err_0.line <= i,
{
    lemma_refused_line(lines_of(content), 0, i, Mesh::named(Seq::empty()));
}

/// A line of the kind `o` that names an object makes the same of every
/// model: the model of that name without geometry.
pub proof fn law_object_line_resets(m: Mesh, line: Seq<char>)
    requires
        is_line_of(line, Marker::Object),
        arguments(line).len() > 0,
    ensures
        apply_line(m, line) == Ok::<Mesh, FormatReason>(Mesh::named(arguments(line)[0])),
{
}

/// Where the `i`th line names an object and the lines are accepted, what
/// they make is what the lines after the `i`th make of the empty model of
/// that name: nothing of what came before is left.
pub proof fn lemma_only_last_object(lines: Seq<Seq<char>>, k: int, i: int, m: Mesh)
    requires
        0 <= k <= i < lines.len(),
        is_line_of(lines[i], Marker::Object),
        arguments(lines[i]).len() > 0,
        apply_lines(lines, k, m) is Ok,
    ensures
        apply_lines(lines, k, m) == apply_lines(
            lines,
            i + 1,
            Mesh::named(arguments(lines[i])[0]),
        ),
    decreases i - k,
{
    if k < i {
        lemma_only_last_object(lines, k + 1, i, apply_line(m, lines[k])->Ok_0);
    } else {
        law_object_line_resets(m, lines[i]);
    }
}

/// Where a line of an accepted text names an object, the model read is
/// what the lines after it make of the empty model of that name.
pub proof fn law_only_last_object_survives(content: Seq<char>, i: int)
    requires
        0 <= i < lines_of(content).len(),
        is_line_of(lines_of(content)[i], Marker::Object),
        arguments(lines_of(content)[i]).len() > 0,
        load_of(content) is Ok,
    ensures
        load_of(content) == apply_lines(
            lines_of(content),
            i + 1,
            Mesh::named(arguments(lines_of(content)[i])[0]),
        ),
{
    lemma_only_last_object(lines_of(content), 0, i, Mesh::named(Seq::empty()));
}

/// How many of the lines from the `k`th on are of the kind `f`.
pub open spec fn face_lines(lines: Seq<Seq<char>>, k: int) -> nat
    decreases lines.len() - k,
{
    if k < 0 || k >= lines.len() {
        0
    } else if is_line_of(lines[k], Marker::Face) {
        1 + face_lines(lines, k + 1)
    } else {
        face_lines(lines, k + 1)
    }
}

/// Whether none of the lines from the `k`th on is of the kind `o`.
pub open spec fn no_object_from(lines: Seq<Seq<char>>, k: int) -> bool {
    forall|j: int| k <= j < lines.len() ==> !is_line_of(#[trigger] lines[j], Marker::Object)
}

/// Lines that are accepted keep a well-formed mesh well-formed.
pub proof fn lemma_lines_keep_wf(lines: Seq<Seq<char>>, k: int, m: Mesh)
    requires
        m.wf(),
        apply_lines(lines, k, m) is Ok,
    ensures
        apply_lines(lines, k, m)->Ok_0.wf(),
    decreases lines.len() - k,
{
    if 0 <= k < lines.len() {
        lemma_line_keeps_wf(m, lines[k]);
        lemma_lines_keep_wf(lines, k + 1, apply_line(m, lines[k])->Ok_0);
    }
}

/// The mesh that an accepted text describes is well-formed.
pub proof fn law_loaded_is_well_formed(content: Seq<char>)
    requires
        load_of(content) is Ok,
    ensures
        load_of(content)->Ok_0.wf(),
{
    lemma_lines_keep_wf(lines_of(content), 0, Mesh::named(Seq::empty()));
}

/// Lines without one of the kind `o`, if they are accepted, add one face
/// for each line of the kind `f`.
pub proof fn lemma_faces_counted(lines: Seq<Seq<char>>, k: int, m: Mesh)
    requires
        0 <= k <= lines.len(),
        m.wf(),
        no_object_from(lines, k),
        apply_lines(lines, k, m) is Ok,
    ensures
        apply_lines(lines, k, m)->Ok_0.face_count() == m.face_count() + face_lines(lines, k),
    decreases lines.len() - k,
{
    if k < lines.len() {
        let line = lines[k];
        let next = apply_line(m, line)->Ok_0;
        lemma_line_keeps_wf(m, line);
        assert(!is_line_of(line, Marker::Object));
        if is_line_of(line, Marker::Face) {
            law_face_line_adds_one_face(m, line);
        } else {
            assert(next.faces == m.faces);
        }
        lemma_faces_counted(lines, k + 1, next);
    }
}

/// A model read from a text without a line of the kind `o` has one face
/// for each line of the kind `f`, and its streams three entries for each.
pub proof fn law_one_face_for_each_face_line(content: Seq<char>)
    requires
        load_of(content) is Ok,
        no_object_from(lines_of(content), 0),
    ensures
        load_of(content)->Ok_0.face_count() == face_lines(lines_of(content), 0),
        load_of(content)->Ok_0.positions().len() == 3 * face_lines(lines_of(content), 0),
        load_of(content)->Ok_0.corner_normals().len() == 3 * face_lines(lines_of(content), 0),
{
    lemma_faces_counted(lines_of(content), 0, Mesh::named(Seq::empty()));
    law_loaded_is_well_formed(content);
}

/// A model read from a text whose last line of the kind `o` is the `i`th
/// has one face for each line of the kind `f` after it, and its streams
/// three entries for each.
pub proof fn law_one_face_for_each_later_face_line(content: Seq<char>, i: int)
    requires
        0 <= i < lines_of(content).len(),
        is_line_of(lines_of(content)[i], Marker::Object),
        no_object_from(lines_of(content), i + 1),
        load_of(content) is Ok,
    ensures
        load_of(content)->Ok_0.face_count() == face_lines(lines_of(content), i + 1),
        load_of(content)->Ok_0.positions().len() == 3 * face_lines(lines_of(content), i + 1),
        load_of(content)->Ok_0.corner_normals().len() == 3 * face_lines(lines_of(content), i + 1),
{
    let lines = lines_of(content);
    law_loaded_is_well_formed(content);
    if arguments(lines[i]).len() == 0 {
        assert(always_refused(lines[i]));
        lemma_refused_line(lines, 0, i, Mesh::named(Seq::empty()));
    } else {
        law_only_last_object_survives(content, i);
        assert(Mesh::named(arguments(lines[i])[0]).wf());
        lemma_faces_counted(lines, i + 1, Mesh::named(arguments(lines[i])[0]));
    }
}

/// Each coordinate of the two streams of a well-formed model is a decimal
/// floating-point literal.
pub proof fn law_streams_are_numeric(m: Mesh, i: int)
    requires
        m.wf(),
        0 <= i < m.faces.len(),
    ensures
        m.positions()[i].numeric(),
        m.corner_normals()[i].numeric(),
{
    let zero = seq!['0'];
    assert(magnitude(zero) == zero);
    assert(scan(zero, 0, Stop::NonDigit) == 1) by {
        reveal_with_fuel(run, 3);
    }
    assert(is_decimal(zero));
    assert(is_number(zero));
}

/// A token is not empty and holds no white space.
pub proof fn law_tokens_hold_no_space(s: Seq<char>, i: int, j: int)
    requires
        0 <= i <= s.len(),
        0 <= j < tokens_from(s, i).len(),
    ensures
        tokens_from(s, i)[j].len() > 0,
        forall|k: int| 0 <= k < tokens_from(s, i)[j].len() ==> !is_space(#[trigger] tokens_from(s, i)[j][k]),
    decreases s.len() - i,
{
    lemma_scan(s, i, Stop::Ink);
    let a = scan(s, i, Stop::Ink);
    lemma_scan(s, a, Stop::Space);
    let b = scan(s, a, Stop::Space);
    assert(Stop::Ink.at(s[a]));
    if j == 0 {
        let token = s.subrange(a, b);
        assert(tokens_from(s, i)[0] == token);
        assert forall|k: int| 0 <= k < token.len() implies !is_space(#[trigger] token[k]) by {
            assert(!Stop::Space.at(s[a + k]));
        }
    } else {
        assert(tokens_from(s, i)[j] == tokens_from(s, b + 1)[j - 1]);
        law_tokens_hold_no_space(s, b + 1, j - 1);
    }
}

/// A line holds no line feed.
pub proof fn law_lines_hold_no_line_feed(s: Seq<char>, i: int, j: int)
    requires
        0 <= i <= s.len(),
        0 <= j < lines_from(s, i).len(),
    ensures
        forall|k: int| 0 <= k < lines_from(s, i)[j].len() ==> #[trigger] lines_from(s, i)[j][k] != '\n',
    decreases s.len() - i,
{
    lemma_scan(s, i, Stop::LineFeed);
    let e = scan(s, i, Stop::LineFeed);
    if j == 0 {
        let line = line_text(s, i, e);
        assert(lines_from(s, i)[0] == line);
        assert forall|k: int| 0 <= k < line.len() implies #[trigger] line[k] != '\n' by {
            assert(!Stop::LineFeed.at(s[i + k]));
        }
    } else {
        assert(lines_from(s, i)[j] == lines_from(s, e + 1)[j - 1]);
        law_lines_hold_no_line_feed(s, e + 1, j - 1);
    }
}

/// How many of the lines from the `k`th on are of the kind `o`.
pub open spec fn object_lines(lines: Seq<Seq<char>>, k: int) -> nat
    decreases lines.len() - k,
{
    if k < 0 || k >= lines.len() {
        0
    } else if is_line_of(lines[k], Marker::Object) {
        1 + object_lines(lines, k + 1)
    } else {
        object_lines(lines, k + 1)
    }
}

/// Reading each model and reading the last one refuse the same lines for
/// the same reasons; where they accept, the last of the models is the one
/// model, every model is well-formed, and there is one model more than
/// there are lines of the kind `o`.
pub proof fn lemma_each_and_last(lines: Seq<Seq<char>>, k: int, done: Seq<Mesh>, m: Mesh)
    requires
        0 <= k <= lines.len(),
        m.wf(),
        forall|j: int| 0 <= j < done.len() ==> (#[trigger] done[j]).wf(),
    ensures
        match apply_lines_each(lines, k, done, m) {
            Err(e) => apply_lines(lines, k, m) == Err::<Mesh, FormatError>(e),
            Ok(each) => {
                &&& each.len() == done.len() + 1 + object_lines(lines, k)
                &&& apply_lines(lines, k, m) == Ok::<Mesh, FormatError>(each.last())
                &&& forall|j: int| 0 <= j < each.len() ==> (#[trigger] each[j]).wf()
                &&& forall|j: int| 0 <= j < done.len() ==> each[j] == done[j]
            },
        },
    decreases lines.len() - k,
{
    if k < lines.len() {
        match apply_line(m, lines[k]) {
            Err(_) => {},
            Ok(next) => {
                lemma_line_keeps_wf(m, lines[k]);
                if is_line_of(lines[k], Marker::Object) {
                    lemma_each_and_last(lines, k + 1, done.push(m), next);
                } else {
                    lemma_each_and_last(lines, k + 1, done, next);
                }
            },
        }
    }
}

/// A text is refused when each model is read exactly if it is refused when
/// the last one is read, at the same line and for the same reason. Where
/// it is accepted, the last of its models is the one that reading the last
/// gives, each model is well-formed, and there is one model more than
/// there are lines of the kind `o`.
pub proof fn law_each_ends_with_last(content: Seq<char>)
    ensures
        match load_each_of(content) {
            Err(e) => load_of(content) == Err::<Mesh, FormatError>(e),
            Ok(each) => {
                &&& each.len() == 1 + object_lines(lines_of(content), 0)
                &&& load_of(content) == Ok::<Mesh, FormatError>(each.last())
                &&& forall|j: int| 0 <= j < each.len() ==> (#[trigger] each[j]).wf()
            },
        },
{
    lemma_each_and_last(lines_of(content), 0, Seq::empty(), Mesh::named(Seq::empty()));
}

} // verus!
