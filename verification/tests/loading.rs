use obj_loader::loader::{corner, marker, smoothing};
use obj_loader::model::{Coords, FormatError, FormatReason, Marker, Notice, Object};
use obj_loader::number::{number, parse_index, parse_indices};
use obj_loader::text::{chars_of, split_lines, split_segments, split_tokens};

fn chars(s: &str) -> Vec<char> {
    s.chars().collect()
}

fn text(v: &Vec<char>) -> String {
    v.iter().collect()
}

fn floats(c: &Coords) -> [f32; 3] {
    [
        text(&c.x).parse::<f32>().unwrap(),
        text(&c.y).parse::<f32>().unwrap(),
        text(&c.z).parse::<f32>().unwrap(),
    ]
}

fn stream(v: &Vec<Coords>) -> Vec<[f32; 3]> {
    v.iter().map(floats).collect()
}

fn refused(content: &str) -> FormatError {
    match Object::load(content) {
        Ok(_) => panic!("accepted: {:?}", content),
        Err(e) => e,
    }
}

#[test]
fn one_triangle_without_normals() {
    let object = Object::load("v 0 0 0\nv 1 0 0\nv 0 1 0\nf 1 2 3\n").unwrap();
    assert_eq!(
        stream(&object.vertices()),
        vec![[0.0, 0.0, 0.0], [1.0, 0.0, 0.0], [0.0, 1.0, 0.0]]
    );
    assert_eq!(stream(&object.normals()), vec![[0.0, 0.0, 0.0]; 3]);
}

#[test]
fn one_triangle_with_a_shared_normal() {
    let object =
        Object::load("v 0 0 0\nv 1 0 0\nv 0 1 0\nvn 0 0 1\nf 1//1 2//1 3//1\n").unwrap();
    assert_eq!(
        stream(&object.vertices()),
        vec![[0.0, 0.0, 0.0], [1.0, 0.0, 0.0], [0.0, 1.0, 0.0]]
    );
    assert_eq!(stream(&object.normals()), vec![[0.0, 0.0, 1.0]; 3]);
    assert_eq!(object.vertices.len(), 3);
    assert_eq!(object.normals.len(), 1);
}

#[test]
fn four_corners_are_refused() {
    let e = refused("v 0 0 0\nv 1 0 0\nv 0 1 0\nv 1 1 0\nf 1 2 3 4\n");
    assert_eq!(e, FormatError { line: 4, reason: FormatReason::CornerCount });
}

#[test]
fn two_corners_are_refused() {
    let e = refused("v 0 0 0\nv 1 0 0\nf 1 2\n");
    assert_eq!(e, FormatError { line: 2, reason: FormatReason::CornerCount });
    assert_eq!(refused("f\n").reason, FormatReason::CornerCount);
}

#[test]
fn unknown_marker_is_refused() {
    let e = refused("v 0 0 0\nx foo\nv 1 0 0\n");
    assert_eq!(e, FormatError { line: 1, reason: FormatReason::UnknownMarker });
    assert_eq!(refused("vt 0 0\n").reason, FormatReason::UnknownMarker);
    assert_eq!(refused(" # indented\n").reason, FormatReason::UnknownMarker);
}

#[test]
fn a_new_object_discards_the_one_before() {
    let object = Object::load(
        "o A\nv 0 0 0\nv 1 0 0\nv 0 1 0\no B\nv 5 5 5\nv 6 5 5\nv 5 6 5\nf 1 2 3\n",
    )
    .unwrap();
    assert_eq!(text(&object.name), "B");
    assert_eq!(
        stream(&object.vertices),
        vec![[5.0, 5.0, 5.0], [6.0, 5.0, 5.0], [5.0, 6.0, 5.0]]
    );
    assert_eq!(
        stream(&object.vertices()),
        vec![[5.0, 5.0, 5.0], [6.0, 5.0, 5.0], [5.0, 6.0, 5.0]]
    );
}

#[test]
fn faces_of_a_discarded_object_are_gone() {
    let object =
        Object::load("v 0 0 0\nv 1 0 0\nv 0 1 0\nvn 0 0 1\nf 1 2 3\no B extra\n").unwrap();
    assert_eq!(text(&object.name), "B");
    assert!(object.vertices.is_empty());
    assert!(object.normals.is_empty());
    assert!(object.faces.is_empty());
    assert!(object.vertices().is_empty());
    assert!(object.normals().is_empty());
}

#[test]
fn streams_have_three_entries_for_each_face() {
    let object = Object::load(
        "v 0 0 0\nv 1 0 0\nv 0 1 0\nv 1 1 0\nvn 0 0 1\nf 1 2 3\nf 2/7/1 4/8 3//1\n",
    )
    .unwrap();
    assert_eq!(object.faces.len(), 6);
    assert_eq!(object.vertices().len(), 6);
    assert_eq!(object.normals().len(), 6);
    assert_eq!(
        stream(&object.vertices()),
        vec![
            [0.0, 0.0, 0.0],
            [1.0, 0.0, 0.0],
            [0.0, 1.0, 0.0],
            [1.0, 0.0, 0.0],
            [1.0, 1.0, 0.0],
            [0.0, 1.0, 0.0]
        ]
    );
    assert_eq!(
        stream(&object.normals()),
        vec![
            [0.0, 0.0, 0.0],
            [0.0, 0.0, 0.0],
            [0.0, 0.0, 0.0],
            [0.0, 0.0, 1.0],
            [0.0, 0.0, 0.0],
            [0.0, 0.0, 1.0]
        ]
    );
    assert_eq!(object.faces[3].texture, Some(6));
    assert_eq!(object.faces[4].texture, Some(7));
    assert_eq!(object.faces[4].normal, None);
    assert_eq!(object.faces[5].texture, None);
}

#[test]
fn index_one_is_the_first_entry() {
    let object = Object::load("v 7 8 9\nv 1 0 0\nv 0 1 0\nf 1 1 1\n").unwrap();
    assert_eq!(object.faces[0].vertex, 0);
    assert_eq!(stream(&object.vertices()), vec![[7.0, 8.0, 9.0]; 3]);
    let c = corner(&chars("3/2/1"), 3, 1).unwrap();
    assert_eq!((c.vertex, c.texture, c.normal), (2, Some(1), Some(0)));
}

#[test]
fn normals_go_to_their_own_table() {
    let object = Object::load("vn 0 0 1\nv 1 2 3\nvn 0 1 0\n").unwrap();
    assert_eq!(stream(&object.vertices), vec![[1.0, 2.0, 3.0]]);
    assert_eq!(stream(&object.normals), vec![[0.0, 0.0, 1.0], [0.0, 1.0, 0.0]]);
}

#[test]
fn comments_and_empty_lines_are_passed_over() {
    let object = Object::load("# a comment\n\n#\r\n\r\nv 1 2 3\r\n#v 4 5 6\n").unwrap();
    assert_eq!(stream(&object.vertices), vec![[1.0, 2.0, 3.0]]);
    let empty = Object::load("").unwrap();
    assert!(empty.name.is_empty() && empty.vertices.is_empty() && empty.faces.is_empty());
}

#[test]
fn groups_and_smoothing_change_nothing() {
    let object = Object::load("o ball\ng left side\ns 1\ns off\ns on\ns 0\nv 1 2 3\n").unwrap();
    assert_eq!(text(&object.name), "ball");
    assert_eq!(object.vertices.len(), 1);
    assert!(object.normals.is_empty() && object.faces.is_empty());
}

#[test]
fn each_reason_has_its_input() {
    assert_eq!(refused("v 1 2 3\n   \n"), FormatError { line: 1, reason: FormatReason::MissingMarker });
    assert_eq!(refused("\t\r"), FormatError { line: 0, reason: FormatReason::MissingMarker });
    assert_eq!(refused("q\n").reason, FormatReason::UnknownMarker);
    assert_eq!(refused("o\n").reason, FormatReason::MissingToken);
    assert_eq!(refused("g \n").reason, FormatReason::MissingToken);
    assert_eq!(refused("s\n").reason, FormatReason::MissingToken);
    assert_eq!(refused("s 2\n").reason, FormatReason::InvalidSmoothing);
    assert_eq!(refused("s ON\n").reason, FormatReason::InvalidSmoothing);
    assert_eq!(refused("v 1 2 z\n").reason, FormatReason::NotANumber);
    assert_eq!(refused("v 1 2 3 z\n").reason, FormatReason::NotANumber);
    assert_eq!(refused("v 1 2\n").reason, FormatReason::CoordinateCount);
    assert_eq!(refused("v\n").reason, FormatReason::CoordinateCount);
    assert_eq!(refused("vn 1 2 3 4\n").reason, FormatReason::CoordinateCount);
    assert_eq!(refused("v 0 0 0\nf 1 1\n").reason, FormatReason::CornerCount);
    assert_eq!(refused("v 0 0 0\nf 1 /1 1\n").reason, FormatReason::MissingVertexIndex);
    assert_eq!(refused("v 0 0 0\nf 1 a 1 1\n").reason, FormatReason::MissingVertexIndex);
    assert_eq!(refused("v 0 0 0\nf 1 0 1\n").reason, FormatReason::ZeroIndex);
    assert_eq!(refused("v 0 0 0\nf 1/0 1 1\n").reason, FormatReason::ZeroIndex);
    assert_eq!(refused("v 0 0 0\nf 1//0 1 1\n").reason, FormatReason::ZeroIndex);
    assert_eq!(refused("v 0 0 0\nf 1 2 1\n").reason, FormatReason::IndexOutOfRange);
    assert_eq!(refused("v 0 0 0\nf 1//1 1 1\n").reason, FormatReason::IndexOutOfRange);
    assert_eq!(refused("f 1 2 3\nv 0 0 0\nv 0 0 0\nv 0 0 0\n"), FormatError { line: 0, reason: FormatReason::IndexOutOfRange });
}

#[test]
fn the_first_refused_line_is_reported() {
    let e = refused("v 0 0 0\n# fine\nv 1 2\nx\n");
    assert_eq!(e, FormatError { line: 2, reason: FormatReason::CoordinateCount });
}

#[test]
fn indices_of_a_corner_token() {
    assert_eq!(parse_indices("1"), vec![Some(1)]);
    assert_eq!(parse_indices("1/2"), vec![Some(1), Some(2)]);
    assert_eq!(parse_indices("1//3"), vec![Some(1), None, Some(3)]);
    assert_eq!(parse_indices("12/34/56"), vec![Some(12), Some(34), Some(56)]);
    assert_eq!(parse_indices(""), vec![None]);
    assert_eq!(parse_indices("/"), vec![None, None]);
    assert_eq!(parse_indices("a/2/"), vec![None, Some(2), None]);
    assert_eq!(parse_indices("1/2/3/4"), vec![Some(1), Some(2), Some(3), Some(4)]);
    assert_eq!(parse_indices("-1/+2"), vec![None, Some(2)]);
}

#[test]
fn indices_agree_with_the_standard_reading() {
    let cases = [
        "", "0", "1", "007", "+5", "+", "-", "-3", "++1", "1+", "12a", " 1", "1 ", "4294967295",
        "4294967296", "18446744073709551615", "18446744073709551616", "99999999999999999999999",
        "1.0", "0x10", "\u{664}",
    ];
    for case in cases {
        assert_eq!(parse_index(&chars(case)), case.parse::<usize>().ok(), "{:?}", case);
    }
}

#[test]
fn numbers_agree_with_the_standard_reading() {
    let cases = [
        "", "0", "1", "-1", "+1", "1.", ".5", ".", "+.", "-.5", "1.5", "1.5.2", "1e5", "1E5",
        "1e+5", "1e-5", "1e", "1e+", "e5", ".e5", "1.e5", ".5e5", "1e5.0", "1e5e5", "inf", "-inf",
        "+INF", "Infinity", "-iNfInItY", "infinit", "infinityy", "in", "nan", "NaN", "-nan",
        "+NAN", "nana", "na", "--1", "+-1", "1-", "1_000", "0x10", "1f", "1.0f32", " 1", "1 ",
        "0.000001", "123456789012345678901234567890", "1e400", "1e-400", "-0", "-0.0",
        "\u{664}", "\u{131}nf", "1\u{2212}", "i", "n", "+", "-", "E5", "1.5E-3", "00.00",
        "\u{49}\u{4e}\u{46}", "N\u{41}N", "\u{ef}nf",
    ];
    for case in cases {
        assert_eq!(number(&chars(case)), case.parse::<f32>().is_ok(), "{:?}", case);
    }
}

#[test]
fn tokens_agree_with_the_standard_splitting() {
    let cases = [
        "", " ", "a", " a", "a ", "a b", "  a \t b\r", "v 1 2 3", "f 1//1  2//1\t3//1 ",
        "a\u{a0}b", "a\u{2003}b\u{3000}", "a\u{85}b", "a\u{200b}b", "\u{1680}x\u{2028}y\u{2029}",
        "a\u{b}b\u{c}c", "a\u{1c}b", "a\u{205f}b\u{202f}c",
    ];
    for case in cases {
        let got: Vec<String> = split_tokens(&chars(case)).iter().map(text).collect();
        let want: Vec<String> = case.split_whitespace().map(String::from).collect();
        assert_eq!(got, want, "{:?}", case);
    }
}

#[test]
fn lines_agree_with_the_standard_splitting() {
    let cases = [
        "", "\n", "a", "a\n", "a\nb", "a\r\nb\r\n", "a\r", "a\r\n", "\r\n\r\n", "a\n\nb\n\n",
        "\r", "a\r\r\n", "\n\r", "a\rb\n", "\u{e9}\n\u{2028}x",
    ];
    for case in cases {
        let got: Vec<String> = split_lines(&chars(case)).iter().map(text).collect();
        let want: Vec<String> = case.lines().map(String::from).collect();
        assert_eq!(got, want, "{:?}", case);
    }
}

#[test]
fn segments_agree_with_the_standard_splitting() {
    let cases = ["", "/", "1", "1/", "/1", "1/2/3", "1//3", "//", "a/b/c/d"];
    for case in cases {
        let got: Vec<String> = split_segments(&chars(case)).iter().map(text).collect();
        let want: Vec<String> = case.split('/').map(String::from).collect();
        assert_eq!(got, want, "{:?}", case);
    }
}

#[test]
fn characters_of_a_string() {
    assert_eq!(chars_of("v 1 \u{e9}\u{1f600}\n"), chars("v 1 \u{e9}\u{1f600}\n"));
    assert_eq!(chars_of(""), Vec::<char>::new());
}

#[test]
fn markers_and_smoothing_values() {
    assert!(matches!(marker(&chars("o")), Some(Marker::Object)));
    assert!(matches!(marker(&chars("g")), Some(Marker::Group)));
    assert!(matches!(marker(&chars("s")), Some(Marker::Smoothing)));
    assert!(matches!(marker(&chars("v")), Some(Marker::Vertex)));
    assert!(matches!(marker(&chars("vn")), Some(Marker::Normal)));
    assert!(matches!(marker(&chars("f")), Some(Marker::Face)));
    assert!(matches!(marker(&chars("vt")), None));
    assert!(matches!(marker(&chars("V")), None));
    assert!(matches!(marker(&chars("")), None));
    assert!(smoothing(&chars("0")) && smoothing(&chars("1")));
    assert!(smoothing(&chars("on")) && smoothing(&chars("off")));
    assert!(!smoothing(&chars("of")) && !smoothing(&chars("")) && !smoothing(&chars("2")));
}

#[test]
fn coordinates_keep_their_text() {
    let object = Object::load("v 1.5e-3 -0.25 +7.\nv 0 0 0\nv 0 0 0\nf 1 2 3\n").unwrap();
    let flat = object.vertices();
    assert_eq!(text(&flat[0].x), "1.5e-3");
    assert_eq!(text(&flat[0].y), "-0.25");
    assert_eq!(text(&flat[0].z), "+7.");
    assert_eq!(floats(&flat[0]), [0.0015, -0.25, 7.0]);
    assert_eq!(floats(&Coords::zero()), [0.0, 0.0, 0.0]);
    assert_eq!(floats(&flat[0].copy()), [0.0015, -0.25, 7.0]);
}

#[test]
fn one_line_at_a_time() {
    let object = Object::named(chars("cube"));
    let object = object.apply(&chars("v 1 2 3")).unwrap();
    let object = object.apply(&chars("# nothing")).unwrap();
    let object = object.apply(&chars("f 1/1 1/1 1/1")).unwrap();
    assert_eq!(text(&object.name), "cube");
    assert_eq!(object.faces.len(), 3);
    assert!(matches!(object.apply(&chars("f 2 2 2")), Err(FormatReason::IndexOutOfRange)));
}

#[test]
fn lines_tell_of_objects_groups_and_smoothing() {
    let (outcome, notices) =
        Object::load_noting("o ball\n# o no\ng left side\ns 1\ns off\nv 1 2 3\ns on\ns 0\n");
    assert!(outcome.is_ok());
    let told: Vec<String> = notices.iter().map(|n| format!("{:?}", n)).collect();
    assert_eq!(
        told,
        vec![
            "Object(['b', 'a', 'l', 'l'])",
            "Group(['l', 'e', 'f', 't'])",
            "Smoothing(true)",
            "Smoothing(false)",
            "Smoothing(true)",
            "Smoothing(false)"
        ]
    );
}

#[test]
fn nothing_is_told_from_the_refused_line_on() {
    let (outcome, notices) = Object::load_noting("g a\ns 2\ng b\n");
    assert_eq!(outcome.err(), Some(FormatError { line: 1, reason: FormatReason::InvalidSmoothing }));
    assert_eq!(notices.len(), 1);
    assert!(matches!(&notices[0], Notice::Group(name) if text(name) == "a"));
    let (outcome, notices) = Object::load_noting("o\n");
    assert!(outcome.is_err() && notices.is_empty());
}

#[test]
fn well_formed_models_are_recognised() {
    let object = Object::load("v 0 0 0\nvn 0 0 1\nf 1//1 1 1/1\n").unwrap();
    assert!(object.is_well_formed());
    assert!(Object::named(chars("x")).is_well_formed());
    let mut short = Object::load("v 0 0 0\nf 1 1 1\n").unwrap();
    short.faces.pop();
    assert!(!short.is_well_formed());
    let mut dangling = Object::load("v 0 0 0\nf 1 1 1\n").unwrap();
    dangling.faces[1].vertex = 1;
    assert!(!dangling.is_well_formed());
    let mut lost = Object::load("v 0 0 0\nvn 0 0 1\nf 1//1 1 1\n").unwrap();
    lost.normals.clear();
    assert!(!lost.is_well_formed());
    let mut garbled = Object::load("v 0 0 0\nf 1 1 1\n").unwrap();
    garbled.vertices[0].y = chars("one");
    assert!(!garbled.is_well_formed());
    assert!(!garbled.vertices[0].is_numeric());
}

#[test]
fn each_object_can_be_kept() {
    let content = "v 9 9 9\no A\nv 0 0 0\nv 1 0 0\nv 0 1 0\nf 1 2 3\no B\nv 5 5 5\nf 1 1 1\nf 1 1 1\n";
    let each = Object::load_each(content).unwrap();
    assert_eq!(each.len(), 3);
    assert_eq!(text(&each[0].name), "");
    assert_eq!(stream(&each[0].vertices), vec![[9.0, 9.0, 9.0]]);
    assert!(each[0].faces.is_empty());
    assert_eq!(text(&each[1].name), "A");
    assert_eq!(
        stream(&each[1].vertices()),
        vec![[0.0, 0.0, 0.0], [1.0, 0.0, 0.0], [0.0, 1.0, 0.0]]
    );
    assert_eq!(text(&each[2].name), "B");
    assert_eq!(stream(&each[2].vertices()), vec![[5.0, 5.0, 5.0]; 6]);
    let last = Object::load(content).unwrap();
    assert_eq!(text(&last.name), "B");
    assert_eq!(stream(&last.vertices()), stream(&each[2].vertices()));
    assert!(each.iter().all(|object| object.is_well_formed()));
}

#[test]
fn a_text_without_objects_is_one_model() {
    let each = Object::load_each("v 1 2 3\n").unwrap();
    assert_eq!(each.len(), 1);
    assert_eq!(stream(&each[0].vertices), vec![[1.0, 2.0, 3.0]]);
    assert_eq!(Object::load_each("").unwrap().len(), 1);
    assert_eq!(
        Object::load_each("o A\nv 1 2\no B\n").err(),
        Some(FormatError { line: 1, reason: FormatReason::CoordinateCount })
    );
    assert_eq!(
        Object::load_each("o A\no\n").err(),
        Some(FormatError { line: 1, reason: FormatReason::MissingToken })
    );
}

#[test]
fn the_default_model_is_empty() {
    let object = Object::default();
    assert!(object.name.is_empty() && object.vertices.is_empty());
    assert!(object.normals.is_empty() && object.faces.is_empty());
    assert!(object.is_well_formed());
    assert!(object.vertices().is_empty() && object.normals().is_empty());
}
