use sh4der_jockey::interleave::{deinterlace, interlace};
use sh4der_jockey::preprocess::{preprocess, preprocess_with_offset, PreprocessOutcome};
use sh4der_jockey::text::{in_block, process_error};

fn foo_sources() -> Vec<(String, String)> {
    vec![(
        "foo.glsl".to_string(),
        "#pragma once\nint hoge = 0;\n".to_string(),
    )]
}

fn expand(source: &str) -> String {
    let mut lut = Vec::new();
    match preprocess_with_offset(source, "test", &mut lut, &foo_sources(), 0) {
        PreprocessOutcome::Done(s) => s,
        PreprocessOutcome::Failed(e) => panic!("failed: {}", e),
        PreprocessOutcome::NeedsFile(f) => panic!("needs file {}", f),
    }
}

#[test]
fn in_block_simple() {
    assert!(in_block("aa ( bb", "(", ")"));
    assert!(in_block("( aa ) bb (", "(", ")"));

    assert!(!in_block("( aa ( bb )", "(", ")"));
    assert!(!in_block("aa bb", "(", ")"));
}

#[test]
fn in_block_overlap() {
    assert!(in_block("(x)", "(x", "x)"));
    assert!(in_block("(xx)", "(xx", "xx)"));
    assert!(in_block("(xx)", "(xx", "x)"));
    assert!(in_block("(xx)", "(x", "xx)"));
    assert!(in_block("(xxx)", "(xx", "xx)"));

    assert!(!in_block("(xx)", "(x", "x)"));
    assert!(!in_block("(xxx)", "(xx", "x)"));
    assert!(!in_block("(xxx)", "(x", "xx)"));
}

#[test]
fn interlace_simple() {
    let first = &[1, 2, 3, 4];
    let second = &[5, 6, 7, 8];
    let vec = interlace(first, second);

    assert_eq!(vec, &[1, 5, 2, 6, 3, 7, 4, 8]);
}

#[test]
fn deinterlace_simple() {
    let slice = &[1, 5, 2, 6, 3, 7, 4, 8];
    let (first, second) = deinterlace(slice);

    assert_eq!(first, &[1, 2, 3, 4]);
    assert_eq!(second, &[5, 6, 7, 8]);
}

#[test]
fn interlace_unbalanced() {
    let first = &[1, 2, 3];
    let second = &[4, 5, 6, 7, 8];
    let vec = interlace(first, second);

    assert_eq!(vec, &[1, 4, 2, 5, 3, 6, 7, 8]);
}

#[test]
fn deinterlace_unbalanced() {
    let slice = &[1, 2, 3, 4, 5];
    let (first, second) = deinterlace(slice);

    assert_eq!(first, &[1, 3, 5]);
    assert_eq!(second, &[2, 4]);
}

#[test]
fn interlace_then_deinterlace_round_trip() {
    let a = vec![10, 20, 30];
    let b = vec![11, 21];
    let (x, y) = deinterlace(&interlace(&a, &b));
    assert_eq!(x, a);
    assert_eq!(y, b);
}

#[test]
fn preprocess_line_number() {
    let source = "#version 123\nmain(){}";
    let expected = "#version 123\n#line 1 0\nmain(){}";
    assert_eq!(expand(source), expected);
}

#[test]
fn preprocess_include_simple() {
    let source = "#version 123\n#pragma include \"foo.glsl\"\nmain(){}";
    let expected = "#version 123\n#line 0 1\n#pragma once\nint hoge = 0;\n#line 2 0\nmain(){}";
    assert_eq!(expand(source), expected);
}

#[test]
fn preprocess_include_in_comment_single() {
    let source = "#version 123\n//#pragma include \"foo.glsl\"\nmain(){}";
    let expected = "#version 123\n#line 1 0\n//#pragma include \"foo.glsl\"\nmain(){}";
    assert_eq!(expand(source), expected);
}

#[test]
fn preprocess_include_in_comment_block() {
    let source = "#version 123\n/*#pragma include \"foo.glsl\"*/\nmain(){}";
    let expected = "#version 123\n#line 1 0\n/*#pragma include \"foo.glsl\"*/\nmain(){}";
    assert_eq!(expand(source), expected);
}

#[test]
fn preprocess_include_pragma_once() {
    let source =
        "#version 123\n#pragma include \"foo.glsl\"\n#pragma include \"foo.glsl\"\nmain(){}";
    let expected = "#version 123\n#line 0 1\n#pragma once\nint hoge = 0;\n#line 3 0\nmain(){}";
    assert_eq!(expand(source), expected);
}

#[test]
fn preprocess_default_offset_numbers_files_from_101() {
    let mut lut = Vec::new();
    let r = preprocess("a\nb", "main.frag", &mut lut, &[]);
    match r {
        PreprocessOutcome::Done(s) => assert_eq!(s, "#line 0 101\na\nb"),
        _ => panic!("expected success"),
    }
    assert_eq!(lut, vec!["main.frag".to_string()]);
}

#[test]
fn preprocess_reports_missing_file() {
    let mut lut = Vec::new();
    let r = preprocess("#include <lib.glsl>\nx", "main.frag", &mut lut, &[]);
    match r {
        PreprocessOutcome::NeedsFile(f) => assert_eq!(f, "lib.glsl"),
        _ => panic!("expected a request for a file"),
    }
}

#[test]
fn preprocess_detects_cycles() {
    let mut lut = Vec::new();
    let sources = vec![
        ("a.glsl".to_string(), "#include \"b.glsl\"".to_string()),
        ("b.glsl".to_string(), "#include \"a.glsl\"".to_string()),
    ];
    let r = preprocess_with_offset("#include \"a.glsl\"", "main", &mut lut, &sources, 0);
    match r {
        PreprocessOutcome::Failed(e) => assert_eq!(
            e,
            "Cycle detected! File a.glsl has been included further down the tree"
        ),
        _ => panic!("expected a cycle"),
    }
}

#[test]
fn process_error_maps_file_numbers_to_names() {
    let lut = vec!["main.frag".to_string(), "lib.glsl".to_string()];
    let err = "ERROR: 102:3: undeclared identifier (in 101)".to_string();
    assert_eq!(
        process_error(err, &lut),
        "ERROR: lib.glsl:3: undeclared identifier (in main.frag)"
    );
}
