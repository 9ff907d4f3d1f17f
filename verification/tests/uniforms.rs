use sh4der_jockey::uniform::{Uniform, UniformError, UniformShape};
use sh4der_jockey::yaml::{Yaml, YamlNumber};

fn parse(text: &str) -> Yaml {
    Yaml::parse(text).unwrap()
}

fn floats(u: &Uniform) -> Vec<f32> {
    u.components
        .iter()
        .map(|n| match *n {
            YamlNumber::PosInt(k) => k as f64 as f32,
            YamlNumber::NegInt(k) => k as f64 as f32,
            YamlNumber::Float(bits) => f64::from_bits(bits) as f32,
        })
        .collect()
}

#[test]
fn parse_float() {
    let value = parse("2.3");
    let uniform = Uniform::from_yaml(&value).unwrap();

    assert_eq!(uniform.shape, UniformShape::Float);
    assert_eq!(floats(&uniform), vec![2.3]);
}

#[test]
fn parse_vec_simple() {
    let value = parse("[1, 2, 3]");
    let uniform = Uniform::from_yaml(&value).unwrap();

    assert_eq!(uniform.shape, UniformShape::Vec3);
    assert_eq!(floats(&uniform), vec![1.0, 2.0, 3.0]);
}

#[test]
fn parse_vec_mixed() {
    let value = parse("[2.3, -5, 0, 7]");
    let uniform = Uniform::from_yaml(&value).unwrap();

    assert_eq!(uniform.shape, UniformShape::Vec4);
    assert_eq!(floats(&uniform), vec![2.3, -5.0, 0.0, 7.0]);
}

#[test]
fn parse_matrix_simple() {
    let value = parse("[[1, 2], [3, 4]]");
    let mut uniform = Uniform::from_yaml(&value).unwrap();

    assert_eq!(uniform.shape, UniformShape::Mat2);
    assert_eq!(floats(&uniform), vec![1.0, 3.0, 2.0, 4.0]);

    uniform.transpose().unwrap();

    assert_eq!(uniform.shape, UniformShape::Mat2);
    assert_eq!(floats(&uniform), vec![1.0, 2.0, 3.0, 4.0]);
}

#[test]
fn parse_matrix_chaotic() {
    let value = parse("[[1, 2], 5.2, [], [0, 0, -4]]");
    let mut uniform = Uniform::from_yaml(&value).unwrap();

    assert_eq!(uniform.shape, UniformShape::Mat3x4);
    assert_eq!(floats(&uniform), vec![
        1.0, 5.2, 0.0, 0.0,
        2.0, 5.2, 0.0, 0.0,
        0.0, 5.2, 0.0, -4.0,
    ]);

    uniform.transpose().unwrap();

    assert_eq!(uniform.shape, UniformShape::Mat4x3);
    assert_eq!(floats(&uniform), vec![
        1.0, 2.0, 0.0,
        5.2, 5.2, 5.2,
        0.0, 0.0, 0.0,
        0.0, 0.0, -4.0
    ]);
}

#[test]
fn uniform_errors_and_transposing_back() {
    assert_eq!(Uniform::from_yaml(&parse("[]")).err(), Some(UniformError::ComponentCount));
    assert_eq!(
        Uniform::from_yaml(&parse("[1, 2, 3, 4, 5]")).err(),
        Some(UniformError::ComponentCount)
    );
    assert_eq!(
        Uniform::from_yaml(&parse("[[1, 2, 3, 4, 5], [1]]")).err(),
        Some(UniformError::MatrixFormat)
    );
    assert_eq!(
        Uniform::from_yaml(&parse("[[1, 2], \"x\"]")).err(),
        Some(UniformError::MatrixRowInvalid)
    );
    assert_eq!(
        Uniform::from_yaml(&parse("[[1, 2], [true, 1]]")).err(),
        Some(UniformError::MatrixComponentNotNumber)
    );
    assert_eq!(
        Uniform::from_yaml(&parse("[1, \"a\"]")).err(),
        Some(UniformError::VectorComponentNotNumber)
    );
    assert_eq!(Uniform::from_yaml(&parse("\"a\"")).err(), Some(UniformError::ValueInvalid));
    let b = Uniform::from_yaml(&parse("true")).unwrap();
    assert_eq!(floats(&b), vec![1.0]);

    let mut v = Uniform::from_yaml(&parse("[1, 2]")).unwrap();
    assert!(v.transpose().is_err());
    assert_eq!(v.shape, UniformShape::Vec2);

    let matrix = Uniform::from_yaml(&parse("[[1, 2, 3], [4, 5, 6]]")).unwrap();
    assert_eq!(matrix.shape, UniformShape::Mat3x2);
    let mut u = matrix.clone();
    u.transpose().unwrap();
    assert_eq!(u.shape, UniformShape::Mat2x3);
    u.transpose().unwrap();
    assert_eq!(u, matrix);
}
