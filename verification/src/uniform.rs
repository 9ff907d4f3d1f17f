//! Custom uniforms of a stage: scalars, vectors and matrices given in the
//! pipeline description, and the transposition of matrices.
//!
//! Components are kept as the numbers the description gives; they become
//! GPU floats only when they are uploaded.
use vstd::prelude::*;
use crate::stage::number_of;
use crate::yaml::{Yaml, YamlNumber};
use vstd::arithmetic::div_mod::{lemma_fundamental_div_mod, lemma_fundamental_div_mod_converse};

verus! {

/// The GLSL type of a uniform. Matrices are named by columns and rows, as
/// GLSL names them.
#[derive(Debug, Clone, Copy, PartialEq, Eq)]
pub enum UniformShape {
    Float,
    Vec2,
    Vec3,
    Vec4,
    Mat2,
    Mat3,
    Mat4,
    Mat2x3,
    Mat3x2,
    Mat2x4,
    Mat4x2,
    Mat3x4,
    Mat4x3,
}

/// A uniform's type and its components (matrices column by column).
#[derive(Debug, Clone, PartialEq, Eq)]
pub struct Uniform {
    pub shape: UniformShape,
    pub components: Vec<YamlNumber>,
}

/// Why a uniform value was refused.
#[derive(Debug, Clone, Copy, PartialEq, Eq)]
pub enum UniformError {
    /// A list with no element or more than four.
    ComponentCount,
    /// A list of rows of a size that is no matrix type.
    MatrixFormat,
    /// A matrix row that is neither a list nor a number.
    MatrixRowInvalid,
    /// A matrix element that is not a number.
    MatrixComponentNotNumber,
    /// A vector element that is not a number.
    VectorComponentNotNumber,
    /// A value that is neither a boolean, a number nor a list.
    ValueInvalid,
}

/// The value of an unset component.
pub open spec fn zero() -> YamlNumber {
    YamlNumber::Float(0)
}

/// The matrix type of `width` columns and `height` rows, if there is one.
pub open spec fn matrix_shape_spec(width: nat, height: nat) -> Option<UniformShape> {
    if width == 2 && height == 2 {
        Some(UniformShape::Mat2)
    } else if width == 3 && height == 3 {
        Some(UniformShape::Mat3)
    } else if width == 4 && height == 4 {
        Some(UniformShape::Mat4)
    } else if width == 2 && height == 3 {
        Some(UniformShape::Mat2x3)
    } else if width == 3 && height == 2 {
        Some(UniformShape::Mat3x2)
    } else if width == 2 && height == 4 {
        Some(UniformShape::Mat2x4)
    } else if width == 4 && height == 2 {
        Some(UniformShape::Mat4x2)
    } else if width == 3 && height == 4 {
        Some(UniformShape::Mat3x4)
    } else if width == 4 && height == 3 {
        Some(UniformShape::Mat4x3)
    } else {
        None
    }
}

/// The number of columns of a matrix type, as GLSL names them: `matN` has
/// `N` columns and `N` rows, `matCxR` has `C` columns and `R` rows.
pub open spec fn shape_columns(shape: UniformShape) -> nat {
    match shape {
        UniformShape::Mat2 | UniformShape::Mat2x3 | UniformShape::Mat2x4 => 2,
        UniformShape::Mat3 | UniformShape::Mat3x2 | UniformShape::Mat3x4 => 3,
        UniformShape::Mat4 | UniformShape::Mat4x2 | UniformShape::Mat4x3 => 4,
        _ => 1,
    }
}

/// The number of rows of a matrix type, as GLSL names them (see
/// [`shape_columns`]).
pub open spec fn shape_rows(shape: UniformShape) -> nat {
    match shape {
        UniformShape::Mat2 | UniformShape::Mat3x2 | UniformShape::Mat4x2 => 2,
        UniformShape::Mat3 | UniformShape::Mat2x3 | UniformShape::Mat4x3 => 3,
        UniformShape::Mat4 | UniformShape::Mat2x4 | UniformShape::Mat3x4 => 4,
        UniformShape::Vec2 => 2,
        UniformShape::Vec3 => 3,
        UniformShape::Vec4 => 4,
        UniformShape::Float => 1,
    }
}

/// A matrix whose rows are at most `width` long, given as `height` rows, is
/// of the type with `width` columns and `height` rows; there is such a type
/// exactly when both lie between two and four.
pub proof fn lemma_matrix_shape_dims(width: nat, height: nat)
    ensures
        matrix_shape_spec(width, height) is Some <==> (2 <= width <= 4 && 2 <= height <= 4),
        matrix_shape_spec(width, height) matches Some(s) ==> shape_columns(s) == width
            && shape_rows(s) == height && shape_len(s) == width * height,
{
}

/// The vector type of `n` components.
pub open spec fn vector_shape(n: nat) -> UniformShape {
    if n == 1 {
        UniformShape::Float
    } else if n == 2 {
        UniformShape::Vec2
    } else if n == 3 {
        UniformShape::Vec3
    } else {
        UniformShape::Vec4
    }
}

/// The length of the longest of the rows from the `i`-th on that are lists,
/// if any is.
pub open spec fn width_from(rows: Seq<Yaml>, i: int) -> Option<nat>
    decreases rows.len() - i,
{
    if i < 0 || i >= rows.len() {
        None
    } else {
        let rest = width_from(rows, i + 1);
        match rows[i].untagged() {
            Yaml::Sequence(r) => match rest {
                Some(w) => Some(if r@.len() > w { r@.len() } else { w }),
                None => Some(r@.len()),
            },
            _ => rest,
        }
    }
}

/// The elements of a matrix row: a number fills the whole row.
pub open spec fn row_items(row: Yaml, width: nat) -> Option<Seq<Yaml>> {
    match row {
        Yaml::Number(_) => Some(Seq::new(width, |x: int| row)),
        Yaml::Sequence(r) => Some(r@),
        _ => None,
    }
}

/// Whether every element of `items` is a number.
pub open spec fn all_numbers(items: Seq<Yaml>) -> bool {
    forall|x: int| 0 <= x < items.len() ==> (#[trigger] number_of(items[x])) is Some
}

/// The first fault among the rows from the `y`-th on.
pub open spec fn rows_error(rows: Seq<Yaml>, width: nat, y: int) -> Option<UniformError>
    decreases rows.len() - y,
{
    if y < 0 || y >= rows.len() {
        None
    } else {
        match row_items(rows[y], width) {
            None => Some(UniformError::MatrixRowInvalid),
            Some(items) => if all_numbers(items) {
                rows_error(rows, width, y + 1)
            } else {
                Some(UniformError::MatrixComponentNotNumber)
            },
        }
    }
}

/// The components of a matrix read from its rows: element `x` of row `y`
/// at position `x * height + y`, zero where a row is short.
pub open spec fn matrix_components(rows: Seq<Yaml>, width: nat, height: nat) -> Seq<YamlNumber> {
    Seq::new(
        width * height,
        |k: int|
            {
                let x = k / height as int;
                let y = k % height as int;
                match row_items(rows[y], width) {
                    Some(items) => if x < items.len() {
                        match number_of(items[x]) {
                            Some(n) => n,
                            None => zero(),
                        }
                    } else {
                        zero()
                    },
                    None => zero(),
                }
            },
    )
}

/// What a uniform value in the description reads as.
pub open spec fn uniform_spec(v: Yaml) -> Result<(UniformShape, Seq<YamlNumber>), UniformError> {
    match v {
        Yaml::Bool(b) => Ok(
            (UniformShape::Float, seq![YamlNumber::PosInt(if b { 1u64 } else { 0u64 })]),
        ),
        Yaml::Number(n) => Ok((UniformShape::Float, seq![n])),
        Yaml::Sequence(s) => if s@.len() == 0 || s@.len() > 4 {
            Err(UniformError::ComponentCount)
        } else {
            match width_from(s@, 0) {
                Some(width) => match matrix_shape_spec(width, s@.len()) {
                    None => Err(UniformError::MatrixFormat),
                    Some(shape) => match rows_error(s@, width, 0) {
                        Some(e) => Err(e),
                        None => Ok((shape, matrix_components(s@, width, s@.len()))),
                    },
                },
                None => if all_numbers(s@) {
                    Ok(
                        (
                            vector_shape(s@.len()),
                            Seq::new(s@.len(), |i: int| number_of(s@[i])->Some_0),
                        ),
                    )
                } else {
                    Err(UniformError::VectorComponentNotNumber)
                },
            }
        },
        _ => Err(UniformError::ValueInvalid),
    }
}

/// A uniform given as rows, some of which are lists, reads as the matrix
/// type whose column count is the length of the longest row and whose row
/// count is the number of rows, with one component per column and row.
pub proof fn lemma_matrix_uniform(v: Yaml)
    ensures
        v matches Yaml::Sequence(rows) ==> (width_from(rows@, 0) matches Some(w) ==> (uniform_spec(
            v,
        ) matches Ok((shape, comps)) ==> shape_columns(shape) == w && shape_rows(shape)
            == rows@.len() && comps.len() == w * rows@.len())),
{
    match v {
        Yaml::Sequence(rows) => match width_from(rows@, 0) {
            Some(w) => lemma_matrix_shape_dims(w, rows@.len()),
            None => {},
        },
        _ => {},
    }
}

/// With no fault among the rows, every element of every row is a number.
proof fn lemma_rows_numbers(rows: Seq<Yaml>, width: nat, y: int, r: int)
    requires
        0 <= y <= r < rows.len(),
        rows_error(rows, width, y) is None,
    ensures
        row_items(rows[r], width) matches Some(items) && all_numbers(items),
    decreases rows.len() - y,
{
    if y < r {
        lemma_rows_numbers(rows, width, y + 1, r);
    }
}

/// A matrix uniform is laid out column by column: element `c` of row `r`
/// is component `c * h + r`, where `h` is the number of rows.
pub proof fn lemma_matrix_layout(v: Yaml, r: int, c: int)
    requires
        v matches Yaml::Sequence(rows) && 0 <= r < rows@.len() && (rows@[r] matches Yaml::Sequence(
            items,
        ) && 0 <= c < items@.len()),
    ensures
        v matches Yaml::Sequence(rows) ==> (uniform_spec(v) matches Ok((shape, comps)) ==> (
        rows@[r] matches Yaml::Sequence(items) ==> number_of(items@[c]) matches Some(n)
            && comps[c * rows@.len() + r] == n)),
{
    match v {
        Yaml::Sequence(rows) => {
            let h = rows@.len();
            lemma_width_bounds(rows@, 0, r);
            let w = width_from(rows@, 0)->Some_0;
            match uniform_spec(v) {
                Ok((shape, comps)) => {
                    lemma_rows_numbers(rows@, w, 0, r);
                    let items = row_items(rows@[r], w)->Some_0;
                    assert(number_of(items[c]) is Some);
                    let k = c * h + r;
                    assert(0 <= c * h <= (w - 1) * h) by (nonlinear_arith)
                        requires
                            0 <= c < w,
                            h >= 0,
                    ;
                    assert((w - 1) * h + h == w * h) by (nonlinear_arith);
                    lemma_fundamental_div_mod_converse(k, h as int, c, r);
                    assert(comps == matrix_components(rows@, w, h));
                },
                Err(_) => {},
            }
        },
        _ => {},
    }
}

/// The components of a matrix stored in groups of `w` with the groups and
/// their elements swapped: element `j` is element `(j % h) * w + j / h` of
/// `vs`, where `h` is the number of groups.
pub open spec fn transposed(vs: Seq<YamlNumber>, w: nat) -> Seq<YamlNumber> {
    let h = vs.len() / w;
    Seq::new(vs.len(), |j: int| vs[(j % h as int) * w + j / h as int])
}

/// The group size by which a matrix of this shape is transposed, and the
/// shape of the result.
pub open spec fn transpose_spec(shape: UniformShape) -> Option<(nat, UniformShape)> {
    match shape {
        UniformShape::Mat2 => Some((2, UniformShape::Mat2)),
        UniformShape::Mat3 => Some((3, UniformShape::Mat3)),
        UniformShape::Mat4 => Some((4, UniformShape::Mat4)),
        UniformShape::Mat2x3 => Some((3, UniformShape::Mat3x2)),
        UniformShape::Mat3x2 => Some((2, UniformShape::Mat2x3)),
        UniformShape::Mat2x4 => Some((4, UniformShape::Mat4x2)),
        UniformShape::Mat4x2 => Some((2, UniformShape::Mat2x4)),
        UniformShape::Mat3x4 => Some((4, UniformShape::Mat4x3)),
        UniformShape::Mat4x3 => Some((3, UniformShape::Mat3x4)),
        _ => None,
    }
}

/// The number of components of a shape.
pub open spec fn shape_len(shape: UniformShape) -> nat {
    match shape {
        UniformShape::Float => 1,
        UniformShape::Vec2 => 2,
        UniformShape::Vec3 => 3,
        UniformShape::Vec4 => 4,
        UniformShape::Mat2 => 4,
        UniformShape::Mat3 => 9,
        UniformShape::Mat4 => 16,
        UniformShape::Mat2x3 | UniformShape::Mat3x2 => 6,
        UniformShape::Mat2x4 | UniformShape::Mat4x2 => 8,
        UniformShape::Mat3x4 | UniformShape::Mat4x3 => 12,
    }
}

} // verus!

verus! {

fn number(v: &Yaml) -> (r: Option<YamlNumber>)
    ensures
        r == number_of(*v),
{
    match v.untag() {
        Yaml::Number(n) => Some(*n),
        _ => None,
    }
}

fn matrix_shape(width: usize, height: usize) -> (r: Option<UniformShape>)
    ensures
        r == matrix_shape_spec(width as nat, height as nat),
{
    if width == 2 && height == 2 {
        Some(UniformShape::Mat2)
    } else if width == 3 && height == 3 {
        Some(UniformShape::Mat3)
    } else if width == 4 && height == 4 {
        Some(UniformShape::Mat4)
    } else if width == 2 && height == 3 {
        Some(UniformShape::Mat2x3)
    } else if width == 3 && height == 2 {
        Some(UniformShape::Mat3x2)
    } else if width == 2 && height == 4 {
        Some(UniformShape::Mat2x4)
    } else if width == 4 && height == 2 {
        Some(UniformShape::Mat4x2)
    } else if width == 3 && height == 4 {
        Some(UniformShape::Mat3x4)
    } else if width == 4 && height == 3 {
        Some(UniformShape::Mat4x3)
    } else {
        None
    }
}

fn width_of(rows: &[Yaml]) -> (r: Option<usize>)
    ensures
        match width_from(rows@, 0) {
            Some(w) => r matches Some(x) && x as nat == w,
            None => r is None,
        },
{
    let mut acc: Option<usize> = None;
    let mut i: usize = rows.len();
    while i > 0
        invariant
            i <= rows@.len(),
            match width_from(rows@, i as int) {
                Some(w) => acc matches Some(x) && x as nat == w,
                None => acc is None,
            },
        decreases i,
    {
        i = i - 1;
        match rows[i].untag() {
            Yaml::Sequence(r) => {
                acc = match acc {
                    Some(w) => Some(if r.len() > w { r.len() } else { w }),
                    None => Some(r.len()),
                };
            },
            _ => {},
        }
    }
    acc
}

proof fn lemma_width_bounds(rows: Seq<Yaml>, i: int, y: int)
    requires
        0 <= i <= y < rows.len(),
    ensures
        rows[y].untagged() matches Yaml::Sequence(r) ==> (width_from(rows, i) matches Some(w)
            && r@.len() <= w),
    decreases y - i,
{
    if i < y {
        lemma_width_bounds(rows, i + 1, y);
    }
}

fn row_numbers(row: &Yaml) -> (r: Option<bool>)
    ensures
        match row_items(*row, 0) {
            None => r is None,
            Some(_) => r matches Some(ok) && (row is Sequence ==> ok == all_numbers(
                row->Sequence_0@,
            )) && (row is Number ==> ok),
        },
{
    match row {
        Yaml::Number(_) => Some(true),
        Yaml::Sequence(items) => {
            let mut x: usize = 0;
            while x < items.len()
                invariant
                    row is Sequence && row->Sequence_0@ == items@,
                    x <= items@.len(),
                    forall|j: int| 0 <= j < x ==> (#[trigger] number_of(items@[j])) is Some,
                decreases items@.len() - x,
            {
                if number(&items[x]).is_none() {
                    assert(!all_numbers(items@)) by {
                        assert(number_of(items@[x as int]) is None);
                    }
                    return Some(false);
                }
                x = x + 1;
            }
            Some(true)
        },
        _ => None,
    }
}

proof fn lemma_number_row(row: Yaml, width: nat)
    requires
        row is Number,
    ensures
        row_items(row, width) matches Some(items) && all_numbers(items),
{
    let items = row_items(row, width)->Some_0;
    assert forall|x: int| 0 <= x < items.len() implies (#[trigger] number_of(items[x])) is Some by {
        assert(items[x] == row);
    }
}

fn matrix_from_rows(rows: &[Yaml], width: usize, height: usize) -> (r: Result<
    Vec<YamlNumber>,
    UniformError,
>)
    requires
        height == rows@.len(),
        2 <= width <= 4,
        2 <= height <= 4,
    ensures
        match rows_error(rows@, width as nat, 0) {
            Some(e) => r matches Err(e2) && e2 == e,
            None => r matches Ok(c) && c@ == matrix_components(rows@, width as nat, height as nat),
        },
{
    let mut y: usize = 0;
    while y < height
        invariant
            height == rows@.len(),
            y <= height,
            rows_error(rows@, width as nat, 0) == rows_error(rows@, width as nat, y as int),
        decreases height - y,
    {
        match row_numbers(&rows[y]) {
            None => {
                return Err(UniformError::MatrixRowInvalid);
            },
            Some(ok) => {
                proof {
                    if rows@[y as int] is Number {
                        lemma_number_row(rows@[y as int], width as nat);
                    }
                }
                if !ok {
                    return Err(UniformError::MatrixComponentNotNumber);
                }
            },
        }
        y = y + 1;
    }
    assert(width * height <= 16) by (nonlinear_arith)
        requires
            width <= 4,
            height <= 4,
    ;
    let n = width * height;
    let mut out: Vec<YamlNumber> = Vec::new();
    let mut k: usize = 0;
    while k < n
        invariant
            n == width * height,
            height == rows@.len(),
            2 <= width <= 4,
            2 <= height <= 4,
            k <= n,
            out@.len() == k,
            forall|j: int|
                0 <= j < k ==> #[trigger] out@[j] == matrix_components(
                    rows@,
                    width as nat,
                    height as nat,
                )[j],
        decreases n - k,
    {
        let x = k / height;
        let yy = k % height;
        assert(x < width) by (nonlinear_arith)
            requires
                k < width * height,
                x == k / height,
                height > 0,
        ;
        let v = match &rows[yy] {
            Yaml::Number(m) => *m,
            Yaml::Sequence(items) => if x < items.len() {
                match number(&items[x]) {
                    Some(m) => m,
                    None => YamlNumber::Float(0),
                }
            } else {
                YamlNumber::Float(0)
            },
            _ => YamlNumber::Float(0),
        };
        out.push(v);
        k = k + 1;
    }
    Ok(out)
}

impl Uniform {
    /// The uniform that a value of a stage's `uniforms` mapping describes: a
    /// boolean or a number is a float; a list of one to four numbers is a
    /// float or a vector; a list that holds lists is a matrix whose columns
    /// are its rows (the longest row giving the number of columns), where a
    /// number stands for a row of equal elements and short rows are padded
    /// with zeros.
    pub fn from_yaml(value: &Yaml) -> (r: Result<Uniform, UniformError>)
        ensures
            match uniform_spec(*value) {
                Ok((shape, comps)) => r matches Ok(u) && u.shape == shape && u.components@
                    == comps,
                Err(e) => r matches Err(e2) && e2 == e,
            },
            r matches Ok(u) ==> u.components@.len() == shape_len(u.shape),
    {
        match value {
            Yaml::Bool(b) => {
                let mut c: Vec<YamlNumber> = Vec::new();
                c.push(YamlNumber::PosInt(if *b { 1 } else { 0 }));
                assert(c@ =~= seq![YamlNumber::PosInt(if *b { 1u64 } else { 0u64 })]);
                Ok(Uniform { shape: UniformShape::Float, components: c })
            },
            Yaml::Number(n) => {
                let mut c: Vec<YamlNumber> = Vec::new();
                c.push(*n);
                assert(c@ =~= seq![*n]);
                Ok(Uniform { shape: UniformShape::Float, components: c })
            },
            Yaml::Sequence(s) => {
                let len = s.len();
                if len == 0 || len > 4 {
                    return Err(UniformError::ComponentCount);
                }
                match width_of(s.as_slice()) {
                    Some(width) => {
                        let shape = match matrix_shape(width, len) {
                            Some(shape) => shape,
                            None => {
                                return Err(UniformError::MatrixFormat);
                            },
                        };
                        let c = matrix_from_rows(s.as_slice(), width, len)?;
                        Ok(Uniform { shape, components: c })
                    },
                    None => {
                        let mut c: Vec<YamlNumber> = Vec::new();
                        let mut i: usize = 0;
                        while i < len
                            invariant
                                value is Sequence && value->Sequence_0@ == s@,
                                width_from(s@, 0) is None,
                                1 <= len <= 4,
                                len == s@.len(),
                                i <= len,
                                c@.len() == i,
                                forall|j: int|
                                    0 <= j < i ==> (#[trigger] number_of(s@[j])) is Some && c@[j]
                                        == number_of(s@[j])->Some_0,
                            decreases len - i,
                        {
                            match number(&s[i]) {
                                Some(m) => c.push(m),
                                None => {
                                    assert(!all_numbers(s@)) by {
                                        assert(number_of(s@[i as int]) is None);
                                    }
                                    return Err(UniformError::VectorComponentNotNumber);
                                },
                            }
                            i = i + 1;
                        }
                        assert(c@ =~= Seq::new(s@.len(), |i: int| number_of(s@[i])->Some_0));
                        let shape = if len == 1 {
                            UniformShape::Float
                        } else if len == 2 {
                            UniformShape::Vec2
                        } else if len == 3 {
                            UniformShape::Vec3
                        } else {
                            UniformShape::Vec4
                        };
                        Ok(Uniform { shape, components: c })
                    },
                }
            },
            _ => Err(UniformError::ValueInvalid),
        }
    }
}

} // verus!

verus! {

proof fn lemma_transposed_index(j: int, w: int, h: int)
    requires
        w > 0,
        h > 0,
        0 <= j < h * w,
    ensures
        0 <= (j % h) * w + j / h < h * w,
{
    assert(0 <= j % h < h) by (nonlinear_arith)
        requires
            h > 0,
    ;
    assert(0 <= j / h < w) by (nonlinear_arith)
        requires
            h > 0,
            w > 0,
            0 <= j < h * w,
    ;
    assert((j % h) * w + j / h < h * w) by (nonlinear_arith)
        requires
            0 <= j % h < h,
            0 <= j / h < w,
    ;
    assert(0 <= (j % h) * w) by (nonlinear_arith)
        requires
            0 <= j % h,
            w > 0,
    ;
}

/// The components of a matrix stored in groups of `w`, with the groups and
/// their elements swapped.
pub fn transpose_components(vs: &[YamlNumber], w: usize) -> (r: Vec<YamlNumber>)
    requires
        w > 0,
        vs@.len() % (w as nat) == 0,
    ensures
        r@ == transposed(vs@, w as nat),
{
    let n = vs.len();
    let h = n / w;
    proof {
        lemma_fundamental_div_mod(n as int, w as int);
        assert(n == h * w) by (nonlinear_arith)
            requires
                n == w * (n / w) + n % w,
                n % w == 0,
                h == n / w,
        ;
    }
    let mut out: Vec<YamlNumber> = Vec::new();
    let mut j: usize = 0;
    while j < n
        invariant
            n == vs@.len(),
            w > 0,
            h == n / w,
            n == h * w,
            j <= n,
            out@.len() == j,
            forall|k: int| 0 <= k < j ==> #[trigger] out@[k] == transposed(vs@, w as nat)[k],
        decreases n - j,
    {
        proof {
            assert(h > 0) by (nonlinear_arith)
                requires
                    n == h * w,
                    j < n,
                    w > 0,
            ;
            lemma_transposed_index(j as int, w as int, h as int);
        }
        let i = (j % h) * w + j / h;
        out.push(vs[i]);
        j = j + 1;
    }
    assert(out@ =~= transposed(vs@, w as nat));
    out
}

impl Uniform {
    /// The uniform's components are as many as its shape has.
    pub open spec fn wf(&self) -> bool {
        self.components@.len() == shape_len(self.shape)
    }

    /// Transposes a matrix uniform (a non-square matrix changes its shape);
    /// fails, leaving the uniform as it is, for scalars and vectors.
    pub fn transpose(&mut self) -> (r: Result<(), ()>)
        requires
            old(self).wf(),
        ensures
            final(self).wf(),
            match transpose_spec(old(self).shape) {
                Some((w, shape)) => r is Ok && final(self).shape == shape
                    && final(self).components@ == transposed(old(self).components@, w),
                None => r is Err && *final(self) == *old(self),
            },
    {
        let (w, shape) = match self.shape {
            UniformShape::Mat2 => (2, UniformShape::Mat2),
            UniformShape::Mat3 => (3, UniformShape::Mat3),
            UniformShape::Mat4 => (4, UniformShape::Mat4),
            UniformShape::Mat2x3 => (3, UniformShape::Mat3x2),
            UniformShape::Mat3x2 => (2, UniformShape::Mat2x3),
            UniformShape::Mat2x4 => (4, UniformShape::Mat4x2),
            UniformShape::Mat4x2 => (2, UniformShape::Mat2x4),
            UniformShape::Mat3x4 => (4, UniformShape::Mat4x3),
            UniformShape::Mat4x3 => (3, UniformShape::Mat3x4),
            _ => {
                return Err(());
            },
        };
        let c = transpose_components(self.components.as_slice(), w);
        self.shape = shape;
        self.components = c;
        Ok(())
    }
}

/// Transposing a matrix twice gives back the matrix: the second
/// transposition, by the number of groups of the first, undoes it.
pub proof fn lemma_transpose_twice(vs: Seq<YamlNumber>, w: nat)
    requires
        w > 0,
        vs.len() % w == 0,
    ensures
        transposed(transposed(vs, w), vs.len() / w) == vs,
{
    let n = vs.len() as int;
    let wi = w as int;
    let h = n / wi;
    lemma_fundamental_div_mod(n, wi);
    assert(n == h * wi) by (nonlinear_arith)
        requires
            n == wi * (n / wi) + n % wi,
            n % wi == 0,
            h == n / wi,
    ;
    let t = transposed(vs, w);
    if n > 0 {
        assert(h > 0) by (nonlinear_arith)
            requires
                n == h * wi,
                n > 0,
                wi > 0,
        ;
        assert(n / h == wi) by {
            lemma_fundamental_div_mod_converse(n, h, wi, 0);
        }
        let t2 = transposed(t, h as nat);
        assert forall|k: int| 0 <= k < n implies t2[k] == vs[k] by {
            let q = k / wi;
            let r = k % wi;
            assert(0 <= r < wi) by (nonlinear_arith)
                requires
                    wi > 0,
                    r == k % wi,
            ;
            assert(0 <= q < h) by (nonlinear_arith)
                requires
                    wi > 0,
                    h > 0,
                    0 <= k < n,
                    n == h * wi,
                    q == k / wi,
            ;
            lemma_fundamental_div_mod(k, wi);
            let j = r * h + q;
            assert(0 <= j < n) by (nonlinear_arith)
                requires
                    0 <= r < wi,
                    0 <= q < h,
                    n == h * wi,
                    j == r * h + q,
            ;
            lemma_fundamental_div_mod_converse(j, h, r, q);
            assert(t2[k] == t[j]);
            assert(t[j] == vs[q * wi + r]);
            assert(q * wi + r == k) by (nonlinear_arith)
                requires
                    k == wi * q + r,
            ;
        }
    }
    assert(transposed(t, (n / wi) as nat) =~= vs);
}

/// A matrix shape's transposition is undone by that of the shape it gives.
pub proof fn lemma_transpose_shape_twice(shape: UniformShape)
    ensures
        transpose_spec(shape) matches Some((w, s2)) ==> (transpose_spec(s2) matches Some((w2, s3))
            && s3 == shape && w2 == shape_len(shape) / w && shape_len(s2) == shape_len(shape)
            && shape_len(shape) % w == 0),
{
    match shape {
        UniformShape::Mat2 => {
            assert(4nat % 2 == 0 && 4nat / 2 == 2);
        },
        UniformShape::Mat3 => {
            assert(9nat % 3 == 0 && 9nat / 3 == 3);
        },
        UniformShape::Mat4 => {
            assert(16nat % 4 == 0 && 16nat / 4 == 4);
        },
        UniformShape::Mat2x3 => {
            assert(6nat % 3 == 0 && 6nat / 3 == 2);
        },
        UniformShape::Mat3x2 => {
            assert(6nat % 2 == 0 && 6nat / 2 == 3);
        },
        UniformShape::Mat2x4 => {
            assert(8nat % 4 == 0 && 8nat / 4 == 2);
        },
        UniformShape::Mat4x2 => {
            assert(8nat % 2 == 0 && 8nat / 2 == 4);
        },
        UniformShape::Mat3x4 => {
            assert(12nat % 4 == 0 && 12nat / 4 == 3);
        },
        UniformShape::Mat4x3 => {
            assert(12nat % 3 == 0 && 12nat / 3 == 4);
        },
        _ => {},
    }
}

} // verus!
