//! The description of one render stage: what a stage's YAML object says
//! about its render target, uniforms, blending, shaders and draw parameters.
//!
//! A [`StageLoader`] reads a stage in steps: its header (target, uniforms,
//! blend mode), then its shader fields one at a time, handing out each
//! shader file for the caller to read before the next field is looked at,
//! so that the first fault reported is the first one met while reading the
//! description from top to bottom. Expanding and compiling the shaders
//! come next, then [`StageConfig::finish`] reads the draw parameters.
use vstd::prelude::*;
use crate::text::{chars_of, string_of, str_eq};
use crate::texture::{TextureBuilder, TextureError, parse_spec, min_filter_for};
use crate::yaml::{Yaml, YamlNumber};
use crate::uniform::{Uniform, UniformError, UniformShape, uniform_spec, transpose_spec, transposed};

verus! {

pub const GL_ZERO: u32 = 0;
pub const GL_ONE: u32 = 1;
pub const GL_SRC_COLOR: u32 = 0x0300;
pub const GL_ONE_MINUS_SRC_COLOR: u32 = 0x0301;
pub const GL_SRC_ALPHA: u32 = 0x0302;
pub const GL_ONE_MINUS_SRC_ALPHA: u32 = 0x0303;
pub const GL_DST_ALPHA: u32 = 0x0304;
pub const GL_ONE_MINUS_DST_ALPHA: u32 = 0x0305;
pub const GL_DST_COLOR: u32 = 0x0306;
pub const GL_ONE_MINUS_DST_COLOR: u32 = 0x0307;
pub const GL_SRC_ALPHA_SATURATE: u32 = 0x0308;
pub const GL_CONSTANT_COLOR: u32 = 0x8001;
pub const GL_ONE_MINUS_CONSTANT_COLOR: u32 = 0x8002;
pub const GL_CONSTANT_ALPHA: u32 = 0x8003;
pub const GL_ONE_MINUS_CONSTANT_ALPHA: u32 = 0x8004;
pub const GL_SRC1_ALPHA: u32 = 0x8589;
pub const GL_SRC1_COLOR: u32 = 0x88F9;
pub const GL_ONE_MINUS_SRC1_COLOR: u32 = 0x88FA;
pub const GL_ONE_MINUS_SRC1_ALPHA: u32 = 0x88FB;

pub const GL_POINTS: u32 = 0x0000;
pub const GL_LINES: u32 = 0x0001;
pub const GL_LINE_LOOP: u32 = 0x0002;
pub const GL_LINE_STRIP: u32 = 0x0003;
pub const GL_TRIANGLES: u32 = 0x0004;
pub const GL_TRIANGLE_STRIP: u32 = 0x0005;
pub const GL_TRIANGLE_FAN: u32 = 0x0006;

/// The number of vertices drawn when a vertex stage gives no `count`.
pub const DEFAULT_VERTEX_COUNT: i32 = 2000;

/// The largest work group count that OpenGL must allow in each dimension.
pub const MAX_DISPATCH: i64 = 65535;

/// The bits of the `f64` number one, the line width when none is given.
pub const ONE_F64_BITS: u64 = 0x3FF0_0000_0000_0000;

/// The bits of the `f64` positive infinity.
pub const INFINITY_F64_BITS: u64 = 0x7FF0_0000_0000_0000;

/// Why a stage description was refused.
#[derive(Debug, Clone, Copy, PartialEq, Eq)]
pub enum StageError {
    /// The `target` field is not a string.
    TargetNotString,
    /// The blend mode is a list, but not one of two strings.
    BlendNotTwoStrings,
    /// A blend factor has an unknown name.
    BlendFactorUnknown,
    /// The blend mode is a single string (a named preset).
    BlendPresetUnsupported,
    /// The blend mode is neither a list nor a string.
    BlendInvalid,
    /// A shader field (`vs`, `fs` or `cs`) is not a file name.
    ShaderNotFilename,
    /// The shader fields present form none of the supported combinations.
    InvalidShaderConfiguration,
    /// The vertex `count` is not an unsigned integer.
    VertexCountNotUnsigned,
    /// The vertex `mode` is not the name of a primitive type.
    VertexModeInvalid,
    /// The line width is not a positive number.
    ThicknessNotPositive,
    /// The texture description of the stage was refused.
    Texture(TextureError),
    /// The resolution of a fragment or vertex stage is not two-dimensional.
    ResolutionNot2D,
    /// The dispatch size has this many elements, not one to three.
    DispatchLength(usize),
    /// An element of the dispatch size is above the limit.
    DispatchTooLarge(i64),
    /// An element of the dispatch size is not a positive integer.
    DispatchNotPositive,
    /// The dispatch size is not a list.
    DispatchNotList,
    /// A compute stage gives no dispatch size.
    DispatchMissing,
    /// A compute stage gives no resolution.
    ResolutionMissing,
    /// A compute stage gives no render target.
    TargetMissing,
}

/// The three shader fields of a stage.
#[derive(Debug, Clone, Copy, PartialEq, Eq)]
pub enum ShaderField {
    Vertex,
    Fragment,
    Compute,
}

/// Which shaders make up a stage.
#[derive(Debug, Clone, Copy, PartialEq, Eq)]
pub enum ShaderSetup {
    /// A fragment shader run over the whole screen.
    Fragment,
    /// A vertex shader, with a fragment shader or the pass-through one.
    Vertex,
    /// A compute shader.
    Compute,
}

/// What a stage draws or dispatches.
#[derive(Debug, Clone, Copy, PartialEq, Eq)]
pub enum StageKind {
    Comp { dispatch: [u32; 3] },
    Vert { count: i32, mode: u32, thickness: YamlNumber },
    Frag,
}

/// The settings of a stage, apart from its shaders and uniforms.
#[derive(Debug, Clone)]
pub struct StageConfig {
    pub target: Option<String>,
    pub blend: Option<(u32, u32)>,
    pub kind: StageKind,
    pub builder: TextureBuilder,
}

/// No character of `s` is the NUL character.
pub open spec fn no_nul(s: Seq<char>) -> bool {
    forall|i: int| 0 <= i < s.len() ==> s[i] != '\0'
}

/// The number of bytes of the UTF-8 encoding of `c`.
pub open spec fn utf8_len(c: char) -> nat {
    if (c as u32) < 0x80 {
        1
    } else if (c as u32) < 0x800 {
        2
    } else if (c as u32) < 0x10000 {
        3
    } else {
        4
    }
}

/// The number of bytes of the UTF-8 encoding of `s`.
pub open spec fn byte_len(s: Seq<char>) -> nat
    decreases s.len(),
{
    if s.len() == 0 {
        0
    } else {
        byte_len(s.drop_last()) + utf8_len(s.last())
    }
}

/// Splitting `s` two bytes before its end, as the suffix check of a uniform
/// name does once the name is longer than two bytes, falls on a character
/// boundary.
pub open spec fn suffix_split_ok(s: Seq<char>) -> bool {
    byte_len(s) <= 2 || (s.len() >= 1 && utf8_len(s.last()) == 2) || (s.len() >= 2 && utf8_len(
        s.last(),
    ) == 1 && utf8_len(s[s.len() - 2]) == 1)
}

/// Whether `s` ends in a transpose marker (`_t`, `-t`, `^t`, or the same
/// with `T`) that follows at least one other character.
pub open spec fn has_transpose_suffix(s: Seq<char>) -> bool {
    &&& s.len() > 2
    &&& (s[s.len() - 2] == '_' || s[s.len() - 2] == '-' || s[s.len() - 2] == '^')
    &&& (s[s.len() - 1] == 't' || s[s.len() - 1] == 'T')
}

/// The name a uniform key gives, and whether the value is to be transposed.
pub open spec fn uniform_name_spec(s: Seq<char>) -> (Seq<char>, bool) {
    if has_transpose_suffix(s) {
        (s.subrange(0, s.len() - 2), true)
    } else {
        (s, false)
    }
}

/// The `target` field: absent, or a string.
pub open spec fn target_spec(o: Yaml) -> Result<Option<Seq<char>>, StageError> {
    match o.lookup("target"@) {
        None => Ok(None),
        Some(Yaml::String(s)) => Ok(Some(s@)),
        Some(_) => Err(StageError::TargetNotString),
    }
}

/// The GL value of a blend factor's name.
pub open spec fn blend_factor_spec(name: Seq<char>) -> Option<u32> {
    if name == "ZERO"@ {
        Some(GL_ZERO)
    } else if name == "ONE"@ {
        Some(GL_ONE)
    } else if name == "SRC_COLOR"@ {
        Some(GL_SRC_COLOR)
    } else if name == "DST_COLOR"@ {
        Some(GL_DST_COLOR)
    } else if name == "SRC_ALPHA"@ {
        Some(GL_SRC_ALPHA)
    } else if name == "DST_ALPHA"@ {
        Some(GL_DST_ALPHA)
    } else if name == "SRC1_COLOR"@ {
        Some(GL_SRC1_COLOR)
    } else if name == "SRC1_ALPHA"@ {
        Some(GL_SRC1_ALPHA)
    } else if name == "CONSTANT_COLOR"@ {
        Some(GL_CONSTANT_COLOR)
    } else if name == "CONSTANT_ALPHA"@ {
        Some(GL_CONSTANT_ALPHA)
    } else if name == "SRC_ALPHA_SATURATE"@ {
        Some(GL_SRC_ALPHA_SATURATE)
    } else if name == "ONE_MINUS_SRC_COLOR"@ {
        Some(GL_ONE_MINUS_SRC_COLOR)
    } else if name == "ONE_MINUS_DST_COLOR"@ {
        Some(GL_ONE_MINUS_DST_COLOR)
    } else if name == "ONE_MINUS_SRC_ALPHA"@ {
        Some(GL_ONE_MINUS_SRC_ALPHA)
    } else if name == "ONE_MINUS_DST_ALPHA"@ {
        Some(GL_ONE_MINUS_DST_ALPHA)
    } else if name == "ONE_MINUS_SRC1_COLOR"@ {
        Some(GL_ONE_MINUS_SRC1_COLOR)
    } else if name == "ONE_MINUS_SRC1_ALPHA"@ {
        Some(GL_ONE_MINUS_SRC1_ALPHA)
    } else if name == "ONE_MINUS_CONSTANT_COLOR"@ {
        Some(GL_ONE_MINUS_CONSTANT_COLOR)
    } else if name == "ONE_MINUS_CONSTANT_ALPHA"@ {
        Some(GL_ONE_MINUS_CONSTANT_ALPHA)
    } else {
        None
    }
}

/// The blend field: `blend_mode`, or else `blend`.
pub open spec fn blend_field(o: Yaml) -> Option<Yaml> {
    match o.lookup("blend_mode"@) {
        Some(v) => Some(v),
        None => o.lookup("blend"@),
    }
}

/// The blend mode: absent, or a list of a source and a destination factor.
pub open spec fn blend_spec(o: Yaml) -> Result<Option<(u32, u32)>, StageError> {
    match blend_field(o) {
        None => Ok(None),
        Some(Yaml::Sequence(s)) => if s@.len() == 2 && s@[0] is String && s@[1] is String {
            match (blend_factor_spec(s@[0]->String_0@), blend_factor_spec(s@[1]->String_0@)) {
                (Some(src), Some(dst)) => Ok(Some((src, dst))),
                _ => Err(StageError::BlendFactorUnknown),
            }
        } else {
            Err(StageError::BlendNotTwoStrings)
        },
        Some(Yaml::String(_)) => Err(StageError::BlendPresetUnsupported),
        Some(_) => Err(StageError::BlendInvalid),
    }
}

/// The key under which a shader's file name is given.
pub open spec fn shader_key(field: ShaderField) -> Seq<char> {
    match field {
        ShaderField::Vertex => "vs"@,
        ShaderField::Fragment => "fs"@,
        ShaderField::Compute => "cs"@,
    }
}

/// A shader field: absent, or a file name.
pub open spec fn shader_file_spec(o: Yaml, field: ShaderField) -> Result<
    Option<Seq<char>>,
    StageError,
> {
    match o.lookup(shader_key(field)) {
        None => Ok(None),
        Some(Yaml::String(s)) => Ok(Some(s@)),
        Some(_) => Err(StageError::ShaderNotFilename),
    }
}

/// Which combination of shaders the present fields form.
pub open spec fn setup_spec(vs: bool, fs: bool, cs: bool) -> Result<ShaderSetup, StageError> {
    if !vs && fs && !cs {
        Ok(ShaderSetup::Fragment)
    } else if vs && !cs {
        Ok(ShaderSetup::Vertex)
    } else if !vs && !fs && cs {
        Ok(ShaderSetup::Compute)
    } else {
        Err(StageError::InvalidShaderConfiguration)
    }
}

/// The number of vertices: 2000 when absent, else an unsigned integer
/// (taken modulo 2^32 as a signed 32-bit count).
pub open spec fn count_spec(o: Yaml) -> Result<i32, StageError> {
    match o.lookup("count"@) {
        None => Ok(DEFAULT_VERTEX_COUNT),
        Some(v) => match v.u64_of() {
            Some(n) => Ok(n as i32),
            None => Err(StageError::VertexCountNotUnsigned),
        },
    }
}

/// The GL primitive type of a vertex mode's name.
pub open spec fn mode_value(name: Seq<char>) -> Option<u32> {
    if name == "LINE_LOOP"@ {
        Some(GL_LINE_LOOP)
    } else if name == "LINE_STRIP"@ {
        Some(GL_LINE_STRIP)
    } else if name == "LINES"@ {
        Some(GL_LINES)
    } else if name == "POINTS"@ {
        Some(GL_POINTS)
    } else if name == "TRIANGLE_FAN"@ {
        Some(GL_TRIANGLE_FAN)
    } else if name == "TRIANGLE_STRIP"@ {
        Some(GL_TRIANGLE_STRIP)
    } else if name == "TRIANGLES"@ {
        Some(GL_TRIANGLES)
    } else {
        None
    }
}

/// A vertex stage that gives no count draws 2000 vertices, and one that
/// gives no mode draws points (0).
pub proof fn lemma_vertex_defaults(o: Yaml)
    ensures
        o.lookup("count"@) is None ==> count_spec(o) == Ok::<i32, StageError>(2000i32),
        o.lookup("mode"@) is None ==> mode_spec(o) == Ok::<u32, StageError>(0x0000u32),
{
}

/// Each vertex mode name stands for the OpenGL primitive of the same name
/// (POINTS 0, LINES 1, LINE_LOOP 2, LINE_STRIP 3, TRIANGLES 4,
/// TRIANGLE_STRIP 5, TRIANGLE_FAN 6); no other name is a mode, and no two
/// names stand for the same primitive.
pub proof fn lemma_vertex_mode_names()
    ensures
        mode_value("POINTS"@) == Some(0x0000u32),
        mode_value("LINES"@) == Some(0x0001u32),
        mode_value("LINE_LOOP"@) == Some(0x0002u32),
        mode_value("LINE_STRIP"@) == Some(0x0003u32),
        mode_value("TRIANGLES"@) == Some(0x0004u32),
        mode_value("TRIANGLE_STRIP"@) == Some(0x0005u32),
        mode_value("TRIANGLE_FAN"@) == Some(0x0006u32),
        forall|a: Seq<char>| #[trigger] mode_value(a) is Some ==> a == "POINTS"@ || a == "LINES"@
            || a == "LINE_LOOP"@ || a == "LINE_STRIP"@ || a == "TRIANGLES"@ || a
            == "TRIANGLE_STRIP"@ || a == "TRIANGLE_FAN"@,
        forall|a: Seq<char>, b: Seq<char>|
            #![trigger mode_value(a), mode_value(b)]
            mode_value(a) is Some && mode_value(a) == mode_value(b) ==> a == b,
{
    reveal_strlit("POINTS");
    reveal_strlit("LINES");
    reveal_strlit("LINE_LOOP");
    reveal_strlit("LINE_STRIP");
    reveal_strlit("TRIANGLES");
    reveal_strlit("TRIANGLE_STRIP");
    reveal_strlit("TRIANGLE_FAN");
    assert("LINES"@ != "LINE_LOOP"@ && "LINES"@ != "LINE_STRIP"@ && "LINES"@ != "POINTS"@) by {
        assert("LINES"@.len() != "LINE_LOOP"@.len());
        assert("LINES"@.len() != "LINE_STRIP"@.len());
        assert("LINES"@[0] != "POINTS"@[0]);
    }
    assert("LINE_STRIP"@ != "LINE_LOOP"@) by {
        assert("LINE_STRIP"@.len() != "LINE_LOOP"@.len());
    }
    assert("POINTS"@ != "LINE_LOOP"@ && "POINTS"@ != "LINE_STRIP"@) by {
        assert("POINTS"@[0] != "LINE_LOOP"@[0]);
    }
    assert("TRIANGLES"@ != "LINE_LOOP"@ && "TRIANGLES"@ != "LINE_STRIP"@ && "TRIANGLES"@
        != "LINES"@ && "TRIANGLES"@ != "POINTS"@ && "TRIANGLES"@ != "TRIANGLE_FAN"@
        && "TRIANGLES"@ != "TRIANGLE_STRIP"@) by {
        assert("TRIANGLES"@[0] != "LINE_LOOP"@[0]);
        assert("TRIANGLES"@[0] != "POINTS"@[0]);
        assert("TRIANGLES"@.len() != "TRIANGLE_FAN"@.len());
        assert("TRIANGLES"@.len() != "TRIANGLE_STRIP"@.len());
    }
    assert("TRIANGLE_STRIP"@ != "LINE_LOOP"@ && "TRIANGLE_STRIP"@ != "LINE_STRIP"@
        && "TRIANGLE_STRIP"@ != "LINES"@ && "TRIANGLE_STRIP"@ != "POINTS"@ && "TRIANGLE_STRIP"@
        != "TRIANGLE_FAN"@) by {
        assert("TRIANGLE_STRIP"@[0] != "LINE_LOOP"@[0]);
        assert("TRIANGLE_STRIP"@[0] != "POINTS"@[0]);
        assert("TRIANGLE_STRIP"@.len() != "TRIANGLE_FAN"@.len());
    }
    assert("TRIANGLE_FAN"@ != "LINE_LOOP"@ && "TRIANGLE_FAN"@ != "LINE_STRIP"@ && "TRIANGLE_FAN"@
        != "LINES"@ && "TRIANGLE_FAN"@ != "POINTS"@) by {
        assert("TRIANGLE_FAN"@[0] != "LINE_LOOP"@[0]);
        assert("TRIANGLE_FAN"@[0] != "POINTS"@[0]);
    }
}

/// The primitive type: points when absent, else a mode's name.
pub open spec fn mode_spec(o: Yaml) -> Result<u32, StageError> {
    match o.lookup("mode"@) {
        None => Ok(GL_POINTS),
        Some(v) => match v.string_of() {
            Some(s) => match mode_value(s) {
                Some(m) => Ok(m),
                None => Err(StageError::VertexModeInvalid),
            },
            None => Err(StageError::VertexModeInvalid),
        },
    }
}

/// The first present of the line width fields.
pub open spec fn thickness_field(o: Yaml) -> Option<Yaml> {
    match o.lookup("thickness"@) {
        Some(v) => Some(v),
        None => match o.lookup("stroke_weight"@) {
            Some(v) => Some(v),
            None => match o.lookup("point_size"@) {
                Some(v) => Some(v),
                None => o.lookup("line_width"@),
            },
        },
    }
}

/// Whether a number read as an `f64` is greater than zero: a positive
/// integer, or a float whose sign bit is clear and that is neither zero nor
/// a NaN.
pub open spec fn number_positive(n: YamlNumber) -> bool {
    match n {
        YamlNumber::PosInt(k) => k > 0,
        YamlNumber::NegInt(_) => false,
        YamlNumber::Float(bits) => 0 < bits <= INFINITY_F64_BITS,
    }
}

/// The value as a number, if it is one.
pub open spec fn number_of(v: Yaml) -> Option<YamlNumber> {
    match v.untagged() {
        Yaml::Number(n) => Some(n),
        _ => None,
    }
}

/// The line width: one when absent, else a positive number.
pub open spec fn thickness_spec(o: Yaml) -> Result<YamlNumber, StageError> {
    match thickness_field(o) {
        None => Ok(YamlNumber::Float(ONE_F64_BITS)),
        Some(v) => match number_of(v) {
            Some(n) => if number_positive(n) {
                Ok(n)
            } else {
                Err(StageError::ThicknessNotPositive)
            },
            None => Err(StageError::ThicknessNotPositive),
        },
    }
}

/// The dispatch field: `dispatch_size`, or else `dispatch`.
pub open spec fn dispatch_field(o: Yaml) -> Option<Yaml> {
    match o.lookup("dispatch_size"@) {
        Some(v) => Some(v),
        None => o.lookup("dispatch"@),
    }
}

/// The dispatch dimensions from the `i`-th on appended to `acc`, each a
/// positive integer no larger than the limit.
pub open spec fn dispatch_dims(dims: Seq<Yaml>, i: int, acc: Seq<u32>) -> Result<
    Seq<u32>,
    StageError,
>
    decreases dims.len() - i,
{
    if i < 0 || i >= dims.len() {
        Ok(acc)
    } else {
        match dims[i].i64_of() {
            Some(n) => if n <= 0 {
                Err(StageError::DispatchNotPositive)
            } else if n > MAX_DISPATCH {
                Err(StageError::DispatchTooLarge(n))
            } else {
                dispatch_dims(dims, i + 1, acc.push(n as u32))
            },
            None => Err(StageError::DispatchNotPositive),
        }
    }
}

/// Up to three dimensions, padded with ones to three.
pub open spec fn pad3(d: Seq<u32>) -> Seq<u32> {
    Seq::new(3, |i: int| if i < d.len() { d[i] } else { 1u32 })
}

/// The work group counts of a compute stage, padded with ones.
pub open spec fn dispatch_spec(o: Yaml) -> Result<Seq<u32>, StageError> {
    match dispatch_field(o) {
        None => Err(StageError::DispatchMissing),
        Some(Yaml::Sequence(d)) => if d@.len() == 0 || d@.len() > 3 {
            Err(StageError::DispatchLength(d@.len() as usize))
        } else {
            match dispatch_dims(d@, 0, seq![]) {
                Ok(v) => Ok(pad3(v)),
                Err(e) => Err(e),
            }
        },
        Some(_) => Err(StageError::DispatchNotList),
    }
}

/// A resolution that is absent or two-dimensional.
pub open spec fn none_or_2d(res: Seq<u32>) -> bool {
    res.len() == 0 || res.len() == 2
}

/// The builder is the one that `parse_spec` describes.
pub open spec fn builder_matches(
    b: TextureBuilder,
    o: Yaml,
    support_res: bool,
    support_mipmap: bool,
) -> bool {
    match parse_spec(o, support_res, support_mipmap) {
        Ok((res, mip, wrap, mag, float)) => {
            &&& b.resolution@ == res
            &&& b.mipmap == mip
            &&& b.wrap_mode == wrap
            &&& b.mag_filter == mag
            &&& b.min_filter == min_filter_for(mag, mip)
            &&& b.float == float
            &&& b.channels == 4
        },
        Err(_) => false,
    }
}

/// The texture error of a description, if it has one.
pub open spec fn texture_error(o: Yaml, support_res: bool, support_mipmap: bool) -> Option<
    TextureError,
> {
    match parse_spec(o, support_res, support_mipmap) {
        Ok(_) => None,
        Err(e) => Some(e),
    }
}

/// The draw parameters of a stage and the resolution of its texture, given
/// its shaders and whether it names a target; the faults in the order the
/// stage's settings are read.
pub open spec fn kind_ok(o: Yaml, setup: ShaderSetup, has_target: bool, kind: StageKind, b: TextureBuilder) -> bool {
    match setup {
        ShaderSetup::Fragment => {
            &&& kind == StageKind::Frag
            &&& builder_matches(b, o, true, true)
            &&& none_or_2d(b.resolution@)
        },
        ShaderSetup::Vertex => {
            &&& count_spec(o) matches Ok(c)
            &&& mode_spec(o) matches Ok(m)
            &&& thickness_spec(o) matches Ok(t)
            &&& kind == (StageKind::Vert { count: c, mode: m, thickness: t })
            &&& builder_matches(b, o, true, true)
            &&& none_or_2d(b.resolution@)
        },
        ShaderSetup::Compute => {
            &&& dispatch_spec(o) matches Ok(d)
            &&& kind matches StageKind::Comp { dispatch } && dispatch@ == d
            &&& builder_matches(b, o, true, false)
            &&& b.resolution@.len() > 0
            &&& has_target
        },
    }
}

/// The fault of a stage's draw parameters, if any, as `kind_ok` reads them.
pub open spec fn kind_error(o: Yaml, setup: ShaderSetup, has_target: bool) -> Option<StageError> {
    match setup {
        ShaderSetup::Fragment => match parse_spec(o, true, true) {
            Err(e) => Some(StageError::Texture(e)),
            Ok((res, _, _, _, _)) => if none_or_2d(res) {
                None
            } else {
                Some(StageError::ResolutionNot2D)
            },
        },
        ShaderSetup::Vertex => match count_spec(o) {
            Err(e) => Some(e),
            Ok(_) => match mode_spec(o) {
                Err(e) => Some(e),
                Ok(_) => match thickness_spec(o) {
                    Err(e) => Some(e),
                    Ok(_) => match parse_spec(o, true, true) {
                        Err(e) => Some(StageError::Texture(e)),
                        Ok((res, _, _, _, _)) => if none_or_2d(res) {
                            None
                        } else {
                            Some(StageError::ResolutionNot2D)
                        },
                    },
                },
            },
        },
        ShaderSetup::Compute => match dispatch_spec(o) {
            Err(e) => Some(e),
            Ok(_) => match parse_spec(o, true, false) {
                Err(e) => Some(StageError::Texture(e)),
                Ok((res, _, _, _, _)) => if res.len() == 0 {
                    Some(StageError::ResolutionMissing)
                } else if !has_target {
                    Some(StageError::TargetMissing)
                } else {
                    None
                },
            },
        },
    }
}

impl StageConfig {
    /// A compute stage has a resolution of one to three dimensions; any
    /// other stage has none or two; the texture has one to four channels.
    pub open spec fn wf(self) -> bool {
        &&& (self.kind is Comp ==> 1 <= self.builder.resolution@.len() <= 3)
        &&& (!(self.kind is Comp) ==> none_or_2d(self.builder.resolution@))
        &&& 1 <= self.builder.channels <= 4
    }
}

proof fn lemma_dims_len(dims: Seq<Yaml>, i: int, acc: Seq<u32>)
    requires
        0 <= i <= dims.len(),
    ensures
        crate::texture::dims_result(dims, i, acc) matches Ok(v) ==> v.len() == acc.len() + dims.len()
            - i,
    decreases dims.len() - i,
{
    if i < dims.len() {
        match dims[i].u64_of() {
            Some(n) => {
                if n != 0 {
                    lemma_dims_len(dims, i + 1, acc.push(n as u32));
                }
            },
            None => {},
        }
    }
}

/// A parsed resolution has at most three dimensions.
proof fn lemma_resolution_len(o: Yaml, support_res: bool, support_mipmap: bool)
    ensures
        parse_spec(o, support_res, support_mipmap) matches Ok((res, _, _, _, _)) ==> res.len() <= 3,
{
    match if support_res { crate::texture::resolution_field(o) } else { None } {
        Some(Yaml::Sequence(d)) => {
            lemma_dims_len(d@, 0, seq![]);
        },
        _ => {},
    }
}

/// The size of a stage's texture as three dimensions, unused ones zero.
pub open spec fn resolution3(res: Seq<u32>) -> Option<Seq<u32>> {
    if res.len() == 1 {
        Some(seq![res[0], 0u32, 0u32])
    } else if res.len() == 2 {
        Some(seq![res[0], res[1], 0u32])
    } else if res.len() == 3 {
        Some(seq![res[0], res[1], res[2]])
    } else {
        None
    }
}

} // verus!

verus! {

/// The render target of a stage, if it names one.
pub fn parse_target(object: &Yaml) -> (r: Result<Option<String>, StageError>)
    requires
        object.lookup("target"@) matches Some(Yaml::String(s)) ==> no_nul(s@),
    ensures
        match target_spec(*object) {
            Ok(None) => r matches Ok(None),
            Ok(Some(t)) => r matches Ok(Some(x)) && x@ == t,
            Err(e) => r matches Err(e2) && e2 == e,
        },
{
    match object.get("target") {
        None => Ok(None),
        Some(Yaml::String(s)) => Ok(Some(s.clone())),
        Some(_) => Err(StageError::TargetNotString),
    }
}

/// The name of a uniform given by a key of the `uniforms` mapping, and
/// whether its value is to be transposed: a key ending in `_t`, `-t` or
/// `^t` (or the same with `T`), after at least one other character, names
/// the uniform before that marker, transposed.
pub fn uniform_name(key: &Yaml) -> (r: Result<(String, bool), UniformsError>)
    requires
        key.string_of() matches Some(s) ==> no_nul(s) && suffix_split_ok(s),
    ensures
        match key.string_of() {
            Some(s) => r matches Ok((name, t)) && (name@, t) == uniform_name_spec(s),
            None => r matches Err(e) && e == UniformsError::NameNotString,
        },
{
    let s = match key.as_str() {
        Some(s) => s,
        None => {
            return Err(UniformsError::NameNotString);
        },
    };
    let c = chars_of(s);
    let n = c.len();
    if n > 2 {
        let a = c[n - 2];
        let b = c[n - 1];
        if (a == '_' || a == '-' || a == '^') && (b == 't' || b == 'T') {
            let mut prefix: Vec<char> = Vec::new();
            let mut i: usize = 0;
            while i < n - 2
                invariant
                    n == c@.len(),
                    n > 2,
                    i <= n - 2,
                    prefix@ == c@.subrange(0, i as int),
                decreases n - 2 - i,
            {
                prefix.push(c[i]);
                assert(prefix@ =~= c@.subrange(0, i + 1));
                i = i + 1;
            }
            return Ok((string_of(prefix.as_slice()), true));
        }
    }
    Ok((string_of(c.as_slice()), false))
}

/// The GL value of a blend factor's name.
pub fn blend_factor(name: &str) -> (r: Option<u32>)
    ensures
        r == blend_factor_spec(name@),
{
    if str_eq(name, "ZERO") {
        Some(GL_ZERO)
    } else if str_eq(name, "ONE") {
        Some(GL_ONE)
    } else if str_eq(name, "SRC_COLOR") {
        Some(GL_SRC_COLOR)
    } else if str_eq(name, "DST_COLOR") {
        Some(GL_DST_COLOR)
    } else if str_eq(name, "SRC_ALPHA") {
        Some(GL_SRC_ALPHA)
    } else if str_eq(name, "DST_ALPHA") {
        Some(GL_DST_ALPHA)
    } else if str_eq(name, "SRC1_COLOR") {
        Some(GL_SRC1_COLOR)
    } else if str_eq(name, "SRC1_ALPHA") {
        Some(GL_SRC1_ALPHA)
    } else if str_eq(name, "CONSTANT_COLOR") {
        Some(GL_CONSTANT_COLOR)
    } else if str_eq(name, "CONSTANT_ALPHA") {
        Some(GL_CONSTANT_ALPHA)
    } else if str_eq(name, "SRC_ALPHA_SATURATE") {
        Some(GL_SRC_ALPHA_SATURATE)
    } else if str_eq(name, "ONE_MINUS_SRC_COLOR") {
        Some(GL_ONE_MINUS_SRC_COLOR)
    } else if str_eq(name, "ONE_MINUS_DST_COLOR") {
        Some(GL_ONE_MINUS_DST_COLOR)
    } else if str_eq(name, "ONE_MINUS_SRC_ALPHA") {
        Some(GL_ONE_MINUS_SRC_ALPHA)
    } else if str_eq(name, "ONE_MINUS_DST_ALPHA") {
        Some(GL_ONE_MINUS_DST_ALPHA)
    } else if str_eq(name, "ONE_MINUS_SRC1_COLOR") {
        Some(GL_ONE_MINUS_SRC1_COLOR)
    } else if str_eq(name, "ONE_MINUS_SRC1_ALPHA") {
        Some(GL_ONE_MINUS_SRC1_ALPHA)
    } else if str_eq(name, "ONE_MINUS_CONSTANT_COLOR") {
        Some(GL_ONE_MINUS_CONSTANT_COLOR)
    } else if str_eq(name, "ONE_MINUS_CONSTANT_ALPHA") {
        Some(GL_ONE_MINUS_CONSTANT_ALPHA)
    } else {
        None
    }
}

/// The blend mode of a stage: absent, or a list of the source factor's and
/// the destination factor's names.
pub fn parse_blend(object: &Yaml) -> (r: Result<Option<(u32, u32)>, StageError>)
    ensures
        match blend_spec(*object) {
            Ok(b) => r matches Ok(b2) && b2 == b,
            Err(e) => r matches Err(e2) && e2 == e,
        },
{
    let field = match object.get("blend_mode") {
        Some(v) => Some(v),
        None => object.get("blend"),
    };
    match field {
        None => Ok(None),
        Some(Yaml::Sequence(s)) => {
            if s.len() != 2 {
                return Err(StageError::BlendNotTwoStrings);
            }
            match (&s[0], &s[1]) {
                (Yaml::String(src), Yaml::String(dst)) => {
                    let a = blend_factor(src.as_str());
                    let b = blend_factor(dst.as_str());
                    match (a, b) {
                        (Some(x), Some(y)) => Ok(Some((x, y))),
                        _ => Err(StageError::BlendFactorUnknown),
                    }
                },
                _ => Err(StageError::BlendNotTwoStrings),
            }
        },
        Some(Yaml::String(_)) => Err(StageError::BlendPresetUnsupported),
        Some(_) => Err(StageError::BlendInvalid),
    }
}

/// The file name given for one of a stage's shaders, if any.
pub fn shader_file(object: &Yaml, field: ShaderField) -> (r: Result<Option<String>, StageError>)
    ensures
        match shader_file_spec(*object, field) {
            Ok(None) => r matches Ok(None),
            Ok(Some(f)) => r matches Ok(Some(x)) && x@ == f,
            Err(e) => r matches Err(e2) && e2 == e,
        },
{
    let v = match field {
        ShaderField::Vertex => object.get("vs"),
        ShaderField::Fragment => object.get("fs"),
        ShaderField::Compute => object.get("cs"),
    };
    match v {
        None => Ok(None),
        Some(Yaml::String(s)) => Ok(Some(s.clone())),
        Some(_) => Err(StageError::ShaderNotFilename),
    }
}

/// Which kind of stage the given shaders make: a fragment shader alone, a
/// vertex shader with or without a fragment shader, or a compute shader
/// alone.
pub fn shader_setup(vs: bool, fs: bool, cs: bool) -> (r: Result<ShaderSetup, StageError>)
    ensures
        r == setup_spec(vs, fs, cs),
{
    if !vs && fs && !cs {
        Ok(ShaderSetup::Fragment)
    } else if vs && !cs {
        Ok(ShaderSetup::Vertex)
    } else if !vs && !fs && cs {
        Ok(ShaderSetup::Compute)
    } else {
        Err(StageError::InvalidShaderConfiguration)
    }
}

/// The GL primitive type of a vertex mode's name.
pub fn vertex_mode(name: &str) -> (r: Option<u32>)
    ensures
        r == mode_value(name@),
{
    if str_eq(name, "LINE_LOOP") {
        Some(GL_LINE_LOOP)
    } else if str_eq(name, "LINE_STRIP") {
        Some(GL_LINE_STRIP)
    } else if str_eq(name, "LINES") {
        Some(GL_LINES)
    } else if str_eq(name, "POINTS") {
        Some(GL_POINTS)
    } else if str_eq(name, "TRIANGLE_FAN") {
        Some(GL_TRIANGLE_FAN)
    } else if str_eq(name, "TRIANGLE_STRIP") {
        Some(GL_TRIANGLE_STRIP)
    } else if str_eq(name, "TRIANGLES") {
        Some(GL_TRIANGLES)
    } else {
        None
    }
}

fn parse_count(o: &Yaml) -> (r: Result<i32, StageError>)
    ensures
        r == count_spec(*o),
{
    match o.get("count") {
        None => Ok(DEFAULT_VERTEX_COUNT),
        Some(v) => match v.as_u64() {
            Some(n) => Ok(n as i32),
            None => Err(StageError::VertexCountNotUnsigned),
        },
    }
}

fn parse_mode(o: &Yaml) -> (r: Result<u32, StageError>)
    ensures
        r == mode_spec(*o),
{
    match o.get("mode") {
        None => Ok(GL_POINTS),
        Some(v) => match v.as_str() {
            Some(s) => match vertex_mode(s) {
                Some(m) => Ok(m),
                None => Err(StageError::VertexModeInvalid),
            },
            None => Err(StageError::VertexModeInvalid),
        },
    }
}

fn parse_thickness(o: &Yaml) -> (r: Result<YamlNumber, StageError>)
    ensures
        r == thickness_spec(*o),
{
    let f = match o.get("thickness") {
        Some(v) => Some(v),
        None => match o.get("stroke_weight") {
            Some(v) => Some(v),
            None => match o.get("point_size") {
                Some(v) => Some(v),
                None => o.get("line_width"),
            },
        },
    };
    match f {
        None => Ok(YamlNumber::Float(ONE_F64_BITS)),
        Some(v) => match v.untag() {
            Yaml::Number(n) => {
                let positive = match *n {
                    YamlNumber::PosInt(k) => k > 0,
                    YamlNumber::NegInt(_) => false,
                    YamlNumber::Float(bits) => 0 < bits && bits <= INFINITY_F64_BITS,
                };
                if positive {
                    Ok(*n)
                } else {
                    Err(StageError::ThicknessNotPositive)
                }
            },
            _ => Err(StageError::ThicknessNotPositive),
        },
    }
}

fn parse_dispatch(o: &Yaml) -> (r: Result<[u32; 3], StageError>)
    ensures
        match dispatch_spec(*o) {
            Ok(d) => r matches Ok(a) && a@ == d,
            Err(e) => r matches Err(e2) && e2 == e,
        },
{
    let f = match o.get("dispatch_size") {
        Some(v) => Some(v),
        None => o.get("dispatch"),
    };
    match f {
        None => Err(StageError::DispatchMissing),
        Some(Yaml::Sequence(dims)) => {
            if dims.len() == 0 || dims.len() > 3 {
                return Err(StageError::DispatchLength(dims.len()));
            }
            let mut out: [u32; 3] = [1, 1, 1];
            let mut acc: Vec<u32> = Vec::new();
            let mut i: usize = 0;
            while i < dims.len()
                invariant
                    i <= dims@.len(),
                    1 <= dims@.len() <= 3,
                    acc@.len() == i,
                    dispatch_spec(*o) == (match dispatch_dims(dims@, i as int, acc@) {
                        Ok(v) => Ok(pad3(v)),
                        Err(e) => Err(e),
                    }),
                    out@ == pad3(acc@),
                decreases dims@.len() - i,
            {
                match dims[i].as_i64() {
                    Some(n) => {
                        if n <= 0 {
                            return Err(StageError::DispatchNotPositive);
                        }
                        if n > MAX_DISPATCH {
                            return Err(StageError::DispatchTooLarge(n));
                        }
                        out[i] = n as u32;
                        acc.push(n as u32);
                        assert(out@ =~= pad3(acc@));
                    },
                    None => {
                        return Err(StageError::DispatchNotPositive);
                    },
                }
                i = i + 1;
            }
            Ok(out)
        },
        Some(_) => Err(StageError::DispatchNotList),
    }
}

impl StageConfig {
    /// Completes a stage's settings once its shaders are known: the draw
    /// parameters of its kind and its texture description, checked as the
    /// kind requires (a fragment or vertex stage draws into a texture of no
    /// given size or of two dimensions; a compute stage needs a dispatch
    /// size, a resolution and a target).
    pub fn finish(
        object: &Yaml,
        setup: ShaderSetup,
        target: Option<String>,
        blend: Option<(u32, u32)>,
    ) -> (r: Result<StageConfig, StageError>)
        ensures
            match kind_error(*object, setup, target is Some) {
                Some(e) => r matches Err(e2) && e2 == e,
                None => r matches Ok(c) && c.target == target && c.blend == blend && kind_ok(
                    *object,
                    setup,
                    target is Some,
                    c.kind,
                    c.builder,
                ) && c.wf(),
            },
    {
        proof {
            lemma_resolution_len(*object, true, true);
            lemma_resolution_len(*object, true, false);
        }
        match setup {
            ShaderSetup::Fragment => {
                let builder = match TextureBuilder::parse(object, true, true) {
                    Ok(b) => b,
                    Err(e) => {
                        return Err(StageError::Texture(e));
                    },
                };
                if !(builder.resolution.len() == 0 || builder.resolution.len() == 2) {
                    return Err(StageError::ResolutionNot2D);
                }
                Ok(StageConfig { target, blend, kind: StageKind::Frag, builder })
            },
            ShaderSetup::Vertex => {
                let count = parse_count(object)?;
                let mode = parse_mode(object)?;
                let thickness = parse_thickness(object)?;
                let builder = match TextureBuilder::parse(object, true, true) {
                    Ok(b) => b,
                    Err(e) => {
                        return Err(StageError::Texture(e));
                    },
                };
                if !(builder.resolution.len() == 0 || builder.resolution.len() == 2) {
                    return Err(StageError::ResolutionNot2D);
                }
                Ok(StageConfig { target, blend, kind: StageKind::Vert { count, mode, thickness }, builder })
            },
            ShaderSetup::Compute => {
                let dispatch = match parse_dispatch(object) {
                    Ok(d) => d,
                    Err(e) => {
                        return Err(e);
                    },
                };
                let builder = match TextureBuilder::parse(object, true, false) {
                    Ok(b) => b,
                    Err(e) => {
                        return Err(StageError::Texture(e));
                    },
                };
                if builder.resolution.len() == 0 {
                    return Err(StageError::ResolutionMissing);
                }
                if target.is_none() {
                    return Err(StageError::TargetMissing);
                }
                Ok(StageConfig { target, blend, kind: StageKind::Comp { dispatch }, builder })
            },
        }
    }

    /// The size of the stage's texture as three dimensions, unused ones
    /// zero; none when the stage gives no resolution.
    pub fn resolution(&self) -> (r: Option<[u32; 3]>)
        ensures
            match resolution3(self.builder.resolution@) {
                Some(s) => r matches Some(a) && a@ == s,
                None => r is None,
            },
    {
        let res = &self.builder.resolution;
        if res.len() == 1 {
            let a = [res[0], 0, 0];
            assert(a@ =~= seq![res@[0], 0u32, 0u32]);
            Some(a)
        } else if res.len() == 2 {
            let a = [res[0], res[1], 0];
            assert(a@ =~= seq![res@[0], res@[1], 0u32]);
            Some(a)
        } else if res.len() == 3 {
            let a = [res[0], res[1], res[2]];
            assert(a@ =~= seq![res@[0], res@[1], res@[2]]);
            Some(a)
        } else {
            None
        }
    }
}

} // verus!

verus! {

/// Why the custom uniforms of a stage were refused.
#[derive(Debug, Clone, PartialEq, Eq)]
pub enum UniformsError {
    /// The `uniforms` field is neither a mapping nor a list.
    NotMapping,
    /// An element of the `uniforms` list is not a mapping.
    EntryNotMapping,
    /// A uniform name is not a string.
    NameNotString,
    /// A uniform value was refused.
    Value(UniformError),
    /// A uniform marked for transposition is not a matrix; the uniform read.
    TransposeFailed(Uniform),
}

/// What a refusal of the custom uniforms says, with the refused uniform
/// taken by its shape and components.
pub enum UniformsFault {
    NotMapping,
    EntryNotMapping,
    NameNotString,
    Value(UniformError),
    TransposeFailed(UniformShape, Seq<YamlNumber>),
}

/// The view of a uniform: its shape and components.
pub open spec fn uniform_view(u: Uniform) -> (UniformShape, Seq<YamlNumber>) {
    (u.shape, u.components@)
}

/// What a refusal of the custom uniforms says.
pub open spec fn uniforms_fault(e: UniformsError) -> UniformsFault {
    match e {
        UniformsError::NotMapping => UniformsFault::NotMapping,
        UniformsError::EntryNotMapping => UniformsFault::EntryNotMapping,
        UniformsError::NameNotString => UniformsFault::NameNotString,
        UniformsError::Value(v) => UniformsFault::Value(v),
        UniformsError::TransposeFailed(u) => UniformsFault::TransposeFailed(u.shape, u.components@),
    }
}

/// The named uniforms read so far.
pub type UniformList = Seq<(Seq<char>, (UniformShape, Seq<YamlNumber>))>;

/// The first position at or after `j` of the uniform named `n`.
pub open spec fn name_index(acc: UniformList, n: Seq<char>, j: int) -> Option<int>
    decreases acc.len() - j,
{
    if j < 0 || j >= acc.len() {
        None
    } else if acc[j].0 == n {
        Some(j)
    } else {
        name_index(acc, n, j + 1)
    }
}

/// The uniforms with `n` set to `v`: a uniform of that name is replaced in
/// place, a new name is added at the end.
pub open spec fn put_uniform(acc: UniformList, n: Seq<char>, v: (UniformShape, Seq<YamlNumber>)) -> UniformList {
    match name_index(acc, n, 0) {
        Some(j) => acc.update(j, (n, v)),
        None => acc.push((n, v)),
    }
}

/// The uniform that an entry (a name and a value) gives, read in the
/// order: name, value, transposition.
pub open spec fn entry_uniform(key: Yaml, value: Yaml) -> Result<
    (Seq<char>, (UniformShape, Seq<YamlNumber>)),
    UniformsFault,
> {
    match key.string_of() {
        None => Err(UniformsFault::NameNotString),
        Some(s) => {
            let (name, t) = uniform_name_spec(s);
            match uniform_spec(value) {
                Err(e) => Err(UniformsFault::Value(e)),
                Ok((shape, comps)) => if t {
                    match transpose_spec(shape) {
                        Some((w, s2)) => Ok((name, (s2, transposed(comps, w)))),
                        None => Err(UniformsFault::TransposeFailed(shape, comps)),
                    }
                } else {
                    Ok((name, (shape, comps)))
                },
            }
        },
    }
}

/// The uniforms of the entries from the `i`-th on, added to `acc`.
pub open spec fn uniforms_from(entries: Seq<(Yaml, Yaml)>, i: int, acc: UniformList) -> Result<
    UniformList,
    UniformsFault,
>
    decreases entries.len() - i,
{
    if i < 0 || i >= entries.len() {
        Ok(acc)
    } else {
        match entry_uniform(entries[i].0, entries[i].1) {
            Err(e) => Err(e),
            Ok((n, v)) => uniforms_from(entries, i + 1, put_uniform(acc, n, v)),
        }
    }
}

/// The uniforms of the elements of a `uniforms` list from the `i`-th on,
/// added to `acc`: each element is a mapping (a single name and value in
/// the usual form) whose entries are read in order.
pub open spec fn uniforms_list_from(elems: Seq<Yaml>, i: int, acc: UniformList) -> Result<
    UniformList,
    UniformsFault,
>
    decreases elems.len() - i,
{
    if i < 0 || i >= elems.len() {
        Ok(acc)
    } else {
        match elems[i] {
            Yaml::Mapping(m) => match uniforms_from(m@, 0, acc) {
                Ok(a2) => uniforms_list_from(elems, i + 1, a2),
                Err(e) => Err(e),
            },
            _ => Err(UniformsFault::EntryNotMapping),
        }
    }
}

/// A uniform key can be read: a string key holds no NUL character and
/// splits at a character boundary two bytes before its end.
pub open spec fn key_ok(key: Yaml) -> bool {
    key.string_of() matches Some(s) ==> no_nul(s) && suffix_split_ok(s)
}

/// Every key that is read, from the `i`-th entry on, can be read: the
/// entries after the first refused one are not read.
pub open spec fn keys_ok_from(entries: Seq<(Yaml, Yaml)>, i: int) -> bool
    decreases entries.len() - i,
{
    if i < 0 || i >= entries.len() {
        true
    } else {
        key_ok(entries[i].0) && (entry_uniform(entries[i].0, entries[i].1) is Ok ==> keys_ok_from(
            entries,
            i + 1,
        ))
    }
}

/// Every key that is read, from the `i`-th element of a `uniforms` list
/// on, can be read.
pub open spec fn keys_ok_list(elems: Seq<Yaml>, i: int) -> bool
    decreases elems.len() - i,
{
    if i < 0 || i >= elems.len() {
        true
    } else {
        match elems[i] {
            Yaml::Mapping(m) => keys_ok_from(m@, 0) && (uniforms_from(m@, 0, seq![]) is Ok
                ==> keys_ok_list(elems, i + 1)),
            _ => true,
        }
    }
}

/// Every key of the stage's uniforms that is read can be read.
pub open spec fn uniform_keys_ok(o: Yaml) -> bool {
    match o.lookup("uniforms"@) {
        Some(Yaml::Mapping(m)) => keys_ok_from(m@, 0),
        Some(Yaml::Sequence(s)) => keys_ok_list(s@, 0),
        _ => true,
    }
}

/// The uniforms of a stage: none when it has no `uniforms` field; else the
/// entries of its mapping, or of the mappings of its list, in order, a later
/// entry of the same name replacing an earlier one.
pub open spec fn uniforms_spec(o: Yaml) -> Result<UniformList, UniformsFault> {
    match o.lookup("uniforms"@) {
        None => Ok(seq![]),
        Some(Yaml::Mapping(m)) => uniforms_from(m@, 0, seq![]),
        Some(Yaml::Sequence(s)) => uniforms_list_from(s@, 0, seq![]),
        Some(_) => Err(UniformsFault::NotMapping),
    }
}

/// The view of a list of named uniforms.
pub open spec fn uniform_list_view(v: Seq<(String, Uniform)>) -> UniformList {
    v.map_values(|p: (String, Uniform)| (p.0@, uniform_view(p.1)))
}

proof fn lemma_uniforms_from_ok(entries: Seq<(Yaml, Yaml)>, i: int, a: UniformList, b: UniformList)
    ensures
        (uniforms_from(entries, i, a) is Ok) == (uniforms_from(entries, i, b) is Ok),
    decreases entries.len() - i,
{
    if 0 <= i < entries.len() {
        match entry_uniform(entries[i].0, entries[i].1) {
            Err(_) => {},
            Ok((n, v)) => {
                lemma_uniforms_from_ok(entries, i + 1, put_uniform(a, n, v), put_uniform(b, n, v));
            },
        }
    }
}

/// Adds the uniforms of `entries` to `out`, in order.
fn add_entries(entries: &[(Yaml, Yaml)], out: &mut Vec<(String, Uniform)>) -> (r: Result<
    (),
    UniformsError,
>)
    requires
        keys_ok_from(entries@, 0),
    ensures
        match uniforms_from(entries@, 0, uniform_list_view(old(out)@)) {
            Ok(l) => r is Ok && uniform_list_view(final(out)@) == l,
            Err(f) => r matches Err(e) && uniforms_fault(e) == f,
        },
{
    let ghost start = uniform_list_view(out@);
    let mut i: usize = 0;
    while i < entries.len()
        invariant
            i <= entries@.len(),
            start == uniform_list_view(old(out)@),
            keys_ok_from(entries@, i as int),
            uniforms_from(entries@, 0, start) == uniforms_from(
                entries@,
                i as int,
                uniform_list_view(out@),
            ),
        decreases entries@.len() - i,
    {
        let (key, value) = (&entries[i].0, &entries[i].1);
        let (name, transpose) = match uniform_name(key) {
            Ok(x) => x,
            Err(e) => {
                return Err(e);
            },
        };
        let mut u = match Uniform::from_yaml(value) {
            Ok(u) => u,
            Err(e) => {
                return Err(UniformsError::Value(e));
            },
        };
        if transpose {
            if u.transpose().is_err() {
                return Err(UniformsError::TransposeFailed(u));
            }
        }
        let ghost acc = uniform_list_view(out@);
        let ghost v = uniform_view(u);
        assert(entry_uniform(entries@[i as int].0, entries@[i as int].1) == Ok::<
            (Seq<char>, (UniformShape, Seq<YamlNumber>)),
            UniformsFault,
        >((name@, v)));
        let mut j: usize = 0;
        let mut pos: Option<usize> = None;
        while j < out.len()
            invariant
                j <= out@.len(),
                acc == uniform_list_view(out@),
                pos is None ==> name_index(acc, name@, 0) == name_index(acc, name@, j as int),
                pos matches Some(p) ==> (p < out@.len() && name_index(acc, name@, 0) == Some(
                    p as int,
                )),
                pos is Some ==> j == out@.len(),
            decreases out@.len() - j,
        {
            if str_eq(out[j].0.as_str(), name.as_str()) {
                assert(acc[j as int].0 == name@);
                pos = Some(j);
                j = out.len();
            } else {
                assert(acc[j as int].0 != name@);
                j = j + 1;
            }
        }
        match pos {
            Some(p) => {
                out.set(p, (name, u));
                assert(uniform_list_view(out@) =~= acc.update(p as int, (name@, v)));
            },
            None => {
                out.push((name, u));
                assert(uniform_list_view(out@) =~= acc.push((name@, v)));
            },
        }
        i = i + 1;
    }
    Ok(())
}

/// Reads the custom uniforms of a stage, given as a mapping from names to
/// values or as a list of such mappings (each usually of one entry): each
/// name names a uniform (a transpose marker at its end asks for the matrix
/// to be transposed), each value gives its type and components; the
/// entries are read in order, and a later entry of the same name replaces
/// an earlier one.
pub fn parse_uniforms(object: &Yaml) -> (r: Result<Vec<(String, Uniform)>, UniformsError>)
    requires
        uniform_keys_ok(*object),
    ensures
        match uniforms_spec(*object) {
            Ok(l) => r matches Ok(v) && uniform_list_view(v@) == l,
            Err(f) => r matches Err(e) && uniforms_fault(e) == f,
        },
{
    let mut out: Vec<(String, Uniform)> = Vec::new();
    assert(uniform_list_view(out@) =~= seq![]);
    match object.get("uniforms") {
        None => Ok(out),
        Some(Yaml::Mapping(m)) => match add_entries(m.as_slice(), &mut out) {
            Ok(()) => Ok(out),
            Err(e) => Err(e),
        },
        Some(Yaml::Sequence(elems)) => {
            let mut i: usize = 0;
            while i < elems.len()
                invariant
                    i <= elems@.len(),
                    keys_ok_list(elems@, i as int),
                    uniforms_spec(*object) == uniforms_list_from(
                        elems@,
                        i as int,
                        uniform_list_view(out@),
                    ),
                decreases elems@.len() - i,
            {
                match &elems[i] {
                    Yaml::Mapping(m) => {
                        let ghost before = uniform_list_view(out@);
                        proof {
                            lemma_uniforms_from_ok(m@, 0, before, seq![]);
                        }
                        match add_entries(m.as_slice(), &mut out) {
                            Ok(()) => {},
                            Err(e) => {
                                return Err(e);
                            },
                        }
                    },
                    _ => {
                        return Err(UniformsError::EntryNotMapping);
                    },
                }
                i = i + 1;
            }
            Ok(out)
        },
        Some(_) => Err(UniformsError::NotMapping),
    }
}

} // verus!

verus! {

/// Why the reading of a stage stopped.
#[derive(Debug, Clone, PartialEq, Eq)]
pub enum StageLoadError {
    Stage(StageError),
    Uniforms(UniformsError),
}

/// A stage being read: its header (target, uniforms, blend mode) is read;
/// the shader fields are looked at one after the other (`next_field` is
/// the position of the next one in the order `vs`, `fs`, `cs`), and `files`
/// holds the shader files found so far, which the caller reads as they are
/// handed out.
#[derive(Debug)]
pub struct StageLoader {
    pub target: Option<String>,
    pub uniforms: Vec<(String, Uniform)>,
    pub blend: Option<(u32, u32)>,
    pub next_field: usize,
    pub files: Vec<(ShaderField, String)>,
}

/// The shader field at position `i` in the order `vs`, `fs`, `cs`.
pub open spec fn field_at(i: int) -> ShaderField {
    if i == 0 {
        ShaderField::Vertex
    } else if i == 1 {
        ShaderField::Fragment
    } else {
        ShaderField::Compute
    }
}

/// The next shader field at or after position `i` that is present, with
/// its file name, or the fault of a field that is no file name.
pub open spec fn next_present(o: Yaml, i: int) -> Result<Option<(int, Seq<char>)>, StageError>
    decreases 3 - i,
{
    if i < 0 || i >= 3 {
        Ok(None)
    } else {
        match shader_file_spec(o, field_at(i)) {
            Err(e) => Err(e),
            Ok(Some(f)) => Ok(Some((i, f))),
            Ok(None) => next_present(o, i + 1),
        }
    }
}

/// Whether a shader file was found for the field.
pub open spec fn has_field(files: Seq<(ShaderField, String)>, f: ShaderField) -> bool {
    exists|i: int| 0 <= i < files.len() && files[i].0 == f
}

fn field_of(i: usize) -> (r: ShaderField)
    ensures
        r == field_at(i as int),
{
    if i == 0 {
        ShaderField::Vertex
    } else if i == 1 {
        ShaderField::Fragment
    } else {
        ShaderField::Compute
    }
}

impl StageLoader {
    /// Starts reading a stage: its render target, its custom uniforms and
    /// its blend mode, in that order, before any shader is asked for.
    pub fn begin(object: &Yaml) -> (r: Result<StageLoader, StageLoadError>)
        requires
            object.lookup("target"@) matches Some(Yaml::String(s)) ==> no_nul(s@),
            uniform_keys_ok(*object),
        ensures
            match target_spec(*object) {
                Err(e) => r matches Err(StageLoadError::Stage(e2)) && e2 == e,
                Ok(t) => match uniforms_spec(*object) {
                    Err(f) => r matches Err(StageLoadError::Uniforms(e)) && uniforms_fault(e) == f,
                    Ok(l) => match blend_spec(*object) {
                        Err(e) => r matches Err(StageLoadError::Stage(e2)) && e2 == e,
                        Ok(b) => r matches Ok(ld) && crate::config::option_view(ld.target) == t
                            && uniform_list_view(ld.uniforms@) == l && ld.blend == b
                            && ld.next_field == 0 && ld.files@.len() == 0,
                    },
                },
            },
    {
        let target = match parse_target(object) {
            Ok(t) => t,
            Err(e) => {
                return Err(StageLoadError::Stage(e));
            },
        };
        let uniforms = match parse_uniforms(object) {
            Ok(u) => u,
            Err(e) => {
                return Err(StageLoadError::Uniforms(e));
            },
        };
        let blend = match parse_blend(object) {
            Ok(b) => b,
            Err(e) => {
                return Err(StageLoadError::Stage(e));
            },
        };
        Ok(StageLoader { target, uniforms, blend, next_field: 0, files: Vec::new() })
    }

    /// The next shader file to read: the one named by the next shader field
    /// that is present, in the order `vs`, `fs`, `cs`; none once every
    /// field was looked at.
    pub fn next_shader(&mut self, object: &Yaml) -> (r: Result<Option<(ShaderField, String)>, StageError>)
        requires
            old(self).next_field <= 3,
        ensures
            final(self).target == old(self).target,
            final(self).uniforms == old(self).uniforms,
            final(self).blend == old(self).blend,
            final(self).next_field <= 3,
            match next_present(*object, old(self).next_field as int) {
                Err(e) => r matches Err(e2) && e2 == e,
                Ok(None) => r matches Ok(None) && final(self).next_field == 3 && final(self).files
                    == old(self).files,
                Ok(Some((j, f))) => r matches Ok(Some((fld, name))) && fld == field_at(j)
                    && name@ == f && final(self).next_field == j + 1 && final(self).files@
                    == old(self).files@.push((fld, name)),
            },
    {
        while self.next_field < 3
            invariant
                self.next_field <= 3,
                self.target == old(self).target,
                self.uniforms == old(self).uniforms,
                self.blend == old(self).blend,
                self.files == old(self).files,
                next_present(*object, old(self).next_field as int) == next_present(
                    *object,
                    self.next_field as int,
                ),
            decreases 3 - self.next_field,
        {
            let field = field_of(self.next_field);
            match shader_file(object, field) {
                Err(e) => {
                    return Err(e);
                },
                Ok(Some(f)) => {
                    self.next_field = self.next_field + 1;
                    self.files.push((field, f.clone()));
                    return Ok(Some((field, f)));
                },
                Ok(None) => {
                    self.next_field = self.next_field + 1;
                },
            }
        }
        Ok(None)
    }

    /// Which kind of stage the shader files found make, once every shader
    /// field was looked at.
    pub fn setup(&self) -> (r: Result<ShaderSetup, StageError>)
        requires
            self.next_field == 3,
        ensures
            r == setup_spec(
                has_field(self.files@, ShaderField::Vertex),
                has_field(self.files@, ShaderField::Fragment),
                has_field(self.files@, ShaderField::Compute),
            ),
    {
        let mut vs = false;
        let mut fs = false;
        let mut cs = false;
        let mut i: usize = 0;
        while i < self.files.len()
            invariant
                i <= self.files@.len(),
                vs == exists|k: int| 0 <= k < i && self.files@[k].0 == ShaderField::Vertex,
                fs == exists|k: int| 0 <= k < i && self.files@[k].0 == ShaderField::Fragment,
                cs == exists|k: int| 0 <= k < i && self.files@[k].0 == ShaderField::Compute,
            decreases self.files@.len() - i,
        {
            match self.files[i].0 {
                ShaderField::Vertex => {
                    vs = true;
                },
                ShaderField::Fragment => {
                    fs = true;
                },
                ShaderField::Compute => {
                    cs = true;
                },
            }
            i = i + 1;
        }
        shader_setup(vs, fs, cs)
    }
}

} // verus!
