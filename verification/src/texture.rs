//! Texture descriptions: what a pipeline file asks for, and which OpenGL
//! texture or framebuffer that amounts to.
use vstd::prelude::*;
use crate::yaml::{Yaml, YamlNumber};
use crate::text::str_eq;

verus! {

// OpenGL enumerants (values from the OpenGL registry).
pub const GL_NEAREST: u32 = 0x2600;
pub const GL_LINEAR: u32 = 0x2601;
pub const GL_NEAREST_MIPMAP_NEAREST: u32 = 0x2700;
pub const GL_LINEAR_MIPMAP_LINEAR: u32 = 0x2703;
pub const GL_REPEAT: u32 = 0x2901;
pub const GL_CLAMP_TO_EDGE: u32 = 0x812F;
pub const GL_MIRRORED_REPEAT: u32 = 0x8370;

/// The internal formats a texture can have.
#[derive(Debug, Clone, Copy, PartialEq, Eq)]
pub enum TextureFormat {
    R8,
    RG8,
    RGB8,
    RGBA8,
    R32F,
    RG32F,
    RGB32F,
    RGBA32F,
}

impl TextureFormat {
    /// The OpenGL enumerant of the format.
    pub open spec fn gl_enum_spec(self) -> u32 {
        match self {
            TextureFormat::R8 => 0x8229,
            TextureFormat::RG8 => 0x822B,
            TextureFormat::RGB8 => 0x8051,
            TextureFormat::RGBA8 => 0x8058,
            TextureFormat::R32F => 0x822E,
            TextureFormat::RG32F => 0x8230,
            TextureFormat::RGB32F => 0x8815,
            TextureFormat::RGBA32F => 0x8814,
        }
    }

    /// The OpenGL enumerant of the format.
    pub fn gl_enum(self) -> (r: u32)
        ensures
            r == self.gl_enum_spec(),
    {
        match self {
            TextureFormat::R8 => 0x8229,
            TextureFormat::RG8 => 0x822B,
            TextureFormat::RGB8 => 0x8051,
            TextureFormat::RGBA8 => 0x8058,
            TextureFormat::R32F => 0x822E,
            TextureFormat::RG32F => 0x8230,
            TextureFormat::RGB32F => 0x8815,
            TextureFormat::RGBA32F => 0x8814,
        }
    }
}

/// The shape of a texture: an image (bound for writing by compute shaders)
/// or a plain texture, of one to three dimensions.
#[allow(inconsistent_fields)]
#[derive(Debug, Clone, Copy, PartialEq, Eq)]
pub enum TextureKind {
    Image1D { res: [u32; 1] },
    Image2D { res: [u32; 2] },
    Image3D { res: [u32; 3] },
    Texture1D { res: [u32; 1] },
    Texture2D { res: [u32; 2] },
    Texture3D { res: [u32; 3] },
}

/// Everything needed to create a texture.
#[derive(Debug, Clone, Copy)]
pub struct TextureRequest {
    pub kind: TextureKind,
    pub min_filter: u32,
    pub mag_filter: u32,
    pub wrap_mode: u32,
    pub format: TextureFormat,
}

/// A texture to create and the bytes to fill it with.
#[derive(Debug, Clone)]
pub struct TextureUpload {
    pub request: TextureRequest,
    pub data: Vec<u8>,
}

/// Everything needed to create a framebuffer with its colour texture.
#[derive(Debug, Clone, Copy)]
pub struct FramebufferRequest {
    pub width: u32,
    pub height: u32,
    pub min_filter: u32,
    pub mag_filter: u32,
    pub wrap_mode: u32,
    pub mipmap: bool,
    pub float: bool,
}

/// A framebuffer and the texture it renders into.
#[derive(Debug)]
pub struct FrameBuffer {
    pub tex_id: u32,
    pub fb_id: u32,
    pub res: [u32; 2],
}

/// A texture that stages can read from.
pub trait Texture {
    /// The size of the texture in three dimensions, unused ones zero.
    fn resolution(&self) -> [u32; 3];
}

impl Texture for FrameBuffer {
    /// The size of the framebuffer, as width, height and a depth of zero.
    fn resolution(&self) -> (r: [u32; 3])
        ensures
            r@ == seq![self.res[0], self.res[1], 0u32],
    {
        let r = [self.res[0], self.res[1], 0];
        assert(r@ =~= seq![self.res[0], self.res[1], 0u32]);
        r
    }
}

/// Why a texture description was refused.
#[derive(Debug, Clone, Copy, PartialEq, Eq)]
pub enum TextureError {
    /// The resolution list has this many elements, not one to three.
    ResolutionLength(usize),
    /// An element of the resolution list is not a non-negative integer.
    ResolutionNotNumbers,
    /// An element of the resolution list is zero.
    ResolutionNotPositive,
    /// The `mipmap` field is not a boolean.
    MipmapNotBool,
    /// The `wrap` field is none of `repeat`, `clamp` and `mirror`.
    WrapInvalid,
    /// The `filter` field is neither `linear` nor `nearest`.
    FilterInvalid,
    /// The `float` field is not a boolean.
    FloatNotBool,
}

/// How to build a texture.
#[derive(Debug, Clone)]
pub struct TextureBuilder {
    pub resolution: Vec<u32>,
    pub min_filter: u32,
    pub mag_filter: u32,
    pub wrap_mode: u32,
    pub channels: u8,
    pub float: bool,
    pub mipmap: bool,
}

/// Each dimension raised to at least one.
pub open spec fn clamp_dim(d: u32) -> u32 {
    if d == 0 { 1 } else { d }
}

/// The texture kind for the given resolution (whose dimensions are raised to
/// at least one).
pub open spec fn kind_for(res: Seq<u32>, image: bool) -> TextureKind
    recommends
        1 <= res.len() <= 3,
{
    if res.len() == 1 {
        if image {
            TextureKind::Image1D { res: [clamp_dim(res[0])] }
        } else {
            TextureKind::Texture1D { res: [clamp_dim(res[0])] }
        }
    } else if res.len() == 2 {
        if image {
            TextureKind::Image2D { res: [clamp_dim(res[0]), clamp_dim(res[1])] }
        } else {
            TextureKind::Texture2D { res: [clamp_dim(res[0]), clamp_dim(res[1])] }
        }
    } else {
        if image {
            TextureKind::Image3D {
                res: [clamp_dim(res[0]), clamp_dim(res[1]), clamp_dim(res[2])],
            }
        } else {
            TextureKind::Texture3D {
                res: [clamp_dim(res[0]), clamp_dim(res[1]), clamp_dim(res[2])],
            }
        }
    }
}

/// The format for the number of channels and the float flag.
pub open spec fn format_for(channels: u8, float: bool) -> TextureFormat
    recommends
        1 <= channels <= 4,
{
    match (channels, float) {
        (1, false) => TextureFormat::R8,
        (2, false) => TextureFormat::RG8,
        (3, false) => TextureFormat::RGB8,
        (4, false) => TextureFormat::RGBA8,
        (1, true) => TextureFormat::R32F,
        (2, true) => TextureFormat::RG32F,
        (3, true) => TextureFormat::RGB32F,
        _ => TextureFormat::RGBA32F,
    }
}

fn clamp_dim_exec(d: u32) -> (r: u32)
    ensures
        r == clamp_dim(d),
{
    if d == 0 { 1 } else { d }
}

fn kind_for_exec(res: &[u32], image: bool) -> (k: TextureKind)
    requires
        1 <= res@.len() <= 3,
    ensures
        k == kind_for(res@, image),
{
    if res.len() == 1 {
        let a = [clamp_dim_exec(res[0])];
        if image {
            TextureKind::Image1D { res: a }
        } else {
            TextureKind::Texture1D { res: a }
        }
    } else if res.len() == 2 {
        let a = [clamp_dim_exec(res[0]), clamp_dim_exec(res[1])];
        if image {
            TextureKind::Image2D { res: a }
        } else {
            TextureKind::Texture2D { res: a }
        }
    } else {
        let a = [clamp_dim_exec(res[0]), clamp_dim_exec(res[1]), clamp_dim_exec(res[2])];
        if image {
            TextureKind::Image3D { res: a }
        } else {
            TextureKind::Texture3D { res: a }
        }
    }
}

/// The texture that `Image*::new` creates for the given resolution: linear
/// filtering, repeated wrapping, four float channels.
pub fn make_image(resolution: &[u32]) -> (r: TextureRequest)
    requires
        1 <= resolution@.len() <= 3,
    ensures
        r.kind == kind_for(resolution@, true),
        r.min_filter == GL_LINEAR,
        r.mag_filter == GL_LINEAR,
        r.wrap_mode == GL_REPEAT,
        r.format == TextureFormat::RGBA32F,
{
    TextureRequest {
        kind: kind_for_exec(resolution, true),
        min_filter: GL_LINEAR,
        mag_filter: GL_LINEAR,
        wrap_mode: GL_REPEAT,
        format: TextureFormat::RGBA32F,
    }
}

/// The texture that `Texture*::new` creates for the given resolution: linear
/// filtering, repeated wrapping, four float channels.
pub fn make_texture(resolution: &[u32]) -> (r: TextureRequest)
    requires
        1 <= resolution@.len() <= 3,
    ensures
        r.kind == kind_for(resolution@, false),
        r.min_filter == GL_LINEAR,
        r.mag_filter == GL_LINEAR,
        r.wrap_mode == GL_REPEAT,
        r.format == TextureFormat::RGBA32F,
{
    TextureRequest {
        kind: kind_for_exec(resolution, false),
        min_filter: GL_LINEAR,
        mag_filter: GL_LINEAR,
        wrap_mode: GL_REPEAT,
        format: TextureFormat::RGBA32F,
    }
}

impl TextureBuilder {
    /// A builder for a 4-channel byte texture with nearest filtering and
    /// clamped wrapping, whose resolution is left open.
    pub fn new() -> (r: Self)
        ensures
            r.resolution@ == Seq::<u32>::empty(),
            r.min_filter == GL_NEAREST,
            r.mag_filter == GL_NEAREST,
            r.wrap_mode == GL_CLAMP_TO_EDGE,
            r.channels == 4,
            !r.float,
            !r.mipmap,
    {
        TextureBuilder {
            resolution: Vec::new(),
            min_filter: GL_NEAREST,
            mag_filter: GL_NEAREST,
            wrap_mode: GL_CLAMP_TO_EDGE,
            channels: 4,
            float: false,
            mipmap: false,
        }
    }

    pub fn set_resolution(&mut self, resolution: Vec<u32>) -> (r: &mut Self)
        ensures
            r.resolution@ == resolution@,
            r.min_filter == old(self).min_filter,
            r.mag_filter == old(self).mag_filter,
            r.wrap_mode == old(self).wrap_mode,
            r.channels == old(self).channels,
            r.float == old(self).float,
            r.mipmap == old(self).mipmap,
            *final(self) == *final(r),
    {
        self.resolution = resolution;
        self
    }

    pub fn set_channels(&mut self, channels: u8) -> (r: &mut Self)
        ensures
            r.resolution@ == old(self).resolution@,
            r.min_filter == old(self).min_filter,
            r.mag_filter == old(self).mag_filter,
            r.wrap_mode == old(self).wrap_mode,
            r.channels == channels,
            r.float == old(self).float,
            r.mipmap == old(self).mipmap,
            *final(self) == *final(r),
    {
        self.channels = channels;
        self
    }

    pub fn set_float(&mut self, is_float: bool) -> (r: &mut Self)
        ensures
            r.resolution@ == old(self).resolution@,
            r.min_filter == old(self).min_filter,
            r.mag_filter == old(self).mag_filter,
            r.wrap_mode == old(self).wrap_mode,
            r.channels == old(self).channels,
            r.float == is_float,
            r.mipmap == old(self).mipmap,
            *final(self) == *final(r),
    {
        self.float = is_float;
        self
    }

    /// The format for the builder's channels and float flag.
    pub fn texture_format(&self) -> (r: TextureFormat)
        requires
            1 <= self.channels <= 4,
        ensures
            r == format_for(self.channels, self.float),
    {
        match (self.channels, self.float) {
            (1, false) => TextureFormat::R8,
            (2, false) => TextureFormat::RG8,
            (3, false) => TextureFormat::RGB8,
            (4, false) => TextureFormat::RGBA8,
            (1, true) => TextureFormat::R32F,
            (2, true) => TextureFormat::RG32F,
            (3, true) => TextureFormat::RGB32F,
            _ => TextureFormat::RGBA32F,
        }
    }

    /// The framebuffer to render into: the builder's resolution, or the
    /// screen's when none is set, each side at least one.
    pub fn build_framebuffer(&self, screen_size: (u32, u32)) -> (r: FramebufferRequest)
        requires
            self.resolution@.len() == 0 || self.resolution@.len() == 2,
        ensures
            self.resolution@.len() == 2 ==> r.width == clamp_dim(self.resolution@[0])
                && r.height == clamp_dim(self.resolution@[1]),
            self.resolution@.len() == 0 ==> r.width == clamp_dim(screen_size.0) && r.height
                == clamp_dim(screen_size.1),
            r.min_filter == self.min_filter,
            r.mag_filter == self.mag_filter,
            r.wrap_mode == self.wrap_mode,
            r.mipmap == self.mipmap,
            r.float == self.float,
    {
        let (width, height) = if self.resolution.len() == 2 {
            (self.resolution[0], self.resolution[1])
        } else {
            (screen_size.0, screen_size.1)
        };
        FramebufferRequest {
            width: clamp_dim_exec(width),
            height: clamp_dim_exec(height),
            min_filter: self.min_filter,
            mag_filter: self.mag_filter,
            wrap_mode: self.wrap_mode,
            mipmap: self.mipmap,
            float: self.float,
        }
    }

    /// The texture to create for this builder.
    pub fn build_texture(&self) -> (r: TextureRequest)
        requires
            1 <= self.resolution@.len() <= 3,
            1 <= self.channels <= 4,
        ensures
            r.kind == kind_for(self.resolution@, false),
            r.min_filter == self.min_filter,
            r.mag_filter == self.mag_filter,
            r.wrap_mode == self.wrap_mode,
            r.format == format_for(self.channels, self.float),
    {
        TextureRequest {
            kind: kind_for_exec(self.resolution.as_slice(), false),
            min_filter: self.min_filter,
            mag_filter: self.mag_filter,
            wrap_mode: self.wrap_mode,
            format: self.texture_format(),
        }
    }

    /// The image (a texture that compute shaders write into) to create for
    /// this builder.
    pub fn build_image(&self) -> (r: TextureRequest)
        requires
            1 <= self.resolution@.len() <= 3,
            1 <= self.channels <= 4,
        ensures
            r.kind == kind_for(self.resolution@, true),
            r.min_filter == self.min_filter,
            r.mag_filter == self.mag_filter,
            r.wrap_mode == self.wrap_mode,
            r.format == format_for(self.channels, self.float),
    {
        TextureRequest {
            kind: kind_for_exec(self.resolution.as_slice(), true),
            min_filter: self.min_filter,
            mag_filter: self.mag_filter,
            wrap_mode: self.wrap_mode,
            format: self.texture_format(),
        }
    }

    /// The texture to create for this builder, filled with `data`.
    pub fn build_texture_with_data(&self, data: Vec<u8>) -> (r: TextureUpload)
        requires
            1 <= self.resolution@.len() <= 3,
            1 <= self.channels <= 4,
        ensures
            r.request.kind == kind_for(self.resolution@, false),
            r.request.min_filter == self.min_filter,
            r.request.mag_filter == self.mag_filter,
            r.request.wrap_mode == self.wrap_mode,
            r.request.format == format_for(self.channels, self.float),
            r.data@ == data@,
    {
        TextureUpload { request: self.build_texture(), data }
    }

    /// The image to create for this builder, filled with `data`.
    pub fn build_image_with_data(&self, data: Vec<u8>) -> (r: TextureUpload)
        requires
            1 <= self.resolution@.len() <= 3,
            1 <= self.channels <= 4,
        ensures
            r.request.kind == kind_for(self.resolution@, true),
            r.request.min_filter == self.min_filter,
            r.request.mag_filter == self.mag_filter,
            r.request.wrap_mode == self.wrap_mode,
            r.request.format == format_for(self.channels, self.float),
            r.data@ == data@,
    {
        TextureUpload { request: self.build_image(), data }
    }
}

} // verus!

verus! {

/// The first of the fields `size`, `res` and `resolution` that is present.
pub open spec fn resolution_field(o: Yaml) -> Option<Yaml> {
    match o.lookup("size"@) {
        Some(v) => Some(v),
        None => match o.lookup("res"@) {
            Some(v) => Some(v),
            None => o.lookup("resolution"@),
        },
    }
}

/// The dimensions from the `i`-th on appended to `acc`, each a positive
/// integer (taken modulo 2^32).
pub open spec fn dims_result(dims: Seq<Yaml>, i: int, acc: Seq<u32>) -> Result<Seq<u32>, TextureError>
    decreases dims.len() - i,
{
    if i < 0 || i >= dims.len() {
        Ok(acc)
    } else {
        match dims[i].u64_of() {
            None => Err(TextureError::ResolutionNotNumbers),
            Some(n) => if n == 0 {
                Err(TextureError::ResolutionNotPositive)
            } else {
                dims_result(dims, i + 1, acc.push(n as u32))
            },
        }
    }
}

pub open spec fn parse_resolution(o: Yaml, support_res: bool) -> Result<Seq<u32>, TextureError> {
    let f = if support_res {
        resolution_field(o)
    } else {
        None
    };
    match f {
        Some(Yaml::Sequence(d)) => if d@.len() == 0 || d@.len() > 3 {
            Err(TextureError::ResolutionLength(d@.len() as usize))
        } else {
            dims_result(d@, 0, seq![])
        },
        _ => Ok(seq![]),
    }
}

pub open spec fn parse_mipmap(o: Yaml, support_mipmap: bool) -> Result<bool, TextureError> {
    let f = if support_mipmap {
        o.lookup("mipmap"@)
    } else {
        None
    };
    match f {
        None => Ok(false),
        Some(v) => match v.bool_of() {
            Some(b) => Ok(b),
            None => Err(TextureError::MipmapNotBool),
        },
    }
}

pub open spec fn parse_wrap(o: Yaml) -> Result<u32, TextureError> {
    let f = match o.lookup("wrap_mode"@) {
        Some(v) => Some(v),
        None => o.lookup("wrap"@),
    };
    match f {
        None => Ok(GL_CLAMP_TO_EDGE),
        Some(v) => match v.string_of() {
            Some(s) => if s == "clamp"@ {
                Ok(GL_CLAMP_TO_EDGE)
            } else if s == "repeat"@ {
                Ok(GL_REPEAT)
            } else if s == "mirror"@ {
                Ok(GL_MIRRORED_REPEAT)
            } else {
                Err(TextureError::WrapInvalid)
            },
            None => Err(TextureError::WrapInvalid),
        },
    }
}

/// The wrap field of a texture description: `wrap_mode`, else `wrap`.
pub open spec fn wrap_field(o: Yaml) -> Option<Yaml> {
    match o.lookup("wrap_mode"@) {
        Some(v) => Some(v),
        None => o.lookup("wrap"@),
    }
}

/// A texture clamps to its edge (0x812F) when its description names no wrap
/// mode or names `clamp`, repeats (0x2901) for `repeat` and repeats mirrored
/// (0x8370) for `mirror`; a description that is read takes that mode.
pub proof fn lemma_wrap_modes(o: Yaml, support_res: bool, support_mipmap: bool)
    ensures
        wrap_field(o) is None ==> parse_wrap(o) == Ok::<u32, TextureError>(0x812Fu32),
        wrap_field(o) matches Some(v) && v.string_of() == Some("clamp"@) ==> parse_wrap(o) == Ok::<
            u32,
            TextureError,
        >(0x812Fu32),
        wrap_field(o) matches Some(v) && v.string_of() == Some("repeat"@) ==> parse_wrap(o) == Ok::<
            u32,
            TextureError,
        >(0x2901u32),
        wrap_field(o) matches Some(v) && v.string_of() == Some("mirror"@) ==> parse_wrap(o) == Ok::<
            u32,
            TextureError,
        >(0x8370u32),
        parse_spec(o, support_res, support_mipmap) matches Ok((_, _, wrap, _, _)) ==> parse_wrap(o)
            == Ok::<u32, TextureError>(wrap),
{
    reveal_strlit("clamp");
    reveal_strlit("repeat");
    reveal_strlit("mirror");
    assert("repeat"@ != "clamp"@) by {
        assert("repeat"@.len() != "clamp"@.len());
    }
    assert("mirror"@ != "clamp"@ && "mirror"@ != "repeat"@) by {
        assert("mirror"@.len() != "clamp"@.len());
        assert("mirror"@[0] != "repeat"@[0]);
    }
}

pub open spec fn parse_filter(o: Yaml) -> Result<u32, TextureError> {
    match o.lookup("filter"@) {
        None => Ok(GL_LINEAR),
        Some(v) => match v.string_of() {
            Some(s) => if s == "linear"@ {
                Ok(GL_LINEAR)
            } else if s == "nearest"@ {
                Ok(GL_NEAREST)
            } else {
                Err(TextureError::FilterInvalid)
            },
            None => Err(TextureError::FilterInvalid),
        },
    }
}

/// A texture is filtered linearly (0x2601) when its description names no
/// filter or names `linear`, and by nearest texel (0x2600) for `nearest`;
/// with mipmaps its minifying filter is the mipmapped form of the same
/// filter (0x2703, 0x2700), without them the filter itself.
pub proof fn lemma_filter_modes(o: Yaml, support_res: bool, support_mipmap: bool)
    ensures
        o.lookup("filter"@) is None ==> parse_filter(o) == Ok::<u32, TextureError>(0x2601u32),
        o.lookup("filter"@) matches Some(v) && v.string_of() == Some("linear"@) ==> parse_filter(o)
            == Ok::<u32, TextureError>(0x2601u32),
        o.lookup("filter"@) matches Some(v) && v.string_of() == Some("nearest"@) ==> parse_filter(
            o,
        ) == Ok::<u32, TextureError>(0x2600u32),
        parse_spec(o, support_res, support_mipmap) matches Ok((_, mip, _, mag, _)) ==> parse_filter(o)
            == Ok::<u32, TextureError>(mag) && (mip ==> support_mipmap),
        min_filter_for(0x2601u32, false) == 0x2601u32,
        min_filter_for(0x2600u32, false) == 0x2600u32,
        min_filter_for(0x2601u32, true) == 0x2703u32,
        min_filter_for(0x2600u32, true) == 0x2700u32,
{
    reveal_strlit("linear");
    reveal_strlit("nearest");
    assert("nearest"@ != "linear"@) by {
        assert("nearest"@.len() != "linear"@.len());
    }
}

pub open spec fn parse_float(o: Yaml) -> Result<bool, TextureError> {
    match o.lookup("float"@) {
        None => Ok(false),
        Some(v) => match v.bool_of() {
            Some(b) => Ok(b),
            None => Err(TextureError::FloatNotBool),
        },
    }
}

/// The minifying filter: the magnifying one, or its mipmapped form.
pub open spec fn min_filter_for(mag: u32, mipmap: bool) -> u32 {
    if !mipmap {
        mag
    } else if mag == GL_LINEAR {
        GL_LINEAR_MIPMAP_LINEAR
    } else {
        GL_NEAREST_MIPMAP_NEAREST
    }
}

/// What a texture description parses to: resolution, mipmap flag, wrap mode,
/// magnifying filter and float flag, or the first error, the fields being
/// read in that order.
pub open spec fn parse_spec(o: Yaml, support_res: bool, support_mipmap: bool) -> Result<
    (Seq<u32>, bool, u32, u32, bool),
    TextureError,
> {
    match parse_resolution(o, support_res) {
        Err(e) => Err(e),
        Ok(res) => match parse_mipmap(o, support_mipmap) {
            Err(e) => Err(e),
            Ok(mip) => match parse_wrap(o) {
                Err(e) => Err(e),
                Ok(wrap) => match parse_filter(o) {
                    Err(e) => Err(e),
                    Ok(mag) => match parse_float(o) {
                        Err(e) => Err(e),
                        Ok(float) => Ok((res, mip, wrap, mag, float)),
                    },
                },
            },
        },
    }
}

fn get_first<'a>(o: &'a Yaml, a: &str, b: &str) -> (r: Option<&'a Yaml>)
    ensures
        r matches Some(v) ==> (match o.lookup(a@) {
            Some(x) => Some(x),
            None => o.lookup(b@),
        }) == Some(*v),
        r is None ==> o.lookup(a@) is None && o.lookup(b@) is None,
{
    match o.get(a) {
        Some(v) => Some(v),
        None => o.get(b),
    }
}

fn parse_resolution_exec(o: &Yaml, support_res: bool) -> (r: Result<Vec<u32>, TextureError>)
    ensures
        r matches Ok(v) ==> parse_resolution(*o, support_res) == Ok::<Seq<u32>, TextureError>(v@),
        r matches Err(e) ==> parse_resolution(*o, support_res) == Err::<Seq<u32>, TextureError>(e),
{
    let f = if support_res {
        match o.get("size") {
            Some(v) => Some(v),
            None => get_first(o, "res", "resolution"),
        }
    } else {
        None
    };
    match f {
        Some(Yaml::Sequence(dims)) => {
            if dims.len() == 0 || dims.len() > 3 {
                return Err(TextureError::ResolutionLength(dims.len()));
            }
            let mut out: Vec<u32> = Vec::new();
            let mut i: usize = 0;
            while i < dims.len()
                invariant
                    i <= dims@.len(),
                    1 <= dims@.len() <= 3,
                    parse_resolution(*o, support_res) == dims_result(dims@, i as int, out@),
                decreases dims@.len() - i,
            {
                match dims[i].as_u64() {
                    None => {
                        return Err(TextureError::ResolutionNotNumbers);
                    },
                    Some(n) => {
                        if n == 0 {
                            return Err(TextureError::ResolutionNotPositive);
                        }
                        out.push(n as u32);
                    },
                }
                i = i + 1;
            }
            Ok(out)
        },
        _ => Ok(Vec::new()),
    }
}

impl TextureBuilder {
    /// Reads a texture description: the resolution (a list of one to three
    /// positive integers under `size`, `res` or `resolution`, read only when
    /// `support_res`), the `mipmap` flag (read only when `support_mipmap`),
    /// the `wrap` mode, the `filter` and the `float` flag.
    pub fn parse(object: &Yaml, support_res: bool, support_mipmap: bool) -> (r: Result<
        Self,
        TextureError,
    >)
        ensures
            match parse_spec(*object, support_res, support_mipmap) {
                Ok((res, mip, wrap, mag, float)) => r matches Ok(b) && b.resolution@ == res
                    && b.mipmap == mip && b.wrap_mode == wrap && b.mag_filter == mag
                    && b.min_filter == min_filter_for(mag, mip) && b.float == float && b.channels
                    == 4,
                Err(e) => r matches Err(e2) && e2 == e,
            },
    {
        let resolution = match parse_resolution_exec(object, support_res) {
            Ok(v) => v,
            Err(e) => {
                return Err(e);
            },
        };
        let mipmap = if support_mipmap {
            match object.get("mipmap") {
                None => false,
                Some(v) => match v.as_bool() {
                    Some(b) => b,
                    None => {
                        return Err(TextureError::MipmapNotBool);
                    },
                },
            }
        } else {
            false
        };
        let wrap_mode = match get_first(object, "wrap_mode", "wrap") {
            None => GL_CLAMP_TO_EDGE,
            Some(v) => match v.as_str() {
                Some(s) => if str_eq(s, "clamp") {
                    GL_CLAMP_TO_EDGE
                } else if str_eq(s, "repeat") {
                    GL_REPEAT
                } else if str_eq(s, "mirror") {
                    GL_MIRRORED_REPEAT
                } else {
                    return Err(TextureError::WrapInvalid);
                },
                None => {
                    return Err(TextureError::WrapInvalid);
                },
            },
        };
        let mag_filter = match object.get("filter") {
            None => GL_LINEAR,
            Some(v) => match v.as_str() {
                Some(s) => if str_eq(s, "linear") {
                    GL_LINEAR
                } else if str_eq(s, "nearest") {
                    GL_NEAREST
                } else {
                    return Err(TextureError::FilterInvalid);
                },
                None => {
                    return Err(TextureError::FilterInvalid);
                },
            },
        };
        let min_filter = if !mipmap {
            mag_filter
        } else if mag_filter == GL_LINEAR {
            GL_LINEAR_MIPMAP_LINEAR
        } else {
            GL_NEAREST_MIPMAP_NEAREST
        };
        let float = match object.get("float") {
            None => false,
            Some(v) => match v.as_bool() {
                Some(b) => b,
                None => {
                    return Err(TextureError::FloatNotBool);
                },
            },
        };
        Ok(TextureBuilder {
            resolution,
            min_filter,
            mag_filter,
            wrap_mode,
            channels: 4,
            float,
            mipmap,
        })
    }
}

} // verus!
