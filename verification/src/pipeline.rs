//! The pipeline description: the audio textures, the images and NDI
//! sources it names, its list of stages, and the textures that the stages
//! render into.
//!
//! A [`PipelineLoader`] reads the sections in order: audio, then the images
//! one at a time (each loaded by the caller before the next is taken), then
//! the NDI sources; the stages follow, and the render targets are planned
//! last. Textures that no stage reads are dropped by [`retain_used`].
use vstd::prelude::*;
use crate::config::option_view;
use crate::stage::{StageConfig, StageKind, no_nul, number_of, resolution3};
use crate::text::{str_eq, string_views};
use crate::texture::{
    FramebufferRequest,
    TextureRequest,
    kind_for,
    format_for,
    clamp_dim,
    TextureBuilder,
    TextureError,
    parse_spec,
    min_filter_for,
    GL_NEAREST,
    GL_CLAMP_TO_EDGE,
};
use crate::yaml::{LoadError, Yaml, YamlNumber, yaml_document};

verus! {

/// The number of audio samples kept when the pipeline asks for no other.
pub const AUDIO_SAMPLES: usize = 512;

/// The number of bands of the processed spectra.
pub const SPECTRUM_BANDS: u32 = 100;

/// The bits of the `f64` number one half, the default smoothing attack and
/// decay.
pub const HALF_F64_BITS: u64 = 0x3FE0_0000_0000_0000;

/// Why a pipeline description was refused.
#[derive(Debug, Clone, Copy, PartialEq, Eq)]
pub enum PipelineError {
    /// `audio_samples` is a number, but not a non-negative integer.
    AudioSamplesNotUnsigned,
    /// `audio_samples` is not a number.
    AudioSamplesNotNumber,
    /// The smoothing `attack` or `decay` is not a number.
    SmoothingNotNumber,
    /// A texture description was refused.
    Texture(TextureError),
    /// The `images` field is not a list.
    ImagesNotList,
    /// The image at this position has no string `path`.
    ImagePathNotString(usize),
    /// The image at this position has no string `name`.
    ImageNameNotString(usize),
    /// The image at this position takes a name already in use.
    ImageNameTaken(usize),
    /// The `ndi` field is not a list.
    NdiNotList,
    /// The NDI entry at this position has no string `source`.
    NdiSourceNotString(usize),
    /// The NDI entry at this position has no string `name`.
    NdiNameNotString(usize),
    /// The NDI entry at this position takes a name already in use.
    NdiNameTaken(usize),
    /// The description has no `stages` field.
    StagesMissing,
    /// The `stages` field is not a list.
    StagesNotList,
    /// The stage at this position renders into a target that an earlier
    /// stage gave another resolution.
    TargetResolutionMismatch(usize),
    /// The stage at this position renders into an image or built-in texture.
    TargetTaken(usize),
}

/// The audio settings of a pipeline and the builders of its audio textures.
#[derive(Debug, Clone)]
pub struct AudioSettings {
    pub audio_samples: usize,
    pub attack: YamlNumber,
    pub decay: YamlNumber,
    pub samples: TextureBuilder,
    pub spectrum_raw: TextureBuilder,
    pub spectrum: TextureBuilder,
    pub spectrum_smooth: TextureBuilder,
    pub spectrum_integrated: TextureBuilder,
    pub spectrum_smooth_integrated: TextureBuilder,
}

/// The names of the textures that every pipeline has.
pub open spec fn builtin_names() -> Seq<Seq<char>> {
    seq![
        "samples"@,
        "spectrum_raw"@,
        "spectrum"@,
        "spectrum_smooth"@,
        "spectrum_integrated"@,
        "spectrum_smooth_integrated"@,
        "noise"@,
    ]
}

/// The value under `key` in the audio section, if there is one.
pub open spec fn section_entry(sec: Option<Yaml>, key: Seq<char>) -> Option<Yaml> {
    match sec {
        None => None,
        Some(s) => s.lookup(key),
    }
}

/// The number of audio samples.
pub open spec fn audio_samples_spec(sec: Option<Yaml>) -> Result<usize, PipelineError> {
    match section_entry(sec, "audio_samples"@) {
        None => Ok(AUDIO_SAMPLES),
        Some(Yaml::Number(YamlNumber::PosInt(n))) => Ok(n as usize),
        Some(Yaml::Number(_)) => Err(PipelineError::AudioSamplesNotUnsigned),
        Some(_) => Err(PipelineError::AudioSamplesNotNumber),
    }
}

/// A smoothing factor: one half when absent, else a number.
pub open spec fn smoothing_spec(sec: Option<Yaml>, key: Seq<char>) -> Result<
    YamlNumber,
    PipelineError,
> {
    match section_entry(sec, key) {
        None => Ok(YamlNumber::Float(HALF_F64_BITS)),
        Some(v) => match number_of(v) {
            Some(n) => Ok(n),
            None => Err(PipelineError::SmoothingNotNumber),
        },
    }
}

/// The fault of the texture description under `key`, if any.
pub open spec fn audio_texture_error(sec: Option<Yaml>, key: Seq<char>) -> Option<TextureError> {
    match section_entry(sec, key) {
        None => None,
        Some(v) => match parse_spec(v, false, true) {
            Ok(_) => None,
            Err(e) => Some(e),
        },
    }
}

/// An audio texture's builder: the description under `key` (or the
/// default one), of two float channels and the given resolution.
pub open spec fn audio_texture_ok(b: TextureBuilder, sec: Option<Yaml>, key: Seq<char>, res: u32) -> bool {
    &&& b.resolution@ == seq![res]
    &&& b.channels == 2
    &&& b.float
    &&& match section_entry(sec, key) {
        None => b.min_filter == GL_NEAREST && b.mag_filter == GL_NEAREST && b.wrap_mode
            == GL_CLAMP_TO_EDGE && !b.mipmap,
        Some(v) => match parse_spec(v, false, true) {
            Ok((_, mip, wrap, mag, _)) => b.mipmap == mip && b.wrap_mode == wrap && b.mag_filter
                == mag && b.min_filter == min_filter_for(mag, mip),
            Err(_) => false,
        },
    }
}

/// The keys of the six audio textures, in the order they are read.
pub open spec fn audio_keys() -> Seq<Seq<char>> {
    seq![
        "samples"@,
        "raw_spectrum"@,
        "spectrum"@,
        "spectrum_smooth"@,
        "spectrum_integrated"@,
        "spectrum_smooth_integrated"@,
    ]
}

/// The first fault among the audio textures from the `i`-th on.
pub open spec fn audio_textures_error(sec: Option<Yaml>, i: int) -> Option<TextureError>
    decreases 6 - i,
{
    if i < 0 || i >= 6 {
        None
    } else {
        match audio_texture_error(sec, audio_keys()[i]) {
            Some(e) => Some(e),
            None => audio_textures_error(sec, i + 1),
        }
    }
}

/// The first fault of the audio section, read in the order: sample count,
/// attack, decay, then the six textures.
pub open spec fn audio_error(o: Yaml) -> Option<PipelineError> {
    let sec = o.lookup("audio"@);
    match audio_samples_spec(sec) {
        Err(e) => Some(e),
        Ok(_) => match smoothing_spec(sec, "attack"@) {
            Err(e) => Some(e),
            Ok(_) => match smoothing_spec(sec, "decay"@) {
                Err(e) => Some(e),
                Ok(_) => match audio_textures_error(sec, 0) {
                    Some(e) => Some(PipelineError::Texture(e)),
                    None => None,
                },
            },
        },
    }
}

/// The audio settings that the description gives.
pub open spec fn audio_ok(o: Yaml, a: AudioSettings) -> bool {
    let sec = o.lookup("audio"@);
    &&& audio_samples_spec(sec) == Ok::<usize, PipelineError>(a.audio_samples)
    &&& smoothing_spec(sec, "attack"@) == Ok::<YamlNumber, PipelineError>(a.attack)
    &&& smoothing_spec(sec, "decay"@) == Ok::<YamlNumber, PipelineError>(a.decay)
    &&& audio_texture_ok(a.samples, sec, "samples"@, a.audio_samples as u32)
    &&& audio_texture_ok(a.spectrum_raw, sec, "raw_spectrum"@, (a.audio_samples / 2) as u32)
    &&& audio_texture_ok(a.spectrum, sec, "spectrum"@, SPECTRUM_BANDS)
    &&& audio_texture_ok(a.spectrum_smooth, sec, "spectrum_smooth"@, SPECTRUM_BANDS)
    &&& audio_texture_ok(a.spectrum_integrated, sec, "spectrum_integrated"@, SPECTRUM_BANDS)
    &&& audio_texture_ok(
        a.spectrum_smooth_integrated,
        sec,
        "spectrum_smooth_integrated"@,
        SPECTRUM_BANDS,
    )
}

/// Of the six audio textures, the sample buffer has one texel per audio
/// sample and the raw spectrum one per half of them; the four processed
/// spectra have the 100 bands that the analysis writes, however many
/// samples there are.
pub proof fn lemma_audio_resolutions(o: Yaml, a: AudioSettings)
    requires
        audio_ok(o, a),
    ensures
        a.samples.resolution@ == seq![a.audio_samples as u32],
        a.spectrum_raw.resolution@ == seq![(a.audio_samples / 2) as u32],
        a.spectrum.resolution@ == seq![100u32],
        a.spectrum_smooth.resolution@ == seq![100u32],
        a.spectrum_integrated.resolution@ == seq![100u32],
        a.spectrum_smooth_integrated.resolution@ == seq![100u32],
        section_entry(o.lookup("audio"@), "audio_samples"@) is None ==> a.audio_samples == 512,
{
}

/// A list section of the description (`images`, `ndi`): absent, or a list.
pub open spec fn list_section(o: Yaml, key: Seq<char>) -> Option<Option<Seq<Yaml>>> {
    match o.lookup(key) {
        None => Some(Some(seq![])),
        Some(Yaml::Sequence(s)) => Some(Some(s@)),
        Some(_) => None,
    }
}

/// The view of a list of names.
pub open spec fn name_set(taken: Seq<String>) -> Seq<Seq<char>> {
    string_views(taken)
}

/// The string field `key` of an entry, with no tag.
pub open spec fn plain_string(o: Yaml, key: Seq<char>) -> Option<Seq<char>> {
    match o.lookup(key) {
        Some(Yaml::String(s)) => Some(s@),
        _ => None,
    }
}

} // verus!

verus! {

fn entry<'a>(sec: Option<&'a Yaml>, key: &str) -> (r: Option<&'a Yaml>)
    ensures
        match section_entry(crate::config::deref_field(sec), key@) {
            Some(v) => r matches Some(x) && *x == v,
            None => r is None,
        },
{
    match sec {
        None => None,
        Some(s) => s.get(key),
    }
}

fn smoothing(sec: Option<&Yaml>, key: &str) -> (r: Result<YamlNumber, PipelineError>)
    ensures
        r == smoothing_spec(crate::config::deref_field(sec), key@),
{
    match entry(sec, key) {
        None => Ok(YamlNumber::Float(HALF_F64_BITS)),
        Some(v) => match v.untag() {
            Yaml::Number(n) => Ok(*n),
            _ => Err(PipelineError::SmoothingNotNumber),
        },
    }
}

fn audio_texture(sec: Option<&Yaml>, key: &str, res: u32) -> (r: Result<TextureBuilder, TextureError>)
    ensures
        match audio_texture_error(crate::config::deref_field(sec), key@) {
            Some(e) => r matches Err(e2) && e2 == e,
            None => r matches Ok(b) && audio_texture_ok(
                b,
                crate::config::deref_field(sec),
                key@,
                res,
            ),
        },
{
    let mut b = match entry(sec, key) {
        None => TextureBuilder::new(),
        Some(v) => TextureBuilder::parse(v, false, true)?,
    };
    let mut res_v: Vec<u32> = Vec::new();
    res_v.push(res);
    b.set_resolution(res_v).set_channels(2).set_float(true);
    assert(b.resolution@ =~= seq![res]);
    Ok(b)
}

/// Reads the `audio` section: the number of samples (512 when not given),
/// the smoothing `attack` and `decay` (one half when not given), and the
/// descriptions of the six audio textures (under `samples`,
/// `raw_spectrum`, `spectrum`, `spectrum_smooth`, `spectrum_integrated` and
/// `spectrum_smooth_integrated`), which get two float channels and a
/// one-dimensional resolution: the sample count for the samples, half of it
/// for the raw spectrum, and 100 bands for the others.
pub fn parse_audio(object: &Yaml) -> (r: Result<AudioSettings, PipelineError>)
    ensures
        match audio_error(*object) {
            Some(e) => r matches Err(e2) && e2 == e,
            None => r matches Ok(a) && audio_ok(*object, a),
        },
        r matches Ok(a) ==> a.spectrum.resolution@ == seq![100u32]
            && a.spectrum_smooth.resolution@ == seq![100u32]
            && a.spectrum_integrated.resolution@ == seq![100u32]
            && a.spectrum_smooth_integrated.resolution@ == seq![100u32],
{
    let sec = object.get("audio");
    let ghost sv = crate::config::deref_field(sec);
    let audio_samples: usize = match entry(sec, "audio_samples") {
        None => AUDIO_SAMPLES,
        Some(Yaml::Number(YamlNumber::PosInt(n))) => *n as usize,
        Some(Yaml::Number(_)) => {
            return Err(PipelineError::AudioSamplesNotUnsigned);
        },
        Some(_) => {
            return Err(PipelineError::AudioSamplesNotNumber);
        },
    };
    let attack = smoothing(sec, "attack")?;
    let decay = smoothing(sec, "decay")?;
    proof {
        reveal_with_fuel(audio_textures_error, 7);
    }
    let samples = match audio_texture(sec, "samples", audio_samples as u32) {
        Ok(b) => b,
        Err(e) => {
            return Err(PipelineError::Texture(e));
        },
    };
    let spectrum_raw = match audio_texture(sec, "raw_spectrum", (audio_samples / 2) as u32) {
        Ok(b) => b,
        Err(e) => {
            return Err(PipelineError::Texture(e));
        },
    };
    let spectrum = match audio_texture(sec, "spectrum", SPECTRUM_BANDS) {
        Ok(b) => b,
        Err(e) => {
            return Err(PipelineError::Texture(e));
        },
    };
    let spectrum_smooth = match audio_texture(sec, "spectrum_smooth", SPECTRUM_BANDS) {
        Ok(b) => b,
        Err(e) => {
            return Err(PipelineError::Texture(e));
        },
    };
    let spectrum_integrated = match audio_texture(sec, "spectrum_integrated", SPECTRUM_BANDS) {
        Ok(b) => b,
        Err(e) => {
            return Err(PipelineError::Texture(e));
        },
    };
    let spectrum_smooth_integrated = match audio_texture(
        sec,
        "spectrum_smooth_integrated",
        SPECTRUM_BANDS,
    ) {
        Ok(b) => b,
        Err(e) => {
            return Err(PipelineError::Texture(e));
        },
    };
    Ok(
        AudioSettings {
            audio_samples,
            attack,
            decay,
            samples,
            spectrum_raw,
            spectrum,
            spectrum_smooth,
            spectrum_integrated,
            spectrum_smooth_integrated,
        },
    )
}

} // verus!

verus! {

/// The entries of the `images` list; none when the field is absent.
pub fn image_list(object: &Yaml) -> (r: Result<&[Yaml], PipelineError>)
    ensures
        match list_section(*object, "images"@) {
            Some(Some(s)) => r matches Ok(e) && e@ == s,
            _ => r matches Err(e) && e == PipelineError::ImagesNotList,
        },
{
    match object.get("images") {
        None => Ok(&[]),
        Some(Yaml::Sequence(s)) => Ok(s.as_slice()),
        Some(_) => Err(PipelineError::ImagesNotList),
    }
}

/// The entries of the `ndi` list; none when the field is absent.
pub fn ndi_list(object: &Yaml) -> (r: Result<&[Yaml], PipelineError>)
    ensures
        match list_section(*object, "ndi"@) {
            Some(Some(s)) => r matches Ok(e) && e@ == s,
            _ => r matches Err(e) && e == PipelineError::NdiNotList,
        },
{
    match object.get("ndi") {
        None => Ok(&[]),
        Some(Yaml::Sequence(s)) => Ok(s.as_slice()),
        Some(_) => Err(PipelineError::NdiNotList),
    }
}

/// The entries of the required `stages` list.
pub fn stage_list(object: &Yaml) -> (r: Result<&[Yaml], PipelineError>)
    ensures
        match object.lookup("stages"@) {
            None => r matches Err(e) && e == PipelineError::StagesMissing,
            Some(Yaml::Sequence(s)) => r matches Ok(e) && e@ == s@,
            Some(_) => r matches Err(e) && e == PipelineError::StagesNotList,
        },
{
    match object.get("stages") {
        None => Err(PipelineError::StagesMissing),
        Some(Yaml::Sequence(s)) => Ok(s.as_slice()),
        Some(_) => Err(PipelineError::StagesNotList),
    }
}

/// Whether `name` is one of `taken`.
pub fn name_taken(taken: &[String], name: &str) -> (r: bool)
    ensures
        r == name_set(taken@).contains(name@),
{
    let mut i: usize = 0;
    while i < taken.len()
        invariant
            i <= taken@.len(),
            forall|j: int| 0 <= j < i ==> taken@[j]@ != name@,
        decreases taken@.len() - i,
    {
        if str_eq(taken[i].as_str(), name) {
            assert(name_set(taken@)[i as int] == name@);
            return true;
        }
        i = i + 1;
    }
    proof {
        if name_set(taken@).contains(name@) {
            let j = choose|j: int| 0 <= j < name_set(taken@).len() && name_set(taken@)[j] == name@;
            assert(taken@[j]@ == name@);
        }
    }
    false
}

/// The names of the built-in textures: the six audio textures and the
/// noise texture.
pub fn builtin_texture_names() -> (r: Vec<String>)
    ensures
        name_set(r@) == builtin_names(),
{
    let mut r: Vec<String> = Vec::new();
    r.push("samples".to_owned());
    r.push("spectrum_raw".to_owned());
    r.push("spectrum".to_owned());
    r.push("spectrum_smooth".to_owned());
    r.push("spectrum_integrated".to_owned());
    r.push("spectrum_smooth_integrated".to_owned());
    r.push("noise".to_owned());
    assert(name_set(r@) =~= builtin_names());
    r
}

/// The path and the texture name of the image entry at position `index`,
/// whose name must not be one of `taken`.
pub fn image_entry(object: &Yaml, index: usize, taken: &[String]) -> (r: Result<
    (String, String),
    PipelineError,
>)
    requires
        plain_string(*object, "name"@) matches Some(n) ==> no_nul(n),
    ensures
        match (plain_string(*object, "path"@), plain_string(*object, "name"@)) {
            (None, _) => r matches Err(e) && e == PipelineError::ImagePathNotString(index),
            (Some(_), None) => r matches Err(e) && e == PipelineError::ImageNameNotString(index),
            (Some(p), Some(n)) => if name_set(taken@).contains(n) {
                r matches Err(e) && e == PipelineError::ImageNameTaken(index)
            } else {
                r matches Ok((p2, n2)) && p2@ == p && n2@ == n
            },
        },
{
    let path = match object.get("path") {
        Some(Yaml::String(s)) => s,
        _ => {
            return Err(PipelineError::ImagePathNotString(index));
        },
    };
    let name = match object.get("name") {
        Some(Yaml::String(s)) => s,
        _ => {
            return Err(PipelineError::ImageNameNotString(index));
        },
    };
    if name_taken(taken, name.as_str()) {
        return Err(PipelineError::ImageNameTaken(index));
    }
    Ok((path.clone(), name.clone()))
}

/// The texture of a loaded image: the entry's description (with no
/// resolution or mipmap fields read) at the image's size.
pub fn image_builder(object: &Yaml, width: u32, height: u32) -> (r: Result<
    TextureBuilder,
    TextureError,
>)
    ensures
        match parse_spec(*object, false, false) {
            Ok((_, mip, wrap, mag, float)) => r matches Ok(b) && b.resolution@ == seq![width, height]
                && b.mipmap == mip && b.wrap_mode == wrap && b.mag_filter == mag && b.min_filter
                == min_filter_for(mag, mip) && b.float == float && b.channels == 4,
            Err(e) => r matches Err(e2) && e2 == e,
        },
{
    let mut b = TextureBuilder::parse(object, false, false)?;
    let mut res: Vec<u32> = Vec::new();
    res.push(width);
    res.push(height);
    b.resolution = res;
    assert(b.resolution@ =~= seq![width, height]);
    Ok(b)
}

/// An NDI source requested by the pipeline and the texture it is shown in.
#[derive(Debug, Clone)]
pub struct NdiEntry {
    pub source: String,
    pub name: String,
    pub builder: TextureBuilder,
}

/// The NDI entry at position `index`: its source, its texture name, which
/// must not be one of `taken`, and its texture (the entry's description,
/// as bytes, at a size of one by one until frames arrive).
pub fn ndi_entry(object: &Yaml, index: usize, taken: &[String]) -> (r: Result<
    NdiEntry,
    PipelineError,
>)
    requires
        plain_string(*object, "name"@) matches Some(n) ==> no_nul(n),
    ensures
        match (plain_string(*object, "source"@), plain_string(*object, "name"@)) {
            (None, _) => r matches Err(e) && e == PipelineError::NdiSourceNotString(index),
            (Some(_), None) => r matches Err(e) && e == PipelineError::NdiNameNotString(index),
            (Some(s), Some(n)) => if name_set(taken@).contains(n) {
                r matches Err(e) && e == PipelineError::NdiNameTaken(index)
            } else {
                match parse_spec(*object, false, true) {
                    Err(e) => r matches Err(e2) && e2 == PipelineError::Texture(e),
                    Ok((_, mip, wrap, mag, _)) => r matches Ok(x) && x.source@ == s && x.name@
                        == n && x.builder.resolution@ == seq![1u32, 1u32] && !x.builder.float
                        && x.builder.mipmap == mip && x.builder.wrap_mode == wrap
                        && x.builder.mag_filter == mag && x.builder.min_filter == min_filter_for(
                        mag,
                        mip,
                    ) && x.builder.channels == 4,
                }
            },
        },
{
    let source = match object.get("source") {
        Some(Yaml::String(s)) => s,
        _ => {
            return Err(PipelineError::NdiSourceNotString(index));
        },
    };
    let name = match object.get("name") {
        Some(Yaml::String(s)) => s,
        _ => {
            return Err(PipelineError::NdiNameNotString(index));
        },
    };
    if name_taken(taken, name.as_str()) {
        return Err(PipelineError::NdiNameTaken(index));
    }
    let mut builder = match TextureBuilder::parse(object, false, true) {
        Ok(b) => b,
        Err(e) => {
            return Err(PipelineError::Texture(e));
        },
    };
    let mut res: Vec<u32> = Vec::new();
    res.push(1);
    res.push(1);
    builder.set_float(false).set_resolution(res);
    assert(builder.resolution@ =~= seq![1u32, 1u32]);
    Ok(NdiEntry { source: source.clone(), name: name.clone(), builder })
}

} // verus!

verus! {

/// The render target that the `i`-th stage names, if any.
pub open spec fn target_of(st: Seq<StageConfig>, i: int) -> Option<Seq<char>> {
    option_view(st[i].target)
}

/// The resolution of the `i`-th stage, as three dimensions.
pub open spec fn res_of(st: Seq<StageConfig>, i: int) -> Option<Seq<u32>> {
    resolution3(st[i].builder.resolution@)
}

/// The position in `made`, from the `j`-th on, of the stage that creates
/// the target `t`.
pub open spec fn creator(st: Seq<StageConfig>, made: Seq<usize>, t: Seq<char>, j: int) -> Option<int>
    decreases made.len() - j,
{
    if j < 0 || j >= made.len() {
        None
    } else if target_of(st, made[j] as int) == Some(t) {
        Some(j)
    } else {
        creator(st, made, t, j + 1)
    }
}

/// Which stages, from the `i`-th on, create their render target, given the
/// names in use (`taken`) and the stages that already create one (`made`):
/// a stage creates its target when the name is new; a later stage that
/// names the same target must give it the same resolution; a stage may not
/// render into an image or a built-in texture.
pub open spec fn plan_from(taken: Seq<Seq<char>>, st: Seq<StageConfig>, i: int, made: Seq<usize>) -> Result<
    Seq<usize>,
    PipelineError,
>
    decreases st.len() - i,
{
    if i < 0 || i >= st.len() {
        Ok(made)
    } else {
        match target_of(st, i) {
            None => plan_from(taken, st, i + 1, made),
            Some(t) => if taken.contains(t) {
                match creator(st, made, t, 0) {
                    Some(j) => if res_of(st, made[j] as int) == res_of(st, i) {
                        plan_from(taken, st, i + 1, made)
                    } else {
                        Err(PipelineError::TargetResolutionMismatch(i as usize))
                    },
                    None => Err(PipelineError::TargetTaken(i as usize)),
                }
            } else {
                plan_from(taken.push(t), st, i + 1, made.push(i as usize))
            },
        }
    }
}

/// The stages that create their render targets, given the names of the
/// textures that exist before any stage.
pub open spec fn plan_spec(taken: Seq<Seq<char>>, st: Seq<StageConfig>) -> Result<Seq<usize>, PipelineError> {
    plan_from(taken, st, 0, seq![])
}

/// The name of a target, or the empty name for none.
pub open spec fn name_or_empty(t: Option<Seq<char>>) -> Seq<char> {
    match t {
        Some(s) => s,
        None => seq![],
    }
}

/// The names of the targets that the stages in `made` create.
pub open spec fn created_names(st: Seq<StageConfig>, made: Seq<usize>) -> Seq<Seq<char>> {
    Seq::new(made.len(), |j: int| name_or_empty(target_of(st, made[j] as int)))
}

/// What holds of the stages that create targets, among the first `i`.
pub open spec fn plan_state_ok(
    taken0: Seq<Seq<char>>,
    taken: Seq<Seq<char>>,
    st: Seq<StageConfig>,
    i: int,
    made: Seq<usize>,
) -> bool {
    &&& 0 <= i <= st.len()
    &&& taken == taken0 + created_names(st, made)
    &&& forall|j: int| 0 <= j < made.len() ==> #[trigger] made[j] < i
    &&& forall|j: int|
        0 <= j < made.len() ==> (#[trigger] target_of(st, made[j] as int)) is Some
            && !taken0.contains(target_of(st, made[j] as int)->Some_0)
    &&& forall|j: int, k: int|
        0 <= j < k < made.len() ==> #[trigger] target_of(st, made[j] as int) != #[trigger] target_of(
            st,
            made[k] as int,
        )
    &&& forall|q: int|
        0 <= q < i && (#[trigger] target_of(st, q)) is Some ==> exists|j: int|
            0 <= j < made.len() && target_of(st, made[j] as int) == target_of(st, q) && res_of(
                st,
                made[j] as int,
            ) == res_of(st, q)
}

proof fn lemma_creator(st: Seq<StageConfig>, made: Seq<usize>, t: Seq<char>, j: int)
    requires
        0 <= j,
    ensures
        creator(st, made, t, j) matches Some(k) ==> j <= k < made.len() && target_of(
            st,
            made[k] as int,
        ) == Some(t),
        creator(st, made, t, j) is None ==> forall|k: int|
            j <= k < made.len() ==> target_of(st, made[k] as int) != Some(t),
    decreases made.len() - j,
{
    if j < made.len() {
        lemma_creator(st, made, t, j + 1);
    }
}

proof fn lemma_plan_step(
    taken0: Seq<Seq<char>>,
    taken: Seq<Seq<char>>,
    st: Seq<StageConfig>,
    i: int,
    made: Seq<usize>,
)
    requires
        st.len() <= usize::MAX,
        plan_state_ok(taken0, taken, st, i, made),
        plan_from(taken, st, i, made) is Ok,
    ensures
        plan_from(taken, st, i, made) matches Ok(res) && plan_state_ok(
            taken0,
            taken0 + created_names(st, res),
            st,
            st.len() as int,
            res,
        ),
    decreases st.len() - i,
{
    if i < st.len() {
        match target_of(st, i) {
            None => {
                lemma_plan_step(taken0, taken, st, i + 1, made);
            },
            Some(t) => {
                if taken.contains(t) {
                    lemma_creator(st, made, t, 0);
                    let j = creator(st, made, t, 0)->Some_0;
                    lemma_plan_step(taken0, taken, st, i + 1, made);
                } else {
                    let made2 = made.push(i as usize);
                    let taken2 = taken.push(t);
                    assert(made2[made.len() as int] as int == i);
                    assert(created_names(st, made2) =~= created_names(st, made).push(t));
                    assert(taken2 =~= taken0 + created_names(st, made2));
                    assert forall|j: int| 0 <= j < made.len() implies target_of(
                        st,
                        made[j] as int,
                    ) != Some(t) by {
                        assert(taken[taken0.len() + j] == created_names(st, made)[j]);
                    }
                    assert forall|j: int, k: int|
                        0 <= j < k < made2.len() implies #[trigger] target_of(
                        st,
                        made2[j] as int,
                    ) != #[trigger] target_of(st, made2[k] as int) by {
                        if k == made.len() {
                            assert(made2[j] == made[j]);
                        } else {
                            assert(made2[j] == made[j] && made2[k] == made[k]);
                        }
                    }
                    assert forall|q: int|
                        0 <= q < i + 1 && (#[trigger] target_of(st, q)) is Some implies exists|j: int|
                        0 <= j < made2.len() && target_of(st, made2[j] as int) == target_of(st, q) && res_of(
                            st,
                            made2[j] as int,
                        ) == res_of(st, q) by {
                        if q == i {
                            assert(made2[made.len() as int] == i);
                        } else {
                            let j = choose|j: int|
                                0 <= j < made.len() && target_of(st, made[j] as int) == target_of(st, q)
                                    && res_of(st, made[j] as int) == res_of(st, q);
                            assert(made2[j] == made[j]);
                        }
                    }
                    assert forall|j: int| 0 <= j < made2.len() implies #[trigger] made2[j] < i + 1 by {
                        if j < made.len() {
                            assert(made2[j] == made[j]);
                        }
                    }
                    assert(!taken0.contains(t)) by {
                        if taken0.contains(t) {
                            let z = choose|z: int| 0 <= z < taken0.len() && taken0[z] == t;
                            assert(taken[z] == t);
                        }
                    }
                    assert forall|j: int| 0 <= j < made2.len() implies (#[trigger] target_of(
                        st,
                        made2[j] as int,
                    )) is Some && !taken0.contains(target_of(st, made2[j] as int)->Some_0) by {
                        if j < made.len() {
                            assert(made2[j] == made[j]);
                        }
                    }
                    assert(plan_state_ok(taken0, taken2, st, i + 1, made2));
                    lemma_plan_step(taken0, taken2, st, i + 1, made2);
                }
            },
        }
    } else {
        assert(taken0 + created_names(st, made) == taken);
    }
}

/// When the render targets of a pipeline can be planned, each stage that
/// creates one creates a target of a new name, no two create the same
/// target, and every stage that names a target finds it created by a stage
/// of the same resolution.
pub proof fn lemma_plan_targets(taken: Seq<Seq<char>>, st: Seq<StageConfig>)
    requires
        st.len() <= usize::MAX,
        plan_spec(taken, st) is Ok,
    ensures
        plan_spec(taken, st) matches Ok(made) && {
            &&& forall|j: int|
                0 <= j < made.len() ==> #[trigger] made[j] < st.len() && target_of(
                    st,
                    made[j] as int,
                ) is Some && !taken.contains(target_of(st, made[j] as int)->Some_0)
            &&& forall|j: int, k: int|
                0 <= j < k < made.len() ==> #[trigger] target_of(st, made[j] as int)
                    != #[trigger] target_of(st, made[k] as int)
            &&& forall|q: int|
                0 <= q < st.len() && (#[trigger] target_of(st, q)) is Some ==> exists|j: int|
                    0 <= j < made.len() && target_of(st, made[j] as int) == target_of(st, q) && res_of(
                        st,
                        made[j] as int,
                    ) == res_of(st, q)
        },
{
    assert(created_names(st, seq![]) =~= seq![]);
    assert(taken + created_names(st, seq![]) =~= taken);
    lemma_plan_step(taken, taken, st, 0, seq![]);
}

} // verus!

verus! {

/// The view of an optional resolution.
pub open spec fn res_view(r: Option<[u32; 3]>) -> Option<Seq<u32>> {
    match r {
        Some(a) => Some(a@),
        None => None,
    }
}

fn same_resolution(a: Option<[u32; 3]>, b: Option<[u32; 3]>) -> (r: bool)
    ensures
        r == (res_view(a) == res_view(b)),
{
    match (a, b) {
        (None, None) => true,
        (Some(x), Some(y)) => {
            let r = x[0] == y[0] && x[1] == y[1] && x[2] == y[2];
            assert(r ==> x@ =~= y@);
            r
        },
        _ => false,
    }
}

/// The stages that create their render targets, in order, given the names
/// of the textures that exist before any stage (the built-in textures,
/// images and NDI sources): a stage creates its target when the name is
/// new; a later stage that names the same target must give it the same
/// resolution; and no stage may render into an image or built-in texture.
pub fn plan_targets(taken: &[String], stages: &[StageConfig]) -> (r: Result<Vec<usize>, PipelineError>)
    ensures
        match plan_spec(name_set(taken@), stages@) {
            Ok(m) => r matches Ok(v) && v@ == m,
            Err(e) => r matches Err(e2) && e2 == e,
        },
{
    let mut names: Vec<String> = Vec::new();
    let mut k: usize = 0;
    while k < taken.len()
        invariant
            k <= taken@.len(),
            names@.len() == k,
            name_set(names@) == name_set(taken@).subrange(0, k as int),
        decreases taken@.len() - k,
    {
        let ghost before = names@;
        names.push(taken[k].clone());
        assert(names@ == before.push(taken@[k as int]));
        assert forall|q: int| 0 <= q < k + 1 implies name_set(names@)[q] == name_set(taken@)[q] by {
            if q < k {
                assert(names@[q] == before[q]);
                assert(name_set(before)[q] == name_set(taken@).subrange(0, k as int)[q]);
            }
        }
        assert(name_set(names@) =~= name_set(taken@).subrange(0, k + 1));
        k = k + 1;
    }
    assert(name_set(taken@).subrange(0, taken@.len() as int) =~= name_set(taken@));
    let mut made: Vec<usize> = Vec::new();
    let mut i: usize = 0;
    while i < stages.len()
        invariant
            i <= stages@.len(),
            plan_spec(name_set(taken@), stages@) == plan_from(name_set(names@), stages@, i as int, made@),
            forall|j: int| 0 <= j < made@.len() ==> #[trigger] made@[j] < i,
        decreases stages@.len() - i,
    {
        match &stages[i].target {
            None => {},
            Some(t) => {
                if name_taken(names.as_slice(), t.as_str()) {
                    let mut j: usize = 0;
                    let mut found: Option<usize> = None;
                    while j < made.len()
                        invariant
                            j <= made@.len(),
                            forall|q: int| 0 <= q < made@.len() ==> #[trigger] made@[q] < i,
                            i < stages@.len(),
                            found is None ==> creator(stages@, made@, t@, 0) == creator(
                                stages@,
                                made@,
                                t@,
                                j as int,
                            ),
                            found is Some ==> j == made@.len(),
                            found matches Some(f) ==> (f < made@.len() && creator(stages@, made@, t@, 0) == Some(
                                f as int,
                            )),
                        decreases made@.len() - j,
                    {
                        let m = made[j];
                        let hit = match &stages[m].target {
                            Some(u) => str_eq(u.as_str(), t.as_str()),
                            None => false,
                        };
                        if hit {
                            assert(target_of(stages@, made@[j as int] as int) == Some(t@));
                            assert(creator(stages@, made@, t@, j as int) == Some(j as int));
                            found = Some(j);
                            j = made.len();
                        } else {
                            j = j + 1;
                        }
                    }
                    match found {
                        Some(f) => {
                            let a = stages[made[f]].resolution();
                            let b = stages[i].resolution();
                            if !same_resolution(a, b) {
                                return Err(PipelineError::TargetResolutionMismatch(i));
                            }
                        },
                        None => {
                            return Err(PipelineError::TargetTaken(i));
                        },
                    }
                } else {
                    let ghost before = names@;
                    names.push(t.clone());
                    made.push(i);
                    assert(name_set(names@) =~= name_set(before).push(t@));
                }
            },
        }
        i = i + 1;
    }
    Ok(made)
}

} // verus!

verus! {

/// The texture a stage renders into.
#[derive(Debug, Clone, Copy)]
pub enum TargetTexture {
    /// A framebuffer, for fragment and vertex stages.
    Framebuffer(FramebufferRequest),
    /// An image, for compute stages.
    Image(TextureRequest),
}

/// The texture to create for a stage's render target: a framebuffer of the
/// stage's resolution (or the screen's, when it gives none) for fragment
/// and vertex stages, an image of the stage's resolution for compute
/// stages.
pub fn target_texture(stage: &StageConfig, screen_size: (u32, u32)) -> (r: TargetTexture)
    requires
        stage.wf(),
    ensures
        match stage.kind {
            StageKind::Comp { .. } => r matches TargetTexture::Image(t) && t.kind == kind_for(
                stage.builder.resolution@,
                true,
            ) && t.min_filter == stage.builder.min_filter && t.mag_filter
                == stage.builder.mag_filter && t.wrap_mode == stage.builder.wrap_mode && t.format
                == format_for(stage.builder.channels, stage.builder.float),
            _ => r matches TargetTexture::Framebuffer(f) && (if stage.builder.resolution@.len()
                == 2 {
                f.width == clamp_dim(stage.builder.resolution@[0]) && f.height == clamp_dim(
                    stage.builder.resolution@[1],
                )
            } else {
                f.width == clamp_dim(screen_size.0) && f.height == clamp_dim(screen_size.1)
            }) && f.min_filter == stage.builder.min_filter && f.mag_filter
                == stage.builder.mag_filter && f.wrap_mode == stage.builder.wrap_mode && f.mipmap
                == stage.builder.mipmap && f.float == stage.builder.float,
        },
{
    match stage.kind {
        StageKind::Comp { .. } => TargetTexture::Image(stage.builder.build_image()),
        _ => TargetTexture::Framebuffer(stage.builder.build_framebuffer(screen_size)),
    }
}

/// The stages whose render targets follow the screen's size, in order:
/// those that name a target and give no resolution.
pub fn resize_targets(stages: &[StageConfig]) -> (r: Vec<usize>)
    requires
        forall|i: int| 0 <= i < stages@.len() ==> (#[trigger] stages@[i]).wf(),
    ensures
        forall|j: int| 0 <= j < r@.len() ==> #[trigger] r@[j] < stages@.len(),
        forall|j: int, k: int| 0 <= j < k < r@.len() ==> #[trigger] r@[j] < #[trigger] r@[k],
        forall|i: int|
            0 <= i < stages@.len() ==> (r@.contains(i as usize) <==> (#[trigger] stages@[i]).target
                is Some && stages@[i].builder.resolution@.len() == 0),
        forall|j: int| 0 <= j < r@.len() ==> !(#[trigger] stages@[r@[j] as int].kind is Comp),
{
    let mut r: Vec<usize> = Vec::new();
    let mut i: usize = 0;
    while i < stages.len()
        invariant
            i <= stages@.len(),
            forall|q: int| 0 <= q < stages@.len() ==> (#[trigger] stages@[q]).wf(),
            forall|j: int| 0 <= j < r@.len() ==> #[trigger] r@[j] < i,
            forall|j: int, k: int| 0 <= j < k < r@.len() ==> #[trigger] r@[j] < #[trigger] r@[k],
            forall|q: int|
                0 <= q < i ==> (r@.contains(q as usize) <==> (#[trigger] stages@[q]).target is Some
                    && stages@[q].builder.resolution@.len() == 0),
            forall|j: int| 0 <= j < r@.len() ==> !(#[trigger] stages@[r@[j] as int].kind is Comp),
        decreases stages@.len() - i,
    {
        let ghost before = r@;
        if stages[i].target.is_some() && stages[i].builder.resolution.len() == 0 {
            r.push(i);
            assert forall|q: int|
                0 <= q < i + 1 implies (r@.contains(q as usize) <==> (#[trigger] stages@[q]).target
                is Some && stages@[q].builder.resolution@.len() == 0) by {
                if q < i {
                    if before.contains(q as usize) {
                        let j = choose|j: int| 0 <= j < before.len() && before[j] == q as usize;
                        assert(r@[j] == q as usize);
                    }
                    if r@.contains(q as usize) {
                        let j = choose|j: int| 0 <= j < r@.len() && r@[j] == q as usize;
                        assert(j < before.len());
                        assert(before[j] == q as usize);
                    }
                } else {
                    assert(r@[before.len() as int] == i);
                }
            }
        } else {
            assert forall|q: int|
                0 <= q < i + 1 implies (r@.contains(q as usize) <==> (#[trigger] stages@[q]).target
                is Some && stages@[q].builder.resolution@.len() == 0) by {
                if q == i {
                    if r@.contains(q as usize) {
                        let j = choose|j: int| 0 <= j < r@.len() && r@[j] == q as usize;
                    }
                }
            }
        }
        i = i + 1;
    }
    r
}

} // verus!

verus! {

/// Whether some stage uses the `b`-th texture.
pub open spec fn used_by_some(uses: Seq<Vec<bool>>, b: int) -> bool {
    exists|s: int| 0 <= s < uses.len() && b < uses[s]@.len() && #[trigger] uses[s]@[b]
}

/// Which of `count` textures some stage uses, given for each stage which
/// textures its program reads (see [`retain_used`] for dropping the
/// others).
pub fn used_textures(count: usize, uses: &[Vec<bool>]) -> (r: Vec<bool>)
    ensures
        r@.len() == count,
        forall|b: int| 0 <= b < count ==> r@[b] == used_by_some(uses@, b),
{
    let mut r: Vec<bool> = Vec::new();
    let mut b: usize = 0;
    while b < count
        invariant
            b <= count,
            r@.len() == b,
            forall|q: int| 0 <= q < b ==> r@[q] == used_by_some(uses@, q),
        decreases count - b,
    {
        let mut found = false;
        let mut s: usize = 0;
        while s < uses.len()
            invariant
                s <= uses@.len(),
                b < count,
                found == exists|t: int| 0 <= t < s && b < uses@[t]@.len() && #[trigger] uses@[t]@[b as int],
            decreases uses@.len() - s,
        {
            if b < uses[s].len() && uses[s][b] {
                found = true;
            }
            s = s + 1;
        }
        r.push(found);
        b = b + 1;
    }
    r
}

/// The names, from the `i`-th on, whose flag is set.
pub open spec fn used_names(names: Seq<Seq<char>>, used: Seq<bool>, i: int) -> Seq<Seq<char>>
    decreases names.len() - i,
{
    if i < 0 || i >= names.len() {
        seq![]
    } else if used[i] {
        seq![names[i]] + used_names(names, used, i + 1)
    } else {
        used_names(names, used, i + 1)
    }
}

/// The names of the textures that a stage's program reads, in the order of
/// `names`.
pub fn stage_dependencies(names: &[String], used: &[bool]) -> (r: Vec<String>)
    requires
        used@.len() == names@.len(),
    ensures
        name_set(r@) == used_names(name_set(names@), used@, 0),
{
    let mut r: Vec<String> = Vec::new();
    let mut i: usize = 0;
    while i < names.len()
        invariant
            i <= names@.len(),
            used@.len() == names@.len(),
            name_set(r@) + used_names(name_set(names@), used@, i as int) == used_names(
                name_set(names@),
                used@,
                0,
            ),
        decreases names@.len() - i,
    {
        if used[i] {
            let ghost before = r@;
            r.push(names[i].clone());
            assert(name_set(r@) =~= name_set(before).push(names@[i as int]@));
            assert(name_set(r@) + used_names(name_set(names@), used@, i + 1) =~= name_set(before)
                + used_names(name_set(names@), used@, i as int));
        }
        i = i + 1;
    }
    assert(name_set(r@) + used_names(name_set(names@), used@, i as int) =~= name_set(r@));
    r
}

} // verus!

verus! {

/// The size a stage is drawn at this frame, or none when the stage is
/// skipped: a fragment or vertex stage whose target texture was dropped (no
/// stage reads it) is not drawn; otherwise the stage's resolution is used,
/// or the screen's when it gives none.
pub fn draw_size(stage: &StageConfig, target_kept: bool, width: u32, height: u32) -> (r: Option<
    [u32; 3],
>)
    ensures
        !(stage.kind is Comp) && stage.target is Some && !target_kept ==> r is None,
        !(!(stage.kind is Comp) && stage.target is Some && !target_kept) ==> (r matches Some(a) && (
        match resolution3(stage.builder.resolution@) {
            Some(s) => a@ == s,
            None => a@ == seq![width, height, 0u32],
        })),
{
    let is_comp = match stage.kind {
        StageKind::Comp { .. } => true,
        _ => false,
    };
    if !is_comp && stage.target.is_some() && !target_kept {
        return None;
    }
    match stage.resolution() {
        Some(a) => Some(a),
        None => {
            let a = [width, height, 0];
            assert(a@ =~= seq![width, height, 0u32]);
            Some(a)
        },
    }
}

} // verus!

verus! {

/// The view of a list of NDI requests (texture name, source name).
pub open spec fn ndi_view(v: Seq<(String, String)>) -> Seq<(Seq<char>, Seq<char>)> {
    v.map_values(|p: (String, String)| (p.0@, p.1@))
}

/// The NDI requests whose texture is among `kept`.
pub open spec fn kept_requests(ndi: Seq<(Seq<char>, Seq<char>)>, kept: Seq<Seq<char>>) -> Seq<
    (Seq<char>, Seq<char>),
> {
    ndi.filter(|p: (Seq<char>, Seq<char>)| kept.contains(p.0))
}

/// Drops the textures that no stage uses: keeps the names flagged in
/// `used`, in order, and the NDI requests (texture name, source name)
/// whose texture is kept.
pub fn retain_used(names: &[String], used: &[bool], ndi: &[(String, String)]) -> (r: (
    Vec<String>,
    Vec<(String, String)>,
))
    requires
        used@.len() == names@.len(),
    ensures
        name_set(r.0@) == used_names(name_set(names@), used@, 0),
        ndi_view(r.1@) == kept_requests(ndi_view(ndi@), used_names(name_set(names@), used@, 0)),
{
    let kept = stage_dependencies(names, used);
    let ghost k = name_set(kept@);
    let ghost nv = ndi_view(ndi@);
    let mut out: Vec<(String, String)> = Vec::new();
    let mut i: usize = 0;
    while i < ndi.len()
        invariant
            i <= ndi@.len(),
            k == name_set(kept@),
            nv == ndi_view(ndi@),
            ndi_view(out@) == kept_requests(nv.subrange(0, i as int), k),
        decreases ndi@.len() - i,
    {
        let keep = name_taken(kept.as_slice(), ndi[i].0.as_str());
        let ghost before = out@;
        assert(nv.subrange(0, i + 1).drop_last() =~= nv.subrange(0, i as int));
        assert(nv.subrange(0, i + 1).last() == (ndi@[i as int].0@, ndi@[i as int].1@));
        proof {
            reveal(Seq::filter);
        }
        if keep {
            out.push((ndi[i].0.clone(), ndi[i].1.clone()));
            assert(ndi_view(out@) =~= ndi_view(before).push((ndi@[i as int].0@, ndi@[i as int].1@)));
        } else {
            assert(out@ == before);
        }
        i = i + 1;
    }
    assert(nv.subrange(0, ndi@.len() as int) =~= nv);
    (kept, out)
}

proof fn lemma_used_names_contains(names: Seq<Seq<char>>, used: Seq<bool>, i: int, n: Seq<char>)
    requires
        used.len() == names.len(),
        0 <= i <= names.len(),
    ensures
        used_names(names, used, i).contains(n) <==> exists|b: int|
            i <= b < names.len() && used[b] && names[b] == n,
    decreases names.len() - i,
{
    if i < names.len() {
        lemma_used_names_contains(names, used, i + 1, n);
        let rest = used_names(names, used, i + 1);
        if used[i] {
            let all = seq![names[i]] + rest;
            assert(all == used_names(names, used, i));
            if all.contains(n) {
                let j = choose|j: int| 0 <= j < all.len() && all[j] == n;
                if j > 0 {
                    assert(rest[j - 1] == n);
                }
            }
            if rest.contains(n) {
                let j = choose|j: int| 0 <= j < rest.len() && rest[j] == n;
                assert(all[j + 1] == n);
            }
            assert(all[0] == names[i]);
        }
    }
}

/// After dropping the textures that no stage uses, every texture kept is
/// read by some stage, every texture that a stage reads is kept, and every
/// NDI request kept is for a texture that is kept.
pub proof fn lemma_retain_used(
    names: Seq<Seq<char>>,
    uses: Seq<Vec<bool>>,
    used: Seq<bool>,
    ndi: Seq<(Seq<char>, Seq<char>)>,
)
    requires
        used.len() == names.len(),
        forall|s: int| 0 <= s < uses.len() ==> (#[trigger] uses[s])@.len() == names.len(),
        forall|b: int| 0 <= b < names.len() ==> used[b] == used_by_some(uses, b),
    ensures
        forall|n: Seq<char>|
            #[trigger] used_names(names, used, 0).contains(n) ==> exists|s: int, b: int|
                0 <= s < uses.len() && 0 <= b < names.len() && uses[s]@[b] && names[b] == n,
        forall|s: int, d: Seq<char>|
            0 <= s < uses.len() && #[trigger] used_names(names, uses[s]@, 0).contains(d)
                ==> used_names(names, used, 0).contains(d),
        forall|p: (Seq<char>, Seq<char>)|
            #[trigger] kept_requests(ndi, used_names(names, used, 0)).contains(p) ==> used_names(
                names,
                used,
                0,
            ).contains(p.0),
{
    assert forall|n: Seq<char>| #[trigger] used_names(names, used, 0).contains(n) implies exists|
        s: int,
        b: int,
    | 0 <= s < uses.len() && 0 <= b < names.len() && uses[s]@[b] && names[b] == n by {
        lemma_used_names_contains(names, used, 0, n);
        let b = choose|b: int| 0 <= b < names.len() && used[b] && names[b] == n;
        let s = choose|s: int| 0 <= s < uses.len() && b < uses[s]@.len() && #[trigger] uses[s]@[b];
    }
    assert forall|s: int, d: Seq<char>|
        0 <= s < uses.len() && #[trigger] used_names(names, uses[s]@, 0).contains(d) implies used_names(
        names,
        used,
        0,
    ).contains(d) by {
        lemma_used_names_contains(names, uses[s]@, 0, d);
        let b = choose|b: int| 0 <= b < names.len() && uses[s]@[b] && names[b] == d;
        assert(used_by_some(uses, b));
        lemma_used_names_contains(names, used, 0, d);
    }
    assert forall|p: (Seq<char>, Seq<char>)|
        #[trigger] kept_requests(ndi, used_names(names, used, 0)).contains(p) implies used_names(
        names,
        used,
        0,
    ).contains(p.0) by {
        let k = used_names(names, used, 0);
        ndi.filter_lemma(|q: (Seq<char>, Seq<char>)| k.contains(q.0));
    }
}

} // verus!

verus! {

/// A pipeline description being read: its audio section is read; the
/// images and then the NDI sources are taken one after the other
/// (`next_image`, `next_ndi` count those taken), each under a name not yet
/// in use; `taken` holds the names in use so far (the built-in textures,
/// then the images and NDI sources taken).
#[derive(Debug)]
pub struct PipelineLoader {
    pub audio: AudioSettings,
    pub taken: Vec<String>,
    pub images: Vec<(String, String)>,
    pub ndi: Vec<NdiEntry>,
    pub next_image: usize,
    pub next_ndi: usize,
}

/// The `name` of an entry, if it is a string, holds no NUL character.
pub open spec fn name_no_nul(e: Yaml) -> bool {
    plain_string(e, "name"@) matches Some(n) ==> no_nul(n)
}

impl PipelineLoader {
    /// Starts reading a pipeline description with its audio section, before
    /// any image is loaded.
    pub fn begin(object: &Yaml) -> (r: Result<PipelineLoader, PipelineError>)
        ensures
            match audio_error(*object) {
                Some(e) => r matches Err(e2) && e2 == e,
                None => r matches Ok(ld) && audio_ok(*object, ld.audio) && name_set(ld.taken@)
                    == builtin_names() && ld.images@.len() == 0 && ld.ndi@.len() == 0
                    && ld.next_image == 0 && ld.next_ndi == 0,
            },
    {
        let audio = parse_audio(object)?;
        Ok(
            PipelineLoader {
                audio,
                taken: builtin_texture_names(),
                images: Vec::new(),
                ndi: Vec::new(),
                next_image: 0,
                next_ndi: 0,
            },
        )
    }

    /// Starts reading the pipeline description given as YAML text: the
    /// document it holds, and the loader started on it.
    pub fn begin_text(text: &str) -> (r: Result<(Yaml, PipelineLoader), LoadError<PipelineError>>)
        ensures
            match yaml_document(text@) {
                Err(m) => r matches Err(LoadError::Syntax(s)) && s@ == m,
                Ok(o) => match audio_error(o) {
                    Some(e) => r matches Err(LoadError::Invalid(e2)) && e2 == e,
                    None => r matches Ok((o2, ld)) && o2 == o && audio_ok(o, ld.audio) && name_set(
                        ld.taken@,
                    ) == builtin_names() && ld.images@.len() == 0 && ld.ndi@.len() == 0
                        && ld.next_image == 0 && ld.next_ndi == 0,
                },
            },
    {
        match Yaml::parse(text) {
            Err(m) => Err(LoadError::Syntax(m)),
            Ok(o) => match Self::begin(&o) {
                Ok(ld) => Ok((o, ld)),
                Err(e) => Err(LoadError::Invalid(e)),
            },
        }
    }

    /// The next image to load (its path and name), whose name is then in
    /// use; none once every image was taken.
    pub fn next_image(&mut self, object: &Yaml) -> (r: Result<Option<(String, String)>, PipelineError>)
        requires
            match list_section(*object, "images"@) {
                Some(Some(l)) => old(self).next_image < l.len() ==> name_no_nul(l[old(self).next_image as int]),
                _ => true,
            },
        ensures
            final(self).audio == old(self).audio,
            final(self).ndi == old(self).ndi,
            final(self).next_ndi == old(self).next_ndi,
            match list_section(*object, "images"@) {
                Some(Some(l)) => if old(self).next_image >= l.len() {
                    r matches Ok(None) && final(self).taken == old(self).taken && final(self).images
                        == old(self).images && final(self).next_image == old(self).next_image
                } else {
                    let e = l[old(self).next_image as int];
                    let i = old(self).next_image;
                    match (plain_string(e, "path"@), plain_string(e, "name"@)) {
                        (None, _) => r matches Err(x) && x == PipelineError::ImagePathNotString(i),
                        (Some(_), None) => r matches Err(x) && x
                            == PipelineError::ImageNameNotString(i),
                        (Some(p), Some(n)) => if name_set(old(self).taken@).contains(n) {
                            r matches Err(x) && x == PipelineError::ImageNameTaken(i)
                        } else {
                            r matches Ok(Some((p2, n2))) && p2@ == p && n2@ == n && name_set(
                                final(self).taken@,
                            ) == name_set(old(self).taken@).push(n) && final(self).images@
                                == old(self).images@.push((p2, n2)) && final(self).next_image
                                == i + 1
                        },
                    }
                },
                _ => r matches Err(x) && x == PipelineError::ImagesNotList,
            },
    {
        let list = image_list(object)?;
        if self.next_image >= list.len() {
            return Ok(None);
        }
        let i = self.next_image;
        let (path, name) = image_entry(&list[i], i, self.taken.as_slice())?;
        let ghost before = self.taken@;
        self.taken.push(name.clone());
        assert(name_set(self.taken@) =~= name_set(before).push(name@));
        self.images.push((path.clone(), name.clone()));
        self.next_image = i + 1;
        Ok(Some((path, name)))
    }

    /// Takes the next NDI source, whose texture name is then in use; none
    /// once every NDI source was taken.
    pub fn next_ndi(&mut self, object: &Yaml) -> (r: Result<bool, PipelineError>)
        requires
            match list_section(*object, "ndi"@) {
                Some(Some(l)) => old(self).next_ndi < l.len() ==> name_no_nul(l[old(self).next_ndi as int]),
                _ => true,
            },
        ensures
            final(self).audio == old(self).audio,
            final(self).images == old(self).images,
            final(self).next_image == old(self).next_image,
            match list_section(*object, "ndi"@) {
                Some(Some(l)) => if old(self).next_ndi >= l.len() {
                    r matches Ok(false) && final(self).taken == old(self).taken && final(self).ndi
                        == old(self).ndi && final(self).next_ndi == old(self).next_ndi
                } else {
                    let e = l[old(self).next_ndi as int];
                    let i = old(self).next_ndi;
                    match (plain_string(e, "source"@), plain_string(e, "name"@)) {
                        (None, _) => r matches Err(x) && x == PipelineError::NdiSourceNotString(i),
                        (Some(_), None) => r matches Err(x) && x == PipelineError::NdiNameNotString(
                            i,
                        ),
                        (Some(s), Some(n)) => if name_set(old(self).taken@).contains(n) {
                            r matches Err(x) && x == PipelineError::NdiNameTaken(i)
                        } else {
                            match parse_spec(e, false, true) {
                                Err(t) => r matches Err(x) && x == PipelineError::Texture(t),
                                Ok(_) => r matches Ok(true) && name_set(final(self).taken@)
                                    == name_set(old(self).taken@).push(n) && final(self).ndi@.len()
                                    == old(self).ndi@.len() + 1 && final(self).ndi@.last().source@
                                    == s && final(self).ndi@.last().name@ == n
                                    && final(self).next_ndi == i + 1,
                            }
                        },
                    }
                },
                _ => r matches Err(x) && x == PipelineError::NdiNotList,
            },
    {
        let list = ndi_list(object)?;
        if self.next_ndi >= list.len() {
            return Ok(false);
        }
        let i = self.next_ndi;
        let entry = ndi_entry(&list[i], i, self.taken.as_slice())?;
        let ghost before = self.taken@;
        self.taken.push(entry.name.clone());
        assert(name_set(self.taken@) =~= name_set(before).push(entry.name@));
        self.ndi.push(entry);
        self.next_ndi = i + 1;
        Ok(true)
    }

    /// The stages that create their render targets, once every image and
    /// NDI source was taken.
    pub fn plan(&self, stages: &[StageConfig]) -> (r: Result<Vec<usize>, PipelineError>)
        ensures
            match plan_spec(name_set(self.taken@), stages@) {
                Ok(m) => r matches Ok(v) && v@ == m,
                Err(e) => r matches Err(e2) && e2 == e,
            },
    {
        plan_targets(self.taken.as_slice(), stages)
    }
}

} // verus!

verus! {

/// The textures of a loaded pipeline once those no stage reads are
/// dropped: the names kept, the NDI requests (texture name, source name)
/// kept, and for each stage the names of the textures it reads.
#[derive(Debug)]
pub struct PipelineTextures {
    pub names: Vec<String>,
    pub ndi: Vec<(String, String)>,
    pub deps: Vec<Vec<String>>,
}

/// Which textures some stage reads.
pub open spec fn used_flags(count: nat, uses: Seq<Vec<bool>>) -> Seq<bool> {
    Seq::new(count, |b: int| used_by_some(uses, b))
}

/// Finishes the textures of a pipeline whose stage programs are built:
/// given all texture names (built-in, images, NDI sources, render targets),
/// the NDI requests, and for each stage which textures its program reads,
/// gives each stage its dependencies and drops the textures that no stage
/// reads, with their NDI requests.
pub fn finish_textures(names: &[String], ndi: &[(String, String)], uses: &[Vec<bool>]) -> (r:
    PipelineTextures)
    requires
        forall|s: int| 0 <= s < uses@.len() ==> (#[trigger] uses@[s])@.len() == names@.len(),
    ensures
        name_set(r.names@) == used_names(
            name_set(names@),
            used_flags(names@.len() as nat, uses@),
            0,
        ),
        ndi_view(r.ndi@) == kept_requests(ndi_view(ndi@), name_set(r.names@)),
        r.deps@.len() == uses@.len(),
        forall|s: int|
            0 <= s < uses@.len() ==> name_set((#[trigger] r.deps@[s])@) == used_names(
                name_set(names@),
                uses@[s]@,
                0,
            ),
        forall|n: Seq<char>|
            #[trigger] name_set(r.names@).contains(n) ==> exists|s: int| 0 <= s < r.deps@.len()
                && name_set(r.deps@[s]@).contains(n),
        forall|s: int, d: Seq<char>|
            0 <= s < r.deps@.len() && #[trigger] name_set(r.deps@[s]@).contains(d) ==> name_set(
                r.names@,
            ).contains(d),
        forall|p: (Seq<char>, Seq<char>)|
            #[trigger] ndi_view(r.ndi@).contains(p) ==> name_set(r.names@).contains(p.0),
{
    let used = used_textures(names.len(), uses);
    let ghost nv = name_set(names@);
    assert(used@ =~= used_flags(names@.len() as nat, uses@));
    let (kept, requests) = retain_used(names, used.as_slice(), ndi);
    let mut deps: Vec<Vec<String>> = Vec::new();
    let mut s: usize = 0;
    while s < uses.len()
        invariant
            s <= uses@.len(),
            deps@.len() == s,
            forall|q: int| 0 <= q < uses@.len() ==> (#[trigger] uses@[q])@.len() == names@.len(),
            forall|q: int|
                0 <= q < s ==> name_set((#[trigger] deps@[q])@) == used_names(
                    name_set(names@),
                    uses@[q]@,
                    0,
                ),
        decreases uses@.len() - s,
    {
        deps.push(stage_dependencies(names, uses[s].as_slice()));
        s = s + 1;
    }
    let r = PipelineTextures { names: kept, ndi: requests, deps };
    proof {
        lemma_retain_used(nv, uses@, used@, ndi_view(ndi@));
        assert forall|n: Seq<char>| #[trigger] name_set(r.names@).contains(n) implies exists|q: int|
            0 <= q < r.deps@.len() && name_set(r.deps@[q]@).contains(n) by {
            let (q, b) = choose|q: int, b: int|
                0 <= q < uses@.len() && 0 <= b < nv.len() && uses@[q]@[b] && nv[b] == n;
            lemma_used_names_contains(nv, uses@[q]@, 0, n);
            assert(name_set(r.deps@[q]@).contains(n));
        }
    }
    r
}

} // verus!
