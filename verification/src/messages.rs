//! The messages shown for refused descriptions: the text of each error,
//! which a front end completes with the value that was refused.
use vstd::prelude::*;
use crate::config::ConfigError;
use crate::pipeline::PipelineError;
use crate::stage::StageError;
use crate::text::{chars_of, decimal, decimal_chars, string_of};
use crate::texture::TextureError;
use crate::uniform::UniformError;

verus! {

/// `n` in decimal, with a minus sign when negative.
pub open spec fn signed_decimal(n: int) -> Seq<char> {
    if n < 0 {
        seq!['-'] + decimal((-n) as nat)
    } else {
        decimal(n as nat)
    }
}

/// Appends the characters of `s` to `v`.
fn push_all(v: &mut Vec<char>, s: &[char])
    ensures
        final(v)@ == old(v)@ + s@,
{
    let mut i: usize = 0;
    while i < s.len()
        invariant
            i <= s@.len(),
            v@ == old(v)@ + s@.take(i as int),
        decreases s@.len() - i,
    {
        v.push(s[i]);
        assert(s@.take(i as int + 1) == s@.take(i as int).push(s@[i as int]));
        i = i + 1;
    }
    assert(s@.take(s@.len() as int) == s@);
}

/// `before`, then `middle`, then `after`.
fn joined(before: &str, middle: &[char], after: &str) -> (r: String)
    ensures
        r@ == before@ + middle@ + after@,
{
    let mut v = chars_of(before);
    push_all(&mut v, middle);
    let a = chars_of(after);
    push_all(&mut v, a.as_slice());
    string_of(v.as_slice())
}

/// `n` in decimal, with a minus sign when negative.
fn signed_chars(n: i64) -> (v: Vec<char>)
    ensures
        v@ == signed_decimal(n as int),
{
    if n < 0 {
        let m: u128 = (0i128 - n as i128) as u128;
        let digits = decimal_chars(m);
        let mut v: Vec<char> = Vec::new();
        v.push('-');
        push_all(&mut v, digits.as_slice());
        assert(v@ == seq!['-'] + digits@);
        v
    } else {
        decimal_chars(n as u128)
    }
}


/// The message for a refused configerror.
pub open spec fn config_message(e: ConfigError) -> Seq<char> {
    match e {
        ConfigError::MidiDevicesNotList => "Expected midi_devices to be a list of strings"@,
        ConfigError::MidiDeviceNotString => "Expected midi_device name to be a string"@,
        ConfigError::AudioDeviceNotString => "Expected audio_device name to be a string"@,
        ConfigError::NdiSourcesNotList => "Expected ndi_sources to be a list of strings"@,
        ConfigError::NdiSourceNotString => "Expected NDI source name to be a string"@,
    }
}

impl ConfigError {
    /// The message for this error.
    pub fn message(&self) -> (r: String)
        ensures
            r@ == config_message(*self),
    {
        match self {
            ConfigError::MidiDevicesNotList => "Expected midi_devices to be a list of strings".to_owned(),
            ConfigError::MidiDeviceNotString => "Expected midi_device name to be a string".to_owned(),
            ConfigError::AudioDeviceNotString => "Expected audio_device name to be a string".to_owned(),
            ConfigError::NdiSourcesNotList => "Expected ndi_sources to be a list of strings".to_owned(),
            ConfigError::NdiSourceNotString => "Expected NDI source name to be a string".to_owned(),
        }
    }
}

/// The message for a refused uniformerror.
pub open spec fn uniform_message(e: UniformError) -> Seq<char> {
    match e {
        UniformError::ComponentCount => "Uniform must have between 1 and 4 components"@,
        UniformError::MatrixFormat => "Invalid uniform matrix format"@,
        UniformError::MatrixRowInvalid => "Matrix row must be a vector or number"@,
        UniformError::MatrixComponentNotNumber => "Uniform matrix component must be a number"@,
        UniformError::VectorComponentNotNumber => "Expected vector component to be a number"@,
        UniformError::ValueInvalid => "Expected uniform to be a bool, number, vector or matrix"@,
    }
}

impl UniformError {
    /// The message for this error.
    pub fn message(&self) -> (r: String)
        ensures
            r@ == uniform_message(*self),
    {
        match self {
            UniformError::ComponentCount => "Uniform must have between 1 and 4 components".to_owned(),
            UniformError::MatrixFormat => "Invalid uniform matrix format".to_owned(),
            UniformError::MatrixRowInvalid => "Matrix row must be a vector or number".to_owned(),
            UniformError::MatrixComponentNotNumber => "Uniform matrix component must be a number".to_owned(),
            UniformError::VectorComponentNotNumber => "Expected vector component to be a number".to_owned(),
            UniformError::ValueInvalid => "Expected uniform to be a bool, number, vector or matrix".to_owned(),
        }
    }
}

/// The message for a refused textureerror.
pub open spec fn texture_message(e: TextureError) -> Seq<char> {
    match e {
        TextureError::ResolutionNotNumbers => "Expected \"resolution\" to be a list of positive numbers"@,
        TextureError::ResolutionNotPositive => "Expected \"resolution\" to be a list of positive numbers"@,
        TextureError::MipmapNotBool => "Expected \"mipmap\" to be a bool"@,
        TextureError::WrapInvalid => "Expected \"wrap_mode\" to be one of clamp, repeat or mirror"@,
        TextureError::FilterInvalid => "Expected \"filter\" to be one of linear or nearest"@,
        TextureError::FloatNotBool => "Expected \"float\" to be a bool"@,
        TextureError::ResolutionLength(n) => "Field \"resolution\" must be a list of 1 to 3 numbers, got "@ + decimal(n as nat) + " elements"@,
    }
}

impl TextureError {
    /// The message for this error.
    pub fn message(&self) -> (r: String)
        ensures
            r@ == texture_message(*self),
    {
        match self {
            TextureError::ResolutionNotNumbers => "Expected \"resolution\" to be a list of positive numbers".to_owned(),
            TextureError::ResolutionNotPositive => "Expected \"resolution\" to be a list of positive numbers".to_owned(),
            TextureError::MipmapNotBool => "Expected \"mipmap\" to be a bool".to_owned(),
            TextureError::WrapInvalid => "Expected \"wrap_mode\" to be one of clamp, repeat or mirror".to_owned(),
            TextureError::FilterInvalid => "Expected \"filter\" to be one of linear or nearest".to_owned(),
            TextureError::FloatNotBool => "Expected \"float\" to be a bool".to_owned(),
            TextureError::ResolutionLength(n) => joined("Field \"resolution\" must be a list of 1 to 3 numbers, got ", decimal_chars(*n as u128).as_slice(), " elements"),
        }
    }
}

/// The message for a refused stageerror.
pub open spec fn stage_message(e: StageError) -> Seq<char> {
    match e {
        StageError::TargetNotString => "Expected field \"target\" to be a string"@,
        StageError::BlendNotTwoStrings => "Expected field \"blend_mode\" to be a list of two strings"@,
        StageError::BlendFactorUnknown => "Expected blend mode"@,
        StageError::BlendPresetUnsupported => "Aliases for common blend modes are currently unimplemented"@,
        StageError::BlendInvalid => "Invalid blend mode value"@,
        StageError::ShaderNotFilename => "Expected shader field to be a filename"@,
        StageError::InvalidShaderConfiguration => "Invalid shader configuration"@,
        StageError::VertexCountNotUnsigned => "Expected vertex count to be an unsigned int"@,
        StageError::VertexModeInvalid => "Invalid vertex mode"@,
        StageError::ThicknessNotPositive => "Expected \"thickness\" to be positive float"@,
        StageError::ResolutionNot2D => "Expected \"resolution\" to be 2D"@,
        StageError::DispatchNotPositive => "Expected \"dispatch_size\" to be a list of positive numbers"@,
        StageError::DispatchNotList => "Expected \"dispatch_size\" to be a list of unsigned integers"@,
        StageError::DispatchMissing => "Field \"dispatch_size\" is mandatory for compute shaders"@,
        StageError::ResolutionMissing => "Field \"resolution\" is mandatory for compute shaders"@,
        StageError::TargetMissing => "Field \"target\" is mandatory for compute shaders"@,
        StageError::Texture(t) => texture_message(t),
        StageError::DispatchLength(n) => "Field \"dispatch_size\" must be a list of 1 to 3 numbers, got "@ + decimal(n as nat) + " elements"@,
        StageError::DispatchTooLarge(n) => "Values of \"dispatch_size\" may not exceed 65535 in any dimension, got "@ + signed_decimal(n as int) + ""@,
    }
}

impl StageError {
    /// The message for this error.
    pub fn message(&self) -> (r: String)
        ensures
            r@ == stage_message(*self),
    {
        match self {
            StageError::TargetNotString => "Expected field \"target\" to be a string".to_owned(),
            StageError::BlendNotTwoStrings => "Expected field \"blend_mode\" to be a list of two strings".to_owned(),
            StageError::BlendFactorUnknown => "Expected blend mode".to_owned(),
            StageError::BlendPresetUnsupported => "Aliases for common blend modes are currently unimplemented".to_owned(),
            StageError::BlendInvalid => "Invalid blend mode value".to_owned(),
            StageError::ShaderNotFilename => "Expected shader field to be a filename".to_owned(),
            StageError::InvalidShaderConfiguration => "Invalid shader configuration".to_owned(),
            StageError::VertexCountNotUnsigned => "Expected vertex count to be an unsigned int".to_owned(),
            StageError::VertexModeInvalid => "Invalid vertex mode".to_owned(),
            StageError::ThicknessNotPositive => "Expected \"thickness\" to be positive float".to_owned(),
            StageError::ResolutionNot2D => "Expected \"resolution\" to be 2D".to_owned(),
            StageError::DispatchNotPositive => "Expected \"dispatch_size\" to be a list of positive numbers".to_owned(),
            StageError::DispatchNotList => "Expected \"dispatch_size\" to be a list of unsigned integers".to_owned(),
            StageError::DispatchMissing => "Field \"dispatch_size\" is mandatory for compute shaders".to_owned(),
            StageError::ResolutionMissing => "Field \"resolution\" is mandatory for compute shaders".to_owned(),
            StageError::TargetMissing => "Field \"target\" is mandatory for compute shaders".to_owned(),
            StageError::Texture(t) => t.message(),
            StageError::DispatchLength(n) => joined("Field \"dispatch_size\" must be a list of 1 to 3 numbers, got ", decimal_chars(*n as u128).as_slice(), " elements"),
            StageError::DispatchTooLarge(n) => joined("Values of \"dispatch_size\" may not exceed 65535 in any dimension, got ", signed_chars(*n).as_slice(), ""),
        }
    }
}

/// The message for a refused pipeline description; `name` is the texture
/// name that a taken name, a resolution mismatch or a taken target concerns.
pub open spec fn pipeline_message(e: PipelineError, name: Seq<char>) -> Seq<char> {
    match e {
        PipelineError::AudioSamplesNotUnsigned => "Expected \"audio_samples\" to be a number"@,
        PipelineError::AudioSamplesNotNumber => "Expected \"audio_samples\" to be number"@,
        PipelineError::SmoothingNotNumber => "Expected \"smoothing\" to be a float"@,
        PipelineError::ImagesNotList => "Expected \"images\" to be an array"@,
        PipelineError::ImagePathNotString(_) => "Expected \"path\" to be a string"@,
        PipelineError::ImageNameNotString(_) => "Expected \"name\" to be a string"@,
        PipelineError::NdiNotList => "Expected \"ndi\" to be an array"@,
        PipelineError::NdiSourceNotString(_) => "Expected ndi.source to be a string"@,
        PipelineError::NdiNameNotString(_) => "Expected ndi.name to be a string"@,
        PipelineError::StagesMissing => "Required field \"stages\" not found"@,
        PipelineError::StagesNotList => "Expected \"stages\" to be an array"@,
        PipelineError::Texture(t) => texture_message(t),
        PipelineError::ImageNameTaken(_) | PipelineError::NdiNameTaken(_) => "Texture \""@ + name + "\" already exists, please try a different name"@,
        PipelineError::TargetResolutionMismatch(_) => "Texture \""@ + name + "\" already has a different resolution"@,
        PipelineError::TargetTaken(_) => "Target \""@ + name + "\" is already loaded as an image or build-in texture"@,
    }
}

impl PipelineError {
    /// The message for this error; `name` is the texture name that a taken
    /// name, a resolution mismatch or a taken target concerns, quoted.
    pub fn message(&self, name: &str) -> (r: String)
        ensures
            r@ == pipeline_message(*self, name@),
    {
        match self {
            PipelineError::AudioSamplesNotUnsigned => "Expected \"audio_samples\" to be a number".to_owned(),
            PipelineError::AudioSamplesNotNumber => "Expected \"audio_samples\" to be number".to_owned(),
            PipelineError::SmoothingNotNumber => "Expected \"smoothing\" to be a float".to_owned(),
            PipelineError::ImagesNotList => "Expected \"images\" to be an array".to_owned(),
            PipelineError::ImagePathNotString(_) => "Expected \"path\" to be a string".to_owned(),
            PipelineError::ImageNameNotString(_) => "Expected \"name\" to be a string".to_owned(),
            PipelineError::NdiNotList => "Expected \"ndi\" to be an array".to_owned(),
            PipelineError::NdiSourceNotString(_) => "Expected ndi.source to be a string".to_owned(),
            PipelineError::NdiNameNotString(_) => "Expected ndi.name to be a string".to_owned(),
            PipelineError::StagesMissing => "Required field \"stages\" not found".to_owned(),
            PipelineError::StagesNotList => "Expected \"stages\" to be an array".to_owned(),
            PipelineError::Texture(t) => t.message(),
            PipelineError::ImageNameTaken(_) | PipelineError::NdiNameTaken(_) => joined("Texture \"", chars_of(name).as_slice(), "\" already exists, please try a different name"),
            PipelineError::TargetResolutionMismatch(_) => joined("Texture \"", chars_of(name).as_slice(), "\" already has a different resolution"),
            PipelineError::TargetTaken(_) => joined("Target \"", chars_of(name).as_slice(), "\" is already loaded as an image or build-in texture"),
        }
    }
}

} // verus!
