use sh4der_jockey::config::ConfigError;
use sh4der_jockey::pipeline::PipelineError;
use sh4der_jockey::stage::StageError;
use sh4der_jockey::texture::TextureError;
use sh4der_jockey::uniform::UniformError;

#[test]
fn messages_with_numbers() {
    assert_eq!(
        TextureError::ResolutionLength(4).message(),
        "Field \"resolution\" must be a list of 1 to 3 numbers, got 4 elements"
    );
    assert_eq!(
        StageError::DispatchLength(0).message(),
        "Field \"dispatch_size\" must be a list of 1 to 3 numbers, got 0 elements"
    );
    assert_eq!(
        StageError::DispatchTooLarge(70000).message(),
        "Values of \"dispatch_size\" may not exceed 65535 in any dimension, got 70000"
    );
    assert_eq!(
        StageError::DispatchTooLarge(-12).message(),
        "Values of \"dispatch_size\" may not exceed 65535 in any dimension, got -12"
    );
}

#[test]
fn messages_with_names() {
    assert_eq!(
        PipelineError::ImageNameTaken(0).message("noise"),
        "Texture \"noise\" already exists, please try a different name"
    );
    assert_eq!(
        PipelineError::TargetTaken(2).message("out"),
        "Target \"out\" is already loaded as an image or build-in texture"
    );
    assert_eq!(
        PipelineError::StagesMissing.message("ignored"),
        "Required field \"stages\" not found"
    );
}

#[test]
fn plain_messages() {
    assert_eq!(
        ConfigError::MidiDevicesNotList.message(),
        "Expected midi_devices to be a list of strings"
    );
    assert_eq!(UniformError::MatrixFormat.message(), "Invalid uniform matrix format");
    assert_eq!(
        StageError::Texture(TextureError::MipmapNotBool).message(),
        "Expected \"mipmap\" to be a bool"
    );
    assert_eq!(
        PipelineError::Texture(TextureError::FloatNotBool).message(""),
        "Expected \"float\" to be a bool"
    );
}
