use sh4der_jockey::imagedata::{ImageData, PixelFormat};
use sh4der_jockey::texture::{
    make_image, make_texture, TextureBuilder, TextureError, TextureFormat, TextureKind,
    GL_CLAMP_TO_EDGE, GL_LINEAR, GL_LINEAR_MIPMAP_LINEAR, GL_MIRRORED_REPEAT, GL_NEAREST,
    GL_NEAREST_MIPMAP_NEAREST, GL_REPEAT,
};
use sh4der_jockey::yaml::{Yaml, YamlNumber};

fn s(x: &str) -> Yaml {
    Yaml::String(x.to_string())
}

fn num(n: u64) -> Yaml {
    Yaml::Number(YamlNumber::PosInt(n))
}

fn map(entries: Vec<(&str, Yaml)>) -> Yaml {
    Yaml::Mapping(entries.into_iter().map(|(k, v)| (s(k), v)).collect())
}

#[test]
fn texture_description_defaults() {
    let b = TextureBuilder::parse(&map(vec![]), true, true).unwrap();
    assert!(b.resolution.is_empty());
    assert_eq!(b.mag_filter, GL_LINEAR);
    assert_eq!(b.min_filter, GL_LINEAR);
    assert_eq!(b.wrap_mode, GL_CLAMP_TO_EDGE);
    assert!(!b.float && !b.mipmap);
    assert_eq!(b.channels, 4);
}

#[test]
fn texture_description_fields() {
    let o = map(vec![
        ("size", Yaml::Sequence(vec![num(64), num(32)])),
        ("mipmap", Yaml::Bool(true)),
        ("filter", s("nearest")),
        ("wrap", s("mirror")),
        ("float", Yaml::Bool(true)),
    ]);
    let b = TextureBuilder::parse(&o, true, true).unwrap();
    assert_eq!(b.resolution, vec![64, 32]);
    assert_eq!(b.min_filter, GL_NEAREST_MIPMAP_NEAREST);
    assert_eq!(b.mag_filter, GL_NEAREST);
    assert_eq!(b.wrap_mode, GL_MIRRORED_REPEAT);
    assert!(b.float);

    let o = map(vec![("mipmap", Yaml::Bool(true))]);
    assert_eq!(TextureBuilder::parse(&o, true, true).unwrap().min_filter, GL_LINEAR_MIPMAP_LINEAR);
    assert!(!TextureBuilder::parse(&o, true, false).unwrap().mipmap);
    let o = map(vec![("res", Yaml::Sequence(vec![num(8)]))]);
    assert!(TextureBuilder::parse(&o, false, true).unwrap().resolution.is_empty());
}

#[test]
fn texture_description_errors() {
    let o = map(vec![("resolution", Yaml::Sequence(vec![]))]);
    assert_eq!(TextureBuilder::parse(&o, true, true).err(), Some(TextureError::ResolutionLength(0)));
    let o = map(vec![("resolution", Yaml::Sequence(vec![num(0)]))]);
    assert_eq!(TextureBuilder::parse(&o, true, true).err(), Some(TextureError::ResolutionNotPositive));
    let o = map(vec![("resolution", Yaml::Sequence(vec![s("x")]))]);
    assert_eq!(TextureBuilder::parse(&o, true, true).err(), Some(TextureError::ResolutionNotNumbers));
    let o = map(vec![("mipmap", s("yes"))]);
    assert_eq!(TextureBuilder::parse(&o, true, true).err(), Some(TextureError::MipmapNotBool));
    let o = map(vec![("filter", num(1))]);
    assert_eq!(TextureBuilder::parse(&o, true, true).err(), Some(TextureError::FilterInvalid));
    let o = map(vec![("float", s("no"))]);
    assert_eq!(TextureBuilder::parse(&o, true, true).err(), Some(TextureError::FloatNotBool));
}

#[test]
fn builders_and_requests() {
    let mut b = TextureBuilder::new();
    b.set_resolution(vec![100]).set_channels(2).set_float(true);
    let t = b.build_texture();
    assert_eq!(t.kind, TextureKind::Texture1D { res: [100] });
    assert_eq!(t.format, TextureFormat::RG32F);
    let i = b.build_image();
    assert_eq!(i.kind, TextureKind::Image1D { res: [100] });

    let f = TextureBuilder::new().build_framebuffer((0, 720));
    assert_eq!((f.width, f.height), (1, 720));

    let r = make_image(&[4, 0, 2]);
    assert_eq!(r.kind, TextureKind::Image3D { res: [4, 1, 2] });
    assert_eq!(r.wrap_mode, GL_REPEAT);
    let r = make_texture(&[3, 3]);
    assert_eq!(r.kind, TextureKind::Texture2D { res: [3, 3] });
    assert_eq!(r.format, TextureFormat::RGBA32F);
}

#[test]
fn builders_with_data() {
    let mut b = TextureBuilder::new();
    b.set_resolution(vec![2, 1]);
    let up = b.build_texture_with_data(vec![1, 2, 3, 4, 5, 6, 7, 8]);
    assert_eq!(up.request.kind, TextureKind::Texture2D { res: [2, 1] });
    assert_eq!(up.request.format, TextureFormat::RGBA8);
    assert_eq!(up.data.len(), 8);
    let up = b.build_image_with_data(vec![0; 8]);
    assert_eq!(up.request.kind, TextureKind::Image2D { res: [2, 1] });
}

#[test]
fn image_data_keeps_its_parts() {
    let img = ImageData::new(2, 1, vec![1, 2, 3, 4, 5, 6, 7, 8], PixelFormat::Bgra8Unorm);
    assert_eq!(img.width, 2);
    assert_eq!(img.height, 1);
    assert_eq!(img.bytes, vec![1, 2, 3, 4, 5, 6, 7, 8]);
    assert_eq!(img.format, PixelFormat::Bgra8Unorm);
}
