use sh4der_jockey::pipeline::{
    builtin_texture_names, draw_size, image_builder, image_entry, image_list, ndi_entry, ndi_list,
    parse_audio, plan_targets, resize_targets, retain_used, stage_dependencies, stage_list, target_texture,
    used_textures, PipelineError, PipelineLoader, TargetTexture, AUDIO_SAMPLES, HALF_F64_BITS,
};
use sh4der_jockey::stage::{ShaderSetup, StageConfig};
use sh4der_jockey::texture::{TextureError, TextureKind, GL_LINEAR, GL_REPEAT};
use sh4der_jockey::yaml::{LoadError, Yaml, YamlNumber};

fn s(x: &str) -> Yaml {
    Yaml::String(x.to_string())
}

fn num(n: u64) -> Yaml {
    Yaml::Number(YamlNumber::PosInt(n))
}

fn list(v: Vec<Yaml>) -> Yaml {
    Yaml::Sequence(v)
}

fn map(entries: Vec<(&str, Yaml)>) -> Yaml {
    Yaml::Mapping(entries.into_iter().map(|(k, v)| (s(k), v)).collect())
}

fn frag(target: Option<&str>, res: Vec<u64>) -> StageConfig {
    let o = if res.is_empty() {
        map(vec![])
    } else {
        map(vec![("resolution", list(res.into_iter().map(num).collect()))])
    };
    StageConfig::finish(&o, ShaderSetup::Fragment, target.map(|t| t.to_string()), None).unwrap()
}

fn comp(target: &str, res: Vec<u64>) -> StageConfig {
    let o = map(vec![
        ("resolution", list(res.into_iter().map(num).collect())),
        ("dispatch", list(vec![num(1)])),
    ]);
    StageConfig::finish(&o, ShaderSetup::Compute, Some(target.to_string()), None).unwrap()
}

#[test]
fn audio_defaults() {
    let a = parse_audio(&map(vec![])).unwrap();
    assert_eq!(a.audio_samples, AUDIO_SAMPLES);
    assert_eq!(a.attack, YamlNumber::Float(HALF_F64_BITS));
    assert_eq!(a.decay, YamlNumber::Float(HALF_F64_BITS));
    assert_eq!(a.samples.resolution, vec![512]);
    assert_eq!(a.spectrum_raw.resolution, vec![256]);
    assert_eq!(a.spectrum.resolution, vec![100]);
    assert_eq!(a.spectrum_smooth_integrated.resolution, vec![100]);
    assert_eq!(a.samples.channels, 2);
    assert!(a.spectrum.float);
}

#[test]
fn audio_section() {
    let o = map(vec![(
        "audio",
        map(vec![
            ("audio_samples", num(8192)),
            ("attack", Yaml::Number(YamlNumber::Float(0.25f64.to_bits()))),
            ("spectrum", map(vec![("mipmap", Yaml::Bool(true)), ("filter", s("linear")), ("wrap_mode", s("repeat"))])),
        ]),
    )]);
    let a = parse_audio(&o).unwrap();
    assert_eq!(a.audio_samples, 8192);
    assert_eq!(a.attack, YamlNumber::Float(0.25f64.to_bits()));
    assert_eq!(a.samples.resolution, vec![8192]);
    assert_eq!(a.spectrum_raw.resolution, vec![4096]);
    assert!(a.spectrum.mipmap);
    assert_eq!(a.spectrum.mag_filter, GL_LINEAR);
    assert_eq!(a.spectrum.wrap_mode, GL_REPEAT);

    let bad = map(vec![("audio", map(vec![("audio_samples", s("many"))]))]);
    assert_eq!(parse_audio(&bad).err(), Some(PipelineError::AudioSamplesNotNumber));
    let bad = map(vec![("audio", map(vec![("audio_samples", Yaml::Number(YamlNumber::NegInt(-1)))]))]);
    assert_eq!(parse_audio(&bad).err(), Some(PipelineError::AudioSamplesNotUnsigned));
    let bad = map(vec![("audio", map(vec![("decay", s("slow"))]))]);
    assert_eq!(parse_audio(&bad).err(), Some(PipelineError::SmoothingNotNumber));
    let bad = map(vec![("audio", map(vec![("raw_spectrum", map(vec![("filter", s("cubic"))]))]))]);
    assert_eq!(
        parse_audio(&bad).err(),
        Some(PipelineError::Texture(TextureError::FilterInvalid))
    );
}

#[test]
fn sections_are_lists() {
    let o = map(vec![("images", list(vec![map(vec![])])), ("stages", list(vec![]))]);
    assert_eq!(image_list(&o).unwrap().len(), 1);
    assert_eq!(ndi_list(&o).unwrap().len(), 0);
    assert_eq!(stage_list(&o).unwrap().len(), 0);
    let bad = map(vec![("images", s("x")), ("ndi", num(1)), ("stages", map(vec![]))]);
    assert_eq!(image_list(&bad).err(), Some(PipelineError::ImagesNotList));
    assert_eq!(ndi_list(&bad).err(), Some(PipelineError::NdiNotList));
    assert_eq!(stage_list(&bad).err(), Some(PipelineError::StagesNotList));
    assert_eq!(stage_list(&map(vec![])).err(), Some(PipelineError::StagesMissing));
}

#[test]
fn image_and_ndi_entries() {
    let taken = builtin_texture_names();
    assert_eq!(taken.len(), 7);
    let o = map(vec![("path", s("images/image.png")), ("name", s("some_image"))]);
    assert_eq!(
        image_entry(&o, 0, &taken),
        Ok(("images/image.png".to_string(), "some_image".to_string()))
    );
    let o = map(vec![("path", s("a.png")), ("name", s("noise"))]);
    assert_eq!(image_entry(&o, 2, &taken), Err(PipelineError::ImageNameTaken(2)));
    let o = map(vec![("name", s("x"))]);
    assert_eq!(image_entry(&o, 1, &taken), Err(PipelineError::ImagePathNotString(1)));
    let o = map(vec![("path", s("a.png"))]);
    assert_eq!(image_entry(&o, 1, &taken), Err(PipelineError::ImageNameNotString(1)));

    let b = image_builder(&map(vec![("filter", s("nearest"))]), 32, 16).unwrap();
    assert_eq!(b.resolution, vec![32, 16]);

    let o = map(vec![("source", s("cam")), ("name", s("sampler_name"))]);
    let e = ndi_entry(&o, 0, &taken).unwrap();
    assert_eq!(e.source, "cam");
    assert_eq!(e.name, "sampler_name");
    assert_eq!(e.builder.resolution, vec![1, 1]);
    assert!(!e.builder.float);
    let o = map(vec![("source", s("cam")), ("name", s("samples"))]);
    assert_eq!(ndi_entry(&o, 3, &taken).err(), Some(PipelineError::NdiNameTaken(3)));
    let o = map(vec![("name", s("cam"))]);
    assert_eq!(ndi_entry(&o, 0, &taken).err(), Some(PipelineError::NdiSourceNotString(0)));
}

#[test]
fn render_targets_are_planned() {
    let taken = builtin_texture_names();
    let stages = vec![
        comp("particle_pos", vec![10000, 200, 2]),
        frag(Some("render"), vec![]),
        frag(None, vec![]),
        frag(Some("render"), vec![]),
    ];
    assert_eq!(plan_targets(&taken, &stages), Ok(vec![0, 1]));

    let clash = vec![frag(Some("render"), vec![]), frag(Some("render"), vec![64, 64])];
    assert_eq!(
        plan_targets(&taken, &clash),
        Err(PipelineError::TargetResolutionMismatch(1))
    );
    let builtin = vec![frag(Some("noise"), vec![])];
    assert_eq!(plan_targets(&taken, &builtin), Err(PipelineError::TargetTaken(0)));
}

#[test]
fn target_textures_and_resizing() {
    let f = frag(Some("render"), vec![]);
    match target_texture(&f, (800, 600)) {
        TargetTexture::Framebuffer(r) => assert_eq!((r.width, r.height), (800, 600)),
        TargetTexture::Image(_) => panic!("expected a framebuffer"),
    }
    let c = comp("pos", vec![8, 4]);
    match target_texture(&c, (800, 600)) {
        TargetTexture::Image(r) => assert_eq!(r.kind, TextureKind::Image2D { res: [8, 4] }),
        TargetTexture::Framebuffer(_) => panic!("expected an image"),
    }
    let stages = vec![f, c, frag(None, vec![]), frag(Some("small"), vec![2, 2])];
    assert_eq!(resize_targets(&stages), vec![0]);
}

#[test]
fn unused_textures_are_dropped() {
    let uses = vec![vec![true, false, false], vec![false, false, true]];
    assert_eq!(used_textures(3, &uses), vec![true, false, true]);
    let names = vec!["a".to_string(), "b".to_string(), "c".to_string()];
    assert_eq!(stage_dependencies(&names, &[false, true, true]), vec!["b", "c"]);
}

#[test]
fn stages_draw_at_their_size() {
    let f = frag(Some("render"), vec![]);
    assert_eq!(draw_size(&f, true, 800, 600), Some([800, 600, 0]));
    assert_eq!(draw_size(&f, false, 800, 600), None);
    let s = frag(None, vec![64, 32]);
    assert_eq!(draw_size(&s, false, 800, 600), Some([64, 32, 0]));
    let c = comp("pos", vec![8]);
    assert_eq!(draw_size(&c, false, 800, 600), Some([8, 0, 0]));
}

#[test]
fn unused_textures_and_their_ndi_requests_are_dropped() {
    let names = vec!["samples".to_string(), "cam".to_string(), "render".to_string(), "screen".to_string()];
    let used = vec![true, false, true, true];
    let ndi = vec![
        ("cam".to_string(), "Camera 1".to_string()),
        ("screen".to_string(), "Screen".to_string()),
    ];
    let (kept, requests) = retain_used(&names, &used, &ndi);
    assert_eq!(kept, vec!["samples", "render", "screen"]);
    assert_eq!(requests, vec![("screen".to_string(), "Screen".to_string())]);
}

#[test]
fn pipeline_loader_takes_names_in_order() {
    let o = map(vec![
        ("images", list(vec![map(vec![("path", s("a.png")), ("name", s("pic"))])])),
        ("ndi", list(vec![
            map(vec![("source", s("cam")), ("name", s("feed"))]),
            map(vec![("source", s("cam2")), ("name", s("pic"))]),
        ])),
    ]);
    let mut ld = sh4der_jockey::pipeline::PipelineLoader::begin(&o).unwrap();
    assert_eq!(ld.next_image(&o), Ok(Some(("a.png".to_string(), "pic".to_string()))));
    assert_eq!(ld.next_image(&o), Ok(None));
    assert_eq!(ld.next_ndi(&o), Ok(true));
    assert_eq!(ld.next_ndi(&o), Err(PipelineError::NdiNameTaken(1)));
    assert_eq!(ld.taken.len(), 9);
    assert_eq!(ld.plan(&[frag(Some("feed"), vec![])]), Err(PipelineError::TargetTaken(0)));
}

#[test]
fn finished_textures_keep_what_stages_read() {
    let names = vec!["samples".to_string(), "cam".to_string(), "render".to_string(), "noise".to_string()];
    let ndi = vec![("cam".to_string(), "Camera".to_string())];
    let uses = vec![vec![true, false, false, false], vec![false, false, true, true]];
    let t = sh4der_jockey::pipeline::finish_textures(&names, &ndi, &uses);
    assert_eq!(t.names, vec!["samples", "render", "noise"]);
    assert!(t.ndi.is_empty());
    assert_eq!(t.deps, vec![vec!["samples".to_string()], vec!["render".to_string(), "noise".to_string()]]);
}

#[test]
fn pipeline_from_text() {
    let (doc, loader) = PipelineLoader::begin_text("audio:\n  audio_samples: 4096\nstages: []\n").unwrap();
    assert_eq!(loader.audio.audio_samples, 4096);
    assert!(doc.get("stages").is_some());
    assert_eq!(loader.next_image, 0);
    assert!(matches!(
        PipelineLoader::begin_text("audio:\n  audio_samples: x\n"),
        Err(LoadError::Invalid(PipelineError::AudioSamplesNotNumber))
    ));
    assert!(matches!(PipelineLoader::begin_text("stages: [").unwrap_err(), LoadError::Syntax(_)));
}
