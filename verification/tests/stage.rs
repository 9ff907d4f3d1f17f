use sh4der_jockey::stage::{
    blend_factor, parse_blend, parse_target, shader_file, shader_setup,
    uniform_name, vertex_mode, ShaderField, ShaderSetup, StageConfig, StageError, StageKind,
    GL_LINES, GL_ONE, GL_ONE_MINUS_SRC_ALPHA, GL_POINTS, GL_SRC_ALPHA, GL_TRIANGLE_STRIP,
    ONE_F64_BITS,
};
use sh4der_jockey::stage::{parse_uniforms, StageLoadError, StageLoader, UniformsError};
use sh4der_jockey::texture::{TextureError, GL_LINEAR, GL_REPEAT};
use sh4der_jockey::uniform::{UniformError, UniformShape};
use sh4der_jockey::yaml::{Yaml, YamlNumber};

fn s(x: &str) -> Yaml {
    Yaml::String(x.to_string())
}

fn num(n: u64) -> Yaml {
    Yaml::Number(YamlNumber::PosInt(n))
}

fn list(v: Vec<Yaml>) -> Yaml {
    Yaml::Sequence(v)
}

fn map(entries: Vec<(&str, Yaml)>) -> Yaml {
    Yaml::Mapping(entries.into_iter().map(|(k, v)| (s(k), v)).collect())
}

#[test]
fn target_is_read() {
    let o = map(vec![("target", s("render"))]);
    assert_eq!(parse_target(&o), Ok(Some("render".to_string())));
    assert_eq!(parse_target(&map(vec![])), Ok(None));
    assert_eq!(
        parse_target(&map(vec![("target", num(3))])),
        Err(StageError::TargetNotString)
    );
}

#[test]
fn uniform_names_and_transpose_marker() {
    assert_eq!(uniform_name(&s("mat_t")), Ok(("mat".to_string(), true)));
    assert_eq!(uniform_name(&s("mat-T")), Ok(("mat".to_string(), true)));
    assert_eq!(uniform_name(&s("mat^t")), Ok(("mat".to_string(), true)));
    assert_eq!(uniform_name(&s("_t")), Ok(("_t".to_string(), false)));
    assert_eq!(uniform_name(&s("a_t")), Ok(("a".to_string(), true)));
    assert_eq!(uniform_name(&s("mat_x")), Ok(("mat_x".to_string(), false)));
    assert_eq!(uniform_name(&num(1)), Err(UniformsError::NameNotString));
}

#[test]
fn blend_modes() {
    assert_eq!(blend_factor("ONE"), Some(GL_ONE));
    assert_eq!(blend_factor("SRC_ALPHA"), Some(GL_SRC_ALPHA));
    assert_eq!(blend_factor("one"), None);
    let o = map(vec![("blend", list(vec![s("SRC_ALPHA"), s("ONE_MINUS_SRC_ALPHA")]))]);
    assert_eq!(parse_blend(&o), Ok(Some((GL_SRC_ALPHA, GL_ONE_MINUS_SRC_ALPHA))));
    let o = map(vec![
        ("blend_mode", list(vec![s("ONE"), s("ONE")])),
        ("blend", list(vec![s("ZERO"), s("ZERO")])),
    ]);
    assert_eq!(parse_blend(&o), Ok(Some((GL_ONE, GL_ONE))));
    assert_eq!(parse_blend(&map(vec![])), Ok(None));
    let o = map(vec![("blend", list(vec![s("ONE")]))]);
    assert_eq!(parse_blend(&o), Err(StageError::BlendNotTwoStrings));
    let o = map(vec![("blend", list(vec![s("ONE"), s("TWO")]))]);
    assert_eq!(parse_blend(&o), Err(StageError::BlendFactorUnknown));
    let o = map(vec![("blend", s("additive"))]);
    assert_eq!(parse_blend(&o), Err(StageError::BlendPresetUnsupported));
    let o = map(vec![("blend", num(1))]);
    assert_eq!(parse_blend(&o), Err(StageError::BlendInvalid));
}

#[test]
fn shader_fields_and_setups() {
    let o = map(vec![("fs", s("scene.glsl")), ("vs", num(1))]);
    assert_eq!(shader_file(&o, ShaderField::Fragment), Ok(Some("scene.glsl".to_string())));
    assert_eq!(shader_file(&o, ShaderField::Compute), Ok(None));
    assert_eq!(shader_file(&o, ShaderField::Vertex), Err(StageError::ShaderNotFilename));

    assert_eq!(shader_setup(false, true, false), Ok(ShaderSetup::Fragment));
    assert_eq!(shader_setup(true, false, false), Ok(ShaderSetup::Vertex));
    assert_eq!(shader_setup(true, true, false), Ok(ShaderSetup::Vertex));
    assert_eq!(shader_setup(false, false, true), Ok(ShaderSetup::Compute));
    assert_eq!(shader_setup(false, false, false), Err(StageError::InvalidShaderConfiguration));
    assert_eq!(shader_setup(false, true, true), Err(StageError::InvalidShaderConfiguration));
    assert_eq!(shader_setup(true, false, true), Err(StageError::InvalidShaderConfiguration));
}

#[test]
fn fragment_stage_settings() {
    let o = map(vec![
        ("fs", s("a.frag")),
        ("resolution", list(vec![num(640), num(480)])),
        ("wrap", s("repeat")),
    ]);
    let c = StageConfig::finish(&o, ShaderSetup::Fragment, None, None).unwrap();
    assert_eq!(c.kind, StageKind::Frag);
    assert_eq!(c.builder.resolution, vec![640, 480]);
    assert_eq!(c.builder.wrap_mode, GL_REPEAT);
    assert_eq!(c.builder.mag_filter, GL_LINEAR);
    assert_eq!(c.resolution(), Some([640, 480, 0]));

    let o = map(vec![("resolution", list(vec![num(640), num(480), num(2)]))]);
    assert_eq!(
        StageConfig::finish(&o, ShaderSetup::Fragment, None, None).err(),
        Some(StageError::ResolutionNot2D)
    );
    let o = map(vec![("wrap", s("bounce"))]);
    assert_eq!(
        StageConfig::finish(&o, ShaderSetup::Fragment, None, None).err(),
        Some(StageError::Texture(TextureError::WrapInvalid))
    );
}

#[test]
fn vertex_stage_settings() {
    let o = map(vec![("vs", s("a.vert"))]);
    let c = StageConfig::finish(&o, ShaderSetup::Vertex, None, None).unwrap();
    assert_eq!(
        c.kind,
        StageKind::Vert {
            count: 2000,
            mode: GL_POINTS,
            thickness: YamlNumber::Float(ONE_F64_BITS)
        }
    );
    assert_eq!(c.resolution(), None);

    let o = map(vec![
        ("count", num(8000000)),
        ("mode", s("LINES")),
        ("point_size", num(2)),
    ]);
    let c = StageConfig::finish(&o, ShaderSetup::Vertex, Some("particles".to_string()), None)
        .unwrap();
    assert_eq!(
        c.kind,
        StageKind::Vert { count: 8000000, mode: GL_LINES, thickness: YamlNumber::PosInt(2) }
    );
    assert_eq!(c.target, Some("particles".to_string()));

    let half = YamlNumber::Float(0.5f64.to_bits());
    let o = map(vec![("line_width", Yaml::Number(half))]);
    let c = StageConfig::finish(&o, ShaderSetup::Vertex, None, None).unwrap();
    assert!(matches!(c.kind, StageKind::Vert { thickness, .. } if thickness == half));

    let o = map(vec![("thickness", Yaml::Number(YamlNumber::Float((-1.0f64).to_bits())))]);
    assert_eq!(
        StageConfig::finish(&o, ShaderSetup::Vertex, None, None).err(),
        Some(StageError::ThicknessNotPositive)
    );
    let o = map(vec![("thickness", num(0))]);
    assert_eq!(
        StageConfig::finish(&o, ShaderSetup::Vertex, None, None).err(),
        Some(StageError::ThicknessNotPositive)
    );
    let o = map(vec![("count", Yaml::Number(YamlNumber::NegInt(-4)))]);
    assert_eq!(
        StageConfig::finish(&o, ShaderSetup::Vertex, None, None).err(),
        Some(StageError::VertexCountNotUnsigned)
    );
    let o = map(vec![("mode", s("QUADS"))]);
    assert_eq!(
        StageConfig::finish(&o, ShaderSetup::Vertex, None, None).err(),
        Some(StageError::VertexModeInvalid)
    );
    assert_eq!(vertex_mode("TRIANGLE_STRIP"), Some(GL_TRIANGLE_STRIP));
}

#[test]
fn compute_stage_settings() {
    let o = map(vec![
        ("cs", s("particle_pos.comp")),
        ("resolution", list(vec![num(10000), num(200), num(2)])),
        ("dispatch_size", list(vec![num(100), num(200)])),
    ]);
    let c = StageConfig::finish(&o, ShaderSetup::Compute, Some("particle_pos".to_string()), None)
        .unwrap();
    assert_eq!(c.kind, StageKind::Comp { dispatch: [100, 200, 1] });
    assert_eq!(c.resolution(), Some([10000, 200, 2]));

    assert_eq!(
        StageConfig::finish(&o, ShaderSetup::Compute, None, None).err(),
        Some(StageError::TargetMissing)
    );
    let o2 = map(vec![("dispatch", list(vec![num(1)]))]);
    assert_eq!(
        StageConfig::finish(&o2, ShaderSetup::Compute, Some("t".to_string()), None).err(),
        Some(StageError::ResolutionMissing)
    );
    let o3 = map(vec![("resolution", list(vec![num(4)]))]);
    assert_eq!(
        StageConfig::finish(&o3, ShaderSetup::Compute, Some("t".to_string()), None).err(),
        Some(StageError::DispatchMissing)
    );
    let o4 = map(vec![("dispatch", list(vec![num(70000)]))]);
    assert_eq!(
        StageConfig::finish(&o4, ShaderSetup::Compute, Some("t".to_string()), None).err(),
        Some(StageError::DispatchTooLarge(70000))
    );
    let o5 = map(vec![("dispatch", list(vec![num(1), num(1), num(1), num(1)]))]);
    assert_eq!(
        StageConfig::finish(&o5, ShaderSetup::Compute, Some("t".to_string()), None).err(),
        Some(StageError::DispatchLength(4))
    );
    let o6 = map(vec![("dispatch", list(vec![num(0)]))]);
    assert_eq!(
        StageConfig::finish(&o6, ShaderSetup::Compute, Some("t".to_string()), None).err(),
        Some(StageError::DispatchNotPositive)
    );
    let o7 = map(vec![("dispatch", num(3))]);
    assert_eq!(
        StageConfig::finish(&o7, ShaderSetup::Compute, Some("t".to_string()), None).err(),
        Some(StageError::DispatchNotList)
    );
}

#[test]
fn stage_uniforms() {
    let o = map(vec![(
        "uniforms",
        map(vec![
            ("chromab", Yaml::Number(YamlNumber::Float(0.4f64.to_bits()))),
            ("m_t", list(vec![list(vec![num(1), num(2)]), list(vec![num(3), num(4)])])),
            ("chromab", num(2)),
        ]),
    )]);
    let u = parse_uniforms(&o).unwrap();
    assert_eq!(u.len(), 2);
    assert_eq!(u[0].0, "chromab");
    assert_eq!(u[0].1.components, vec![YamlNumber::PosInt(2)]);
    assert_eq!(u[1].0, "m");
    assert_eq!(u[1].1.shape, UniformShape::Mat2);
    assert_eq!(
        u[1].1.components,
        vec![YamlNumber::PosInt(1), YamlNumber::PosInt(2), YamlNumber::PosInt(3), YamlNumber::PosInt(4)]
    );
    let bad = map(vec![("uniforms", map(vec![("v_t", list(vec![num(1), num(2)]))]))]);
    match parse_uniforms(&bad).err() {
        Some(UniformsError::TransposeFailed(u)) => {
            assert_eq!(u.shape, UniformShape::Vec2);
            assert_eq!(u.components, vec![YamlNumber::PosInt(1), YamlNumber::PosInt(2)]);
        }
        other => panic!("unexpected {:?}", other),
    }
    let bad = map(vec![("uniforms", map(vec![("v", list(vec![]))]))]);
    assert_eq!(
        parse_uniforms(&bad).err(),
        Some(UniformsError::Value(UniformError::ComponentCount))
    );
    let bad = map(vec![("uniforms", num(3))]);
    assert_eq!(parse_uniforms(&bad).err(), Some(UniformsError::NotMapping));
    assert_eq!(parse_uniforms(&map(vec![])).unwrap().len(), 0);
}

fn float(x: f64) -> Yaml {
    Yaml::Number(YamlNumber::Float(x.to_bits()))
}

#[test]
fn stage_uniforms_as_a_list() {
    // the form of the documentation: a list of one-entry mappings
    let o = map(vec![
        ("fs", s("scene.frag")),
        (
            "uniforms",
            list(vec![
                map(vec![("strength", float(2.3))]),
                map(vec![("iter", num(20))]),
                map(vec![("color", list(vec![num(1), float(0.4), float(0.7)]))]),
                map(vec![(
                    "rotation^T",
                    list(vec![
                        list(vec![float(0.9), float(0.2)]),
                        list(vec![float(-0.2), float(0.9)]),
                    ]),
                )]),
            ]),
        ),
    ]);
    let u = parse_uniforms(&o).unwrap();
    let names: Vec<&str> = u.iter().map(|(n, _)| n.as_str()).collect();
    assert_eq!(names, vec!["strength", "iter", "color", "rotation"]);
    assert_eq!(u[0].1.shape, UniformShape::Float);
    assert_eq!(u[1].1.components, vec![YamlNumber::PosInt(20)]);
    assert_eq!(u[2].1.shape, UniformShape::Vec3);
    assert_eq!(u[3].1.shape, UniformShape::Mat2);
    assert_eq!(
        u[3].1.components,
        vec![
            YamlNumber::Float(0.9f64.to_bits()),
            YamlNumber::Float(0.2f64.to_bits()),
            YamlNumber::Float((-0.2f64).to_bits()),
            YamlNumber::Float(0.9f64.to_bits()),
        ]
    );

    // the same as the equivalent mapping
    let m = map(vec![(
        "uniforms",
        map(vec![("strength", float(2.3)), ("iter", num(20))]),
    )]);
    let l = map(vec![(
        "uniforms",
        list(vec![map(vec![("strength", float(2.3))]), map(vec![("iter", num(20))])]),
    )]);
    assert_eq!(parse_uniforms(&m).unwrap(), parse_uniforms(&l).unwrap());

    let bad = map(vec![("uniforms", list(vec![map(vec![("a", num(1))]), num(2)]))]);
    assert_eq!(parse_uniforms(&bad).err(), Some(UniformsError::EntryNotMapping));
}

#[test]
fn transposing_a_float_names_the_value() {
    let o = map(vec![("uniforms", map(vec![("strength^T", float(2.0))])), ("fs", s("scene.frag"))]);
    match StageLoader::begin(&o).err() {
        Some(StageLoadError::Uniforms(UniformsError::TransposeFailed(u))) => {
            assert_eq!(u.shape, UniformShape::Float);
            assert_eq!(u.components, vec![YamlNumber::Float(2.0f64.to_bits())]);
        }
        other => panic!("unexpected {:?}", other.is_some()),
    }
}

#[test]
fn stage_loader_reads_in_order() {
    let o = map(vec![
        ("target", s("particles")),
        ("vs", s("a.vert")),
        ("cs", num(1)),
        ("blend", list(vec![s("ONE"), s("ONE")])),
    ]);
    let mut ld = StageLoader::begin(&o).unwrap();
    assert_eq!(ld.target, Some("particles".to_string()));
    assert_eq!(ld.blend, Some((GL_ONE, GL_ONE)));
    assert!(ld.files.is_empty());
    assert_eq!(
        ld.next_shader(&o),
        Ok(Some((ShaderField::Vertex, "a.vert".to_string())))
    );
    assert_eq!(ld.next_shader(&o), Err(StageError::ShaderNotFilename));

    let o = map(vec![("vs", s("a.vert")), ("fs", s("b.frag"))]);
    let mut ld = StageLoader::begin(&o).unwrap();
    assert_eq!(ld.next_shader(&o).unwrap().unwrap().0, ShaderField::Vertex);
    assert_eq!(ld.next_shader(&o).unwrap().unwrap().0, ShaderField::Fragment);
    assert_eq!(ld.next_shader(&o), Ok(None));
    assert_eq!(ld.setup(), Ok(ShaderSetup::Vertex));

    let bad = map(vec![("target", num(1)), ("uniforms", num(2))]);
    assert_eq!(StageLoader::begin(&bad).err(), Some(StageLoadError::Stage(StageError::TargetNotString)));
}
