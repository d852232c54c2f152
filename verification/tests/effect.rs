use gangplank::effect::{
    fragment_entry, full_source, msl_source, BuildReport, Clock, EffectState, ImageError, Pipeline, Source,
    IMAGE_SLOTS, PREAMBLE,
};
use gangplank::params::{Param, ParamLayout, ParamValue};
use std::time::Duration;

fn nanos(d: Duration) -> u128 {
    d.as_nanos()
}

#[test]
fn fragment_entry_picks_params_call() {
    let cases = [
        (
            "float4 effect(float2 uv, constant EffectUniforms &u)",
            "effect(in.uv, u);",
        ),
        ("... EffectBackdrop b)", "effect(in.uv, u, backdrop);"),
        ("... constant EffectParams &p)", "effect(in.uv, u, p);"),
        (
            "... EffectBackdrop b, constant EffectParams &p)",
            "effect(in.uv, u, backdrop, p);",
        ),
        ("... EffectImages i)", "effect(in.uv, u, images);"),
        (
            "... EffectBackdrop b, constant EffectParams &p, EffectImages i)",
            "effect(in.uv, u, backdrop, p, images);",
        ),
    ];
    for (source, call) in cases {
        assert!(fragment_entry(source).contains(call), "{source}");
    }
}

#[test]
fn shadertoy_follows_pointer_only_when_it_reads_imouse() {
    let reads = "void mainImage(out vec4 c, in vec2 p) { c = vec4(iMouse.x); }";
    let ignores = "void mainImage(out vec4 c, in vec2 p) { c = vec4(iTime); }";
    assert!(EffectState::<()>::shadertoy(reads, String::new()).0.reads_pointer());
    assert!(!EffectState::<()>::shadertoy(ignores, String::new()).0.reads_pointer());
    assert!(!EffectState::<()>::new(
        "float4 effect(float2 uv, constant EffectUniforms &u) { return float4(u.pointer, 0, 1); }"
            .to_string()
    )
    .reads_pointer());
}

#[test]
fn set_source_recompiles_and_shadertoy_uniforms_are_settable() {
    let (mut effect, err) = EffectState::<u32>::shadertoy(
        "uniform vec4 tint;\nvoid mainImage(out vec4 c, in vec2 p) { c = tint; }",
        String::new(),
    );
    assert_eq!(err, None);
    let one = 1f32.to_bits();
    let zero = 0f32.to_bits();
    assert_eq!(effect.set("tint", ParamValue::Float4([one, zero, zero, one])).0, Ok(()));
    effect.set_source(
        "float4 effect(float2 uv, constant EffectUniforms &u) { return 0; }".to_string(),
    );
    assert!(matches!(effect.pipeline(), Pipeline::Pending));
    assert!(!effect.reads_pointer());
}

#[test]
fn wgsl_source_reads_params_through_p() {
    let reads = |wgsl: &str| Source::Wgsl(wgsl.into()).reads_params();
    assert!(reads("fn effect(uv: vec2<f32>) -> vec4<f32> { return p.tint; }"));
    assert!(!reads(
        "fn effect(uv: vec2<f32>) -> vec4<f32> { return vec4(uv, 0.0, 1.0); }"
    ));
    // `tmp.x` is not a params read.
    assert!(!reads(
        "fn effect(uv: vec2<f32>) -> vec4<f32> { let tmp = vec4(uv, 0.0, 1.0); return tmp.xyzw; }"
    ));
    let mut effect = EffectState::<()>::wgsl(
        "fn effect(uv: vec2<f32>) -> vec4<f32> { return vec4(uv, 0.0, 1.0); }".to_string(),
    );
    assert!(!effect.source().reads_params());
    effect.set_wgsl("fn effect(uv: vec2<f32>) -> vec4<f32> { return p.tint; }".to_string());
    assert!(effect.source().reads_params());
}

#[test]
fn clock_measures_delta_and_counts_frames() {
    let mut clock = Clock::default();
    clock.tick(nanos(Duration::from_millis(100)));
    assert_eq!((clock.delta, clock.frame), (nanos(Duration::ZERO), 0));
    clock.drew();
    clock.tick(nanos(Duration::from_millis(116)));
    assert_eq!((clock.delta, clock.frame), (nanos(Duration::from_millis(16)), 1));
    clock.drew();
    // Time went backwards: no negative delta, no panic.
    clock.tick(nanos(Duration::from_millis(50)));
    assert_eq!((clock.delta, clock.frame), (nanos(Duration::ZERO), 2));
}

#[test]
fn image_rejects_bad_slot_and_length() {
    let mut effect = EffectState::<()>::new(String::new());
    assert_eq!(effect.image(4, 1, 1, vec![0; 4]), Err(ImageError::BadSlot(4)));
    assert_eq!(
        effect.image(0, 2, 2, vec![0; 4]),
        Err(ImageError::BadLength { expected: 16, got: 4 })
    );
    assert_eq!(effect.image(3, 2, 2, vec![0; 16]), Ok(()));
    assert_eq!(effect.image_at(3).map(|i| (i.width, i.height, i.bgra.len())), Some((2, 2, 16)));
    assert!(effect.image_at(0).is_none());
}

#[test]
fn image_error_messages_name_the_numbers() {
    assert_eq!(ImageError::BadSlot(4).message(), "image slot 4 is not in 0..4");
    assert_eq!(
        ImageError::BadLength { expected: 16, got: 4 }.message(),
        "image bytes: expected 16, got 4"
    );
    assert_eq!(
        ImageError::BadLength { expected: 1024, got: 0 }.message(),
        "image bytes: expected 1024, got 0"
    );
}

#[test]
fn released_image_keeps_its_size() {
    let mut effect = EffectState::<()>::new(String::new());
    effect.image(1, 1, 2, vec![7; 8]).unwrap();
    effect.release_bytes(1);
    let image = effect.image_at(1).unwrap();
    assert_eq!((image.width, image.height, image.bgra.len()), (1, 2, 0));
    assert_eq!(IMAGE_SLOTS, 4);
}

#[test]
fn failed_edit_keeps_the_last_pipeline_drawing() {
    let mut effect = EffectState::<&str>::new("first".to_string());
    assert!(effect.needs_build());
    assert_eq!(effect.finish_build(Ok("built first")), BuildReport::Built);
    assert_eq!(effect.ready(), Some(&"built first"));
    effect.set_source("second, broken".to_string());
    assert!(effect.needs_build());
    assert_eq!(
        effect.finish_build(Err("syntax error".to_string())),
        BuildReport::KeptLastGood("syntax error".to_string())
    );
    assert_eq!(effect.ready(), Some(&"built first"));
    effect.set_source("third".to_string());
    assert_eq!(effect.finish_build(Ok("built third")), BuildReport::Built);
    assert_eq!(effect.ready(), Some(&"built third"));
}

#[test]
fn failed_first_build_draws_nothing() {
    let mut effect = EffectState::<&str>::new("broken".to_string());
    assert_eq!(
        effect.finish_build(Err("no effect function".to_string())),
        BuildReport::Failed("no effect function".to_string())
    );
    assert!(matches!(effect.pipeline(), Pipeline::Failed));
    assert_eq!(effect.ready(), None);
    assert!(!effect.needs_build());
}

#[test]
fn set_warns_once_when_the_shader_never_reads_params() {
    let mut effect = EffectState::<()>::new(
        "float4 effect(float2 uv, constant EffectUniforms &u) { return 0; }".to_string(),
    );
    effect.params(&[("a", Param::Float)]).unwrap();
    let (r, warn) = effect.set("a", ParamValue::Float(0.5f32.to_bits()));
    assert_eq!((r, warn), (Ok(()), true));
    let (_, warn) = effect.set("a", ParamValue::Float(1f32.to_bits()));
    assert!(!warn);
    assert_eq!(&effect.param_layout().bytes()[0..4], &1f32.to_le_bytes());

    let mut reads = EffectState::<()>::new(
        "float4 effect(float2 uv, constant EffectUniforms &u, constant EffectParams &p) { return 0; }"
            .to_string(),
    );
    reads.params(&[("a", Param::Float)]).unwrap();
    assert!(!reads.set("a", ParamValue::Float(0)).1);
}

#[test]
fn edits_keep_params_and_images() {
    let mut effect = EffectState::<()>::new(String::new());
    effect.params(&[("tint", Param::Float4)]).unwrap();
    effect.image(2, 1, 1, vec![1, 2, 3, 4]).unwrap();
    effect.set_source("float4 effect(float2 uv, constant EffectUniforms &u) { return 1; }".to_string());
    assert_eq!(effect.param_layout().size(), 16);
    assert_eq!(effect.image_at(2).map(|i| i.bgra.clone()), Some(vec![1, 2, 3, 4]));
}

#[test]
fn clock_ticks_through_the_effect() {
    let mut effect = EffectState::<()>::new(String::new());
    effect.tick(1_000);
    effect.drew();
    effect.tick(4_000);
    let clock = effect.clock();
    assert_eq!((clock.delta, clock.frame, clock.last_time), (3_000, 1, Some(4_000)));
}

#[test]
fn full_source_places_struct_source_and_entry() {
    let layout = ParamLayout::new(&[("tint", Param::Float4)]).unwrap();
    let msl = "float4 effect(float2 uv, constant EffectUniforms &u, constant EffectParams &p) { return p.tint; }";
    let full = msl_source(msl, &layout);
    let expected = format!("{PREAMBLE}\n{}\n{msl}\n{}", layout.msl_struct(), fragment_entry(msl));
    assert_eq!(full, expected);
    assert_eq!(full_source(&Source::Msl(msl.to_string()), &layout), Ok(expected));
    let wgsl = full_source(
        &Source::Wgsl("fn effect(uv: vec2<f32>) -> vec4<f32> { return p.tint; }".to_string()),
        &layout,
    )
    .unwrap();
    assert!(wgsl.contains("effect_fragment"), "{wgsl}");
    assert!(full.contains("struct EffectParams {\n    float4 tint;\n};\n"));
    assert!(full.contains("effect(in.uv, u, p);"));
}

#[test]
fn shadertoy_with_bad_uniform_falls_back_to_empty_params() {
    let (effect, err) = EffectState::<()>::shadertoy(
        "uniform float a;\nuniform vec2 a;\nvoid mainImage(out vec4 c, in vec2 p) { c = vec4(a); }",
        String::from("translated"),
    );
    assert!(err.is_some());
    assert_eq!(effect.param_layout().size(), 4);
    assert_eq!(effect.param_layout().fields()[0].name, "_pad0");
    assert!(matches!(effect.source(), Source::Msl(s) if s == "translated"));
}

#[test]
fn try_set_shadertoy_applies_when_the_uniforms_fit() {
    let glsl = "uniform float k;\nvoid mainImage(out vec4 c, in vec2 p) { c = vec4(k) * iMouse.x; }";
    assert!(EffectState::<()>::shadertoy_fits(glsl));
    let mut effect = EffectState::<()>::new(String::from("old"));
    let applied = effect.try_set_shadertoy(glsl, String::from("new"));
    assert_eq!(applied, Some(None));
    assert!(effect.reads_pointer());
    assert_eq!(effect.param_layout().fields()[0].name, "k");
    assert!(matches!(effect.source(), Source::Msl(s) if s == "new"));
}

#[test]
fn try_shadertoy_reports_a_rejected_uniform() {
    let (effect, err) = EffectState::<()>::try_shadertoy(
        "uniform float a;\nuniform int a;\nvoid mainImage(out vec4 c, in vec2 p) { c = vec4(a); }",
        String::from("translated"),
    )
    .expect("rejected uniforms can always be laid out");
    assert!(err.is_some());
    assert_eq!(effect.param_layout().size(), 4);
    assert_eq!(effect.param_layout().fields()[0].name, "_pad0");
}

#[test]
fn load_shadertoy_translates_and_takes_the_uniforms() {
    let glsl = "uniform vec4 tint;\nvoid mainImage(out vec4 c, in vec2 p) { c = tint * iMouse.x; }";
    let mut effect = EffectState::<()>::new(String::from("old"));
    assert_eq!(effect.try_load_shadertoy(glsl), Some(Ok(None)));
    assert!(effect.reads_pointer());
    assert_eq!(effect.param_layout().fields()[0].name, "tint");
    assert!(matches!(effect.source(), Source::Msl(s) if s.contains("[[buffer(2)]]")));
}

#[test]
fn load_shadertoy_failure_changes_nothing() {
    let mut effect = EffectState::<()>::new(String::from("old"));
    let err = effect
        .try_load_shadertoy("void mainImage(out vec4 c, in vec2 p) {\n    c = vec4(missing);\n}")
        .unwrap()
        .unwrap_err();
    assert!(err.contains("glsl:2:"), "{err}");
    assert!(matches!(effect.source(), Source::Msl(s) if s == "old"));
    assert!(!effect.reads_pointer());
}
