use gangplank::params::{Param, ParamLayout};
use gangplank::wgsl::{resources, wgsl_to_msl, SlotBinding, SlotTarget};

#[test]
fn binds_every_slot_once() {
    let table = resources();
    assert_eq!(table.len(), 11);
    assert_eq!(table[0], SlotBinding { group: 0, binding: 0, target: SlotTarget::Buffer(0) });
    assert_eq!(table[3], SlotBinding { group: 0, binding: 3, target: SlotTarget::Buffer(3) });
    assert_eq!(table[4], SlotBinding { group: 1, binding: 0, target: SlotTarget::Texture(0) });
    assert_eq!(table[8], SlotBinding { group: 1, binding: 4, target: SlotTarget::Texture(4) });
    assert_eq!(table[10], SlotBinding { group: 2, binding: 1, target: SlotTarget::Sampler(1) });
    for (i, a) in table.iter().enumerate() {
        for b in &table[i + 1..] {
            assert!((a.group, a.binding) != (b.group, b.binding));
        }
    }
}

#[test]
fn translates_minimal_effect() {
    let msl = wgsl_to_msl(
        "fn effect(uv: vec2<f32>) -> vec4<f32> { return vec4(uv, 0.0, 1.0); }",
        &ParamLayout::empty(),
    )
    .unwrap();
    assert!(msl.contains("vertex "), "{msl}");
    assert!(msl.contains(" effect_vertex("), "{msl}");
    assert!(msl.contains("fragment "), "{msl}");
    assert!(msl.contains(" effect_fragment("), "{msl}");
}

#[test]
fn binds_the_contract_slots() {
    let user = r#"
fn effect(uv: vec2<f32>) -> vec4<f32> {
    var c = backdrop_sample(uv) * p.tint;
    c += textureSample(image0, image_sampler, uv) * image_sizes[0].x;
    c += textureSample(image1, image_sampler, uv);
    c += textureSample(image2, image_sampler, uv);
    c += textureSample(image3, image_sampler, uv);
    return c;
}"#;
    let layout = ParamLayout::new(&[("tint", Param::Float4)]).unwrap();
    let msl = wgsl_to_msl(user, &layout).unwrap();
    let fragment = &msl[msl.find("fragment ").unwrap()..];
    for slot in [
        "[[buffer(0)]]",
        "[[buffer(1)]]",
        "[[buffer(2)]]",
        "[[buffer(3)]]",
        "[[texture(0)]]",
        "[[texture(1)]]",
        "[[texture(2)]]",
        "[[texture(3)]]",
        "[[texture(4)]]",
        "[[sampler(0)]]",
        "[[sampler(1)]]",
    ] {
        assert_eq!(fragment.matches(slot).count(), 1, "{slot}\n{fragment}");
    }
}

#[test]
fn parse_error_names_the_line() {
    let user = "// one\n// two\nfn effect(uv: vec2<f32>) -> vec4<f32> { return vec4(uv, 0.0, missing); }";
    let err = wgsl_to_msl(user, &ParamLayout::empty()).unwrap_err();
    assert!(err.contains("missing"), "{err}");
    assert!(err.contains("wgsl:3:"), "{err}");
}

#[test]
fn wgsl_params_struct_keeps_metal_sizes() {
    let layout = ParamLayout::new(&[("a", Param::Float), ("b", Param::Float3), ("c", Param::Float)]).unwrap();
    assert_eq!(
        layout.wgsl_struct(),
        "struct EffectParams {\n    @size(4) a: f32,\n    @size(16) b: vec3<f32>,\n    @size(4) c: f32,\n};\n"
    );
    assert_eq!(
        layout.glsl_block(),
        "layout(std140, set = 0, binding = 2) uniform EffectParams {\n    float a;\n    vec3 b;\n    float _pad1;\n    float c;\n};\n"
    );
    let user = "fn effect(uv: vec2<f32>) -> vec4<f32> { return vec4(p.b, p.a + p.c); }";
    let msl = wgsl_to_msl(user, &layout).unwrap();
    assert!(msl.contains("struct EffectParams"), "{msl}");
}
