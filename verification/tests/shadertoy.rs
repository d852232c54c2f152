use gangplank::params::{Param, ParamLayout};
use gangplank::shadertoy::{
    glsl_body, glsl_channels, glsl_samplers, glsl_to_msl, glsl_uniforms, lines, renumber, renumber_at,
    samplers_of_captures, uniforms_of_captures, FRAGMENT_ENTRY,
};

fn layout_for(glsl: &str) -> ParamLayout {
    let decls = glsl_uniforms(glsl);
    let decls: Vec<(&str, Param)> = decls.iter().map(|(n, t)| (n.as_str(), *t)).collect();
    ParamLayout::new(&decls).unwrap()
}

#[test]
fn uniforms_become_params() {
    let glsl = "uniform vec4 tint;\nuniform float amount;\nuniform vec3 axis;\nvoid mainImage(out vec4 c, in vec2 p) { c = tint * amount + vec4(axis, 1.0); }";
    assert_eq!(
        glsl_uniforms(glsl),
        vec![
            ("tint".to_string(), Param::Float4),
            ("amount".to_string(), Param::Float),
            ("axis".to_string(), Param::Float3),
        ]
    );
    let msl = glsl_to_msl(glsl, &layout_for(glsl)).unwrap();
    assert!(msl.contains("[[buffer(2)]]"), "{msl}");
}

#[test]
fn samplers_take_image_channels() {
    let glsl = "uniform sampler2D tex;\nuniform sampler2D mask;\nvoid mainImage(out vec4 c, in vec2 p) { c = texture(tex, p) * texture(mask, p).a; }";
    let msl = glsl_to_msl(glsl, &ParamLayout::empty()).unwrap();
    // `tex` is image0 at texture(1), `mask` image1 at texture(2).
    let fragment = &msl[msl.find("fragment ").unwrap()..];
    assert!(fragment.contains("effect_image0_ [[texture(1)]]"), "{fragment}");
    assert!(fragment.contains("effect_image1_ [[texture(2)]]"), "{fragment}");
    // `tex` is image0 at channel 1, `mask` image1 at channel 2.
    assert_eq!(
        glsl_channels(glsl).unwrap(),
        "const EffectChannel tex = EffectChannel(1);\nconst EffectChannel mask = EffectChannel(2);\n"
    );
    let four = "uniform sampler2D a;\nuniform sampler2D b;\nuniform sampler2D c;\nuniform sampler2D d;\nvoid mainImage(out vec4 o, in vec2 p) { o = vec4(0.0); }";
    assert!(glsl_to_msl(four, &ParamLayout::empty()).unwrap_err().contains("only 3"));
    let err = glsl_channels(four).unwrap_err();
    assert!(err.contains("only 3"), "{err}");
    assert_eq!(
        err,
        "GLSL declares 4 `uniform sampler2D`; only 3 image channels exist"
    );
}

#[test]
fn uniform_types_map_and_int_is_the_rest() {
    let glsl = "  uniform int count ;\nuniform vec2 at;\n\tuniform float  gain;  \nuniform mat4 skipped;\nfloat x; uniform float inline_skipped;";
    assert_eq!(
        glsl_uniforms(glsl),
        vec![
            ("count".to_string(), Param::Int),
            ("at".to_string(), Param::Float2),
            ("gain".to_string(), Param::Float),
        ]
    );
    assert!(glsl_uniforms("void mainImage(out vec4 c, in vec2 p) {}").is_empty());
}

#[test]
fn samplers_are_listed_in_order() {
    let glsl = "uniform sampler2D first;\nuniform float x;\n uniform sampler2D second ;\n";
    assert_eq!(glsl_samplers(glsl), vec!["first".to_string(), "second".to_string()]);
    assert_eq!(glsl_channels("void main() {}").unwrap(), "");
}

#[test]
fn body_drops_declarations_the_wrapper_makes() {
    let glsl = "uniform sampler2D tex;\nuniform vec4 tint;\nvoid mainImage(out vec4 c, in vec2 p) { c = tint; }";
    let body = glsl_body(glsl);
    assert!(!body.contains("uniform"), "{body}");
    assert!(body.contains("void mainImage(out vec4 c, in vec2 p) { c = tint; }"));
    // Line count is kept so reports can point at the user's lines.
    assert_eq!(body.lines().count(), glsl.lines().count());
}

#[test]
fn glsl_features_need_no_rewrite() {
    let glsl = "precision mediump float;\nconst float PI = 3.14;\nvoid bump(inout vec3 c) { c.b += PI; }\nvoid mainImage(out vec4 fragColor, in vec2 p) { vec3 u = vec3(iTime); bump(u); fragColor = vec4(u, 1.0) * mod(p.x, 2.0) + texture(iChannel0, p).r; }";
    let msl = glsl_to_msl(glsl, &ParamLayout::empty()).unwrap();
    assert!(msl.contains(&format!("fragment main_Output {FRAGMENT_ENTRY}(")), "{msl}");
    assert!(msl.contains("vertex EffectVertexOut effect_vertex("));
}

#[test]
fn error_reports_user_line() {
    let glsl = "// one\nvoid mainImage(out vec4 c, in vec2 p) {\n    c = vec4(missing);\n}";
    let err = glsl_to_msl(glsl, &ParamLayout::empty()).unwrap_err();
    assert!(err.contains("missing"), "{err}");
    assert!(err.contains("glsl:3:"), "{err}");
    // No `mainImage`: the wrapper's `main` fails, reported as such.
    let err = glsl_to_msl("// nothing", &ParamLayout::empty()).unwrap_err();
    assert!(err.contains("wrapper:"), "{err}");
    assert!(!err.contains("glsl:"), "{err}");
}

#[test]
fn renumber_shifts_user_lines_only() {
    assert_eq!(renumber("at glsl:12:5 and glsl:3:1", 10, 20), "GLSL:\nat glsl:2:5 and wrapper:3:1");
    assert_eq!(renumber("glsl:11: x", 10, 11), "GLSL:\nglsl:1: x");
    assert_eq!(renumber("glsl:0: zero", 0, 5), "GLSL:\nwrapper:0: zero");
    assert_eq!(renumber("no references", 0, 5), "GLSL:\nno references");
    assert_eq!(renumber("glsl:99999999999999999999999: big", 0, 5), "GLSL:\nwrapper:0: big");
}

#[test]
fn lines_counts_as_str_lines_does() {
    for s in ["", "a", "a\n", "a\nb", "\n", "\n\n", "a\r\nb\n", "x\n\ny"] {
        assert_eq!(lines(s), s.lines().count(), "{s:?}");
    }
}

const CRT: &str = "uniform float curvature;
void mainImage(out vec4 fragColor, in vec2 fragCoord) {
    vec2 uv = fragCoord / iResolution.xy;
    vec2 c = uv * 2.0 - 1.0;
    c *= 1.0 + curvature * dot(c, c);
    uv = c * 0.5 + 0.5;
    vec4 col = texture(iChannel0, uv);
    float scan = 0.85 + 0.15 * sin(uv.y * iResolution.y * 3.14159);
    col.b *= 1.05;
    fragColor = vec4(col.rgb * scan, col.a);
}
";

const STARFIELD: &str = "uniform vec3 tint;
float hash(vec2 p) { return fract(sin(dot(p, vec2(12.9898, 78.233))) * 43758.5453); }
void mainImage(out vec4 fragColor, in vec2 fragCoord) {
    vec2 uv = (fragCoord - 0.5 * iResolution.xy) / iResolution.y;
    vec2 m = iMouse.xy / iResolution.xy - 0.5;
    vec3 col = vec3(0.0);
    for (int i = 0; i < 8; i++) {
        float depth = fract(float(i) * 0.125 + iTime * 0.1);
        vec2 p = uv * (8.0 * (1.0 - depth)) + m + float(i);
        vec2 cell = floor(p);
        float star = step(0.97, hash(cell)) * smoothstep(0.1, 0.0, length(fract(p) - 0.5));
        col += star * depth * tint;
    }
    fragColor = vec4(col, 1.0);
}
";

const WAVES: &str = "uniform vec4 color;
uniform float speed;
void mainImage(out vec4 fragColor, in vec2 fragCoord) {
    vec2 uv = fragCoord / iResolution.xy;
    float wave = 0.5 + 0.5 * sin(uv.x * 12.0 + iTime * speed);
    float band = smoothstep(0.02, 0.0, abs(uv.y - wave * 0.5 - 0.25));
    fragColor = color * band;
}
";

#[test]
fn example_shaders_translate() {
    for glsl in [CRT, STARFIELD, WAVES] {
        let msl = glsl_to_msl(glsl, &layout_for(glsl)).unwrap();
        assert!(msl.contains(&format!("fragment main_Output {FRAGMENT_ENTRY}(")), "{msl}");
        assert!(msl.contains("vertex EffectVertexOut effect_vertex("));
    }
}

#[test]
fn captured_uniforms_take_name_and_type_groups() {
    let m = |t: &str, n: &str| vec![Some(format!("uniform {t} {n};")), Some(t.to_string()), Some(n.to_string())];
    let ms = vec![m("vec3", "axis"), m("int", "count"), vec![None, None, None]];
    assert_eq!(
        uniforms_of_captures(&ms),
        vec![("axis".to_string(), Param::Float3), ("count".to_string(), Param::Int), (String::new(), Param::Int)]
    );
}

#[test]
fn captured_samplers_take_group_one() {
    let ms = vec![vec![Some("uniform sampler2D tex;".to_string()), Some("tex".to_string())], vec![None]];
    assert_eq!(samplers_of_captures(&ms), vec!["tex".to_string(), String::new()]);
}

#[test]
fn renumber_at_rewrites_the_given_matches_only() {
    // "x glsl:12: y": the match is bytes 2..10, its number 7..9.
    let report = "x glsl:12: y";
    assert_eq!(renumber_at(report, Some(vec![(2, 10, Some((7, 9)))]), 10, 20), "GLSL:\nx glsl:2: y");
    assert_eq!(renumber_at(report, Some(vec![]), 10, 20), "GLSL:\nx glsl:12: y");
    assert_eq!(renumber_at(report, None, 10, 20), "GLSL:\nx glsl:12: y");
    // Matches out of order or past the end leave the report as it was.
    assert_eq!(renumber_at(report, Some(vec![(2, 40, Some((7, 9)))]), 10, 20), "GLSL:\nx glsl:12: y");
}
