//! Shadertoy and Ghostty style GLSL: the declarations the crate reads out
//! of a shader before translating it. File-scope `uniform float|vec2|vec3|
//! vec4|int name;` lines become params of the same name; `uniform
//! sampler2D name;` lines take the image channels in order.

use crate::open_files::string_from_utf8;
use crate::params::{glsl_block_text, FieldView, Param, ParamLayout};
use crate::text::{char_vec, decimal, push_decimal, seq_contains, seq_contains_at, str_eq};
use crate::wgsl::{
    entry_resources, glsl_parsed, msl_written, parse_glsl, resource_bindings, slot_table, starts_with,
    table_map, text_result, texts, validate, validated, write_msl,
};
use vstd::prelude::*;
use vstd::string::StringSliceAdditionalSpecFns;
use vstd::utf8::{decode_utf8, encode_utf8, valid_utf8};

verus! {

/// What a regular expression captures in a text: for each match, in
/// order, every group (group 0 is the whole match), `None` for a group
/// that took no part. `None` overall when the pattern does not compile.
pub uninterp spec fn regex_captures(pattern: Seq<char>, text: Seq<char>) -> Option<
    Seq<Seq<Option<Seq<char>>>>,
>;

/// Whether a regular expression matches anywhere in a text; `None` when
/// the pattern does not compile.
pub uninterp spec fn regex_finds(pattern: Seq<char>, text: Seq<char>) -> Option<bool>;

/// `Regex::new(pattern)` then `captures_iter(text)`, every group of every
/// match taken as an owned string. The contract only names the result:
/// regular-expression matching is the `regex` crate's.
#[verifier::external_body]
pub(crate) fn captures(pattern: &str, text: &str) -> (r: Option<Vec<Vec<Option<String>>>>)
    ensures
        match r {
            Some(v) => regex_captures(pattern@, text@) == Some(v.deep_view()),
            None => regex_captures(pattern@, text@) is None,
        },
{
    let re = regex::Regex::new(pattern).ok()?;
    Some(
        re.captures_iter(text).map(
            |c| c.iter().map(|g| g.map(|m| m.as_str().to_string())).collect(),
        ).collect(),
    )
}

/// `Regex::new(pattern)` then `is_match(text)`. The contract only names
/// the result.
#[verifier::external_body]
pub(crate) fn finds(pattern: &str, text: &str) -> (r: Option<bool>)
    ensures
        r == regex_finds(pattern@, text@),
{
    regex::Regex::new(pattern).ok().map(|re| re.is_match(text))
}

/// A file-scope `uniform float|vec2|vec3|vec4|int name;` line.
pub const UNIFORM_PATTERN: &'static str =
    r"(?m)^[ \t]*uniform[ \t]+(float|vec2|vec3|vec4|int)[ \t]+(\w+)[ \t]*;[ \t]*$";

/// A `uniform sampler2D name;` line.
pub const SAMPLER_PATTERN: &'static str = r"(?m)^[ \t]*uniform[ \t]+sampler2D[ \t]+(\w+)[ \t]*;[ \t]*$";

/// The text of group `k` of a match, empty when absent.
pub open spec fn group(m: Seq<Option<Seq<char>>>, k: int) -> Seq<char> {
    if 0 <= k < m.len() {
        match m[k] {
            Some(s) => s,
            None => Seq::empty(),
        }
    } else {
        Seq::empty()
    }
}

/// The param type a GLSL type names: `float`, `vec2`, `vec3`, `vec4`,
/// and `int` for the rest.
pub open spec fn glsl_param(t: Seq<char>) -> Param {
    if t == "float"@ {
        Param::Float
    } else if t == "vec2"@ {
        Param::Float2
    } else if t == "vec3"@ {
        Param::Float3
    } else if t == "vec4"@ {
        Param::Float4
    } else {
        Param::Int
    }
}

fn group_of(m: &Vec<Option<String>>, k: usize) -> (r: String)
    ensures
        r@ == group(m.deep_view(), k as int),
{
    if k < m.len() {
        match &m[k] {
            Some(s) => s.clone(),
            None => String::new(),
        }
    } else {
        String::new()
    }
}

fn param_of(t: &str) -> (r: Param)
    ensures
        r == glsl_param(t@),
{
    if str_eq(t, "float") {
        Param::Float
    } else if str_eq(t, "vec2") {
        Param::Float2
    } else if str_eq(t, "vec3") {
        Param::Float3
    } else if str_eq(t, "vec4") {
        Param::Float4
    } else {
        Param::Int
    }
}

/// The declarations the matches of the uniform pattern make, in order:
/// each match's name group and type group.
pub open spec fn captured_decls(ms: Seq<Seq<Option<Seq<char>>>>) -> Seq<(Seq<char>, Param)> {
    ms.map_values(|m: Seq<Option<Seq<char>>>| (group(m, 2), glsl_param(group(m, 1))))
}

/// The declarations a GLSL source's `uniform float|vec2|vec3|vec4|int
/// name;` lines make, in order.
pub open spec fn uniform_decls(glsl: Seq<char>) -> Seq<(Seq<char>, Param)> {
    match regex_captures(UNIFORM_PATTERN@, glsl) {
        Some(ms) => captured_decls(ms),
        None => Seq::empty(),
    }
}

/// The params the matches of the uniform pattern declare, each match's
/// groups as `captures` gives them.
pub fn uniforms_of_captures(ms: &Vec<Vec<Option<String>>>) -> (r: Vec<(String, Param)>)
    ensures
        r@.map_values(|d: (String, Param)| (d.0@, d.1)) == captured_decls(ms.deep_view()),
{
    let ghost mv = ms.deep_view();
    let mut out: Vec<(String, Param)> = Vec::new();
    let mut i: usize = 0;
    while i < ms.len()
        invariant
            mv == ms.deep_view(),
            i <= ms@.len(),
            out@.len() == i,
            forall|k: int|
                0 <= k < i ==> (#[trigger] out@[k]).0@ == group(mv[k], 2) && out@[k].1 == glsl_param(
                    group(mv[k], 1),
                ),
        decreases ms@.len() - i,
    {
        assert(mv[i as int] == ms@[i as int].deep_view());
        let name = group_of(&ms[i], 2);
        let ty = group_of(&ms[i], 1);
        out.push((name, param_of(ty.as_str())));
        i = i + 1;
    }
    assert(out@.map_values(|d: (String, Param)| (d.0@, d.1)) =~= captured_decls(mv));
    out
}

/// The `uniform float|vec2|vec3|vec4|int name;` declarations in `glsl`,
/// in order, as params. The pattern is a constant that compiles; were it
/// not to, no declaration would be found.
pub fn glsl_uniforms(glsl: &str) -> (r: Vec<(String, Param)>)
    ensures
        r@.map_values(|d: (String, Param)| (d.0@, d.1)) == uniform_decls(glsl@),
{
    match captures(UNIFORM_PATTERN, glsl) {
        Some(ms) => uniforms_of_captures(&ms),
        None => {
            let out: Vec<(String, Param)> = Vec::new();
            assert(out@.map_values(|d: (String, Param)| (d.0@, d.1)) =~= uniform_decls(glsl@));
            out
        },
    }
}

/// The names the matches of the sampler pattern declare: each match's
/// group 1, in order.
pub open spec fn captured_names(ms: Seq<Seq<Option<Seq<char>>>>) -> Seq<Seq<char>> {
    ms.map_values(|m: Seq<Option<Seq<char>>>| group(m, 1))
}

/// The sampler names the matches of the sampler pattern declare, each
/// match's groups as `captures` gives them.
pub fn samplers_of_captures(ms: &Vec<Vec<Option<String>>>) -> (r: Vec<String>)
    ensures
        r@.map_values(|s: String| s@) == captured_names(ms.deep_view()),
{
    let ghost mv = ms.deep_view();
    let mut out: Vec<String> = Vec::new();
    let mut i: usize = 0;
    while i < ms.len()
        invariant
            mv == ms.deep_view(),
            i <= ms@.len(),
            out@.len() == i,
            forall|k: int| 0 <= k < i ==> (#[trigger] out@[k])@ == group(mv[k], 1),
        decreases ms@.len() - i,
    {
        assert(mv[i as int] == ms@[i as int].deep_view());
        out.push(group_of(&ms[i], 1));
        i = i + 1;
    }
    assert(out@.map_values(|s: String| s@) =~= captured_names(mv));
    out
}

/// The `uniform sampler2D name;` declarations, in order.
pub fn glsl_samplers(glsl: &str) -> (r: Vec<String>)
    ensures
        r@.map_values(|s: String| s@) == sampler_names(glsl@),
{
    match captures(SAMPLER_PATTERN, glsl) {
        Some(ms) => samplers_of_captures(&ms),
        None => {
            let out: Vec<String> = Vec::new();
            assert(out@.map_values(|s: String| s@) =~= sampler_names(glsl@));
            out
        },
    }
}

/// Image channels a `uniform sampler2D` can take: `iChannel1..3`.
pub const SAMPLER_CHANNELS: usize = 3;


/// What removing every match of a regular expression from a text leaves;
/// `None` when the pattern does not compile.
pub uninterp spec fn regex_removed(pattern: Seq<char>, text: Seq<char>) -> Option<Seq<char>>;

/// `Regex::new(pattern)` then `replace_all(text, "")`. The contract only
/// names the result.
#[verifier::external_body]
fn remove_all(pattern: &str, text: &str) -> (r: Option<String>)
    ensures
        match r {
            Some(s) => regex_removed(pattern@, text@) == Some(s@),
            None => regex_removed(pattern@, text@) is None,
        },
{
    let re = regex::Regex::new(pattern).ok()?;
    Some(re.replace_all(text, "").into_owned())
}

/// The user's source with its `uniform sampler2D` lines, then its
/// `uniform float|vec2|vec3|vec4|int` lines, taken out: the wrapper
/// declares those itself. A pattern that failed to compile would leave
/// the text as it was.
pub open spec fn glsl_body_text(glsl: Seq<char>) -> Seq<char> {
    let a = match regex_removed(SAMPLER_PATTERN@, glsl) {
        Some(t) => t,
        None => glsl,
    };
    match regex_removed(UNIFORM_PATTERN@, a) {
        Some(t) => t,
        None => a,
    }
}

/// The shader body that goes between the wrapper's head and tail.
pub fn glsl_body(glsl: &str) -> (r: String)
    ensures
        r@ == glsl_body_text(glsl@),
{
    let a = match remove_all(SAMPLER_PATTERN, glsl) {
        Some(t) => t,
        None => String::from_str(glsl),
    };
    match remove_all(UNIFORM_PATTERN, a.as_str()) {
        Some(t) => t,
        None => a,
    }
}

/// One channel constant per sampler name: the `k`-th takes image channel
/// `k + 1`.
pub open spec fn channel_lines(names: Seq<Seq<char>>) -> Seq<char>
    decreases names.len(),
{
    if names.len() == 0 {
        Seq::empty()
    } else {
        channel_lines(names.drop_last()) + "const EffectChannel "@ + names.last()
            + " = EffectChannel("@ + decimal(names.len() as nat) + ");\n"@
    }
}

/// The error for a shader that declares more samplers than channels.
pub open spec fn too_many_samplers(n: nat) -> Seq<char> {
    "GLSL declares "@ + decimal(n) + " `uniform sampler2D`; only "@ + decimal(
        SAMPLER_CHANNELS as nat,
    ) + " image channels exist"@
}

/// The sampler names a GLSL source declares, in order.
pub open spec fn sampler_names(glsl: Seq<char>) -> Seq<Seq<char>> {
    match regex_captures(SAMPLER_PATTERN@, glsl) {
        Some(ms) => captured_names(ms),
        None => Seq::empty(),
    }
}

/// The declarations that bind each `uniform sampler2D` to the next free
/// image channel, in order; an error when there are more than three.
pub fn glsl_channels(glsl: &str) -> (r: Result<String, String>)
    ensures
        ({
            let names = sampler_names(glsl@);
            match r {
                Ok(t) => names.len() <= SAMPLER_CHANNELS && t@ == channel_lines(names),
                Err(e) => names.len() > SAMPLER_CHANNELS && e@ == too_many_samplers(names.len()),
            }
        }),
{
    let samplers = glsl_samplers(glsl);
    let ghost names = sampler_names(glsl@);
    assert(samplers@.len() == names.len());
    if samplers.len() > SAMPLER_CHANNELS {
        let mut e = String::from_str("GLSL declares ");
        push_decimal(&mut e, samplers.len());
        e.append(" `uniform sampler2D`; only ");
        push_decimal(&mut e, SAMPLER_CHANNELS);
        e.append(" image channels exist");
        assert(e@ =~= too_many_samplers(names.len()));
        return Err(e);
    }
    let mut out = String::new();
    let mut i: usize = 0;
    while i < samplers.len()
        invariant
            samplers@.len() == names.len() <= SAMPLER_CHANNELS,
            forall|k: int| 0 <= k < names.len() ==> (#[trigger] samplers@[k])@ == names[k],
            i <= samplers@.len(),
            out@ == channel_lines(names.subrange(0, i as int)),
        decreases samplers@.len() - i,
    {
        out.append("const EffectChannel ");
        out.append(samplers[i].as_str());
        out.append(" = EffectChannel(");
        push_decimal(&mut out, i + 1);
        out.append(");\n");
        proof {
            let s = names.subrange(0, i + 1);
            assert(s.drop_last() =~= names.subrange(0, i as int));
            assert(s.last() == names[i as int]);
        }
        i = i + 1;
    }
    assert(names.subrange(0, i as int) =~= names);
    Ok(out)
}


/// Everything before the params block: the crate's bindings. Names carry
/// an `effect_` prefix so a shader's own `p`, `u` or `uv` cannot shadow
/// them.
pub const HEAD: &'static str = r#"#version 450
layout(std140, set = 0, binding = 0) uniform EffectUniforms {
    vec2 resolution;
    vec2 pointer;
    vec2 origin;
    float time;
    float scale;
    float has_pointer;
    float delta;
    uint frame;
    float _pad0;
    vec4 corner_radii;
} effect_uniforms;
layout(std140, set = 0, binding = 1) uniform EffectViewport { vec2 effect_viewport; };
layout(std140, set = 0, binding = 3) uniform EffectImageSizes { vec4 effect_image_sizes[4]; };
layout(set = 1, binding = 0) uniform texture2D effect_backdrop_texture;
layout(set = 1, binding = 1) uniform texture2D effect_image0;
layout(set = 1, binding = 2) uniform texture2D effect_image1;
layout(set = 1, binding = 3) uniform texture2D effect_image2;
layout(set = 1, binding = 4) uniform texture2D effect_image3;
layout(set = 2, binding = 0) uniform sampler effect_backdrop_sampler;
layout(set = 2, binding = 1) uniform sampler effect_image_sampler;
layout(location = 0) in vec2 effect_uv;
layout(location = 0) out vec4 effect_color;
"#;

/// After the params block: the Shadertoy globals and the channel type.
/// `texture` becomes a macro over `effect_texture`, which flips to
/// Shadertoy's bottom-left origin and, for the backdrop, remaps element
/// uv into the drawable.
pub const GLOBALS: &'static str = r#"
#define iTime (effect_uniforms.time)
#define iTimeDelta (effect_uniforms.delta)
#define iFrame (int(effect_uniforms.frame))
#define iFrameRate (effect_uniforms.delta > 0.0 ? 1.0 / effect_uniforms.delta : 0.0)
#define iResolution (vec3(effect_uniforms.resolution, 1.0))
#define iMouse (effect_uniforms.has_pointer > 0.5 \
    ? vec4(effect_uniforms.pointer.x, effect_uniforms.resolution.y - effect_uniforms.pointer.y, 0.0, 0.0) \
    : vec4(0.0))
struct EffectChannel { int slot; };
#define iChannel0 EffectChannel(0)
#define iChannel1 EffectChannel(1)
#define iChannel2 EffectChannel(2)
#define iChannel3 EffectChannel(3)
vec4 effect_texture(EffectChannel c, vec2 uv) {
    vec2 st = vec2(uv.x, 1.0 - uv.y);
    switch (c.slot) {
        case 0: return texture(sampler2D(effect_backdrop_texture, effect_backdrop_sampler),
                               (effect_uniforms.origin + st * effect_uniforms.resolution) / effect_viewport);
        case 1: return texture(sampler2D(effect_image0, effect_image_sampler), st);
        case 2: return texture(sampler2D(effect_image1, effect_image_sampler), st);
        case 3: return texture(sampler2D(effect_image2, effect_image_sampler), st);
        default: return vec4(0.0);
    }
}
#define texture(c, uv) effect_texture(c, uv)
"#;

/// After the user's source: the corner fade and `main`.
pub const TAIL: &'static str = r#"
float effect_corner_coverage(vec2 pixel, vec2 size, vec4 radii) {
    vec2 half_size = size * 0.5;
    vec2 q = pixel - half_size;
    float r = q.x < 0.0 ? (q.y < 0.0 ? radii.x : radii.w) : (q.y < 0.0 ? radii.y : radii.z);
    vec2 d = abs(q) - half_size + r;
    float sdf = length(max(d, 0.0)) + min(max(d.x, d.y), 0.0) - r;
    return clamp(0.5 - sdf, 0.0, 1.0);
}
void main() {
    vec4 color = vec4(0.0, 0.0, 0.0, 1.0);
    // Shadertoy's fragCoord has its origin at the bottom-left.
    mainImage(color, vec2(effect_uv.x, 1.0 - effect_uv.y) * effect_uniforms.resolution);
    if (any(greaterThan(effect_uniforms.corner_radii, vec4(0.0)))) {
        color *= effect_corner_coverage(effect_uv * effect_uniforms.resolution,
                                        effect_uniforms.resolution, effect_uniforms.corner_radii);
    }
    effect_color = color;
}
"#;

/// The vertex stage, appended to naga's MSL. It matches naga's varying by
/// attribute and reads only the head of the uniforms.
pub const VERTEX_MSL: &'static str = r#"
struct EffectVertexUniforms { metal::float2 resolution; metal::float2 pointer; metal::float2 origin; };
struct EffectVertexOut { metal::float4 position [[position]]; metal::float2 uv [[user(loc0)]]; };
vertex EffectVertexOut effect_vertex(uint vid [[vertex_id]],
                                     constant EffectVertexUniforms &u [[buffer(0)]],
                                     constant metal::float2 &viewport [[buffer(1)]]) {
    const metal::float2 corners[6] = { {0, 0}, {1, 0}, {0, 1}, {0, 1}, {1, 0}, {1, 1} };
    metal::float2 uv = corners[vid];
    metal::float2 pixel = u.origin + uv * u.resolution;
    metal::float2 ndc = pixel / viewport * 2.0 - 1.0;
    ndc.y = -ndc.y;
    return EffectVertexOut { metal::float4(ndc, 0.0, 1.0), uv };
}
"#;

/// Naga's name for GLSL `main`, the fragment entry the pipeline asks for.
pub const FRAGMENT_ENTRY: &'static str = "main_";

/// How many lines `str::lines` finds: every `\n` ends one, and text after
/// the last makes one more.
pub open spec fn line_count(s: Seq<char>) -> nat
    decreases s.len(),
{
    if s.len() == 0 {
        0
    } else if s.len() == 1 {
        1
    } else if s[s.len() - 2] == '\n' {
        line_count(s.drop_last()) + 1
    } else {
        line_count(s.drop_last())
    }
}

/// `s.lines().count()`.
pub fn lines(s: &str) -> (r: usize)
    ensures
        r == line_count(s@),
{
    let c = char_vec(s);
    let mut n: usize = 0;
    let mut i: usize = 0;
    while i < c.len()
        invariant
            c@ == s@,
            i <= c@.len(),
            n <= i,
            n == line_count(c@.subrange(0, i as int)),
        decreases c@.len() - i,
    {
        proof {
            let t = c@.subrange(0, i + 1);
            assert(t.drop_last() =~= c@.subrange(0, i as int));
        }
        if i == 0 || c[i - 1] == '\n' {
            n = n + 1;
        }
        i = i + 1;
    }
    assert(c@.subrange(0, c@.len() as int) =~= c@);
    n
}

/// The wrapped GLSL source naga reads for a user shader: the head with
/// the params block, the globals and the channels, then the body, then
/// the tail.
pub open spec fn glsl_head_text(block: Seq<char>, channels: Seq<char>) -> Seq<char> {
    HEAD@ + block + GLOBALS@ + channels
}

/// A user shader wrapped for naga, and where the user's lines sit in it.
pub struct GlslWrapped {
    pub source: String,
    /// First line of the user's body in `source`, counting from zero.
    pub user_start: usize,
    /// One past its last line.
    pub user_end: u128,
}

/// Wrap `glsl` for translation: its samplers become channels (an error
/// when there are more than three), its declarations move into the head.
pub fn glsl_wrapped(glsl: &str, params: &ParamLayout) -> (r: Result<GlslWrapped, String>)
    requires
        params.wf(),
    ensures
        ({
            let names = sampler_names(glsl@);
            match r {
                Err(e) => names.len() > SAMPLER_CHANNELS && e@ == too_many_samplers(names.len()),
                Ok(w) => {
                    let head = glsl_head_text(glsl_block_text(params@.fields), channel_lines(names));
                    let body = glsl_body_text(glsl@);
                    &&& names.len() <= SAMPLER_CHANNELS
                    &&& w.source@ == head + body + TAIL@
                    &&& w.user_start == line_count(head)
                    &&& w.user_end == line_count(head) + line_count(body)
                },
            }
        }),
{
    let channels = match glsl_channels(glsl) {
        Ok(c) => c,
        Err(e) => {
            return Err(e);
        },
    };
    let mut head = String::from_str(HEAD);
    let block = params.glsl_block();
    head.append(block.as_str());
    head.append(GLOBALS);
    head.append(channels.as_str());
    let body = glsl_body(glsl);
    let start = lines(head.as_str());
    let count = lines(body.as_str());
    let mut source = head;
    source.append(body.as_str());
    source.append(TAIL);
    Ok(GlslWrapped { source, user_start: start, user_end: start as u128 + count as u128 })
}

/// A match as byte offsets: the whole match's start and end, then group
/// 1's, `None` when it took no part.
pub type MatchSpan = (usize, usize, Option<(usize, usize)>);

/// Where each match of a regular expression falls in a text, as byte
/// offsets. `None` when the pattern does not compile.
pub uninterp spec fn regex_spans(pattern: Seq<char>, text: Seq<char>) -> Option<Seq<(usize, usize, Option<(usize, usize)>)>>;

/// `Regex::new(pattern)` then `captures_iter(text)`, each match taken as
/// its byte offsets. The contract only names the result.
#[verifier::external_body]
fn spans(pattern: &str, text: &str) -> (r: Option<Vec<MatchSpan>>)
    ensures
        match r {
            Some(v) => regex_spans(pattern@, text@) == Some(v@),
            None => regex_spans(pattern@, text@) is None,
        },
{
    let re = regex::Regex::new(pattern).ok()?;
    Some(re.captures_iter(text).map(|c| {
        let m = c.get_match();
        (m.start(), m.end(), c.get(1).map(|g| (g.start(), g.end())))
    }).collect())
}

/// A match with group 1 at `0..0` when it took no part.
pub open spec fn flat_span(x: (usize, usize, Option<(usize, usize)>)) -> (usize, usize, usize, usize) {
    match x.2 {
        Some(g) => (x.0, x.1, g.0, g.1),
        None => (x.0, x.1, 0, 0),
    }
}

/// Every match so.
pub open spec fn flat_spans(s: Seq<(usize, usize, Option<(usize, usize)>)>) -> Seq<(usize, usize, usize, usize)> {
    s.map_values(|x: (usize, usize, Option<(usize, usize)>)| flat_span(x))
}

fn flatten_spans(v: &Vec<MatchSpan>) -> (r: Vec<(usize, usize, usize, usize)>)
    ensures
        r@ == flat_spans(v@),
{
    let mut out: Vec<(usize, usize, usize, usize)> = Vec::new();
    let mut i: usize = 0;
    while i < v.len()
        invariant
            i <= v@.len(),
            out@ == flat_spans(v@.subrange(0, i as int)),
        decreases v@.len() - i,
    {
        let (a, b, g) = v[i];
        let x = match g {
            Some((c, d)) => (a, b, c, d),
            None => (a, b, 0, 0),
        };
        out.push(x);
        assert(v@.subrange(0, i + 1) =~= v@.subrange(0, i as int).push(v@[i as int]));
        i = i + 1;
        assert(out@ =~= flat_spans(v@.subrange(0, i as int)));
    }
    assert(v@.subrange(0, v@.len() as int) =~= v@);
    out
}

/// A line reference in naga's GLSL report.
pub const LINE_PATTERN: &'static str = r"glsl:(\d+):";

/// The ASCII bytes of `decimal(n)`.
pub open spec fn decimal_bytes(n: nat) -> Seq<u8>
    decreases n,
{
    if n < 10 {
        seq![(48 + n) as u8]
    } else {
        decimal_bytes(n / 10).push((48 + n % 10) as u8)
    }
}

/// The number ASCII digits spell, `None` for an empty run or a non-digit.
pub open spec fn ascii_number(b: Seq<u8>) -> Option<nat>
    decreases b.len(),
{
    if b.len() == 0 {
        None
    } else if !(48 <= b.last() <= 57) {
        None
    } else if b.len() == 1 {
        Some((b.last() - 48) as nat)
    } else {
        match ascii_number(b.drop_last()) {
            Some(v) => Some(v * 10 + (b.last() - 48) as nat),
            None => None,
        }
    }
}

/// What `parse::<usize>().unwrap_or(0)` gives for the digits `\d+` took.
pub open spec fn parsed_line(b: Seq<u8>) -> nat {
    match ascii_number(b) {
        Some(v) => if v <= usize::MAX { v } else { 0 },
        None => 0,
    }
}

/// The reference for line `n` of the wrapped source: relative to the
/// user's first line when it is one of theirs, else the wrapper's own.
pub open spec fn line_ref(n: nat, start: nat, end: nat) -> Seq<u8> {
    if n >= 1 && start <= n - 1 && n - 1 < end {
        seq![103u8, 108, 115, 108, 58] + decimal_bytes((n - start) as nat) + seq![58u8]
    } else {
        seq![119u8, 114, 97, 112, 112, 101, 114, 58] + decimal_bytes(n) + seq![58u8]
    }
}

/// Span `x` lies in a text of `n` bytes, its group too.
pub open spec fn span_fits(x: (usize, usize, usize, usize), n: nat) -> bool {
    x.0 <= x.1 <= n && x.2 <= x.3 <= n
}

/// Span `k` starts after span `k - 1` ends.
pub open spec fn span_follows(s: Seq<(usize, usize, usize, usize)>, k: int) -> bool {
    s[k - 1].1 <= s[k].0
}

/// The spans lie in a text of `n` bytes, each group inside bounds, the
/// matches in order without overlap.
pub open spec fn spans_ok(n: nat, s: Seq<(usize, usize, usize, usize)>) -> bool {
    &&& forall|i: int| 0 <= i < s.len() ==> span_fits(#[trigger] s[i], n)
    &&& forall|i: int| 1 <= i < s.len() ==> #[trigger] span_follows(s, i)
}

/// Where the text after span `k - 1` starts.
pub open spec fn after_span(s: Seq<(usize, usize, usize, usize)>, k: int) -> int {
    if k <= 0 { 0 } else { s[k - 1].1 as int }
}

/// The text up to the end of span `k - 1` with each of the first `k`
/// spans replaced by its line reference.
pub open spec fn renumbered_prefix(
    b: Seq<u8>,
    s: Seq<(usize, usize, usize, usize)>,
    k: nat,
    start: nat,
    end: nat,
) -> Seq<u8>
    decreases k,
{
    if k == 0 {
        Seq::empty()
    } else {
        let j = k - 1;
        renumbered_prefix(b, s, j as nat, start, end) + b.subrange(after_span(s, j), s[j].0 as int)
            + line_ref(parsed_line(b.subrange(s[j].2 as int, s[j].3 as int)), start, end)
    }
}

/// The report with every line reference renumbered, as bytes.
pub open spec fn renumbered_bytes(
    b: Seq<u8>,
    s: Seq<(usize, usize, usize, usize)>,
    start: nat,
    end: nat,
) -> Seq<u8> {
    renumbered_prefix(b, s, s.len(), start, end) + b.subrange(
        after_span(s, s.len() as int),
        b.len() as int,
    )
}

/// What `renumber` writes: `GLSL:` and a newline, then the renumbered
/// report when the matches are where the regex crate puts them, else the
/// report as it was.
pub open spec fn renumbered(report: Seq<char>, start: nat, end: nat) -> Seq<char> {
    renumbered_at(report, regex_spans(LINE_PATTERN@, report), start, end)
}

/// What `renumber_at` writes for `report` with the matches `spans` of the
/// line pattern.
pub open spec fn renumbered_at(
    report: Seq<char>,
    spans: Option<Seq<(usize, usize, Option<(usize, usize)>)>>,
    start: nat,
    end: nat,
) -> Seq<char> {
    let b = encode_utf8(report);
    "GLSL:\n"@ + match spans {
        Some(m) => {
            let s = flat_spans(m);
            if spans_ok(b.len(), s) && valid_utf8(renumbered_bytes(b, s, start, end)) {
                decode_utf8(renumbered_bytes(b, s, start, end))
            } else {
                report
            }
        },
        None => report,
    }
}

/// Optional spans taken as a sequence.
pub open spec fn spans_view(o: Option<Vec<MatchSpan>>) -> Option<Seq<(usize, usize, Option<(usize, usize)>)>> {
    match o {
        Some(v) => Some(v@),
        None => None,
    }
}

fn push_decimal_bytes(out: &mut Vec<u8>, n: u128)
    ensures
        final(out)@ == old(out)@ + decimal_bytes(n as nat),
    decreases n,
{
    if n >= 10 {
        push_decimal_bytes(out, n / 10);
    }
    out.push((48 + n % 10) as u8);
    assert(out@ =~= old(out)@ + decimal_bytes(n as nat));
}

/// The number the digits in `b[from..to]` spell, as `parse` reads it.
fn parse_line(b: &[u8], from: usize, to: usize) -> (r: u128)
    requires
        from <= to <= b@.len(),
    ensures
        r == parsed_line(b@.subrange(from as int, to as int)),
{
    let ghost full = b@.subrange(from as int, to as int);
    if from == to {
        return 0;
    }
    let mut v: u128 = 0;
    let mut i: usize = from;
    while i < to
        invariant
            from <= i <= to <= b@.len(),
            full == b@.subrange(from as int, to as int),
            i > from ==> ascii_number(b@.subrange(from as int, i as int)) == Some(v as nat),
            i == from ==> v == 0,
            v <= usize::MAX,
        decreases to - i,
    {
        let d = b[i];
        proof {
            let t = b@.subrange(from as int, i + 1);
            assert(t.drop_last() =~= b@.subrange(from as int, i as int));
            assert(t.last() == d);
            assert(full.subrange(0, t.len() as int) =~= t);
        }
        if d < 48 || d > 57 {
            proof {
                lemma_no_number_past(b@.subrange(from as int, i + 1), full);
            }
            return 0;
        }
        let next = v * 10 + (d - 48) as u128;
        proof {
            let t = b@.subrange(from as int, i + 1);
            assert(ascii_number(t) == Some(next as nat));
        }
        if next > usize::MAX as u128 {
            proof {
                lemma_number_grows(b@.subrange(from as int, i + 1), full);
            }
            return 0;
        }
        v = next;
        i = i + 1;
    }
    v
}

/// A prefix with a non-digit spells no number, nor does the whole run.
proof fn lemma_no_number_past(p: Seq<u8>, full: Seq<u8>)
    requires
        p.len() > 0,
        ascii_number(p) is None,
        p.len() <= full.len(),
        full.subrange(0, p.len() as int) == p,
    ensures
        ascii_number(full) is None,
    decreases full.len() - p.len(),
{
    if p.len() < full.len() {
        let q = full.subrange(0, (p.len() + 1) as int);
        assert(q.drop_last() =~= p);
        assert(full.subrange(0, q.len() as int) =~= q);
        lemma_no_number_past(q, full);
    } else {
        assert(full =~= p);
    }
}

/// Digits only add: a prefix past `usize::MAX` keeps the whole run past it.
proof fn lemma_number_grows(p: Seq<u8>, full: Seq<u8>)
    requires
        p.len() > 0,
        p.len() <= full.len(),
        full.subrange(0, p.len() as int) == p,
        match ascii_number(p) {
            Some(v) => v > usize::MAX,
            None => true,
        },
    ensures
        parsed_line(full) == 0,
    decreases full.len() - p.len(),
{
    if p.len() < full.len() {
        let q = full.subrange(0, (p.len() + 1) as int);
        assert(q.drop_last() =~= p);
        assert(full.subrange(0, q.len() as int) =~= q);
        lemma_number_grows(q, full);
    } else {
        assert(full =~= p);
    }
}

/// Whether the spans lie in a text of `n` bytes, in order.
fn check_spans(s: &Vec<(usize, usize, usize, usize)>, n: usize) -> (r: bool)
    ensures
        r == spans_ok(n as nat, s@),
{
    let mut i: usize = 0;
    while i < s.len()
        invariant
            i <= s@.len(),
            forall|k: int| 0 <= k < i ==> span_fits(#[trigger] s@[k], n as nat),
            forall|k: int| 1 <= k < i ==> #[trigger] span_follows(s@, k),
        decreases s@.len() - i,
    {
        let (a, e, g, h) = s[i];
        if !(a <= e && e <= n && g <= h && h <= n) {
            assert(!span_fits(s@[i as int], n as nat));
            return false;
        }
        if i > 0 && s[i - 1].1 > a {
            assert(!span_follows(s@, i as int));
            return false;
        }
        i = i + 1;
    }
    true
}

/// Append `b[from..to]`.
fn copy_bytes(out: &mut Vec<u8>, b: &[u8], from: usize, to: usize)
    requires
        from <= to <= b@.len(),
    ensures
        final(out)@ == old(out)@ + b@.subrange(from as int, to as int),
{
    let mut j: usize = from;
    while j < to
        invariant
            from <= j <= to <= b@.len(),
            out@ == old(out)@ + b@.subrange(from as int, j as int),
        decreases to - j,
    {
        out.push(b[j]);
        j = j + 1;
        assert(out@ =~= old(out)@ + b@.subrange(from as int, j as int));
    }
}

/// Append the line reference for line `n`.
fn push_line_ref(out: &mut Vec<u8>, n: u128, start: usize, end: u128)
    requires
        n <= usize::MAX,
    ensures
        final(out)@ == old(out)@ + line_ref(n as nat, start as nat, end as nat),
{
    if n >= 1 && start as u128 <= n - 1 && n - 1 < end {
        out.push(103u8);
        out.push(108u8);
        out.push(115u8);
        out.push(108u8);
        out.push(58u8);
        push_decimal_bytes(out, n - start as u128);
    } else {
        out.push(119u8);
        out.push(114u8);
        out.push(97u8);
        out.push(112u8);
        out.push(112u8);
        out.push(101u8);
        out.push(114u8);
        out.push(58u8);
        push_decimal_bytes(out, n);
    }
    out.push(58u8);
    assert(out@ =~= old(out)@ + line_ref(n as nat, start as nat, end as nat));
}

/// The report's bytes with each span replaced by its line reference.
fn renumber_bytes(b: &[u8], s: &Vec<(usize, usize, usize, usize)>, start: usize, end: u128) -> (r: Vec<u8>)
    requires
        spans_ok(b@.len(), s@),
    ensures
        r@ == renumbered_bytes(b@, s@, start as nat, end as nat),
{
    let mut out: Vec<u8> = Vec::new();
    let mut k: usize = 0;
    let mut at: usize = 0;
    while k < s.len()
        invariant
            spans_ok(b@.len(), s@),
            k <= s@.len(),
            at as int == after_span(s@, k as int),
            at <= b@.len(),
            out@ == renumbered_prefix(b@, s@, k as nat, start as nat, end as nat),
        decreases s@.len() - k,
    {
        let (a, e, g, h) = s[k];
        assert(span_fits(s@[k as int], b@.len()));
        if k > 0 {
            assert(span_follows(s@, k as int));
        }
        copy_bytes(&mut out, b, at, a);
        let n = parse_line(b, g, h);
        push_line_ref(&mut out, n, start, end);
        assert(out@ =~= renumbered_prefix(b@, s@, (k + 1) as nat, start as nat, end as nat));
        at = e;
        k = k + 1;
    }
    copy_bytes(&mut out, b, at, b.len());
    out
}

/// Shift naga's `glsl:LINE:` references so lines count from the user's
/// source. `start..end` is where that source sits in the wrapped file,
/// zero-based; a line outside it, such as `main` failing to find
/// `mainImage`, is reported as the wrapper's with its absolute number.
pub fn renumber(report: &str, start: usize, end: u128) -> (r: String)
    ensures
        r@ == renumbered(report@, start as nat, end as nat),
{
    let found = spans(LINE_PATTERN, report);
    renumber_at(report, found, start, end)
}

/// `renumber` with the matches of the line pattern in `report` given as
/// `found`: each `glsl:LINE:` the matches cover is rewritten when they
/// lie in order inside the report; otherwise the report stays as it was.
pub fn renumber_at(report: &str, found: Option<Vec<MatchSpan>>, start: usize, end: u128) -> (r: String)
    ensures
        r@ == renumbered_at(report@, spans_view(found), start as nat, end as nat),
{
    let b = report.as_bytes();
    let mut r = String::from_str("GLSL:\n");
    let found = match found {
        Some(f) => f,
        None => {
            r.append(report);
            return r;
        },
    };
    let s = flatten_spans(&found);
    if !check_spans(&s, b.len()) {
        r.append(report);
        return r;
    }
    let out = renumber_bytes(b, &s, start, end);
    match string_from_utf8(out) {
        Some(t) => r.append(t.as_str()),
        None => r.append(report),
    }
    r
}

/// What translating the wrapped GLSL `source` gives with `resources`,
/// the user's lines at `start..end` of it: a parse or validation failure
/// is naga's report renumbered to the user's lines; a writer failure
/// starts `GLSL to MSL: `; else the MSL naga writes for `main` at MSL 2.2
/// with every binding required, then a newline and the vertex stage.
pub open spec fn glsl_translation(
    source: Seq<char>,
    start: nat,
    end: nat,
    resources: naga::back::msl::EntryPointResources,
) -> Result<Seq<char>, Seq<char>> {
    match glsl_parsed(source) {
        Err(report) => Err(renumbered(report, start, end)),
        Ok(module) => match validated(module, source) {
            Err(report) => Err(renumbered(report, start, end)),
            Ok(info) => match msl_written(module, info, seq!["main"@], resources, (2, 2), false) {
                Ok(msl) => Ok(msl + "\n"@ + VERTEX_MSL@),
                Err(e) => Err("GLSL to MSL: "@ + e),
            },
        },
    }
}

/// The head of the wrapped source for `glsl` with `fields` as params.
pub open spec fn glsl_head_of(glsl: Seq<char>, fields: Seq<FieldView>) -> Seq<char> {
    glsl_head_text(glsl_block_text(fields), channel_lines(sampler_names(glsl)))
}

/// `glsl_translation` of `glsl` wrapped with `fields` as params, the
/// user's lines where they sit in it.
pub open spec fn glsl_wrapped_translation(
    glsl: Seq<char>,
    fields: Seq<FieldView>,
    resources: naga::back::msl::EntryPointResources,
) -> Result<Seq<char>, Seq<char>> {
    let head = glsl_head_of(glsl, fields);
    let body = glsl_body_text(glsl);
    glsl_translation(head + body + TAIL@, line_count(head), line_count(head) + line_count(body), resources)
}

/// GLSL to MSL that defines `effect_vertex` and the fragment entry
/// against the crate's slots. `params` must be the layout of the same
/// source's uniforms. Too many samplers is the error `glsl_wrapped`
/// gives; otherwise naga reads exactly the wrapped source, with the
/// binding table as the resources of `main`, and the result is
/// `glsl_translation` of it with the user's lines where they sit.
pub fn glsl_to_msl(glsl: &str, params: &ParamLayout) -> (r: Result<String, String>)
    requires
        params.wf(),
    ensures
        sampler_names(glsl@).len() > SAMPLER_CHANNELS ==> (r matches Err(e) && e@ == too_many_samplers(
            sampler_names(glsl@).len(),
        )),
        sampler_names(glsl@).len() <= SAMPLER_CHANNELS ==> exists|
            res: naga::back::msl::EntryPointResources,
        |
            #[trigger] resource_bindings(res) == table_map(slot_table()) && text_result(r)
                == glsl_wrapped_translation(glsl@, params@.fields, res),
        sampler_names(glsl@).len() <= SAMPLER_CHANNELS ==> match r {
            Ok(msl) => msl@.len() >= VERTEX_MSL@.len() && msl@.subrange(
                msl@.len() - VERTEX_MSL@.len(),
                msl@.len() as int,
            ) == VERTEX_MSL@,
            Err(e) => starts_with(e@, "GLSL:\n"@) || starts_with(e@, "GLSL to MSL: "@),
        },
{
    let wrapped = match glsl_wrapped(glsl, params) {
        Ok(w) => w,
        Err(e) => {
            return Err(e);
        },
    };
    let bindings = entry_resources();
    let ghost head = glsl_head_of(glsl@, params@.fields);
    let ghost body = glsl_body_text(glsl@);
    let ghost start = wrapped.user_start as nat;
    let ghost end = wrapped.user_end as nat;
    assert(start == line_count(head) && end == line_count(head) + line_count(body));
    let source = wrapped.source.as_str();
    let ghost src = source@;
    assert(src == head + body + TAIL@);
    let module = match parse_glsl(source) {
        Ok(m) => m,
        Err(e) => {
            let report = e.as_str();
            let r = renumber(report, wrapped.user_start, wrapped.user_end);
            proof {
                lemma_renumbered_starts(report@, start, end);
            }
            assert(text_result(Err::<String, String>(r)) == glsl_translation(src, start, end, bindings));
            return Err(r);
        },
    };
    let info = match validate(&module, source) {
        Ok(i) => i,
        Err(e) => {
            let report = e.as_str();
            let r = renumber(report, wrapped.user_start, wrapped.user_end);
            proof {
                lemma_renumbered_starts(report@, start, end);
            }
            assert(text_result(Err::<String, String>(r)) == glsl_translation(src, start, end, bindings));
            return Err(r);
        },
    };
    let mut entries: Vec<String> = Vec::new();
    entries.push(String::from_str("main"));
    assert(texts(entries@) =~= seq!["main"@]);
    match write_msl(&module, &info, &entries, &bindings, (2, 2), false) {
        Ok(msl) => {
            let mut out = msl;
            out.append("\n");
            out.append(VERTEX_MSL);
            let ghost o = out@;
            assert(o.subrange(o.len() - VERTEX_MSL@.len(), o.len() as int) =~= VERTEX_MSL@);
            assert(text_result(Ok::<String, String>(out)) == glsl_translation(src, start, end, bindings));
            Ok(out)
        },
        Err(e) => {
            let mut r = String::from_str("GLSL to MSL: ");
            r.append(e.as_str());
            assert(r@.subrange(0, "GLSL to MSL: "@.len() as int) =~= "GLSL to MSL: "@);
            assert(text_result(Err::<String, String>(r)) == glsl_translation(src, start, end, bindings));
            Err(r)
        },
    }
}

/// A renumbered report starts with `GLSL:` and a newline.
proof fn lemma_renumbered_starts(report: Seq<char>, start: nat, end: nat)
    ensures
        starts_with(renumbered(report, start, end), "GLSL:\n"@),
{
    let r = renumbered(report, start, end);
    assert(r.subrange(0, "GLSL:\n"@.len() as int) =~= "GLSL:\n"@);
}

/// `decimal_bytes(m)` is `m` in ASCII decimal: read back it is `m`.
pub proof fn lemma_decimal_bytes_read_back(m: nat)
    ensures
        ascii_number(decimal_bytes(m)) == Some(m),
        decimal_bytes(m).len() == 1 <==> m < 10,
    decreases m,
{
    if m >= 10 {
        lemma_decimal_bytes_read_back(m / 10);
        let p = decimal_bytes(m / 10);
        let b = decimal_bytes(m);
        assert(b.drop_last() =~= p);
        assert(b.last() == (48 + m % 10) as u8);
        assert(m == (m / 10) * 10 + m % 10);
    }
}

/// A line reference names the user's own line, counted from their first,
/// when naga's line falls in the user's source, and otherwise the
/// wrapper's line as naga numbered it: `glsl:` or `wrapper:`, the number,
/// then `:`.
pub proof fn lemma_line_ref_names_the_line(n: nat, start: nat, end: nat)
    ensures
        ({
            let r = line_ref(n, start, end);
            let user = n >= 1 && start < n && n <= end;
            &&& user ==> r.subrange(0, 5) == seq![103u8, 108, 115, 108, 58] && r.last() == 58u8
                && ascii_number(r.subrange(5, r.len() - 1)) == Some((n - start) as nat)
            &&& !user ==> r.subrange(0, 8) == seq![119u8, 114, 97, 112, 112, 101, 114, 58] && r.last()
                == 58u8 && ascii_number(r.subrange(8, r.len() - 1)) == Some(n)
        }),
{
    let r = line_ref(n, start, end);
    if n >= 1 && start < n && n <= end {
        lemma_decimal_bytes_read_back((n - start) as nat);
        let d = decimal_bytes((n - start) as nat);
        assert(r.subrange(0, 5) =~= seq![103u8, 108, 115, 108, 58]);
        assert(r.subrange(5, r.len() - 1) =~= d);
    } else {
        lemma_decimal_bytes_read_back(n);
        let d = decimal_bytes(n);
        assert(r.subrange(0, 8) =~= seq![119u8, 114, 97, 112, 112, 101, 114, 58]);
        assert(r.subrange(8, r.len() - 1) =~= d);
    }
}

/// The `k`-th sampler, counting from zero, takes image channel `k + 1`:
/// the channel lines hold its constant, `iChannel0` staying the backdrop.
pub proof fn lemma_sampler_k_takes_channel_k_plus_1(names: Seq<Seq<char>>, k: int)
    requires
        0 <= k < names.len(),
    ensures
        seq_contains(
            channel_lines(names),
            "const EffectChannel "@ + names[k] + " = EffectChannel("@ + decimal((k + 1) as nat) + ");\n"@,
        ),
    decreases names.len(),
{
    let n = names.len();
    let line = "const EffectChannel "@ + names[k] + " = EffectChannel("@ + decimal((k + 1) as nat) + ");\n"@;
    let front = names.drop_last();
    let before = channel_lines(front);
    let t = channel_lines(names);
    if k == n - 1 {
        assert(t == before + line);
        assert(t.subrange(before.len() as int, t.len() as int) =~= line);
        assert(seq_contains_at(t, line, before.len() as int));
    } else {
        assert(front[k] == names[k]);
        lemma_sampler_k_takes_channel_k_plus_1(front, k);
        let at = choose|at: int| seq_contains_at(before, line, at);
        assert(t.subrange(0, before.len() as int) =~= before);
        assert(t.subrange(at, at + line.len()) =~= before.subrange(at, at + line.len()));
        assert(seq_contains_at(t, line, at));
    }
}

} // verus!
