//! WGSL effects, translated to MSL by naga. The user defines
//! `fn effect(uv: vec2<f32>) -> vec4<f32>` and reads the uniforms, params and
//! textures as module globals; the crate appends a preamble that declares
//! them, the vertex stage and the fragment entry, and binds each global to
//! the Metal slot the renderer fills: buffers 0..3 are the uniforms, the
//! viewport, the params and the image sizes; textures 0..4 the backdrop and
//! the four images; samplers 0..1 the backdrop's and the images'.
//!
//! The user's source goes first: WGSL declarations are order independent,
//! and this way a parse error reports the user's own line numbers.

use crate::params::{ParamLayout, wgsl_struct_text};
use vstd::prelude::*;

verus! {

/// The Metal slot a binding lands in.
#[derive(Debug, Clone, Copy, PartialEq, Eq, Structural)]
pub enum SlotTarget {
    Buffer(u8),
    Texture(u8),
    Sampler(u8),
}

/// One entry of the table: a shader group and binding and its slot.
#[derive(Debug, Clone, Copy, PartialEq, Eq, Structural)]
pub struct SlotBinding {
    pub group: u32,
    pub binding: u32,
    pub target: SlotTarget,
}

/// Buffers bound in group 0.
pub const BUFFER_SLOTS: u8 = 4;

/// Textures bound in group 1.
pub const TEXTURE_SLOTS: u8 = 5;

/// Samplers bound in group 2.
pub const SAMPLER_SLOTS: u8 = 2;

/// Entry `i` of the table: the buffers in group 0, then the textures in
/// group 1, then the samplers in group 2, each binding `k` in slot `k`.
pub open spec fn slot_entry(i: int) -> SlotBinding {
    if i < 4 {
        SlotBinding { group: 0, binding: i as u32, target: SlotTarget::Buffer(i as u8) }
    } else if i < 9 {
        SlotBinding { group: 1, binding: (i - 4) as u32, target: SlotTarget::Texture((i - 4) as u8) }
    } else {
        SlotBinding { group: 2, binding: (i - 9) as u32, target: SlotTarget::Sampler((i - 9) as u8) }
    }
}

/// The whole table.
pub open spec fn slot_table() -> Seq<SlotBinding> {
    Seq::new(11, |i: int| slot_entry(i))
}

/// Group and binding of each preamble global, and the Metal slot it
/// lands in.
pub fn resources() -> (r: Vec<SlotBinding>)
    ensures
        r@ == slot_table(),
{
    let mut out: Vec<SlotBinding> = Vec::new();
    let mut slot: u8 = 0;
    while slot < BUFFER_SLOTS
        invariant
            slot <= 4,
            out@ == Seq::new(slot as nat, |i: int| slot_entry(i)),
        decreases 4 - slot,
    {
        out.push(SlotBinding { group: 0, binding: slot as u32, target: SlotTarget::Buffer(slot) });
        slot = slot + 1;
        assert(out@ =~= Seq::new(slot as nat, |i: int| slot_entry(i)));
    }
    let mut slot: u8 = 0;
    while slot < TEXTURE_SLOTS
        invariant
            slot <= 5,
            out@ == Seq::new((4 + slot) as nat, |i: int| slot_entry(i)),
        decreases 5 - slot,
    {
        out.push(SlotBinding { group: 1, binding: slot as u32, target: SlotTarget::Texture(slot) });
        slot = slot + 1;
        assert(out@ =~= Seq::new((4 + slot) as nat, |i: int| slot_entry(i)));
    }
    let mut slot: u8 = 0;
    while slot < SAMPLER_SLOTS
        invariant
            slot <= 2,
            out@ == Seq::new((9 + slot) as nat, |i: int| slot_entry(i)),
        decreases 2 - slot,
    {
        out.push(SlotBinding { group: 2, binding: slot as u32, target: SlotTarget::Sampler(slot) });
        slot = slot + 1;
        assert(out@ =~= Seq::new((9 + slot) as nat, |i: int| slot_entry(i)));
    }
    out
}

/// Each group holds one kind of slot and binding `k` lands in slot `k`:
/// group 0 is buffers 0..4, group 1 textures 0..5, group 2 samplers 0..2.
pub proof fn lemma_binding_k_is_slot_k(i: int)
    requires
        0 <= i < 11,
    ensures
        ({
            let e = slot_table()[i];
            match e.target {
                SlotTarget::Buffer(k) => e.group == 0 && k == e.binding && k < 4,
                SlotTarget::Texture(k) => e.group == 1 && k == e.binding && k < 5,
                SlotTarget::Sampler(k) => e.group == 2 && k == e.binding && k < 2,
            }
        }),
        slot_table().len() == 11,
{
}

/// Every group and binding appears once: no two entries of the table
/// share both.
pub proof fn lemma_slots_distinct(i: int, j: int)
    requires
        0 <= i < j < 11,
    ensures
        slot_table()[i].group != slot_table()[j].group || slot_table()[i].binding
            != slot_table()[j].binding,
{
}


#[verifier::external_type_specification]
#[verifier::external_body]
pub struct ExModule(naga::Module);

#[verifier::external_type_specification]
#[verifier::external_body]
pub struct ExModuleInfo(naga::valid::ModuleInfo);

#[verifier::external_type_specification]
#[verifier::external_body]
pub struct ExEntryPointResources(naga::back::msl::EntryPointResources);

/// A result whose error is text, the error taken as characters.
pub open spec fn text_err<T>(r: Result<T, String>) -> Result<T, Seq<char>> {
    match r {
        Ok(v) => Ok(v),
        Err(e) => Err(e@),
    }
}

/// A result of text either way, taken as characters.
pub open spec fn text_result(r: Result<String, String>) -> Result<Seq<char>, Seq<char>> {
    match r {
        Ok(v) => Ok(v@),
        Err(e) => Err(e@),
    }
}

/// Strings taken as characters.
pub open spec fn texts(v: Seq<String>) -> Seq<Seq<char>> {
    v.map_values(|s: String| s@)
}

/// What naga's WGSL front end makes of `source`: the module, or its
/// report rendered against the source.
pub uninterp spec fn wgsl_parsed(source: Seq<char>) -> Result<naga::Module, Seq<char>>;

/// `naga::front::wgsl::parse_str`, a failure rendered against the source
/// with `emit_to_string`. The outcome is named, as a function of the
/// source alone.
#[verifier::external_body]
fn parse_wgsl(source: &str) -> (r: Result<naga::Module, String>)
    ensures
        text_err(r) == wgsl_parsed(source@),
{
    naga::front::wgsl::parse_str(source).map_err(|e| e.emit_to_string(source))
}

/// What naga's GLSL front end makes of `source` as a fragment shader: the
/// module, or its report rendered against the source.
pub uninterp spec fn glsl_parsed(source: Seq<char>) -> Result<naga::Module, Seq<char>>;

/// `naga::front::glsl::Frontend::parse` for a fragment shader, a failure
/// rendered against the source with `emit_to_string`. The outcome is
/// named, as a function of the source alone.
#[verifier::external_body]
pub(crate) fn parse_glsl(source: &str) -> (r: Result<naga::Module, String>)
    ensures
        text_err(r) == glsl_parsed(source@),
{
    let options = naga::front::glsl::Options::from(naga::ShaderStage::Fragment);
    naga::front::glsl::Frontend::default().parse(&options, source).map_err(|e| e.emit_to_string(source))
}

/// What naga's validator, with every check and no extra capability, makes
/// of `module`: its info, or its report rendered against `source`.
pub uninterp spec fn validated(module: naga::Module, source: Seq<char>) -> Result<naga::valid::ModuleInfo, Seq<char>>;

/// `naga::valid::Validator::validate` with every check and no extra
/// capability, a failure rendered against the source. The outcome is
/// named, as a function of the module and the source.
#[verifier::external_body]
pub(crate) fn validate(module: &naga::Module, source: &str) -> (r: Result<naga::valid::ModuleInfo, String>)
    ensures
        text_err(r) == validated(*module, source@),
{
    let flags = naga::valid::ValidationFlags::all();
    let mut validator = naga::valid::Validator::new(flags, naga::valid::Capabilities::empty());
    validator.validate(module).map_err(|e| e.emit_to_string(source))
}

/// The binding map of naga's entry-point resources: for each group and
/// binding, the Metal slot it names.
pub uninterp spec fn resource_bindings(r: naga::back::msl::EntryPointResources) -> Map<(u32, u32), SlotTarget>;

/// No binding at all.
pub open spec fn no_slots() -> Map<(u32, u32), SlotTarget> {
    Map::empty()
}

/// `EntryPointResources::default()`: its binding map is empty.
#[verifier::external_body]
fn no_bindings() -> (r: naga::back::msl::EntryPointResources)
    ensures
        resource_bindings(r) == no_slots(),
{
    naga::back::msl::EntryPointResources::default()
}

/// `BTreeMap::insert` into the resources' binding map: `group`/`binding`
/// lands in buffer `slot`, replacing what it named before.
#[verifier::external_body]
fn bind_buffer(r: &mut naga::back::msl::EntryPointResources, group: u32, binding: u32, slot: u8)
    ensures
        resource_bindings(*final(r)) == resource_bindings(*old(r)).insert(
            (group, binding),
            SlotTarget::Buffer(slot),
        ),
{
    let target = naga::back::msl::BindTarget { buffer: Some(slot), ..Default::default() };
    r.resources.insert(naga::ResourceBinding { group, binding }, target);
}

/// `BTreeMap::insert` into the resources' binding map: `group`/`binding`
/// lands in texture `slot`, replacing what it named before.
#[verifier::external_body]
fn bind_texture(r: &mut naga::back::msl::EntryPointResources, group: u32, binding: u32, slot: u8)
    ensures
        resource_bindings(*final(r)) == resource_bindings(*old(r)).insert(
            (group, binding),
            SlotTarget::Texture(slot),
        ),
{
    let target = naga::back::msl::BindTarget { texture: Some(slot), ..Default::default() };
    r.resources.insert(naga::ResourceBinding { group, binding }, target);
}

/// `BTreeMap::insert` into the resources' binding map: `group`/`binding`
/// lands in sampler `slot`, replacing what it named before.
#[verifier::external_body]
fn bind_sampler(r: &mut naga::back::msl::EntryPointResources, group: u32, binding: u32, slot: u8)
    ensures
        resource_bindings(*final(r)) == resource_bindings(*old(r)).insert(
            (group, binding),
            SlotTarget::Sampler(slot),
        ),
{
    let sampler = naga::back::msl::BindSamplerTarget::Resource(slot);
    let target = naga::back::msl::BindTarget { sampler: Some(sampler), ..Default::default() };
    r.resources.insert(naga::ResourceBinding { group, binding }, target);
}

/// What naga's MSL writer makes of `module` with its `info`, at MSL
/// `lang_version`, with `resources` for each entry point named: the MSL,
/// or its failure as text.
pub uninterp spec fn msl_written(
    module: naga::Module,
    info: naga::valid::ModuleInfo,
    entries: Seq<Seq<char>>,
    resources: naga::back::msl::EntryPointResources,
    lang_version: (u8, u8),
    fake_missing_bindings: bool,
) -> Result<Seq<char>, Seq<char>>;

/// `naga::back::msl::write_string` at MSL `lang_version`, with `resources`
/// for each entry point named, a missing binding an error when
/// `fake_missing_bindings` is off; a failure as its `Display` text. The
/// outcome is named, as a function of the arguments alone.
#[verifier::external_body]
pub(crate) fn write_msl(
    module: &naga::Module,
    info: &naga::valid::ModuleInfo,
    entries: &Vec<String>,
    resources: &naga::back::msl::EntryPointResources,
    lang_version: (u8, u8),
    fake_missing_bindings: bool,
) -> (r: Result<String, String>)
    ensures
        text_result(r) == msl_written(
            *module,
            *info,
            texts(entries@),
            *resources,
            lang_version,
            fake_missing_bindings,
        ),
{
    let mut options = naga::back::msl::Options { lang_version, fake_missing_bindings, ..Default::default() };
    for entry in entries {
        options.per_entry_point_map.insert(entry.clone(), resources.clone());
    }
    let pipeline = naga::back::msl::PipelineOptions::default();
    naga::back::msl::write_string(module, info, &options, &pipeline).map(|(msl, _)| msl).map_err(|e| e.to_string())
}

/// A table as a map from group and binding to slot; a later entry for
/// the same group and binding replaces an earlier one.
pub open spec fn table_map(s: Seq<SlotBinding>) -> Map<(u32, u32), SlotTarget>
    decreases s.len(),
{
    if s.len() == 0 {
        no_slots()
    } else {
        table_map(s.drop_last()).insert((s.last().group, s.last().binding), s.last().target)
    }
}

/// The binding table as naga's entry-point resources: each group and
/// binding of the table mapped to its slot.
pub(crate) fn entry_resources() -> (r: naga::back::msl::EntryPointResources)
    ensures
        resource_bindings(r) == table_map(slot_table()),
{
    let table = resources();
    let mut out = no_bindings();
    let mut i: usize = 0;
    while i < table.len()
        invariant
            table@ == slot_table(),
            i <= table@.len(),
            resource_bindings(out) == table_map(table@.subrange(0, i as int)),
        decreases table@.len() - i,
    {
        proof {
            let t = table@.subrange(0, i + 1);
            assert(t.drop_last() =~= table@.subrange(0, i as int));
            assert(t.last() == table@[i as int]);
        }
        let b = table[i];
        match b.target {
            SlotTarget::Buffer(slot) => bind_buffer(&mut out, b.group, b.binding, slot),
            SlotTarget::Texture(slot) => bind_texture(&mut out, b.group, b.binding, slot),
            SlotTarget::Sampler(slot) => bind_sampler(&mut out, b.group, b.binding, slot),
        }
        i = i + 1;
    }
    assert(table@.subrange(0, table@.len() as int) =~= table@);
    out
}

/// Declarations every WGSL effect sees. Must stay in step with the uniform
/// block the application uploads. The params struct is emitted separately
/// from the layout.
pub const PREAMBLE: &'static str = r#"
struct EffectUniforms {
    resolution: vec2<f32>,
    pointer: vec2<f32>,
    origin: vec2<f32>,
    time: f32,
    scale: f32,
    has_pointer: f32,
    delta: f32,
    frame: u32,
    _pad0: f32,
    corner_radii: vec4<f32>,
};

@group(0) @binding(0) var<uniform> u: EffectUniforms;
@group(0) @binding(1) var<uniform> viewport: vec2<f32>;
@group(0) @binding(2) var<uniform> p: EffectParams;
@group(0) @binding(3) var<uniform> image_sizes: array<vec4<f32>, 4>;
@group(1) @binding(0) var backdrop_texture: texture_2d<f32>;
@group(1) @binding(1) var image0: texture_2d<f32>;
@group(1) @binding(2) var image1: texture_2d<f32>;
@group(1) @binding(3) var image2: texture_2d<f32>;
@group(1) @binding(4) var image3: texture_2d<f32>;
@group(2) @binding(0) var backdrop_sampler: sampler;
@group(2) @binding(1) var image_sampler: sampler;

// What GPUI drew under the element at uv, when the element asked for it
// with `.backdrop(margin)`.
fn backdrop_sample(uv: vec2<f32>) -> vec4<f32> {
    return textureSample(backdrop_texture, backdrop_sampler, (u.origin + uv * u.resolution) / viewport);
}

struct EffectVertex {
    @builtin(position) position: vec4<f32>,
    @location(0) uv: vec2<f32>,
};

@vertex fn effect_vertex(@builtin(vertex_index) vid: u32) -> EffectVertex {
    var corners = array<vec2<f32>, 6>(
        vec2(0.0, 0.0), vec2(1.0, 0.0), vec2(0.0, 1.0),
        vec2(0.0, 1.0), vec2(1.0, 0.0), vec2(1.0, 1.0),
    );
    let uv = corners[vid];
    let pixel = u.origin + uv * u.resolution;
    var ndc = pixel / viewport * 2.0 - 1.0;
    ndc.y = -ndc.y;
    return EffectVertex(vec4(ndc, 0.0, 1.0), uv);
}

// Coverage of a rounded rectangle at pixel `p`: 1 inside, 0 outside, with a
// one-pixel ramp at the edge. Radii order matches EffectUniforms.
fn effect_corner_coverage(pixel: vec2<f32>, size: vec2<f32>, radii: vec4<f32>) -> f32 {
    let half_size = size * 0.5;
    let q = pixel - half_size;
    var r: f32;
    if (q.x < 0.0) {
        r = select(radii.w, radii.x, q.y < 0.0);
    } else {
        r = select(radii.z, radii.y, q.y < 0.0);
    }
    let d = abs(q) - half_size + r;
    let sdf = length(max(d, vec2(0.0))) + min(max(d.x, d.y), 0.0) - r;
    return saturate(0.5 - sdf);
}

@fragment fn effect_fragment(in: EffectVertex) -> @location(0) vec4<f32> {
    var color = effect(in.uv);
    if (any(u.corner_radii > vec4(0.0))) {
        color *= effect_corner_coverage(in.uv * u.resolution, u.resolution, u.corner_radii);
    }
    return color;
}
"#;

/// What naga reads for a WGSL effect: the user's source, the params
/// struct, then the preamble.
pub open spec fn wgsl_source_text(user: Seq<char>, params_struct: Seq<char>) -> Seq<char> {
    user + "\n"@ + params_struct + "\n"@ + PREAMBLE@
}

/// The WGSL module naga translates for `user` with `params`.
pub fn wgsl_source(user: &str, params: &ParamLayout) -> (r: String)
    requires
        params.wf(),
    ensures
        r@ == wgsl_source_text(user@, wgsl_struct_text(params@.fields)),
{
    let mut out = String::from_str(user);
    out.append("\n");
    let st = params.wgsl_struct();
    out.append(st.as_str());
    out.append("\n");
    out.append(PREAMBLE);
    assert(out@ =~= wgsl_source_text(user@, wgsl_struct_text(params@.fields)));
    out
}

/// Whether `s` starts with `prefix`.
pub open spec fn starts_with(s: Seq<char>, prefix: Seq<char>) -> bool {
    prefix.len() <= s.len() && s.subrange(0, prefix.len() as int) == prefix
}

/// A string that is `prefix` followed by `rest`.
fn prefixed(prefix: &str, rest: String) -> (r: String)
    ensures
        r@ == prefix@ + rest@,
{
    let mut out = String::from_str(prefix);
    out.append(rest.as_str());
    out
}

/// The entry points a WGSL effect defines.
pub open spec fn wgsl_entries() -> Seq<Seq<char>> {
    seq!["effect_vertex"@, "effect_fragment"@]
}

/// What translating the WGSL module `source` gives with `resources`: the
/// stage that fails names itself (`WGSL parse:` and `WGSL validation:`
/// then naga's report, `WGSL to MSL: ` then the writer's), else the MSL
/// that naga writes at MSL 2.2 with every binding required.
pub open spec fn wgsl_translation(
    source: Seq<char>,
    resources: naga::back::msl::EntryPointResources,
) -> Result<Seq<char>, Seq<char>> {
    match wgsl_parsed(source) {
        Err(report) => Err("WGSL parse:\n"@ + report),
        Ok(module) => match validated(module, source) {
            Err(report) => Err("WGSL validation:\n"@ + report),
            Ok(info) => match msl_written(module, info, wgsl_entries(), resources, (2, 2), false) {
                Ok(msl) => Ok(msl),
                Err(e) => Err("WGSL to MSL: "@ + e),
            },
        },
    }
}

/// WGSL to MSL that defines `effect_vertex` and `effect_fragment` against
/// the crate's slots. naga reads exactly `wgsl_source(user, params)`, with
/// the binding table as the resources of both entry points; the result is
/// `wgsl_translation` of that. A failure names its stage.
pub fn wgsl_to_msl(user: &str, params: &ParamLayout) -> (r: Result<String, String>)
    requires
        params.wf(),
    ensures
        exists|res: naga::back::msl::EntryPointResources|
            resource_bindings(res) == table_map(slot_table()) && text_result(r) == wgsl_translation(
                wgsl_source_text(user@, wgsl_struct_text(params@.fields)),
                res,
            ),
        r matches Err(e) ==> starts_with(e@, "WGSL parse:\n"@) || starts_with(
            e@,
            "WGSL validation:\n"@,
        ) || starts_with(e@, "WGSL to MSL: "@),
{
    let source = wgsl_source(user, params);
    let bindings = entry_resources();
    let ghost src = source@;
    let module = match parse_wgsl(source.as_str()) {
        Ok(m) => m,
        Err(e) => {
            let r = prefixed("WGSL parse:\n", e);
            assert(r@.subrange(0, "WGSL parse:\n"@.len() as int) =~= "WGSL parse:\n"@);
            assert(text_result(Err::<String, String>(r)) == wgsl_translation(src, bindings));
            return Err(r);
        },
    };
    let info = match validate(&module, source.as_str()) {
        Ok(i) => i,
        Err(e) => {
            let r = prefixed("WGSL validation:\n", e);
            assert(r@.subrange(0, "WGSL validation:\n"@.len() as int) =~= "WGSL validation:\n"@);
            assert(text_result(Err::<String, String>(r)) == wgsl_translation(src, bindings));
            return Err(r);
        },
    };
    let mut entries: Vec<String> = Vec::new();
    entries.push(String::from_str("effect_vertex"));
    entries.push(String::from_str("effect_fragment"));
    assert(texts(entries@) =~= wgsl_entries());
    // MSL 2.2 is macOS 10.15, the floor the GPU crate compiles its own
    // shaders for. A binding the table forgot is an error here, not invalid
    // MSL that Metal then rejects with a worse message.
    match write_msl(&module, &info, &entries, &bindings, (2, 2), false) {
        Ok(msl) => {
            assert(text_result(Ok::<String, String>(msl)) == wgsl_translation(src, bindings));
            Ok(msl)
        },
        Err(e) => {
            let r = prefixed("WGSL to MSL: ", e);
            assert(r@.subrange(0, "WGSL to MSL: "@.len() as int) =~= "WGSL to MSL: "@);
            assert(text_result(Err::<String, String>(r)) == wgsl_translation(src, bindings));
            Err(r)
        },
    }
}

} // verus!
