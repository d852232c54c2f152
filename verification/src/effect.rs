//! One fragment shader's state: its source, the MSL that Metal compiles for
//! it, the frame clock, the pipeline with its fallback to the last source
//! that compiled, the params and the image slots. Metal itself, and the
//! GPUI element that draws, live with the application.

use crate::params::{LayoutView, ParamError, ParamLayout, ParamValue, Param, decls_view, spec_layout};
use crate::shadertoy::{
    finds, glsl_to_msl, glsl_uniforms, glsl_wrapped_translation, regex_finds, sampler_names,
    too_many_samplers, SAMPLER_CHANNELS,
};
use crate::wgsl::{resource_bindings, slot_table, table_map};
use crate::text::{decimal, push_decimal, seq_contains, str_contains};
use vstd::prelude::*;

verus! {

/// Metal source that precedes the user's `effect` function. Must stay in
/// step with the uniform block the application uploads.
pub const PREAMBLE: &'static str = r#"
#include <metal_stdlib>
using namespace metal;

struct EffectUniforms {
    float2 resolution;
    float2 pointer;
    float2 origin;
    float time;
    float scale;
    float has_pointer;
    float delta;        // seconds since this effect last drew, 0 on the first frame
    uint frame;         // frames this effect drew before this one
    float _pad0;
    float4 corner_radii;
};

// What GPUI drew under the element, when the element asked for it with
// `.backdrop(margin)`. Without that it is a 1x1 transparent texture.
struct EffectBackdrop {
    texture2d<float> texture;
    sampler s;
    float2 viewport;    // drawable size, device pixels
    float2 origin;      // element origin in the drawable, device pixels
    float2 resolution;  // element size, device pixels
    // Sample at element uv, 0..1 with a top-left origin. Values past the
    // requested margin are undefined: the copy is regional and the texture
    // is never cleared.
    float4 sample(float2 uv) {
        return texture.sample(s, (origin + uv * resolution) / viewport);
    }
};

// App images, uploaded with `Effect::image(slot, ..)`. An empty slot is a
// 1x1 transparent texture with size (0, 0).
struct EffectImages {
    array<texture2d<float>, 4> textures;
    sampler s;
    constant float4 *sizes;
    // Sample slot `i` at uv, 0..1 with a top-left origin. Wraps.
    float4 sample(int i, float2 uv) {
        return textures[i].sample(s, uv);
    }
    // Slot `i` in pixels, (0, 0) when empty.
    float2 size(int i) {
        return sizes[i].xy;
    }
};

struct EffectVertex {
    float4 position [[position]];
    float2 uv;
};

vertex EffectVertex effect_vertex(uint vid [[vertex_id]],
                                  constant EffectUniforms &u [[buffer(0)]],
                                  constant float2 &viewport [[buffer(1)]]) {
    const float2 corners[6] = { {0, 0}, {1, 0}, {0, 1}, {0, 1}, {1, 0}, {1, 1} };
    float2 uv = corners[vid];
    float2 pixel = u.origin + uv * u.resolution;
    float2 ndc = pixel / viewport * 2.0 - 1.0;
    ndc.y = -ndc.y;
    EffectVertex out;
    out.position = float4(ndc, 0.0, 1.0);
    out.uv = uv;
    return out;
}

// Coverage of a rounded rectangle at pixel `p`: 1 inside, 0 outside, with a
// one-pixel ramp at the edge. Radii order matches EffectUniforms.
float effect_corner_coverage(float2 p, float2 size, float4 radii) {
    float2 half_size = size * 0.5;
    float2 q = p - half_size;
    float r = q.x < 0.0 ? (q.y < 0.0 ? radii.x : radii.w)
                        : (q.y < 0.0 ? radii.y : radii.z);
    float2 d = abs(q) - half_size + r;
    float sdf = length(max(d, 0.0)) + min(max(d.x, d.y), 0.0) - r;
    return saturate(0.5 - sdf);
}
"#;

/// The fragment entry up to the call of the user's `effect`.
pub const FRAGMENT_HEAD: &'static str = r#"
fragment float4 effect_fragment(EffectVertex in [[stage_in]],
                                constant EffectUniforms &u [[buffer(0)]],
                                constant float2 &viewport [[buffer(1)]],
                                constant EffectParams &p [[buffer(2)]],
                                constant float4 *image_sizes [[buffer(3)]],
                                texture2d<float> backdrop_texture [[texture(0)]],
                                array<texture2d<float>, 4> image_textures [[texture(1)]],
                                sampler backdrop_sampler [[sampler(0)]],
                                sampler image_sampler [[sampler(1)]]) {
    EffectBackdrop backdrop { backdrop_texture, backdrop_sampler, viewport, u.origin, u.resolution };
    EffectImages images { image_textures, image_sampler, image_sizes };
    float4 color = "#;

/// The fragment entry after the call: the corner fade and the return.
pub const FRAGMENT_TAIL: &'static str = r#";
    if (any(u.corner_radii > 0.0)) {
        color *= effect_corner_coverage(in.uv * u.resolution, u.resolution, u.corner_radii);
    }
    return color;
}
"#;

/// The call of the user's `effect`: `uv` and `u`, then one argument for
/// each wrapper type the source mentions, in the order backdrop, params,
/// images.
pub open spec fn effect_call(source: Seq<char>) -> Seq<char> {
    "effect(in.uv, u"@
        + (if seq_contains(source, "EffectBackdrop"@) { ", backdrop"@ } else { Seq::empty() })
        + (if seq_contains(source, "EffectParams"@) { ", p"@ } else { Seq::empty() })
        + (if seq_contains(source, "EffectImages"@) { ", images"@ } else { Seq::empty() })
        + ")"@
}

/// The whole fragment entry for `source`.
pub open spec fn fragment_text(source: Seq<char>) -> Seq<char> {
    FRAGMENT_HEAD@ + effect_call(source) + FRAGMENT_TAIL@
}

/// The fragment entry, after the user's source so it can call `effect`.
/// Each wrapper type the source mentions adds an argument, in this order:
/// `EffectBackdrop` the backdrop, `EffectParams` the params,
/// `EffectImages` the images.
pub fn fragment_entry(source: &str) -> (r: String)
    ensures
        r@ == fragment_text(source@),
{
    let mut out = String::from_str(FRAGMENT_HEAD);
    out.append("effect(in.uv, u");
    if str_contains(source, "EffectBackdrop") {
        out.append(", backdrop");
    }
    if str_contains(source, "EffectParams") {
        out.append(", p");
    }
    if str_contains(source, "EffectImages") {
        out.append(", images");
    }
    out.append(")");
    out.append(FRAGMENT_TAIL);
    assert(out@ =~= fragment_text(source@));
    out
}

/// A word boundary, a `p` and a dot: a WGSL read of the params global.
pub const READS_P: &'static str = r"\bp\.";

/// What the app handed over, in the language it wrote.
pub enum Source {
    Msl(String),
    Wgsl(String),
}

/// A source taken as its language and characters.
pub enum SourceView {
    Msl(Seq<char>),
    Wgsl(Seq<char>),
}

impl View for Source {
    type V = SourceView;

    open spec fn view(&self) -> SourceView {
        match self {
            Source::Msl(s) => SourceView::Msl(s@),
            Source::Wgsl(s) => SourceView::Wgsl(s@),
        }
    }
}

/// Whether the shader can see the params: MSL names the type, WGSL reads
/// the global `p`.
pub open spec fn spec_reads_params(s: SourceView) -> bool {
    match s {
        SourceView::Msl(m) => seq_contains(m, "EffectParams"@),
        SourceView::Wgsl(w) => regex_finds(READS_P@, w) == Some(true),
    }
}

impl Source {
    /// Whether the shader can see the params, for the `set` warning. MSL
    /// names the type; WGSL reads the global `p`.
    pub fn reads_params(&self) -> (r: bool)
        ensures
            r == spec_reads_params(self@),
    {
        match self {
            Source::Msl(msl) => str_contains(msl.as_str(), "EffectParams"),
            Source::Wgsl(wgsl) => match finds(READS_P, wgsl.as_str()) {
                Some(b) => b,
                None => false,
            },
        }
    }

    /// What the `set` warning calls the params in this language.
    pub fn params_name(&self) -> (r: &'static str)
        ensures
            r@ == (match self@ {
                SourceView::Msl(_) => "EffectParams"@,
                SourceView::Wgsl(_) => "p"@,
            }),
    {
        match self {
            Source::Msl(_) => "EffectParams",
            Source::Wgsl(_) => "p",
        }
    }
}

/// What Metal compiles for MSL: preamble, params struct, user source,
/// entry, each on lines of its own.
pub open spec fn msl_full_text(msl: Seq<char>, params_struct: Seq<char>) -> Seq<char> {
    PREAMBLE@ + "\n"@ + params_struct + "\n"@ + msl + "\n"@ + fragment_text(msl)
}

/// What Metal compiles for an MSL effect with `params`.
pub fn msl_source(msl: &str, params: &ParamLayout) -> (r: String)
    ensures
        r@ == msl_full_text(msl@, crate::params::msl_struct_text(params@.fields)),
{
    let mut out = String::from_str(PREAMBLE);
    out.append("\n");
    let st = params.msl_struct();
    out.append(st.as_str());
    out.append("\n");
    out.append(msl);
    out.append("\n");
    let entry = fragment_entry(msl);
    out.append(entry.as_str());
    assert(out@ =~= msl_full_text(msl@, crate::params::msl_struct_text(params@.fields)));
    out
}


/// What Metal compiles. MSL: preamble, params struct, user source, entry.
/// WGSL: `wgsl_to_msl` of the user source with `params`: naga's
/// translation of it, the params struct and the WGSL preamble.
pub fn full_source(source: &Source, params: &ParamLayout) -> (r: Result<String, String>)
    requires
        params.wf(),
    ensures
        match source@ {
            SourceView::Msl(m) => r matches Ok(t) && t@ == msl_full_text(
                m,
                crate::params::msl_struct_text(params@.fields),
            ),
            SourceView::Wgsl(w) => {
                &&& exists|res: naga::back::msl::EntryPointResources|
                    #[trigger] resource_bindings(res) == table_map(slot_table())
                        && crate::wgsl::text_result(r) == crate::wgsl::wgsl_translation(
                        crate::wgsl::wgsl_source_text(w, crate::params::wgsl_struct_text(params@.fields)),
                        res,
                    )
                &&& r matches Err(e) ==> crate::wgsl::starts_with(e@, "WGSL parse:\n"@)
                    || crate::wgsl::starts_with(e@, "WGSL validation:\n"@)
                    || crate::wgsl::starts_with(e@, "WGSL to MSL: "@)
            },
        },
{
    match source {
        Source::Msl(msl) => Ok(msl_source(msl.as_str(), params)),
        Source::Wgsl(wgsl) => crate::wgsl::wgsl_to_msl(wgsl.as_str(), params),
    }
}

/// What this effect has drawn so far, for `delta` and `frame`. Times are
/// nanoseconds on whatever clock the caller owns.
#[derive(Debug, Clone, Copy, PartialEq, Eq)]
pub struct Clock {
    /// The time of the last tick, if there was one.
    pub last_time: Option<u128>,
    /// Nanoseconds since the previous tick; 0 on the first.
    pub delta: u128,
    /// How many frames were drawn before this one.
    pub frame: u32,
}

/// The delta a tick to `time` measures after `last`: never negative, so a
/// clock that jumps back reads as a fresh start.
pub open spec fn tick_delta(last: Option<u128>, time: u128) -> u128 {
    match last {
        Some(l) => if time >= l { (time - l) as u128 } else { 0 },
        None => 0,
    }
}

impl Clock {
    /// No frame drawn, no tick seen.
    pub fn new() -> (r: Clock)
        ensures
            r.last_time is None,
            r.delta == 0,
            r.frame == 0,
    {
        Clock { last_time: None, delta: 0, frame: 0 }
    }

    /// Advance to `time`. `delta` is 0 on the first frame and never
    /// negative: a clock that jumps back reads as a fresh start.
    pub fn tick(&mut self, time: u128)
        ensures
            final(self).delta == tick_delta(old(self).last_time, time),
            final(self).last_time == Some(time),
            final(self).frame == old(self).frame,
    {
        self.delta = match self.last_time {
            Some(last) => if time >= last { time - last } else { 0 },
            None => 0,
        };
        self.last_time = Some(time);
    }

    /// The frame just drawn is now in the past.
    pub fn drew(&mut self)
        requires
            old(self).frame < u32::MAX,
        ensures
            final(self).frame == old(self).frame + 1,
            final(self).delta == old(self).delta,
            final(self).last_time == old(self).last_time,
    {
        self.frame = self.frame + 1;
    }
}

impl Default for Clock {
    fn default() -> (r: Clock)
        ensures
            r.last_time is None,
            r.delta == 0,
            r.frame == 0,
    {
        Clock::new()
    }
}

/// Image slots the shader can read.
pub const IMAGE_SLOTS: usize = 4;

/// Why an image upload was refused.
#[derive(Debug, Clone, PartialEq, Eq, Structural)]
pub enum ImageError {
    /// Slots run 0..4.
    BadSlot(usize),
    /// `bgra.len()` must be `width * height * 4`.
    BadLength { expected: usize, got: usize },
}

/// The message an image error prints.
pub open spec fn image_error_message(e: ImageError) -> Seq<char> {
    match e {
        ImageError::BadSlot(slot) => "image slot "@ + decimal(slot as nat) + " is not in 0..4"@,
        ImageError::BadLength { expected, got } => "image bytes: expected "@ + decimal(
            expected as nat,
        ) + ", got "@ + decimal(got as nat),
    }
}

impl ImageError {
    /// The error as a sentence, as `Display` prints it.
    pub fn message(&self) -> (r: String)
        ensures
            r@ == image_error_message(*self),
    {
        match self {
            ImageError::BadSlot(slot) => {
                let mut out = String::from_str("image slot ");
                push_decimal(&mut out, *slot);
                out.append(" is not in 0..4");
                assert(out@ =~= image_error_message(*self));
                out
            },
            ImageError::BadLength { expected, got } => {
                let mut out = String::from_str("image bytes: expected ");
                push_decimal(&mut out, *expected);
                out.append(", got ");
                push_decimal(&mut out, *got);
                assert(out@ =~= image_error_message(*self));
                out
            },
        }
    }
}


/// One image slot: the bytes the app handed over. The application uploads
/// them and may then release them.
#[derive(Debug, Clone, PartialEq, Eq)]
pub struct Image {
    pub width: u32,
    pub height: u32,
    /// Premultiplied BGRA8, `width * height * 4` bytes until released.
    pub bgra: Vec<u8>,
}

/// An image taken as its size and bytes.
pub struct ImageView {
    pub width: u32,
    pub height: u32,
    pub bgra: Seq<u8>,
}

impl View for Image {
    type V = ImageView;

    open spec fn view(&self) -> ImageView {
        ImageView { width: self.width, height: self.height, bgra: self.bgra@ }
    }
}

/// An optional image taken by its view.
pub open spec fn slot_view(o: Option<Image>) -> Option<ImageView> {
    match o {
        Some(i) => Some(i@),
        None => None,
    }
}

/// Where the compiled pipeline stands. `R` is what the GPU side built.
pub enum Pipeline<R> {
    /// Not built yet, or the source changed since.
    Pending,
    Ready(R),
    /// The build failed and nothing drew before.
    Failed,
}

/// What a finished build means for the log.
#[derive(Debug, Clone, PartialEq, Eq)]
pub enum BuildReport {
    /// The new source compiled and draws.
    Built,
    /// It failed; the last source that compiled keeps drawing.
    KeptLastGood(String),
    /// It failed and there is nothing to draw.
    Failed(String),
}

/// Everything an effect keeps between frames, apart from the GPU objects
/// themselves.
pub struct EffectState<R> {
    source: Source,
    clock: Clock,
    pipeline: Pipeline<R>,
    /// The pipeline that drew before the source changed, kept until the new
    /// source compiles so an edit that fails never blanks the element.
    last_good: Option<R>,
    /// App parameters, uploaded at buffer(2) as `EffectParams`.
    params: ParamLayout,
    warned_unread_params: bool,
    images: Vec<Option<Image>>,
    /// The shader reads the pointer, so the element follows it.
    reads_pointer: bool,
}

/// An effect's state taken as plain values.
pub struct EffectView<R> {
    pub source: SourceView,
    pub clock: Clock,
    pub pipeline: Pipeline<R>,
    pub last_good: Option<R>,
    pub params: LayoutView,
    pub warned_unread_params: bool,
    pub images: Seq<Option<ImageView>>,
    pub reads_pointer: bool,
}

impl<R> View for EffectState<R> {
    type V = EffectView<R>;

    closed spec fn view(&self) -> EffectView<R> {
        EffectView {
            source: self.source@,
            clock: self.clock,
            pipeline: self.pipeline,
            last_good: self.last_good,
            params: self.params@,
            warned_unread_params: self.warned_unread_params,
            images: self.images@.map_values(|o: Option<Image>| slot_view(o)),
            reads_pointer: self.reads_pointer,
        }
    }
}

/// A fresh effect on `source`: nothing built, clock at rest, the empty
/// params, no images.
pub open spec fn fresh<R>(source: SourceView) -> EffectView<R> {
    EffectView {
        source,
        clock: Clock { last_time: None, delta: 0, frame: 0 },
        pipeline: Pipeline::Pending,
        last_good: None,
        params: spec_layout(Seq::empty()),
        warned_unread_params: false,
        images: Seq::new(IMAGE_SLOTS as nat, |i: int| None),
        reads_pointer: false,
    }
}

/// The state after the source is replaced: the new source waits to be
/// built, and a pipeline that was drawing becomes the fallback.
pub open spec fn replaced<R>(v: EffectView<R>, source: SourceView) -> EffectView<R> {
    EffectView {
        source,
        pipeline: Pipeline::Pending,
        last_good: match v.pipeline {
            Pipeline::Ready(r) => Some(r),
            _ => v.last_good,
        },
        ..v
    }
}

/// The state after a pending build finishes with `built` (`None` when it
/// failed): a success draws and drops the fallback; a failure draws the
/// fallback when there is one, else nothing.
pub open spec fn after_build<R>(v: EffectView<R>, built: Option<R>) -> EffectView<R> {
    match built {
        Some(r) => EffectView { pipeline: Pipeline::Ready(r), last_good: None, ..v },
        None => match v.last_good {
            Some(p) => EffectView { pipeline: Pipeline::Ready(p), last_good: None, ..v },
            None => EffectView { pipeline: Pipeline::Failed, ..v },
        },
    }
}

/// What the shader reads from a source: the pipeline it draws with, when
/// there is one.
pub open spec fn drawing<R>(v: EffectView<R>) -> Option<R> {
    match v.pipeline {
        Pipeline::Ready(r) => Some(r),
        _ => None,
    }
}

/// The params `set_shadertoy` lays out for a GLSL source: its uniforms
/// when they are all valid, else none.
pub open spec fn shadertoy_params(glsl: Seq<char>) -> LayoutView {
    let d = crate::shadertoy::uniform_decls(glsl);
    if crate::params::decls_ok(d) {
        spec_layout(d)
    } else {
        spec_layout(Seq::empty())
    }
}

/// What `load_shadertoy` does with `glsl`, from `before` to `after`,
/// answering `r`: too many samplers is that error and changes nothing;
/// otherwise, for naga's resources with the binding table, a failed
/// translation of the wrapped shader, its uniforms as params, is returned
/// and changes nothing, and a translation is taken as `set_shadertoy`
/// takes it. A uniform that is rejected is named as `set_shadertoy` does.
pub open spec fn shadertoy_loaded<R>(
    before: EffectView<R>,
    glsl: Seq<char>,
    r: Result<Option<ParamError>, String>,
    after: EffectView<R>,
) -> bool {
    &&& sampler_names(glsl).len() > SAMPLER_CHANNELS ==> (r matches Err(e) && e@ == too_many_samplers(
        sampler_names(glsl).len(),
    )) && after == before
    &&& sampler_names(glsl).len() <= SAMPLER_CHANNELS ==> exists|
        res: naga::back::msl::EntryPointResources,
    |
        #[trigger] resource_bindings(res) == table_map(slot_table()) && match glsl_wrapped_translation(
            glsl,
            shadertoy_params(glsl).fields,
            res,
        ) {
            Err(e) => (r matches Err(x) && x@ == e) && after == before,
            Ok(msl) => r is Ok && after == (EffectView {
                params: shadertoy_params(glsl),
                reads_pointer: seq_contains(glsl, "iMouse"@),
                ..replaced(before, SourceView::Msl(msl))
            }),
        }
    &&& ({
        let d = crate::shadertoy::uniform_decls(glsl);
        match r {
            Ok(None) => crate::params::decls_ok(d),
            Ok(Some(e)) => exists|i: int|
                0 <= i < d.len() && !crate::params::decl_ok(d, i) && (forall|j: int|
                    0 <= j < i ==> crate::params::decl_ok(d, j)) && e@ == crate::params::decl_error(d, i),
            Err(_) => true,
        }
    })
}

/// The declarations of `owned`, each name borrowed.
fn borrow_decls(owned: &Vec<(String, Param)>) -> (r: Vec<(&str, Param)>)
    ensures
        decls_view(r@) == owned@.map_values(|d: (String, Param)| (d.0@, d.1)),
{
    let mut decls: Vec<(&str, Param)> = Vec::new();
    let mut i: usize = 0;
    while i < owned.len()
        invariant
            i <= owned@.len(),
            decls@.len() == i,
            forall|k: int| 0 <= k < i ==> (#[trigger] decls@[k]).0@ == owned@[k].0@ && decls@[k].1 == owned@[k].1,
        decreases owned@.len() - i,
    {
        decls.push((owned[i].0.as_str(), owned[i].1));
        i = i + 1;
    }
    assert(decls_view(decls@) =~= owned@.map_values(|d: (String, Param)| (d.0@, d.1)));
    decls
}

impl<R> EffectState<R> {
    /// The invariant: well-formed params and one entry per image slot.
    pub open spec fn wf(&self) -> bool {
        &&& self@.images.len() == IMAGE_SLOTS
        &&& crate::params::layout_wf(self@.params)
    }

    fn from_source(source: Source) -> (r: Self)
        ensures
            r.wf(),
            r@ == fresh::<R>(source@),
    {
        let mut images: Vec<Option<Image>> = Vec::new();
        let mut i: usize = 0;
        while i < IMAGE_SLOTS
            invariant
                i <= IMAGE_SLOTS,
                images@.len() == i,
                forall|k: int| 0 <= k < i ==> images@[k] is None,
            decreases IMAGE_SLOTS - i,
        {
            images.push(None);
            i = i + 1;
        }
        let r = EffectState {
            source,
            clock: Clock::new(),
            pipeline: Pipeline::Pending,
            last_good: None,
            params: ParamLayout::empty(),
            warned_unread_params: false,
            images,
            reads_pointer: false,
        };
        assert(r@.images =~= Seq::new(IMAGE_SLOTS as nat, |i: int| None::<ImageView>));
        r
    }

    /// Wrap Metal source. It compiles when the application first builds.
    pub fn new(source: String) -> (r: Self)
        ensures
            r.wf(),
            r@ == fresh::<R>(SourceView::Msl(source@)),
    {
        Self::from_source(Source::Msl(source))
    }

    /// Wrap a WGSL effect.
    pub fn wgsl(source: String) -> (r: Self)
        ensures
            r.wf(),
            r@ == fresh::<R>(SourceView::Wgsl(source@)),
    {
        Self::from_source(Source::Wgsl(source))
    }

    /// Declare app parameters, in struct order. On an invalid declaration
    /// nothing changes and the first offending declaration is named.
    pub fn params(&mut self, decls: &[(&str, Param)]) -> (r: Result<(), ParamError>)
        requires
            old(self).wf(),
            crate::params::can_lay_out(decls_view(decls@)),
        ensures
            final(self).wf(),
            match r {
                Ok(()) => {
                    &&& forall|i: int|
                        0 <= i < decls@.len() ==> crate::params::decl_ok(decls_view(decls@), i)
                    &&& final(self)@ == (EffectView {
                        params: spec_layout(decls_view(decls@)),
                        ..old(self)@
                    })
                },
                Err(e) => {
                    &&& final(self)@ == old(self)@
                    &&& exists|i: int|
                        0 <= i < decls@.len() && !crate::params::decl_ok(decls_view(decls@), i)
                            && (forall|j: int|
                            0 <= j < i ==> crate::params::decl_ok(decls_view(decls@), j))
                            && e@ == crate::params::decl_error(decls_view(decls@), i)
                },
            },
    {
        match ParamLayout::new(decls) {
            Ok(l) => {
                self.params = l;
                Ok(())
            },
            Err(e) => Err(e),
        }
    }

    /// Write one parameter; the next frame sees it. The second value is
    /// true the first time this is called on an effect whose shader never
    /// reads the params: the moment to warn.
    pub fn set(&mut self, name: &str, value: ParamValue) -> (r: (Result<(), ParamError>, bool))
        requires
            old(self).wf(),
        ensures
            final(self).wf(),
            r.1 == (!old(self)@.warned_unread_params && !spec_reads_params(old(self)@.source)),
            final(self)@ == (EffectView {
                params: final(self)@.params,
                warned_unread_params: old(self)@.warned_unread_params || r.1,
                ..old(self)@
            }),
            final(self)@.params.fields == old(self)@.params.fields,
            final(self)@.params.size == old(self)@.params.size,
            match crate::params::find_field(old(self)@.params.fields, name@) {
                None => r.0 matches Err(e) && e@ == crate::params::ParamErrorView::UnknownName(
                    name@,
                ) && final(self)@.params == old(self)@.params,
                Some(k) => {
                    let f = old(self)@.params.fields[k];
                    if f.ty == crate::params::value_type(value) {
                        r.0 is Ok && final(self)@.params.bytes == crate::params::write_at(
                            old(self)@.params.bytes,
                            f.offset as int,
                            crate::params::value_bytes(value),
                        )
                    } else {
                        r.0 matches Err(e) && e@ == (crate::params::ParamErrorView::TypeMismatch {
                            name: name@,
                            expected: f.ty,
                            got: crate::params::value_type(value),
                        }) && final(self)@.params == old(self)@.params
                    }
                },
            },
    {
        let mut warn = false;
        if !self.warned_unread_params && !self.source.reads_params() {
            self.warned_unread_params = true;
            warn = true;
        }
        let r = self.params.set(name, value);
        (r, warn)
    }

    fn replace_source(&mut self, source: Source)
        requires
            old(self).wf(),
        ensures
            final(self).wf(),
            final(self)@ == replaced(old(self)@, source@),
    {
        self.source = source;
        let mut previous = Pipeline::Pending;
        std::mem::swap(&mut previous, &mut self.pipeline);
        if let Pipeline::Ready(ready) = previous {
            self.last_good = Some(ready);
        }
    }

    /// Replace the shader source. It builds next; if that fails, the last
    /// source that compiled keeps drawing. Params and images carry over.
    pub fn set_source(&mut self, source: String)
        requires
            old(self).wf(),
        ensures
            final(self).wf(),
            final(self)@ == replaced(old(self)@, SourceView::Msl(source@)),
    {
        self.replace_source(Source::Msl(source));
    }

    /// Replace the source with WGSL, as `set_source` does for MSL.
    pub fn set_wgsl(&mut self, source: String)
        requires
            old(self).wf(),
        ensures
            final(self).wf(),
            final(self)@ == replaced(old(self)@, SourceView::Wgsl(source@)),
    {
        self.replace_source(Source::Wgsl(source));
    }

    /// Take a Shadertoy or Ghostty style GLSL shader, given with `msl`, its
    /// translation, replacing the source as `set_source` does. Its
    /// `uniform` declarations become the params, so earlier values reset;
    /// when they cannot be laid out the params are empty and the reason is
    /// returned. A shader that mentions `iMouse` reads the pointer.
    pub fn set_shadertoy(&mut self, glsl: &str, msl: String) -> (r: Option<ParamError>)
        requires
            old(self).wf(),
            crate::params::can_lay_out(crate::shadertoy::uniform_decls(glsl@)),
        ensures
            final(self).wf(),
            final(self)@ == (EffectView {
                params: shadertoy_params(glsl@),
                reads_pointer: seq_contains(glsl@, "iMouse"@),
                ..replaced(old(self)@, SourceView::Msl(msl@))
            }),
            ({
                let d = crate::shadertoy::uniform_decls(glsl@);
                match r {
                    None => crate::params::decls_ok(d),
                    Some(e) => exists|i: int|
                        0 <= i < d.len() && !crate::params::decl_ok(d, i) && (forall|j: int|
                            0 <= j < i ==> crate::params::decl_ok(d, j)) && e@
                            == crate::params::decl_error(d, i),
                }
            }),
    {
        self.set_source(msl);
        let owned = glsl_uniforms(glsl);
        let decls = borrow_decls(&owned);
        let mut err: Option<ParamError> = None;
        match ParamLayout::new(decls.as_slice()) {
            Ok(l) => {
                self.params = l;
            },
            Err(e) => {
                self.params = ParamLayout::empty();
                err = Some(e);
            },
        }
        self.reads_pointer = str_contains(glsl, "iMouse");
        err
    }

    /// A Shadertoy or Ghostty style effect: an empty MSL effect given the
    /// GLSL shader and its translation as `set_shadertoy` takes them.
    pub fn shadertoy(glsl: &str, msl: String) -> (r: (Self, Option<ParamError>))
        requires
            crate::params::can_lay_out(crate::shadertoy::uniform_decls(glsl@)),
        ensures
            r.0.wf(),
            r.0@ == (EffectView {
                params: shadertoy_params(glsl@),
                reads_pointer: seq_contains(glsl@, "iMouse"@),
                ..replaced(fresh::<R>(SourceView::Msl(Seq::empty())), SourceView::Msl(msl@))
            }),
    {
        let mut effect = Self::new(String::new());
        let e = effect.set_shadertoy(glsl, msl);
        (effect, e)
    }

    /// Whether the uniforms of `glsl` can be laid out: always when one of
    /// them is rejected, else when their struct fits a `usize`.
    pub fn shadertoy_fits(glsl: &str) -> (r: bool)
        ensures
            r == crate::params::can_lay_out(crate::shadertoy::uniform_decls(glsl@)),
    {
        let owned = glsl_uniforms(glsl);
        let decls = borrow_decls(&owned);
        ParamLayout::can_lay_out(decls.as_slice())
    }

    /// `set_shadertoy` where the uniforms can be laid out, with its answer
    /// in `Some`; otherwise `None`, and nothing changes.
    pub fn try_set_shadertoy(&mut self, glsl: &str, msl: String) -> (r: Option<Option<ParamError>>)
        requires
            old(self).wf(),
        ensures
            final(self).wf(),
            r is None <==> !crate::params::can_lay_out(crate::shadertoy::uniform_decls(glsl@)),
            r is None ==> final(self)@ == old(self)@,
            r is Some ==> final(self)@ == (EffectView {
                params: shadertoy_params(glsl@),
                reads_pointer: seq_contains(glsl@, "iMouse"@),
                ..replaced(old(self)@, SourceView::Msl(msl@))
            }),
            ({
                let d = crate::shadertoy::uniform_decls(glsl@);
                match r {
                    Some(None) => crate::params::decls_ok(d),
                    Some(Some(e)) => exists|i: int|
                        0 <= i < d.len() && !crate::params::decl_ok(d, i) && (forall|j: int|
                            0 <= j < i ==> crate::params::decl_ok(d, j)) && e@
                            == crate::params::decl_error(d, i),
                    None => true,
                }
            }),
    {
        if Self::shadertoy_fits(glsl) {
            Some(self.set_shadertoy(glsl, msl))
        } else {
            None
        }
    }

    /// Translate a Shadertoy or Ghostty style GLSL shader, with its
    /// uniforms laid out as the params it will have, and take it as
    /// `set_shadertoy` does. A translation failure is returned and changes
    /// nothing.
    pub fn load_shadertoy(&mut self, glsl: &str) -> (r: Result<Option<ParamError>, String>)
        requires
            old(self).wf(),
            crate::params::can_lay_out(crate::shadertoy::uniform_decls(glsl@)),
        ensures
            final(self).wf(),
            shadertoy_loaded(old(self)@, glsl@, r, final(self)@),
    {
        let owned = glsl_uniforms(glsl);
        let decls = borrow_decls(&owned);
        let layout = match ParamLayout::new(decls.as_slice()) {
            Ok(l) => l,
            Err(_) => ParamLayout::empty(),
        };
        assert(layout@ == shadertoy_params(glsl@));
        let msl = match glsl_to_msl(glsl, &layout) {
            Ok(m) => m,
            Err(e) => {
                return Err(e);
            },
        };
        Ok(self.set_shadertoy(glsl, msl))
    }

    /// `load_shadertoy` where the uniforms can be laid out, with its answer
    /// in `Some`; otherwise `None`, and nothing changes.
    pub fn try_load_shadertoy(&mut self, glsl: &str) -> (r: Option<Result<Option<ParamError>, String>>)
        requires
            old(self).wf(),
        ensures
            final(self).wf(),
            r is None <==> !crate::params::can_lay_out(crate::shadertoy::uniform_decls(glsl@)),
            r is None ==> final(self)@ == old(self)@,
            r matches Some(x) ==> shadertoy_loaded(old(self)@, glsl@, x, final(self)@),
    {
        if Self::shadertoy_fits(glsl) {
            Some(self.load_shadertoy(glsl))
        } else {
            None
        }
    }

    /// `shadertoy` where the uniforms can be laid out; otherwise `None`.
    pub fn try_shadertoy(glsl: &str, msl: String) -> (r: Option<(Self, Option<ParamError>)>)
        ensures
            r is None <==> !crate::params::can_lay_out(crate::shadertoy::uniform_decls(glsl@)),
            r matches Some(p) ==> p.0.wf() && p.0@ == (EffectView {
                params: shadertoy_params(glsl@),
                reads_pointer: seq_contains(glsl@, "iMouse"@),
                ..replaced(fresh::<R>(SourceView::Msl(Seq::empty())), SourceView::Msl(msl@))
            }),
    {
        if Self::shadertoy_fits(glsl) {
            Some(Self::shadertoy(glsl, msl))
        } else {
            None
        }
    }

    /// Give the shader an image in `slot` (0..4). `bgra` is premultiplied
    /// BGRA8, `width * height * 4` bytes. A bad slot or length changes
    /// nothing.
    pub fn image(&mut self, slot: usize, width: u32, height: u32, bgra: Vec<u8>) -> (r: Result<(), ImageError>)
        requires
            old(self).wf(),
            width * height * 4 <= usize::MAX,
        ensures
            final(self).wf(),
            slot >= IMAGE_SLOTS ==> r == Err::<(), ImageError>(ImageError::BadSlot(slot))
                && final(self)@ == old(self)@,
            slot < IMAGE_SLOTS && bgra@.len() != width * height * 4 ==> r == Err::<(), ImageError>(
                ImageError::BadLength {
                    expected: (width * height * 4) as usize,
                    got: bgra@.len() as usize,
                },
            ) && final(self)@ == old(self)@,
            slot < IMAGE_SLOTS && bgra@.len() == width * height * 4 ==> r is Ok && final(self)@ == (
            EffectView {
                images: old(self)@.images.update(
                    slot as int,
                    Some(ImageView { width, height, bgra: bgra@ }),
                ),
                ..old(self)@
            }),
    {
        if slot >= IMAGE_SLOTS {
            return Err(ImageError::BadSlot(slot));
        }
        assert((width as usize) * (height as usize) <= usize::MAX) by (nonlinear_arith)
            requires
                width * height * 4 <= usize::MAX,
        ;
        let expected = (width as usize) * (height as usize) * 4;
        if bgra.len() != expected {
            return Err(ImageError::BadLength { expected, got: bgra.len() });
        }
        let ghost before = self.images@;
        self.images.set(slot, Some(Image { width, height, bgra }));
        assert(self@.images =~= old(self)@.images.update(
            slot as int,
            Some(ImageView { width, height, bgra: bgra@ }),
        ));
        Ok(())
    }

    /// Whether the element should follow the pointer.
    pub fn reads_pointer(&self) -> (r: bool)
        ensures
            r == self@.reads_pointer,
    {
        self.reads_pointer
    }

    /// The source as the app handed it over.
    pub fn source(&self) -> (r: &Source)
        ensures
            r@ == self@.source,
    {
        &self.source
    }

    /// Where the pipeline stands.
    pub fn pipeline(&self) -> (r: &Pipeline<R>)
        ensures
            *r == self@.pipeline,
    {
        &self.pipeline
    }

    /// Whether the application should build the pipeline now.
    pub fn needs_build(&self) -> (r: bool)
        ensures
            r == self@.pipeline is Pending,
    {
        match self.pipeline {
            Pipeline::Pending => true,
            _ => false,
        }
    }

    /// Record how the pending build went: `Ok` with what was built, or the
    /// error. A failure falls back to the last pipeline that drew, when
    /// there is one.
    pub fn finish_build(&mut self, built: Result<R, String>) -> (r: BuildReport)
        requires
            old(self).wf(),
            old(self)@.pipeline is Pending,
        ensures
            final(self).wf(),
            final(self)@ == after_build(old(self)@, match built {
                Ok(b) => Some(b),
                Err(_) => None,
            }),
            match built {
                Ok(_) => r == BuildReport::Built,
                Err(e) => match old(self)@.last_good {
                    Some(_) => r matches BuildReport::KeptLastGood(m) && m@ == e@,
                    None => r matches BuildReport::Failed(m) && m@ == e@,
                },
            },
    {
        match built {
            Ok(ready) => {
                self.last_good = None;
                self.pipeline = Pipeline::Ready(ready);
                BuildReport::Built
            },
            Err(err) => {
                let previous = self.last_good.take();
                match previous {
                    Some(p) => {
                        self.pipeline = Pipeline::Ready(p);
                        BuildReport::KeptLastGood(err)
                    },
                    None => {
                        self.pipeline = Pipeline::Failed;
                        BuildReport::Failed(err)
                    },
                }
            },
        }
    }

    /// The pipeline to draw with, when there is one.
    pub fn ready(&self) -> (r: Option<&R>)
        ensures
            r == (match self@.pipeline {
                Pipeline::Ready(p) => Some(&p),
                _ => None,
            }),
    {
        match &self.pipeline {
            Pipeline::Ready(p) => Some(p),
            _ => None,
        }
    }

    /// The params, for upload.
    pub fn param_layout(&self) -> (r: &ParamLayout)
        requires
            self.wf(),
        ensures
            r@ == self@.params,
            r.wf(),
    {
        &self.params
    }

    /// The frame clock.
    pub fn clock(&self) -> (r: Clock)
        ensures
            r == self@.clock,
    {
        self.clock
    }

    /// A frame is about to draw at `time`, in nanoseconds.
    pub fn tick(&mut self, time: u128)
        requires
            old(self).wf(),
        ensures
            final(self).wf(),
            final(self)@ == (EffectView {
                clock: Clock {
                    last_time: Some(time),
                    delta: tick_delta(old(self)@.clock.last_time, time),
                    frame: old(self)@.clock.frame,
                },
                ..old(self)@
            }),
    {
        self.clock.tick(time);
    }

    /// The frame just drawn is now in the past.
    pub fn drew(&mut self)
        requires
            old(self).wf(),
            old(self)@.clock.frame < u32::MAX,
        ensures
            final(self).wf(),
            final(self)@ == (EffectView {
                clock: Clock { frame: (old(self)@.clock.frame + 1) as u32, ..old(self)@.clock },
                ..old(self)@
            }),
    {
        self.clock.drew();
    }

    /// The image in `slot`, if one was given.
    pub fn image_at(&self, slot: usize) -> (r: Option<&Image>)
        requires
            self.wf(),
            slot < IMAGE_SLOTS,
        ensures
            match r {
                Some(i) => self@.images[slot as int] == Some(i@),
                None => self@.images[slot as int] is None,
            },
    {
        assert(self@.images[slot as int] == slot_view(self.images@[slot as int]));
        match &self.images[slot] {
            Some(img) => Some(img),
            None => None,
        }
    }

    /// The GPU holds its own copy of the image in `slot` now: drop the
    /// bytes, keep the size.
    pub fn release_bytes(&mut self, slot: usize)
        requires
            old(self).wf(),
            slot < IMAGE_SLOTS,
        ensures
            final(self).wf(),
            final(self)@ == (EffectView {
                images: old(self)@.images.update(
                    slot as int,
                    match old(self)@.images[slot as int] {
                        Some(i) => Some(ImageView { bgra: Seq::empty(), ..i }),
                        None => None,
                    },
                ),
                ..old(self)@
            }),
    {
        assert(old(self)@.images[slot as int] == slot_view(old(self).images@[slot as int]));
        let size = match &self.images[slot] {
            Some(img) => Some((img.width, img.height)),
            None => None,
        };
        if let Some((width, height)) = size {
            self.images.set(slot, Some(Image { width, height, bgra: Vec::new() }));
        }
        assert(self@.images =~= old(self)@.images.update(
            slot as int,
            match old(self)@.images[slot as int] {
                Some(i) => Some(ImageView { bgra: Seq::empty(), ..i }),
                None => None,
            },
        ));
    }
}

/// An edit that fails to compile never blanks the element: after the
/// source is replaced, a failed build draws with the pipeline that was
/// drawing before the edit.
pub proof fn lemma_failed_edit_keeps_drawing<R>(v: EffectView<R>, source: SourceView)
    requires
        v.pipeline is Ready,
    ensures
        drawing(after_build(replaced(v, source), None)) == drawing(v),
{
}

/// Several edits in a row keep the fallback: whatever drew before the
/// first stays the fallback through the next, until a build finishes.
pub proof fn lemma_edits_keep_fallback<R>(v: EffectView<R>, s1: SourceView, s2: SourceView)
    requires
        v.pipeline is Ready,
    ensures
        drawing(after_build(replaced(replaced(v, s1), s2), None)) == drawing(v),
{
}

/// A build that succeeds draws what it built and drops the fallback.
pub proof fn lemma_successful_build_draws_it<R>(v: EffectView<R>, built: R)
    ensures
        drawing(after_build(v, Some(built))) == Some(built),
        after_build(v, Some(built)).last_good is None,
{
}

/// Replacing the source carries the params, the images, the clock and the
/// pointer flag over unchanged.
pub proof fn lemma_edit_keeps_params_and_images<R>(v: EffectView<R>, source: SourceView)
    ensures
        replaced(v, source).params == v.params,
        replaced(v, source).images == v.images,
        replaced(v, source).clock == v.clock,
        replaced(v, source).reads_pointer == v.reads_pointer,
        replaced(v, source).source == source,
        replaced(v, source).pipeline is Pending,
{
}

/// A build changes only the pipeline and its fallback.
pub proof fn lemma_build_keeps_the_rest<R>(v: EffectView<R>, built: Option<R>)
    ensures
        after_build(v, built).source == v.source,
        after_build(v, built).params == v.params,
        after_build(v, built).images == v.images,
        after_build(v, built).clock == v.clock,
{
}

/// A tick measures the time since the one before: from a tick at `l`, a
/// later time `t` gives `t - l`, an earlier one 0 (the clock went back),
/// and the first tick 0; two ticks in a row measure the whole span.
pub proof fn lemma_tick_measures_elapsed(l: u128, t1: u128, t2: u128)
    ensures
        t1 >= l ==> l + tick_delta(Some(l), t1) == t1,
        t1 < l ==> tick_delta(Some(l), t1) == 0,
        tick_delta(None, t1) == 0,
        l <= t1 <= t2 ==> tick_delta(Some(l), t1) + tick_delta(Some(t1), t2) == t2 - l,
{
}

/// `s` starts with `prefix` and ends with `suffix`.
pub open spec fn framed(s: Seq<char>, prefix: Seq<char>, suffix: Seq<char>) -> bool {
    &&& prefix.len() + suffix.len() <= s.len()
    &&& s.subrange(0, prefix.len() as int) == prefix
    &&& s.subrange(s.len() - suffix.len(), s.len() as int) == suffix
}

proof fn lemma_contains_part(a: Seq<char>, b: Seq<char>, c: Seq<char>)
    ensures
        seq_contains(a + b + c, b),
{
    let t = a + b + c;
    assert(t.subrange(a.len() as int, (a.len() + b.len()) as int) =~= b);
    assert(crate::text::seq_contains_at(t, b, a.len() as int));
}

/// The fragment entry calls `effect` with `uv` and `u` and then, for each
/// wrapper type the source mentions, its argument: `, backdrop` for
/// `EffectBackdrop`, `, p` for `EffectParams`, `, images` for
/// `EffectImages`; a source that mentions none gets just `uv` and `u`.
pub proof fn lemma_effect_call_passes_what_is_read(src: Seq<char>)
    ensures
        framed(effect_call(src), "effect(in.uv, u"@, ")"@),
        seq_contains(src, "EffectBackdrop"@) ==> seq_contains(effect_call(src), ", backdrop"@),
        seq_contains(src, "EffectParams"@) ==> seq_contains(effect_call(src), ", p"@),
        seq_contains(src, "EffectImages"@) ==> seq_contains(effect_call(src), ", images"@),
        !seq_contains(src, "EffectBackdrop"@) && !seq_contains(src, "EffectParams"@) && !seq_contains(
            src,
            "EffectImages"@,
        ) ==> effect_call(src) == "effect(in.uv, u)"@,
{
    let h = "effect(in.uv, u"@;
    let b: Seq<char> = if seq_contains(src, "EffectBackdrop"@) { ", backdrop"@ } else { Seq::empty() };
    let p: Seq<char> = if seq_contains(src, "EffectParams"@) { ", p"@ } else { Seq::empty() };
    let m: Seq<char> = if seq_contains(src, "EffectImages"@) { ", images"@ } else { Seq::empty() };
    let e = ")"@;
    let c = effect_call(src);
    assert(c == h + b + p + m + e);
    assert(c.subrange(0, h.len() as int) =~= h);
    assert(c.subrange(c.len() - e.len(), c.len() as int) =~= e);
    assert(c =~= h + b + (p + m + e));
    lemma_contains_part(h, b, p + m + e);
    assert(c =~= (h + b) + p + (m + e));
    lemma_contains_part(h + b, p, m + e);
    assert(c =~= (h + b + p) + m + e);
    lemma_contains_part(h + b + p, m, e);
    if !seq_contains(src, "EffectBackdrop"@) && !seq_contains(src, "EffectParams"@) && !seq_contains(
        src,
        "EffectImages"@,
    ) {
        reveal_strlit("effect(in.uv, u");
        reveal_strlit(")");
        reveal_strlit("effect(in.uv, u)");
        assert(c =~= "effect(in.uv, u)"@);
    }
}

} // verus!
