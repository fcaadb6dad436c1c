//! Conversion of full-resolution bitmaps into palette-constrained pixel-art
//! sprites: resampling to a small target grid, color-space distances,
//! palette-seeded clustering, ordered dithering, and a memoizing pipeline.
//!
//! All arithmetic is exact: coordinates and channel blends are rational
//! numbers handled as integer numerator/denominator pairs, and the clustering
//! metric is a uniformly scaled integer, so every stage is a pure function of
//! its inputs with a proved contract.
use vstd::prelude::*;

use crate::dither::{core_distance_mode, dither_image, dither_image_spec};
use crate::kmeans::{divisor_of, PIXEL_CAP};
use crate::sampling::{sample_dims_ok, sample_image, sample_image_spec};
use crate::sprite::{pixel_at, pixel_or_default};

pub mod dither;
pub mod hexcolor;
pub mod kmeans;
pub mod sampling;
pub mod sprite;

pub use dither::{DistanceMode, DitherMode};
pub use hexcolor::HexColorError;
pub use sampling::SampleMode;
pub use sprite::Sprite;

verus! {

/// One RGBA sample, 8 bits per channel.
#[derive(Clone, Copy, PartialEq, Eq, Structural, Debug)]
pub struct Color {
    pub red: u8,
    pub green: u8,
    pub blue: u8,
    pub alpha: u8,
}

/// The fully transparent sentinel returned for reads outside a raster.
pub open spec fn transparent() -> Color {
    Color { red: 0, green: 0, blue: 0, alpha: 0 }
}

/// True when two samples agree on the three color channels, alpha aside.
pub open spec fn same_rgb(a: Color, b: Color) -> bool {
    a.red == b.red && a.green == b.green && a.blue == b.blue
}

/// A palette entry painted into the output: its color channels with alpha
/// forced fully opaque.
pub open spec fn paint_opaque(p: Color) -> Color {
    Color { red: p.red, green: p.green, blue: p.blue, alpha: 255 }
}

impl Color {
    pub fn new(red: u8, green: u8, blue: u8, alpha: u8) -> (c: Color)
        ensures
            c == (Color { red, green, blue, alpha }),
    {
        Color { red, green, blue, alpha }
    }
}

impl Default for Color {
    fn default() -> (c: Color)
        ensures
            c == transparent(),
    {
        Color { red: 0, green: 0, blue: 0, alpha: 0 }
    }
}

/// A memoized stage result: `Dirty` after any upstream or own
/// configuration change, `Clean` while the stored result is current.
#[derive(Clone)]
pub enum StageCache<T> {
    Dirty,
    Clean(T),
}

/// Resampler configuration: kernel and fractional offsets in hundredths
/// of a source pixel.
#[derive(Clone, Copy, PartialEq, Eq, Structural, Debug)]
pub struct SampleOptions {
    pub sample_mode: SampleMode,
    pub offset_x: i32,
    pub offset_y: i32,
}

/// Ditherer and quantizer configuration.  `dither_amount` is an integer
/// in `0 ..= 1000`, read as thousandths of full strength.
#[derive(Clone, Copy, PartialEq, Eq, Structural, Debug)]
pub struct DitherOptions {
    pub dither_amount: u16,
    pub alpha_threshold: u8,
    pub pixel_dither_mode: DitherMode,
    pub pixel_distance_mode: DistanceMode,
}

impl Default for DitherOptions {
    fn default() -> (o: DitherOptions)
        ensures
            o == (DitherOptions {
                dither_amount: 64u16,
                alpha_threshold: 128u8,
                pixel_dither_mode: DitherMode::NoDither,
                pixel_distance_mode: DistanceMode::KMeans,
            }),
    {
        DitherOptions {
            dither_amount: 64,
            alpha_threshold: 128,
            pixel_dither_mode: DitherMode::NoDither,
            pixel_distance_mode: DistanceMode::KMeans,
        }
    }
}

/// Tone-adjustment parameters, in integer percent.  Their application is
/// outside this library's scope: the dither stage consumes an
/// already-adjusted buffer.  They are stored so that changing them
/// invalidates the right caches.
#[derive(Clone, Copy, PartialEq, Eq, Structural, Debug)]
pub struct PreProcessOptions {
    pub brightness: i64,
    pub contrast: i64,
    pub gamma: i64,
    pub saturation: i64,
    pub hue: i64,
}

impl Default for PreProcessOptions {
    fn default() -> (o: PreProcessOptions)
        ensures
            o == (PreProcessOptions {
                brightness: 0i64,
                contrast: 0i64,
                gamma: 100i64,
                saturation: 100i64,
                hue: 0i64,
            }),
    {
        PreProcessOptions { brightness: 0, contrast: 0, gamma: 100, saturation: 100, hue: 0 }
    }
}

/// The pipeline state: stage configuration, per-stage memoized results,
/// the palette, and the source raster.
#[derive(Clone)]
pub struct I2PState {
    pub sample_options: SampleOptions,
    pub sample_step: StageCache<Vec<Color>>,
    pub pre_process_options: PreProcessOptions,
    pub pre_process_step: StageCache<Vec<Color>>,
    pub dither_options: DitherOptions,
    pub dither_step: StageCache<Sprite>,
    pub image_outline: Option<usize>,
    pub image_inline: Option<usize>,
    pub palette_weight: i32,
    pub palette: Vec<Color>,
    pub input: Sprite,
}

impl I2PState {
    /// Replaces the dither configuration and invalidates the dither cache;
    /// upstream caches stay valid.
    pub fn dither_options(&mut self, options: DitherOptions)
        ensures
            *final(self) == (I2PState {
                dither_options: options,
                dither_step: StageCache::Dirty,
                ..*old(self)
            }),
    {
        self.dither_options = options;
        self.dither_step = StageCache::Dirty;
    }

    /// Replaces the resampler configuration and invalidates every stage
    /// cache from the resampler on.
    pub fn sample_options(&mut self, options: SampleOptions)
        ensures
            *final(self) == (I2PState {
                sample_options: options,
                sample_step: StageCache::Dirty,
                pre_process_step: StageCache::Dirty,
                dither_step: StageCache::Dirty,
                ..*old(self)
            }),
    {
        self.sample_options = options;
        self.sample_step = StageCache::Dirty;
        self.pre_process_step = StageCache::Dirty;
        self.dither_step = StageCache::Dirty;
    }

    /// Replaces the tone-adjustment configuration and invalidates that
    /// stage's cache and the dither cache; the resampler cache stays
    /// valid.
    pub fn pre_process_options(&mut self, options: PreProcessOptions)
        ensures
            *final(self) == (I2PState {
                pre_process_options: options,
                pre_process_step: StageCache::Dirty,
                dither_step: StageCache::Dirty,
                ..*old(self)
            }),
    {
        self.pre_process_options = options;
        self.pre_process_step = StageCache::Dirty;
        self.dither_step = StageCache::Dirty;
    }

    /// Parses hex codes into the palette and invalidates the dither cache.
    /// On the first unparsable entry the whole state is left unchanged and
    /// that entry's fault is returned.
    pub fn palette(&mut self, palette: Vec<String>) -> (r: Result<(), HexColorError>)
        ensures
            r is Ok <==> forall|i: int| 0 <= i < palette@.len() ==> hexcolor::hex_grammar_ok(
                vstd::utf8::encode_utf8(#[trigger] palette@[i]@),
            ),
            r is Ok ==> *final(self) == (I2PState {
                palette: final(self).palette,
                dither_step: StageCache::Dirty,
                ..*old(self)
            }) && final(self).palette@.len() == palette@.len() && forall|i: int|
                0 <= i < palette@.len() ==> final(self).palette@[i] == hexcolor::parsed_color(
                    vstd::utf8::encode_utf8(#[trigger] palette@[i]@),
                ),
            r is Err ==> *final(self) == *old(self),
    {
        let mut parsed: Vec<Color> = Vec::new();
        let mut i: usize = 0;
        while i < palette.len()
            invariant
                i <= palette@.len(),
                parsed@.len() == i,
                forall|x: int| 0 <= x < i ==> hexcolor::hex_grammar_ok(
                    vstd::utf8::encode_utf8(#[trigger] palette@[x]@),
                ) && parsed@[x] == hexcolor::parsed_color(
                    vstd::utf8::encode_utf8(palette@[x]@),
                ),
            decreases palette@.len() - i,
        {
            let entry: &str = palette[i].as_str();
            match hexcolor::parse_hex_color(entry) {
                Ok(c) => {
                    parsed.push(c);
                },
                Err(e) => {
                    return Err(e);
                },
            }
            i = i + 1;
        }
        self.palette = parsed;
        self.dither_step = StageCache::Dirty;
        Ok(())
    }
}

impl Default for I2PState {
    /// The default pipeline: round resampling with no offset, no dither,
    /// clustering quantization, a seed weight of two, no overlays, an
    /// empty palette, and an empty source.
    fn default() -> (s: I2PState)
        ensures
            s.sample_options == (SampleOptions {
                sample_mode: SampleMode::Round,
                offset_x: 0i32,
                offset_y: 0i32,
            }),
            s.sample_step is Dirty,
            s.pre_process_options == (PreProcessOptions {
                brightness: 0i64,
                contrast: 0i64,
                gamma: 100i64,
                saturation: 100i64,
                hue: 0i64,
            }),
            s.pre_process_step is Dirty,
            s.dither_options == (DitherOptions {
                dither_amount: 64u16,
                alpha_threshold: 128u8,
                pixel_dither_mode: DitherMode::NoDither,
                pixel_distance_mode: DistanceMode::KMeans,
            }),
            s.dither_step is Dirty,
            s.image_outline is None,
            s.image_inline is None,
            s.palette_weight == 2,
            s.palette@ == Seq::<Color>::empty(),
            s.input.width == 0 && s.input.height == 0 && s.input.data@ == Seq::<Color>::empty(),
    {
        I2PState {
            sample_options: SampleOptions {
                sample_mode: SampleMode::Round,
                offset_x: 0,
                offset_y: 0,
            },
            sample_step: StageCache::Dirty,
            pre_process_options: Default::default(),
            pre_process_step: StageCache::Dirty,
            dither_options: Default::default(),
            dither_step: StageCache::Dirty,
            image_outline: None,
            image_inline: None,
            palette_weight: 2,
            palette: Vec::new(),
            input: Default::default(),
        }
    }
}

/// Whether the pixel at `(x, y)` sits on the sprite's edge: it is not
/// transparent and at least one 4-neighbor is (reads outside the raster
/// count as transparent).
pub open spec fn edge_pixel(data: Seq<Color>, w: int, h: int, x: int, y: int) -> bool {
    pixel_at(data, w, h, x, y).alpha != 0 && (pixel_at(data, w, h, x, y - 1).alpha == 0 || pixel_at(
        data,
        w,
        h,
        x - 1,
        y,
    ).alpha == 0 || pixel_at(data, w, h, x + 1, y).alpha == 0 || pixel_at(
        data,
        w,
        h,
        x,
        y + 1,
    ).alpha == 0)
}

/// The buffer after the outline/inline overlay: every edge pixel is
/// repainted with the outline palette entry when one is set, else with the
/// inline entry when one is set; edges are judged against the snapshot
/// before any repainting.
pub open spec fn post_process_spec(
    data: Seq<Color>,
    w: int,
    h: int,
    palette: Seq<Color>,
    outline: Option<usize>,
    inline_idx: Option<usize>,
) -> Seq<Color> {
    Seq::new(
        data.len(),
        |i: int|
            {
                let x = i % w;
                let y = i / w;
                if edge_pixel(data, w, h, x, y) {
                    if outline is Some {
                        palette[outline->0 as int]
                    } else if inline_idx is Some {
                        palette[inline_idx->0 as int]
                    } else {
                        data[i]
                    }
                } else {
                    data[i]
                }
            },
    )
}

/// Repaints edge pixels with the configured outline or inline palette
/// entry, judging edges against the sprite as it stood on entry.
pub fn post_process_image(
    image_outline: Option<usize>,
    image_inline: Option<usize>,
    palette: &Vec<Color>,
    output: &mut Sprite,
)
    requires
        old(output).wf(),
        old(output).width >= 1,
        old(output).width <= 0xffff,
        old(output).height <= 0xffff,
        image_outline is Some ==> image_outline->0 < palette@.len(),
        image_inline is Some ==> image_inline->0 < palette@.len(),
    ensures
        final(output).width == old(output).width,
        final(output).height == old(output).height,
        final(output).wf(),
        final(output).data@ == post_process_spec(
            old(output).data@,
            old(output).width as int,
            old(output).height as int,
            palette@,
            image_outline,
            image_inline,
        ),
{
    let ghost gspec = post_process_spec(
        output.data@,
        output.width as int,
        output.height as int,
        palette@,
        image_outline,
        image_inline,
    );
    let width: usize = output.width;
    let height: usize = output.height;
    let n: usize = output.data.len();
    let mut snapshot: Vec<Color> = Vec::new();
    let mut i: usize = 0;
    while i < n
        invariant
            n == output.data@.len(),
            i <= n,
            snapshot@.len() == i,
            forall|x: int| 0 <= x < i ==> snapshot@[x] == output.data@[x],
        decreases n - i,
    {
        snapshot.push(output.data[i]);
        i = i + 1;
    }
    let temp = Sprite { width, height, data: snapshot };
    assert(temp.data@ =~= output.data@);
    let mut out: Vec<Color> = Vec::new();
    let mut i: usize = 0;
    while i < n
        invariant
            temp.wf(),
            temp.width == width,
            temp.height == height,
            width >= 1,
            width <= 0xffff,
            height <= 0xffff,
            n == temp.data@.len(),
            image_outline is Some ==> image_outline->0 < palette@.len(),
            image_inline is Some ==> image_inline->0 < palette@.len(),
            gspec == post_process_spec(
                temp.data@,
                width as int,
                height as int,
                palette@,
                image_outline,
                image_inline,
            ),
            i <= n,
            out@.len() == i,
            forall|x: int| 0 <= x < i ==> out@[x] == gspec[x],
        decreases n - i,
    {
        let x: usize = i % width;
        let y: usize = i / width;
        proof {
            assert(y < height && y * width + x == i) by (nonlinear_arith)
                requires
                    0 <= i < n,
                    n == width * height,
                    width >= 1,
                    x == i as int % width as int,
                    y == i as int / width as int,
            ;
        }
        let here = temp.data[i];
        let up = pixel_or_default(&temp, x as i64, y as i64 - 1);
        let left = pixel_or_default(&temp, x as i64 - 1, y as i64);
        let right = pixel_or_default(&temp, x as i64 + 1, y as i64);
        let down = pixel_or_default(&temp, x as i64, y as i64 + 1);
        proof {
            assert(pixel_at(temp.data@, width as int, height as int, x as int, y as int)
                == temp.data@[i as int]);
        }
        let is_edge: bool = here.alpha != 0 && (up.alpha == 0 || left.alpha == 0 || right.alpha
            == 0 || down.alpha == 0);
        if is_edge {
            match image_outline {
                Some(ol) => {
                    out.push(palette[ol]);
                },
                None => {
                    match image_inline {
                        Some(il) => {
                            out.push(palette[il]);
                        },
                        None => {
                            out.push(here);
                        },
                    }
                },
            }
        } else {
            out.push(here);
        }
        i = i + 1;
    }
    output.data = out;
    assert(output.data@ =~= gspec);
}

fn copy_pixels(v: &Vec<Color>) -> (r: Vec<Color>)
    ensures
        r@ == v@,
{
    let mut r: Vec<Color> = Vec::new();
    let mut i: usize = 0;
    while i < v.len()
        invariant
            i <= v@.len(),
            r@.len() == i,
            forall|x: int| 0 <= x < i ==> r@[x] == v@[x],
        decreases v@.len() - i,
    {
        r.push(v[i]);
        i = i + 1;
    }
    assert(r@ =~= v@);
    r
}

/// Whether a buffer cache is clean and holds `n` samples.
pub open spec fn cache_fit(c: StageCache<Vec<Color>>, n: int) -> bool {
    c is Clean && c->Clean_0@.len() == n
}

/// Whether a sprite cache is clean and holds a well-formed `w` by `h`
/// raster.
pub open spec fn sprite_fit(c: StageCache<Sprite>, w: int, h: int) -> bool {
    c is Clean && c->Clean_0.width == w && c->Clean_0.height == h && c->Clean_0.data@.len() == w
        * h
}

/// The resampler stage's result: the clean cache when it fits the target
/// size, else a fresh resampling of `input`.
pub open spec fn stage_sampled(s: I2PState, input: Sprite, w: int, h: int) -> Seq<Color> {
    if cache_fit(s.sample_step, w * h) {
        s.sample_step->Clean_0@
    } else {
        sample_image_spec(
            s.sample_options.sample_mode,
            input.data@,
            input.width as int,
            input.height as int,
            w,
            h,
            s.sample_options.offset_x as int,
            s.sample_options.offset_y as int,
        )
    }
}

/// The tone-adjustment stage's result: the clean cache when it fits, else
/// the resampled buffer itself (the adjustment is applied outside this
/// library; here its parameters are at their identity).
pub open spec fn stage_adjusted(s: I2PState, input: Sprite, w: int, h: int) -> Seq<Color> {
    if cache_fit(s.pre_process_step, w * h) {
        s.pre_process_step->Clean_0@
    } else {
        stage_sampled(s, input, w, h)
    }
}

/// The dither stage's result: the clean cache when it fits, else the
/// quantizer run over the adjusted buffer.
pub open spec fn stage_dithered(s: I2PState, input: Sprite, w: int, h: int) -> Seq<Color> {
    if sprite_fit(s.dither_step, w, h) {
        s.dither_step->Clean_0.data@
    } else {
        dither_image_spec(
            s.dither_options.pixel_dither_mode,
            s.dither_options.pixel_distance_mode,
            stage_adjusted(s, input, w, h),
            w,
            s.dither_options.dither_amount as int,
            s.dither_options.alpha_threshold as int,
            s.palette@,
            divisor_of(s.palette_weight as int),
        )
    }
}

/// The pipeline's final buffer: the dither stage's result with the
/// outline/inline overlay applied.
pub open spec fn process_sprite_spec(s: I2PState, input: Sprite, w: int, h: int) -> Seq<Color> {
    post_process_spec(
        stage_dithered(s, input, w, h),
        w,
        h,
        s.palette@,
        s.image_outline,
        s.image_inline,
    )
}

/// The configuration under which the pipeline is defined.
pub open spec fn pipeline_config_ok(s: I2PState, input: Sprite, w: int, h: int) -> bool {
    input.wf() && s.palette@.len() >= 1 && sample_dims_ok(
        s.sample_options.sample_mode,
        input.width as int,
        input.height as int,
        w,
        h,
        s.sample_options.offset_x as int,
        s.sample_options.offset_y as int,
    ) && w * h <= PIXEL_CAP as int && s.sample_options.sample_mode != SampleMode::Lanczos
        && core_distance_mode(s.dither_options.pixel_distance_mode)
        && s.dither_options.dither_amount <= 1000 && 0 <= s.palette_weight <= 31 && (
    s.image_outline is Some ==> s.image_outline->0 < s.palette@.len()) && (s.image_inline is Some
        ==> s.image_inline->0 < s.palette@.len())
}

/// Runs the pipeline into `output`, which supplies the target dimensions:
/// resample (memoized), take the tone-adjusted buffer (memoized; the
/// parameters' identity application here), dither and quantize (memoized),
/// then overlay edges.  Every stage cache is clean afterwards.
#[verifier::rlimit(60)]
pub fn process_sprite(s: &mut I2PState, input: &Sprite, output: &mut Sprite)
    requires
        pipeline_config_ok(
            *old(s),
            *input,
            old(output).width as int,
            old(output).height as int,
        ),
    ensures
        final(output).width == old(output).width,
        final(output).height == old(output).height,
        final(output).wf(),
        final(output).data@ == process_sprite_spec(
            *old(s),
            *input,
            old(output).width as int,
            old(output).height as int,
        ),
        final(s).sample_options == old(s).sample_options,
        final(s).pre_process_options == old(s).pre_process_options,
        final(s).dither_options == old(s).dither_options,
        final(s).image_outline == old(s).image_outline,
        final(s).image_inline == old(s).image_inline,
        final(s).palette_weight == old(s).palette_weight,
        final(s).palette@ == old(s).palette@,
        final(s).input == old(s).input,
        cache_fit(final(s).sample_step, old(output).width * old(output).height as int),
        final(s).sample_step->Clean_0@ == stage_sampled(
            *old(s),
            *input,
            old(output).width as int,
            old(output).height as int,
        ),
        cache_fit(final(s).pre_process_step, old(output).width * old(output).height as int),
        final(s).pre_process_step->Clean_0@ == stage_adjusted(
            *old(s),
            *input,
            old(output).width as int,
            old(output).height as int,
        ),
        sprite_fit(final(s).dither_step, old(output).width as int, old(output).height as int),
        final(s).dither_step->Clean_0.data@ == stage_dithered(
            *old(s),
            *input,
            old(output).width as int,
            old(output).height as int,
        ),
{
    let w: usize = output.width;
    let h: usize = output.height;
    let n: usize = w * h;
    let ghost s0 = *s;
    let sampled: Vec<Color> = {
        let mut hit: bool = false;
        match &s.sample_step {
            StageCache::Clean(b) => {
                if b.len() == n {
                    hit = true;
                }
            },
            StageCache::Dirty => {
            },
        }
        if hit {
            match &s.sample_step {
                StageCache::Clean(b) => copy_pixels(b),
                StageCache::Dirty => Vec::new(),
            }
        } else {
            sample_image(
                input,
                s.sample_options.sample_mode,
                w,
                h,
                s.sample_options.offset_x,
                s.sample_options.offset_y,
            )
        }
    };
    assert(sampled@ == stage_sampled(s0, *input, w as int, h as int));
    s.sample_step = StageCache::Clean(copy_pixels(&sampled));
    let adjusted: Vec<Color> = {
        let mut hit: bool = false;
        match &s.pre_process_step {
            StageCache::Clean(b) => {
                if b.len() == n {
                    hit = true;
                }
            },
            StageCache::Dirty => {
            },
        }
        if hit {
            match &s.pre_process_step {
                StageCache::Clean(b) => copy_pixels(b),
                StageCache::Dirty => Vec::new(),
            }
        } else {
            copy_pixels(&sampled)
        }
    };
    assert(adjusted@ == stage_adjusted(s0, *input, w as int, h as int));
    s.pre_process_step = StageCache::Clean(copy_pixels(&adjusted));
    let mut dither_hit: bool = false;
    match &s.dither_step {
        StageCache::Clean(sp) => {
            if sp.width == w && sp.height == h && sp.data.len() == n {
                dither_hit = true;
            }
        },
        StageCache::Dirty => {
        },
    }
    if dither_hit {
        match &s.dither_step {
            StageCache::Clean(sp) => {
                output.data = copy_pixels(&sp.data);
            },
            StageCache::Dirty => {
            },
        }
    } else {
        dither_image(
            s.dither_options.pixel_dither_mode,
            s.dither_options.pixel_distance_mode,
            s.dither_options.dither_amount,
            s.dither_options.alpha_threshold,
            &s.palette,
            s.palette_weight,
            &adjusted,
            output,
            w,
            h,
        );
    }
    assert(output.data@ == stage_dithered(s0, *input, w as int, h as int));
    s.dither_step = StageCache::Clean(
        Sprite { width: w, height: h, data: copy_pixels(&output.data) },
    );
    post_process_image(s.image_outline, s.image_inline, &s.palette, output);
}

/// A configuration fault found before the pipeline runs.
#[derive(Clone, Copy, PartialEq, Eq, Structural, Debug)]
pub enum ConfigError {
    /// The palette holds no entry.
    EmptyPalette,
    /// The rasters' dimensions or the offsets are out of the supported
    /// range, or the source buffer does not match its dimensions.
    BadDimensions,
    /// The windowed-sinc kernel is not provided by this library.
    UnsupportedSampleMode,
    /// The selected color space goes through irrational curves and is not
    /// provided by this library.
    UnsupportedDistanceMode,
    /// The dither amount exceeds 1000.
    BadDitherAmount,
    /// The palette weight is outside `0 ..= 31`.
    BadPaletteWeight,
    /// An outline or inline overlay index points past the palette.
    BadPaletteIndex,
}

/// The validation verdict for a pipeline configuration, faults reported
/// in a fixed order.
pub open spec fn validate_config_spec(s: I2PState, input: Sprite, w: int, h: int) -> Result<
    (),
    ConfigError,
> {
    if s.palette@.len() == 0 {
        Err(ConfigError::EmptyPalette)
    } else if !(input.wf() && sample_dims_ok(
        s.sample_options.sample_mode,
        input.width as int,
        input.height as int,
        w,
        h,
        s.sample_options.offset_x as int,
        s.sample_options.offset_y as int,
    ) && w * h <= PIXEL_CAP as int) {
        Err(ConfigError::BadDimensions)
    } else if s.sample_options.sample_mode == SampleMode::Lanczos {
        Err(ConfigError::UnsupportedSampleMode)
    } else if !core_distance_mode(s.dither_options.pixel_distance_mode) {
        Err(ConfigError::UnsupportedDistanceMode)
    } else if s.dither_options.dither_amount > 1000 {
        Err(ConfigError::BadDitherAmount)
    } else if !(0 <= s.palette_weight <= 31) {
        Err(ConfigError::BadPaletteWeight)
    } else if (s.image_outline is Some && s.image_outline->0 >= s.palette@.len()) || (
    s.image_inline is Some && s.image_inline->0 >= s.palette@.len()) {
        Err(ConfigError::BadPaletteIndex)
    } else {
        Ok(())
    }
}

fn check_sample_dims(mode: SampleMode, iw: usize, ih: usize, w: usize, h: usize, ox: i32, oy: i32)
    -> (r: bool)
    ensures
        r == sample_dims_ok(mode, iw as int, ih as int, w as int, h as int, ox as int, oy as int),
{
    let base: bool = 1 <= iw && iw <= 0xffff && 1 <= ih && ih <= 0xffff && 1 <= w && w <= 0xffff
        && 1 <= h && h <= 0xffff && -100000 <= ox && ox <= 100000 && -100000 <= oy && oy
        <= 100000;
    if matches!(mode, SampleMode::Bicubic) {
        base && iw <= 2048 && ih <= 2048 && w <= 2048 && h <= 2048 && -100 <= ox && ox <= 100
            && -100 <= oy && oy <= 100
    } else {
        base
    }
}

/// Validates the whole configuration and runs the pipeline only when it
/// is sound; a rejected configuration leaves state and output untouched.
pub fn process_sprite_checked(s: &mut I2PState, input: &Sprite, output: &mut Sprite) -> (r:
    Result<(), ConfigError>)
    ensures
        r == validate_config_spec(
            *old(s),
            *input,
            old(output).width as int,
            old(output).height as int,
        ),
        r is Err ==> *final(s) == *old(s) && *final(output) == *old(output),
        r is Ok ==> final(output).width == old(output).width && final(output).height == old(
            output,
        ).height && final(output).wf() && final(output).data@ == process_sprite_spec(
            *old(s),
            *input,
            old(output).width as int,
            old(output).height as int,
        ),
{
    let w: usize = output.width;
    let h: usize = output.height;
    if s.palette.len() == 0 {
        return Err(ConfigError::EmptyPalette);
    }
    let dims_ok: bool = check_sample_dims(
        s.sample_options.sample_mode,
        input.width,
        input.height,
        w,
        h,
        s.sample_options.offset_x,
        s.sample_options.offset_y,
    );
    let wf_ok: bool = if input.width <= 0xffff && input.height <= 0xffff {
        proof {
            assert(input.width * input.height <= 0xffff * 0xffff) by (nonlinear_arith)
                requires
                    input.width <= 0xffff,
                    input.height <= 0xffff,
            ;
        }
        input.data.len() == input.width * input.height
    } else {
        false
    };
    let cap_ok: bool = if w <= 0xffff && h <= 0xffff {
        proof {
            assert(w * h <= 0xffff * 0xffff) by (nonlinear_arith)
                requires
                    w <= 0xffff,
                    h <= 0xffff,
            ;
        }
        w * h <= 16777216
    } else {
        false
    };
    if !(wf_ok && dims_ok && cap_ok) {
        return Err(ConfigError::BadDimensions);
    }
    if matches!(s.sample_options.sample_mode, SampleMode::Lanczos) {
        return Err(ConfigError::UnsupportedSampleMode);
    }
    let dm = s.dither_options.pixel_distance_mode;
    if !(matches!(dm, DistanceMode::KMeans) || matches!(dm, DistanceMode::RGB) || matches!(
        dm,
        DistanceMode::YCC,
    ) || matches!(dm, DistanceMode::YIQ) || matches!(dm, DistanceMode::YUV)) {
        return Err(ConfigError::UnsupportedDistanceMode);
    }
    if s.dither_options.dither_amount > 1000 {
        return Err(ConfigError::BadDitherAmount);
    }
    if s.palette_weight < 0 || s.palette_weight > 31 {
        return Err(ConfigError::BadPaletteWeight);
    }
    let outline_bad: bool = match s.image_outline {
        Some(ol) => ol >= s.palette.len(),
        None => false,
    };
    let inline_bad: bool = match s.image_inline {
        Some(il) => il >= s.palette.len(),
        None => false,
    };
    if outline_bad || inline_bad {
        return Err(ConfigError::BadPaletteIndex);
    }
    process_sprite(s, input, output);
    Ok(())
}

/// Transparency and palette membership at the pipeline's boundary, for a
/// fresh run (all caches dirty): a resampled pixel under the alpha
/// threshold leaves the whole pipeline as the transparent sentinel, and
/// every pixel that leaves non-transparent carries the channels of some
/// palette entry.
pub proof fn lemma_pipeline_output_quantized(s: I2PState, input: Sprite, w: int, h: int)
    requires
        pipeline_config_ok(s, input, w, h),
        s.sample_step is Dirty,
        s.pre_process_step is Dirty,
        s.dither_step is Dirty,
    ensures
        process_sprite_spec(s, input, w, h).len() == w * h,
        forall|i: int|
            0 <= i < w * h && sample_image_spec(
                s.sample_options.sample_mode,
                input.data@,
                input.width as int,
                input.height as int,
                w,
                h,
                s.sample_options.offset_x as int,
                s.sample_options.offset_y as int,
            )[i].alpha < s.dither_options.alpha_threshold ==> #[trigger] process_sprite_spec(
                s,
                input,
                w,
                h,
            )[i] == transparent(),
        forall|i: int|
            0 <= i < w * h && (#[trigger] process_sprite_spec(s, input, w, h)[i]).alpha != 0
                ==> exists|j: int|
                0 <= j < s.palette@.len() && same_rgb(
                    process_sprite_spec(s, input, w, h)[i],
                    #[trigger] s.palette@[j],
                ),
{
    let sampled = stage_sampled(s, input, w, h);
    let adjusted = stage_adjusted(s, input, w, h);
    let amount = s.dither_options.dither_amount as int;
    let thresh = s.dither_options.alpha_threshold as int;
    let divisor = divisor_of(s.palette_weight as int);
    let dmode = s.dither_options.pixel_dither_mode;
    let dist_mode = s.dither_options.pixel_distance_mode;
    let dithered = stage_dithered(s, input, w, h);
    let out = process_sprite_spec(s, input, w, h);
    assert(adjusted == sampled);
    assert(dithered == dither_image_spec(
        dmode,
        dist_mode,
        sampled,
        w,
        amount,
        thresh,
        s.palette@,
        divisor,
    ));
    dither::lemma_dither_image_props(
        dmode,
        dist_mode,
        sampled,
        w,
        amount,
        thresh,
        s.palette@,
        divisor,
    );
    assert(sampled.len() == w * h);
    assert forall|i: int| 0 <= i < w * h && sampled[i].alpha < thresh implies #[trigger] out[i]
        == transparent() by {
        let x = i % w;
        let y = i / w;
        assert(0 <= x < w && 0 <= y < h && y * w + x == i) by (nonlinear_arith)
            requires
                0 <= i < w * h,
                1 <= w,
                x == i % w,
                y == i / w,
        ;
        assert(dithered[i] == transparent());
        assert(pixel_at(dithered, w, h, x, y) == dithered[i]);
        assert(!edge_pixel(dithered, w, h, x, y));
    }
    assert forall|i: int| 0 <= i < w * h && (#[trigger] out[i]).alpha != 0 implies exists|j: int|
        0 <= j < s.palette@.len() && same_rgb(out[i], #[trigger] s.palette@[j]) by {
        let x = i % w;
        let y = i / w;
        assert(0 <= x < w && 0 <= y < h && y * w + x == i) by (nonlinear_arith)
            requires
                0 <= i < w * h,
                1 <= w,
                x == i % w,
                y == i / w,
        ;
        if edge_pixel(dithered, w, h, x, y) && (s.image_outline is Some
            || s.image_inline is Some) {
            if s.image_outline is Some {
                assert(out[i] == s.palette@[s.image_outline->0 as int]);
                assert(same_rgb(out[i], s.palette@[s.image_outline->0 as int]));
            } else {
                assert(out[i] == s.palette@[s.image_inline->0 as int]);
                assert(same_rgb(out[i], s.palette@[s.image_inline->0 as int]));
            }
        } else {
            assert(out[i] == dithered[i]);
        }
    }
}

} // verus!
