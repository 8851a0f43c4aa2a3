//! Render configuration, the output pixel buffer, and the sequential
//! render drivers that the parallel orchestration is proved against.

use vstd::prelude::*;

use crate::color::ColorVector;
use crate::color::spec_clamp_val;
use crate::fixed::FX_ONE;

verus! {

/// Everything a render run is configured by: the frame size, the
/// recursion bound, the worker count, the partition granularity, and the
/// feature toggles.
#[derive(Debug, Clone, Copy, PartialEq, Eq, Structural)]
pub struct RenderData {
    pub width: u32,
    pub height: u32,
    pub ray_trace_depth: u32,
    pub num_threads: u32,
    pub thread_per_line: bool,
    pub render_diffuse: bool,
    pub render_reflection: bool,
    pub render_refraction: bool,
    pub render_shadow: bool,
    pub render_highlights: bool,
}

impl RenderData {
    /// A configuration with every shading term switched on.
    pub fn new(width: u32, height: u32, ray_trace_depth: u32, num_threads: u32,
        thread_per_line: bool) -> (rd: RenderData)
        ensures
            rd == (RenderData {
                width,
                height,
                ray_trace_depth,
                num_threads,
                thread_per_line,
                render_diffuse: true,
                render_reflection: true,
                render_refraction: true,
                render_shadow: true,
                render_highlights: true,
            }),
    {
        RenderData {
            width,
            height,
            ray_trace_depth,
            num_threads,
            thread_per_line,
            render_diffuse: true,
            render_reflection: true,
            render_refraction: true,
            render_shadow: true,
            render_highlights: true,
        }
    }
}

/// One output pixel channel, quantized: a clamped channel mapped onto
/// zero to 255.
pub open spec fn spec_channel_byte(v: i64) -> int {
    (spec_clamp_val(v) * 255) / (FX_ONE as int)
}

/// A color packed into one 32-bit pixel: red, green, blue from high byte
/// to low.
pub open spec fn spec_pack_pixel(c: ColorVector) -> u32 {
    (spec_channel_byte(c.r) * 65536 + spec_channel_byte(c.g) * 256 + spec_channel_byte(
        c.b,
    )) as u32
}

/// The frame buffer: one packed pixel per coordinate, row by row.
#[derive(Debug, Clone, PartialEq, Eq)]
pub struct PixelArray {
    pub width: u32,
    pub height: u32,
    pub pixels: Vec<u32>,
}

/// A buffer is well formed when it holds exactly one pixel per
/// coordinate.
pub open spec fn spec_pixels_wf(pa: PixelArray) -> bool {
    pa.pixels@.len() == pa.width as int * pa.height as int
}

/// Where a pixel stands in a row-major buffer of the given width.
pub open spec fn spec_idx(w: u32, x: u32, y: u32) -> int {
    y as int * w as int + x as int
}

/// Where the pixel at a coordinate stands in the buffer: row-major order.
pub open spec fn spec_pixel_index(pa: PixelArray, x: u32, y: u32) -> int {
    spec_idx(pa.width, x, y)
}

impl PixelArray {
    /// A black frame of the given size.
    pub fn new(width: u32, height: u32) -> (pa: PixelArray)
        requires
            width as int * height as int <= usize::MAX as int,
        ensures
            pa.width == width,
            pa.height == height,
            spec_pixels_wf(pa),
            forall|i: int| 0 <= i < pa.pixels@.len() ==> pa.pixels@[i] == 0u32,
    {
        proof {
            assert((width as int) * (height as int) >= 0) by (nonlinear_arith);
        }
        let n: usize = (width as usize) * (height as usize);
        let mut pixels: Vec<u32> = Vec::new();
        let mut i: usize = 0;
        while i < n
            invariant
                i <= n,
                pixels@.len() == i as int,
                forall|j: int| 0 <= j < i as int ==> pixels@[j] == 0u32,
            decreases n - i,
        {
            pixels.push(0);
            i = i + 1;
        }
        PixelArray { width, height, pixels }
    }

    pub fn get_width(&self) -> (w: u32)
        ensures
            w == self.width,
    {
        self.width
    }

    pub fn get_height(&self) -> (h: u32)
        ensures
            h == self.height,
    {
        self.height
    }

    /// One clamped channel quantized to a byte.
    fn fx_to_rgb(val: i64) -> (b: u8)
        requires
            0 <= val <= FX_ONE,
        ensures
            b as int == (val as int * 255) / (FX_ONE as int),
    {
        proof {
            assert((val as int) * 255 <= 65536int * 255) by (nonlinear_arith)
                requires
                    0 <= (val as int) && (val as int) <= 65536,
            ;
            assert((val as int) * 255 / 65536int <= 255) by (nonlinear_arith)
                requires
                    0 <= (val as int) * 255 && (val as int) * 255 <= 65536int * 255,
            ;
        }
        (((val as u64) * 255) / 65536) as u8
    }

    /// A color clamped and packed into one pixel word.
    fn clamp_to_pixel(&self, color: ColorVector) -> (p: u32)
        ensures
            p == spec_pack_pixel(color),
    {
        let double_clamped = color.clamp();
        let r = PixelArray::fx_to_rgb(double_clamped.r);
        let g = PixelArray::fx_to_rgb(double_clamped.g);
        let b = PixelArray::fx_to_rgb(double_clamped.b);
        (r as u32) * 65536 + (g as u32) * 256 + (b as u32)
    }

    /// Write the pixel at a coordinate; nothing else changes.
    pub fn set_pixel_color(&mut self, x: u32, y: u32, color: ColorVector)
        requires
            spec_pixels_wf(*old(self)),
            x < old(self).width,
            y < old(self).height,
        ensures
            final(self).width == old(self).width,
            final(self).height == old(self).height,
            spec_pixels_wf(*final(self)),
            final(self).pixels@ == old(self).pixels@.update(
                spec_pixel_index(*old(self), x, y),
                spec_pack_pixel(color),
            ),
    {
        let pixel = self.clamp_to_pixel(color);
        let n = self.pixels.len();
        proof {
            assert((y as int) * (self.width as int) + (x as int) < (self.width as int) * (
            self.height as int)) by (nonlinear_arith)
                requires
                    0 <= (x as int) && (x as int) < self.width as int && 0 <= (y as int) && (y as int) < self.height as int,
            ;
            assert((y as int) * (self.width as int) >= 0) by (nonlinear_arith)
                requires
                    0 <= y as int && 0 <= self.width as int,
            ;
        }
        let idx: usize = (y as usize) * (self.width as usize) + (x as usize);
        self.pixels.set(idx, pixel);
    }

    /// Read the pixel at a coordinate.
    pub fn get_pixel(&self, x: u32, y: u32) -> (p: u32)
        requires
            spec_pixels_wf(*self),
            x < self.width,
            y < self.height,
        ensures
            p == self.pixels@[spec_pixel_index(*self, x, y)],
    {
        let n = self.pixels.len();
        proof {
            assert((y as int) * (self.width as int) + (x as int) < (self.width as int) * (
            self.height as int)) by (nonlinear_arith)
                requires
                    0 <= (x as int) && (x as int) < self.width as int && 0 <= (y as int) && (y as int) < self.height as int,
            ;
            assert((y as int) * (self.width as int) >= 0) by (nonlinear_arith)
                requires
                    0 <= y as int && 0 <= self.width as int,
            ;
        }
        let idx: usize = (y as usize) * (self.width as usize) + (x as usize);
        self.pixels[idx]
    }
}

} // verus!

use crate::camera::Camera;
use crate::scene::Scene;
use crate::tracer::RayTracer;
use crate::tracer::RayTraceStatistics;
use crate::tracer::spec_get_pixel_color;
use vstd::arithmetic::div_mod::lemma_fundamental_div_mod;

verus! {

/// What one finished pixel holds: the traced color, clamped, quantized
/// and packed.
pub open spec fn spec_rendered_pixel(rt: RayTracer, x: u32, y: u32) -> u32 {
    spec_pack_pixel(spec_get_pixel_color(rt, x, y))
}

/// The tracer a render run works with: the frozen camera, configuration
/// and scene, the spatial index off, the ray counter fresh.
pub open spec fn spec_render_tracer(camera: Camera, render_data: RenderData,
    scene: Scene) -> RayTracer {
    RayTracer {
        camera,
        render_data,
        scene,
        use_kd_tree: false,
        stats: RayTraceStatistics { num_rays_traced: 0 },
    }
}

/// A buffer holds a finished frame for a tracer when it has the frame's
/// size and every pixel holds its traced color.
pub open spec fn spec_frame_rendered(rt: RayTracer, pa: PixelArray) -> bool {
    &&& pa.width == rt.render_data.width
    &&& pa.height == rt.render_data.height
    &&& spec_pixels_wf(pa)
    &&& forall|x: u32, y: u32|
        x < pa.width && y < pa.height ==> pa.pixels@[spec_pixel_index(pa, x, y)]
            == #[trigger] spec_rendered_pixel(rt, x, y)
}

/// Every pixel of a frame is written exactly once with the color of the
/// pure per-pixel function, so any two complete renders of one tracer —
/// per-pixel tasks, per-row tasks, any order — hold identical buffers.
pub proof fn lemma_partition_agreement(rt: RayTracer, a: PixelArray, b: PixelArray)
    requires
        spec_frame_rendered(rt, a),
        spec_frame_rendered(rt, b),
    ensures
        a.pixels@ =~= b.pixels@,
        a.width == b.width,
        a.height == b.height,
{
    let w = rt.render_data.width as int;
    let h = rt.render_data.height as int;
    assert(a.pixels@.len() == b.pixels@.len());
    assert forall|i: int| 0 <= i < a.pixels@.len() implies a.pixels@[i] == b.pixels@[i] by {
        assert(w > 0) by (nonlinear_arith)
            requires
                0 <= i && i < w * h && w >= 0 && h >= 0,
        ;
        lemma_fundamental_div_mod(i, w);
        let y = i / w;
        let x = i % w;
        assert(0 <= x && x < w);
        assert(0 <= y && y < h) by (nonlinear_arith)
            requires
                i == w * y + x && 0 <= i && i < w * h && 0 <= x && x < w && w > 0,
        ;
        assert(spec_rendered_pixel(rt, x as u32, y as u32) == a.pixels@[i]);
        assert(spec_rendered_pixel(rt, x as u32, y as u32) == b.pixels@[i]);
    }
}

/// The render orchestration: sequential drivers proved pixel-exact, and
/// the task bodies a worker pool executes.
pub struct Renderer {}

impl Renderer {
    /// One per-pixel task: trace the pixel and write it.
    pub fn handle_render_pixel(tracer: &RayTracer, pixels: &mut PixelArray, x: u32, y: u32)
        requires
            spec_pixels_wf(*old(pixels)),
            old(pixels).width == tracer.render_data.width,
            old(pixels).height == tracer.render_data.height,
            x < old(pixels).width,
            y < old(pixels).height,
        ensures
            final(pixels).width == old(pixels).width,
            final(pixels).height == old(pixels).height,
            spec_pixels_wf(*final(pixels)),
            final(pixels).pixels@ == old(pixels).pixels@.update(
                spec_pixel_index(*old(pixels), x, y),
                spec_rendered_pixel(*tracer, x, y),
            ),
    {
        let color = tracer.get_pixel_color(x, y);
        pixels.set_pixel_color(x, y, color);
    }

    /// The computing half of a per-row task: every color of one row, in
    /// order, without touching the shared buffer.
    pub fn compute_line(tracer: &RayTracer, y: u32) -> (colors: Vec<ColorVector>)
        requires
            tracer.render_data.width > 0,
            y < tracer.render_data.height,
        ensures
            colors@.len() == tracer.render_data.width as int,
            forall|x: u32|
                x < tracer.render_data.width ==> colors@[x as int] == #[trigger]
                    spec_get_pixel_color(*tracer, x, y),
    {
        let w = tracer.render_data.width;
        let mut line_colors: Vec<ColorVector> = Vec::new();
        let mut x: u32 = 0;
        while x < w
            invariant
                x <= w,
                w == tracer.render_data.width,
                tracer.render_data.width > 0,
                y < tracer.render_data.height,
                line_colors@.len() == x as int,
                forall|xx: u32|
                    xx < x ==> line_colors@[xx as int] == #[trigger] spec_get_pixel_color(
                        *tracer,
                        xx,
                        y,
                    ),
            decreases w - x,
        {
            let color = tracer.get_pixel_color(x, y);
            line_colors.push(color);
            x = x + 1;
        }
        line_colors
    }

    /// The writing half of a per-row task: put one row of already-traced
    /// colors into the buffer; nothing outside the row changes.
    pub fn write_line(pixels: &mut PixelArray, y: u32, colors: &Vec<ColorVector>)
        requires
            spec_pixels_wf(*old(pixels)),
            y < old(pixels).height,
            colors@.len() == old(pixels).width as int,
        ensures
            final(pixels).width == old(pixels).width,
            final(pixels).height == old(pixels).height,
            spec_pixels_wf(*final(pixels)),
            forall|x: u32|
                x < old(pixels).width ==> final(pixels).pixels@[spec_idx(
                    old(pixels).width,
                    x,
                    y,
                )] == spec_pack_pixel(#[trigger] colors@[x as int]),
            forall|xx: u32, yy: u32|
                xx < old(pixels).width && yy < old(pixels).height && yy != y ==> final(pixels).pixels@[#[trigger] spec_idx(old(pixels).width, xx, yy)] == old(pixels).pixels@[spec_idx(old(pixels).width, xx, yy)],
    {
        let w = pixels.get_width();
        let h = pixels.get_height();
        let mut x: u32 = 0;
        while x < w
            invariant
                x <= w,
                w == pixels.width,
                h == pixels.height,
                pixels.width == old(pixels).width,
                pixels.height == old(pixels).height,
                spec_pixels_wf(*pixels),
                y < pixels.height,
                colors@.len() == pixels.width as int,
                forall|xx: u32|
                    xx < x ==> pixels.pixels@[spec_idx(w, xx, y)] == spec_pack_pixel(
                        #[trigger] colors@[xx as int],
                    ),
                forall|xx: u32, yy: u32|
                    xx < w && yy < h && yy != y ==> pixels.pixels@[#[trigger] spec_idx(
                        w,
                        xx,
                        yy,
                    )] == old(pixels).pixels@[spec_idx(w, xx, yy)],
            decreases w - x,
        {
            proof {
                lemma_idx_grid(w, h);
            }
            pixels.set_pixel_color(x, y, colors[x as usize]);
            x = x + 1;
        }
    }

    /// One per-row task: trace a whole row, then write it in one pass.
    pub fn handle_render_line(tracer: &RayTracer, pixels: &mut PixelArray, y: u32)
        requires
            spec_pixels_wf(*old(pixels)),
            old(pixels).width == tracer.render_data.width,
            old(pixels).height == tracer.render_data.height,
            old(pixels).width > 0,
            y < old(pixels).height,
        ensures
            final(pixels).width == old(pixels).width,
            final(pixels).height == old(pixels).height,
            spec_pixels_wf(*final(pixels)),
            forall|x: u32|
                x < old(pixels).width ==> final(pixels).pixels@[spec_idx(
                    old(pixels).width,
                    x,
                    y,
                )] == #[trigger] spec_rendered_pixel(*tracer, x, y),
            forall|xx: u32, yy: u32|
                xx < old(pixels).width && yy < old(pixels).height && yy != y ==> final(pixels).pixels@[#[trigger] spec_idx(old(pixels).width, xx, yy)] == old(pixels).pixels@[spec_idx(old(pixels).width, xx, yy)],
    {
        let line_colors = Renderer::compute_line(tracer, y);
        Renderer::write_line(pixels, y, &line_colors);
    }

    /// Render the frame one pixel at a time, rows outward, pixels within
    /// a row left to right.
    fn render_single_threaded(camera: Camera, scene: Scene, render_data: RenderData) -> (pa:
        PixelArray)
        requires
            render_data.width as int * render_data.height as int <= usize::MAX as int,
        ensures
            spec_frame_rendered(spec_render_tracer(camera, render_data, scene), pa),
    {
        let mut pixels = PixelArray::new(render_data.width, render_data.height);
        let tracer = RayTracer::new(camera, render_data, scene);
        proof {
            assert(tracer == spec_render_tracer(camera, render_data, tracer.scene));
        }

        let h = render_data.height;
        let w = render_data.width;
        let mut y: u32 = 0;
        while y < h
            invariant
                y <= h,
                w == render_data.width,
                h == render_data.height,
                tracer == spec_render_tracer(camera, render_data, tracer.scene),
                tracer.render_data == render_data,
                pixels.width == w,
                pixels.height == h,
                spec_pixels_wf(pixels),
                forall|xx: u32, yy: u32|
                    xx < w && yy < y ==> pixels.pixels@[spec_idx(w, xx, yy)] == #[trigger]
                        spec_rendered_pixel(tracer, xx, yy),
            decreases h - y,
        {
            let mut x: u32 = 0;
            while x < w
                invariant
                    x <= w,
                    y < h,
                    w == render_data.width,
                    h == render_data.height,
                    tracer.render_data == render_data,
                    pixels.width == w,
                    pixels.height == h,
                    spec_pixels_wf(pixels),
                    forall|xx: u32, yy: u32|
                        xx < w && yy < y ==> pixels.pixels@[spec_idx(w, xx, yy)] == #[trigger]
                            spec_rendered_pixel(tracer, xx, yy),
                    forall|xx: u32|
                        xx < x ==> pixels.pixels@[spec_idx(w, xx, y)] == #[trigger]
                            spec_rendered_pixel(tracer, xx, y),
                decreases w - x,
            {
                proof {
                    lemma_idx_grid(w, h);
                }
                Renderer::handle_render_pixel(&tracer, &mut pixels, x, y);
                x = x + 1;
            }
            y = y + 1;
        }
        pixels
    }

    /// Render the frame one row at a time, top to bottom.
    fn render_per_line(camera: Camera, scene: Scene, render_data: RenderData) -> (pa: PixelArray)
        requires
            render_data.width as int * render_data.height as int <= usize::MAX as int,
        ensures
            spec_frame_rendered(spec_render_tracer(camera, render_data, scene), pa),
    {
        let mut pixels = PixelArray::new(render_data.width, render_data.height);
        let tracer = RayTracer::new(camera, render_data, scene);
        proof {
            assert(tracer == spec_render_tracer(camera, render_data, tracer.scene));
        }

        let h = render_data.height;
        let w = render_data.width;
        if w == 0 {
            return pixels;
        }
        let mut y: u32 = 0;
        while y < h
            invariant
                y <= h,
                w == render_data.width,
                h == render_data.height,
                w > 0,
                tracer == spec_render_tracer(camera, render_data, tracer.scene),
                tracer.render_data == render_data,
                pixels.width == w,
                pixels.height == h,
                spec_pixels_wf(pixels),
                forall|xx: u32, yy: u32|
                    xx < w && yy < y ==> pixels.pixels@[spec_idx(w, xx, yy)] == #[trigger]
                        spec_rendered_pixel(tracer, xx, yy),
            decreases h - y,
        {
            proof {
                lemma_idx_grid(w, h);
            }
            Renderer::handle_render_line(&tracer, &mut pixels, y);
            proof {
                lemma_idx_grid(w, h);
            }
            y = y + 1;
        }
        pixels
    }

    /// Render a frame: one worker renders pixel by pixel; a pool of
    /// workers consumes per-row or per-pixel tasks, as configured.  Every
    /// path fills the buffer with the same pure per-pixel function, so
    /// every path returns the same frame.
    pub fn render(camera: Camera, scene: Scene, render_data: RenderData) -> (pa: PixelArray)
        requires
            render_data.width as int * render_data.height as int <= usize::MAX as int,
        ensures
            spec_frame_rendered(spec_render_tracer(camera, render_data, scene), pa),
    {
        if render_data.num_threads <= 1 {
            Renderer::render_single_threaded(camera, scene, render_data)
        } else {
            if render_data.thread_per_line {
                Renderer::render_per_line(camera, scene, render_data)
            } else {
                Renderer::render_single_threaded(camera, scene, render_data)
            }
        }
    }
}

/// On a grid of the given size, every coordinate indexes inside the
/// buffer, and distinct coordinates index distinct cells.
proof fn lemma_idx_grid(w: u32, h: u32)
    ensures
        forall|x: u32, y: u32|
            x < w && y < h ==> 0 <= #[trigger] spec_idx(w, x, y) < w as int * h as int,
        forall|x1: u32, y1: u32, x2: u32, y2: u32|
            x1 < w && y1 < h && x2 < w && y2 < h && #[trigger] spec_idx(w, x1, y1)
                == #[trigger] spec_idx(w, x2, y2) ==> x1 == x2 && y1 == y2,
{
    assert forall|x: u32, y: u32| x < w && y < h implies 0 <= #[trigger] spec_idx(w, x, y)
        < w as int * h as int by {
        assert(0 <= (y as int * w as int + x as int) && (y as int * w as int + x as int) < (
        w as int * h as int)) by (nonlinear_arith)
            requires
                0 <= (x as int) && (x as int) < w as int && 0 <= (y as int) && (y as int)
                    < h as int,
        ;
    }
    assert forall|x1: u32, y1: u32, x2: u32, y2: u32|
        x1 < w && y1 < h && x2 < w && y2 < h && #[trigger] spec_idx(w, x1, y1)
            == #[trigger] spec_idx(w, x2, y2) implies x1 == x2 && y1 == y2 by {
        assert(y1 as int * w as int + x1 as int == y2 as int * w as int + x2 as int ==> (
        x1 as int == x2 as int && y1 as int == y2 as int)) by (nonlinear_arith)
            requires
                0 <= (x1 as int) && (x1 as int) < w as int && 0 <= (x2 as int) && (x2 as int)
                    < w as int && 0 <= (y1 as int) && 0 <= (y2 as int),
        ;
    }
}

} // verus!

use vstd::string::StringExecFns;

verus! {

/// The decimal digit character for a value below ten.
pub open spec fn spec_digit_char(d: int) -> char {
    if d == 0 {
        '0'
    } else if d == 1 {
        '1'
    } else if d == 2 {
        '2'
    } else if d == 3 {
        '3'
    } else if d == 4 {
        '4'
    } else if d == 5 {
        '5'
    } else if d == 6 {
        '6'
    } else if d == 7 {
        '7'
    } else if d == 8 {
        '8'
    } else {
        '9'
    }
}

/// The decimal digits of a nonnegative number, most significant first.
pub open spec fn spec_u32_digits(n: int) -> Seq<char>
    decreases n,
    when n >= 0
{
    if n < 10 {
        seq![spec_digit_char(n)]
    } else {
        spec_u32_digits(n / 10) + seq![spec_digit_char(n % 10)]
    }
}

/// One digit as text.
fn digit_str(d: u32) -> (s: &'static str)
    requires
        d < 10,
    ensures
        s@ == seq![spec_digit_char(d as int)],
{
    if d == 0 {
        proof {
            reveal_strlit("0");
            assert("0"@ =~= seq!['0']);
        }
        "0"
    } else if d == 1 {
        proof {
            reveal_strlit("1");
            assert("1"@ =~= seq!['1']);
        }
        "1"
    } else if d == 2 {
        proof {
            reveal_strlit("2");
            assert("2"@ =~= seq!['2']);
        }
        "2"
    } else if d == 3 {
        proof {
            reveal_strlit("3");
            assert("3"@ =~= seq!['3']);
        }
        "3"
    } else if d == 4 {
        proof {
            reveal_strlit("4");
            assert("4"@ =~= seq!['4']);
        }
        "4"
    } else if d == 5 {
        proof {
            reveal_strlit("5");
            assert("5"@ =~= seq!['5']);
        }
        "5"
    } else if d == 6 {
        proof {
            reveal_strlit("6");
            assert("6"@ =~= seq!['6']);
        }
        "6"
    } else if d == 7 {
        proof {
            reveal_strlit("7");
            assert("7"@ =~= seq!['7']);
        }
        "7"
    } else if d == 8 {
        proof {
            reveal_strlit("8");
            assert("8"@ =~= seq!['8']);
        }
        "8"
    } else {
        proof {
            reveal_strlit("9");
            assert("9"@ =~= seq!['9']);
        }
        "9"
    }
}

/// Append a number's decimal digits to a string.
fn push_digits(s: &mut String, n: u32)
    ensures
        final(s)@ == old(s)@ + spec_u32_digits(n as int),
    decreases n,
{
    if n < 10 {
        s.append(digit_str(n));
    } else {
        let ghost before = s@;
        push_digits(s, n / 10);
        s.append(digit_str(n % 10));
        proof {
            assert(s@ =~= before + spec_u32_digits(n as int));
        }
    }
}

/// The output file name for a frame number: the frame number between a
/// fixed prefix and the image suffix.
pub fn create_output_file_path(iter: u32) -> (r: String)
    ensures
        r@ == "render_"@ + spec_u32_digits(iter as int) + ".png"@,
{
    let mut s = String::from_str("render_");
    push_digits(&mut s, iter);
    s.append(".png");
    proof {
        assert(s@ =~= "render_"@ + spec_u32_digits(iter as int) + ".png"@);
    }
    s
}

} // verus!

use crate::tracer::lemma_pixel_color_ignores_partitioning;
use crate::tracer::spec_same_view;

verus! {

/// Rendering one scene per pixel or per row gives identical frames:
/// the two configurations may differ in worker count and partition
/// granularity, yet every pixel of both complete buffers holds the same
/// pure per-pixel color, so the buffers are equal.
pub proof fn lemma_partitioning_choice_immaterial(camera: Camera, scene: Scene,
    rd1: RenderData, rd2: RenderData, a: PixelArray, b: PixelArray)
    requires
        rd1.width == rd2.width,
        rd1.height == rd2.height,
        rd1.ray_trace_depth == rd2.ray_trace_depth,
        rd1.render_diffuse == rd2.render_diffuse,
        rd1.render_reflection == rd2.render_reflection,
        rd1.render_refraction == rd2.render_refraction,
        rd1.render_shadow == rd2.render_shadow,
        rd1.render_highlights == rd2.render_highlights,
        spec_frame_rendered(spec_render_tracer(camera, rd1, scene), a),
        spec_frame_rendered(spec_render_tracer(camera, rd2, scene), b),
    ensures
        a.pixels@ =~= b.pixels@,
        a.width == b.width,
        a.height == b.height,
{
    let rt1 = spec_render_tracer(camera, rd1, scene);
    let rt2 = spec_render_tracer(camera, rd2, scene);
    assert(spec_same_view(rt1, rt2));
    let w = rd1.width as int;
    let h = rd1.height as int;
    assert(a.pixels@.len() == b.pixels@.len());
    assert forall|i: int| 0 <= i < a.pixels@.len() implies a.pixels@[i] == b.pixels@[i] by {
        assert(w > 0) by (nonlinear_arith)
            requires
                0 <= i && i < w * h && w >= 0 && h >= 0,
        ;
        lemma_fundamental_div_mod(i, w);
        let y = i / w;
        let x = i % w;
        assert(0 <= x && x < w);
        assert(0 <= y && y < h) by (nonlinear_arith)
            requires
                i == w * y + x && 0 <= i && i < w * h && 0 <= x && x < w && w > 0,
        ;
        lemma_pixel_color_ignores_partitioning(rt1, rt2, x as u32, y as u32);
        assert(spec_rendered_pixel(rt1, x as u32, y as u32) == a.pixels@[i]);
        assert(spec_rendered_pixel(rt2, x as u32, y as u32) == b.pixels@[i]);
    }
}

} // verus!
