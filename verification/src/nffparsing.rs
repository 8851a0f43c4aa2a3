//! Reading the line-oriented scene-description format into a scene, a
//! camera and a render configuration.
//!
//! The caller hands over the file's lines; reading the file itself is
//! not this library's business.  A directive whose numeric fields are
//! malformed or missing is skipped and parsing continues: the format's
//! recoverable-error policy.

use vstd::prelude::*;
use vstd::string::StringSliceAdditionalSpecFns;

use crate::camera::Camera;
use crate::color::ColorVector;
use crate::fixed::FX_ONE;
use crate::light::PointLight;
use crate::material::BaseMaterial;
use crate::material::ChessboardMaterial;
use crate::material::SceneMaterial;
use crate::material::SolidMaterial;
use crate::posvector::PosVector;
use crate::renderer::RenderData;
use crate::scene::Background;
use crate::scene::Scene;
use crate::scene::spec_scene_wf;
use crate::shapes::PlaneShape;
use crate::shapes::ShapeKind;
use crate::shapes::SphereShape;

verus! {

/// What the scene description yields: the compiled scene, the render
/// configuration, and the camera.
pub struct NffParserResult {
    pub scene: Scene,
    pub render_data: RenderData,
    pub camera: Camera,
}

/// Whether every byte of the sequence is a decimal digit.
pub open spec fn spec_all_digits(s: Seq<u8>) -> bool {
    forall|i: int| 0 <= i < s.len() ==> 48 <= #[trigger] s[i] <= 57
}

/// The value of a sequence of decimal digits, most significant first.
pub open spec fn spec_dec_val(s: Seq<u8>) -> int
    decreases s.len(),
{
    if s.len() == 0 {
        0
    } else {
        spec_dec_val(s.drop_last()) * 10 + (s.last() - 48)
    }
}

/// Ten to the given power.
pub open spec fn spec_pow10(n: nat) -> int
    decreases n,
{
    if n == 0 {
        1
    } else {
        10 * spec_pow10((n - 1) as nat)
    }
}

/// The value of a digit sequence is never negative.
proof fn lemma_dec_val_nonneg(s: Seq<u8>)
    requires
        spec_all_digits(s),
    ensures
        spec_dec_val(s) >= 0,
    decreases s.len(),
{
    if s.len() > 0 {
        assert(spec_all_digits(s.drop_last()));
        lemma_dec_val_nonneg(s.drop_last());
    }
}

/// A digit sequence is worth at least any of its prefixes.
proof fn lemma_dec_val_prefix(s: Seq<u8>, i: int)
    requires
        spec_all_digits(s),
        0 <= i <= s.len(),
    ensures
        spec_dec_val(s.subrange(0, i)) <= spec_dec_val(s),
    decreases s.len() - i,
{
    if i == s.len() {
        assert(s.subrange(0, i) =~= s);
    } else {
        lemma_dec_val_prefix(s, i + 1);
        let p1 = s.subrange(0, i + 1);
        assert(p1.drop_last() =~= s.subrange(0, i));
        assert(spec_all_digits(s.subrange(0, i)));
        lemma_dec_val_nonneg(s.subrange(0, i));
        assert(spec_dec_val(p1) == spec_dec_val(s.subrange(0, i)) * 10 + (s[i] - 48));
        assert(spec_dec_val(s.subrange(0, i)) <= spec_dec_val(s.subrange(0, i)) * 10) by (
        nonlinear_arith)
            requires
                spec_dec_val(s.subrange(0, i)) >= 0,
        ;
    }
}

/// What parsing an unsigned decimal yields: the value when every byte
/// is a digit, there is at least one, and the value fits; nothing
/// otherwise.
pub open spec fn spec_parse_u32(s: Seq<u8>) -> Option<u32> {
    if spec_all_digits(s) && s.len() > 0 && spec_dec_val(s) <= u32::MAX as int {
        Some(spec_dec_val(s) as u32)
    } else {
        None
    }
}

/// Parse an unsigned decimal from bytes.
pub fn parse_u32_bytes(s: &[u8]) -> (r: Option<u32>)
    ensures
        r == spec_parse_u32(s@),
{
    let n = s.len();
    if n == 0 {
        return None;
    }
    let mut acc: u32 = 0;
    let mut i: usize = 0;
    while i < n
        invariant
            0 < n == s@.len(),
            i <= n,
            spec_all_digits(s@.subrange(0, i as int)),
            acc as int == spec_dec_val(s@.subrange(0, i as int)),
        decreases n - i,
    {
        let b = s[i];
        if b < 48 || b > 57 {
            proof {
                assert(s@[i as int] == b);
                assert(!spec_all_digits(s@));
            }
            return None;
        }
        let d = (b - 48) as u32;
        if acc > (u32::MAX - d) / 10 {
            proof {
                let p1 = s@.subrange(0, i as int + 1);
                assert(p1.drop_last() =~= s@.subrange(0, i as int));
                assert(p1.last() == b);
                assert(spec_all_digits(p1));
                assert(spec_dec_val(p1) == acc as int * 10 + d);
                assert(acc as int * 10 + d > u32::MAX as int) by (nonlinear_arith)
                    requires
                        acc as int > (u32::MAX as int - d) / 10 && 0 <= d <= 9 && acc as int
                            >= 0,
                ;
                if spec_all_digits(s@) {
                    lemma_dec_val_prefix(s@, i as int + 1);
                }
            }
            return None;
        }
        proof {
            let p1 = s@.subrange(0, i as int + 1);
            assert(p1.drop_last() =~= s@.subrange(0, i as int));
            assert(p1.last() == b);
            assert(acc as int * 10 + d <= u32::MAX as int) by (nonlinear_arith)
                requires
                    acc as int <= (u32::MAX as int - d) / 10 && 0 <= d <= 9 && acc as int >= 0,
            ;
        }
        acc = acc * 10 + d;
        i = i + 1;
    }
    proof {
        assert(s@.subrange(0, n as int) =~= s@);
    }
    Some(acc)
}

/// Parse an unsigned decimal from text that is known to hold one.
pub fn as_u32(s: &str) -> (r: u32)
    requires
        spec_all_digits(s.spec_bytes()),
        s.spec_bytes().len() > 0,
        spec_dec_val(s.spec_bytes()) <= u32::MAX as int,
    ensures
        r as int == spec_dec_val(s.spec_bytes()),
{
    let b = s.as_bytes();
    proof {
        lemma_dec_val_nonneg(s.spec_bytes());
    }
    let r = parse_u32_bytes(b);
    match r {
        Some(v) => v,
        None => 0,
    }
}

/// The largest integer part a fixed-point scalar can carry.
pub open spec fn spec_max_int_part() -> int {
    i64::MAX as int / FX_ONE as int
}

/// Where the first dot stands in the sequence, or its length when there
/// is none.
pub open spec fn spec_dot_index(s: Seq<u8>, i: int) -> int
    decreases s.len() - i,
    when 0 <= i <= s.len()
{
    if i >= s.len() {
        i
    } else if s[i] == 46 {
        i
    } else {
        spec_dot_index(s, i + 1)
    }
}

/// What parsing a signed decimal into a fixed-point scalar yields.  An
/// optional leading minus, then digits with at most one dot and at
/// least one digit; the fraction is read to at most six digits, scaled
/// and rounded down.  An integer part past the scalar range is refused.
pub open spec fn spec_parse_fixed(s: Seq<u8>) -> Option<i64> {
    let neg = s.len() > 0 && s[0] == 45;
    let body = if neg {
        s.subrange(1, s.len() as int)
    } else {
        s
    };
    let d = spec_dot_index(body, 0);
    let int_part = body.subrange(0, d);
    let frac_part = if d < body.len() {
        body.subrange(d + 1, body.len() as int)
    } else {
        Seq::<u8>::empty()
    };
    if !(spec_all_digits(int_part) && spec_all_digits(frac_part) && int_part.len()
        + frac_part.len() > 0) {
        None
    } else if spec_dec_val(int_part) > spec_max_int_part() {
        None
    } else {
        let frac6 = if frac_part.len() <= 6 {
            frac_part
        } else {
            frac_part.subrange(0, 6)
        };
        let mag = spec_dec_val(int_part) * FX_ONE as int + spec_dec_val(frac6) * FX_ONE as int
            / spec_pow10(frac6.len());
        if neg {
            Some((-mag) as i64)
        } else {
            Some(mag as i64)
        }
    }
}

/// The first seven powers of ten, spelled out.
proof fn lemma_pow10_vals()
    ensures
        spec_pow10(0) == 1,
        spec_pow10(1) == 10,
        spec_pow10(2) == 100,
        spec_pow10(3) == 1000,
        spec_pow10(4) == 10000,
        spec_pow10(5) == 100000,
        spec_pow10(6) == 1000000,
{
    assert(spec_pow10(0) == 1);
    assert(spec_pow10(1) == 10);
    assert(spec_pow10(2) == 100);
    assert(spec_pow10(3) == 1000);
    assert(spec_pow10(4) == 10000);
    assert(spec_pow10(5) == 100000);
    assert(spec_pow10(6) == 1000000);
}

/// The value of at most six digits stays below ten to the sixth.
proof fn lemma_dec_val_bound(s: Seq<u8>)
    requires
        spec_all_digits(s),
        s.len() <= 6,
    ensures
        spec_dec_val(s) < spec_pow10(s.len()),
        spec_pow10(s.len()) <= 1000000,
    decreases s.len(),
{
    lemma_pow10_vals();
    if s.len() == 0 {
    } else {
        assert(spec_all_digits(s.drop_last()));
        lemma_dec_val_bound(s.drop_last());
        assert(spec_dec_val(s.drop_last()) <= spec_pow10(s.drop_last().len()) - 1);
        assert(spec_dec_val(s) == spec_dec_val(s.drop_last()) * 10 + (s.last() - 48));
        assert(spec_dec_val(s.drop_last()) * 10 <= (spec_pow10(s.drop_last().len()) - 1) * 10)
            by (nonlinear_arith)
            requires
                spec_dec_val(s.drop_last()) <= spec_pow10(s.drop_last().len()) - 1,
        ;
    }
}

/// Parse a signed decimal from bytes into a fixed-point scalar.
#[verifier::rlimit(100)]
pub fn parse_fixed_bytes(s: &[u8]) -> (r: Option<i64>)
    ensures
        r == spec_parse_fixed(s@),
{
    let n = s.len();
    let neg = n > 0 && s[0] == 45;
    let start: usize = if neg {
        1
    } else {
        0
    };
    let ghost body = if neg {
        s@.subrange(1, s@.len() as int)
    } else {
        s@
    };
    proof {
        assert(body.len() == n - start);
        assert(forall|j: int| 0 <= j < body.len() ==> body[j] == s@[j + start]);
    }

    // find the dot, checking digits of the integer part on the way
    let mut i: usize = start;
    let mut int_ok = true;
    while i < n && s[i] != 46
        invariant
            start <= i <= n,
            n == s@.len(),
            neg ==> start == 1,
            !neg ==> start == 0,
            body == (if neg {
                s@.subrange(1, s@.len() as int)
            } else {
                s@
            }),
            forall|j: int| start <= j < i ==> s@[j] != 46,
            int_ok <==> spec_all_digits(s@.subrange(start as int, i as int)),
        decreases n - i,
    {
        if s[i] < 48 || s[i] > 57 {
            proof {
                if spec_all_digits(s@.subrange(start as int, i as int + 1)) {
                    assert(s@.subrange(start as int, i as int + 1)[i - start] == s@[i as int]);
                }
            }
            int_ok = false;
        } else {
            proof {
                let p0 = s@.subrange(start as int, i as int);
                let p1 = s@.subrange(start as int, i as int + 1);
                assert(forall|j: int| 0 <= j < p0.len() ==> p1[j] == p0[j]);
                assert(p1[p1.len() - 1] == s@[i as int]);
                assert(int_ok ==> spec_all_digits(p1));
                if spec_all_digits(p1) {
                    assert(spec_all_digits(p0));
                }
            }
        }
        i = i + 1;
    }
    let dot = i;
    proof {
        lemma_dot_index_found(body, 0, dot - start);
        assert(s@.subrange(start as int, dot as int) =~= body.subrange(
            0,
            spec_dot_index(body, 0),
        ));
    }

    // the fraction part, checking digits
    let fstart: usize = if dot < n {
        dot + 1
    } else {
        dot
    };
    let ghost frac_part = if (dot as int - start as int) < body.len() {
        body.subrange(dot as int - start as int + 1, body.len() as int)
    } else {
        Seq::<u8>::empty()
    };
    proof {
        assert(frac_part.len() == n - fstart);
        assert(forall|j: int| 0 <= j < frac_part.len() ==> frac_part[j] == s@[j + fstart]);
    }
    let mut frac_ok = true;
    let mut j: usize = fstart;
    while j < n
        invariant
            fstart <= j <= n,
            n == s@.len(),
            frac_part.len() == n - fstart,
            forall|q: int| 0 <= q < frac_part.len() ==> frac_part[q] == s@[q + fstart],
            frac_ok <==> spec_all_digits(frac_part.subrange(0, j as int - fstart as int)),
        decreases n - j,
    {
        if s[j] < 48 || s[j] > 57 {
            proof {
                let p1 = frac_part.subrange(0, j as int - fstart as int + 1);
                if spec_all_digits(p1) {
                    assert(p1[j - fstart] == s@[j as int]);
                }
            }
            frac_ok = false;
        } else {
            proof {
                let p0 = frac_part.subrange(0, j as int - fstart as int);
                let p1 = frac_part.subrange(0, j as int - fstart as int + 1);
                assert(forall|q: int| 0 <= q < p0.len() ==> p1[q] == p0[q]);
                assert(p1[p1.len() - 1] == s@[j as int]);
                if spec_all_digits(p1) {
                    assert(spec_all_digits(p0));
                }
            }
        }
        j = j + 1;
    }
    proof {
        assert(frac_part.subrange(0, frac_part.len() as int) =~= frac_part);
    }

    if !int_ok || !frac_ok || (dot - start) + (n - fstart) == 0 {
        return None;
    }

    // integer part value, bounded by the scalar range
    let int_slice_val = parse_int_part(s, start, dot);
    let int_val = match int_slice_val {
        Some(v) => v,
        None => {
            return None;
        },
    };

    // fraction value over at most six digits
    let fend: usize = if n - fstart > 6 {
        fstart + 6
    } else {
        n
    };
    let mut fv: u64 = 0;
    let mut p10: u64 = 1;
    let mut q: usize = fstart;
    while q < fend
        invariant
            fstart <= q <= fend <= n,
            n == s@.len(),
            fend - fstart <= 6,
            frac_part.len() == n - fstart,
            forall|t: int| 0 <= t < frac_part.len() ==> frac_part[t] == s@[t + fstart],
            spec_all_digits(frac_part),
            fv as int == spec_dec_val(frac_part.subrange(0, q as int - fstart as int)),
            p10 as int == spec_pow10((q - fstart) as nat),
            fv < p10,
            1 <= p10 <= 1000000,
        decreases fend - q,
    {
        let b = s[q];
        proof {
            lemma_pow10_vals();
            let p0 = frac_part.subrange(0, q as int - fstart as int);
            let p1 = frac_part.subrange(0, q as int - fstart as int + 1);
            assert(p1.drop_last() =~= p0);
            assert(p1.last() == s@[q as int]);
            assert(spec_all_digits(p0) && spec_all_digits(p1));
            lemma_dec_val_bound(p1);
            lemma_dec_val_bound(p0);
            assert(spec_dec_val(p0) * 10 + (s@[q as int] - 48) < spec_pow10(p1.len()));
        }
        fv = fv * 10 + ((b - 48) as u64);
        p10 = p10 * 10;
        q = q + 1;
    }
    let ghost frac6 = if frac_part.len() <= 6 {
        frac_part
    } else {
        frac_part.subrange(0, 6)
    };
    proof {
        assert(frac_part.subrange(0, fend as int - fstart as int) =~= frac6);
    }
    let frac_scaled = ((fv * (FX_ONE as u64)) / p10) as i64;
    proof {
        lemma_dec_val_bound(frac6);
        assert(fv as int * FX_ONE as int <= 1000000int * 65536int) by (nonlinear_arith)
            requires
                0 <= fv as int <= 1000000,
        ;
        lemma_div_is_ordered_frac(fv as int, p10 as int);
    }

    proof {
        lemma_dec_val_nonneg(s@.subrange(start as int, dot as int));
        assert(int_val as int * 65536 <= 140737488355327int * 65536) by (nonlinear_arith)
            requires
                0 <= (int_val as int) && (int_val as int) <= 140737488355327int,
        ;
        assert(int_val as int * 65536 >= 0) by (nonlinear_arith)
            requires
                0 <= (int_val as int),
        ;
        assert(spec_max_int_part() == 140737488355327int);
    }
    let mag: i64 = int_val * FX_ONE + frac_scaled;
    if neg {
        Some(-mag)
    } else {
        Some(mag)
    }
}

/// Scaling at most six digits of fraction stays under the scale.
proof fn lemma_div_is_ordered_frac(fv: int, p10: int)
    requires
        0 <= fv < p10,
        p10 >= 1,
    ensures
        0 <= fv * 65536 / p10 < 65536,
{
    assert(fv * 65536 >= 0) by (nonlinear_arith)
        requires
            fv >= 0,
    ;
    assert(fv * 65536 <= (p10 - 1) * 65536) by (nonlinear_arith)
        requires
            fv <= p10 - 1,
    ;
    vstd::arithmetic::div_mod::lemma_div_is_ordered(fv * 65536, (p10 - 1) * 65536, p10);
    assert((p10 - 1) * 65536 == p10 * 65536 - 65536) by (nonlinear_arith);
    vstd::arithmetic::div_mod::lemma_div_multiples_vanish(65536, p10);
    assert(p10 * 65536 - 65536 < p10 * 65536);
    vstd::arithmetic::div_mod::lemma_div_is_ordered(fv * 65536, p10 * 65536 - 1, p10);
    assert((p10 * 65536 - 1) / p10 < 65536) by {
        vstd::arithmetic::div_mod::lemma_fundamental_div_mod(p10 * 65536 - 1, p10);
        assert((p10 * 65536 - 1) / p10 <= 65535) by (nonlinear_arith)
            requires
                p10 >= 1 && p10 * 65536 - 1 == p10 * ((p10 * 65536 - 1) / p10) + (p10 * 65536
                    - 1) % p10 && 0 <= (p10 * 65536 - 1) % p10 < p10,
        ;
    }
    vstd::arithmetic::div_mod::lemma_div_pos_is_pos(fv * 65536, p10);
}

/// The digits before the dot, as a value within the scalar range.
fn parse_int_part(s: &[u8], start: usize, dot: usize) -> (r: Option<i64>)
    requires
        start <= dot <= s@.len(),
        spec_all_digits(s@.subrange(start as int, dot as int)),
    ensures
        r is Some <==> spec_dec_val(s@.subrange(start as int, dot as int))
            <= spec_max_int_part(),
        r is Some ==> r->0 as int == spec_dec_val(s@.subrange(start as int, dot as int)),
{
    let ghost part = s@.subrange(start as int, dot as int);
    proof {
        assert(spec_max_int_part() == 140737488355327int);
    }
    let mut acc: u64 = 0;
    let mut i: usize = start;
    while i < dot
        invariant
            start <= i <= dot <= s@.len(),
            part == s@.subrange(start as int, dot as int),
            spec_all_digits(part),
            acc as int == spec_dec_val(part.subrange(0, i as int - start as int)),
            acc as int <= spec_max_int_part(),
            spec_max_int_part() == 140737488355327int,
        decreases dot - i,
    {
        let b = s[i];
        proof {
            let p0 = part.subrange(0, i as int - start as int);
            let p1 = part.subrange(0, i as int - start as int + 1);
            assert(p1.drop_last() =~= p0);
            assert(part[i - start] == s@[i as int]);
            assert(p1.last() == s@[i as int]);
            lemma_dec_val_nonneg(p0);
        }
        let d = (b - 48) as u64;
        if acc > (140737488355327u64 - d) / 10 {
            proof {
                assert(spec_max_int_part() == 140737488355327int);
                assert(acc as int * 10 + d > 140737488355327int) by (nonlinear_arith)
                    requires
                        acc as int > (140737488355327int - d) / 10 && 0 <= d <= 9 && acc as int
                            >= 0,
                ;
                lemma_dec_val_prefix(part, i as int - start as int + 1);
            }
            return None;
        }
        proof {
            assert(acc as int * 10 + d <= 140737488355327int) by (nonlinear_arith)
                requires
                    acc as int <= (140737488355327int - d) / 10 && 0 <= d <= 9 && acc as int
                        >= 0,
            ;
        }
        acc = acc * 10 + d;
        i = i + 1;
    }
    proof {
        assert(part.subrange(0, dot as int - start as int) =~= part);
    }
    Some(acc as i64)
}

/// The dot index the scan found agrees with the specification.
proof fn lemma_dot_index_found(body: Seq<u8>, i: int, found: int)
    requires
        0 <= i <= found <= body.len(),
        forall|j: int| i <= j < found ==> body[j] != 46,
        found < body.len() ==> body[found] == 46,
    ensures
        spec_dot_index(body, i) == found,
    decreases found - i,
{
    if i == found {
    } else {
        lemma_dot_index_found(body, i + 1, found);
    }
}

} // verus!

use crate::camera::spec_camera_a1_raw;
use crate::camera::spec_camera_a2_raw;
use crate::camera::spec_camera_a3_raw;
use crate::posvector::spec_pv_normalize;
use crate::scene::CompiledLight;
use crate::scene::spec_compile_shape;
use vstd::utf8::encode_utf8;

verus! {

/// The projection scale of a fifty-degree field of view: the cotangent
/// of half the view angle, in fixed point, precomputed because the
/// scalar type has no trigonometry.
pub const FOV50_PROJECTION_SCALE: i64 = 140542;

/// The raw field of view the format's viewpoint uses, fifty degrees.
pub const FOV50: i64 = 3276800;

/// The states of the line reader: most lines are instructions, but a
/// viewpoint block and a polygon block span several lines.
pub enum NffMode {
    Instruction,
    ViewpointFrom,
    ViewpointAt,
    ViewpointUp,
    ViewpointAngle,
    ViewpointHither,
    ViewpointResolution,
    Polygon,
}

/// The byte sequences behind a list of byte vectors.
pub open spec fn spec_tokens_view(toks: Seq<Vec<u8>>) -> Seq<Seq<u8>> {
    toks.map_values(|t: Vec<u8>| t@)
}

/// The byte sequences behind a list of text lines.
pub open spec fn spec_lines_bytes(lines: Seq<String>) -> Seq<Seq<u8>> {
    lines.map_values(|l: String| encode_utf8(l@))
}

/// Viewing a pushed token list appends the pushed token's bytes.
proof fn lemma_tokens_view_push(s: Seq<Vec<u8>>, v: Vec<u8>)
    ensures
        spec_tokens_view(s.push(v)) == spec_tokens_view(s).push(v@),
{
    assert(spec_tokens_view(s.push(v)) =~= spec_tokens_view(s).push(v@));
}

/// The token list a scan from position `i` yields, given the token
/// under construction and the tokens already cut: a space closes the
/// current token, the end of the line closes the last one.
pub open spec fn spec_split_rec(s: Seq<u8>, i: int, cur: Seq<u8>, acc: Seq<Seq<u8>>) -> Seq<
    Seq<u8>,
>
    decreases s.len() - i,
    when 0 <= i <= s.len()
{
    if i >= s.len() {
        acc.push(cur)
    } else if s[i] == 32 {
        spec_split_rec(s, i + 1, Seq::<u8>::empty(), acc.push(cur))
    } else {
        spec_split_rec(s, i + 1, cur.push(s[i]), acc)
    }
}

/// What cutting a line at every single space yields, empty pieces kept.
pub open spec fn spec_split_spaces(s: Seq<u8>) -> Seq<Seq<u8>> {
    spec_split_rec(s, 0, Seq::<u8>::empty(), Seq::<Seq<u8>>::empty())
}

/// A line cut at every single space.
fn split_spaces(s: &[u8]) -> (toks: Vec<Vec<u8>>)
    ensures
        spec_tokens_view(toks@) == spec_split_spaces(s@),
        toks@.len() >= 1,
{
    let n = s.len();
    let mut toks: Vec<Vec<u8>> = Vec::new();
    let mut cur: Vec<u8> = Vec::new();
    let mut i: usize = 0;
    proof {
        assert(spec_tokens_view(toks@) =~= Seq::<Seq<u8>>::empty());
    }
    while i < n
        invariant
            i <= n,
            n == s@.len(),
            spec_split_rec(s@, i as int, cur@, spec_tokens_view(toks@)) == spec_split_spaces(
                s@,
            ),
        decreases n - i,
    {
        let b = s[i];
        if b == 32 {
            proof {
                lemma_tokens_view_push(toks@, cur);
            }
            toks.push(cur);
            cur = Vec::new();
        } else {
            cur.push(b);
        }
        i = i + 1;
    }
    proof {
        lemma_tokens_view_push(toks@, cur);
    }
    toks.push(cur);
    toks
}

/// Whether a token is the single given byte.
fn tok_is1(t: &Vec<u8>, c: u8) -> (r: bool)
    ensures
        r == spec_tok_is1(t@, c),
{
    t.len() == 1 && t[0] == c
}

/// Whether a token is the two given bytes.
fn tok_is2(t: &Vec<u8>, c0: u8, c1: u8) -> (r: bool)
    ensures
        r == spec_tok_is2(t@, c0, c1),
{
    t.len() == 2 && t[0] == c0 && t[1] == c1
}

/// Whether a token is exactly one given byte.
pub open spec fn spec_tok_is1(t: Seq<u8>, c: u8) -> bool {
    t.len() == 1 && t[0] == c
}

/// Whether a token is exactly two given bytes.
pub open spec fn spec_tok_is2(t: Seq<u8>, c0: u8, c1: u8) -> bool {
    t.len() == 2 && t[0] == c0 && t[1] == c1
}

/// What three consecutive tokens yield as a vector: the three parses,
/// when every one of them succeeds.
pub open spec fn spec_parse_vec3(toks: Seq<Seq<u8>>, at: int) -> Option<PosVector> {
    if spec_parse_fixed(toks[at]) is Some && spec_parse_fixed(toks[at + 1]) is Some
        && spec_parse_fixed(toks[at + 2]) is Some {
        Some(
            PosVector {
                x: spec_parse_fixed(toks[at])->0,
                y: spec_parse_fixed(toks[at + 1])->0,
                z: spec_parse_fixed(toks[at + 2])->0,
            },
        )
    } else {
        None
    }
}

/// Three consecutive tokens as a vector, when they all parse.
fn parse_vec3(toks: &Vec<Vec<u8>>, at: usize) -> (r: Option<PosVector>)
    requires
        at + 3 <= toks@.len(),
    ensures
        r == spec_parse_vec3(spec_tokens_view(toks@), at as int),
{
    let len = toks.len();
    let x = parse_fixed_bytes(toks[at].as_slice());
    let y = parse_fixed_bytes(toks[at + 1].as_slice());
    let z = parse_fixed_bytes(toks[at + 2].as_slice());
    match (x, y, z) {
        (Some(xv), Some(yv), Some(zv)) => Some(PosVector::new(xv, yv, zv)),
        _ => None,
    }
}

/// Everything the line reader carries between lines.
pub struct NffState {
    pub shapes: Seq<ShapeKind>,
    pub lights: Seq<PointLight>,
    pub camera_from: PosVector,
    pub camera_at: PosVector,
    pub camera_up: PosVector,
    pub resolution_x: u32,
    pub resolution_y: u32,
    pub background: Background,
    pub current_material: SolidMaterial,
    pub current_shape_id: u32,
    pub current_item_counter: u32,
    pub mode: NffMode,
}

/// The checkerboard ground plane every parsed scene starts with.
pub open spec fn spec_nff_ground_plane() -> ShapeKind {
    ShapeKind::Plane(
        PlaneShape {
            position: PosVector { x: 0, y: 0, z: 65536 },
            d_val: 0,
            material: SceneMaterial::Chessboard(
                ChessboardMaterial {
                    color_even: ColorVector { r: 52428, g: 52428, b: 52428 },
                    color_odd: ColorVector { r: 0, g: 0, b: 0 },
                    material: BaseMaterial {
                        gloss: 65536,
                        reflection: 13107,
                        refraction: 0,
                        transparency: 0,
                    },
                    scale: 983040,
                },
            ),
            id: 0,
        },
    )
}

/// The reader's state before the first line: the ground plane, no
/// lights, a camera at the origin, a thousand-square frame, a black
/// background and a black matte current material.
pub open spec fn spec_nff_init() -> NffState {
    NffState {
        shapes: seq![spec_nff_ground_plane()],
        lights: Seq::<PointLight>::empty(),
        camera_from: PosVector { x: 0, y: 0, z: 0 },
        camera_at: PosVector { x: 0, y: 0, z: 0 },
        camera_up: PosVector { x: 0, y: 0, z: 0 },
        resolution_x: 1000,
        resolution_y: 1000,
        background: Background { color: ColorVector { r: 0, g: 0, b: 0 }, ambience: 0 },
        current_material: SolidMaterial {
            material: BaseMaterial { gloss: 0, reflection: 0, refraction: 0, transparency: 0 },
            color: ColorVector { r: 0, g: 0, b: 0 },
        },
        current_shape_id: 1,
        current_item_counter: 0,
        mode: NffMode::Instruction,
    }
}

/// What one instruction line does to the state.  `b` sets the
/// background, `v` opens the viewpoint block, `l` adds a light (white
/// unless exactly seven fields give a color), `f` sets the current
/// material (shine to gloss, specular to reflectivity, transmittance to
/// transparency, the index to refraction), `s` adds a sphere of the
/// current material under the next id, `p` opens a counted polygon
/// block; `c`, `pp`, comments, unknown directives and malformed numbers
/// change nothing.
pub open spec fn spec_nff_instruction(st: NffState, toks: Seq<Seq<u8>>) -> NffState {
    if toks.len() == 0 {
        st
    } else if spec_tok_is1(toks[0], 98) {
        if toks.len() >= 4 && spec_parse_vec3(toks, 1) is Some {
            let v = spec_parse_vec3(toks, 1)->0;
            NffState {
                background: Background {
                    color: ColorVector { r: v.x, g: v.y, b: v.z },
                    ambience: 0,
                },
                ..st
            }
        } else {
            st
        }
    } else if spec_tok_is1(toks[0], 118) {
        NffState { mode: NffMode::ViewpointFrom, ..st }
    } else if spec_tok_is1(toks[0], 108) {
        if toks.len() >= 4 && spec_parse_vec3(toks, 1) is Some {
            let pos = spec_parse_vec3(toks, 1)->0;
            let color = if toks.len() == 7 && spec_parse_vec3(toks, 4) is Some {
                let c = spec_parse_vec3(toks, 4)->0;
                ColorVector { r: c.x, g: c.y, b: c.z }
            } else {
                ColorVector { r: 65536, g: 65536, b: 65536 }
            };
            NffState { lights: st.lights.push(PointLight { position: pos, color }), ..st }
        } else {
            st
        }
    } else if spec_tok_is1(toks[0], 102) {
        if toks.len() >= 9 && spec_parse_vec3(toks, 1) is Some && spec_parse_fixed(
            toks[5],
        ) is Some && spec_parse_fixed(toks[6]) is Some && spec_parse_fixed(toks[7]) is Some
            && spec_parse_fixed(toks[8]) is Some {
            let c = spec_parse_vec3(toks, 1)->0;
            NffState {
                current_material: SolidMaterial {
                    material: BaseMaterial {
                        gloss: spec_parse_fixed(toks[6])->0,
                        reflection: spec_parse_fixed(toks[5])->0,
                        refraction: spec_parse_fixed(toks[8])->0,
                        transparency: spec_parse_fixed(toks[7])->0,
                    },
                    color: ColorVector { r: c.x, g: c.y, b: c.z },
                },
                ..st
            }
        } else {
            st
        }
    } else if spec_tok_is1(toks[0], 99) {
        st
    } else if spec_tok_is1(toks[0], 115) {
        if toks.len() >= 5 && spec_parse_vec3(toks, 1) is Some && spec_parse_fixed(
            toks[4],
        ) is Some {
            NffState {
                shapes: st.shapes.push(
                    ShapeKind::Sphere(
                        SphereShape {
                            position: spec_parse_vec3(toks, 1)->0,
                            radius: spec_parse_fixed(toks[4])->0,
                            material: SceneMaterial::Solid(st.current_material),
                            id: st.current_shape_id,
                        },
                    ),
                ),
                current_shape_id: (st.current_shape_id + 1) as u32,
                ..st
            }
        } else {
            st
        }
    } else if spec_tok_is1(toks[0], 112) {
        if toks.len() >= 2 && spec_parse_u32(toks[1]) is Some {
            NffState {
                current_item_counter: spec_parse_u32(toks[1])->0,
                mode: NffMode::Polygon,
                ..st
            }
        } else {
            st
        }
    } else {
        st
    }
}

/// What one line does to the state, by the reader's mode: instructions
/// as above; the viewpoint block reads from, at and up (keeping the old
/// value on a malformed line), consumes the angle and hither lines, and
/// reads the resolution; a polygon block counts its lines down.
pub open spec fn spec_nff_line(st: NffState, line: Seq<u8>) -> NffState {
    match st.mode {
        NffMode::Instruction => spec_nff_instruction(st, spec_split_spaces(line)),
        NffMode::Polygon => {
            let c1 = if st.current_item_counter > 0 {
                (st.current_item_counter - 1) as u32
            } else {
                st.current_item_counter
            };
            let mode = if c1 == 0 {
                NffMode::Instruction
            } else {
                NffMode::Polygon
            };
            NffState { current_item_counter: c1, mode, ..st }
        },
        NffMode::ViewpointFrom => {
            let toks = spec_split_spaces(line);
            let from = if toks.len() >= 4 && spec_parse_vec3(toks, 1) is Some {
                spec_parse_vec3(toks, 1)->0
            } else {
                st.camera_from
            };
            NffState { camera_from: from, mode: NffMode::ViewpointAt, ..st }
        },
        NffMode::ViewpointAt => {
            let toks = spec_split_spaces(line);
            let at = if toks.len() >= 4 && spec_parse_vec3(toks, 1) is Some {
                spec_parse_vec3(toks, 1)->0
            } else {
                st.camera_at
            };
            NffState { camera_at: at, mode: NffMode::ViewpointUp, ..st }
        },
        NffMode::ViewpointUp => {
            let toks = spec_split_spaces(line);
            let up = if toks.len() >= 4 && spec_parse_vec3(toks, 1) is Some {
                spec_parse_vec3(toks, 1)->0
            } else {
                st.camera_up
            };
            NffState { camera_up: up, mode: NffMode::ViewpointAngle, ..st }
        },
        NffMode::ViewpointAngle => NffState { mode: NffMode::ViewpointHither, ..st },
        NffMode::ViewpointHither => NffState { mode: NffMode::ViewpointResolution, ..st },
        NffMode::ViewpointResolution => {
            let toks = spec_split_spaces(line);
            if toks.len() >= 3 && spec_parse_u32(toks[1]) is Some && spec_parse_u32(
                toks[2],
            ) is Some {
                NffState {
                    resolution_x: spec_parse_u32(toks[1])->0,
                    resolution_y: spec_parse_u32(toks[2])->0,
                    mode: NffMode::Instruction,
                    ..st
                }
            } else {
                NffState { mode: NffMode::Instruction, ..st }
            }
        },
    }
}

/// The state after reading the lines from position `i` on.
pub open spec fn spec_nff_fold(lines: Seq<Seq<u8>>, i: int, st: NffState) -> NffState
    decreases lines.len() - i,
    when 0 <= i <= lines.len()
{
    if i >= lines.len() {
        st
    } else {
        spec_nff_fold(lines, i + 1, spec_nff_line(st, lines[i]))
    }
}

/// What reading a whole scene description yields, before compilation.
pub open spec fn spec_parse_nff(lines: Seq<Seq<u8>>) -> NffState {
    spec_nff_fold(lines, 0, spec_nff_init())
}

/// Read a scene description, line by line, into a compiled scene, a
/// camera and a render configuration.
///
/// The grammar and its effect on the result are pinned by
/// `spec_parse_nff`: the scene holds exactly that state's shapes and
/// lights under sequential ids, its background, a frame of its
/// resolution with every shading term on, and a camera built from its
/// viewpoint at the fixed fifty-degree projection.  A directive with
/// malformed or missing numbers is skipped.
pub fn parse_nff_file(lines: &Vec<String>, num_threads: u32, ray_trace_depth: u32) -> (r:
    NffParserResult)
    requires
        lines@.len() + 2 < u32::MAX as int,
    ensures
        ({
            let st = spec_parse_nff(spec_lines_bytes(lines@));
            &&& r.scene.background == st.background
            &&& r.scene.shapes@.len() == st.shapes.len()
            &&& forall|i: int|
                0 <= i < st.shapes.len() ==> #[trigger] r.scene.shapes@[i]
                    == spec_compile_shape(st.shapes[i], (i + 1) as u32)
            &&& r.scene.lights@.len() == st.lights.len()
            &&& forall|i: int|
                0 <= i < st.lights.len() ==> #[trigger] r.scene.lights@[i] == (CompiledLight {
                    light: st.lights[i],
                    id: (i + 1) as u32,
                })
            &&& r.render_data == (RenderData {
                width: st.resolution_x,
                height: st.resolution_y,
                ray_trace_depth,
                num_threads,
                thread_per_line: true,
                render_diffuse: true,
                render_reflection: true,
                render_refraction: true,
                render_shadow: true,
                render_highlights: true,
            })
            &&& r.camera.position == st.camera_from
            &&& r.camera.look_at == st.camera_at
            &&& r.camera.up == st.camera_up
            &&& r.camera.a1 == spec_pv_normalize(
                spec_camera_a1_raw(st.camera_from, st.camera_at, st.camera_up),
            )
            &&& r.camera.a2 == spec_pv_normalize(
                spec_camera_a2_raw(st.camera_from, st.camera_at, st.camera_up),
            )
            &&& r.camera.a3 == spec_pv_normalize(
                spec_camera_a3_raw(st.camera_from, st.camera_at),
            )
        }),
        spec_scene_wf(r.scene),
        r.camera.fov == FOV50,
        r.camera.dval == FOV50_PROJECTION_SCALE,
        r.scene.shapes@.len() >= 1,
        r.scene.shapes@[0].shape is Plane,
{
    let ghost lb = spec_lines_bytes(lines@);

    let mut shapes: Vec<ShapeKind> = Vec::new();
    let mut lights: Vec<PointLight> = Vec::new();
    let mut camera_from = PosVector::new_default();
    let mut camera_at = PosVector::new_default();
    let mut camera_up = PosVector::new_default();
    let mut resolution_x: u32 = 1000;
    let mut resolution_y: u32 = 1000;

    let chess_mat = ChessboardMaterial {
        color_even: ColorVector::new(52428, 52428, 52428),
        color_odd: ColorVector::new(0, 0, 0),
        material: BaseMaterial { reflection: 13107, transparency: 0, gloss: 65536, refraction: 0 },
        scale: 983040,
    };

    shapes.push(ShapeKind::Plane(PlaneShape {
        position: PosVector::new(0, 0, 65536),
        d_val: 0,
        material: SceneMaterial::Chessboard(chess_mat),
        id: 0,
    }));

    let mut background = Background::new(ColorVector::new(0, 0, 0), 0);
    let mut looking_for = NffMode::Instruction;
    let mut current_material = SolidMaterial::new(0, 0, 0, 0, ColorVector::new(0, 0, 0));
    let mut current_shape_id: u32 = 1;
    let mut current_item_counter: u32 = 0;

    proof {
        assert(shapes@ =~= seq![spec_nff_ground_plane()]);
        assert(lights@ =~= Seq::<PointLight>::empty());
        let st_init = NffState {
            shapes: shapes@,
            lights: lights@,
            camera_from,
            camera_at,
            camera_up,
            resolution_x,
            resolution_y,
            background,
            current_material,
            current_shape_id,
            current_item_counter,
            mode: looking_for,
        };
        assert(st_init == spec_nff_init());
    }

    let n = lines.len();
    let mut li: usize = 0;
    while li < n
        invariant
            li <= n,
            n == lines@.len(),
            lb == spec_lines_bytes(lines@),
            lines@.len() + 2 < u32::MAX as int,
            1 <= shapes@.len() <= 1 + li as int,
            shapes@[0] is Plane,
            lights@.len() <= li as int,
            current_shape_id as int <= shapes@.len() + 1,
            spec_nff_fold(
                lb,
                li as int,
                NffState {
                    shapes: shapes@,
                    lights: lights@,
                    camera_from,
                    camera_at,
                    camera_up,
                    resolution_x,
                    resolution_y,
                    background,
                    current_material,
                    current_shape_id,
                    current_item_counter,
                    mode: looking_for,
                },
            ) == spec_parse_nff(lb),
        decreases n - li,
    {
        let ghost st0 = NffState {
            shapes: shapes@,
            lights: lights@,
            camera_from,
            camera_at,
            camera_up,
            resolution_x,
            resolution_y,
            background,
            current_material,
            current_shape_id,
            current_item_counter,
            mode: looking_for,
        };
        let l = &lines[li];
        proof {
            assert(lb[li as int] == encode_utf8(lines@[li as int]@));
        }

        match looking_for {
            NffMode::Instruction => {
                let toks = split_spaces(l.as_str().as_bytes());

                if tok_is1(&toks[0], 98) {
                    // background color
                    if toks.len() >= 4 {
                        match parse_vec3(&toks, 1) {
                            Some(v) => {
                                background = Background::new(ColorVector::new(v.x, v.y, v.z), 0);
                            },
                            None => {},
                        }
                    }
                } else if tok_is1(&toks[0], 118) {
                    // viewpoint block follows
                    looking_for = NffMode::ViewpointFrom;
                } else if tok_is1(&toks[0], 108) {
                    // positional light
                    if toks.len() >= 4 {
                        match parse_vec3(&toks, 1) {
                            Some(pos) => {
                                let mut color_vec = ColorVector::new(65536, 65536, 65536);
                                if toks.len() == 7 {
                                    match parse_vec3(&toks, 4) {
                                        Some(c) => {
                                            color_vec = ColorVector::new(c.x, c.y, c.z);
                                        },
                                        None => {},
                                    }
                                }
                                lights.push(PointLight::new(pos, color_vec));
                            },
                            None => {},
                        }
                    }
                } else if tok_is1(&toks[0], 102) {
                    // the current material: color, diffuse, specular,
                    // shine, transmittance, refractive index
                    if toks.len() >= 9 {
                        let color = parse_vec3(&toks, 1);
                        let ks = parse_fixed_bytes(toks[5].as_slice());
                        let shine = parse_fixed_bytes(toks[6].as_slice());
                        let t = parse_fixed_bytes(toks[7].as_slice());
                        let ior = parse_fixed_bytes(toks[8].as_slice());
                        match (color, ks, shine, t, ior) {
                            (Some(c), Some(ksv), Some(shinev), Some(tv), Some(iorv)) => {
                                current_material = SolidMaterial::new(
                                    shinev,
                                    ksv,
                                    iorv,
                                    tv,
                                    ColorVector::new(c.x, c.y, c.z),
                                );
                            },
                            _ => {},
                        }
                    }
                } else if tok_is1(&toks[0], 99) {
                    // cone or cylinder: not carried by this renderer
                } else if tok_is1(&toks[0], 115) {
                    // sphere of the current material
                    if toks.len() >= 5 {
                        let pos = parse_vec3(&toks, 1);
                        let radius = parse_fixed_bytes(toks[4].as_slice());
                        match (pos, radius) {
                            (Some(p), Some(rad)) => {
                                shapes.push(ShapeKind::Sphere(SphereShape {
                                    position: p,
                                    radius: rad,
                                    material: SceneMaterial::Solid(current_material),
                                    id: current_shape_id,
                                }));
                                current_shape_id = current_shape_id + 1;
                            },
                            _ => {},
                        }
                    }
                } else if tok_is1(&toks[0], 112) {
                    // polygon block: counted and skipped
                    if toks.len() >= 2 {
                        match parse_u32_bytes(toks[1].as_slice()) {
                            Some(v) => {
                                current_item_counter = v;
                                looking_for = NffMode::Polygon;
                            },
                            None => {},
                        }
                    }
                } else if tok_is2(&toks[0], 112, 112) {
                    // polygon patch: not carried by this renderer
                } else if tok_is1(&toks[0], 35) {
                    // comment
                }
            },
            NffMode::Polygon => {
                if current_item_counter > 0 {
                    current_item_counter = current_item_counter - 1;
                }
                if current_item_counter == 0 {
                    looking_for = NffMode::Instruction;
                }
            },
            NffMode::ViewpointFrom => {
                let toks = split_spaces(l.as_str().as_bytes());
                if toks.len() >= 4 {
                    match parse_vec3(&toks, 1) {
                        Some(v) => {
                            camera_from = v;
                        },
                        None => {},
                    }
                }
                looking_for = NffMode::ViewpointAt;
            },
            NffMode::ViewpointAt => {
                let toks = split_spaces(l.as_str().as_bytes());
                if toks.len() >= 4 {
                    match parse_vec3(&toks, 1) {
                        Some(v) => {
                            camera_at = v;
                        },
                        None => {},
                    }
                }
                looking_for = NffMode::ViewpointUp;
            },
            NffMode::ViewpointUp => {
                let toks = split_spaces(l.as_str().as_bytes());
                if toks.len() >= 4 {
                    match parse_vec3(&toks, 1) {
                        Some(v) => {
                            camera_up = v;
                        },
                        None => {},
                    }
                }
                looking_for = NffMode::ViewpointAngle;
            },
            NffMode::ViewpointAngle => {
                // the angle is accepted but the projection stays at the
                // fixed fifty-degree scale
                looking_for = NffMode::ViewpointHither;
            },
            NffMode::ViewpointHither => {
                // hither is accepted and not applied
                looking_for = NffMode::ViewpointResolution;
            },
            NffMode::ViewpointResolution => {
                let toks = split_spaces(l.as_str().as_bytes());
                if toks.len() >= 3 {
                    let rx = parse_u32_bytes(toks[1].as_slice());
                    let ry = parse_u32_bytes(toks[2].as_slice());
                    match (rx, ry) {
                        (Some(x), Some(y)) => {
                            resolution_x = x;
                            resolution_y = y;
                        },
                        _ => {},
                    }
                }
                looking_for = NffMode::Instruction;
            },
        }

        proof {
            let st1 = NffState {
                shapes: shapes@,
                lights: lights@,
                camera_from,
                camera_at,
                camera_up,
                resolution_x,
                resolution_y,
                background,
                current_material,
                current_shape_id,
                current_item_counter,
                mode: looking_for,
            };
            assert(st1 == spec_nff_line(st0, lb[li as int]));
        }
        li = li + 1;
    }

    proof {
        let stf = NffState {
            shapes: shapes@,
            lights: lights@,
            camera_from,
            camera_at,
            camera_up,
            resolution_x,
            resolution_y,
            background,
            current_material,
            current_shape_id,
            current_item_counter,
            mode: looking_for,
        };
        assert(spec_nff_fold(lb, n as int, stf) == stf);
        assert(stf == spec_parse_nff(lb));
    }

    NffParserResult {
        scene: Scene::new(background, shapes, lights),
        render_data: RenderData::new(
            resolution_x,
            resolution_y,
            ray_trace_depth,
            num_threads,
            true,
        ),
        camera: Camera::new(camera_from, camera_at, camera_up, FOV50, FOV50_PROJECTION_SCALE),
    }
}

} // verus!
