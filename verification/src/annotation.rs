use vstd::prelude::*;

use crate::capture_models::{CaptureErrorCode, Error as CaptureError, PixelFormat};
use crate::text::{
    chars_of, concat_chars, decimal, decimal_chars, digit_of, digit_value, digits_value, is_blank,
    same_chars, string_of, trim,
};

verus! {

/// An annotation colour.
#[derive(Debug, Clone, Copy, PartialEq, Eq, Structural)]
pub struct AnnotationRgba {
    pub red: u8,
    pub green: u8,
    pub blue: u8,
    pub alpha: u8,
}

pub open spec fn is_hex_digit(c: char) -> bool {
    digit_value(c, 16) is Some
}

/// The channel written by the two hex digits of `s` at `start`.
pub open spec fn hex_pair(s: Seq<char>, start: int) -> u8 {
    digits_value(s.subrange(start, start + 2), 16) as u8
}

/// The colour that `#RRGGBB` or `#RRGGBBAA` writes, hex digits in either case, opaque where the
/// alpha pair is absent.
pub open spec fn parse_rgba_spec(value: Seq<char>) -> Option<AnnotationRgba> {
    if value.len() >= 1 && value[0] == '#' && (value.len() == 7 || value.len() == 9) && forall|i: int|
        1 <= i < value.len() ==> is_hex_digit(#[trigger] value[i]) {
        Some(
            AnnotationRgba {
                red: hex_pair(value, 1),
                green: hex_pair(value, 3),
                blue: hex_pair(value, 5),
                alpha: if value.len() == 9 {
                    hex_pair(value, 7)
                } else {
                    255
                },
            },
        )
    } else {
        None
    }
}

fn hex_digit(c: char) -> (d: u8)
    requires
        is_hex_digit(c),
    ensures
        digit_value(c, 16) == Some(d as nat),
{
    if '0' <= c && c <= '9' {
        ((c as u32) - 48) as u8
    } else if 'a' <= c && c <= 'f' {
        ((c as u32) - 97 + 10) as u8
    } else {
        ((c as u32) - 65 + 10) as u8
    }
}

fn hex_byte(s: &Vec<char>, start: usize) -> (b: u8)
    requires
        start + 2 <= s.len(),
        is_hex_digit(s@[start as int]),
        is_hex_digit(s@[start + 1]),
    ensures
        b == hex_pair(s@, start as int),
{
    let hi = hex_digit(s[start]);
    let lo = hex_digit(s[start + 1]);
    let ghost pair = s@.subrange(start as int, start + 2);
    let ghost one = pair.drop_last();
    assert(one.drop_last() =~= Seq::<char>::empty());
    assert(one.last() == s@[start as int]);
    assert(pair.last() == s@[start + 1]);
    assert(digits_value(one.drop_last(), 16) == 0);
    assert(digits_value(one, 16) == hi as nat);
    assert(digits_value(pair, 16) == hi * 16 + lo);
    hi * 16 + lo
}

impl AnnotationRgba {
    /// Reads `#RRGGBB` or `#RRGGBBAA`; anything else is an `AnnotationInvalidOptions` error.
    pub fn parse(value: &str) -> (r: Result<Self, CaptureError>)
        ensures
            match r {
                Ok(c) => parse_rgba_spec(value@) == Some(c),
                Err(e) => parse_rgba_spec(value@) is None && e->payload.code
                    == CaptureErrorCode::AnnotationInvalidOptions && e->payload.recoverable,
            },
    {
        let s = chars_of(value);
        if s.len() < 1 || s[0] != '#' || !(s.len() == 7 || s.len() == 9) {
            return Err(invalid_color());
        }
        let mut i: usize = 1;
        while i < s.len()
            invariant
                1 <= i <= s.len(),
                s@ == value@,
                s@.len() == 7 || s@.len() == 9,
                s@[0] == '#',
                forall|j: int| 1 <= j < i ==> is_hex_digit(#[trigger] s@[j]),
            decreases s.len() - i,
        {
            if digit_of(s[i], 16).is_none() {
                assert(!is_hex_digit(s@[i as int]));
                return Err(invalid_color());
            }
            i = i + 1;
        }
        let alpha = if s.len() == 9 {
            hex_byte(&s, 7)
        } else {
            255
        };
        Ok(AnnotationRgba { red: hex_byte(&s, 1), green: hex_byte(&s, 3), blue: hex_byte(&s, 5), alpha })
    }
}

fn invalid_color() -> (e: CaptureError)
    ensures
        e->payload.code == CaptureErrorCode::AnnotationInvalidOptions,
        e->payload.recoverable,
{
    let message = chars_of("标注颜色必须是 #RRGGBB 或 #RRGGBBAA");
    CaptureError::new(CaptureErrorCode::AnnotationInvalidOptions, string_of(&message), true)
}

/// A channel of `source` laid over `destination` with the source alpha, rounded to nearest.
pub open spec fn blend_channel_spec(destination: u8, source: u8, source_alpha: int) -> u8 {
    ((source * source_alpha + destination * (255 - source_alpha) + 127) / 255) as u8
}

/// Blends one channel; the result lies between the two inputs.
pub fn blend_channel(destination: u8, source: u8, source_alpha: u32, inverse_alpha: u32) -> (r: u8)
    requires
        source_alpha <= 255,
        inverse_alpha == 255 - source_alpha,
    ensures
        r == blend_channel_spec(destination, source, source_alpha as int),
        (destination <= source ==> destination <= r <= source),
        (source <= destination ==> source <= r <= destination),
{
    let s = source as u32;
    let d = destination as u32;
    assert(s * source_alpha <= 255 * 255) by (nonlinear_arith)
        requires
            s <= 255,
            source_alpha <= 255,
    ;
    assert(d * inverse_alpha <= 255 * 255) by (nonlinear_arith)
        requires
            d <= 255,
            inverse_alpha <= 255,
    ;
    let total = s * source_alpha + d * inverse_alpha + 127;
    proof {
        let a = source_alpha as int;
        assert(d * (255 - a) + s * a + 127 <= 255 * 255 + 254) by (nonlinear_arith)
            requires
                0 <= a <= 255,
                d <= 255,
                s <= 255,
        ;
        if d <= s {
            assert(255 * d <= s * a + d * (255 - a) && s * a + d * (255 - a) <= 255 * s) by (nonlinear_arith)
                requires
                    0 <= a <= 255,
                    d <= s,
            ;
        } else {
            assert(255 * s <= s * a + d * (255 - a) && s * a + d * (255 - a) <= 255 * d) by (nonlinear_arith)
                requires
                    0 <= a <= 255,
                    s <= d,
            ;
        }
    }
    (total / 255) as u8
}

/// Lays `color` over pixel `(x, y)` of a 4-byte-per-pixel frame `width` pixels wide, once per
/// pixel: a pixel already in `covered` is left as it is. An NV12 frame is not painted.
pub fn blend_pixel(
    data: &mut Vec<u8>,
    width: u32,
    x: u32,
    y: u32,
    pixel_format: PixelFormat,
    color: AnnotationRgba,
    covered: &mut Vec<usize>,
)
    requires
        x < width,
        (y as int) * (width as int) + (x as int) < old(data)@.len() / 4,
    ensures
        ({
            let index = (y as int) * (width as int) + (x as int);
            let offset = index * 4;
            let a = color.alpha as int;
            if old(covered)@.contains(index as usize) {
                final(data)@ == old(data)@ && final(covered)@ == old(covered)@
            } else if pixel_format == PixelFormat::Nv12 {
                final(data)@ == old(data)@ && final(covered)@ == old(covered)@.push(index as usize)
            } else {
                let (ri, bi) = if pixel_format == PixelFormat::Bgra {
                    (2int, 0int)
                } else {
                    (0int, 2int)
                };
                &&& final(covered)@ == old(covered)@.push(index as usize)
                &&& final(data)@ == old(data)@.update(offset + ri, blend_channel_spec(old(data)@[offset + ri], color.red, a)).update(
                    offset + 1,
                    blend_channel_spec(old(data)@[offset + 1], color.green, a),
                ).update(offset + bi, blend_channel_spec(old(data)@[offset + bi], color.blue, a)).update(
                    offset + 3,
                    (if a + old(data)@[offset + 3] * (255 - a) / 255 > 255 {
                        255
                    } else {
                        a + old(data)@[offset + 3] * (255 - a) / 255
                    }) as u8,
                )
            }
        }),
{
    let ghost index_int = (y as int) * (width as int) + (x as int);
    let n = data.len();
    assert(0 <= (y as int) * (width as int)) by (nonlinear_arith);
    assert(index_int < n);
    let index: usize = (y as usize) * (width as usize) + (x as usize);
    assert(index == index_int);
    let mut k: usize = 0;
    while k < covered.len()
        invariant
            k <= covered.len(),
            covered@ == old(covered)@,
            data@ == old(data)@,
            index == (y as int) * (width as int) + (x as int),
            forall|j: int| 0 <= j < k ==> covered@[j] != index,
        decreases covered.len() - k,
    {
        if covered[k] == index {
            assert(covered@.contains(index));
            return;
        }
        k = k + 1;
    }
    assert(!covered@.contains(index));
    covered.push(index);
    let offset = index * 4;
    let (red_index, blue_index): (usize, usize) = match pixel_format {
        PixelFormat::Bgra => (2, 0),
        PixelFormat::Rgba => (0, 2),
        PixelFormat::Nv12 => return,
    };
    let source_alpha = color.alpha as u32;
    let inverse_alpha = 255 - source_alpha;
    let r = blend_channel(data[offset + red_index], color.red, source_alpha, inverse_alpha);
    data.set(offset + red_index, r);
    let g = blend_channel(data[offset + 1], color.green, source_alpha, inverse_alpha);
    data.set(offset + 1, g);
    let b = blend_channel(data[offset + blue_index], color.blue, source_alpha, inverse_alpha);
    data.set(offset + blue_index, b);
    let old_alpha = data[offset + 3] as u32;
    assert(old_alpha * inverse_alpha <= 255 * 255) by (nonlinear_arith)
        requires
            old_alpha <= 255,
            inverse_alpha <= 255,
    ;
    let blended = source_alpha + old_alpha * inverse_alpha / 255;
    let a: u8 = if blended > 255 {
        255
    } else {
        blended as u8
    };
    data.set(offset + 3, a);
}

/// The kinds of annotation element.
#[derive(Debug, Clone, Copy, PartialEq, Eq, Structural)]
pub enum AnnotationElementKind {
    Pen,
    Line,
    Rectangle,
    Ellipse,
    Arrow,
}

pub const MAX_ELEMENTS: usize = 512;

pub const MAX_POINTS_PER_ELEMENT: usize = 4096;

pub const MAX_TOTAL_POINTS: usize = 16_384;

/// What the validation of an annotation document reads of one element: its id, kind and number
/// of points, and the outcome of the checks on its floating-point values (the width is finite
/// and in `(0, 0.1]`; every point has finite coordinates in `[0, 1]`).
#[derive(Debug)]
pub struct AnnotationElementShape {
    pub id: String,
    pub kind: AnnotationElementKind,
    pub point_count: usize,
    pub width_in_range: bool,
    pub points_in_range: bool,
}

/// The fewest points an element of `kind` needs: one for a pen stroke, two for a shape.
pub open spec fn minimum_points(kind: AnnotationElementKind) -> usize {
    match kind {
        AnnotationElementKind::Pen => 1,
        _ => 2,
    }
}

/// The points of the first `k` elements.
pub open spec fn points_total(es: Seq<AnnotationElementShape>, k: int) -> int
    decreases k,
{
    if k <= 0 {
        0
    } else {
        points_total(es, k - 1) + es[k - 1].point_count
    }
}

/// The error of element `i`, the elements before it being valid; `None` where it is valid.
pub open spec fn element_error(es: Seq<AnnotationElementShape>, i: int) -> Option<Seq<char>> {
    let e = es[i];
    if is_blank(e.id@) {
        Some("annotation element id cannot be empty"@)
    } else if exists|j: int| 0 <= j < i && #[trigger] es[j].id@ == e.id@ {
        Some("annotation element id "@ + e.id@ + " is duplicated"@)
    } else if e.point_count > MAX_POINTS_PER_ELEMENT {
        Some("annotation element "@ + e.id@ + " exceeds 4096 points"@)
    } else if points_total(es, i + 1) > MAX_TOTAL_POINTS {
        Some("annotation document exceeds 16384 total points"@)
    } else if e.point_count < minimum_points(e.kind) {
        Some("annotation element "@ + e.id@ + " requires at least "@ + decimal(minimum_points(e.kind) as nat)
            + " points"@)
    } else if !e.width_in_range {
        Some("annotation element "@ + e.id@ + " width must be in (0, 0.1]"@)
    } else if !e.points_in_range {
        Some("annotation element "@ + e.id@ + " points must use finite normalized coordinates"@)
    } else {
        None
    }
}

/// The first error among the first `k` elements.
pub open spec fn elements_error(es: Seq<AnnotationElementShape>, k: int) -> Option<Seq<char>>
    decreases k,
{
    if k <= 0 {
        None
    } else {
        match elements_error(es, k - 1) {
            Some(e) => Some(e),
            None => element_error(es, k - 1),
        }
    }
}

/// The error of a document with elements `es`; `None` where it is valid.
pub open spec fn document_error(es: Seq<AnnotationElementShape>) -> Option<Seq<char>> {
    if es.len() > MAX_ELEMENTS {
        Some("annotation document exceeds 512 elements"@)
    } else {
        elements_error(es, es.len() as int)
    }
}

fn annotation_error(message: Vec<char>) -> (e: CaptureError)
    ensures
        e->payload.code == CaptureErrorCode::InvalidAnnotation,
        e->payload.recoverable,
        e->payload.message@ == message@,
{
    CaptureError::new(CaptureErrorCode::InvalidAnnotation, string_of(&message), true)
}

fn element_message(before: &str, id: &String, after: &str) -> (m: Vec<char>)
    ensures
        m@ == before@ + id@ + after@,
{
    let m = concat_chars(&chars_of(before), &chars_of(id.as_str()));
    concat_chars(&m, &chars_of(after))
}

proof fn lemma_elements_error_stable(es: Seq<AnnotationElementShape>, i: int, k: int)
    requires
        0 <= i <= k,
        elements_error(es, i) is Some,
    ensures
        elements_error(es, k) == elements_error(es, i),
    decreases k - i,
{
    if k > i {
        lemma_elements_error_stable(es, i, k - 1);
    }
}

/// Where the elements before `i` are valid and element `i` is not, its error is the document's.
proof fn lemma_first_error(es: Seq<AnnotationElementShape>, i: int, message: Seq<char>)
    requires
        es.len() <= MAX_ELEMENTS,
        0 <= i < es.len(),
        elements_error(es, i) is None,
        element_error(es, i) == Some(message),
    ensures
        document_error(es) == Some(message),
{
    assert(elements_error(es, i + 1) == Some(message));
    lemma_elements_error_stable(es, i + 1, es.len() as int);
}

/// Checks an annotation document: at most 512 elements; ids not blank and not repeated; at most
/// 4096 points per element and 16384 in all; enough points for the kind; widths and points in
/// range. The first failure is an `InvalidAnnotation` error.
pub fn validate_document_shape(elements: &Vec<AnnotationElementShape>) -> (r: Result<(), CaptureError>)
    ensures
        r is Ok <==> document_error(elements@) is None,
        r matches Err(e) ==> e->payload.code == CaptureErrorCode::InvalidAnnotation && e->payload.recoverable
            && document_error(elements@) == Some(e->payload.message@),
{
    if elements.len() > MAX_ELEMENTS {
        return Err(annotation_error(chars_of("annotation document exceeds 512 elements")));
    }
    let n = elements.len();
    let mut total: usize = 0;
    let mut i: usize = 0;
    while i < n
        invariant
            n == elements@.len(),
            n <= MAX_ELEMENTS,
            i <= n,
            elements_error(elements@, i as int) is None,
            total == points_total(elements@, i as int),
            total <= MAX_TOTAL_POINTS,
        decreases n - i,
    {
        let e = &elements[i];
        let id_chars = chars_of(e.id.as_str());
        if trim(&id_chars).len() == 0 {
            let m = chars_of("annotation element id cannot be empty");
            proof {
                lemma_first_error(elements@, i as int, m@);
            }
            return Err(annotation_error(m));
        }
        let mut j: usize = 0;
        while j < i
            invariant
                i < n,
                n == elements@.len(),
                n <= MAX_ELEMENTS,
                elements_error(elements@, i as int) is None,
                !is_blank(elements@[i as int].id@),
                j <= i,
                id_chars@ == elements@[i as int].id@,
                forall|k: int| 0 <= k < j ==> (#[trigger] elements@[k]).id@ != elements@[i as int].id@,
            decreases i - j,
        {
            let other = chars_of(elements[j].id.as_str());
            if same_chars(&other, &id_chars) {
                let m = element_message("annotation element id ", &elements[i].id, " is duplicated");
                proof {
                    assert(elements@[j as int].id@ == elements@[i as int].id@);
                    lemma_first_error(elements@, i as int, m@);
                }
                return Err(annotation_error(m));
            }
            j = j + 1;
        }
        assert(!(exists|k: int| 0 <= k < i && #[trigger] elements@[k].id@ == elements@[i as int].id@));
        if e.point_count > MAX_POINTS_PER_ELEMENT {
            let m = element_message("annotation element ", &e.id, " exceeds 4096 points");
            proof {
                lemma_first_error(elements@, i as int, m@);
            }
            return Err(annotation_error(m));
        }
        let next_total = total + e.point_count;
        if next_total > MAX_TOTAL_POINTS {
            let m = chars_of("annotation document exceeds 16384 total points");
            proof {
                lemma_first_error(elements@, i as int, m@);
            }
            return Err(annotation_error(m));
        }
        let minimum: usize = match e.kind {
            AnnotationElementKind::Pen => 1,
            _ => 2,
        };
        if e.point_count < minimum {
            let m = element_message("annotation element ", &e.id, " requires at least ");
            let m = concat_chars(&m, &decimal_chars(minimum as u64));
            let m = concat_chars(&m, &chars_of(" points"));
            proof {
                lemma_first_error(elements@, i as int, m@);
            }
            return Err(annotation_error(m));
        }
        if !e.width_in_range {
            let m = element_message("annotation element ", &e.id, " width must be in (0, 0.1]");
            proof {
                lemma_first_error(elements@, i as int, m@);
            }
            return Err(annotation_error(m));
        }
        if !e.points_in_range {
            let m = element_message("annotation element ", &e.id, " points must use finite normalized coordinates");
            proof {
                lemma_first_error(elements@, i as int, m@);
            }
            return Err(annotation_error(m));
        }
        assert(element_error(elements@, i as int) is None);
        total = next_total;
        i = i + 1;
    }
    Ok(())
}

/// What compositing needs to know first: nothing is drawn where the document is hidden or has
/// no elements; else the frame must be BGRA or RGBA and hold four bytes per pixel.
pub open spec fn composite_check_spec(
    visible: bool,
    element_count: nat,
    pixel_format: PixelFormat,
    width: u32,
    height: u32,
    data_len: nat,
) -> Result<bool, Seq<char>> {
    if !visible || element_count == 0 {
        Ok(false)
    } else if pixel_format == PixelFormat::Nv12 {
        Err("annotation compositing requires BGRA or RGBA frames, got Nv12"@)
    } else if data_len != width * height * 4 {
        Err("annotation frame has "@ + decimal(data_len) + " bytes, expected "@ + decimal(
            (width * height * 4) as nat,
        ))
    } else {
        Ok(true)
    }
}

/// Whether a frame is to be painted: `Ok(false)` where nothing is to be drawn, `Ok(true)` where
/// the frame can be painted, else an `InvalidAnnotation` error.
pub fn composite_check(
    visible: bool,
    element_count: usize,
    pixel_format: PixelFormat,
    width: u32,
    height: u32,
    data_len: usize,
) -> (r: Result<bool, CaptureError>)
    requires
        (width as int) * (height as int) * 4 <= usize::MAX,
    ensures
        match r {
            Ok(b) => composite_check_spec(visible, element_count as nat, pixel_format, width, height, data_len as nat)
                == Ok::<bool, Seq<char>>(b),
            Err(e) => e->payload.code == CaptureErrorCode::InvalidAnnotation && e->payload.recoverable
                && composite_check_spec(visible, element_count as nat, pixel_format, width, height, data_len as nat)
                == Err::<bool, Seq<char>>(e->payload.message@),
        },
{
    if !visible || element_count == 0 {
        return Ok(false);
    }
    match pixel_format {
        PixelFormat::Nv12 => {
            return Err(annotation_error(chars_of("annotation compositing requires BGRA or RGBA frames, got Nv12")));
        },
        _ => {},
    }
    let expected: usize = (width as usize) * (height as usize) * 4;
    if data_len != expected {
        let m = concat_chars(&chars_of("annotation frame has "), &decimal_chars(data_len as u64));
        let m = concat_chars(&m, &chars_of(" bytes, expected "));
        let m = concat_chars(&m, &decimal_chars(expected as u64));
        return Err(annotation_error(m));
    }
    Ok(true)
}

} // verus!
