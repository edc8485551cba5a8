//! Screen images as plain pixel grids: pixel colour checks and template
//! search by the sum of absolute differences.
use vstd::prelude::*;
use base64::Engine;

verus! {

/// An RGB image, stored row by row.
pub struct Image {
    width: u32,
    height: u32,
    pixels: Vec<[u8; 3]>,
}

pub open spec fn abs_diff(a: u8, b: u8) -> nat {
    if a >= b { (a - b) as nat } else { (b - a) as nat }
}

/// The sum of the channel differences of two pixels.
pub open spec fn pixel_diff(a: [u8; 3], b: [u8; 3]) -> nat {
    abs_diff(a[0], b[0]) + abs_diff(a[1], b[1]) + abs_diff(a[2], b[2])
}

proof fn lemma_u32_product(a: u32, b: u32)
    ensures
        a * b <= 0xffff_fffe_0000_0001u64,
{
    assert(a * b <= 0xffff_ffffu64 * 0xffff_ffffu64) by (nonlinear_arith)
        requires
            a <= 0xffff_ffffu64,
            b <= 0xffff_ffffu64,
    ;
}

impl Image {
    #[verifier::type_invariant]
    spec fn well_formed(self) -> bool {
        self.pixels@.len() == self.width * self.height
    }

    pub closed spec fn spec_width(self) -> nat {
        self.width as nat
    }

    pub closed spec fn spec_height(self) -> nat {
        self.height as nat
    }

    /// The pixels, row after row.
    pub closed spec fn spec_pixels(self) -> Seq<[u8; 3]> {
        self.pixels@
    }

    /// The pixel in column `x` of row `y`.
    pub open spec fn at(self, x: int, y: int) -> [u8; 3] {
        self.spec_pixels()[y * self.spec_width() + x]
    }

    pub fn width(&self) -> (w: u32)
        ensures
            w == self.spec_width(),
    {
        self.width
    }

    pub fn height(&self) -> (h: u32)
        ensures
            h == self.spec_height(),
    {
        self.height
    }

    /// An image from its pixels, row after row; `None` unless there are
    /// exactly `width * height` of them.
    pub fn from_pixels(width: u32, height: u32, pixels: Vec<[u8; 3]>) -> (r: Option<Image>)
        ensures
            r is Some <==> pixels@.len() == width * height,
            r matches Some(img) ==> img.spec_width() == width && img.spec_height() == height
                && img.spec_pixels() == pixels@,
    {
        proof { lemma_u32_product(width, height); }
        if (width as u64) * (height as u64) == pixels.len() as u64 {
            Some(Image { width, height, pixels })
        } else {
            None
        }
    }

    /// An image from packed bytes, `channels` per pixel (3 for RGB, 4 for
    /// RGBA, whose alpha is dropped); `None` unless the byte count fits.
    pub fn from_bytes(width: u32, height: u32, channels: usize, bytes: &Vec<u8>) -> (r: Option<Image>)
        requires
            channels == 3 || channels == 4,
        ensures
            r is Some <==> bytes@.len() == width * height * channels,
            r matches Some(img) ==> img.spec_width() == width && img.spec_height() == height
                && img.spec_pixels().len() == width * height
                && forall|i: int| 0 <= i < width * height ==> #[trigger] img.spec_pixels()[i]
                    == [bytes@[i * channels], bytes@[i * channels + 1], bytes@[i * channels + 2]],
    {
        proof { lemma_u32_product(width, height); }
        let n = (width as u128) * (height as u128);
        assert(n * channels <= 4 * 0xffff_fffe_0000_0001u128) by (nonlinear_arith)
            requires
                n <= 0xffff_fffe_0000_0001u128,
                channels <= 4,
        ;
        if n * (channels as u128) != bytes.len() as u128 {
            return None;
        }
        assert(n <= n * channels) by (nonlinear_arith)
            requires
                channels >= 3,
        ;
        let n = n as usize;
        let total = bytes.len();
        assert(n * channels == total);
        let mut pixels: Vec<[u8; 3]> = Vec::new();
        let mut i: usize = 0;
        while i < n
            invariant
                i <= n,
                n * channels == bytes@.len(),
                total == bytes@.len(),
                channels == 3 || channels == 4,
                pixels@.len() == i,
                forall|k: int| 0 <= k < i ==> #[trigger] pixels@[k]
                    == [bytes@[k * channels], bytes@[k * channels + 1], bytes@[k * channels + 2]],
            decreases n - i,
        {
            assert(i * channels + channels <= n * channels) by (nonlinear_arith)
                requires
                    i < n,
                    channels >= 3,
            ;
            let base = i * channels;
            pixels.push([bytes[base], bytes[base + 1], bytes[base + 2]]);
            i = i + 1;
        }
        proof {
            assert(n == width * height);
            assert(bytes@.len() == width * height * channels) by (nonlinear_arith)
                requires
                    n * channels == bytes@.len(),
                    n == width * height,
            ;
        }
        Some(Image { width, height, pixels })
    }
}

} // verus!

verus! {

proof fn lemma_index_in_bounds(x: int, y: int, w: int, h: int)
    requires
        0 <= x < w,
        0 <= y < h,
    ensures
        0 <= y * w + x < w * h,
{
    assert(y * w + x < w * h) by (nonlinear_arith)
        requires
            0 <= x < w,
            0 <= y < h,
    ;
    assert(0 <= y * w) by (nonlinear_arith)
        requires
            0 <= y,
            0 <= w,
    ;
}

impl Image {
    /// The pixel in column `x` of row `y`.
    pub fn pixel(&self, x: u32, y: u32) -> (p: [u8; 3])
        requires
            x < self.spec_width(),
            y < self.spec_height(),
        ensures
            p == self.at(x as int, y as int),
    {
        proof {
            use_type_invariant(self);
            lemma_index_in_bounds(x as int, y as int, self.width as int, self.height as int);
        }
        let n = self.pixels.len();
        assert((y as int) * (self.width as int) + (x as int) < n);
        let i = (y as usize) * (self.width as usize) + (x as usize);
        self.pixels[i]
    }
}

fn abs_diff_u8(a: u8, b: u8) -> (d: u8)
    ensures
        d == abs_diff(a, b),
{
    if a >= b { a - b } else { b - a }
}

/// Whether the pixel at (`x`, `y`) lies in the image and each of its channels
/// is within `tolerance` of `target`.
pub open spec fn pixel_matches_spec(img: Image, x: i32, y: i32, target: [u8; 3], tolerance: u8) -> bool {
    &&& 0 <= x < img.spec_width()
    &&& 0 <= y < img.spec_height()
    &&& abs_diff(img.at(x as int, y as int)[0], target[0]) <= tolerance
    &&& abs_diff(img.at(x as int, y as int)[1], target[1]) <= tolerance
    &&& abs_diff(img.at(x as int, y as int)[2], target[2]) <= tolerance
}

/// A pixel matches exactly when it lies in the image and every one of its
/// three channels is within the tolerance of the target's.
pub proof fn law_pixel_match_every_channel(img: Image, x: i32, y: i32, target: [u8; 3], tolerance: u8)
    ensures
        pixel_matches_spec(img, x, y, target, tolerance) <==> {
            &&& 0 <= x < img.spec_width()
            &&& 0 <= y < img.spec_height()
            &&& forall|c: int| 0 <= c < 3 ==> -(tolerance as int) <= #[trigger] img.at(x as int, y as int)[c] - target[c]
                <= tolerance as int
        },
{
    if 0 <= x < img.spec_width() && 0 <= y < img.spec_height() {
        let px = img.at(x as int, y as int);
        if forall|c: int| 0 <= c < 3 ==> -(tolerance as int) <= #[trigger] px[c] - target[c] <= tolerance as int {
            assert(-(tolerance as int) <= px[0] - target[0] <= tolerance as int);
            assert(-(tolerance as int) <= px[1] - target[1] <= tolerance as int);
            assert(-(tolerance as int) <= px[2] - target[2] <= tolerance as int);
        }
    }
}

/// Checks a pixel's colour against a target, channel by channel.
pub fn pixel_matches(img: &Image, x: i32, y: i32, target: [u8; 3], tolerance: u8) -> (r: bool)
    ensures
        r == pixel_matches_spec(*img, x, y, target, tolerance),
{
    if x < 0 || y < 0 {
        return false;
    }
    let (w, h) = (img.width(), img.height());
    if x as u32 >= w || y as u32 >= h {
        return false;
    }
    let px = img.pixel(x as u32, y as u32);
    abs_diff_u8(px[0], target[0]) <= tolerance && abs_diff_u8(px[1], target[1]) <= tolerance
        && abs_diff_u8(px[2], target[2]) <= tolerance
}

/// The error text for negative coordinates.
pub open spec fn negative_coords_message() -> Seq<char> {
    seq!['N', 'e', 'g', 'a', 't', 'i', 'v', 'e', ' ', 'c', 'o', 'o', 'r', 'd', 's']
}

/// The error text for coordinates beyond the image.
pub open spec fn out_of_bounds_message() -> Seq<char> {
    seq!['O', 'u', 't', ' ', 'o', 'f', ' ', 'b', 'o', 'u', 'n', 'd', 's']
}

/// The colour at (`x`, `y`), or why there is none.
pub fn get_pixel_color(img: &Image, x: i32, y: i32) -> (res: Result<[u8; 3], String>)
    ensures
        (x < 0 || y < 0) ==> res is Err && res->Err_0@ == negative_coords_message(),
        (x >= 0 && y >= 0 && (x >= img.spec_width() || y >= img.spec_height())) ==> res is Err
            && res->Err_0@ == out_of_bounds_message(),
        (0 <= x < img.spec_width() && 0 <= y < img.spec_height()) ==> res == Ok::<[u8; 3], String>(
            img.at(x as int, y as int),
        ),
{
    if x < 0 || y < 0 {
        let v = crate::text::chars_of("Negative coords");
        proof { reveal_strlit("Negative coords"); }
        return Err(crate::text::string_from_chars(&v));
    }
    if x as u32 >= img.width() || y as u32 >= img.height() {
        let v = crate::text::chars_of("Out of bounds");
        proof { reveal_strlit("Out of bounds"); }
        return Err(crate::text::string_from_chars(&v));
    }
    Ok(img.pixel(x as u32, y as u32))
}

} // verus!

verus! {

// ── Template matching (sum of absolute differences) ─────────────────────────

/// The differences along the first `k` pixels of template row `ty`, with the
/// template's corner placed at (`x`, `y`) of the haystack.
pub open spec fn row_sad(h: Image, t: Image, x: int, y: int, ty: int, k: int) -> nat
    decreases k,
{
    if k <= 0 {
        0
    } else {
        row_sad(h, t, x, y, ty, k - 1) + pixel_diff(h.at(x + k - 1, y + ty), t.at(k - 1, ty))
    }
}

/// The differences along the first `r` template rows.
pub open spec fn rows_sad(h: Image, t: Image, x: int, y: int, r: int) -> nat
    decreases r,
{
    if r <= 0 {
        0
    } else {
        rows_sad(h, t, x, y, r - 1) + row_sad(h, t, x, y, r - 1, t.spec_width() as int)
    }
}

/// The sum of absolute channel differences between the template and the
/// haystack region whose corner is at (`x`, `y`).
pub open spec fn template_sad(h: Image, t: Image, x: int, y: int) -> nat {
    rows_sad(h, t, x, y, t.spec_height() as int)
}

/// The largest possible difference: every channel of every template pixel
/// off by 255.
pub open spec fn max_sad(t: Image) -> nat {
    t.spec_width() * t.spec_height() * 765
}

/// Where the search looks: left, top, width and height of the area. Without
/// a region, the whole haystack; with region [x, y, w, h], the part of the
/// rectangle from (x, y) of size w by h that lies inside the haystack (empty
/// for a negative size).
pub open spec fn search_area(h: Image, region: Option<[i32; 4]>) -> (int, int, int, int) {
    match region {
        None => (0, 0, h.spec_width() as int, h.spec_height() as int),
        Some(r) => {
            let x0 = if r[0] > 0 { r[0] as int } else { 0 };
            let y0 = if r[1] > 0 { r[1] as int } else { 0 };
            let x1 = if r[0] + r[2] < h.spec_width() { r[0] + r[2] } else { h.spec_width() as int };
            let y1 = if r[1] + r[3] < h.spec_height() { r[1] + r[3] } else { h.spec_height() as int };
            (x0, y0, if x1 > x0 { x1 - x0 } else { 0 }, if y1 > y0 { y1 - y0 } else { 0 })
        },
    }
}

/// The number of template positions tried along a row, and along a column:
/// every placement that lies wholly inside the search area.
pub open spec fn search_counts(h: Image, t: Image, region: Option<[i32; 4]>) -> (int, int) {
    let (sx, sy, sw, sh) = search_area(h, region);
    (
        if sw >= t.spec_width() { sw - t.spec_width() + 1 } else { 0 },
        if sh >= t.spec_height() { sh - t.spec_height() + 1 } else { 0 },
    )
}

/// Offset (`ox`, `oy`) from the corner of the search area is tried.
pub open spec fn is_position(h: Image, t: Image, region: Option<[i32; 4]>, ox: int, oy: int) -> bool {
    let (cw, ch) = search_counts(h, t, region);
    0 <= ox < cw && 0 <= oy < ch
}

/// The difference at offset (`ox`, `oy`) of the search area.
pub open spec fn sad_at_offset(h: Image, t: Image, region: Option<[i32; 4]>, ox: int, oy: int) -> nat {
    let (sx, sy, sw, sh) = search_area(h, region);
    template_sad(h, t, sx + ox, sy + oy)
}

/// (`ox2`, `oy2`) comes before (`ox`, `oy`) when scanning row by row.
pub open spec fn scanned_before(ox2: int, oy2: int, ox: int, oy: int) -> bool {
    oy2 < oy || (oy2 == oy && ox2 < ox)
}

/// The best match: the smallest difference over all positions tried, at the
/// first position (row by row) that has it, reported with the haystack
/// coordinates of the template's centre; none when no position differs by
/// less than the largest possible difference.
pub open spec fn is_best_match(h: Image, t: Image, region: Option<[i32; 4]>, res: Option<(u64, i32, i32)>) -> bool {
    let (sx, sy, sw, sh) = search_area(h, region);
    match res {
        None => forall|ox: int, oy: int| #[trigger] is_position(h, t, region, ox, oy)
            ==> sad_at_offset(h, t, region, ox, oy) >= max_sad(t),
        Some((s, cx, cy)) => exists|ox: int, oy: int| {
            &&& #[trigger] is_position(h, t, region, ox, oy)
            &&& sad_at_offset(h, t, region, ox, oy) == s
            &&& s < max_sad(t)
            &&& cx == (sx + ox + t.spec_width() / 2) as i32
            &&& cy == (sy + oy + t.spec_height() / 2) as i32
            &&& forall|ox2: int, oy2: int| #[trigger] is_position(h, t, region, ox2, oy2)
                ==> sad_at_offset(h, t, region, ox2, oy2) >= s
            &&& forall|ox2: int, oy2: int| #[trigger] is_position(h, t, region, ox2, oy2)
                && scanned_before(ox2, oy2, ox, oy) ==> sad_at_offset(h, t, region, ox2, oy2) > s
        },
    }
}

proof fn lemma_row_sad_bound(h: Image, t: Image, x: int, y: int, ty: int, k: int)
    requires
        0 <= k,
    ensures
        row_sad(h, t, x, y, ty, k) <= 765 * k,
    decreases k,
{
    if k > 0 {
        lemma_row_sad_bound(h, t, x, y, ty, k - 1);
    }
}

proof fn lemma_row_sad_monotone(h: Image, t: Image, x: int, y: int, ty: int, k: int, n: int)
    requires
        0 <= k <= n,
    ensures
        row_sad(h, t, x, y, ty, k) <= row_sad(h, t, x, y, ty, n),
    decreases n - k,
{
    if k < n {
        lemma_row_sad_monotone(h, t, x, y, ty, k, n - 1);
    }
}

proof fn lemma_rows_sad_bound(h: Image, t: Image, x: int, y: int, r: int)
    requires
        0 <= r,
    ensures
        rows_sad(h, t, x, y, r) <= 765 * t.spec_width() * r,
    decreases r,
{
    if r > 0 {
        lemma_rows_sad_bound(h, t, x, y, r - 1);
        lemma_row_sad_bound(h, t, x, y, r - 1, t.spec_width() as int);
        assert(765 * t.spec_width() * (r - 1) + 765 * t.spec_width() == 765 * t.spec_width() * r) by (nonlinear_arith);
    }
}

proof fn lemma_rows_sad_monotone(h: Image, t: Image, x: int, y: int, r: int, n: int)
    requires
        0 <= r <= n,
    ensures
        rows_sad(h, t, x, y, r) <= rows_sad(h, t, x, y, n),
    decreases n - r,
{
    if r < n {
        lemma_rows_sad_monotone(h, t, x, y, r, n - 1);
    }
}

/// The difference at corner (`x`, `y`), or, once the running sum exceeds
/// `limit`, that running sum, which the full difference exceeds as well.
fn sad_at(h: &Image, t: &Image, x: u32, y: u32, limit: u64) -> (r: u64)
    requires
        x + t.spec_width() <= h.spec_width(),
        y + t.spec_height() <= h.spec_height(),
        max_sad(*t) <= u64::MAX,
    ensures
        r == template_sad(*h, *t, x as int, y as int) || (r > limit && template_sad(*h, *t, x as int, y as int) > limit),
{
    let tw = t.width();
    let th = t.height();
    let mut acc: u64 = 0;
    let mut ty: u32 = 0;
    while ty < th
        invariant
            tw == t.spec_width(),
            th == t.spec_height(),
            ty <= th,
            x + tw <= h.spec_width(),
            y + th <= h.spec_height(),
            max_sad(*t) <= u64::MAX,
            acc == rows_sad(*h, *t, x as int, y as int, ty as int),
        decreases th - ty,
    {
        let mut tx: u32 = 0;
        while tx < tw
            invariant
                tw == t.spec_width(),
                th == t.spec_height(),
                ty < th,
                tx <= tw,
                x + tw <= h.spec_width(),
                y + th <= h.spec_height(),
                max_sad(*t) <= u64::MAX,
                acc == rows_sad(*h, *t, x as int, y as int, ty as int) + row_sad(*h, *t, x as int, y as int, ty as int, tx as int),
            decreases tw - tx,
        {
            let hp = h.pixel(x + tx, y + ty);
            let tp = t.pixel(tx, ty);
            proof {
                lemma_rows_sad_bound(*h, *t, x as int, y as int, ty as int);
                lemma_row_sad_bound(*h, *t, x as int, y as int, ty as int, tx + 1);
                assert(765 * tw * ty + 765 * (tx + 1) <= 765 * tw * th) by (nonlinear_arith)
                    requires
                        ty < th,
                        tx < tw,
                ;
                assert(max_sad(*t) == 765 * tw * th) by (nonlinear_arith)
                    requires
                        tw == t.spec_width(),
                        th == t.spec_height(),
                ;
            }
            let d = abs_diff_u8(hp[0], tp[0]) as u64 + abs_diff_u8(hp[1], tp[1]) as u64 + abs_diff_u8(hp[2], tp[2]) as u64;
            acc = acc + d;
            tx = tx + 1;
            if acc > limit {
                proof {
                    lemma_row_sad_monotone(*h, *t, x as int, y as int, ty as int, tx as int, tw as int);
                    lemma_rows_sad_monotone(*h, *t, x as int, y as int, ty + 1, th as int);
                }
                return acc;
            }
        }
        ty = ty + 1;
    }
    acc
}

} // verus!

verus! {

fn search_area_exec(h: &Image, region: Option<[i32; 4]>) -> (res: (u64, u64, u64, u64))
    ensures
        (res.0 as int, res.1 as int, res.2 as int, res.3 as int) == search_area(*h, region),
        res.0 + res.2 <= h.spec_width() || res.2 == 0,
        res.1 + res.3 <= h.spec_height() || res.3 == 0,
{
    let hw = h.width() as i64;
    let hh = h.height() as i64;
    match region {
        None => (0, 0, hw as u64, hh as u64),
        Some(r) => {
            let x0: i64 = if r[0] > 0 { r[0] as i64 } else { 0 };
            let y0: i64 = if r[1] > 0 { r[1] as i64 } else { 0 };
            let x1: i64 = if (r[0] as i64) + (r[2] as i64) < hw { (r[0] as i64) + (r[2] as i64) } else { hw };
            let y1: i64 = if (r[1] as i64) + (r[3] as i64) < hh { (r[1] as i64) + (r[3] as i64) } else { hh };
            let sw: i64 = if x1 > x0 { x1 - x0 } else { 0 };
            let sh: i64 = if y1 > y0 { y1 - y0 } else { 0 };
            (x0 as u64, y0 as u64, sw as u64, sh as u64)
        },
    }
}

/// Finds where the template differs least from the haystack, trying every
/// placement that lies wholly inside the search area, row by row; see
/// `is_best_match`. A template larger than the area has no placement, and
/// the result is then `None`.
pub fn find_template(haystack: &Image, template: &Image, region: Option<[i32; 4]>) -> (res: Option<(u64, i32, i32)>)
    requires
        max_sad(*template) <= u64::MAX,
    ensures
        is_best_match(*haystack, *template, region, res),
{
    let ghost h = *haystack;
    let ghost t = *template;
    let hw = haystack.width() as u64;
    let hh = haystack.height() as u64;
    let tw = template.width() as u64;
    let th = template.height() as u64;
    let (sx, sy, sw, sh) = search_area_exec(haystack, region);
    assert(max_sad(t) == tw * th * 765);
    if tw == 0 || th == 0 {
        assert(max_sad(t) == 0) by (nonlinear_arith)
            requires
                max_sad(t) == tw * th * 765,
                tw == 0 || th == 0,
        ;
        return None;
    }
    let cw: u64 = if sw >= tw { sw - tw + 1 } else { 0 };
    let ch: u64 = if sh >= th { sh - th + 1 } else { 0 };
    assert((cw as int, ch as int) == search_counts(h, t, region));
    let max = tw * th * 765;
    let mut best_sad: u64 = max;
    let mut best_x: i32 = 0;
    let mut best_y: i32 = 0;
    let ghost mut gox: int = 0;
    let ghost mut goy: int = 0;
    let mut oy: u64 = 0;
    while oy < ch
        invariant
            h == *haystack,
            t == *template,
            (sx as int, sy as int, sw as int, sh as int) == search_area(h, region),
            (cw as int, ch as int) == search_counts(h, t, region),
            sw >= tw ==> sx + sw <= hw,
            sh >= th ==> sy + sh <= hh,
            hw == h.spec_width(),
            hh == h.spec_height(),
            tw == t.spec_width(),
            th == t.spec_height(),
            max == max_sad(t),
            max <= u64::MAX,
            oy <= ch,
            best_sad <= max,
            forall|ox2: int, oy2: int| #[trigger] is_position(h, t, region, ox2, oy2) && scanned_before(ox2, oy2, 0, oy as int)
                ==> sad_at_offset(h, t, region, ox2, oy2) >= best_sad,
            best_sad < max ==> {
                &&& is_position(h, t, region, gox, goy)
                &&& scanned_before(gox, goy, 0, oy as int)
                &&& sad_at_offset(h, t, region, gox, goy) == best_sad
                &&& best_x == (sx + gox + tw / 2) as i32
                &&& best_y == (sy + goy + th / 2) as i32
                &&& forall|ox2: int, oy2: int| #[trigger] is_position(h, t, region, ox2, oy2)
                    && scanned_before(ox2, oy2, gox, goy) ==> sad_at_offset(h, t, region, ox2, oy2) > best_sad
            },
        decreases ch - oy,
    {
        let mut ox: u64 = 0;
        while ox < cw
            invariant
                h == *haystack,
                t == *template,
                (sx as int, sy as int, sw as int, sh as int) == search_area(h, region),
                (cw as int, ch as int) == search_counts(h, t, region),
                sw >= tw ==> sx + sw <= hw,
                sh >= th ==> sy + sh <= hh,
                hw == h.spec_width(),
                hh == h.spec_height(),
                tw == t.spec_width(),
                th == t.spec_height(),
                max == max_sad(t),
                max <= u64::MAX,
                oy < ch,
                ox <= cw,
                best_sad <= max,
                forall|ox2: int, oy2: int| #[trigger] is_position(h, t, region, ox2, oy2) && scanned_before(ox2, oy2, ox as int, oy as int)
                    ==> sad_at_offset(h, t, region, ox2, oy2) >= best_sad,
                best_sad < max ==> {
                    &&& is_position(h, t, region, gox, goy)
                    &&& scanned_before(gox, goy, ox as int, oy as int)
                    &&& sad_at_offset(h, t, region, gox, goy) == best_sad
                    &&& best_x == (sx + gox + tw / 2) as i32
                    &&& best_y == (sy + goy + th / 2) as i32
                    &&& forall|ox2: int, oy2: int| #[trigger] is_position(h, t, region, ox2, oy2)
                        && scanned_before(ox2, oy2, gox, goy) ==> sad_at_offset(h, t, region, ox2, oy2) > best_sad
                },
            decreases cw - ox,
        {
            let abs_x = sx + ox;
            let abs_y = sy + oy;
            assert(is_position(h, t, region, ox as int, oy as int));
            let sad = sad_at(haystack, template, abs_x as u32, abs_y as u32, best_sad);
            if sad < best_sad {
                proof {
                    gox = ox as int;
                    goy = oy as int;
                }
                best_sad = sad;
                best_x = (abs_x + tw / 2) as i32;
                best_y = (abs_y + th / 2) as i32;
            }
            ox = ox + 1;
        }
        oy = oy + 1;
    }
    if best_sad < max {
        Some((best_sad, best_x, best_y))
    } else {
        None
    }
}

} // verus!

verus! {

proof fn lemma_row_sad_zero(h: Image, t: Image, x: int, y: int, ty: int, k: int)
    requires
        forall|tx: int| 0 <= tx < k ==> #[trigger] h.at(x + tx, y + ty) == t.at(tx, ty),
    ensures
        row_sad(h, t, x, y, ty, k) == 0,
    decreases k,
{
    if k > 0 {
        lemma_row_sad_zero(h, t, x, y, ty, k - 1);
        assert(h.at(x + (k - 1), y + ty) == t.at(k - 1, ty));
    }
}

proof fn lemma_rows_sad_zero(h: Image, t: Image, x: int, y: int, r: int)
    requires
        forall|tx: int, ty: int| 0 <= tx < t.spec_width() && 0 <= ty < r
            ==> #[trigger] h.at(x + tx, y + ty) == t.at(tx, ty),
    ensures
        rows_sad(h, t, x, y, r) == 0,
    decreases r,
{
    if r > 0 {
        lemma_rows_sad_zero(h, t, x, y, r - 1);
        assert forall|tx: int| 0 <= tx < t.spec_width() implies #[trigger] h.at(x + tx, y + (r - 1)) == t.at(tx, r - 1) by {}
        lemma_row_sad_zero(h, t, x, y, r - 1, t.spec_width() as int);
    }
}

/// A template cut out of the haystack at a position the search tries is
/// found: the best match differs by nothing.
pub proof fn law_cut_out_template_found(h: Image, t: Image, region: Option<[i32; 4]>, res: Option<(u64, i32, i32)>, ox: int, oy: int)
    requires
        is_best_match(h, t, region, res),
        is_position(h, t, region, ox, oy),
        max_sad(t) > 0,
        forall|tx: int, ty: int| 0 <= tx < t.spec_width() && 0 <= ty < t.spec_height()
            ==> #[trigger] h.at(search_area(h, region).0 + ox + tx, search_area(h, region).1 + oy + ty) == t.at(tx, ty),
    ensures
        res matches Some((s, _, _)) && s == 0,
{
    let (sx, sy, sw, sh) = search_area(h, region);
    assert forall|tx: int, ty: int| 0 <= tx < t.spec_width() && 0 <= ty < t.spec_height()
        implies #[trigger] h.at(sx + ox + tx, sy + oy + ty) == t.at(tx, ty) by {
        assert(h.at(search_area(h, region).0 + ox + tx, search_area(h, region).1 + oy + ty) == t.at(tx, ty));
    }
    lemma_rows_sad_zero(h, t, sx + ox, sy + oy, t.spec_height() as int);
    assert(sad_at_offset(h, t, region, ox, oy) == 0);
}

} // verus!

verus! {

// ── Decoding and encoding ────────────────────────────────────────────────────

/// What standard base64 (with padding) decodes the text to, if it is valid.
pub uninterp spec fn base64_decoded(s: Seq<char>) -> Option<Seq<u8>>;

/// The standard base64 text (with padding) of the bytes.
pub uninterp spec fn base64_encoded(b: Seq<u8>) -> Seq<char>;

/// Width, height and RGB bytes of the image that `image::load_from_memory`
/// decodes from the bytes, if it can.
pub uninterp spec fn decoded_rgb(bytes: Seq<u8>) -> Option<(u32, u32, Seq<u8>)>;

/// The PNG file that the `image` crate writes for an RGBA buffer of this
/// size, if writing succeeds.
pub uninterp spec fn png_encoded(width: u32, height: u32, rgba: Seq<u8>) -> Option<Seq<u8>>;

/// Calls `STANDARD.decode` of the `base64` crate; the error becomes its text.
#[verifier::external_body]
fn base64_decode(s: &str) -> (r: Result<Vec<u8>, String>)
    ensures
        r matches Ok(v) ==> base64_decoded(s@) == Some(v@),
        r is Err ==> base64_decoded(s@) is None,
{
    base64::engine::general_purpose::STANDARD.decode(s).map_err(|e| e.to_string())
}

/// Calls `STANDARD.encode` of the `base64` crate; `STANDARD.decode` gives
/// the bytes back.
#[verifier::external_body]
fn base64_encode(b: &[u8]) -> (r: String)
    ensures
        r@ == base64_encoded(b@),
        base64_decoded(r@) == Some(b@),
{
    base64::engine::general_purpose::STANDARD.encode(b)
}

/// Calls `image::load_from_memory` and converts the image to 8-bit RGB; the
/// error becomes its text.
#[verifier::external_body]
fn decode_image_rgb(bytes: &[u8]) -> (r: Result<(u32, u32, Vec<u8>), String>)
    ensures
        r matches Ok((w, h, v)) ==> decoded_rgb(bytes@) == Some((w, h, v@)),
        r is Err ==> decoded_rgb(bytes@) is None,
{
    match image::load_from_memory(bytes) {
        Ok(img) => {
            let rgb = img.to_rgb8();
            Ok((rgb.width(), rgb.height(), rgb.into_raw()))
        },
        Err(e) => Err(e.to_string()),
    }
}

/// Writes an RGBA buffer as PNG with the `image` crate; the error becomes
/// its text.
#[verifier::external_body]
fn encode_png_rgba(width: u32, height: u32, rgba: &Vec<u8>) -> (r: Result<Vec<u8>, String>)
    requires
        rgba@.len() == width * height * 4,
    ensures
        r matches Ok(v) ==> png_encoded(width, height, rgba@) == Some(v@),
        r is Err ==> png_encoded(width, height, rgba@) is None,
{
    let buf = image::RgbaImage::from_raw(width, height, rgba.clone()).unwrap();
    let mut out: Vec<u8> = Vec::new();
    match image::DynamicImage::ImageRgba8(buf).write_to(&mut std::io::Cursor::new(&mut out), image::ImageFormat::Png) {
        Ok(()) => Ok(out),
        Err(e) => Err(e.to_string()),
    }
}

/// The pixels of an RGB byte buffer: three bytes each.
pub open spec fn rgb_pixels(bytes: Seq<u8>, n: int) -> Seq<[u8; 3]> {
    Seq::new(n as nat, |i: int| [bytes[i * 3], bytes[i * 3 + 1], bytes[i * 3 + 2]])
}

/// What decoding a base64 template gives: the image when the text is base64
/// of an image file whose RGB buffer has the expected size.
pub open spec fn template_image_ok(b64: Seq<char>, img: Image) -> bool {
    match base64_decoded(b64) {
        Some(bytes) => match decoded_rgb(bytes) {
            Some((w, h, raw)) => raw.len() == w * h * 3 && img.spec_width() == w && img.spec_height() == h
                && img.spec_pixels() == rgb_pixels(raw, w * h),
            None => false,
        },
        None => false,
    }
}

pub open spec fn template_decodes(b64: Seq<char>) -> bool {
    match base64_decoded(b64) {
        Some(bytes) => match decoded_rgb(bytes) {
            Some((w, h, raw)) => raw.len() == w * h * 3,
            None => false,
        },
        None => false,
    }
}

/// Decodes a template sent as base64 of an image file.
pub fn decode_template(b64: &str) -> (res: Result<Image, String>)
    ensures
        res is Ok <==> template_decodes(b64@),
        res matches Ok(img) ==> template_image_ok(b64@, img),
{
    let bytes = base64_decode(b64)?;
    let (w, h, raw) = decode_image_rgb(bytes.as_slice())?;
    match Image::from_bytes(w, h, 3, &raw) {
        Some(img) => {
            assert(img.spec_pixels() =~= rgb_pixels(raw@, w * h));
            Ok(img)
        },
        None => Err(crate::text::owned("decoded image has an unexpected size")),
    }
}

} // verus!

verus! {

// ── Screen captures ──────────────────────────────────────────────────────────

/// A captured screen: RGBA bytes, row by row.
pub struct Frame {
    width: u32,
    height: u32,
    rgba: Vec<u8>,
}

/// The RGBA bytes of rows `0..rows` of the rectangle at (`x`, `y`), `w` pixels
/// wide, of a frame `fw` pixels wide: each row's run of `w * 4` bytes.
pub open spec fn cropped_rows(rgba: Seq<u8>, fw: int, x: int, y: int, w: int, rows: int) -> Seq<u8>
    decreases rows,
{
    if rows <= 0 {
        Seq::empty()
    } else {
        let start = ((y + rows - 1) * fw + x) * 4;
        cropped_rows(rgba, fw, x, y, w, rows - 1) + rgba.subrange(start, start + w * 4)
    }
}

/// How `crop_imm` of the `image` crate clamps a rectangle to the image: the
/// corner to the image, then the size to what remains.
pub open spec fn clamped(fw: int, fh: int, x: int, y: int, w: int, h: int) -> (int, int, int, int) {
    let cx = if x < fw { x } else { fw };
    let cy = if y < fh { y } else { fh };
    let cw = if w < fw - cx { w } else { fw - cx };
    let ch = if h < fh - cy { h } else { fh - cy };
    (cx, cy, cw, ch)
}

proof fn lemma_row_in_frame(fw: int, fh: int, x: int, y: int, w: int, j: int)
    requires
        0 <= x,
        0 <= w,
        x + w <= fw,
        0 <= y,
        0 <= j,
        y + j < fh,
    ensures
        0 <= ((y + j) * fw + x) * 4,
        ((y + j) * fw + x) * 4 + w * 4 <= fw * fh * 4,
{
    assert(((y + j) * fw + x) * 4 + w * 4 <= fw * fh * 4) by (nonlinear_arith)
        requires
            0 <= x,
            0 <= w,
            x + w <= fw,
            0 <= y + j < fh,
    ;
    assert(0 <= ((y + j) * fw + x) * 4) by (nonlinear_arith)
        requires
            0 <= x,
            0 <= y + j,
            0 <= fw,
    ;
}

impl Frame {
    #[verifier::type_invariant]
    spec fn well_formed(self) -> bool {
        self.rgba@.len() == self.width * self.height * 4
    }

    pub closed spec fn spec_width(self) -> nat {
        self.width as nat
    }

    pub closed spec fn spec_height(self) -> nat {
        self.height as nat
    }

    pub closed spec fn spec_rgba(self) -> Seq<u8> {
        self.rgba@
    }

    /// A frame from RGBA bytes; `None` unless there are `width * height * 4`.
    pub fn from_rgba(width: u32, height: u32, rgba: Vec<u8>) -> (r: Option<Frame>)
        ensures
            r is Some <==> rgba@.len() == width * height * 4,
            r matches Some(f) ==> f.spec_width() == width && f.spec_height() == height && f.spec_rgba() == rgba@,
    {
        proof { lemma_u32_product(width, height); }
        let n = (width as u128) * (height as u128) * 4;
        if n == rgba.len() as u128 {
            Some(Frame { width, height, rgba })
        } else {
            None
        }
    }

    pub fn width(&self) -> (w: u32)
        ensures
            w == self.spec_width(),
    {
        self.width
    }

    pub fn height(&self) -> (h: u32)
        ensures
            h == self.spec_height(),
    {
        self.height
    }

    /// The frame's colours, alpha dropped.
    pub fn to_image(&self) -> (img: Image)
        ensures
            img.spec_width() == self.spec_width(),
            img.spec_height() == self.spec_height(),
            img.spec_pixels().len() == self.spec_width() * self.spec_height(),
            forall|i: int| 0 <= i < self.spec_width() * self.spec_height() ==> #[trigger] img.spec_pixels()[i]
                == [self.spec_rgba()[i * 4], self.spec_rgba()[i * 4 + 1], self.spec_rgba()[i * 4 + 2]],
    {
        proof { use_type_invariant(self); }
        match Image::from_bytes(self.width, self.height, 4, &self.rgba) {
            Some(img) => img,
            None => {
                assert(false);
                Image { width: 0, height: 0, pixels: Vec::new() }
            },
        }
    }

    /// The rectangle at (`x`, `y`) of size `w` by `h`, negative corner
    /// coordinates taken as 0 and the rectangle clamped to the frame as
    /// `crop_imm` clamps it.
    pub fn crop(&self, x: i32, y: i32, w: u32, h: u32) -> (r: Frame)
        ensures
            ({
                let (cx, cy, cw, ch) = clamped(
                    self.spec_width() as int, self.spec_height() as int,
                    if x > 0 { x as int } else { 0 }, if y > 0 { y as int } else { 0 }, w as int, h as int,
                );
                &&& r.spec_width() == cw
                &&& r.spec_height() == ch
                &&& r.spec_rgba() == cropped_rows(self.spec_rgba(), self.spec_width() as int, cx, cy, cw, ch)
            }),
    {
        proof { use_type_invariant(self); }
        let fw = self.width;
        let fh = self.height;
        let x0: u32 = if x > 0 { x as u32 } else { 0 };
        let y0: u32 = if y > 0 { y as u32 } else { 0 };
        let cx = if x0 < fw { x0 } else { fw };
        let cy = if y0 < fh { y0 } else { fh };
        let cw = if w < fw - cx { w } else { fw - cx };
        let ch = if h < fh - cy { h } else { fh - cy };
        let total = self.rgba.len();
        let mut out: Vec<u8> = Vec::new();
        let mut j: u32 = 0;
        while j < ch
            invariant
                j <= ch,
                cy + ch <= fh,
                cx + cw <= fw,
                fw == self.width,
                fh == self.height,
                total == self.rgba@.len(),
                self.rgba@.len() == fw * fh * 4,
                out@ == cropped_rows(self.rgba@, fw as int, cx as int, cy as int, cw as int, j as int),
            decreases ch - j,
        {
            proof { lemma_row_in_frame(fw as int, fh as int, cx as int, cy as int, cw as int, j as int); }
            let start = (((cy + j) as usize) * (fw as usize) + (cx as usize)) * 4;
            let end = start + (cw as usize) * 4;
            let ghost before = out@;
            let mut k = start;
            while k < end
                invariant
                    start <= k <= end <= total,
                    total == self.rgba@.len(),
                    out@ == before + self.rgba@.subrange(start as int, k as int),
                decreases end - k,
            {
                out.push(self.rgba[k]);
                k = k + 1;
                assert(out@ =~= before + self.rgba@.subrange(start as int, k as int));
            }
            j = j + 1;
        }
        proof {
            lemma_cropped_rows_len(self.rgba@, fw as int, fh as int, cx as int, cy as int, cw as int, ch as int);
            assert(cw * ch * 4 == (cw as int) * (ch as int) * 4);
        }
        Frame { width: cw, height: ch, rgba: out }
    }

    /// The frame as a PNG file in base64, as the screenshot commands return it.
    pub fn encode_png_base64(&self) -> (res: Result<String, String>)
        ensures
            png_encoded(self.spec_width() as u32, self.spec_height() as u32, self.spec_rgba()) matches Some(png)
                ==> res is Ok && res->Ok_0@ == base64_encoded(png) && base64_decoded(res->Ok_0@) == Some(png),
            png_encoded(self.spec_width() as u32, self.spec_height() as u32, self.spec_rgba()) is None ==> res is Err,
    {
        proof { use_type_invariant(self); }
        let png = encode_png_rgba(self.width, self.height, &self.rgba)?;
        Ok(base64_encode(png.as_slice()))
    }
}

proof fn lemma_cropped_rows_len(rgba: Seq<u8>, fw: int, fh: int, x: int, y: int, w: int, rows: int)
    requires
        0 <= rows,
        0 <= w,
        0 <= x,
        0 <= y,
        x + w <= fw,
        y + rows <= fh,
        rgba.len() == fw * fh * 4,
    ensures
        cropped_rows(rgba, fw, x, y, w, rows).len() == w * rows * 4,
    decreases rows,
{
    if rows > 0 {
        lemma_cropped_rows_len(rgba, fw, fh, x, y, w, rows - 1);
        lemma_row_in_frame(fw, fh, x, y, w, rows - 1);
        let start = ((y + rows - 1) * fw + x) * 4;
        assert(y + (rows - 1) == y + rows - 1);
        assert(rgba.subrange(start, start + w * 4).len() == w * 4);
        assert(w * (rows - 1) * 4 + w * 4 == w * rows * 4) by (nonlinear_arith);
    } else {
        assert(w * rows * 4 == 0) by (nonlinear_arith)
            requires
                rows == 0,
        ;
    }
}

} // verus!

verus! {

/// Looks for a base64 template on a screen image: the largest possible
/// difference for the template, and the best match as `find_template`
/// reports it. Fails when the template does not decode, or when its sums
/// would leave `u64`.
pub fn find_image_in(screen: &Image, template_b64: &str, region: Option<[i32; 4]>) -> (res: Result<(u64, Option<(u64, i32, i32)>), String>)
    ensures
        !template_decodes(template_b64@) ==> res is Err,
        res matches Ok((max, found)) ==> exists|t: Image| {
            &&& template_image_ok(template_b64@, t)
            &&& max == max_sad(t)
            &&& is_best_match(*screen, t, region, found)
        },
        (template_decodes(template_b64@) && forall|t: Image| template_image_ok(template_b64@, t)
            ==> max_sad(t) <= u64::MAX) ==> res is Ok,
{
    let template = decode_template(template_b64)?;
    let tw32 = template.width();
    let th32 = template.height();
    proof { lemma_u32_product(tw32, th32); }
    let tw = tw32 as u128;
    let th = th32 as u128;
    let max = tw * th * 765;
    if max > u64::MAX as u128 {
        return Err(crate::text::owned("template too large to compare"));
    }
    let found = find_template(screen, &template, region);
    Ok((max as u64, found))
}

} // verus!
