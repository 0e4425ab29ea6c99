//! Feature matching between two grey frames, used to align videos by their content: FAST
//! corners on a coarse grid, BRIEF descriptors of 256 intensity comparisons around each
//! corner, and a count of the corners of one frame that find a clear nearest match among
//! those of the other.
use vstd::prelude::*;

verus! {

/// An 8-bit grey image, rows one after another.
#[derive(Debug)]
pub struct GrayFrame {
    pub width: u32,
    pub height: u32,
    pub pixels: Vec<u8>,
}

impl GrayFrame {
    /// The pixel buffer holds exactly `width × height` values.
    pub open spec fn wf(&self) -> bool {
        self.pixels@.len() == self.width * self.height
    }

    /// The value at column `x` and row `y`.
    pub open spec fn at(&self, x: int, y: int) -> u8 {
        self.pixels@[y * self.width + x]
    }

    /// The value at column `x` and row `y`.
    pub fn get(&self, x: u32, y: u32) -> (r: u8)
        requires
            self.wf(),
            x < self.width,
            y < self.height,
        ensures
            r == self.at(x as int, y as int),
    {
        let w = self.width as usize;
        let n = self.pixels.len();
        proof {
            assert(0 <= (y as int) * (w as int) + (x as int) < (w as int) * (self.height as int)) by (nonlinear_arith)
                requires
                    x < w,
                    y < self.height,
            ;

        }
        self.pixels[(y as usize) * w + (x as usize)]
    }
}

// ---------------------------------------------------------------------------
// FAST corners
// ---------------------------------------------------------------------------

/// The sixteen pixels of the circle of radius three around a candidate, clockwise from
/// the top.
pub open spec fn circle(i: int) -> (int, int) {
    if i == 0 { (0, -3) }
    else if i == 1 { (1, -3) }
    else if i == 2 { (2, -2) }
    else if i == 3 { (3, -1) }
    else if i == 4 { (3, 0) }
    else if i == 5 { (3, 1) }
    else if i == 6 { (2, 2) }
    else if i == 7 { (1, 3) }
    else if i == 8 { (0, 3) }
    else if i == 9 { (-1, 3) }
    else if i == 10 { (-2, 2) }
    else if i == 11 { (-3, 1) }
    else if i == 12 { (-3, 0) }
    else if i == 13 { (-3, -1) }
    else if i == 14 { (-2, -2) }
    else { (-1, -3) }
}

fn circle_offset(i: usize) -> (r: (i64, i64))
    requires
        i < 16,
    ensures
        r.0 == circle(i as int).0,
        r.1 == circle(i as int).1,
{
    match i {
        0 => (0, -3),
        1 => (1, -3),
        2 => (2, -2),
        3 => (3, -1),
        4 => (3, 0),
        5 => (3, 1),
        6 => (2, 2),
        7 => (1, 3),
        8 => (0, 3),
        9 => (-1, 3),
        10 => (-2, 2),
        11 => (-3, 1),
        12 => (-3, 0),
        13 => (-3, -1),
        14 => (-2, -2),
        _ => (-1, -3),
    }
}

pub open spec fn sat_add_u8(a: u8, b: u8) -> int {
    if a + b > 255 { 255 } else { a + b }
}

pub open spec fn sat_sub_u8(a: u8, b: u8) -> int {
    if a - b < 0 { 0 } else { a - b }
}

/// How circle pixel `i` of the candidate at `(x, y)` compares with the centre: `1` when it
/// is brighter than the centre plus `t`, `-1` when it is darker than the centre minus `t`
/// (both saturating at the ends of the range), `0` otherwise.
pub open spec fn circle_class(f: GrayFrame, x: int, y: int, t: u8, i: int) -> int {
    let c = f.at(x, y);
    let p = f.at(x + circle(i).0, y + circle(i).1);
    if p > sat_add_u8(c, t) {
        1
    } else if p < sat_sub_u8(c, t) {
        -1
    } else {
        0
    }
}

/// Nine consecutive circle pixels, from `s` on and wrapping round, all compare as `v`.
pub open spec fn arc_of(f: GrayFrame, x: int, y: int, t: u8, s: int, v: int) -> bool {
    forall|q: int| 0 <= q < 9 ==> #[trigger] circle_class(f, x, y, t, (s + q) % 16) == v
}

/// A FAST corner at threshold `t`: some nine contiguous pixels of the circle are all
/// brighter, or all darker, than the centre.
pub open spec fn fast_corner(f: GrayFrame, x: int, y: int, t: u8) -> bool {
    exists|s: int|
        #![trigger arc_of(f, x, y, t, s, 1)]
        #![trigger arc_of(f, x, y, t, s, -1)]
        0 <= s < 16 && (arc_of(f, x, y, t, s, 1) || arc_of(f, x, y, t, s, -1))
}

/// The circle samples `k - 9 .. k` of the run over the circle and its first nine pixels
/// again (sample `j` is circle pixel `j % 16`) all compare as `v`.
pub open spec fn window_ends(f: GrayFrame, x: int, y: int, t: u8, k: int, v: int) -> bool {
    forall|q: int| k - 9 <= q < k ==> #[trigger] circle_class(f, x, y, t, q % 16) == v
}

pub open spec fn some_window(f: GrayFrame, x: int, y: int, t: u8, k: int) -> bool {
    exists|e: int|
        #![trigger window_ends(f, x, y, t, e, 1)]
        #![trigger window_ends(f, x, y, t, e, -1)]
        9 <= e <= k && (window_ends(f, x, y, t, e, 1) || window_ends(f, x, y, t, e, -1))
}

proof fn lemma_window_is_arc(f: GrayFrame, x: int, y: int, t: u8, e: int, v: int)
    requires
        9 <= e <= 25,
        window_ends(f, x, y, t, e, v),
    ensures
        arc_of(f, x, y, t, (e - 9) % 16, v),
{
    assert forall|q: int| 0 <= q < 9 implies #[trigger] circle_class(f, x, y, t, ((e - 9) % 16 + q) % 16) == v by {
        assert(((e - 9) % 16 + q) % 16 == (e - 9 + q) % 16);
        assert(circle_class(f, x, y, t, (e - 9 + q) % 16) == v);
    }
}

proof fn lemma_arc_is_window(f: GrayFrame, x: int, y: int, t: u8, s: int, v: int)
    requires
        0 <= s < 16,
        arc_of(f, x, y, t, s, v),
    ensures
        window_ends(f, x, y, t, s + 9, v),
{
    assert forall|q: int| s + 9 - 9 <= q < s + 9 implies #[trigger] circle_class(f, x, y, t, q % 16) == v by {
        assert(circle_class(f, x, y, t, (s + (q - s)) % 16) == v);
    }
}

/// Whether the candidate at `(x, y)`, three pixels or more inside the frame, is a FAST
/// corner: the classes of the sixteen circle pixels are walked once round and nine pixels
/// further, keeping the length of the current brighter and darker runs.
fn is_fast_corner(f: &GrayFrame, x: u32, y: u32, t: u8) -> (r: bool)
    requires
        f.wf(),
        3 <= x,
        x + 3 < f.width,
        3 <= y,
        y + 3 < f.height,
    ensures
        r == fast_corner(*f, x as int, y as int, t),
{
    let c = f.get(x, y);
    let hi = c.saturating_add(t);
    let lo = c.saturating_sub(t);
    let mut brighter: u8 = 0;
    let mut darker: u8 = 0;
    let mut max_run: u8 = 0;
    let mut k: usize = 0;
    while k < 25
        invariant
            f.wf(),
            3 <= x,
            x + 3 < f.width,
            3 <= y,
            y + 3 < f.height,
            c == f.at(x as int, y as int),
            hi == sat_add_u8(c, t),
            lo == sat_sub_u8(c, t),
            k <= 25,
            brighter <= k,
            darker <= k,
            max_run <= k,
            forall|q: int| k - brighter <= q < k ==> #[trigger] circle_class(*f, x as int, y as int, t, q % 16) == 1,
            brighter < k ==> circle_class(*f, x as int, y as int, t, (k - 1 - brighter) % 16) != 1,
            forall|q: int| k - darker <= q < k ==> #[trigger] circle_class(*f, x as int, y as int, t, q % 16) == -1,
            darker < k ==> circle_class(*f, x as int, y as int, t, (k - 1 - darker) % 16) != -1,
            (max_run >= 9) <==> some_window(*f, x as int, y as int, t, k as int),
        decreases 25 - k,
    {
        let i = k % 16;
        let (dx, dy) = circle_offset(i);
        let px = (x as i64 + dx) as u32;
        let py = (y as i64 + dy) as u32;
        let p = f.get(px, py);
        let ghost cls = circle_class(*f, x as int, y as int, t, k as int % 16);
        let ghost old_max = max_run;
        let ghost old_b = brighter;
        let ghost old_d = darker;
        if p > hi {
            brighter = brighter + 1;
            darker = 0;
            if brighter > max_run {
                max_run = brighter;
            }
        } else if p < lo {
            darker = darker + 1;
            brighter = 0;
            if darker > max_run {
                max_run = darker;
            }
        } else {
            brighter = 0;
            darker = 0;
        }
        proof {
            let ff = *f;
            let xi = x as int;
            let yi = y as int;
            let k1 = (k + 1) as int;
            assert(p == ff.at(xi + circle(k as int % 16).0, yi + circle(k as int % 16).1));
            // a window ending at k + 1 is a run of nine ending there
            if some_window(ff, xi, yi, t, k1) {
                let e = choose|e: int|
                    #![trigger window_ends(ff, xi, yi, t, e, 1)]
                    #![trigger window_ends(ff, xi, yi, t, e, -1)]
                    9 <= e <= k1 && (window_ends(ff, xi, yi, t, e, 1) || window_ends(ff, xi, yi, t, e, -1));
                if e < k1 {
                    assert(some_window(ff, xi, yi, t, k as int));
                } else if window_ends(ff, xi, yi, t, e, 1) {
                    assert(circle_class(ff, xi, yi, t, k as int % 16) == 1);
                    if old_b < 8 {
                        let q = k - 1 - old_b;
                        assert(k1 - 9 <= q < k1);
                        assert(circle_class(ff, xi, yi, t, q % 16) == 1);
                    }
                } else {
                    assert(window_ends(ff, xi, yi, t, e, -1));
                    assert(circle_class(ff, xi, yi, t, k as int % 16) == -1);
                    if old_d < 8 {
                        let q = k - 1 - old_d;
                        assert(k1 - 9 <= q < k1);
                        assert(circle_class(ff, xi, yi, t, q % 16) == -1);
                    }
                }
            }
            if max_run >= 9 {
                if old_max >= 9 {
                    assert(some_window(ff, xi, yi, t, k as int));
                    assert(some_window(ff, xi, yi, t, k1));
                } else if brighter >= 9 {
                    assert(window_ends(ff, xi, yi, t, k1, 1));
                    assert(some_window(ff, xi, yi, t, k1));
                } else {
                    assert(darker >= 9);
                    assert(window_ends(ff, xi, yi, t, k1, -1));
                    assert(some_window(ff, xi, yi, t, k1));
                }
            }
        }
        k += 1;
    }
    proof {
        let ff = *f;
        let xi = x as int;
        let yi = y as int;
        if max_run >= 9 {
            let e = choose|e: int|
                #![trigger window_ends(ff, xi, yi, t, e, 1)]
                #![trigger window_ends(ff, xi, yi, t, e, -1)]
                9 <= e <= 25 && (window_ends(ff, xi, yi, t, e, 1) || window_ends(ff, xi, yi, t, e, -1));
            if window_ends(ff, xi, yi, t, e, 1) {
                lemma_window_is_arc(ff, xi, yi, t, e, 1);
                assert(arc_of(ff, xi, yi, t, (e - 9) % 16, 1));
            } else {
                lemma_window_is_arc(ff, xi, yi, t, e, -1);
                assert(arc_of(ff, xi, yi, t, (e - 9) % 16, -1));
            }
        }
        if fast_corner(ff, xi, yi, t) {
            let s = choose|s: int|
                #![trigger arc_of(ff, xi, yi, t, s, 1)]
                #![trigger arc_of(ff, xi, yi, t, s, -1)]
                0 <= s < 16 && (arc_of(ff, xi, yi, t, s, 1) || arc_of(ff, xi, yi, t, s, -1));
            if arc_of(ff, xi, yi, t, s, 1) {
                lemma_arc_is_window(ff, xi, yi, t, s, 1);
                assert(window_ends(ff, xi, yi, t, s + 9, 1));
            } else {
                lemma_arc_is_window(ff, xi, yi, t, s, -1);
                assert(window_ends(ff, xi, yi, t, s + 9, -1));
            }
            assert(some_window(ff, xi, yi, t, 25));
        }
    }
    max_run >= 9
}


/// The corners of row `y` among the candidates from column `x` on, every fourth column,
/// while three pixels of margin remain on the right.
pub open spec fn row_corners(f: GrayFrame, t: u8, y: int, x: int) -> Seq<(u32, u32)>
    decreases f.width - x,
{
    if x + 3 >= f.width {
        Seq::empty()
    } else {
        let rest = row_corners(f, t, y, x + 4);
        if fast_corner(f, x, y, t) {
            seq![(x as u32, y as u32)] + rest
        } else {
            rest
        }
    }
}

/// The corners of the candidate rows from `y` on, every fourth row, while three pixels of
/// margin remain at the bottom; each row from column 3.
pub open spec fn grid_corners(f: GrayFrame, t: u8, y: int) -> Seq<(u32, u32)>
    decreases f.height - y,
{
    if y + 3 >= f.height {
        Seq::empty()
    } else {
        row_corners(f, t, y, 3) + grid_corners(f, t, y + 4)
    }
}

/// The FAST corners of a frame at threshold `t`, looked for every fourth pixel from
/// `(3, 3)` in scan order, the first `max_pts` of them; none in a frame narrower or lower
/// than 16 pixels.
pub open spec fn fast_points(f: GrayFrame, t: u8, max_pts: int) -> Seq<(u32, u32)> {
    if f.width < 16 || f.height < 16 {
        Seq::empty()
    } else {
        let all = grid_corners(f, t, 3);
        if all.len() <= max_pts {
            all
        } else {
            all.subrange(0, max_pts)
        }
    }
}

/// The FAST corners of `f` at threshold `t`, at most `max_pts` of them.
pub fn detect_fast(f: &GrayFrame, t: u8, max_pts: usize) -> (r: Vec<(u32, u32)>)
    requires
        f.wf(),
    ensures
        r@ == fast_points(*f, t, max_pts as int),
{
    let mut pts: Vec<(u32, u32)> = Vec::new();
    let w = f.width;
    let h = f.height;
    if w < 16 || h < 16 {
        return pts;
    }
    let mut y: u32 = 3;
    while y < h - 3
        invariant
            f.wf(),
            w == f.width,
            h == f.height,
            w >= 16,
            h >= 16,
            3 <= y <= h + 1,
            pts@ + grid_corners(*f, t, y as int) == grid_corners(*f, t, 3),
        decreases h - y,
    {
        let mut x: u32 = 3;
        while x < w - 3
            invariant
                f.wf(),
                w == f.width,
                h == f.height,
                w >= 16,
                h >= 16,
                3 <= y,
                y + 3 < h,
                3 <= x <= w + 1,
                pts@ + row_corners(*f, t, y as int, x as int) + grid_corners(*f, t, y + 4) == grid_corners(*f, t, 3),
            decreases w - x,
        {
            let ghost before = pts@;
            if is_fast_corner(f, x, y, t) {
                pts.push((x, y));
                proof {
                    assert(pts@ + row_corners(*f, t, y as int, x + 4) =~= before + row_corners(*f, t, y as int, x as int));
                }
            } else {
                assert(pts@ + row_corners(*f, t, y as int, x + 4) =~= before + row_corners(*f, t, y as int, x as int));
            }
            x = x + 4;
        }
        proof {
            assert(row_corners(*f, t, y as int, x as int) =~= Seq::<(u32, u32)>::empty());
            assert(pts@ + row_corners(*f, t, y as int, x as int) =~= pts@);
            assert(pts@ + grid_corners(*f, t, y + 4) =~= grid_corners(*f, t, 3));
        }
        y = y + 4;
    }
    proof {
        assert(grid_corners(*f, t, y as int) =~= Seq::<(u32, u32)>::empty());
        assert(pts@ =~= grid_corners(*f, t, 3));
    }
    let ghost all = pts@;
    pts.truncate(max_pts);
    proof {
        if all.len() == max_pts {
            assert(grid_corners(*f, t, 3).subrange(0, max_pts as int) =~= grid_corners(*f, t, 3));
        }
    }
    pts
}


// ---------------------------------------------------------------------------
// BRIEF descriptors
// ---------------------------------------------------------------------------

pub open spec fn clamp_int(v: int, lo: int, hi: int) -> int {
    if v < lo {
        lo
    } else if v > hi {
        hi
    } else {
        v
    }
}

/// The two offsets, `(ax, ay)` and `(bx, by)`, that bit `i` of a descriptor compares: a
/// fixed scatter over `[-15, 15]²`.
pub open spec fn brief_pair(i: int) -> (int, int, int, int) {
    ((i * 37 + 11) % 31 - 15, (i * 91 + 7) % 31 - 15, (i * 53 + 19) % 31 - 15, (i * 17 + 29) % 31 - 15)
}

/// Bit `i` of the descriptor of the point `(x, y)`: whether the pixel at the first offset
/// of pair `i` is darker than the one at the second, each position clamped into the frame.
pub open spec fn brief_bit(f: GrayFrame, x: int, y: int, i: int) -> bool {
    let (ax, ay, bx, by) = brief_pair(i);
    let mw = f.width - 1;
    let mh = f.height - 1;
    f.at(clamp_int(x + ax, 0, mw), clamp_int(y + ay, 0, mh)) < f.at(clamp_int(x + bx, 0, mw), clamp_int(y + by, 0, mh))
}

/// Bit `j` (from the least significant) of the byte `b`.
pub open spec fn bit_set(b: u8, j: u8) -> bool {
    (b >> j) & 1u8 == 1u8
}

/// Bit `i` of a descriptor stored as bytes, eight bits a byte from the low end.
pub open spec fn desc_bit(d: Seq<u8>, i: int) -> bool {
    bit_set(d[i / 8], (i % 8) as u8)
}

proof fn lemma_set_bit(b: u8, j: u8, m: u8)
    requires
        j < 8,
        m < 8,
    ensures
        bit_set(b | (1u8 << j), m) == (m == j || bit_set(b, m)),
{
    assert(((b | (1u8 << j)) >> m) & 1u8 == 1u8 <==> (m == j || (b >> m) & 1u8 == 1u8)) by (bit_vector)
        requires
            j < 8,
            m < 8,
    ;
}

proof fn lemma_zero_bits(m: u8)
    requires
        m < 8,
    ensures
        !bit_set(0u8, m),
{
    assert((0u8 >> m) & 1u8 != 1u8) by (bit_vector)
        requires
            m < 8,
    ;
}

proof fn lemma_xor_bit(a: u8, b: u8, m: u8)
    requires
        m < 8,
    ensures
        bit_set(a ^ b, m) == (bit_set(a, m) != bit_set(b, m)),
{
    assert((((a ^ b) >> m) & 1u8 == 1u8) == (((a >> m) & 1u8 == 1u8) != ((b >> m) & 1u8 == 1u8))) by (bit_vector)
        requires
            m < 8,
    ;
}

fn clamp_coord(v: i64, hi: i64) -> (r: i64)
    requires
        hi >= 0,
    ensures
        r == clamp_int(v as int, 0, hi as int),
{
    if v < 0 {
        0
    } else if v > hi {
        hi
    } else {
        v
    }
}

/// The 256-bit BRIEF descriptor of the point `(x, y)`, as 32 bytes.
pub fn brief_desc(f: &GrayFrame, x: u32, y: u32) -> (r: Vec<u8>)
    requires
        f.wf(),
        f.width >= 1,
        f.height >= 1,
    ensures
        r@.len() == 32,
        forall|i: int| 0 <= i < 256 ==> #[trigger] desc_bit(r@, i) == brief_bit(*f, x as int, y as int, i),
{
    let mut out: Vec<u8> = Vec::new();
    let mut k: usize = 0;
    while k < 32
        invariant
            k <= 32,
            out@.len() == k,
            forall|j: int| 0 <= j < k ==> out@[j] == 0u8,
        decreases 32 - k,
    {
        out.push(0u8);
        k += 1;
    }
    proof {
        assert forall|i: int| 0 <= i < 256 implies !(#[trigger] desc_bit(out@, i)) by {
            lemma_zero_bits((i % 8) as u8);
            assert(out@[i / 8] == 0u8);
        }
    }
    let mw: i64 = f.width as i64 - 1;
    let mh: i64 = f.height as i64 - 1;
    let xi = x as i64;
    let yi = y as i64;
    let mut bit: usize = 0;
    while bit < 256
        invariant
            f.wf(),
            f.width >= 1,
            f.height >= 1,
            mw == f.width - 1,
            mh == f.height - 1,
            xi == x,
            yi == y,
            bit <= 256,
            out@.len() == 32,
            forall|i: int| 0 <= i < bit ==> #[trigger] desc_bit(out@, i) == brief_bit(*f, x as int, y as int, i),
            forall|i: int| bit <= i < 256 ==> !(#[trigger] desc_bit(out@, i)),
        decreases 256 - bit,
    {
        let bi = bit as i64;
        let ax = (bi * 37 + 11) % 31 - 15;
        let ay = (bi * 91 + 7) % 31 - 15;
        let bx = (bi * 53 + 19) % 31 - 15;
        let by = (bi * 17 + 29) % 31 - 15;
        let x1 = clamp_coord(xi + ax, mw);
        let y1 = clamp_coord(yi + ay, mh);
        let x2 = clamp_coord(xi + bx, mw);
        let y2 = clamp_coord(yi + by, mh);
        let v1 = f.get(x1 as u32, y1 as u32);
        let v2 = f.get(x2 as u32, y2 as u32);
        let ghost before = out@;
        let byte = bit / 8;
        let j = (bit % 8) as u8;
        if v1 < v2 {
            let nb = out[byte] | (1u8 << j);
            out.set(byte, nb);
        }
        proof {
            assert(brief_bit(*f, x as int, y as int, bit as int) == (v1 < v2));
            assert forall|i: int| 0 <= i < 256 implies #[trigger] desc_bit(out@, i) == (if i == bit {
                v1 < v2
            } else {
                desc_bit(before, i)
            }) by {
                let m = (i % 8) as u8;
                if v1 < v2 {
                    lemma_set_bit(before[byte as int], j, m);
                    if i / 8 == byte as int {
                        assert(i == bit <==> m == j);
                    }
                } else if i == bit {
                    lemma_zero_bits(j);
                    assert(!desc_bit(before, i));
                }
            }
        }
        bit += 1;
    }
    out
}

/// How many of the first `n` bits differ between the descriptors `a` and `b`.
pub open spec fn bits_differ(a: Seq<u8>, b: Seq<u8>, n: nat) -> nat
    decreases n,
{
    if n == 0 {
        0
    } else {
        bits_differ(a, b, (n - 1) as nat) + if desc_bit(a, n - 1) != desc_bit(b, n - 1) {
            1nat
        } else {
            0
        }
    }
}

proof fn lemma_bits_differ_bounded(a: Seq<u8>, b: Seq<u8>, n: nat)
    ensures
        bits_differ(a, b, n) <= n,
    decreases n,
{
    if n > 0 {
        lemma_bits_differ_bounded(a, b, (n - 1) as nat);
    }
}

/// A descriptor is at distance zero from itself.
pub proof fn law_distance_to_self_is_zero(a: Seq<u8>, n: nat)
    ensures
        bits_differ(a, a, n) == 0,
    decreases n,
{
    if n > 0 {
        law_distance_to_self_is_zero(a, (n - 1) as nat);
    }
}

/// The distance between two descriptors does not depend on their order.
pub proof fn law_distance_is_symmetric(a: Seq<u8>, b: Seq<u8>, n: nat)
    ensures
        bits_differ(a, b, n) == bits_differ(b, a, n),
    decreases n,
{
    if n > 0 {
        law_distance_is_symmetric(a, b, (n - 1) as nat);
    }
}

/// The Hamming distance of two 256-bit descriptors: how many of their bits differ.
pub fn hamming(a: &Vec<u8>, b: &Vec<u8>) -> (r: u32)
    requires
        a@.len() == 32,
        b@.len() == 32,
    ensures
        r == bits_differ(a@, b@, 256),
{
    let mut d: u32 = 0;
    let mut k: usize = 0;
    while k < 32
        invariant
            a@.len() == 32,
            b@.len() == 32,
            k <= 32,
            d == bits_differ(a@, b@, (8 * k) as nat),
        decreases 32 - k,
    {
        let x = a[k] ^ b[k];
        let mut j: u8 = 0;
        while j < 8
            invariant
                a@.len() == 32,
                b@.len() == 32,
                k < 32,
                j <= 8,
                x == a@[k as int] ^ b@[k as int],
                d == bits_differ(a@, b@, (8 * k + j) as nat),
            decreases 8 - j,
        {
            proof {
                lemma_bits_differ_bounded(a@, b@, (8 * k + j) as nat);
                lemma_xor_bit(a@[k as int], b@[k as int], j);
                let i = 8 * k + j;
                assert(i / 8 == k as int);
                assert(i % 8 == j as int);
            }
            if (x >> j) & 1u8 == 1u8 {
                d = d + 1;
            }
            j += 1;
        }
        k += 1;
    }
    d
}


// ---------------------------------------------------------------------------
// Matching
// ---------------------------------------------------------------------------

/// How many of the first `n` descriptor bits differ between the point `pa` of frame `a` and
/// the point `pb` of frame `b`.
pub open spec fn brief_diff(a: GrayFrame, pa: (u32, u32), b: GrayFrame, pb: (u32, u32), n: nat) -> nat
    decreases n,
{
    if n == 0 {
        0
    } else {
        brief_diff(a, pa, b, pb, (n - 1) as nat) + if brief_bit(a, pa.0 as int, pa.1 as int, n - 1) != brief_bit(
            b,
            pb.0 as int,
            pb.1 as int,
            n - 1,
        ) {
            1nat
        } else {
            0
        }
    }
}

/// The Hamming distance between the descriptors of `pa` in `a` and `pb` in `b`, one entry
/// per point of `kb`.
pub open spec fn distances(a: GrayFrame, pa: (u32, u32), b: GrayFrame, kb: Seq<(u32, u32)>) -> Seq<u32> {
    Seq::new(kb.len(), |j: int| brief_diff(a, pa, b, kb[j], 256) as u32)
}

/// The smallest and the second smallest of `ds`, a repeated smallest value counting twice;
/// `u32::MAX` stands for a value that is missing.
pub open spec fn two_smallest(ds: Seq<u32>) -> (u32, u32)
    decreases ds.len(),
{
    if ds.len() == 0 {
        (u32::MAX, u32::MAX)
    } else {
        let (best, second) = two_smallest(ds.drop_last());
        let d = ds.last();
        if d < best {
            (d, best)
        } else if d < second {
            (best, d)
        } else {
            (best, second)
        }
    }
}

/// The point `pa` of `a` has a clear match among the points `kb` of `b`: its nearest
/// descriptor is closer than 48 bits, and either there is no second one or the nearest is
/// under four fifths of the second nearest.
pub open spec fn clear_match(a: GrayFrame, pa: (u32, u32), b: GrayFrame, kb: Seq<(u32, u32)>) -> bool {
    let (best, second) = two_smallest(distances(a, pa, b, kb));
    best < 48 && (second == u32::MAX || 4 * best < 5 * second)
}

/// How many of the first `n` points of `ka` have a clear match among `kb`.
pub open spec fn count_clear(a: GrayFrame, ka: Seq<(u32, u32)>, b: GrayFrame, kb: Seq<(u32, u32)>, n: nat) -> nat
    decreases n,
{
    if n == 0 {
        0
    } else {
        count_clear(a, ka, b, kb, (n - 1) as nat) + if clear_match(a, ka[n - 1], b, kb) {
            1nat
        } else {
            0
        }
    }
}

/// How many FAST corners of `a` (threshold 20, at most 80) find a clear match among those
/// of `b`; none when either frame has fewer than four corners.
pub open spec fn brief_inliers(a: GrayFrame, b: GrayFrame) -> nat {
    let ka = fast_points(a, 20, 80);
    let kb = fast_points(b, 20, 80);
    if ka.len() < 4 || kb.len() < 4 {
        0
    } else {
        count_clear(a, ka, b, kb, ka.len())
    }
}

proof fn lemma_hamming_is_brief_diff(da: Seq<u8>, db: Seq<u8>, a: GrayFrame, pa: (u32, u32), b: GrayFrame, pb: (u32, u32), n: nat)
    requires
        n <= 256,
        forall|i: int| 0 <= i < 256 ==> #[trigger] desc_bit(da, i) == brief_bit(a, pa.0 as int, pa.1 as int, i),
        forall|i: int| 0 <= i < 256 ==> #[trigger] desc_bit(db, i) == brief_bit(b, pb.0 as int, pb.1 as int, i),
    ensures
        bits_differ(da, db, n) == brief_diff(a, pa, b, pb, n),
        brief_diff(a, pa, b, pb, n) <= n,
    decreases n,
{
    if n > 0 {
        lemma_hamming_is_brief_diff(da, db, a, pa, b, pb, (n - 1) as nat);
        assert(desc_bit(da, n - 1) == brief_bit(a, pa.0 as int, pa.1 as int, n - 1));
        assert(desc_bit(db, n - 1) == brief_bit(b, pb.0 as int, pb.1 as int, n - 1));
    }
}

proof fn lemma_fast_points_need_size(f: GrayFrame, t: u8, m: int)
    ensures
        fast_points(f, t, m).len() > 0 ==> f.width >= 16 && f.height >= 16,
{
}

/// The descriptors of the points `pts` of `f`, in order.
fn descriptors(f: &GrayFrame, pts: &Vec<(u32, u32)>) -> (r: Vec<Vec<u8>>)
    requires
        f.wf(),
        f.width >= 1,
        f.height >= 1,
    ensures
        r@.len() == pts@.len(),
        forall|j: int| 0 <= j < pts@.len() ==> (#[trigger] r@[j])@.len() == 32,
        forall|j: int, i: int|
            0 <= j < pts@.len() && 0 <= i < 256 ==> #[trigger] desc_bit(r@[j]@, i) == brief_bit(
                *f,
                pts@[j].0 as int,
                pts@[j].1 as int,
                i,
            ),
{
    let mut out: Vec<Vec<u8>> = Vec::new();
    let mut j: usize = 0;
    while j < pts.len()
        invariant
            f.wf(),
            f.width >= 1,
            f.height >= 1,
            j <= pts@.len(),
            out@.len() == j,
            forall|q: int| 0 <= q < j ==> (#[trigger] out@[q])@.len() == 32,
            forall|q: int, i: int|
                0 <= q < j && 0 <= i < 256 ==> #[trigger] desc_bit(out@[q]@, i) == brief_bit(
                    *f,
                    pts@[q].0 as int,
                    pts@[q].1 as int,
                    i,
                ),
        decreases pts@.len() - j,
    {
        let (x, y) = pts[j];
        let d = brief_desc(f, x, y);
        out.push(d);
        j += 1;
    }
    out
}

/// How many FAST corners of `a` find a clear match among the corners of `b` by the
/// Hamming distance of their BRIEF descriptors.
pub fn match_brief_inliers(a: &GrayFrame, b: &GrayFrame) -> (r: usize)
    requires
        a.wf(),
        b.wf(),
    ensures
        r == brief_inliers(*a, *b),
{
    let ka = detect_fast(a, 20, 80);
    let kb = detect_fast(b, 20, 80);
    if ka.len() < 4 || kb.len() < 4 {
        return 0;
    }
    proof {
        lemma_fast_points_need_size(*a, 20, 80);
        lemma_fast_points_need_size(*b, 20, 80);
    }
    let da = descriptors(a, &ka);
    let db = descriptors(b, &kb);
    let mut good: usize = 0;
    let mut i: usize = 0;
    while i < da.len()
        invariant
            da@.len() == ka@.len(),
            db@.len() == kb@.len(),
            ka@ == fast_points(*a, 20, 80),
            kb@ == fast_points(*b, 20, 80),
            forall|j: int| 0 <= j < ka@.len() ==> (#[trigger] da@[j])@.len() == 32,
            forall|j: int, q: int|
                0 <= j < ka@.len() && 0 <= q < 256 ==> #[trigger] desc_bit(da@[j]@, q) == brief_bit(
                    *a,
                    ka@[j].0 as int,
                    ka@[j].1 as int,
                    q,
                ),
            forall|j: int| 0 <= j < kb@.len() ==> (#[trigger] db@[j])@.len() == 32,
            forall|j: int, q: int|
                0 <= j < kb@.len() && 0 <= q < 256 ==> #[trigger] desc_bit(db@[j]@, q) == brief_bit(
                    *b,
                    kb@[j].0 as int,
                    kb@[j].1 as int,
                    q,
                ),
            i <= da@.len(),
            good <= i,
            good == count_clear(*a, ka@, *b, kb@, i as nat),
        decreases da@.len() - i,
    {
        let ghost ds = distances(*a, ka@[i as int], *b, kb@);
        let mut best: u32 = u32::MAX;
        let mut second: u32 = u32::MAX;
        let mut j: usize = 0;
        while j < db.len()
            invariant
                i < da@.len(),
                da@.len() == ka@.len(),
                db@.len() == kb@.len(),
                ds == distances(*a, ka@[i as int], *b, kb@),
                (da@[i as int])@.len() == 32,
                forall|q: int| 0 <= q < 256 ==> #[trigger] desc_bit((da@[i as int])@, q) == brief_bit(
                    *a,
                    ka@[i as int].0 as int,
                    ka@[i as int].1 as int,
                    q,
                ),
                forall|jj: int| 0 <= jj < kb@.len() ==> (#[trigger] db@[jj])@.len() == 32,
                forall|jj: int, q: int|
                    0 <= jj < kb@.len() && 0 <= q < 256 ==> #[trigger] desc_bit(db@[jj]@, q) == brief_bit(
                        *b,
                        kb@[jj].0 as int,
                        kb@[jj].1 as int,
                        q,
                    ),
                j <= db@.len(),
                (best, second) == two_smallest(ds.subrange(0, j as int)),
            decreases db@.len() - j,
        {
            let dist = hamming(&da[i], &db[j]);
            proof {
                lemma_hamming_is_brief_diff(
                    da@[i as int]@,
                    db@[j as int]@,
                    *a,
                    ka@[i as int],
                    *b,
                    kb@[j as int],
                    256,
                );
                assert(dist == ds[j as int]);
                assert(ds.subrange(0, j + 1).drop_last() =~= ds.subrange(0, j as int));
                assert(ds.subrange(0, j + 1).last() == ds[j as int]);
            }
            if dist < best {
                second = best;
                best = dist;
            } else if dist < second {
                second = dist;
            }
            j += 1;
        }
        proof {
            assert(ds.subrange(0, j as int) =~= ds);
        }
        if best < 48 && (second == u32::MAX || (best as u64) * 4 < (second as u64) * 5) {
            good += 1;
        }
        i += 1;
    }
    good
}


// ---------------------------------------------------------------------------
// Lag search over frame sequences
// ---------------------------------------------------------------------------

/// The largest offset, in milliseconds, that alignment considers.
pub const MAX_LAG_MS: i64 = 15000;

/// How many sampling steps either side of the seed the feature search tries.
pub const FEATURE_CANDIDATE_STEPS: i64 = 8;

/// The outcome of a feature lag search: the offset of the best candidate, its score and the
/// score of the runner-up.
#[derive(Debug, Clone, Copy, PartialEq, Eq, Structural)]
pub struct FeatureLag {
    pub offset_ms: i64,
    pub best_score: usize,
    pub second_score: usize,
}

/// The clear matches at anchor `k` (0, 1 or 2) for a lag of `lag_steps` frames: the
/// reference frame a quarter, a half or three quarters into the common length, against the
/// other sequence's frame `lag_steps` later, clamped into that sequence.
pub open spec fn anchor_score(refs: Seq<GrayFrame>, oths: Seq<GrayFrame>, lag_steps: int, k: int) -> nat {
    let n = if refs.len() < oths.len() { refs.len() } else { oths.len() };
    let ri = (n / 4) * (k + 1);
    if ri >= refs.len() {
        0
    } else {
        brief_inliers(refs[ri], oths[clamp_int(ri + lag_steps, 0, oths.len() - 1)])
    }
}

/// The score of a lag: the clear matches at the three anchors together.
pub open spec fn lag_score(refs: Seq<GrayFrame>, oths: Seq<GrayFrame>, lag_steps: int) -> nat {
    anchor_score(refs, oths, lag_steps, 0) + anchor_score(refs, oths, lag_steps, 1) + anchor_score(
        refs,
        oths,
        lag_steps,
        2,
    )
}

/// The search after the first `c` candidates, the lags `seed_steps - 8`, `seed_steps - 7`,
/// and so on, each `sample` milliseconds a step: the best offset so far (the seed before
/// any candidate scores), its score and the runner-up's score. Candidates beyond
/// [`MAX_LAG_MS`] are skipped, and a later candidate wins only with a strictly higher score.
pub open spec fn lag_search(
    refs: Seq<GrayFrame>,
    oths: Seq<GrayFrame>,
    seed_ms: int,
    seed_steps: int,
    sample: int,
    c: nat,
) -> (int, nat, nat)
    decreases c,
{
    if c == 0 {
        (seed_ms, 0, 0)
    } else {
        let (bo, bs, sc) = lag_search(refs, oths, seed_ms, seed_steps, sample, (c - 1) as nat);
        let lag_steps = seed_steps + (c - 1) - FEATURE_CANDIDATE_STEPS;
        let lag_ms = lag_steps * sample;
        if lag_ms > MAX_LAG_MS || lag_ms < -MAX_LAG_MS {
            (bo, bs, sc)
        } else {
            let score = lag_score(refs, oths, lag_steps);
            if score > bs {
                (lag_ms, score, bs)
            } else if score > sc {
                (bo, bs, score)
            } else {
                (bo, bs, sc)
            }
        }
    }
}

proof fn lemma_count_clear_bounded(a: GrayFrame, ka: Seq<(u32, u32)>, b: GrayFrame, kb: Seq<(u32, u32)>, n: nat)
    ensures
        count_clear(a, ka, b, kb, n) <= n,
    decreases n,
{
    if n > 0 {
        lemma_count_clear_bounded(a, ka, b, kb, (n - 1) as nat);
    }
}

/// A frame has at most 80 corners with a clear match, one per corner looked at.
pub proof fn law_inliers_at_most_80(a: GrayFrame, b: GrayFrame)
    ensures
        brief_inliers(a, b) <= 80,
{
    let ka = fast_points(a, 20, 80);
    lemma_count_clear_bounded(a, ka, b, fast_points(b, 20, 80), ka.len());
}

fn anchor(refs: &Vec<GrayFrame>, oths: &Vec<GrayFrame>, lag_steps: i64, k: usize) -> (r: usize)
    requires
        k < 3,
        oths@.len() >= 1,
        refs@.len() + (if lag_steps < 0 { -lag_steps } else { lag_steps as int }) <= i64::MAX,
        oths@.len() <= i64::MAX,
        forall|i: int| 0 <= i < refs@.len() ==> (#[trigger] refs@[i]).wf(),
        forall|i: int| 0 <= i < oths@.len() ==> (#[trigger] oths@[i]).wf(),
    ensures
        r == anchor_score(refs@, oths@, lag_steps as int, k as int),
        r <= 80,
{
    let n = if refs.len() < oths.len() { refs.len() } else { oths.len() };
    proof {
        assert((n / 4) * (k + 1) <= n) by (nonlinear_arith)
            requires
                k < 3,
        ;
    }
    let ri = (n / 4) * (k + 1);
    if ri >= refs.len() {
        return 0;
    }
    let hi: i64 = oths.len() as i64 - 1;
    let oi = clamp_coord(ri as i64 + lag_steps, hi) as usize;
    let r = match_brief_inliers(&refs[ri], &oths[oi]);
    proof {
        law_inliers_at_most_80(refs@[ri as int], oths@[oi as int]);
    }
    r
}

proof fn lemma_lag_search_step(refs: Seq<GrayFrame>, oths: Seq<GrayFrame>, seed_ms: int, seed_steps: int, sample: int, c: nat)
    requires
        c > 0,
    ensures
        ({
            let (bo, bs, sc) = lag_search(refs, oths, seed_ms, seed_steps, sample, (c - 1) as nat);
            let lag_steps = seed_steps + (c - 1) - FEATURE_CANDIDATE_STEPS;
            let lag_ms = lag_steps * sample;
            let score = lag_score(refs, oths, lag_steps);
            lag_search(refs, oths, seed_ms, seed_steps, sample, c) == if lag_ms > MAX_LAG_MS || lag_ms < -MAX_LAG_MS {
                (bo, bs, sc)
            } else if score > bs {
                (lag_ms, score, bs)
            } else if score > sc {
                (bo, bs, score)
            } else {
                (bo, bs, sc)
            }
        }),
{
}

/// The other sequence delayed by `lag` frames against the reference: wherever both have
/// the frame, frame `i + lag` of `oths` is frame `i` of `refs`.
pub open spec fn delayed_by(refs: Seq<GrayFrame>, oths: Seq<GrayFrame>, lag: int) -> bool {
    forall|i: int| 0 <= i < refs.len() && 0 <= i + lag < oths.len() ==> #[trigger] oths[i + lag] == refs[i]
}

/// A lag of `lag` frames pairs each anchor frame of the reference with the frame `lag`
/// later in the other sequence: when the other sequence is the reference delayed by `lag`
/// frames, every anchor whose partner lies inside it compares a reference frame with
/// itself.
pub proof fn law_delayed_anchor_meets_itself(refs: Seq<GrayFrame>, oths: Seq<GrayFrame>, lag: int, k: int)
    requires
        0 <= k < 3,
        oths.len() >= 1,
        delayed_by(refs, oths, lag),
        ({
            let n = if refs.len() < oths.len() { refs.len() } else { oths.len() };
            let ri = (n / 4) * (k + 1);
            ri < refs.len() && 0 <= ri + lag < oths.len()
        }),
    ensures
        ({
            let n = if refs.len() < oths.len() { refs.len() } else { oths.len() };
            let ri = (n / 4) * (k + 1);
            anchor_score(refs, oths, lag, k) == brief_inliers(refs[ri], refs[ri])
        }),
{
    let n = if refs.len() < oths.len() { refs.len() } else { oths.len() };
    let ri = (n / 4) * (k + 1);
    assert(clamp_int(ri + lag, 0, oths.len() - 1) == ri + lag);
    assert(oths[ri + lag] == refs[ri]);
}

proof fn lemma_search_keeps_first_best(
    refs: Seq<GrayFrame>,
    oths: Seq<GrayFrame>,
    seed_ms: int,
    seed_steps: int,
    sample: int,
    c0: int,
    c: nat,
)
    requires
        0 <= c0 < 17,
        c <= 17,
        ({
            let lag = seed_steps + c0 - FEATURE_CANDIDATE_STEPS;
            &&& -MAX_LAG_MS <= lag * sample <= MAX_LAG_MS
            &&& lag_score(refs, oths, lag) > 0
        }),
        forall|j: int| 0 <= j < c0 && -MAX_LAG_MS <= #[trigger] ((seed_steps + j - FEATURE_CANDIDATE_STEPS) * sample) <= MAX_LAG_MS
            ==> lag_score(refs, oths, seed_steps + j - FEATURE_CANDIDATE_STEPS) < lag_score(refs, oths, seed_steps + c0 - FEATURE_CANDIDATE_STEPS),
        forall|j: int| c0 < j < 17 && -MAX_LAG_MS <= #[trigger] ((seed_steps + j - FEATURE_CANDIDATE_STEPS) * sample) <= MAX_LAG_MS
            ==> lag_score(refs, oths, seed_steps + j - FEATURE_CANDIDATE_STEPS) <= lag_score(refs, oths, seed_steps + c0 - FEATURE_CANDIDATE_STEPS),
    ensures
        ({
            let lag = seed_steps + c0 - FEATURE_CANDIDATE_STEPS;
            let best = lag_score(refs, oths, lag);
            let (bo, bs, sc) = lag_search(refs, oths, seed_ms, seed_steps, sample, c);
            &&& c <= c0 ==> bs < best
            &&& c > c0 ==> bo == lag * sample && bs == best
        }),
    decreases c,
{
    if c > 0 {
        lemma_search_keeps_first_best(refs, oths, seed_ms, seed_steps, sample, c0, (c - 1) as nat);
        lemma_lag_search_step(refs, oths, seed_ms, seed_steps, sample, c);
        let j = c - 1;
        let lag_j = seed_steps + j - FEATURE_CANDIDATE_STEPS;
        if j != c0 && -MAX_LAG_MS <= lag_j * sample <= MAX_LAG_MS {
            assert(-MAX_LAG_MS <= ((seed_steps + j - FEATURE_CANDIDATE_STEPS) * sample) <= MAX_LAG_MS);
        }
    }
}

/// The search settles on the candidate lag that scores strictly more than every other
/// candidate it looks at: its offset is that lag's steps times the sample interval, and
/// its best score is that lag's score.
pub proof fn law_search_settles_on_strict_best(
    refs: Seq<GrayFrame>,
    oths: Seq<GrayFrame>,
    seed_ms: int,
    seed_steps: int,
    sample: int,
    lag: int,
)
    requires
        seed_steps - FEATURE_CANDIDATE_STEPS <= lag <= seed_steps + FEATURE_CANDIDATE_STEPS,
        -MAX_LAG_MS <= lag * sample <= MAX_LAG_MS,
        lag_score(refs, oths, lag) > 0,
        forall|other: int| seed_steps - FEATURE_CANDIDATE_STEPS <= other <= seed_steps + FEATURE_CANDIDATE_STEPS
            && other != lag && -MAX_LAG_MS <= #[trigger] (other * sample) <= MAX_LAG_MS
            ==> lag_score(refs, oths, other) < lag_score(refs, oths, lag),
    ensures
        lag_search(refs, oths, seed_ms, seed_steps, sample, 17).0 == lag * sample,
        lag_search(refs, oths, seed_ms, seed_steps, sample, 17).1 == lag_score(refs, oths, lag),
{
    law_search_takes_first_best(refs, oths, seed_ms, seed_steps, sample, lag);
}

/// Ties go to the earlier candidate: when the candidate lag `lag` scores more than every
/// candidate before it and at least as much as every one after it, the search settles on
/// it.
pub proof fn law_search_takes_first_best(
    refs: Seq<GrayFrame>,
    oths: Seq<GrayFrame>,
    seed_ms: int,
    seed_steps: int,
    sample: int,
    lag: int,
)
    requires
        seed_steps - FEATURE_CANDIDATE_STEPS <= lag <= seed_steps + FEATURE_CANDIDATE_STEPS,
        -MAX_LAG_MS <= lag * sample <= MAX_LAG_MS,
        lag_score(refs, oths, lag) > 0,
        forall|other: int| seed_steps - FEATURE_CANDIDATE_STEPS <= other < lag
            && -MAX_LAG_MS <= #[trigger] (other * sample) <= MAX_LAG_MS
            ==> lag_score(refs, oths, other) < lag_score(refs, oths, lag),
        forall|other: int| lag < other <= seed_steps + FEATURE_CANDIDATE_STEPS
            && -MAX_LAG_MS <= #[trigger] (other * sample) <= MAX_LAG_MS
            ==> lag_score(refs, oths, other) <= lag_score(refs, oths, lag),
    ensures
        lag_search(refs, oths, seed_ms, seed_steps, sample, 17).0 == lag * sample,
        lag_search(refs, oths, seed_ms, seed_steps, sample, 17).1 == lag_score(refs, oths, lag),
{
    let c0 = lag - seed_steps + FEATURE_CANDIDATE_STEPS;
    assert(seed_steps + c0 - FEATURE_CANDIDATE_STEPS == lag);
    assert forall|j: int| 0 <= j < c0 && -MAX_LAG_MS <= #[trigger] ((seed_steps + j - FEATURE_CANDIDATE_STEPS) * sample) <= MAX_LAG_MS
        implies lag_score(refs, oths, seed_steps + j - FEATURE_CANDIDATE_STEPS) < lag_score(refs, oths, seed_steps + c0 - FEATURE_CANDIDATE_STEPS) by {
        let other = seed_steps + j - FEATURE_CANDIDATE_STEPS;
        assert(-MAX_LAG_MS <= other * sample <= MAX_LAG_MS);
    }
    assert forall|j: int| c0 < j < 17 && -MAX_LAG_MS <= #[trigger] ((seed_steps + j - FEATURE_CANDIDATE_STEPS) * sample) <= MAX_LAG_MS
        implies lag_score(refs, oths, seed_steps + j - FEATURE_CANDIDATE_STEPS) <= lag_score(refs, oths, seed_steps + c0 - FEATURE_CANDIDATE_STEPS) by {
        let other = seed_steps + j - FEATURE_CANDIDATE_STEPS;
        assert(-MAX_LAG_MS <= other * sample <= MAX_LAG_MS);
    }
    lemma_search_keeps_first_best(refs, oths, seed_ms, seed_steps, sample, c0, 17);
}

/// Aligning a sequence with the reference delayed by `lag` frames: at that lag every
/// anchor compares a reference frame with itself, so when those self-matches outscore
/// every other candidate lag, the search finds the delay, `lag` steps of the sample
/// interval (later frames of `oths` give a positive offset).
pub proof fn law_search_finds_delay(
    refs: Seq<GrayFrame>,
    oths: Seq<GrayFrame>,
    seed_ms: int,
    seed_steps: int,
    sample: int,
    lag: int,
)
    requires
        oths.len() >= 1,
        delayed_by(refs, oths, lag),
        seed_steps - FEATURE_CANDIDATE_STEPS <= lag <= seed_steps + FEATURE_CANDIDATE_STEPS,
        -MAX_LAG_MS <= lag * sample <= MAX_LAG_MS,
        ({
            let n = if refs.len() < oths.len() { refs.len() } else { oths.len() };
            let q: int = (n / 4) as int;
            q * 3 < refs.len() && 0 <= q + lag && q * 3 + lag < oths.len()
        }),
        ({
            let n = if refs.len() < oths.len() { refs.len() } else { oths.len() };
            let q: int = (n / 4) as int;
            let own = brief_inliers(refs[q], refs[q]) + brief_inliers(refs[q * 2], refs[q * 2])
                + brief_inliers(refs[q * 3], refs[q * 3]);
            &&& own > 0
            &&& forall|other: int| seed_steps - FEATURE_CANDIDATE_STEPS <= other <= seed_steps + FEATURE_CANDIDATE_STEPS
                && other != lag && -MAX_LAG_MS <= #[trigger] (other * sample) <= MAX_LAG_MS
                ==> lag_score(refs, oths, other) < own
        }),
    ensures
        lag_search(refs, oths, seed_ms, seed_steps, sample, 17).0 == lag * sample,
{
    let n = if refs.len() < oths.len() { refs.len() } else { oths.len() };
    let q: int = (n / 4) as int;
    assert(q * (0 + 1) == q && q * (1 + 1) == q * 2 && q * (2 + 1) == q * 3 && q <= q * 2 <= q * 3) by (nonlinear_arith)
        requires q >= 0;
    law_delayed_anchor_meets_itself(refs, oths, lag, 0);
    law_delayed_anchor_meets_itself(refs, oths, lag, 1);
    law_delayed_anchor_meets_itself(refs, oths, lag, 2);
    law_search_settles_on_strict_best(refs, oths, seed_ms, seed_steps, sample, lag);
}

/// Searches the lag between a reference frame sequence and another, sampled every
/// `sample_ms` milliseconds (at least one), around `seed_steps` steps: for each of the
/// seventeen candidates within [`MAX_LAG_MS`] it counts clear feature matches at three
/// anchors, and keeps the best and the runner-up score; before any candidate scores, the
/// offset is `seed_offset_ms`. Nothing is searched when either sequence has fewer than
/// four frames.
#[verifier::rlimit(60)]
pub fn search_feature_lag(
    refs: &Vec<GrayFrame>,
    oths: &Vec<GrayFrame>,
    seed_offset_ms: i64,
    seed_steps: i64,
    sample_ms: u64,
) -> (r: Option<FeatureLag>)
    requires
        forall|i: int| 0 <= i < refs@.len() ==> (#[trigger] refs@[i]).wf(),
        forall|i: int| 0 <= i < oths@.len() ==> (#[trigger] oths@[i]).wf(),
        sample_ms <= i64::MAX,
        ((if seed_steps < 0 { -seed_steps } else { seed_steps as int }) + FEATURE_CANDIDATE_STEPS) * (if sample_ms == 0 {
            1
        } else {
            sample_ms as int
        }) <= i64::MAX,
        refs@.len() + (if seed_steps < 0 { -seed_steps } else { seed_steps as int }) + FEATURE_CANDIDATE_STEPS <= i64::MAX,
        oths@.len() <= i64::MAX,
    ensures
        refs@.len() < 4 || oths@.len() < 4 ==> r is None,
        refs@.len() >= 4 && oths@.len() >= 4 ==> (r matches Some(found) && {
            let (bo, bs, sc) = lag_search(
                refs@,
                oths@,
                seed_offset_ms as int,
                seed_steps as int,
                (if sample_ms == 0 { 1 } else { sample_ms as int }),
                17,
            );
            found.offset_ms == bo && found.best_score == bs && found.second_score == sc
        }),
{
    if refs.len() < 4 || oths.len() < 4 {
        return None;
    }
    let sample: i64 = if sample_ms == 0 { 1 } else { sample_ms as i64 };
    let ghost abs_seed: int = if seed_steps < 0 { -seed_steps } else { seed_steps as int };
    let mut best_offset: i64 = seed_offset_ms;
    let mut best_score: usize = 0;
    let mut second: usize = 0;
    let mut c: i64 = 0;
    while c < 2 * FEATURE_CANDIDATE_STEPS + 1
        invariant
            forall|i: int| 0 <= i < refs@.len() ==> (#[trigger] refs@[i]).wf(),
            forall|i: int| 0 <= i < oths@.len() ==> (#[trigger] oths@[i]).wf(),
            refs@.len() >= 4,
            oths@.len() >= 4,
            oths@.len() <= i64::MAX,
            sample == (if sample_ms == 0 { 1 } else { sample_ms as int }),
            sample >= 1,
            abs_seed == (if seed_steps < 0 { -seed_steps } else { seed_steps as int }),
            (abs_seed + FEATURE_CANDIDATE_STEPS) * sample <= i64::MAX,
            refs@.len() + abs_seed + FEATURE_CANDIDATE_STEPS <= i64::MAX,
            0 <= c <= 17,
            best_score <= 240,
            second <= 240,
            (best_offset as int, best_score as nat, second as nat) == lag_search(
                refs@,
                oths@,
                seed_offset_ms as int,
                seed_steps as int,
                sample as int,
                c as nat,
            ),
        decreases 17 - c,
    {
        let lag_steps = seed_steps + (c - FEATURE_CANDIDATE_STEPS);
        let ghost abs_lag: int = if lag_steps < 0 { -lag_steps } else { lag_steps as int };
        proof {
            assert(abs_lag <= abs_seed + FEATURE_CANDIDATE_STEPS);
            let bound = abs_seed + FEATURE_CANDIDATE_STEPS;
            assert(-(bound * sample) <= lag_steps * sample <= bound * sample) by (nonlinear_arith)
                requires
                    -bound <= lag_steps <= bound,
                    sample >= 1,
            ;
        }
        let lag_ms = lag_steps * sample;
        let ghost prev = (best_offset as int, best_score as nat, second as nat);
        proof {
            assert(prev == lag_search(refs@, oths@, seed_offset_ms as int, seed_steps as int, sample as int, c as nat));
            assert(lag_steps == seed_steps + c - FEATURE_CANDIDATE_STEPS);
        }
        if lag_ms <= MAX_LAG_MS && lag_ms >= -MAX_LAG_MS {
            let s0 = anchor(refs, oths, lag_steps, 0);
            let s1 = anchor(refs, oths, lag_steps, 1);
            let s2 = anchor(refs, oths, lag_steps, 2);
            let score = s0 + s1 + s2;
            proof {
                assert(score == lag_score(refs@, oths@, lag_steps as int));
            }
            if score > best_score {
                second = best_score;
                best_score = score;
                best_offset = lag_ms;
            } else if score > second {
                second = score;
            }
        }
        proof {
            lemma_lag_search_step(refs@, oths@, seed_offset_ms as int, seed_steps as int, sample as int, (c + 1) as nat);
        }
        c += 1;
    }
    Some(FeatureLag { offset_ms: best_offset, best_score, second_score: second })
}

} // verus!
