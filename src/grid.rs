use vstd::prelude::*;

verus! {

/// Byte offset of channel `c` of pixel `(x, y)` in a row-major buffer whose rows
/// are `width` pixels wide and whose pixels take `bpp` bytes.
pub open spec fn byte_offset(width: nat, bpp: nat, x: nat, y: nat, c: nat) -> int {
    ((y * width + x) * bpp + c) as int
}

/// Sum of channel `c` over the `w` pixels of row `y` that start at column `x0`.
pub open spec fn row_sum(src: Seq<u8>, width: nat, bpp: nat, c: nat, x0: nat, y: nat, w: nat) -> nat
    decreases w,
{
    if w == 0 {
        0
    } else {
        row_sum(src, width, bpp, c, x0, y, (w - 1) as nat) + src[byte_offset(
            width,
            bpp,
            (x0 + w - 1) as nat,
            y,
            c,
        )] as nat
    }
}

/// Sum of channel `c` over the `w × h` rectangle of pixels whose top-left corner is `(x0, y0)`.
pub open spec fn rect_sum(
    src: Seq<u8>,
    width: nat,
    bpp: nat,
    c: nat,
    x0: nat,
    y0: nat,
    w: nat,
    h: nat,
) -> nat
    decreases h,
{
    if h == 0 {
        0
    } else {
        rect_sum(src, width, bpp, c, x0, y0, w, (h - 1) as nat) + row_sum(
            src,
            width,
            bpp,
            c,
            x0,
            (y0 + h - 1) as nat,
            w,
        )
    }
}

/// Truncated mean of channel `c` over the `w × h` rectangle at `(x0, y0)`.
pub open spec fn rect_mean(
    src: Seq<u8>,
    width: nat,
    bpp: nat,
    c: nat,
    x0: nat,
    y0: nat,
    w: nat,
    h: nat,
) -> nat {
    rect_sum(src, width, bpp, c, x0, y0, w, h) / (w * h)
}

/// The `w × h` buffer of `bpp`-byte pixels whose channel `c` of pixel `(x, y)` is `f(x, y, c)`.
pub open spec fn grid_seq(w: nat, h: nat, bpp: nat, f: spec_fn(nat, nat, nat) -> u8) -> Seq<u8> {
    Seq::new(
        w * h * bpp,
        |i: int| f((i / bpp as int % w as int) as nat, (i / bpp as int / w as int) as nat, (i % bpp as int) as nat),
    )
}

/// Every byte of a pixel inside a `width × height` grid lies inside its buffer.
pub proof fn lemma_offset_in_bounds(width: nat, height: nat, bpp: nat, x: nat, y: nat, c: nat)
    requires
        x < width,
        y < height,
        c < bpp,
    ensures
        y * width + x < width * height,
        0 <= byte_offset(width, bpp, x, y, c) < width * height * bpp,
{
    assert(y * width + x < width * height) by (nonlinear_arith)
        requires
            x < width,
            y < height,
    {
        assert((y + 1) * width <= height * width) by (nonlinear_arith)
            requires
                y + 1 <= height,
                0 <= width,
        ;
    }
    let p = y * width + x;
    assert(p * bpp + c < width * height * bpp) by (nonlinear_arith)
        requires
            p < width * height,
            c < bpp,
    {
        assert((p + 1) * bpp <= (width * height) * bpp) by (nonlinear_arith)
            requires
                p + 1 <= width * height,
                0 <= bpp,
        ;
    }
}

/// Index `(y * w + x) * bpp + c` of a pixel grid splits back into `x`, `y` and `c`.
pub proof fn lemma_cell_index(w: nat, bpp: nat, x: nat, y: nat, c: nat)
    requires
        x < w,
        c < bpp,
    ensures
        ({
            let i = (y * w + x) * bpp + c;
            &&& i / bpp == y * w + x
            &&& i % bpp == c
            &&& (i / bpp) % w == x
            &&& (i / bpp) / w == y
        }),
{
    let p = y * w + x;
    vstd::arithmetic::div_mod::lemma_fundamental_div_mod_converse(
        (p * bpp + c) as int,
        bpp as int,
        p as int,
        c as int,
    );
    vstd::arithmetic::div_mod::lemma_fundamental_div_mod_converse(
        p as int,
        w as int,
        y as int,
        x as int,
    );
}

/// Channel `c` of pixel `(x, y)` stands at its byte offset in a [`grid_seq`].
pub proof fn lemma_grid_seq_at(w: nat, h: nat, bpp: nat, f: spec_fn(nat, nat, nat) -> u8, x: nat, y: nat, c: nat)
    requires
        x < w,
        y < h,
        c < bpp,
    ensures
        0 <= byte_offset(w, bpp, x, y, c) < grid_seq(w, h, bpp, f).len(),
        grid_seq(w, h, bpp, f)[byte_offset(w, bpp, x, y, c)] == f(x, y, c),
{
    lemma_offset_in_bounds(w, h, bpp, x, y, c);
    lemma_cell_index(w, bpp, x, y, c);
}

/// `t * num / den`, the source coordinate that target coordinate `t` falls on
/// when a dimension of `num` pixels is mapped onto one of `den` pixels.
pub open spec fn scaled_floor(t: nat, num: nat, den: nat) -> nat {
    t * num / den
}

/// `t * num / den` rounded up.
pub open spec fn scaled_ceil(t: nat, num: nat, den: nat) -> nat {
    (t * num + den - 1) as nat / den
}

/// A target coordinate below `den` maps to a source coordinate below `num`.
pub proof fn lemma_scaled_floor_bound(t: nat, num: nat, den: nat)
    requires
        t < den,
    ensures
        scaled_floor(t, num, den) <= num,
        num > 0 ==> scaled_floor(t, num, den) < num,
{
    let p = t * num;
    let q = p / den;
    assert(p <= den * num && (num > 0 ==> p < den * num)) by (nonlinear_arith)
        requires
            t < den,
            p == t * num,
            0 <= num,
    ;
    assert(q * den <= p) by (nonlinear_arith)
        requires
            q == p / den,
            den > 0,
    ;
    assert(q <= num && (num > 0 ==> q < num)) by (nonlinear_arith)
        requires
            q * den <= p,
            p <= den * num,
            num > 0 ==> p < den * num,
            den > 0,
    ;
}

/// Rounding up never leaves the source either, for target coordinates up to `den`.
pub proof fn lemma_scaled_ceil_bound(t: nat, num: nat, den: nat)
    requires
        t <= den,
        den > 0,
    ensures
        scaled_ceil(t, num, den) <= num,
{
    let p = t * num;
    let q = (p + den - 1) as nat / den;
    assert(p <= den * num) by (nonlinear_arith)
        requires
            t <= den,
            p == t * num,
    ;
    assert(q * den <= p + den - 1) by (nonlinear_arith)
        requires
            q == (p + den - 1) as nat / den,
            den > 0,
    ;
    assert(q < num + 1) by (nonlinear_arith)
        requires
            q * den <= p + den - 1,
            p <= den * num,
            den > 0,
    ;
}

/// The footprint `[⌊t · num / den⌋, ⌈(t + 1) · num / den⌉)` of a target
/// coordinate `t < den` is a non-empty span of the `num` source coordinates.
pub proof fn lemma_footprint_bounds(t: nat, num: nat, den: nat)
    requires
        t < den,
        num > 0,
    ensures
        scaled_floor(t, num, den) < scaled_ceil(t + 1, num, den) <= num,
{
    lemma_scaled_ceil_bound(t + 1, num, den);
    let lo = scaled_floor(t, num, den);
    assert(lo * den <= t * num) by (nonlinear_arith)
        requires
            lo == t * num / den,
            den > 0,
    ;
    assert((lo + 1) * den <= (t + 1) * num + den - 1) by (nonlinear_arith)
        requires
            lo * den <= t * num,
            num >= 1,
    ;
    assert(lo + 1 <= ((t + 1) * num + den - 1) as nat / den) by (nonlinear_arith)
        requires
            (lo + 1) * den <= (t + 1) * num + den - 1,
            den > 0,
    ;
}

/// Computes [`scaled_floor`] without overflow.
pub fn floor_scaled(t: usize, num: usize, den: usize) -> (r: usize)
    requires
        t < den,
    ensures
        r == scaled_floor(t as nat, num as nat, den as nat),
        r <= num,
        num > 0 ==> r < num,
{
    proof {
        lemma_scaled_floor_bound(t as nat, num as nat, den as nat);
    }
    assert(t * num <= 0xffff_ffff_ffff_ffffu128 * 0xffff_ffff_ffff_ffffu128) by (nonlinear_arith)
        requires
            0 <= t <= 0xffff_ffff_ffff_ffffu128,
            0 <= num <= 0xffff_ffff_ffff_ffffu128,
    ;
    let p: u128 = (t as u128) * (num as u128);
    (p / (den as u128)) as usize
}

/// Computes [`scaled_ceil`] without overflow.
pub fn ceil_scaled(t: usize, num: usize, den: usize) -> (r: usize)
    requires
        t <= den,
        den > 0,
    ensures
        r == scaled_ceil(t as nat, num as nat, den as nat),
        r <= num,
{
    proof {
        lemma_scaled_ceil_bound(t as nat, num as nat, den as nat);
    }
    assert(t * num <= 0xffff_ffff_ffff_ffffu128 * 0xffff_ffff_ffff_ffffu128) by (nonlinear_arith)
        requires
            0 <= t <= 0xffff_ffff_ffff_ffffu128,
            0 <= num <= 0xffff_ffff_ffff_ffffu128,
    ;
    let p: u128 = (t as u128) * (num as u128);
    ((p + (den as u128) - 1) / (den as u128)) as usize
}

/// Each row sum is at most 255 per pixel.
proof fn lemma_row_sum_bound(src: Seq<u8>, width: nat, bpp: nat, c: nat, x0: nat, y: nat, w: nat)
    ensures
        row_sum(src, width, bpp, c, x0, y, w) <= 255 * w,
    decreases w,
{
    if w > 0 {
        lemma_row_sum_bound(src, width, bpp, c, x0, y, (w - 1) as nat);
    }
}

/// Truncated mean of channel `c` of `src` over the `w × h` rectangle at `(x0, y0)`.
pub fn block_mean(
    src: &Vec<u8>,
    width: usize,
    height: usize,
    bpp: usize,
    c: usize,
    x0: usize,
    y0: usize,
    w: usize,
    h: usize,
) -> (r: u8)
    requires
        src@.len() == width * height * bpp,
        c < bpp,
        x0 + w <= width,
        y0 + h <= height,
        w > 0,
        h > 0,
    ensures
        r as nat == rect_mean(src@, width as nat, bpp as nat, c as nat, x0 as nat, y0 as nat, w as nat, h as nat),
{
    assert(w * h <= width * height) by (nonlinear_arith)
        requires
            w <= width,
            h <= height,
    {
        assert(w * h <= width * h) by (nonlinear_arith)
            requires
                w <= width,
                0 <= h,
        ;
        assert(width * h <= width * height) by (nonlinear_arith)
            requires
                0 <= width,
                h <= height,
        ;
    }
    assert(width * height <= width * height * bpp) by (nonlinear_arith)
        requires
            0 <= width * height,
            1 <= bpp,
    ;
    let len: usize = src.len();
    let ghost n: nat = (w * h) as nat;
    let mut sum: u128 = 0;
    let mut yy: usize = 0;
    while yy < h
        invariant
            yy <= h,
            src@.len() == width * height * bpp,
            c < bpp,
            x0 + w <= width,
            y0 + h <= height,
            n == w * h,
            n <= usize::MAX,
            len == src@.len(),
            width * height <= len,
            sum == rect_sum(src@, width as nat, bpp as nat, c as nat, x0 as nat, y0 as nat, w as nat, yy as nat),
            sum <= 255 * (w * yy),
        decreases h - yy,
    {
        let y = y0 + yy;
        let mut xx: usize = 0;
        assert(w * yy + w <= n) by (nonlinear_arith)
            requires
                yy < h,
                n == w * h,
        ;
        while xx < w
            invariant
                xx <= w,
                yy < h,
                y == y0 + yy,
                src@.len() == width * height * bpp,
                c < bpp,
                x0 + w <= width,
                y0 + h <= height,
                w * yy + w <= n,
                n <= usize::MAX,
                len == src@.len(),
                width * height <= len,
                sum == rect_sum(src@, width as nat, bpp as nat, c as nat, x0 as nat, y0 as nat, w as nat, yy as nat)
                    + row_sum(src@, width as nat, bpp as nat, c as nat, x0 as nat, y as nat, xx as nat),
                sum <= 255 * (w * yy) + 255 * xx,
            decreases w - xx,
        {
            proof {
                lemma_offset_in_bounds(width as nat, height as nat, bpp as nat, (x0 + xx) as nat, y as nat, c as nat);
            }
            assert((y * width + (x0 + xx)) * bpp + c < src@.len());
            assert(y * width + (x0 + xx) <= (y * width + (x0 + xx)) * bpp) by (nonlinear_arith)
                requires
                    bpp >= 1,
                    y * width + (x0 + xx) >= 0,
            ;
            let idx = (y * width + (x0 + xx)) * bpp + c;
            sum = sum + src[idx] as u128;
            xx = xx + 1;
        }
        assert(255 * (w * yy) + 255 * w == 255 * (w * (yy + 1))) by (nonlinear_arith);
        yy = yy + 1;
    }
    assert(w * h > 0) by (nonlinear_arith)
        requires
            w > 0,
            h > 0,
    ;
    let count: u128 = (w as u128) * (h as u128);
    assert(sum / count <= 255) by (nonlinear_arith)
        requires
            sum <= 255 * count,
            count > 0,
    {
        assert(sum / count * count <= sum) by (nonlinear_arith)
            requires
                count > 0,
        ;
    }
    (sum / count) as u8
}

/// Every byte of `src` equals `v`.
pub open spec fn is_uniform(src: Seq<u8>, v: u8) -> bool {
    forall|i: int| 0 <= i < src.len() ==> src[i] == v
}

/// Every index of a `w × h` grid of `bpp`-byte pixels names a pixel inside the
/// grid and a channel inside the pixel.
pub proof fn lemma_grid_index(w: nat, h: nat, bpp: nat, i: int)
    requires
        0 <= i < w * h * bpp,
    ensures
        bpp > 0,
        w > 0,
        (i / bpp as int % w as int) < w,
        (i / bpp as int / w as int) < h,
        (i % bpp as int) < bpp,
        0 <= i / bpp as int,
{
    assert(bpp > 0 && w > 0 && h > 0) by (nonlinear_arith)
        requires
            0 <= i < w * h * bpp,
    ;
    let p = i / bpp as int;
    assert(0 <= p < w * h) by (nonlinear_arith)
        requires
            p == i / bpp as int,
            0 <= i < (w * h) * bpp,
            bpp > 0,
    ;
    assert(p / (w as int) < h) by (nonlinear_arith)
        requires
            0 <= p < w * h,
            w > 0,
    ;
}

/// A [`grid_seq`] whose every pixel channel is `v` is uniform.
pub proof fn lemma_uniform_grid(w: nat, h: nat, bpp: nat, f: spec_fn(nat, nat, nat) -> u8, v: u8)
    requires
        forall|x: nat, y: nat, c: nat| x < w && y < h && c < bpp ==> #[trigger] f(x, y, c) == v,
    ensures
        is_uniform(grid_seq(w, h, bpp, f), v),
{
    assert forall|i: int| 0 <= i < grid_seq(w, h, bpp, f).len() implies grid_seq(w, h, bpp, f)[i] == v by {
        lemma_grid_index(w, h, bpp, i);
    }
}

/// Over a uniform buffer, a row of `w` pixels sums to `v · w`.
proof fn lemma_uniform_row_sum(
    src: Seq<u8>,
    width: nat,
    height: nat,
    bpp: nat,
    c: nat,
    x0: nat,
    y: nat,
    w: nat,
    v: u8,
)
    requires
        is_uniform(src, v),
        src.len() == width * height * bpp,
        x0 + w <= width,
        y < height,
        c < bpp,
    ensures
        row_sum(src, width, bpp, c, x0, y, w) == v * w,
    decreases w,
{
    if w > 0 {
        lemma_uniform_row_sum(src, width, height, bpp, c, x0, y, (w - 1) as nat, v);
        lemma_offset_in_bounds(width, height, bpp, (x0 + w - 1) as nat, y, c);
        assert(v * (w - 1) + v == v * w) by (nonlinear_arith);
    } else {
        assert(v * w == 0) by (nonlinear_arith)
            requires
                w == 0,
        ;
    }
}

/// Over a uniform buffer, a `w × h` rectangle sums to `v · w · h`.
proof fn lemma_uniform_rect_sum(
    src: Seq<u8>,
    width: nat,
    height: nat,
    bpp: nat,
    c: nat,
    x0: nat,
    y0: nat,
    w: nat,
    h: nat,
    v: u8,
)
    requires
        is_uniform(src, v),
        src.len() == width * height * bpp,
        x0 + w <= width,
        y0 + h <= height,
        c < bpp,
    ensures
        rect_sum(src, width, bpp, c, x0, y0, w, h) == v * (w * h),
    decreases h,
{
    if h > 0 {
        lemma_uniform_rect_sum(src, width, height, bpp, c, x0, y0, w, (h - 1) as nat, v);
        lemma_uniform_row_sum(src, width, height, bpp, c, x0, (y0 + h - 1) as nat, w, v);
        assert(v * (w * (h - 1)) + v * w == v * (w * h)) by (nonlinear_arith);
    } else {
        assert(v * (w * h) == 0) by (nonlinear_arith)
            requires
                h == 0,
        ;
    }
}

/// Over a uniform buffer of bytes `v`, the mean of any non-empty rectangle inside the grid is `v`.
pub proof fn lemma_uniform_rect_mean(
    src: Seq<u8>,
    width: nat,
    height: nat,
    bpp: nat,
    c: nat,
    x0: nat,
    y0: nat,
    w: nat,
    h: nat,
    v: u8,
)
    requires
        is_uniform(src, v),
        src.len() == width * height * bpp,
        x0 + w <= width,
        y0 + h <= height,
        c < bpp,
        w > 0,
        h > 0,
    ensures
        rect_mean(src, width, bpp, c, x0, y0, w, h) == v,
{
    lemma_uniform_rect_sum(src, width, height, bpp, c, x0, y0, w, h, v);
    assert(w * h > 0) by (nonlinear_arith)
        requires
            w > 0,
            h > 0,
    ;
    vstd::arithmetic::div_mod::lemma_fundamental_div_mod_converse(
        v * (w * h),
        (w * h) as int,
        v as int,
        0,
    );
}

} // verus!
