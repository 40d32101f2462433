//! Tiny dependency-free battery logo renderer for the system tray.

use vstd::prelude::*;

verus! {

/// Width and height of the icon in pixels.
pub const SIZE: i32 = 32;

/// Number of bytes in an RGBA icon.
pub const ICON_BYTES: usize = 4096;

/// An RGBA color.
pub type Color = [u8; 4];

/// Green for a healthy battery.
pub open spec fn connected_rgba() -> Seq<u8> {
    seq![52u8, 199u8, 89u8, 255u8]
}

/// Orange for a low battery.
pub open spec fn low_rgba() -> Seq<u8> {
    seq![255u8, 159u8, 10u8, 255u8]
}

/// Red for a critical battery.
pub open spec fn critical_rgba() -> Seq<u8> {
    seq![255u8, 69u8, 58u8, 255u8]
}

/// Gray when battery data is unavailable.
pub open spec fn unavailable_rgba() -> Seq<u8> {
    seq![142u8, 142u8, 147u8, 255u8]
}

/// Dim gray for a disconnected device.
pub open spec fn disconnected_rgba() -> Seq<u8> {
    seq![99u8, 99u8, 102u8, 176u8]
}

/// A fully transparent icon.
pub open spec fn blank_icon() -> Seq<u8> {
    Seq::new(4096, |i: int| 0u8)
}

/// `img` with pixel `(x, y)` set to `c`; pixels outside the icon are ignored.
pub open spec fn put_pixel(img: Seq<u8>, x: int, y: int, c: Seq<u8>) -> Seq<u8> {
    if 0 <= x < 32 && 0 <= y < 32 {
        let i = (y * 32 + x) * 4;
        img.update(i, c[0]).update(i + 1, c[1]).update(i + 2, c[2]).update(i + 3, c[3])
    } else {
        img
    }
}

/// `img` with the first `w` pixels of row `y` from column `x` set to `c`,
/// left to right.
pub open spec fn fill_row(img: Seq<u8>, x: int, y: int, w: int, c: Seq<u8>) -> Seq<u8>
    decreases w,
{
    if w <= 0 {
        img
    } else {
        put_pixel(fill_row(img, x, y, w - 1, c), x + w - 1, y, c)
    }
}

/// `img` with the first `h` rows of the `w`-wide rectangle at `(x, y)` set
/// to `c`, top to bottom.
pub open spec fn fill_box(img: Seq<u8>, x: int, y: int, w: int, h: int, c: Seq<u8>) -> Seq<u8>
    decreases h,
{
    if h <= 0 {
        img
    } else {
        fill_row(fill_box(img, x, y, w, h - 1, c), x, y + h - 1, w, c)
    }
}

/// `img` with the square of half-width `r` around `(x, y)` set to `c`.
pub open spec fn stamp(img: Seq<u8>, x: int, y: int, r: int, c: Seq<u8>) -> Seq<u8> {
    fill_box(img, x - r, y - r, 2 * r + 1, 2 * r + 1, c)
}

/// The error term that a line walk keeps when `a` horizontal and `b`
/// vertical steps remain of a line spanning `dx` by `dd`.
pub open spec fn walk_error(dx: int, dd: int, a: int, b: int) -> int {
    dx - dd + a * dd - b * dx
}

/// Whether a line walk at `(x, y)` toward `(x1, y1)` is consistent: the
/// remaining steps, the step directions and the error term agree.
pub open spec fn walk_ok(
    x: int,
    y: int,
    x1: int,
    y1: int,
    dx: int,
    dd: int,
    sx: int,
    sy: int,
    err: int,
) -> bool {
    let a = if x1 >= x { x1 - x } else { x - x1 };
    let b = if y1 >= y { y1 - y } else { y - y1 };
    &&& 0 <= a <= dx
    &&& 0 <= b <= dd
    &&& (sx == 1 || sx == -1)
    &&& (sy == 1 || sy == -1)
    &&& x1 - x == sx * a
    &&& y1 - y == sy * b
    &&& err == walk_error(dx, dd, a, b)
}

/// Steps left in a line walk.
pub open spec fn walk_left(x: int, y: int, x1: int, y1: int) -> int {
    (if x1 >= x { x1 - x } else { x - x1 }) + (if y1 >= y { y1 - y } else { y - y1 })
}

/// One step of a consistent line walk stays consistent and gets closer to
/// the end.
pub proof fn lemma_walk_step(
    x: int,
    y: int,
    x1: int,
    y1: int,
    dx: int,
    dd: int,
    sx: int,
    sy: int,
    err: int,
)
    requires
        walk_ok(x, y, x1, y1, dx, dd, sx, sy, err),
        !(x == x1 && y == y1),
    ensures
        ({
            let d = 2 * err;
            let e1 = if d >= -dd { err - dd } else { err };
            let nx = if d >= -dd { x + sx } else { x };
            let e2 = if d <= dx { e1 + dx } else { e1 };
            let ny = if d <= dx { y + sy } else { y };
            &&& walk_ok(nx, ny, x1, y1, dx, dd, sx, sy, e2)
            &&& walk_left(nx, ny, x1, y1) < walk_left(x, y, x1, y1)
        }),
{
    let a = if x1 >= x { x1 - x } else { x - x1 };
    let b = if y1 >= y { y1 - y } else { y - y1 };
    let d = 2 * err;
    if a == 0 {
        assert(b >= 1);
        assert(d < -dd && d <= dx) by (nonlinear_arith)
            requires
                err == dx - dd + a * dd - b * dx,
                a == 0,
                b >= 1,
                dx >= 0,
                dd >= b,
                d == 2 * err,
        ;
        assert(err + dx == walk_error(dx, dd, a, b - 1)) by (nonlinear_arith)
            requires
                err == dx - dd + a * dd - b * dx,
        ;
    } else if b == 0 {
        assert(d >= -dd && !(d <= dx)) by (nonlinear_arith)
            requires
                err == dx - dd + a * dd - b * dx,
                b == 0,
                a >= 1,
                dx >= a,
                dd >= 0,
                d == 2 * err,
        ;
        assert(err - dd == walk_error(dx, dd, a - 1, b)) by (nonlinear_arith)
            requires
                err == dx - dd + a * dd - b * dx,
        ;
    } else {
        assert(err - dd == walk_error(dx, dd, a - 1, b)) by (nonlinear_arith)
            requires
                err == dx - dd + a * dd - b * dx,
        ;
        assert(err + dx == walk_error(dx, dd, a, b - 1)) by (nonlinear_arith)
            requires
                err == dx - dd + a * dd - b * dx,
        ;
        assert(err - dd + dx == walk_error(dx, dd, a - 1, b - 1)) by (nonlinear_arith)
            requires
                err == dx - dd + a * dd - b * dx,
        ;
        assert(d >= -dd || d <= dx) by (nonlinear_arith)
            requires
                dx >= 0,
                dd >= 0,
        ;
    }
}

/// The pixels a line walk paints from `(x, y)` to `(x1, y1)`: a square of
/// half-width `r` at every visited point, stepping horizontally when twice
/// the error reaches `-dd` and vertically when it is at most `dx`.
pub open spec fn walk(
    img: Seq<u8>,
    x: int,
    y: int,
    x1: int,
    y1: int,
    dx: int,
    dd: int,
    sx: int,
    sy: int,
    err: int,
    r: int,
    c: Seq<u8>,
) -> Seq<u8>
    decreases walk_left(x, y, x1, y1),
    when walk_ok(x, y, x1, y1, dx, dd, sx, sy, err)
{
    let img2 = stamp(img, x, y, r, c);
    if x == x1 && y == y1 {
        img2
    } else {
        let d = 2 * err;
        let e1 = if d >= -dd { err - dd } else { err };
        let nx = if d >= -dd { x + sx } else { x };
        let e2 = if d <= dx { e1 + dx } else { e1 };
        let ny = if d <= dx { y + sy } else { y };
        proof {
            lemma_walk_step(x, y, x1, y1, dx, dd, sx, sy, err);
        }
        walk(img2, nx, ny, x1, y1, dx, dd, sx, sy, e2, r, c)
    }
}

/// `img` with a line of thickness `t` from `(x0, y0)` to `(x1, y1)`.
pub open spec fn line(img: Seq<u8>, x0: int, y0: int, x1: int, y1: int, t: int, c: Seq<u8>) -> Seq<
    u8,
> {
    let dx = if x1 >= x0 { x1 - x0 } else { x0 - x1 };
    let dd = if y1 >= y0 { y1 - y0 } else { y0 - y1 };
    let sx = if x0 < x1 { 1int } else { -1int };
    let sy = if y0 < y1 { 1int } else { -1int };
    walk(img, x0, y0, x1, y1, dx, dd, sx, sy, dx - dd, t / 2, c)
}

/// Whether a coordinate stays far from integer overflow.
pub open spec fn small(v: int) -> bool {
    -1000 <= v <= 1000
}

fn set_pixel(buffer: &mut Vec<u8>, x: i32, y: i32, color: Color)
    requires
        old(buffer)@.len() == 4096,
    ensures
        final(buffer)@ == put_pixel(old(buffer)@, x as int, y as int, color@),
{
    if x < 0 || y < 0 || x >= SIZE || y >= SIZE {
        return;
    }
    let index: usize = ((y * SIZE + x) * 4) as usize;
    buffer.set(index, color[0]);
    buffer.set(index + 1, color[1]);
    buffer.set(index + 2, color[2]);
    buffer.set(index + 3, color[3]);
}

fn fill_rect(buffer: &mut Vec<u8>, x: i32, y: i32, width: i32, height: i32, color: Color)
    requires
        old(buffer)@.len() == 4096,
        -20000 <= x <= 20000,
        -20000 <= y <= 20000,
        0 <= width <= 1000,
        0 <= height <= 1000,
    ensures
        final(buffer)@ == fill_box(old(buffer)@, x as int, y as int, width as int, height as int, color@),
        final(buffer)@.len() == 4096,
{
    let ghost start = buffer@;
    let mut dy: i32 = 0;
    while dy < height
        invariant
            0 <= dy <= height,
            -20000 <= x <= 20000,
            -20000 <= y <= 20000,
            0 <= width <= 1000,
            height <= 1000,
            buffer@.len() == 4096,
            buffer@ == fill_box(start, x as int, y as int, width as int, dy as int, color@),
        decreases height - dy,
    {
        let ghost row_start = buffer@;
        let mut dx: i32 = 0;
        while dx < width
            invariant
                0 <= dx <= width,
                0 <= dy < height,
                -20000 <= x <= 20000,
                -20000 <= y <= 20000,
                width <= 1000,
                height <= 1000,
                buffer@.len() == 4096,
                buffer@ == fill_row(row_start, x as int, (y + dy) as int, dx as int, color@),
            decreases width - dx,
        {
            set_pixel(buffer, x + dx, y + dy, color);
            dx = dx + 1;
        }
        dy = dy + 1;
    }
}

fn draw_line(buffer: &mut Vec<u8>, x0: i32, y0: i32, x1: i32, y1: i32, thickness: i32, color: Color)
    requires
        old(buffer)@.len() == 4096,
        small(x0 as int),
        small(y0 as int),
        small(x1 as int),
        small(y1 as int),
        0 <= thickness <= 100,
    ensures
        final(buffer)@ == line(old(buffer)@, x0 as int, y0 as int, x1 as int, y1 as int, thickness as int, color@),
        final(buffer)@.len() == 4096,
{
    let dx: i32 = if x1 >= x0 { x1 - x0 } else { x0 - x1 };
    let sx: i32 = if x0 < x1 { 1 } else { -1 };
    let dy: i32 = -(if y1 >= y0 { y1 - y0 } else { y0 - y1 });
    let sy: i32 = if y0 < y1 { 1 } else { -1 };
    let mut error: i32 = dx + dy;
    let radius: i32 = thickness / 2;
    let mut x: i32 = x0;
    let mut y: i32 = y0;
    let ghost dd: int = -dy;
    let ghost target = line(buffer@, x0 as int, y0 as int, x1 as int, y1 as int, thickness as int, color@);
    assert(walk_ok(x as int, y as int, x1 as int, y1 as int, dx as int, dd, sx as int, sy as int, error as int)) by {
        assert(error == walk_error(dx as int, dd, dx as int, dd)) by (nonlinear_arith)
            requires
                error == dx - dd,
        ;
    }
    loop
        invariant_except_break
            small(x1 as int),
            small(y1 as int),
            0 <= dx <= 2000,
            0 <= dd <= 2000,
            dy == -dd,
            0 <= radius <= 50,
            small(x as int),
            small(y as int),
            buffer@.len() == 4096,
            walk_ok(x as int, y as int, x1 as int, y1 as int, dx as int, dd, sx as int, sy as int, error as int),
            walk(buffer@, x as int, y as int, x1 as int, y1 as int, dx as int, dd, sx as int, sy as int, error as int, radius as int, color@) == target,
        ensures
            buffer@ == target,
            buffer@.len() == 4096,
        decreases walk_left(x as int, y as int, x1 as int, y1 as int),
    {
        let ghost before = buffer@;
        assert(-10_000_000 <= error <= 10_000_000) by (nonlinear_arith)
            requires
                error == walk_error(dx as int, dd, (if x1 >= x { x1 - x } else { x - x1 }) as int, (if y1 >= y { y1 - y } else { y - y1 }) as int),
                0 <= (if x1 >= x { x1 - x } else { x - x1 }) <= dx,
                0 <= (if y1 >= y { y1 - y } else { y - y1 }) <= dd,
                dx <= 2000,
                dd <= 2000,
        ;
        assert(small(x as int) && small(y as int));
        fill_rect(buffer, x - radius, y - radius, 2 * radius + 1, 2 * radius + 1, color);
        assert(buffer@ == stamp(before, x as int, y as int, radius as int, color@));
        if x == x1 && y == y1 {
            assert(walk(before, x as int, y as int, x1 as int, y1 as int, dx as int, dd, sx as int, sy as int, error as int, radius as int, color@) == stamp(before, x as int, y as int, radius as int, color@));
            break;
        }
        let doubled = 2 * error;
        proof {
            lemma_walk_step(x as int, y as int, x1 as int, y1 as int, dx as int, dd, sx as int, sy as int, error as int);
        }
        let ghost (ox, oy, oe) = (x as int, y as int, error as int);
        if doubled >= dy {
            error = error + dy;
            x = x + sx;
        }
        if doubled <= dx {
            error = error + dx;
            y = y + sy;
        }
        proof {
            let a = if x1 >= ox { x1 - ox } else { ox - x1 };
            let na = if x1 >= x { x1 - x } else { x - x1 };
            if x != ox {
                if sx == 1 {
                    assert(x1 - ox == a);
                } else {
                    assert(x1 - ox == -a);
                }
            }
            if y != oy {
                if sy == 1 {
                    assert(y1 - oy == (if y1 >= oy { y1 - oy } else { oy - y1 }));
                } else {
                    assert(y1 - oy == -(if y1 >= oy { y1 - oy } else { oy - y1 }));
                }
            }
            assert(walk(before, ox, oy, x1 as int, y1 as int, dx as int, dd, sx as int, sy as int, oe, radius as int, color@)
                == walk(buffer@, x as int, y as int, x1 as int, y1 as int, dx as int, dd, sx as int, sy as int, error as int, radius as int, color@));
        }
    }
}

/// The battery logo in color `c`: a short cap, a slim body with rounded
/// corners, and a centered Bluetooth mark.
pub open spec fn battery_logo(img: Seq<u8>, c: Seq<u8>) -> Seq<u8> {
    let cap = fill_box(fill_box(img, 14, 4, 4, 2, c), 13, 5, 6, 2, c);
    let sides = fill_box(fill_box(cap, 11, 9, 2, 15, c), 19, 9, 2, 15, c);
    let ends = fill_box(fill_box(sides, 13, 7, 6, 2, c), 13, 24, 6, 2, c);
    let corners = put_pixel(
        put_pixel(put_pixel(put_pixel(ends, 12, 8, c), 19, 8, c), 12, 24, c),
        19,
        24,
        c,
    );
    let spine = line(line(corners, 16, 11, 16, 22, 1, c), 16, 11, 18, 13, 1, c);
    let upper = line(line(spine, 18, 13, 16, 16, 1, c), 16, 16, 18, 19, 1, c);
    let lower = line(upper, 18, 19, 16, 22, 1, c);
    line(line(lower, 16, 16, 14, 13, 1, c), 16, 16, 14, 19, 1, c)
}

/// The status color for a battery percentage, values above 100 counting as
/// 100: red up to 10, orange up to 20, green above.
pub open spec fn status_rgba(percentage: u8) -> Seq<u8> {
    let p = if percentage > 100 { 100 } else { percentage };
    if p <= 10 {
        critical_rgba()
    } else if p <= 20 {
        low_rgba()
    } else {
        connected_rgba()
    }
}

fn rgba(r: u8, g: u8, b: u8, a: u8) -> (c: Color)
    ensures
        c@ == seq![r, g, b, a],
{
    let c = [r, g, b, a];
    assert(c@ =~= seq![r, g, b, a]);
    c
}

fn draw_battery_logo(buffer: &mut Vec<u8>, color: Color)
    requires
        old(buffer)@.len() == 4096,
    ensures
        final(buffer)@ == battery_logo(old(buffer)@, color@),
        final(buffer)@.len() == 4096,
{
    fill_rect(buffer, 14, 4, 4, 2, color);
    fill_rect(buffer, 13, 5, 6, 2, color);
    fill_rect(buffer, 11, 9, 2, 15, color);
    fill_rect(buffer, 19, 9, 2, 15, color);
    fill_rect(buffer, 13, 7, 6, 2, color);
    fill_rect(buffer, 13, 24, 6, 2, color);
    set_pixel(buffer, 12, 8, color);
    set_pixel(buffer, 19, 8, color);
    set_pixel(buffer, 12, 24, color);
    set_pixel(buffer, 19, 24, color);
    draw_line(buffer, 16, 11, 16, 22, 1, color);
    draw_line(buffer, 16, 11, 18, 13, 1, color);
    draw_line(buffer, 18, 13, 16, 16, 1, color);
    draw_line(buffer, 16, 16, 18, 19, 1, color);
    draw_line(buffer, 18, 19, 16, 22, 1, color);
    draw_line(buffer, 16, 16, 14, 13, 1, color);
    draw_line(buffer, 16, 16, 14, 19, 1, color);
}

fn status_color(percentage: u8) -> (c: Color)
    ensures
        c@ == status_rgba(percentage),
{
    let p = if percentage > 100 { 100 } else { percentage };
    if p <= 10 {
        rgba(255, 69, 58, 255)
    } else if p <= 20 {
        rgba(255, 159, 10, 255)
    } else {
        rgba(52, 199, 89, 255)
    }
}

fn blank() -> (r: Vec<u8>)
    ensures
        r@ == blank_icon(),
{
    let mut r: Vec<u8> = Vec::new();
    let mut i: usize = 0;
    while i < ICON_BYTES
        invariant
            i <= 4096,
            ICON_BYTES == 4096,
            r@ == Seq::new(i as nat, |j: int| 0u8),
        decreases 4096 - i,
    {
        r.push(0u8);
        assert(r@ =~= Seq::new((i + 1) as nat, |j: int| 0u8));
        i = i + 1;
    }
    r
}

fn render_colored_logo(color: Color) -> (r: Vec<u8>)
    ensures
        r@ == battery_logo(blank_icon(), color@),
        r@.len() == 4096,
{
    let mut rgba_buffer = blank();
    draw_battery_logo(&mut rgba_buffer, color);
    rgba_buffer
}

/// Renders the logo using the battery state as the mark color.
pub fn render_percentage_icon(percentage: u8) -> (r: Vec<u8>)
    ensures
        r@ == battery_logo(blank_icon(), status_rgba(percentage)),
        r@.len() == 4096,
{
    let mut rgba_buffer = blank();
    draw_battery_logo(&mut rgba_buffer, status_color(percentage));
    rgba_buffer
}

/// Renders the same mark in neutral gray when battery data is unavailable.
pub fn render_unavailable_icon() -> (r: Vec<u8>)
    ensures
        r@ == battery_logo(blank_icon(), unavailable_rgba()),
        r@.len() == 4096,
{
    render_colored_logo(rgba(142, 142, 147, 255))
}

/// Renders a dim neutral mark for a disconnected device.
pub fn render_disconnected_icon() -> (r: Vec<u8>)
    ensures
        r@ == battery_logo(blank_icon(), disconnected_rgba()),
        r@.len() == 4096,
{
    render_colored_logo(rgba(99, 99, 102, 176))
}

/// Percentages above one hundred render exactly as one hundred.
pub proof fn lemma_percentage_icon_clamps(percentage: u8)
    requires
        percentage >= 100,
    ensures
        battery_logo(blank_icon(), status_rgba(percentage)) == battery_logo(
            blank_icon(),
            status_rgba(100),
        ),
{
    assert(status_rgba(percentage) == status_rgba(100));
}

/// Whether pixel `k` of `img` holds the four channels of `c`.
pub open spec fn pixel_is(img: Seq<u8>, k: int, c: Seq<u8>) -> bool {
    &&& img[4 * k] == c[0]
    &&& img[4 * k + 1] == c[1]
    &&& img[4 * k + 2] == c[2]
    &&& img[4 * k + 3] == c[3]
}

/// The transparent pixel.
pub open spec fn clear_rgba() -> Seq<u8> {
    seq![0u8, 0u8, 0u8, 0u8]
}

/// Whether pixel `k` is painted in both images, each in its own color, or
/// transparent in both.
pub open spec fn same_shape_at(a: Seq<u8>, b: Seq<u8>, ca: Seq<u8>, cb: Seq<u8>, k: int) -> bool {
    (pixel_is(a, k, ca) && pixel_is(b, k, cb)) || (pixel_is(a, k, clear_rgba()) && pixel_is(
        b,
        k,
        clear_rgba(),
    ))
}

/// Whether two icons paint the same pixels, `a` in `ca` and `b` in `cb`, and
/// leave all others transparent.
pub open spec fn same_shape(a: Seq<u8>, b: Seq<u8>, ca: Seq<u8>, cb: Seq<u8>) -> bool {
    &&& a.len() == 4096
    &&& b.len() == 4096
    &&& forall|k: int| 0 <= k < 1024 ==> #[trigger] same_shape_at(a, b, ca, cb, k)
}

/// Whether pixel `k` of a full-size icon holds color `c`; `b` is ignored.
pub open spec fn keeps_pixel(a: Seq<u8>, b: Seq<u8>, c: Seq<u8>, k: int) -> bool {
    a.len() == 4096 && pixel_is(a, k, c)
}

/// Whether painting the same pixel in two images, the first in `ca` and the
/// second in `cb`, keeps `inv` between them.
pub open spec fn kept_by_painting(
    inv: spec_fn(Seq<u8>, Seq<u8>) -> bool,
    ca: Seq<u8>,
    cb: Seq<u8>,
) -> bool {
    forall|a: Seq<u8>, b: Seq<u8>, x: int, y: int|
        inv(a, b) ==> #[trigger] inv(put_pixel(a, x, y, ca), put_pixel(b, x, y, cb))
}

proof fn lemma_row_keeps(
    inv: spec_fn(Seq<u8>, Seq<u8>) -> bool,
    ca: Seq<u8>,
    cb: Seq<u8>,
    a: Seq<u8>,
    b: Seq<u8>,
    x: int,
    y: int,
    w: int,
)
    requires
        kept_by_painting(inv, ca, cb),
        inv(a, b),
    ensures
        inv(fill_row(a, x, y, w, ca), fill_row(b, x, y, w, cb)),
    decreases w,
{
    if w > 0 {
        lemma_row_keeps(inv, ca, cb, a, b, x, y, w - 1);
        let a1 = fill_row(a, x, y, w - 1, ca);
        let b1 = fill_row(b, x, y, w - 1, cb);
        assert(inv(put_pixel(a1, x + w - 1, y, ca), put_pixel(b1, x + w - 1, y, cb)));
    }
}

proof fn lemma_box_keeps(
    inv: spec_fn(Seq<u8>, Seq<u8>) -> bool,
    ca: Seq<u8>,
    cb: Seq<u8>,
    a: Seq<u8>,
    b: Seq<u8>,
    x: int,
    y: int,
    w: int,
    h: int,
)
    requires
        kept_by_painting(inv, ca, cb),
        inv(a, b),
    ensures
        inv(fill_box(a, x, y, w, h, ca), fill_box(b, x, y, w, h, cb)),
    decreases h,
{
    if h > 0 {
        lemma_box_keeps(inv, ca, cb, a, b, x, y, w, h - 1);
        lemma_row_keeps(
            inv,
            ca,
            cb,
            fill_box(a, x, y, w, h - 1, ca),
            fill_box(b, x, y, w, h - 1, cb),
            x,
            y + h - 1,
            w,
        );
    }
}

proof fn lemma_walk_keeps(
    inv: spec_fn(Seq<u8>, Seq<u8>) -> bool,
    ca: Seq<u8>,
    cb: Seq<u8>,
    a: Seq<u8>,
    b: Seq<u8>,
    x: int,
    y: int,
    x1: int,
    y1: int,
    dx: int,
    dd: int,
    sx: int,
    sy: int,
    err: int,
    r: int,
)
    requires
        kept_by_painting(inv, ca, cb),
        inv(a, b),
        walk_ok(x, y, x1, y1, dx, dd, sx, sy, err),
    ensures
        inv(
            walk(a, x, y, x1, y1, dx, dd, sx, sy, err, r, ca),
            walk(b, x, y, x1, y1, dx, dd, sx, sy, err, r, cb),
        ),
    decreases walk_left(x, y, x1, y1),
{
    let a2 = stamp(a, x, y, r, ca);
    let b2 = stamp(b, x, y, r, cb);
    lemma_box_keeps(inv, ca, cb, a, b, x - r, y - r, 2 * r + 1, 2 * r + 1);
    if !(x == x1 && y == y1) {
        let d = 2 * err;
        let e1 = if d >= -dd { err - dd } else { err };
        let nx = if d >= -dd { x + sx } else { x };
        let e2 = if d <= dx { e1 + dx } else { e1 };
        let ny = if d <= dx { y + sy } else { y };
        lemma_walk_step(x, y, x1, y1, dx, dd, sx, sy, err);
        lemma_walk_keeps(inv, ca, cb, a2, b2, nx, ny, x1, y1, dx, dd, sx, sy, e2, r);
    }
}

proof fn lemma_line_keeps(
    inv: spec_fn(Seq<u8>, Seq<u8>) -> bool,
    ca: Seq<u8>,
    cb: Seq<u8>,
    a: Seq<u8>,
    b: Seq<u8>,
    x0: int,
    y0: int,
    x1: int,
    y1: int,
    t: int,
)
    requires
        kept_by_painting(inv, ca, cb),
        inv(a, b),
    ensures
        inv(line(a, x0, y0, x1, y1, t, ca), line(b, x0, y0, x1, y1, t, cb)),
{
    let dx = if x1 >= x0 { x1 - x0 } else { x0 - x1 };
    let dd = if y1 >= y0 { y1 - y0 } else { y0 - y1 };
    let sx = if x0 < x1 { 1int } else { -1int };
    let sy = if y0 < y1 { 1int } else { -1int };
    assert(dx - dd == walk_error(dx, dd, dx, dd)) by (nonlinear_arith);
    assert(walk_ok(x0, y0, x1, y1, dx, dd, sx, sy, dx - dd));
    lemma_walk_keeps(inv, ca, cb, a, b, x0, y0, x1, y1, dx, dd, sx, sy, dx - dd, t / 2);
}

/// The logo after its first stroke, the top of the cap.
pub open spec fn cap_top(img: Seq<u8>, c: Seq<u8>) -> Seq<u8> {
    fill_box(img, 14, 4, 4, 2, c)
}

proof fn lemma_logo_keeps(
    inv: spec_fn(Seq<u8>, Seq<u8>) -> bool,
    ca: Seq<u8>,
    cb: Seq<u8>,
    a: Seq<u8>,
    b: Seq<u8>,
)
    requires
        kept_by_painting(inv, ca, cb),
        inv(cap_top(a, ca), cap_top(b, cb)),
    ensures
        inv(battery_logo(a, ca), battery_logo(b, cb)),
{
    let a0 = cap_top(a, ca);
    let b0 = cap_top(b, cb);
    lemma_box_keeps(inv, ca, cb, a0, b0, 13, 5, 6, 2);
    let a1 = fill_box(a0, 13, 5, 6, 2, ca);
    let b1 = fill_box(b0, 13, 5, 6, 2, cb);
    lemma_box_keeps(inv, ca, cb, a1, b1, 11, 9, 2, 15);
    let a2 = fill_box(a1, 11, 9, 2, 15, ca);
    let b2 = fill_box(b1, 11, 9, 2, 15, cb);
    lemma_box_keeps(inv, ca, cb, a2, b2, 19, 9, 2, 15);
    let a3 = fill_box(a2, 19, 9, 2, 15, ca);
    let b3 = fill_box(b2, 19, 9, 2, 15, cb);
    lemma_box_keeps(inv, ca, cb, a3, b3, 13, 7, 6, 2);
    let a4 = fill_box(a3, 13, 7, 6, 2, ca);
    let b4 = fill_box(b3, 13, 7, 6, 2, cb);
    lemma_box_keeps(inv, ca, cb, a4, b4, 13, 24, 6, 2);
    let a5 = fill_box(a4, 13, 24, 6, 2, ca);
    let b5 = fill_box(b4, 13, 24, 6, 2, cb);
    let a6 = put_pixel(a5, 12, 8, ca);
    let b6 = put_pixel(b5, 12, 8, cb);
    assert(inv(a6, b6));
    let a7 = put_pixel(a6, 19, 8, ca);
    let b7 = put_pixel(b6, 19, 8, cb);
    assert(inv(a7, b7));
    let a8 = put_pixel(a7, 12, 24, ca);
    let b8 = put_pixel(b7, 12, 24, cb);
    assert(inv(a8, b8));
    let a9 = put_pixel(a8, 19, 24, ca);
    let b9 = put_pixel(b8, 19, 24, cb);
    assert(inv(a9, b9));
    lemma_line_keeps(inv, ca, cb, a9, b9, 16, 11, 16, 22, 1);
    let l1a = line(a9, 16, 11, 16, 22, 1, ca);
    let l1b = line(b9, 16, 11, 16, 22, 1, cb);
    lemma_line_keeps(inv, ca, cb, l1a, l1b, 16, 11, 18, 13, 1);
    let l2a = line(l1a, 16, 11, 18, 13, 1, ca);
    let l2b = line(l1b, 16, 11, 18, 13, 1, cb);
    lemma_line_keeps(inv, ca, cb, l2a, l2b, 18, 13, 16, 16, 1);
    let l3a = line(l2a, 18, 13, 16, 16, 1, ca);
    let l3b = line(l2b, 18, 13, 16, 16, 1, cb);
    lemma_line_keeps(inv, ca, cb, l3a, l3b, 16, 16, 18, 19, 1);
    let l4a = line(l3a, 16, 16, 18, 19, 1, ca);
    let l4b = line(l3b, 16, 16, 18, 19, 1, cb);
    lemma_line_keeps(inv, ca, cb, l4a, l4b, 18, 19, 16, 22, 1);
    let l5a = line(l4a, 18, 19, 16, 22, 1, ca);
    let l5b = line(l4b, 18, 19, 16, 22, 1, cb);
    lemma_line_keeps(inv, ca, cb, l5a, l5b, 16, 16, 14, 13, 1);
    let l6a = line(l5a, 16, 16, 14, 13, 1, ca);
    let l6b = line(l5b, 16, 16, 14, 13, 1, cb);
    lemma_line_keeps(inv, ca, cb, l6a, l6b, 16, 16, 14, 19, 1);
}

proof fn lemma_painting_keeps_shape(ca: Seq<u8>, cb: Seq<u8>)
    requires
        ca.len() == 4,
        cb.len() == 4,
    ensures
        kept_by_painting(|a: Seq<u8>, b: Seq<u8>| same_shape(a, b, ca, cb), ca, cb),
{
    let inv = |a: Seq<u8>, b: Seq<u8>| same_shape(a, b, ca, cb);
    assert forall|a: Seq<u8>, b: Seq<u8>, x: int, y: int| inv(a, b) implies #[trigger] inv(
        put_pixel(a, x, y, ca),
        put_pixel(b, x, y, cb),
    ) by {
        let na = put_pixel(a, x, y, ca);
        let nb = put_pixel(b, x, y, cb);
        if 0 <= x < 32 && 0 <= y < 32 {
            let t = y * 32 + x;
            assert forall|k: int| 0 <= k < 1024 implies #[trigger] same_shape_at(
                na,
                nb,
                ca,
                cb,
                k,
            ) by {
                assert(same_shape_at(a, b, ca, cb, k));
                if k == t {
                    assert(pixel_is(na, k, ca) && pixel_is(nb, k, cb));
                } else {
                    assert(4 * k + 3 < 4 * t || 4 * t + 3 < 4 * k);
                    assert(na[4 * k] == a[4 * k] && na[4 * k + 1] == a[4 * k + 1] && na[4 * k + 2]
                        == a[4 * k + 2] && na[4 * k + 3] == a[4 * k + 3]);
                    assert(nb[4 * k] == b[4 * k] && nb[4 * k + 1] == b[4 * k + 1] && nb[4 * k + 2]
                        == b[4 * k + 2] && nb[4 * k + 3] == b[4 * k + 3]);
                }
            }
        }
    }
}

proof fn lemma_painting_keeps_pixel(ca: Seq<u8>, cb: Seq<u8>, k: int)
    requires
        ca.len() == 4,
        0 <= k < 1024,
    ensures
        kept_by_painting(|a: Seq<u8>, b: Seq<u8>| keeps_pixel(a, b, ca, k), ca, cb),
{
    let inv = |a: Seq<u8>, b: Seq<u8>| keeps_pixel(a, b, ca, k);
    assert forall|a: Seq<u8>, b: Seq<u8>, x: int, y: int| inv(a, b) implies #[trigger] inv(
        put_pixel(a, x, y, ca),
        put_pixel(b, x, y, cb),
    ) by {
        let na = put_pixel(a, x, y, ca);
        if 0 <= x < 32 && 0 <= y < 32 {
            let t = y * 32 + x;
            if k != t {
                assert(4 * k + 3 < 4 * t || 4 * t + 3 < 4 * k);
            }
        }
    }
}

/// The pixel at column 14 of the top row of the cap, painted in every logo.
pub open spec fn cap_pixel() -> int {
    142int
}

proof fn lemma_cap_top_paints(img: Seq<u8>, c: Seq<u8>)
    requires
        img.len() == 4096,
        c.len() == 4,
    ensures
        keeps_pixel(cap_top(img, c), img, c, cap_pixel()),
{
    let k = cap_pixel();
    lemma_painting_keeps_pixel(c, c, k);
    let inv = |a: Seq<u8>, b: Seq<u8>| keeps_pixel(a, b, c, k);
    let r1 = fill_row(img, 14, 4, 1, c);
    assert(r1 == put_pixel(fill_row(img, 14, 4, 0, c), 14, 4, c));
    assert(inv(r1, img));
    let r2 = fill_row(img, 14, 4, 2, c);
    assert(r2 == put_pixel(r1, 15, 4, c));
    assert(inv(r2, img));
    let r3 = fill_row(img, 14, 4, 3, c);
    assert(r3 == put_pixel(r2, 16, 4, c));
    assert(inv(r3, img));
    let r4 = fill_row(img, 14, 4, 4, c);
    assert(r4 == put_pixel(r3, 17, 4, c));
    assert(inv(r4, img));
    assert(fill_box(img, 14, 4, 4, 0, c) == img);
    assert(fill_box(img, 14, 4, 4, 1, c) == r4);
    lemma_row_keeps(inv, c, c, r4, img, 14, 5, 4);
    assert(cap_top(img, c) == fill_row(r4, 14, 5, 4, c));
    assert(inv(cap_top(img, c), fill_row(img, 14, 5, 4, c)));
}

/// Every logo paints exactly the same pixels whatever its color: drawn from
/// the transparent icon in `ca` and in `cb`, each pixel is painted in both,
/// each in its color, or transparent in both.
pub proof fn lemma_logo_shape_is_color_free(ca: Seq<u8>, cb: Seq<u8>)
    requires
        ca.len() == 4,
        cb.len() == 4,
    ensures
        same_shape(battery_logo(blank_icon(), ca), battery_logo(blank_icon(), cb), ca, cb),
{
    let inv = |a: Seq<u8>, b: Seq<u8>| same_shape(a, b, ca, cb);
    lemma_painting_keeps_shape(ca, cb);
    let z = blank_icon();
    assert forall|k: int| 0 <= k < 1024 implies #[trigger] same_shape_at(z, z, ca, cb, k) by {
        assert(pixel_is(z, k, clear_rgba()));
    }
    assert(inv(z, z));
    lemma_box_keeps(inv, ca, cb, z, z, 14, 4, 4, 2);
    lemma_logo_keeps(inv, ca, cb, z, z);
}

/// The logo in color `c` shows `c` on the top row of its cap.
pub proof fn lemma_logo_shows_color(c: Seq<u8>)
    requires
        c.len() == 4,
    ensures
        pixel_is(battery_logo(blank_icon(), c), cap_pixel(), c),
{
    let k = cap_pixel();
    lemma_painting_keeps_pixel(c, c, k);
    let inv = |a: Seq<u8>, b: Seq<u8>| keeps_pixel(a, b, c, k);
    lemma_cap_top_paints(blank_icon(), c);
    assert(inv(cap_top(blank_icon(), c), cap_top(blank_icon(), c)));
    lemma_logo_keeps(inv, c, c, blank_icon(), blank_icon());
}

/// The color band of a percentage: critical up to 10, low up to 20, healthy
/// above, values above 100 counting as 100.
pub open spec fn color_band(percentage: u8) -> int {
    if percentage <= 10 {
        0
    } else if percentage <= 20 {
        1
    } else {
        2
    }
}

/// Two percentage icons are equal exactly when their percentages fall in
/// the same color band; each paints the same pixels, in its band's color,
/// and leaves every other pixel transparent.
pub proof fn lemma_percentage_icons_differ_only_by_band(p: u8, q: u8)
    ensures
        (battery_logo(blank_icon(), status_rgba(p)) == battery_logo(blank_icon(), status_rgba(q)))
            <==> color_band(p) == color_band(q),
        same_shape(
            battery_logo(blank_icon(), status_rgba(p)),
            battery_logo(blank_icon(), status_rgba(q)),
            status_rgba(p),
            status_rgba(q),
        ),
{
    let cp = status_rgba(p);
    let cq = status_rgba(q);
    lemma_logo_shape_is_color_free(cp, cq);
    if color_band(p) == color_band(q) {
        assert(cp == cq);
    } else {
        lemma_logo_shows_color(cp);
        lemma_logo_shows_color(cq);
        assert(cp[1] != cq[1]);
        let lp = battery_logo(blank_icon(), cp);
        let lq = battery_logo(blank_icon(), cq);
        assert(lp[4 * cap_pixel() + 1] != lq[4 * cap_pixel() + 1]);
    }
}

} // verus!
