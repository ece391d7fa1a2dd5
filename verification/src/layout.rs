use vstd::prelude::*;
use crate::stack::Stack;
use crate::window_system::{Rectangle, Window, fits_i32, offset};

verus! {

/// Messages that a layout may act on to change its settings.
#[derive(Clone, Copy, Debug, PartialEq, Eq, Structural)]
pub enum LayoutMessage {
    Increase,
    Decrease,
    IncreaseMaster,
    DecreaseMaster,
    IncreaseSlave,
    DecreaseSlave,
    IncreaseGap,
    DecreaseGap,
    Next,
    Prev,
    HorizontalSplit,
    VerticalSplit,
    Hide,
    TreeRotate,
    TreeSwap,
    TreeExpandTowards(Direction),
    TreeShrinkFrom(Direction),
}

/// An edge of the screen, or a way to move.
#[derive(Clone, Copy, Debug, Ord, Eq, PartialOrd, PartialEq, Structural)]
pub enum Direction {
    Up,
    Down,
    Left,
    Right,
}

impl Direction {
    /// The direction pointing the other way.
    pub open spec fn spec_opposite(self) -> Direction {
        match self {
            Direction::Up => Direction::Down,
            Direction::Down => Direction::Up,
            Direction::Left => Direction::Right,
            Direction::Right => Direction::Left,
        }
    }

    /// The direction pointing the other way.
    pub fn opposite(&self) -> (r: Direction)
        ensures
            r == self.spec_opposite(),
    {
        match self {
            Direction::Up => Direction::Down,
            Direction::Down => Direction::Up,
            Direction::Left => Direction::Right,
            Direction::Right => Direction::Left,
        }
    }
}

/// The opposite of the opposite direction is the direction itself, and no
/// direction is its own opposite.
pub proof fn lemma_opposite_involution(d: Direction)
    ensures
        d.spec_opposite().spec_opposite() == d,
        d.spec_opposite() != d,
{
}

/// The rectangle reflected at the main diagonal.
pub open spec fn spec_mirror_rect(r: Rectangle) -> Rectangle {
    Rectangle(r.1, r.0, r.3, r.2)
}

/// The rectangle reflected at the main diagonal: x and y trade places, and so
/// do width and height.
pub fn mirror_rect(r: &Rectangle) -> (m: Rectangle)
    ensures
        m == spec_mirror_rect(*r),
{
    let Rectangle(x, y, w, h) = *r;
    Rectangle(y, x, h, w)
}

/// Mirroring twice gives the rectangle back.
pub proof fn lemma_mirror_involution(r: Rectangle)
    ensures
        spec_mirror_rect(spec_mirror_rect(r)) == r,
{
}

/// The rectangle below the first row when `num` rows are cut from the
/// screen: the first row is `screen.3 / num` high.
pub open spec fn below_first_row(num: u32, s: Rectangle) -> Rectangle {
    let small = s.3 / num;
    Rectangle(s.0, (s.1 + small) as i32, s.2, (s.3 - small) as u32)
}

/// Cutting the screen into `num` rows computes no coordinate outside `i32`.
pub open spec fn split_vertically_fits(num: u32, s: Rectangle) -> bool
    decreases num,
{
    if num < 2 {
        true
    } else {
        fits_i32(s.1 + s.3 / num) && split_vertically_fits((num - 1) as u32, below_first_row(num, s))
    }
}

/// The screen cut into `num` rows of full width (a single row when `num`
/// is below two). Each row takes its share of the height that the rows
/// above it left over.
pub open spec fn spec_split_vertically(num: u32, s: Rectangle) -> Seq<Rectangle>
    decreases num,
{
    if num < 2 {
        seq![s]
    } else {
        seq![Rectangle(s.0, s.1, s.2, s.3 / num)] + spec_split_vertically(
            (num - 1) as u32,
            below_first_row(num, s),
        )
    }
}

/// Whether `split_vertically` can cut the screen into `num` rows.
pub fn check_split_vertically(num: u32, screen: Rectangle) -> (r: bool)
    ensures
        r == split_vertically_fits(num, screen),
    decreases num,
{
    if num < 2 {
        return true;
    }
    let Rectangle(sx, sy, sw, sh) = screen;
    let smallh = sh / num;
    assert(smallh <= sh / 2) by (nonlinear_arith)
        requires
            num >= 2,
            smallh == sh / num,
    ;
    let y = sy as i64 + smallh as i64;
    if y > i32::MAX as i64 {
        false
    } else {
        check_split_vertically(num - 1, Rectangle(sx, y as i32, sw, sh - smallh))
    }
}

/// Cuts the screen into `num` rows of full width; see `spec_split_vertically`.
pub fn split_vertically(num: u32, screen: Rectangle) -> (r: Vec<Rectangle>)
    requires
        split_vertically_fits(num, screen),
    ensures
        r@ == spec_split_vertically(num, screen),
    decreases num,
{
    if num < 2 {
        return vec![screen];
    }
    let Rectangle(sx, sy, sw, sh) = screen;
    let smallh = sh / num;
    assert(smallh <= sh / 2) by (nonlinear_arith)
        requires
            num >= 2,
            smallh == sh / num,
    ;
    let rest = split_vertically(num - 1, Rectangle(sx, sy + smallh as i32, sw, sh - smallh));
    let mut r = vec![Rectangle(sx, sy, sw, smallh)];
    let mut i: usize = 0;
    while i < rest.len()
        invariant
            i <= rest.len(),
            r@ == seq![Rectangle(sx, sy, sw, smallh)] + rest@.subrange(0, i as int),
        decreases rest.len() - i,
    {
        r.push(rest[i]);
        i = i + 1;
        assert(seq![Rectangle(sx, sy, sw, smallh)] + rest@.subrange(0, i as int) =~= (seq![
            Rectangle(sx, sy, sw, smallh),
        ] + rest@.subrange(0, i - 1)).push(rest@[i - 1]));
    }
    assert(rest@.subrange(0, rest@.len() as int) =~= rest@);
    r
}

/// The sum of the heights of the rectangles.
pub open spec fn total_height(rs: Seq<Rectangle>) -> int
    decreases rs.len(),
{
    if rs.len() == 0 {
        0
    } else {
        rs[0].3 + total_height(rs.drop_first())
    }
}

/// Cutting a screen into rows gives `num` rows (one when `num` is below
/// two), each as wide as the screen, stacked from its top edge, whose
/// heights add up to the screen's height; the first row takes the
/// `num`-th part of the height.
pub proof fn lemma_split_vertically_partition(num: u32, s: Rectangle)
    requires
        split_vertically_fits(num, s),
    ensures
        spec_split_vertically(num, s).len() == if num < 2 { 1 } else { num as int },
        total_height(spec_split_vertically(num, s)) == s.3,
        spec_split_vertically(num, s)[0].1 == s.1,
        num >= 2 ==> spec_split_vertically(num, s)[0].3 == s.3 / num,
        forall|i: int|
            0 <= i < spec_split_vertically(num, s).len() ==> #[trigger] spec_split_vertically(num, s)[i].0
                == s.0 && spec_split_vertically(num, s)[i].2 == s.2,
        forall|i: int|
            0 <= i < spec_split_vertically(num, s).len() - 1 ==> spec_split_vertically(num, s)[i + 1].1
                == spec_split_vertically(num, s)[i].1 + #[trigger] spec_split_vertically(num, s)[i].3,
    decreases num,
{
    let rs = spec_split_vertically(num, s);
    if num < 2 {
        assert(total_height(rs) == s.3 + total_height(rs.drop_first()));
        assert(rs.drop_first().len() == 0);
    } else {
        let small = s.3 / num;
        assert(small <= s.3 / 2) by (nonlinear_arith)
            requires
                num >= 2,
                small == s.3 / num,
        ;
        let next = below_first_row(num, s);
        lemma_split_vertically_partition((num - 1) as u32, next);
        let rest = spec_split_vertically((num - 1) as u32, next);
        assert(rs.drop_first() =~= rest);
        assert forall|i: int| 0 <= i < rs.len() - 1 implies rs[i + 1].1 == rs[i].1 + #[trigger] rs[i].3 by {
            if i > 0 {
                assert(rs[i] == rest[i - 1]);
                assert(rs[i + 1] == rest[i]);
            }
        }
        assert forall|i: int| 0 <= i < rs.len() implies #[trigger] rs[i].0 == s.0 && rs[i].2 == s.2 by {
            if i > 0 {
                assert(rs[i] == rest[i - 1]);
            }
        }
    }
}

/// Splitting the screen at `width` from its left edge computes no
/// coordinate outside `i32` and leaves no negative width.
pub open spec fn split_horizontally_fits(width: u32, s: Rectangle) -> bool {
    width <= s.2 && fits_i32(offset(s.0, width))
}

/// The screen cut into a left part `width` wide and the right part.
pub open spec fn spec_split_horizontally_at(width: u32, s: Rectangle) -> (Rectangle, Rectangle) {
    (Rectangle(s.0, s.1, width, s.3), Rectangle(offset(s.0, width) as i32, s.1, (s.2 - width) as u32, s.3))
}

/// Cuts the screen into a left part `width` wide and the rest.
pub fn split_horizontally_at(width: u32, screen: Rectangle) -> (r: (Rectangle, Rectangle))
    requires
        split_horizontally_fits(width, screen),
    ensures
        r == spec_split_horizontally_at(width, screen),
{
    let Rectangle(sx, sy, sw, sh) = screen;
    (Rectangle(sx, sy, width, sh), Rectangle(sx + width as i32, sy, sw - width, sh))
}

/// The master windows share the left part of the screen, `master_width`
/// wide, in rows; the other windows share the rest in rows. When every
/// window is a master, or there are none, all windows share the whole
/// screen in rows.
pub open spec fn spec_tile(master_width: u32, s: Rectangle, num_master: u32, num_windows: u32) -> Seq<
    Rectangle,
> {
    if num_windows <= num_master || num_master == 0 {
        spec_split_vertically(num_windows, s)
    } else {
        let (r1, r2) = spec_split_horizontally_at(master_width, s);
        spec_split_vertically(num_master, r1) + spec_split_vertically(
            (num_windows - num_master) as u32,
            r2,
        )
    }
}

/// Tiling the screen computes no coordinate outside `i32` and leaves no
/// negative width.
pub open spec fn tile_fits(master_width: u32, s: Rectangle, num_master: u32, num_windows: u32) -> bool {
    if num_windows <= num_master || num_master == 0 {
        split_vertically_fits(num_windows, s)
    } else {
        let (r1, r2) = spec_split_horizontally_at(master_width, s);
        &&& split_horizontally_fits(master_width, s)
        &&& split_vertically_fits(num_master, r1)
        &&& split_vertically_fits((num_windows - num_master) as u32, r2)
    }
}

/// Whether `tile` can lay out the windows.
pub fn check_tile(master_width: u32, screen: Rectangle, num_master: u32, num_windows: u32) -> (r: bool)
    ensures
        r == tile_fits(master_width, screen, num_master, num_windows),
{
    if num_windows <= num_master || num_master == 0 {
        check_split_vertically(num_windows, screen)
    } else {
        let Rectangle(sx, _, sw, _) = screen;
        let x = sx as i64 + (master_width as i32) as i64;
        if master_width > sw || x < i32::MIN as i64 || x > i32::MAX as i64 {
            return false;
        }
        let (r1, r2) = split_horizontally_at(master_width, screen);
        check_split_vertically(num_master, r1) && check_split_vertically(num_windows - num_master, r2)
    }
}

/// The tiles of the master windows and the others; see `spec_tile`.
pub fn tile(master_width: u32, screen: Rectangle, num_master: u32, num_windows: u32) -> (r: Vec<
    Rectangle,
>)
    requires
        tile_fits(master_width, screen, num_master, num_windows),
    ensures
        r@ == spec_tile(master_width, screen, num_master, num_windows),
{
    if num_windows <= num_master || num_master == 0 {
        split_vertically(num_windows, screen)
    } else {
        let (r1, r2) = split_horizontally_at(master_width, screen);
        let v1 = split_vertically(num_master, r1);
        let v2 = split_vertically(num_windows - num_master, r2);
        crate::stack::concat_vec(&v1, &v2)
    }
}

/// The windows of the stack in display order, each with the rectangle of
/// the tiling at its position.
pub open spec fn spec_tall_layout(
    stack: Option<crate::stack::Zipper<Window>>,
    screen: Rectangle,
    num_master: u32,
    master_width: u32,
) -> Seq<(Window, Rectangle)> {
    match stack {
        None => Seq::empty(),
        Some(z) => {
            let ws = z.integrate();
            let rs = spec_tile(master_width, screen, num_master, ws.len() as u32);
            Seq::new(
                if ws.len() <= rs.len() { ws.len() } else { rs.len() },
                |i: int| (ws[i], rs[i]),
            )
        },
    }
}

/// Lays out the stack in the tall layout: `master_width` is the width of
/// the master column, the share of the screen's width that the layout's
/// ratio gives.
pub fn tall_layout(
    stack: &Option<Stack<Window>>,
    screen: Rectangle,
    num_master: u32,
    master_width: u32,
) -> (r: Vec<(Window, Rectangle)>)
    requires
        stack matches Some(s) ==> s@.len() <= u32::MAX && tile_fits(
            master_width,
            screen,
            num_master,
            s@.len() as u32,
        ),
    ensures
        r@ == spec_tall_layout(
            match stack {
                Some(s) => Some(s@),
                None => None,
            },
            screen,
            num_master,
            master_width,
        ),
{
    match stack {
        None => Vec::new(),
        Some(s) => {
            let ws = s.integrate();
            proof {
                crate::stack::lemma_integrate_len_contains(s@, s.focus);
            }
            let rs = tile(master_width, screen, num_master, ws.len() as u32);
            let n = if ws.len() <= rs.len() {
                ws.len()
            } else {
                rs.len()
            };
            let mut r: Vec<(Window, Rectangle)> = Vec::new();
            let mut i: usize = 0;
            while i < n
                invariant
                    i <= n,
                    n <= ws.len(),
                    n <= rs.len(),
                    r@.len() == i,
                    forall|k: int| 0 <= k < i ==> #[trigger] r@[k] == (ws@[k], rs@[k]),
                decreases n - i,
            {
                r.push((ws[i], rs[i]));
                i = i + 1;
            }
            assert(r@ =~= Seq::new(n as nat, |k: int| (ws@[k], rs@[k])));
            r
        },
    }
}

/// The tile has a place for each of the windows, when there is at least
/// one.
pub proof fn lemma_tile_len(master_width: u32, s: Rectangle, num_master: u32, num_windows: u32)
    requires
        num_windows >= 1,
        tile_fits(master_width, s, num_master, num_windows),
    ensures
        spec_tile(master_width, s, num_master, num_windows).len() == num_windows,
{
    if num_windows <= num_master || num_master == 0 {
        lemma_split_vertically_partition(num_windows, s);
    } else {
        let (r1, r2) = spec_split_horizontally_at(master_width, s);
        lemma_split_vertically_partition(num_master, r1);
        lemma_split_vertically_partition((num_windows - num_master) as u32, r2);
    }
}

/// Tiling with masters and other windows puts the masters in a column
/// `master_width` wide at the screen's left edge and the others in the
/// column right of it (its left edge offset by `master_width` read as an
/// `i32`), each column filled from the screen's top to its
/// bottom; otherwise every tile spans the screen's width.
pub proof fn lemma_tile_columns(master_width: u32, s: Rectangle, num_master: u32, num_windows: u32)
    requires
        tile_fits(master_width, s, num_master, num_windows),
    ensures
        num_windows <= num_master || num_master == 0 ==> forall|k: int|
            0 <= k < spec_tile(master_width, s, num_master, num_windows).len() ==> (#[trigger] spec_tile(
                master_width,
                s,
                num_master,
                num_windows,
            )[k]).0 == s.0 && spec_tile(master_width, s, num_master, num_windows)[k].2 == s.2,
        0 < num_master < num_windows ==> {
            let t = spec_tile(master_width, s, num_master, num_windows);
            &&& t.len() == num_windows
            &&& forall|k: int| 0 <= k < num_master ==> (#[trigger] t[k]).0 == s.0 && t[k].2 == master_width
            &&& forall|k: int|
                num_master <= k < num_windows ==> (#[trigger] t[k]).0 == s.0 + (master_width as i32) && t[k].2
                    == s.2 - master_width
            &&& t[0].1 == s.1
            &&& t[num_master as int].1 == s.1
            &&& total_height(t.take(num_master as int)) == s.3
            &&& total_height(t.skip(num_master as int)) == s.3
        },
{
    let t = spec_tile(master_width, s, num_master, num_windows);
    if num_windows <= num_master || num_master == 0 {
        lemma_split_vertically_partition(num_windows, s);
        assert forall|k: int| 0 <= k < t.len() implies (#[trigger] t[k]).0 == s.0 && t[k].2 == s.2 by {
            assert(t[k] == spec_split_vertically(num_windows, s)[k]);
        }
    } else {
        let (r1, r2) = spec_split_horizontally_at(master_width, s);
        let n2 = (num_windows - num_master) as u32;
        lemma_split_vertically_partition(num_master, r1);
        lemma_split_vertically_partition(n2, r2);
        let a = spec_split_vertically(num_master, r1);
        let b = spec_split_vertically(n2, r2);
        assert(t == a + b);
        assert(t.take(num_master as int) =~= a);
        assert(t.skip(num_master as int) =~= b);
        assert forall|k: int| num_master <= k < num_windows implies (#[trigger] t[k]).0 == s.0 + (
        master_width as i32) && t[k].2 == s.2 - master_width by {
            assert(t[k] == b[k - num_master]);
        }
        assert(t[num_master as int] == b[0]);
    }
}

/// The tall layout gives every window of the stack a place, in display
/// order: the window at each position gets the tile at that position.
pub proof fn lemma_tall_layout_places_all(
    z: crate::stack::Zipper<Window>,
    screen: Rectangle,
    num_master: u32,
    master_width: u32,
)
    requires
        z.len() <= u32::MAX,
        tile_fits(master_width, screen, num_master, z.len() as u32),
    ensures
        spec_tall_layout(Some(z), screen, num_master, master_width).len() == z.len(),
        spec_tall_layout(Some(z), screen, num_master, master_width).map_values(
            |p: (Window, Rectangle)| p.0,
        ) == z.integrate(),
        forall|k: int|
            0 <= k < z.len() ==> (#[trigger] spec_tall_layout(Some(z), screen, num_master, master_width)[k]).1
                == spec_tile(master_width, screen, num_master, z.len() as u32)[k],
{
    let ws = z.integrate();
    crate::stack::lemma_integrate_len_contains(z, z.focus);
    lemma_tile_len(master_width, screen, num_master, ws.len() as u32);
    assert(spec_tall_layout(Some(z), screen, num_master, master_width).map_values(
        |p: (Window, Rectangle)| p.0,
    ) =~= ws);
}

/// A reserved area along one screen edge: the edge, its thickness, and
/// where along the edge it starts and ends.
#[derive(Clone, Copy, Debug, PartialEq, Eq)]
pub struct Strut(pub Direction, pub u64, pub u64, pub u64);

/// The strut, unless it has no thickness.
pub open spec fn nonzero_strut(s: Strut) -> Seq<Strut> {
    if s.1 != 0 {
        seq![s]
    } else {
        Seq::empty()
    }
}

/// The struts of a `_NET_WM_STRUT_PARTIAL` value: left, right, top and
/// bottom, those of zero thickness left out. A value that does not have
/// twelve fields gives no struts.
pub open spec fn spec_parse_strut_partial(x: Seq<u64>) -> Seq<Strut> {
    if x.len() == 12 {
        nonzero_strut(Strut(Direction::Left, x[0], x[4], x[5])) + nonzero_strut(
            Strut(Direction::Right, x[1], x[6], x[7]),
        ) + nonzero_strut(Strut(Direction::Up, x[2], x[8], x[9])) + nonzero_strut(
            Strut(Direction::Down, x[3], x[10], x[11]),
        )
    } else {
        Seq::empty()
    }
}

fn push_nonzero(v: &mut Vec<Strut>, s: Strut)
    ensures
        final(v)@ == old(v)@ + nonzero_strut(s),
{
    if s.1 != 0 {
        v.push(s);
        assert(final(v)@ =~= old(v)@ + seq![s]);
    } else {
        assert(old(v)@ + Seq::<Strut>::empty() =~= old(v)@);
    }
}

/// The struts of a partial strut property: twelve numbers, the thicknesses at
/// the left, right, top and bottom, then where each starts and ends; struts of
/// thickness zero are left out, and a property of another length gives none.
pub fn parse_strut_partial(x: Vec<u64>) -> (r: Vec<Strut>)
    ensures
        r@ == spec_parse_strut_partial(x@),
{
    if x.len() == 12 {
        let mut r: Vec<Strut> = Vec::new();
        push_nonzero(&mut r, Strut(Direction::Left, x[0], x[4], x[5]));
        push_nonzero(&mut r, Strut(Direction::Right, x[1], x[6], x[7]));
        push_nonzero(&mut r, Strut(Direction::Up, x[2], x[8], x[9]));
        push_nonzero(&mut r, Strut(Direction::Down, x[3], x[10], x[11]));
        assert(Seq::<Strut>::empty() + nonzero_strut(Strut(Direction::Left, x@[0], x@[4], x@[5]))
            =~= nonzero_strut(Strut(Direction::Left, x@[0], x@[4], x@[5])));
        r
    } else {
        Vec::new()
    }
}

/// Each field of a twelve-field partial strut value is read along its own
/// edge: the first thickness along the left edge with the fifth and sixth
/// fields as its extent, the second along the right edge with the seventh
/// and eighth, the third along the top with the ninth and tenth, the fourth
/// along the bottom with the eleventh and twelfth. A strut is there exactly
/// when its thickness is not zero, nothing else is there, and the struts
/// come in the order left, right, top, bottom.
pub proof fn lemma_parse_strut_partial_fields(x: Seq<u64>)
    requires
        x.len() == 12,
    ensures
        spec_parse_strut_partial(x).contains(Strut(Direction::Left, x[0], x[4], x[5])) <==> x[0] != 0,
        spec_parse_strut_partial(x).contains(Strut(Direction::Right, x[1], x[6], x[7])) <==> x[1] != 0,
        spec_parse_strut_partial(x).contains(Strut(Direction::Up, x[2], x[8], x[9])) <==> x[2] != 0,
        spec_parse_strut_partial(x).contains(Strut(Direction::Down, x[3], x[10], x[11])) <==> x[3] != 0,
        forall|k: int|
            0 <= k < spec_parse_strut_partial(x).len() ==> {
                let s = #[trigger] spec_parse_strut_partial(x)[k];
                ||| s == Strut(Direction::Left, x[0], x[4], x[5]) && x[0] != 0
                ||| s == Strut(Direction::Right, x[1], x[6], x[7]) && x[1] != 0
                ||| s == Strut(Direction::Up, x[2], x[8], x[9]) && x[2] != 0
                ||| s == Strut(Direction::Down, x[3], x[10], x[11]) && x[3] != 0
            },
        spec_parse_strut_partial(x).len() == (if x[0] != 0 { 1int } else { 0int }) + (if x[1] != 0 {
            1int
        } else {
            0int
        }) + (if x[2] != 0 { 1int } else { 0int }) + (if x[3] != 0 { 1int } else { 0int }),
        forall|a: int, b: int|
            0 <= a < b < spec_parse_strut_partial(x).len() ==> edge_rank(
                (#[trigger] spec_parse_strut_partial(x)[a]).0,
            ) < edge_rank((#[trigger] spec_parse_strut_partial(x)[b]).0),
{
    let l = nonzero_strut(Strut(Direction::Left, x[0], x[4], x[5]));
    let r = nonzero_strut(Strut(Direction::Right, x[1], x[6], x[7]));
    let u = nonzero_strut(Strut(Direction::Up, x[2], x[8], x[9]));
    let d = nonzero_strut(Strut(Direction::Down, x[3], x[10], x[11]));
    let all = spec_parse_strut_partial(x);
    assert(all == l + r + u + d);
    let s1 = Strut(Direction::Left, x[0], x[4], x[5]);
    let s2 = Strut(Direction::Right, x[1], x[6], x[7]);
    let s3 = Strut(Direction::Up, x[2], x[8], x[9]);
    let s4 = Strut(Direction::Down, x[3], x[10], x[11]);
    assert forall|k: int| 0 <= k < all.len() implies {
        let s = #[trigger] all[k];
        ||| s == s1 && x[0] != 0
        ||| s == s2 && x[1] != 0
        ||| s == s3 && x[2] != 0
        ||| s == s4 && x[3] != 0
    } by {
        if k < l.len() {
        } else if k < l.len() + r.len() {
            assert(all[k] == r[k - l.len()]);
        } else if k < l.len() + r.len() + u.len() {
            assert(all[k] == u[k - l.len() - r.len()]);
        } else {
            assert(all[k] == d[k - l.len() - r.len() - u.len()]);
        }
    }
    if x[0] != 0 {
        assert(all[0] == s1);
    }
    if x[1] != 0 {
        assert(all[l.len() as int] == s2);
    }
    if x[2] != 0 {
        assert(all[(l.len() + r.len()) as int] == s3);
    }
    if x[3] != 0 {
        assert(all[(l.len() + r.len() + u.len()) as int] == s4);
    }
    if all.contains(s1) {
        let k = choose|k: int| 0 <= k < all.len() && all[k] == s1;
        assert(all[k] == all[k]);
    }
    if all.contains(s2) {
        let k = choose|k: int| 0 <= k < all.len() && all[k] == s2;
        assert(all[k] == all[k]);
    }
    if all.contains(s3) {
        let k = choose|k: int| 0 <= k < all.len() && all[k] == s3;
        assert(all[k] == all[k]);
    }
    if all.contains(s4) {
        let k = choose|k: int| 0 <= k < all.len() && all[k] == s4;
        assert(all[k] == all[k]);
    }
    assert forall|a: int, b: int| 0 <= a < b < all.len() implies edge_rank((#[trigger] all[a]).0) < edge_rank(
        (#[trigger] all[b]).0,
    ) by {
        let ga = if a < l.len() { 0int } else if a < l.len() + r.len() { 1int } else if a < l.len() + r.len() + u.len() { 2int } else { 3int };
        let gb = if b < l.len() { 0int } else if b < l.len() + r.len() { 1int } else if b < l.len() + r.len() + u.len() { 2int } else { 3int };
        if a < l.len() {
            assert(all[a] == s1);
        } else if a < l.len() + r.len() {
            assert(all[a] == r[a - l.len()]);
        } else if a < l.len() + r.len() + u.len() {
            assert(all[a] == u[a - l.len() - r.len()]);
        } else {
            assert(all[a] == d[a - l.len() - r.len() - u.len()]);
        }
        if b < l.len() {
            assert(all[b] == s1);
        } else if b < l.len() + r.len() {
            assert(all[b] == r[b - l.len()]);
        } else if b < l.len() + r.len() + u.len() {
            assert(all[b] == u[b - l.len() - r.len()]);
        } else {
            assert(all[b] == d[b - l.len() - r.len() - u.len()]);
        }
        assert(ga < gb);
    }
}

/// The place of an edge in the order left, right, top, bottom.
pub open spec fn edge_rank(d: Direction) -> int {
    match d {
        Direction::Left => 0,
        Direction::Right => 1,
        Direction::Up => 2,
        Direction::Down => 3,
    }
}

/// The struts of a `_NET_WM_STRUT` value: its four thicknesses, each
/// reserved along the whole edge. A value that does not have four fields
/// gives no struts.
pub open spec fn spec_parse_strut(x: Seq<u64>) -> Seq<Strut> {
    if x.len() == 4 {
        spec_parse_strut_partial(x + seq![0u64, u64::MAX, 0u64, u64::MAX, 0u64, u64::MAX, 0u64, u64::MAX])
    } else {
        Seq::empty()
    }
}

/// The struts of a strut property: four thicknesses, each spanning its whole
/// edge; a property of another length gives none.
pub fn parse_strut(x: Vec<u64>) -> (r: Vec<Strut>)
    ensures
        r@ == spec_parse_strut(x@),
{
    if x.len() == 4 {
        let mut t = crate::stack::copy_vec(&x);
        let mut k: usize = 0;
        while k < 4
            invariant
                k <= 4,
                x@.len() == 4,
                t@.len() == 4 + 2 * k,
                forall|i: int| 0 <= i < 4 ==> #[trigger] t@[i] == x@[i],
                forall|i: int| 4 <= i < t@.len() ==> #[trigger] t@[i] == if (i - 4) % 2 == 0 { 0u64 } else { u64::MAX },
            decreases 4 - k,
        {
            t.push(0u64);
            t.push(u64::MAX);
            k = k + 1;
        }
        assert(t@ =~= x@ + seq![0u64, u64::MAX, 0u64, u64::MAX, 0u64, u64::MAX, 0u64, u64::MAX]);
        parse_strut_partial(t)
    } else {
        Vec::new()
    }
}

/// The rectangle with a strut of thickness `s` taken off the edge `d`.
pub open spec fn shrink_by_strut(r: Rectangle, d: Direction, s: u32) -> Rectangle {
    match d {
        Direction::Up => Rectangle(r.0, offset(r.1, s) as i32, r.2, (r.3 - s) as u32),
        Direction::Down => Rectangle(r.0, r.1, r.2, (r.3 - s) as u32),
        Direction::Left => Rectangle(offset(r.0, s) as i32, r.1, (r.2 - s) as u32, r.3),
        Direction::Right => Rectangle(r.0, r.1, (r.2 - s) as u32, r.3),
    }
}

/// Taking the strut off computes no coordinate outside `i32` and leaves
/// no negative size.
pub open spec fn shrink_fits(r: Rectangle, d: Direction, s: u32) -> bool {
    match d {
        Direction::Up => s <= r.3 && fits_i32(offset(r.1, s)),
        Direction::Down => s <= r.3,
        Direction::Left => s <= r.2 && fits_i32(offset(r.0, s)),
        Direction::Right => s <= r.2,
    }
}

/// The screen with the struts along the given edges taken off, one after
/// the other; each thickness is read as a `u32` the way an `as` cast
/// reads it.
pub open spec fn spec_avoid_struts(r: Rectangle, struts: Seq<Strut>, dirs: Seq<Direction>) -> Rectangle
    decreases struts.len(),
{
    if struts.len() == 0 {
        r
    } else {
        let st = struts[0];
        let next = if dirs.contains(st.0) {
            shrink_by_strut(r, st.0, st.1 as u32)
        } else {
            r
        };
        spec_avoid_struts(next, struts.drop_first(), dirs)
    }
}

/// Taking the struts off the screen computes no coordinate outside `i32` and
/// leaves no negative size.
pub open spec fn avoid_struts_fits(r: Rectangle, struts: Seq<Strut>, dirs: Seq<Direction>) -> bool
    decreases struts.len(),
{
    if struts.len() == 0 {
        true
    } else {
        let st = struts[0];
        if dirs.contains(st.0) {
            shrink_fits(r, st.0, st.1 as u32) && avoid_struts_fits(
                shrink_by_strut(r, st.0, st.1 as u32),
                struts.drop_first(),
                dirs,
            )
        } else {
            avoid_struts_fits(r, struts.drop_first(), dirs)
        }
    }
}

/// The total thickness, read as `u32`, of the struts along edge `d` that
/// are kept clear of.
pub open spec fn edge_thickness(struts: Seq<Strut>, dirs: Seq<Direction>, d: Direction) -> int
    decreases struts.len(),
{
    if struts.len() == 0 {
        0
    } else {
        (if struts[0].0 == d && dirs.contains(d) {
            (struts[0].1 as u32) as int
        } else {
            0int
        }) + edge_thickness(struts.drop_first(), dirs, d)
    }
}

/// How far the struts along edge `d` that are kept clear of move the
/// corner, each thickness read as an `i32` offset.
pub open spec fn edge_shift(struts: Seq<Strut>, dirs: Seq<Direction>, d: Direction) -> int
    decreases struts.len(),
{
    if struts.len() == 0 {
        0
    } else {
        (if struts[0].0 == d && dirs.contains(d) {
            ((struts[0].1 as u32) as i32) as int
        } else {
            0int
        }) + edge_shift(struts.drop_first(), dirs, d)
    }
}

/// Keeping clear of struts moves the left edge right by the struts at the
/// left and the top edge down by the struts at the top; the width shrinks
/// by the struts at the left and at the right, the height by those at the
/// top and at the bottom. Struts along edges not asked for count for
/// nothing.
pub proof fn lemma_avoid_struts_edges(r: Rectangle, struts: Seq<Strut>, dirs: Seq<Direction>)
    requires
        avoid_struts_fits(r, struts, dirs),
    ensures
        spec_avoid_struts(r, struts, dirs).0 == r.0 + edge_shift(struts, dirs, Direction::Left),
        spec_avoid_struts(r, struts, dirs).1 == r.1 + edge_shift(struts, dirs, Direction::Up),
        spec_avoid_struts(r, struts, dirs).2 == r.2 - edge_thickness(struts, dirs, Direction::Left)
            - edge_thickness(struts, dirs, Direction::Right),
        spec_avoid_struts(r, struts, dirs).3 == r.3 - edge_thickness(struts, dirs, Direction::Up)
            - edge_thickness(struts, dirs, Direction::Down),
    decreases struts.len(),
{
    if struts.len() > 0 {
        let st = struts[0];
        let next = if dirs.contains(st.0) {
            shrink_by_strut(r, st.0, st.1 as u32)
        } else {
            r
        };
        lemma_avoid_struts_edges(next, struts.drop_first(), dirs);
    }
}

fn contains_direction(dirs: &Vec<Direction>, d: Direction) -> (r: bool)
    ensures
        r == dirs@.contains(d),
{
    let mut i: usize = 0;
    while i < dirs.len()
        invariant
            i <= dirs.len(),
            forall|k: int| 0 <= k < i ==> dirs@[k] != d,
        decreases dirs.len() - i,
    {
        if dirs[i] == d {
            assert(dirs@[i as int] == d);
            return true;
        }
        i = i + 1;
    }
    false
}

/// Whether `avoid_struts` can take the struts off the screen.
pub fn check_avoid_struts(screen: Rectangle, struts: &Vec<Strut>, directions: &Vec<Direction>) -> (r: bool)
    ensures
        r == avoid_struts_fits(screen, struts@, directions@),
{
    let mut acc = screen;
    let mut i: usize = 0;
    assert(struts@.skip(0) =~= struts@);
    while i < struts.len()
        invariant
            i <= struts.len(),
            avoid_struts_fits(acc, struts@.skip(i as int), directions@) == avoid_struts_fits(
                screen,
                struts@,
                directions@,
            ),
        decreases struts.len() - i,
    {
        let Strut(d, sw, _, _) = struts[i];
        let s = sw as u32;
        assert(struts@.skip(i as int)[0] == struts@[i as int]);
        assert(struts@.skip(i as int).drop_first() =~= struts@.skip(i + 1));
        if contains_direction(directions, d) {
            let Rectangle(x, y, w, h) = acc;
            let fits = match d {
                Direction::Up => s <= h && y as i64 + (s as i32) as i64 <= i32::MAX as i64 && y as i64 + (s as i32) as i64
                    >= i32::MIN as i64,
                Direction::Down => s <= h,
                Direction::Left => s <= w && x as i64 + (s as i32) as i64 <= i32::MAX as i64 && x as i64 + (s as i32) as i64
                    >= i32::MIN as i64,
                Direction::Right => s <= w,
            };
            if !fits {
                return false;
            }
            acc = match d {
                Direction::Up => Rectangle(x, y + s as i32, w, h - s),
                Direction::Down => Rectangle(x, y, w, h - s),
                Direction::Left => Rectangle(x + s as i32, y, w - s, h),
                Direction::Right => Rectangle(x, y, w - s, h),
            };
        }
        i = i + 1;
    }
    assert(struts@.skip(struts@.len() as int) =~= Seq::<Strut>::empty());
    true
}

/// The part of the screen that the layout may use when it keeps clear of
/// the struts along the given edges.
pub fn avoid_struts(screen: Rectangle, struts: &Vec<Strut>, directions: &Vec<Direction>) -> (r: Rectangle)
    requires
        avoid_struts_fits(screen, struts@, directions@),
    ensures
        r == spec_avoid_struts(screen, struts@, directions@),
{
    let mut acc = screen;
    let mut i: usize = 0;
    assert(struts@.skip(0) =~= struts@);
    while i < struts.len()
        invariant
            i <= struts.len(),
            avoid_struts_fits(acc, struts@.skip(i as int), directions@),
            spec_avoid_struts(acc, struts@.skip(i as int), directions@) == spec_avoid_struts(
                screen,
                struts@,
                directions@,
            ),
        decreases struts.len() - i,
    {
        let Strut(d, sw, _, _) = struts[i];
        let s = sw as u32;
        assert(struts@.skip(i as int)[0] == struts@[i as int]);
        assert(struts@.skip(i as int).drop_first() =~= struts@.skip(i + 1));
        if contains_direction(directions, d) {
            let Rectangle(x, y, w, h) = acc;
            acc = match d {
                Direction::Up => Rectangle(x, y + s as i32, w, h - s),
                Direction::Down => Rectangle(x, y, w, h - s),
                Direction::Left => Rectangle(x + s as i32, y, w - s, h),
                Direction::Right => Rectangle(x, y, w - s, h),
            };
        }
        i = i + 1;
    }
    assert(struts@.skip(struts@.len() as int) =~= Seq::<Strut>::empty());
    acc
}

} // verus!
