use ratatui::layout::{Constraint, Direction, Layout, Rect};
use vstd::prelude::*;

verus! {

/// A rectangle of character cells: its top-left corner and its size.
#[derive(Clone, Copy, Debug, PartialEq, Eq, Structural)]
pub struct Area {
    pub x: u16,
    pub y: u16,
    pub width: u16,
    pub height: u16,
}

/// The axis along which an area is cut.
#[derive(Clone, Copy, Debug, PartialEq, Eq, Structural)]
pub enum Axis {
    Horizontal,
    Vertical,
}

/// How much of the cut axis one piece asks for.
#[derive(Clone, Copy, Debug, PartialEq, Eq, Structural)]
pub enum Share {
    /// This many hundredths of the area.
    Percentage(u16),
    /// This fraction of the area.
    Ratio(u32, u32),
}

/// The weight of a share: its hundredths, or its ratio's numerator.
pub open spec fn share_weight(share: Share) -> int {
    match share {
        Share::Percentage(p) => p as int,
        Share::Ratio(n, _) => n as int,
    }
}

/// The weights of all shares added up.
pub open spec fn weight_total(shares: Seq<Share>) -> int
    decreases shares.len(),
{
    if shares.len() == 0 {
        0
    } else {
        weight_total(shares.drop_last()) + share_weight(shares.last())
    }
}

/// The shares of three equal panes.
pub open spec fn thirds() -> Seq<Share> {
    seq![Share::Ratio(1, 3), Share::Ratio(1, 3), Share::Ratio(1, 3)]
}

/// Shares that together take the whole axis: percentages that add up to a
/// hundred, or three equal thirds.
pub open spec fn shares_fit(shares: Seq<Share>) -> bool {
    ||| (forall|k: int| 0 <= k < shares.len() ==> (#[trigger] shares[k]) is Percentage)
        && weight_total(shares) == 100
    ||| shares == thirds()
}

/// What the weights of fitting shares are parts of.
pub open spec fn weight_base(shares: Seq<Share>) -> int {
    if shares == thirds() {
        3
    } else {
        100
    }
}

/// Where `area` begins along `axis`.
pub open spec fn axis_start(axis: Axis, area: Area) -> int {
    match axis {
        Axis::Horizontal => area.x as int,
        Axis::Vertical => area.y as int,
    }
}

/// How far `area` reaches along `axis`, clipped at the grid's last cell.
pub open spec fn axis_extent(axis: Axis, area: Area) -> int {
    let len = match axis {
        Axis::Horizontal => area.width as int,
        Axis::Vertical => area.height as int,
    };
    if axis_start(axis, area) + len <= u16::MAX {
        len
    } else {
        u16::MAX - axis_start(axis, area)
    }
}

/// The cell where a cut falls after `num / den` of `extent` cells from
/// `start`: the position is rounded to the nearest hundredth of a cell, then
/// to the nearest cell, halves going up.
pub open spec fn cut_at(start: int, extent: int, num: int, den: int) -> int {
    start + ((200 * extent * num + den) / (2 * den) + 50) / 100
}

/// The `k`-th piece of `area` cut along `axis` by fitting `shares`: it runs
/// from the cut after the shares before it to the cut after itself, and
/// spans all of `area` across the axis.
pub open spec fn piece_at(axis: Axis, area: Area, shares: Seq<Share>, k: int) -> Area {
    let start = axis_start(axis, area);
    let extent = axis_extent(axis, area);
    let den = weight_base(shares);
    let lo = cut_at(start, extent, weight_total(shares.subrange(0, k)), den);
    let hi = cut_at(start, extent, weight_total(shares.subrange(0, k + 1)), den);
    match axis {
        Axis::Horizontal => Area { x: lo as u16, y: area.y, width: (hi - lo) as u16, height: area.height },
        Axis::Vertical => Area { x: area.x, y: lo as u16, width: area.width, height: (hi - lo) as u16 },
    }
}

/// `piece` lies within `area` along `axis` and spans all of `area` across it.
pub open spec fn piece_of(axis: Axis, piece: Area, area: Area) -> bool {
    match axis {
        Axis::Horizontal => piece.y == area.y && piece.height == area.height && piece.x >= area.x
            && piece.x + piece.width <= area.x + area.width,
        Axis::Vertical => piece.x == area.x && piece.width == area.width && piece.y >= area.y
            && piece.y + piece.height <= area.y + area.height,
    }
}

/// `inner` lies within `outer` on both axes.
pub open spec fn within(inner: Area, outer: Area) -> bool {
    inner.x >= outer.x && inner.x + inner.width <= outer.x + outer.width && inner.y >= outer.y
        && inner.y + inner.height <= outer.y + outer.height
}

/// Relies on ratatui's `Layout::split` with its default (legacy) flex: the
/// area cut along one axis into one piece per constraint, in order. The
/// outer spacers are kept empty and the inner ones sizeless, so the pieces
/// cover the area along the cut, clipped at the grid's last cell
/// (`Rect::right`, `Rect::bottom`). When the shares take the whole axis every
/// constraint holds exactly, so the solver's answer is the one that puts each
/// cut at its fraction of the extent; `changes_to_rects` rounds that to the
/// hundredth of a cell and then to the cell, and copies the area's position
/// and extent across the axis.
#[verifier::external_body]
fn split(axis: Axis, area: Area, shares: &Vec<Share>) -> (r: Vec<Area>)
    requires
        shares_fit(shares@),
    ensures
        r@.len() == shares@.len(),
        forall|k: int| 0 <= k < r@.len() ==> #[trigger] r@[k] == piece_at(axis, area, shares@, k),
        forall|k: int| 0 <= k < r@.len() ==> piece_of(axis, #[trigger] r@[k], area),
{
    let direction = match axis {
        Axis::Horizontal => Direction::Horizontal,
        Axis::Vertical => Direction::Vertical,
    };
    let constraints = shares.iter().map(|s| match *s {
        Share::Percentage(p) => Constraint::Percentage(p),
        Share::Ratio(n, d) => Constraint::Ratio(n, d),
    });
    let rect = Rect { x: area.x, y: area.y, width: area.width, height: area.height };
    let rects = Layout::default().direction(direction).constraints(constraints).split(rect);
    rects.iter().map(|c| Area { x: c.x, y: c.y, width: c.width, height: c.height }).collect()
}

/// The three shares that put a band of `percent` hundredths in the middle of
/// an axis: a leading margin of half the rest, rounded down, and a trailing
/// margin of what remains, so that the three take the whole axis.
pub open spec fn centered_shares_of(percent: u16) -> Seq<Share> {
    let margin = ((100 - percent) / 2) as u16;
    let rest = (100 - percent - margin) as u16;
    seq![Share::Percentage(margin), Share::Percentage(percent), Share::Percentage(rest)]
}

/// The middle piece of `area` when it is cut vertically by the shares that
/// center `percent_y`, and that piece then horizontally by those that center
/// `percent_x`.
pub open spec fn centered_area(percent_x: u16, percent_y: u16, area: Area) -> Area {
    let band = piece_at(Axis::Vertical, area, centered_shares_of(percent_y), 1);
    piece_at(Axis::Horizontal, band, centered_shares_of(percent_x), 1)
}

/// The shares that center a band of at most a hundred hundredths can all be met.
proof fn lemma_centered_shares_fit(percent: u16)
    requires
        percent <= 100,
    ensures
        shares_fit(centered_shares_of(percent)),
{
    reveal_with_fuel(weight_total, 4);
    let s = centered_shares_of(percent);
    assert(s.drop_last().drop_last().drop_last() =~= Seq::<Share>::empty());
}

/// The shares that center a band of `percent` hundredths on an axis.
pub fn centered_shares(percent: u16) -> (r: Vec<Share>)
    requires
        percent <= 100,
    ensures
        r@ == centered_shares_of(percent),
{
    let margin = (100 - percent) / 2;
    let rest = 100 - percent - margin;
    let r = vec![Share::Percentage(margin), Share::Percentage(percent), Share::Percentage(rest)];
    assert(r@ =~= centered_shares_of(percent));
    r
}

/// A rectangle centered in `area` that takes `percent_x` hundredths of its
/// width and `percent_y` hundredths of its height.
pub fn centered_rect(percent_x: u16, percent_y: u16, area: Area) -> (r: Area)
    requires
        percent_x <= 100,
        percent_y <= 100,
    ensures
        r == centered_area(percent_x, percent_y, area),
        within(r, area),
{
    proof {
        lemma_centered_shares_fit(percent_x);
        lemma_centered_shares_fit(percent_y);
    }
    let bands = split(Axis::Vertical, area, &centered_shares(percent_y));
    let pieces = split(Axis::Horizontal, bands[1], &centered_shares(percent_x));
    pieces[1]
}

/// `area` cut into three equal panes side by side.
pub fn main_panes(area: Area) -> (r: Vec<Area>)
    ensures
        r@.len() == 3,
        forall|k: int| 0 <= k < 3 ==> #[trigger] r@[k] == piece_at(Axis::Horizontal, area, thirds(), k),
        forall|k: int| 0 <= k < 3 ==> piece_of(Axis::Horizontal, #[trigger] r@[k], area),
{
    let shares = vec![Share::Ratio(1, 3), Share::Ratio(1, 3), Share::Ratio(1, 3)];
    assert(shares@ =~= thirds());
    split(Axis::Horizontal, area, &shares)
}

/// On a 100 by 100 surface, the rectangle that takes 60 hundredths of the
/// width and 25 of the height spans columns 20 to 80 and rows 37 to 62.
pub proof fn lemma_centered_on_square_surface()
    ensures
        centered_area(60, 25, Area { x: 0, y: 0, width: 100, height: 100 }) == (Area {
            x: 20,
            y: 37,
            width: 60,
            height: 25,
        }),
{
    reveal_with_fuel(weight_total, 4);
    let v = centered_shares_of(25);
    let h = centered_shares_of(60);
    assert(v.subrange(0, 1) =~= seq![Share::Percentage(37)]);
    assert(v.subrange(0, 2) =~= seq![Share::Percentage(37), Share::Percentage(25)]);
    assert(h.subrange(0, 1) =~= seq![Share::Percentage(20)]);
    assert(h.subrange(0, 2) =~= seq![Share::Percentage(20), Share::Percentage(60)]);
    assert(seq![Share::Percentage(37)].drop_last() =~= Seq::<Share>::empty());
    assert(seq![Share::Percentage(37), Share::Percentage(25)].drop_last() =~= seq![Share::Percentage(37)]);
    assert(seq![Share::Percentage(20)].drop_last() =~= Seq::<Share>::empty());
    assert(seq![Share::Percentage(20), Share::Percentage(60)].drop_last() =~= seq![Share::Percentage(20)]);
    assert(v != thirds());
    assert(h != thirds());
    assert(cut_at(0, 100, 37, 100) == 37) by (nonlinear_arith);
    assert(cut_at(0, 100, 62, 100) == 62) by (nonlinear_arith);
    assert(cut_at(0, 100, 20, 100) == 20) by (nonlinear_arith);
    assert(cut_at(0, 100, 80, 100) == 80) by (nonlinear_arith);
}

} // verus!
