//! Where the parts of the picker's screen go: the search bar, the list, the
//! details pane, the key line and the centred help overlay.
use vstd::prelude::*;
use ratatui::layout::{Constraint, Direction, Layout, Rect};

verus! {

/// A rectangle of terminal cells.
#[derive(Clone, Copy, Debug, PartialEq, Eq, Structural)]
pub struct Area {
    pub x: u16,
    pub y: u16,
    pub width: u16,
    pub height: u16,
}

/// How large a part of a split should be.
#[derive(Clone, Copy, Debug, PartialEq, Eq, Structural)]
pub enum Size {
    /// Exactly this many cells.
    Length(u16),
    /// At least this many cells.
    Min(u16),
    /// This percentage of the area.
    Percentage(u16),
}

/// The area's far edges do not pass the last cell a `u16` can name.
pub open spec fn fits(a: Area) -> bool {
    a.x + a.width <= u16::MAX && a.y + a.height <= u16::MAX
}

/// `inner` lies within `outer`.
pub open spec fn within(inner: Area, outer: Area) -> bool {
    &&& outer.x <= inner.x
    &&& inner.x + inner.width <= outer.x + outer.width
    &&& outer.y <= inner.y
    &&& inner.y + inner.height <= outer.y + outer.height
}

/// The percentages of the first `k` sizes, added up (other sizes count 0).
pub open spec fn percent_total(sizes: Seq<Size>, k: int) -> int
    decreases k,
{
    if k <= 0 {
        0
    } else {
        percent_total(sizes, k - 1) + match sizes[k - 1] {
            Size::Percentage(p) => p as int,
            _ => 0,
        }
    }
}

/// The sizes `Length(a)`, `Min(b)`, `Length(c)`: fixed edges around a part
/// that takes the rest.
pub open spec fn length_min_length(a: u16, b: u16, c: u16) -> Seq<Size> {
    seq![Size::Length(a), Size::Min(b), Size::Length(c)]
}

/// Every size is a percentage.
pub open spec fn all_percentages(sizes: Seq<Size>) -> bool {
    forall|i: int| 0 <= i < sizes.len() ==> #[trigger] sizes[i] is Percentage
}

/// `pos` is the cell at `pct` percent of the way along `span` cells from
/// `start`: exactly there where that falls on a cell, less than one cell
/// off otherwise.
pub open spec fn near_share(pos: int, start: int, span: int, pct: int) -> bool {
    let scaled = start * 100 + span * pct;
    if scaled % 100 == 0 {
        pos == scaled / 100
    } else {
        scaled - 100 < pos * 100 < scaled + 100
    }
}

/// Calls ratatui's `Layout::split` (through `Layout::default`, `direction`
/// and `constraints`) and gives one part per size. As the crate's source
/// shows, every part keeps the area's column and width in a vertical split,
/// and its row and height in a horizontal one (`changes_to_rects`), and
/// along the split every part lies between the area's start and its
/// (saturated) end, which the solver holds as required constraints. The
/// default layout aligns to the start (`Flex::Start`): the spacers between
/// parts are held at size 0 and the last spacer grows, weakly, to take what
/// the parts leave. Where the area fits and the sizes are percentages adding
/// up to at most 100, every percentage (held strongly) can hold at once, so
/// the solver's optimum is the one placement with each part at its share,
/// whose boundaries `changes_to_rects` rounds to the nearest cell. Where a
/// vertical split is `Length(a)`, `Min(b)`, `Length(c)` over an area at
/// least `a + b + c` high, the two lengths and the minimum can hold at once,
/// and the minimum's growth (medium strength) outweighs the last spacer's
/// (a tenth of that), so the middle part takes all the rows the lengths
/// leave. In other cases constraints conflict and which one gives way
/// depends on the order in which cassowary walks its hash maps, seeded per
/// process, so the placement is left unsaid.
#[verifier::external_body]
fn split_area(vertical: bool, sizes: &Vec<Size>, area: Area) -> (parts: Vec<Area>)
    ensures
        parts.len() == sizes.len(),
        forall|i: int| 0 <= i < parts.len() ==> within(#[trigger] parts@[i], area),
        forall|i: int|
            0 <= i < parts.len() ==> vertical ==> #[trigger] parts@[i].x == area.x && parts@[i].width
                == area.width,
        forall|i: int|
            0 <= i < parts.len() ==> !vertical ==> #[trigger] parts@[i].y == area.y
                && parts@[i].height == area.height,
        fits(area) && all_percentages(sizes@) && percent_total(sizes@, sizes@.len() as int) <= 100
            ==> forall|i: int|
            0 <= i < parts.len() ==> (if vertical {
                &&& near_share(#[trigger] parts@[i].y as int, area.y as int, area.height as int, percent_total(sizes@, i))
                &&& near_share(parts@[i].y + parts@[i].height, area.y as int, area.height as int, percent_total(sizes@, i + 1))
            } else {
                &&& near_share(parts@[i].x as int, area.x as int, area.width as int, percent_total(sizes@, i))
                &&& near_share(parts@[i].x + parts@[i].width, area.x as int, area.width as int, percent_total(sizes@, i + 1))
            }),
        forall|a: u16, b: u16, c: u16|
            vertical && fits(area) && #[trigger] length_min_length(a, b, c) == sizes@ && area.height
                >= a + b + c ==> {
                &&& parts@[0].y == area.y && parts@[0].height == a
                &&& parts@[1].y == area.y + a && parts@[1].height == area.height - a - c
                &&& parts@[2].y == area.y + area.height - c && parts@[2].height == c
            },
{
    let constraints = sizes.iter().map(|s| match *s {
        Size::Length(n) => Constraint::Length(n),
        Size::Min(n) => Constraint::Min(n),
        Size::Percentage(n) => Constraint::Percentage(n),
    });
    let direction = if vertical { Direction::Vertical } else { Direction::Horizontal };
    let rect = Rect { x: area.x, y: area.y, width: area.width, height: area.height };
    let rects = Layout::default().direction(direction).constraints(constraints).split(rect);
    rects.iter().map(|r| Area { x: r.x, y: r.y, width: r.width, height: r.height }).collect()
}

/// The parts of the picker's screen.
pub struct ScreenAreas {
    /// The search bar, three rows high.
    pub search: Area,
    /// The repository list, the left 60% of the middle.
    pub list: Area,
    /// The details pane, the right 40% of the middle.
    pub details: Area,
    /// The key line, two rows high.
    pub keys: Area,
}

/// The parts of the picker's screen over `area`: search bar, then the list
/// beside the details pane, then the key line, all within the screen, with
/// the search bar and key line as wide as it and the list and details pane
/// as high as the middle band.
pub fn screen_areas(area: Area) -> (s: ScreenAreas)
    ensures
        within(s.search, area),
        within(s.list, area),
        within(s.details, area),
        within(s.keys, area),
        s.search.x == area.x && s.search.width == area.width,
        s.keys.x == area.x && s.keys.width == area.width,
        s.list.y == s.details.y && s.list.height == s.details.height,
        fits(area) ==> s.list.x == area.x && s.details.x + s.details.width == area.x + area.width,
        fits(area) ==> near_share(s.list.x + s.list.width, area.x as int, area.width as int, 60),
        fits(area) ==> near_share(s.details.x as int, area.x as int, area.width as int, 60),
        fits(area) && area.height >= 6 ==> s.search.y == area.y && s.search.height == 3,
        fits(area) && area.height >= 6 ==> s.keys.y == area.y + area.height - 2 && s.keys.height == 2,
        fits(area) && area.height >= 6 ==> s.list.y == area.y + 3 && s.list.height == area.height - 5,
{
    let mut rows: Vec<Size> = Vec::new();
    rows.push(Size::Length(3));
    rows.push(Size::Min(1));
    rows.push(Size::Length(2));
    let bands = split_area(true, &rows, area);
    let mut cols: Vec<Size> = Vec::new();
    cols.push(Size::Percentage(60));
    cols.push(Size::Percentage(40));
    let middle = split_area(false, &cols, bands[1]);
    proof {
        assert(rows@ == length_min_length(3, 1, 2));
        reveal_with_fuel(percent_total, 3);
        assert(cols@ == seq![Size::Percentage(60), Size::Percentage(40)]);
        assert(all_percentages(cols@));
        let b = bands@[1];
        assert(within(b, area));
        if fits(area) {
            assert(fits(b));
            assert(percent_total(cols@, 0) == 0);
            assert(percent_total(cols@, 2) == 100);
            assert(near_share(middle@[0].x as int, b.x as int, b.width as int, 0));
            assert(near_share(middle@[1].x + middle@[1].width, b.x as int, b.width as int, 100));
            let x = b.x as int;
            let w = b.width as int;
            assert((x * 100 + w * 0) % 100 == 0 && (x * 100 + w * 0) / 100 == x) by (nonlinear_arith);
            assert((x * 100 + w * 100) % 100 == 0 && (x * 100 + w * 100) / 100 == x + w) by (nonlinear_arith);
        }
    }
    ScreenAreas { search: bands[0], list: middle[0], details: middle[1], keys: bands[2] }
}

/// The share of each side around a centred part of `percent` percent.
pub open spec fn side_percent(percent: u16) -> int {
    (100 - percent) / 2
}

/// The rectangle of `percent_x` by `percent_y` percent centred in `r`: the
/// middle of three columns (sides of half the rest each) of the middle of
/// three such bands. It lies within `r`, and where `r` fits it starts and
/// ends at the cells of those shares.
pub fn centered_rect(percent_x: u16, percent_y: u16, r: Area) -> (c: Area)
    requires
        percent_x <= 100,
        percent_y <= 100,
    ensures
        within(c, r),
        fits(r) ==> near_share(c.y as int, r.y as int, r.height as int, side_percent(percent_y)),
        fits(r) ==> near_share(c.y + c.height, r.y as int, r.height as int, side_percent(percent_y) + percent_y),
        fits(r) ==> near_share(c.x as int, r.x as int, r.width as int, side_percent(percent_x)),
        fits(r) ==> near_share(c.x + c.width, r.x as int, r.width as int, side_percent(percent_x) + percent_x),
{
    let side_y = (100 - percent_y) / 2;
    let mut rows: Vec<Size> = Vec::new();
    rows.push(Size::Percentage(side_y));
    rows.push(Size::Percentage(percent_y));
    rows.push(Size::Percentage(side_y));
    let bands = split_area(true, &rows, r);
    let band = bands[1];
    let side_x = (100 - percent_x) / 2;
    let mut cols: Vec<Size> = Vec::new();
    cols.push(Size::Percentage(side_x));
    cols.push(Size::Percentage(percent_x));
    cols.push(Size::Percentage(side_x));
    let parts = split_area(false, &cols, band);
    proof {
        reveal_with_fuel(percent_total, 4);
        assert(rows@ == seq![Size::Percentage(side_y), Size::Percentage(percent_y), Size::Percentage(side_y)]);
        assert(cols@ == seq![Size::Percentage(side_x), Size::Percentage(percent_x), Size::Percentage(side_x)]);
        assert(all_percentages(rows@));
        assert(all_percentages(cols@));
        assert(within(bands@[1], r));
        assert(percent_total(rows@, 3) <= 100);
        assert(percent_total(cols@, 3) <= 100);
        assert(within(parts@[1], band));
        assert(parts@[1].y == band.y);
        assert(band.x == r.x);
    }
    parts[1]
}

} // verus!
