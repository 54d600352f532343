//! The five layouts: where each view goes, given how many there are and
//! the area they share.

use vstd::prelude::*;
use crate::geometry::{rect, Ratio, Rect, RATIO_ONE};
use crate::layout::GlobalData;
use crate::text::same_text;

verus! {

/// The layouts a tag can use.
#[derive(Debug, Clone, Copy, PartialEq, Eq, PartialOrd, Ord, Structural)]
pub enum Layouts {
    Tile,
    Column,
    Rows,
    CenteredMaster,
    Dwindle,
}

/// The side of an area that the dwindle layout gives to the next view.
#[derive(Debug, Clone, Copy, PartialEq, Eq, Structural)]
pub enum Direction {
    Up,
    Right,
    Down,
    Left,
}

impl Direction {
    /// The side that follows this one: left, up, right, down, and left again.
    pub open spec fn spec_next(self) -> Direction {
        match self {
            Direction::Left => Direction::Up,
            Direction::Up => Direction::Right,
            Direction::Right => Direction::Down,
            Direction::Down => Direction::Left,
        }
    }

    /// The side that follows this one: left, up, right, down, and left again.
    pub fn next(&self) -> (d: Direction)
        ensures
            d == self.spec_next(),
    {
        match self {
            Direction::Left => Direction::Up,
            Direction::Up => Direction::Right,
            Direction::Right => Direction::Down,
            Direction::Down => Direction::Left,
        }
    }
}

impl Layouts {
    /// The name under which the layout is committed.
    pub open spec fn spec_name(self) -> Seq<char> {
        match self {
            Layouts::Tile => "Tile"@,
            Layouts::Column => "Column"@,
            Layouts::Rows => "Rows"@,
            Layouts::CenteredMaster => "Centered Master"@,
            Layouts::Dwindle => "Dwindle"@,
        }
    }

    /// The name under which the layout is committed.
    pub fn name(&self) -> (s: String)
        ensures
            s@ == self.spec_name(),
    {
        match self {
            Layouts::Tile => "Tile",
            Layouts::Column => "Column",
            Layouts::Rows => "Rows",
            Layouts::CenteredMaster => "Centered Master",
            Layouts::Dwindle => "Dwindle",
        }.to_owned()
    }

    /// The layout that a command selects by the word `word`, if the word
    /// is one of the five that select a layout.
    pub open spec fn spec_known(word: Seq<char>) -> Option<Layouts> {
        if word == "tile"@ {
            Some(Layouts::Tile)
        } else if word == "column"@ {
            Some(Layouts::Column)
        } else if word == "rows"@ {
            Some(Layouts::Rows)
        } else if word == "centered-master"@ {
            Some(Layouts::CenteredMaster)
        } else if word == "dwindle"@ {
            Some(Layouts::Dwindle)
        } else {
            None
        }
    }

    /// The layout that a command selects by the word `word`, or `None`
    /// where the word selects none.
    pub fn known(word: &str) -> (found: Option<Layouts>)
        ensures
            found == Layouts::spec_known(word@),
    {
        if same_text(word, "tile") {
            Some(Layouts::Tile)
        } else if same_text(word, "column") {
            Some(Layouts::Column)
        } else if same_text(word, "rows") {
            Some(Layouts::Rows)
        } else if same_text(word, "centered-master") {
            Some(Layouts::CenteredMaster)
        } else if same_text(word, "dwindle") {
            Some(Layouts::Dwindle)
        } else {
            None
        }
    }

    /// The layout that a command selects by the word `word`: the one the
    /// word names, and the tile layout for any other word.
    pub open spec fn spec_form_string(word: Seq<char>) -> Layouts {
        match Layouts::spec_known(word) {
            Some(layout) => layout,
            None => Layouts::Tile,
        }
    }

    /// The layout that a command selects by the word `word`: the one the
    /// word names, and the tile layout for any other word.
    pub fn form_string(word: &str) -> (layout: Layouts)
        ensures
            layout == Layouts::spec_form_string(word@),
    {
        match Layouts::known(word) {
            Some(layout) => layout,
            None => Layouts::Tile,
        }
    }
}

impl Default for Layouts {
    fn default() -> (layout: Layouts)
        ensures
            layout == Layouts::Tile,
    {
        Layouts::Tile
    }
}

/// The size that each of `count` equal parts gets along a span when `gap`
/// pixels lie between neighbours. It is negative where the span is too
/// short for the gaps.
pub open spec fn stack_extent(count: u32, span: u32, gap: u32) -> int
    recommends
        count >= 1,
{
    (span + gap) / (count as int) - gap
}

/// Whether a span can be divided into `count` parts with `gap` pixels
/// between neighbours: there is at least one part, and no part has a
/// negative size.
pub open spec fn can_stack(count: u32, span: u32, gap: u32) -> bool {
    count >= 1 && stack_extent(count, span, gap) >= 0
}

/// Decides [`can_stack`].
pub fn stackable(count: u32, span: u32, gap: u32) -> (b: bool)
    ensures
        b == can_stack(count, span, gap),
{
    count >= 1 && (span as u64 + gap as u64) / (count as u64) >= gap as u64
}

/// The parts sum up to the span, or fall short of it by less than their
/// number, and each part is at most the span.
pub proof fn lemma_stack_extent(count: u32, span: u32, gap: u32)
    requires
        can_stack(count, span, gap),
    ensures
        0 <= stack_extent(count, span, gap) <= span,
        count * (stack_extent(count, span, gap) + gap) <= span + gap,
        count * (stack_extent(count, span, gap) + gap) > span + gap - count,
{
    let total = span + gap;
    let n = count as int;
    let step = total / n;
    assert(step * n <= total < step * n + n && step <= total) by (nonlinear_arith)
        requires
            step == total / n,
            n >= 1,
            total >= 0,
    ;
    assert(n * step == step * n) by (nonlinear_arith);
}

/// The rectangles of the rows layout: `view_count` rectangles of the
/// area's width and of equal height, one below the other from the area's
/// top, `gap` pixels apart.
pub open spec fn spec_rows(view_count: u32, area: Rect, gap: u32) -> Seq<Rect> {
    let height = stack_extent(view_count, area.height, gap);
    Seq::new(
        view_count as nat,
        |i: int|
            Rect {
                x: area.x,
                y: (area.y + i * (height + gap)) as i32,
                width: area.width,
                height: height as u32,
            },
    )
}

/// The rectangles of the column layout: `view_count` rectangles of the
/// area's height and of equal width, side by side from the area's left
/// edge, `gap` pixels apart.
pub open spec fn spec_column(view_count: u32, area: Rect, gap: u32) -> Seq<Rect> {
    let width = stack_extent(view_count, area.width, gap);
    Seq::new(
        view_count as nat,
        |i: int|
            Rect {
                x: (area.x + i * (width + gap)) as i32,
                y: area.y,
                width: width as u32,
                height: area.height,
            },
    )
}

/// Appends the rows layout of `view_count` views in `area` to `out`.
pub fn rows(view_count: u32, area: Rect, win: &GlobalData, out: &mut Vec<Rect>)
    requires
        can_stack(view_count, area.height, win.gap),
        area.in_range(),
    ensures
        final(out)@ == old(out)@ + spec_rows(view_count, area, win.gap),
        final(out)@.len() == old(out)@.len() + view_count,
{
    proof {
        lemma_stack_extent(view_count, area.height, win.gap);
    }
    let step: u64 = (area.height as u64 + win.gap as u64) / (view_count as u64);
    let window_height: u32 = (step - win.gap as u64) as u32;
    let ghost all = spec_rows(view_count, area, win.gap);
    let mut i: u32 = 0;
    while i < view_count
        invariant
            i <= view_count,
            can_stack(view_count, area.height, win.gap),
            area.in_range(),
            step == stack_extent(view_count, area.height, win.gap) + win.gap,
            window_height == stack_extent(view_count, area.height, win.gap),
            view_count * step <= area.height + win.gap,
            all == spec_rows(view_count, area, win.gap),
            out@ == old(out)@ + all.take(i as int),
        decreases view_count - i,
    {
        assert(i * step <= area.height - window_height) by (nonlinear_arith)
            requires
                i + 1 <= view_count,
                view_count * step <= area.height + win.gap,
                step == window_height + win.gap,
                step >= 0,
        ;
        let offset: u64 = i as u64 * step;
        let y: i64 = area.y as i64 + offset as i64;
        out.push(rect(area.x, y as i32, area.width, window_height));
        assert(all.take(i + 1) =~= all.take(i as int).push(all[i as int]));
        i = i + 1;
    }
    assert(all.take(view_count as int) =~= all);
}

/// Appends the column layout of `view_count` views in `area` to `out`.
pub fn column(view_count: u32, area: Rect, win: &GlobalData, out: &mut Vec<Rect>)
    requires
        can_stack(view_count, area.width, win.gap),
        area.in_range(),
    ensures
        final(out)@ == old(out)@ + spec_column(view_count, area, win.gap),
        final(out)@.len() == old(out)@.len() + view_count,
{
    proof {
        lemma_stack_extent(view_count, area.width, win.gap);
    }
    let step: u64 = (area.width as u64 + win.gap as u64) / (view_count as u64);
    let window_width: u32 = (step - win.gap as u64) as u32;
    let ghost all = spec_column(view_count, area, win.gap);
    let mut i: u32 = 0;
    while i < view_count
        invariant
            i <= view_count,
            can_stack(view_count, area.width, win.gap),
            area.in_range(),
            step == stack_extent(view_count, area.width, win.gap) + win.gap,
            window_width == stack_extent(view_count, area.width, win.gap),
            view_count * step <= area.width + win.gap,
            all == spec_column(view_count, area, win.gap),
            out@ == old(out)@ + all.take(i as int),
        decreases view_count - i,
    {
        assert(i * step <= area.width - window_width) by (nonlinear_arith)
            requires
                i + 1 <= view_count,
                view_count * step <= area.width + win.gap,
                step == window_width + win.gap,
                step >= 0,
        ;
        let offset: u64 = i as u64 * step;
        let x: i64 = area.x as i64 + offset as i64;
        out.push(rect(x as i32, area.y, window_width, area.height));
        assert(all.take(i + 1) =~= all.take(i as int).push(all[i as int]));
        i = i + 1;
    }
    assert(all.take(view_count as int) =~= all);
}

/// The settings of one tag: its layout, how many views its main area
/// holds, and the share of the area that the main area takes.
#[derive(Debug, Clone, Copy, PartialEq, Eq, Structural)]
pub struct TagData {
    pub layout: Layouts,
    pub nmaster: u32,
    pub ratio: Ratio,
}

/// The rectangles of the tile layout. With no more views than the main
/// area holds they are rows over the whole area. Otherwise the area is cut
/// into a left and a right part at the tag's ratio: the first `nmaster`
/// views are rows in the left part, the others rows in the right part.
pub open spec fn spec_tile(view_count: u32, area: Rect, tag: TagData, gap: u32) -> Seq<Rect> {
    if view_count <= tag.nmaster {
        spec_rows(view_count, area, gap)
    } else {
        let (left, right) = area.spec_split_vertial(gap, tag.ratio);
        spec_rows(tag.nmaster, left, gap) + spec_rows(
            (view_count - tag.nmaster) as u32,
            right,
            gap,
        )
    }
}

/// Whether the tile layout can be computed: each stack of rows has at
/// least one view and no negative height, and where the area is cut, it is
/// at least as wide as the gap and the ratio is at most one.
pub open spec fn tile_ok(view_count: u32, area: Rect, tag: TagData, gap: u32) -> bool {
    if view_count <= tag.nmaster {
        can_stack(view_count, area.height, gap)
    } else {
        &&& gap <= area.width
        &&& tag.ratio.is_proper()
        &&& can_stack(tag.nmaster, area.height, gap)
        &&& can_stack((view_count - tag.nmaster) as u32, area.height, gap)
    }
}

/// Decides [`tile_ok`].
pub fn tile_fits(view_count: u32, area: Rect, tag: &TagData, win: &GlobalData) -> (b: bool)
    ensures
        b == tile_ok(view_count, area, *tag, win.gap),
{
    if view_count <= tag.nmaster {
        stackable(view_count, area.height, win.gap)
    } else {
        win.gap <= area.width && tag.ratio.millionths <= RATIO_ONE && stackable(
            tag.nmaster,
            area.height,
            win.gap,
        ) && stackable(view_count - tag.nmaster, area.height, win.gap)
    }
}

/// Appends the tile layout of `view_count` views in `area` to `out`.
pub fn tile(view_count: u32, area: Rect, tag: &TagData, win: &GlobalData, out: &mut Vec<Rect>)
    requires
        tile_ok(view_count, area, *tag, win.gap),
        area.in_range(),
    ensures
        final(out)@ == old(out)@ + spec_tile(view_count, area, *tag, win.gap),
        final(out)@.len() == old(out)@.len() + view_count,
{
    if view_count <= tag.nmaster {
        rows(view_count, area, win, out)
    } else {
        let (left, right) = area.split_vertial(win.gap, tag.ratio);
        rows(tag.nmaster, left, win, out);
        rows(view_count - tag.nmaster, right, win, out);
        assert(out@ =~= old(out)@ + spec_tile(view_count, area, *tag, win.gap));
    }
}

/// The width of the middle column of the centered-master layout: the
/// tag's ratio of the area's whole width, rounded down.
pub open spec fn centered_main_width(area: Rect, tag: TagData) -> int {
    tag.ratio.of(area.width as int)
}

/// The width of each side column of the centered-master layout: half of
/// what the middle column leaves, rounded down, less the gap. It is
/// negative where the area is too narrow for the gaps.
pub open spec fn centered_side_width(area: Rect, tag: TagData, gap: u32) -> int {
    (area.width - centered_main_width(area, tag)) / 2 - gap
}

/// The rectangles of the centered-master layout. With at most one view
/// more than the main area holds they are those of the tile layout.
/// Otherwise the first `nmaster` views are rows in a middle column, and the
/// others are rows in two side columns of equal width at the left and right
/// edges of the area: the smaller half of them, and first, on the left.
pub open spec fn spec_centered_master(view_count: u32, area: Rect, tag: TagData, gap: u32) -> Seq<
    Rect,
> {
    if view_count <= tag.nmaster + 1 {
        spec_tile(view_count, area, tag, gap)
    } else {
        let main_width = centered_main_width(area, tag);
        let side_width = centered_side_width(area, tag, gap);
        let outside = view_count - tag.nmaster;
        let left = outside / 2;
        let right = outside - left;
        spec_rows(
            tag.nmaster,
            Rect {
                x: (area.x + side_width + gap) as i32,
                y: area.y,
                width: main_width as u32,
                height: area.height,
            },
            gap,
        ) + spec_rows(
            left as u32,
            Rect { x: area.x, y: area.y, width: side_width as u32, height: area.height },
            gap,
        ) + spec_rows(
            right as u32,
            Rect {
                x: (area.x + area.width - side_width) as i32,
                y: area.y,
                width: side_width as u32,
                height: area.height,
            },
            gap,
        )
    }
}

/// Whether the centered-master layout can be computed: where it is the
/// tile layout, that one can; otherwise the ratio is at most one, the side
/// columns have no negative width, and each of the three stacks of rows has
/// at least one view and no negative height.
pub open spec fn centered_master_ok(view_count: u32, area: Rect, tag: TagData, gap: u32) -> bool {
    if view_count <= tag.nmaster + 1 {
        tile_ok(view_count, area, tag, gap)
    } else {
        let outside = view_count - tag.nmaster;
        &&& tag.ratio.is_proper()
        &&& centered_side_width(area, tag, gap) >= 0
        &&& can_stack(tag.nmaster, area.height, gap)
        &&& can_stack((outside / 2) as u32, area.height, gap)
        &&& can_stack((outside - outside / 2) as u32, area.height, gap)
    }
}

/// Decides [`centered_master_ok`].
pub fn centered_master_fits(view_count: u32, area: Rect, tag: &TagData, win: &GlobalData) -> (b:
    bool)
    ensures
        b == centered_master_ok(view_count, area, *tag, win.gap),
{
    if view_count as u64 <= tag.nmaster as u64 + 1 {
        tile_fits(view_count, area, tag, win)
    } else {
        if tag.ratio.millionths > RATIO_ONE {
            return false;
        }
        let main_width: u32 = tag.ratio.scale(area.width);
        let outside: u32 = view_count - tag.nmaster;
        let left: u32 = outside / 2;
        (area.width - main_width) / 2 >= win.gap && stackable(tag.nmaster, area.height, win.gap)
            && stackable(left, area.height, win.gap) && stackable(
            outside - left,
            area.height,
            win.gap,
        )
    }
}

/// Appends the centered-master layout of `view_count` views in `area` to
/// `out`.
pub fn centered_master(
    view_count: u32,
    area: Rect,
    tag: &TagData,
    win: &GlobalData,
    out: &mut Vec<Rect>,
)
    requires
        centered_master_ok(view_count, area, *tag, win.gap),
        area.in_range(),
    ensures
        final(out)@ == old(out)@ + spec_centered_master(view_count, area, *tag, win.gap),
        final(out)@.len() == old(out)@.len() + view_count,
{
    if view_count as u64 <= tag.nmaster as u64 + 1 {
        tile(view_count, area, tag, win, out)
    } else {
        let main_width: u32 = tag.ratio.scale(area.width);
        let outside: u32 = view_count - tag.nmaster;
        let left: u32 = outside / 2;
        let right: u32 = outside - left;
        let outside_width: u32 = (area.width - main_width) / 2 - win.gap;
        let main_x: i64 = area.x as i64 + outside_width as i64 + win.gap as i64;
        let right_x: i64 = area.x as i64 + area.width as i64 - outside_width as i64;
        rows(tag.nmaster, rect(main_x as i32, area.y, main_width, area.height), win, out);
        rows(left, rect(area.x, area.y, outside_width, area.height), win, out);
        rows(right, rect(right_x as i32, area.y, outside_width, area.height), win, out);
        assert(out@ =~= old(out)@ + spec_centered_master(view_count, area, *tag, win.gap));
    }
}

/// What one step of the dwindle layout makes of an area: the part on the
/// side that `direction` names, which goes to the next view, and the part
/// opposite, which is left for the views after it.
pub open spec fn dwindle_parts(area: Rect, direction: Direction, fraction: Ratio, gap: u32) -> (
    Rect,
    Rect,
) {
    match direction {
        Direction::Up => {
            let (top, bottom) = area.spec_split_horizontal(gap, fraction);
            (top, bottom)
        },
        Direction::Right => {
            let (left, right) = area.spec_split_vertial(gap, fraction);
            (right, left)
        },
        Direction::Down => {
            let (top, bottom) = area.spec_split_horizontal(gap, fraction);
            (bottom, top)
        },
        Direction::Left => {
            let (left, right) = area.spec_split_vertial(gap, fraction);
            (left, right)
        },
    }
}

/// Whether an area can be cut towards `direction`: it is at least as long
/// as the gap along the axis of the cut.
pub open spec fn can_cut(area: Rect, direction: Direction, gap: u32) -> bool {
    match direction {
        Direction::Up | Direction::Down => gap <= area.height,
        Direction::Left | Direction::Right => gap <= area.width,
    }
}

/// The rectangles of the dwindle layout. A single view gets the whole
/// area. Otherwise the area is cut at `fraction`, the first view gets the
/// part on the side that `direction` names, and the other views share the
/// rest in the same way, towards the next side and cut in halves.
pub open spec fn spec_dwindle(
    view_count: u32,
    area: Rect,
    direction: Direction,
    fraction: Ratio,
    gap: u32,
) -> Seq<Rect>
    decreases view_count,
{
    if view_count <= 1 {
        seq![area]
    } else {
        let (first, rest) = dwindle_parts(area, direction, fraction, gap);
        seq![first] + spec_dwindle(
            (view_count - 1) as u32,
            rest,
            direction.spec_next(),
            Ratio::spec_half(),
            gap,
        )
    }
}

/// Whether the dwindle layout can be computed: there is a view, and as
/// long as more than one view is left, the area left can be cut and the
/// fraction is at most one.
pub open spec fn dwindle_ok(
    view_count: u32,
    area: Rect,
    direction: Direction,
    fraction: Ratio,
    gap: u32,
) -> bool
    decreases view_count,
{
    if view_count <= 1 {
        view_count == 1
    } else {
        &&& can_cut(area, direction, gap)
        &&& fraction.is_proper()
        &&& dwindle_ok(
            (view_count - 1) as u32,
            dwindle_parts(area, direction, fraction, gap).1,
            direction.spec_next(),
            Ratio::spec_half(),
            gap,
        )
    }
}

/// One step of the dwindle layout: the part for the next view and the
/// part left over.
fn dwindle_cut(area: Rect, direction: Direction, fraction: Ratio, win: &GlobalData) -> (parts: (
    Rect,
    Rect,
))
    requires
        can_cut(area, direction, win.gap),
        fraction.is_proper(),
        area.in_range(),
    ensures
        parts == dwindle_parts(area, direction, fraction, win.gap),
        parts.0.in_range(),
        parts.1.in_range(),
{
    match direction {
        Direction::Up => {
            let (top, bottom) = area.split_horizontal(win.gap, fraction);
            (top, bottom)
        },
        Direction::Right => {
            let (left, right) = area.split_vertial(win.gap, fraction);
            (right, left)
        },
        Direction::Down => {
            let (top, bottom) = area.split_horizontal(win.gap, fraction);
            (bottom, top)
        },
        Direction::Left => {
            let (left, right) = area.split_vertial(win.gap, fraction);
            (left, right)
        },
    }
}

/// Decides [`dwindle_ok`].
pub fn dwindle_fits(
    view_count: u32,
    area: Rect,
    direction: Direction,
    fraction: Ratio,
    win: &GlobalData,
) -> (b: bool)
    requires
        area.in_range(),
    ensures
        b == dwindle_ok(view_count, area, direction, fraction, win.gap),
{
    if view_count == 0 {
        return false;
    }
    let mut left: u32 = view_count;
    let mut rest: Rect = area;
    let mut side: Direction = direction;
    let mut share: Ratio = fraction;
    while left > 1
        invariant
            left >= 1,
            rest.in_range(),
            dwindle_ok(left, rest, side, share, win.gap) == dwindle_ok(
                view_count,
                area,
                direction,
                fraction,
                win.gap,
            ),
        decreases left,
    {
        let cuts = match side {
            Direction::Up | Direction::Down => win.gap <= rest.height,
            Direction::Left | Direction::Right => win.gap <= rest.width,
        };
        if !cuts || share.millionths > RATIO_ONE {
            return false;
        }
        let (_, remainder) = dwindle_cut(rest, side, share, win);
        rest = remainder;
        side = side.next();
        share = Ratio::half();
        left = left - 1;
    }
    true
}

/// Appends the dwindle layout of `view_count` views in `area` to `out`.
pub fn dwindle(
    view_count: u32,
    area: Rect,
    direction: Direction,
    fraction: Ratio,
    win: &GlobalData,
    out: &mut Vec<Rect>,
)
    requires
        dwindle_ok(view_count, area, direction, fraction, win.gap),
        area.in_range(),
    ensures
        final(out)@ == old(out)@ + spec_dwindle(view_count, area, direction, fraction, win.gap),
        final(out)@.len() == old(out)@.len() + view_count,
    decreases view_count,
{
    if view_count == 1 {
        out.push(area);
        assert(out@ =~= old(out)@ + spec_dwindle(view_count, area, direction, fraction, win.gap));
    } else {
        let (first, rest) = dwindle_cut(area, direction, fraction, win);
        out.push(first);
        dwindle(view_count - 1, rest, direction.next(), Ratio::half(), win, out);
        assert(out@ =~= old(out)@ + spec_dwindle(view_count, area, direction, fraction, win.gap));
    }
}

/// The area that the views share on an output of the given usable size:
/// the output less `padding` pixels on each of its four sides.
pub open spec fn layout_area(width: u32, height: u32, padding: u32) -> Rect {
    Rect {
        x: padding as i32,
        y: padding as i32,
        width: (width - 2 * padding) as u32,
        height: (height - 2 * padding) as u32,
    }
}

/// Whether an output of the given usable size has room for the padding,
/// and its far edges are coordinates.
pub open spec fn area_ok(width: u32, height: u32, padding: u32) -> bool {
    &&& 2 * padding <= width
    &&& 2 * padding <= height
    &&& width - padding <= i32::MAX
    &&& height - padding <= i32::MAX
}

impl TagData {
    /// The settings of a tag.
    pub fn new(layout: Layouts, nmaster: u32, ratio: Ratio) -> (tag: TagData)
        ensures
            tag == (TagData { layout, nmaster, ratio }),
    {
        TagData { layout, nmaster, ratio }
    }

    /// The rectangles that the tag's layout gives `view_count` views in
    /// `area`, in the order of the views. The dwindle layout starts towards
    /// the left, with the tag's ratio as its first fraction.
    pub open spec fn spec_arrange(self, view_count: u32, area: Rect, gap: u32) -> Seq<Rect> {
        match self.layout {
            Layouts::Tile => spec_tile(view_count, area, self, gap),
            Layouts::Column => spec_column(view_count, area, gap),
            Layouts::Rows => spec_rows(view_count, area, gap),
            Layouts::CenteredMaster => spec_centered_master(view_count, area, self, gap),
            Layouts::Dwindle => spec_dwindle(view_count, area, Direction::Left, self.ratio, gap),
        }
    }

    /// Whether the tag's layout can be computed for `view_count` views in
    /// `area`.
    pub open spec fn arrange_ok(self, view_count: u32, area: Rect, gap: u32) -> bool {
        match self.layout {
            Layouts::Tile => tile_ok(view_count, area, self, gap),
            Layouts::Column => can_stack(view_count, area.width, gap),
            Layouts::Rows => can_stack(view_count, area.height, gap),
            Layouts::CenteredMaster => centered_master_ok(view_count, area, self, gap),
            Layouts::Dwindle => dwindle_ok(view_count, area, Direction::Left, self.ratio, gap),
        }
    }

    /// The rectangles of `view_count` views on an output of the given
    /// usable size.
    pub open spec fn spec_layout(self, view_count: u32, width: u32, height: u32, win: GlobalData)
        -> Seq<Rect> {
        self.spec_arrange(view_count, layout_area(width, height, win.padding), win.gap)
    }

    /// Whether the layout of `view_count` views on an output of the given
    /// usable size can be computed: the output has room for the padding,
    /// and the tag's layout for its gaps and cuts.
    pub open spec fn layout_ok(self, view_count: u32, width: u32, height: u32, win: GlobalData)
        -> bool {
        &&& area_ok(width, height, win.padding)
        &&& self.arrange_ok(view_count, layout_area(width, height, win.padding), win.gap)
    }

    /// Decides [`TagData::layout_ok`].
    pub fn can_layout(&self, view_count: u32, width: u32, height: u32, win: &GlobalData) -> (b:
        bool)
        ensures
            b == self.layout_ok(view_count, width, height, *win),
    {
        let twice: u64 = 2 * (win.padding as u64);
        if twice > width as u64 || twice > height as u64 || width - win.padding > 0x7fff_ffff
            || height - win.padding > 0x7fff_ffff {
            return false;
        }
        let area = rect(
            win.padding as i32,
            win.padding as i32,
            width - 2 * win.padding,
            height - 2 * win.padding,
        );
        match self.layout {
            Layouts::Tile => tile_fits(view_count, area, self, win),
            Layouts::Column => stackable(view_count, area.width, win.gap),
            Layouts::Rows => stackable(view_count, area.height, win.gap),
            Layouts::CenteredMaster => centered_master_fits(view_count, area, self, win),
            Layouts::Dwindle => dwindle_fits(view_count, area, Direction::Left, self.ratio, win),
        }
    }

    /// The rectangles of `view_count` views on an output of the given
    /// usable size, in the order of the views.
    pub fn layout(&self, view_count: u32, width: u32, height: u32, win: &GlobalData) -> (views:
        Vec<Rect>)
        requires
            self.layout_ok(view_count, width, height, *win),
        ensures
            views@ == self.spec_layout(view_count, width, height, *win),
            views@.len() == view_count,
    {
        let area = rect(
            win.padding as i32,
            win.padding as i32,
            width - win.padding * 2,
            height - win.padding * 2,
        );
        let mut views: Vec<Rect> = Vec::new();
        match self.layout {
            Layouts::Tile => tile(view_count, area, self, win, &mut views),
            Layouts::Column => column(view_count, area, win, &mut views),
            Layouts::Rows => rows(view_count, area, win, &mut views),
            Layouts::CenteredMaster => centered_master(view_count, area, self, win, &mut views),
            Layouts::Dwindle => dwindle(
                view_count,
                area,
                Direction::Left,
                self.ratio,
                win,
                &mut views,
            ),
        }
        assert(views@ =~= self.spec_layout(view_count, width, height, *win));
        views
    }
}

/// Every layout gives each view one rectangle: for one view or more, the
/// rectangles of a tag's layout are as many as the views.
pub proof fn lemma_one_rectangle_per_view(tag: TagData, view_count: u32, area: Rect, gap: u32)
    requires
        view_count >= 1,
    ensures
        tag.spec_arrange(view_count, area, gap).len() == view_count,
        spec_rows(view_count, area, gap).len() == view_count,
        spec_column(view_count, area, gap).len() == view_count,
        spec_tile(view_count, area, tag, gap).len() == view_count,
        spec_centered_master(view_count, area, tag, gap).len() == view_count,
        forall|direction: Direction, fraction: Ratio|
            #![auto]
            spec_dwindle(view_count, area, direction, fraction, gap).len() == view_count,
{
    assert forall|direction: Direction, fraction: Ratio| #![auto]
        spec_dwindle(view_count, area, direction, fraction, gap).len() == view_count by {
        lemma_dwindle_len(view_count, area, direction, fraction, gap);
    }
}

/// The dwindle layout gives each view one rectangle.
pub proof fn lemma_dwindle_len(
    view_count: u32,
    area: Rect,
    direction: Direction,
    fraction: Ratio,
    gap: u32,
)
    requires
        view_count >= 1,
    ensures
        spec_dwindle(view_count, area, direction, fraction, gap).len() == view_count,
    decreases view_count,
{
    if view_count > 1 {
        lemma_dwindle_len(
            (view_count - 1) as u32,
            dwindle_parts(area, direction, fraction, gap).1,
            direction.spec_next(),
            Ratio::spec_half(),
            gap,
        );
    }
}

/// The rows layout tiles the height of its area. Each rectangle has the
/// area's left edge and width, and all have one height. The first begins
/// at the area's top, and each next one begins `gap` pixels below the end
/// of the one before: none overlaps another. Heights and gaps together do
/// not exceed the area's height, and fall short of it by less than the
/// number of views.
pub proof fn lemma_rows_tile_the_height(view_count: u32, area: Rect, gap: u32)
    requires
        can_stack(view_count, area.height, gap),
        area.in_range(),
    ensures
        ({
            let rows = spec_rows(view_count, area, gap);
            let height = stack_extent(view_count, area.height, gap);
            let covered = view_count * height + (view_count - 1) * gap;
            &&& rows.len() == view_count
            &&& forall|i: int|
                0 <= i < view_count ==> (#[trigger] rows[i]).x == area.x && rows[i].width
                    == area.width && rows[i].height == height
            &&& rows[0].y == area.y
            &&& forall|i: int|
                0 <= i < view_count - 1 ==> (#[trigger] rows[i + 1]).y == rows[i].y
                    + rows[i].height + gap
            &&& rows[view_count - 1].y + rows[view_count - 1].height == area.y + covered
            &&& area.height - (view_count - 1) <= covered <= area.height
        }),
{
    lemma_stack_extent(view_count, area.height, gap);
    let rows = spec_rows(view_count, area, gap);
    let height = stack_extent(view_count, area.height, gap);
    let step = height + gap;
    let n = view_count as int;
    assert(n * height + (n - 1) * gap == n * step - gap) by (nonlinear_arith)
        requires
            step == height + gap,
    ;
    assert forall|i: int| 0 <= i < n implies 0 <= i * step <= area.height - height && (
    #[trigger] rows[i]).y == area.y + i * step by {
        assert(0 <= i * step && i * step + step <= n * step) by (nonlinear_arith)
            requires
                0 <= i < n,
                step >= 0,
        ;
    }
    assert forall|i: int| 0 <= i < n - 1 implies (#[trigger] rows[i + 1]).y == rows[i].y
        + rows[i].height + gap by {
        assert((i + 1) * step == i * step + step) by (nonlinear_arith);
    }
    assert((n - 1) * step == n * step - step) by (nonlinear_arith);
}

/// The column layout tiles the width of its area. Each rectangle has the
/// area's top edge and height, and all have one width. The first begins at
/// the area's left edge, and each next one begins `gap` pixels right of
/// the end of the one before: none overlaps another. Widths and gaps
/// together do not exceed the area's width, and fall short of it by less
/// than the number of views.
pub proof fn lemma_columns_tile_the_width(view_count: u32, area: Rect, gap: u32)
    requires
        can_stack(view_count, area.width, gap),
        area.in_range(),
    ensures
        ({
            let columns = spec_column(view_count, area, gap);
            let width = stack_extent(view_count, area.width, gap);
            let covered = view_count * width + (view_count - 1) * gap;
            &&& columns.len() == view_count
            &&& forall|i: int|
                0 <= i < view_count ==> (#[trigger] columns[i]).y == area.y && columns[i].height
                    == area.height && columns[i].width == width
            &&& columns[0].x == area.x
            &&& forall|i: int|
                0 <= i < view_count - 1 ==> (#[trigger] columns[i + 1]).x == columns[i].x
                    + columns[i].width + gap
            &&& columns[view_count - 1].x + columns[view_count - 1].width == area.x + covered
            &&& area.width - (view_count - 1) <= covered <= area.width
        }),
{
    lemma_stack_extent(view_count, area.width, gap);
    let columns = spec_column(view_count, area, gap);
    let width = stack_extent(view_count, area.width, gap);
    let step = width + gap;
    let n = view_count as int;
    assert(n * width + (n - 1) * gap == n * step - gap) by (nonlinear_arith)
        requires
            step == width + gap,
    ;
    assert forall|i: int| 0 <= i < n implies 0 <= i * step <= area.width - width && (
    #[trigger] columns[i]).x == area.x + i * step by {
        assert(0 <= i * step && i * step + step <= n * step) by (nonlinear_arith)
            requires
                0 <= i < n,
                step >= 0,
        ;
    }
    assert forall|i: int| 0 <= i < n - 1 implies (#[trigger] columns[i + 1]).x == columns[i].x
        + columns[i].width + gap by {
        assert((i + 1) * step == i * step + step) by (nonlinear_arith);
    }
    assert((n - 1) * step == n * step - step) by (nonlinear_arith);
}

/// With no more views than the main area holds, the tile layout is the
/// rows layout over the same area.
pub proof fn lemma_tile_of_few_views_is_rows(view_count: u32, area: Rect, tag: TagData, gap: u32)
    requires
        view_count <= tag.nmaster,
    ensures
        spec_tile(view_count, area, tag, gap) == spec_rows(view_count, area, gap),
        tile_ok(view_count, area, tag, gap) == can_stack(view_count, area.height, gap),
{
}

/// With at most one view more than the main area holds, the
/// centered-master layout is the tile layout over the same area.
pub proof fn lemma_centered_master_of_few_views_is_tile(
    view_count: u32,
    area: Rect,
    tag: TagData,
    gap: u32,
)
    requires
        view_count <= tag.nmaster + 1,
    ensures
        spec_centered_master(view_count, area, tag, gap) == spec_tile(view_count, area, tag, gap),
        centered_master_ok(view_count, area, tag, gap) == tile_ok(view_count, area, tag, gap),
{
}

/// The dwindle layout of a single view is the area itself, whatever the
/// direction, the fraction and the gap, and it can always be computed.
pub proof fn lemma_dwindle_of_one_view_is_the_area(
    area: Rect,
    direction: Direction,
    fraction: Ratio,
    gap: u32,
)
    ensures
        spec_dwindle(1, area, direction, fraction, gap) == seq![area],
        dwindle_ok(1, area, direction, fraction, gap),
{
}

} // verus!
