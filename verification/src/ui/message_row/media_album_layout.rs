//! The sizes and the places of the tiles of a media album.

use vstd::prelude::*;

verus! {

/// The natural width the album asks for.
///
/// It must be larger than the widest content the message bubble will ever
/// allocate (including its padding and the negative margins of the album), so
/// that the album always fills the whole bubble. The actual layout is computed
/// from the allocated width, so the excess width is never visible.
pub const NATURAL_WIDTH: i32 = 480;

/// The minimum width the album may be allocated with.
///
/// The CSS margins of the album are added to the measured sizes. The album is
/// styled with negative horizontal margins inside the message bubble, so the
/// minimum requested here must at least compensate them to avoid a negative
/// size request. The minimum height is measured without a width hint, so the
/// height is computed at this width to keep it smaller than the natural height
/// at any larger width.
pub const MIN_WIDTH: i32 = 16;

/// The minimum height requested by the vertical measurement, compensating the
/// negative vertical margins of the album.
pub const MIN_HEIGHT: i32 = 10;

/// The direction that a size is measured in.
#[derive(Clone, Copy, Debug, PartialEq, Eq, Structural)]
pub enum Orientation {
    Horizontal,
    Vertical,
}

/// The direction that a text is read in.
#[derive(Clone, Copy, Debug, PartialEq, Eq, Structural)]
pub enum TextDirection {
    /// That of the whole application.
    Unset,
    LeftToRight,
    RightToLeft,
}

/// A size that a widget asks for.
#[derive(Clone, Copy, Debug, PartialEq, Eq, Structural)]
pub struct SizeRequest {
    pub minimum: i32,
    pub natural: i32,
}

/// The place of a tile within the grid, in whole pixels.
#[derive(Clone, Copy, Debug, PartialEq, Eq, Structural)]
pub struct GridRect {
    pub x: i32,
    pub y: i32,
    pub width: i32,
    pub height: i32,
}

/// The place of a tile, and which edges of the grid it touches.
#[derive(Clone, Copy, Debug, PartialEq, Eq, Structural)]
pub struct TileAllocation {
    pub rect: GridRect,
    pub at_left: bool,
    pub at_right: bool,
    pub at_top: bool,
    pub at_bottom: bool,
}

/// The bottom of the lowest tile.
pub open spec fn total_height_of(rects: Seq<GridRect>) -> int
    decreases rects.len(),
{
    if rects.len() == 0 {
        0
    } else {
        let above = total_height_of(rects.drop_last());
        let bottom = rects.last().y + rects.last().height;
        if bottom > above {
            bottom
        } else {
            above
        }
    }
}

/// The nearest number of pixels.
pub open spec fn clamped(value: int) -> i32 {
    if value > i32::MAX {
        i32::MAX
    } else if value < i32::MIN {
        i32::MIN
    } else {
        value as i32
    }
}

/// The left side of the tile, which is mirrored for right-to-left layouts.
pub open spec fn left_side_of(rect: GridRect, width: i32, is_rtl: bool) -> int {
    if is_rtl {
        width - rect.x - rect.width
    } else {
        rect.x as int
    }
}

/// The place of a tile in a grid of the given width and total height.
pub open spec fn tile_allocation_of(
    rect: GridRect,
    width: i32,
    total_height: int,
    is_rtl: bool,
) -> TileAllocation {
    let x = left_side_of(rect, width, is_rtl);
    TileAllocation {
        rect: GridRect { x: clamped(x), ..rect },
        at_left: x <= 0,
        at_right: x + rect.width >= width,
        at_top: rect.y <= 0,
        at_bottom: rect.y + rect.height >= total_height,
    }
}

/// The width that the layout is computed at when its height is measured.
///
/// The minimum height is measured without a width hint, so the layout is
/// computed at the minimum width, whose height is smaller than at any larger
/// width.
pub fn layout_width(for_size: i32) -> (width: i32)
    ensures
        width == if for_size > 0 {
            for_size
        } else {
            MIN_WIDTH
        },
{
    if for_size > 0 {
        for_size
    } else {
        MIN_WIDTH
    }
}

/// The size that the album asks for, given the number of its tiles and the
/// height of its grid at the width that the layout is computed at.
pub fn measure(orientation: Orientation, tile_count: usize, grid_height: i32) -> (
    request: SizeRequest)
    ensures
        request == if tile_count == 0 {
            (SizeRequest { minimum: MIN_WIDTH, natural: MIN_WIDTH })
        } else if orientation == Orientation::Horizontal {
            (SizeRequest { minimum: MIN_WIDTH, natural: NATURAL_WIDTH })
        } else if grid_height > MIN_HEIGHT {
            (SizeRequest { minimum: grid_height, natural: grid_height })
        } else {
            (SizeRequest { minimum: MIN_HEIGHT, natural: MIN_HEIGHT })
        },
        request.minimum <= request.natural,
{
    if tile_count == 0 {
        return SizeRequest { minimum: MIN_WIDTH, natural: MIN_WIDTH };
    }
    match orientation {
        Orientation::Horizontal => SizeRequest { minimum: MIN_WIDTH, natural: NATURAL_WIDTH },
        Orientation::Vertical => {
            let height = if grid_height > MIN_HEIGHT {
                grid_height
            } else {
                MIN_HEIGHT
            };
            SizeRequest { minimum: height, natural: height }
        },
    }
}

/// Whether a widget is laid out from right to left.
pub fn is_rtl(direction: TextDirection, default_direction: TextDirection) -> (result: bool)
    ensures
        result == (direction == TextDirection::RightToLeft || (direction == TextDirection::Unset
            && default_direction == TextDirection::RightToLeft)),
{
    match direction {
        TextDirection::RightToLeft => true,
        TextDirection::Unset => matches!(default_direction, TextDirection::RightToLeft),
        TextDirection::LeftToRight => false,
    }
}

fn clamp(value: i64) -> (result: i32)
    ensures
        result == clamped(value as int),
{
    if value > i32::MAX as i64 {
        i32::MAX
    } else if value < i32::MIN as i64 {
        i32::MIN
    } else {
        value as i32
    }
}

fn total_height(rects: &Vec<GridRect>) -> (height: i64)
    ensures
        height == total_height_of(rects@),
        0 <= height <= 0x1_0000_0000,
{
    let mut height: i64 = 0;
    let mut i: usize = 0;
    assert(rects@.take(0) =~= Seq::empty());
    while i < rects.len()
        invariant
            i <= rects@.len(),
            height == total_height_of(rects@.take(i as int)),
            0 <= height <= 0x1_0000_0000,
        decreases rects@.len() - i,
    {
        let bottom: i64 = rects[i].y as i64 + rects[i].height as i64;
        if bottom > height {
            height = bottom;
        }
        i = i + 1;
        assert(rects@.take(i as int).drop_last() =~= rects@.take(i - 1));
    }
    assert(rects@.take(i as int) =~= rects@);
    height
}

/// The height of the grid, in pixels.
pub fn layout_height(rects: &Vec<GridRect>) -> (height: i32)
    ensures
        height == clamped(total_height_of(rects@)),
{
    clamp(total_height(rects))
}

/// The places of the tiles in a grid of the given width.
///
/// The tiles touching the edges of the grid get rounded corners only on their
/// outer corners.
pub fn allocate(rects: &Vec<GridRect>, width: i32, is_rtl: bool) -> (
    allocations: Vec<TileAllocation>)
    ensures
        allocations@.len() == rects@.len(),
        forall|i: int|
            0 <= i < rects@.len() ==> #[trigger] allocations@[i] == tile_allocation_of(
                rects@[i],
                width,
                total_height_of(rects@),
                is_rtl,
            ),
{
    let height = total_height(rects);
    let mut allocations: Vec<TileAllocation> = Vec::with_capacity(rects.len());
    let mut i: usize = 0;
    while i < rects.len()
        invariant
            i <= rects@.len(),
            height == total_height_of(rects@),
            allocations@.len() == i,
            forall|j: int|
                0 <= j < i ==> #[trigger] allocations@[j] == tile_allocation_of(
                    rects@[j],
                    width,
                    total_height_of(rects@),
                    is_rtl,
                ),
        decreases rects@.len() - i,
    {
        let rect = rects[i];
        // Mirrors the x coordinate of a tile for right-to-left layouts.
        let x: i64 = if is_rtl {
            width as i64 - rect.x as i64 - rect.width as i64
        } else {
            rect.x as i64
        };
        allocations.push(
            TileAllocation {
                rect: GridRect {
                    x: clamp(x),
                    y: rect.y,
                    width: rect.width,
                    height: rect.height,
                },
                at_left: x <= 0,
                at_right: x + rect.width as i64 >= width as i64,
                at_top: rect.y <= 0,
                at_bottom: rect.y as i64 + rect.height as i64 >= height,
            },
        );
        i = i + 1;
    }
    allocations
}

/// Every tile ends within the height of the grid.
pub proof fn law_tiles_end_within_height(rects: Seq<GridRect>, i: int)
    requires
        0 <= i < rects.len(),
    ensures
        rects[i].y + rects[i].height <= total_height_of(rects),
    decreases rects.len(),
{
    if i < rects.len() - 1 {
        law_tiles_end_within_height(rects.drop_last(), i);
    }
}

/// Reading from right to left mirrors the grid: the tiles that touch one side
/// touch the other side instead, and a tile that is mirrored twice is where it
/// was.
pub proof fn law_rtl_mirrors_grid(rect: GridRect, width: i32, total_height: int)
    requires
        0 <= rect.x,
        0 <= rect.width,
        rect.x + rect.width <= width,
    ensures
        ({
            let ltr = tile_allocation_of(rect, width, total_height, false);
            let rtl = tile_allocation_of(rect, width, total_height, true);
            &&& ltr.at_left == rtl.at_right
            &&& ltr.at_right == rtl.at_left
            &&& ltr.at_top == rtl.at_top
            &&& ltr.at_bottom == rtl.at_bottom
            &&& tile_allocation_of(rtl.rect, width, total_height, true).rect == rect
        }),
{
}

/// The height of the grid is where its lowest tile ends.
pub proof fn law_height_is_that_of_lowest_tile(rects: Seq<GridRect>)
    ensures
        total_height_of(rects) >= 0,
        total_height_of(rects) == 0 || exists|i: int|
            0 <= i < rects.len() && (#[trigger] rects[i]).y + rects[i].height == total_height_of(
                rects,
            ),
    decreases rects.len(),
{
    if rects.len() > 0 {
        let above = rects.drop_last();
        law_height_is_that_of_lowest_tile(above);
        let last = rects.len() - 1;
        if rects[last].y + rects[last].height > total_height_of(above) {
            assert(rects[last].y + rects[last].height == total_height_of(rects));
        } else if total_height_of(above) != 0 {
            let i = choose|i: int|
                0 <= i < above.len() && (#[trigger] above[i]).y + above[i].height
                    == total_height_of(above);
            assert(rects[i] == above[i]);
        }
    }
}

/// A tile is allocated where it is in the grid, counted from the side where
/// lines begin. It is at a side of the grid if it reaches that side.
pub proof fn law_tiles_are_where_they_are_in_grid(
    rect: GridRect,
    width: i32,
    total_height: int,
)
    ensures
        ({
            let ltr = tile_allocation_of(rect, width, total_height, false);
            let rtl = tile_allocation_of(rect, width, total_height, true);
            &&& ltr.rect == rect
            &&& ltr.at_left <==> rect.x <= 0
            &&& ltr.at_right <==> rect.x + rect.width >= width
            &&& ltr.at_top <==> rect.y <= 0
            &&& ltr.at_bottom <==> rect.y + rect.height >= total_height
            &&& rtl.at_top <==> rect.y <= 0
            &&& rtl.at_bottom <==> rect.y + rect.height >= total_height
            &&& rtl.at_left <==> rect.x + rect.width >= width
            &&& rtl.at_right <==> rect.x <= 0
            &&& rtl.rect == GridRect { x: rtl.rect.x, ..rect }
            &&& i32::MIN <= width - rect.x - rect.width <= i32::MAX ==> rtl.rect.x + rect.x
                + rect.width == width
            &&& width - rect.x - rect.width > i32::MAX ==> rtl.rect.x == i32::MAX
            &&& width - rect.x - rect.width < i32::MIN ==> rtl.rect.x == i32::MIN
        }),
{
}

} // verus!
