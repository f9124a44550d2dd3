//! Which tiles of a large image are resident in graphics memory: the working
//! set, the order in which tiles are wanted, the slots that hold them, and the
//! queue of the worker that loads them.
use vstd::arithmetic::div_mod::*;
use vstd::arithmetic::mul::*;
use vstd::prelude::*;

use crate::float_bits;
use crate::float_bits::{floor_tile_coordinate, is_less64, is_ordered64};
use crate::mip;
use crate::mip::{mip_level_count, rgba16f_texture_budget_bytes};
use crate::numeric;
use crate::numeric::{div_ceil_u32, min_u32, saturating_mul_u32};

verus! {

/// The side of a tile in image pixels.
pub const TILE_SIZE: u32 = 512;

/// The pixels of its neighbours that a tile carries on each side.
pub const TILE_GUTTER: u32 = 8;

/// The mapping entry of a tile that has no resident slot.
pub const MISSING_TILE_SLOT: u32 = u32::MAX;

/// The side of the texture of one tile with its gutters.
pub open spec fn tile_extent() -> int {
    TILE_SIZE + 2 * TILE_GUTTER
}

/// The budget charge of a tile array.
pub open spec fn tile_array_budget(layers: int) -> int {
    mip::texture_budget(tile_extent(), tile_extent(), 10, layers)
}

/// The side of the texture of one tile with its gutters.
pub fn tile_texture_extent() -> (extent: u32)
    ensures
        extent == tile_extent(),
        extent == 528,
{
    TILE_SIZE + TILE_GUTTER * 2
}

/// The mip levels of a tile texture.
fn tile_mip_level_count() -> (levels: u32)
    ensures
        levels == 10,
{
    let levels: u32 = mip_level_count(tile_texture_extent(), tile_texture_extent());
    assert(mip::bit_length(528) == 10) by {
        reveal_with_fuel(mip::bit_length, 11);
    }
    levels
}

/// The budget charge of a tile array.
pub fn tile_array_budget_bytes(layers: u32) -> (bytes: u64)
    ensures
        bytes == tile_array_budget(layers as int),
{
    rgba16f_texture_budget_bytes(
        tile_texture_extent(),
        tile_texture_extent(),
        tile_mip_level_count(),
        layers,
    )
}

/// The largest tile array, of at most `limit` layers, that a budget holds.
pub open spec fn is_largest_capacity(capacity: int, limit: int, budget: int) -> bool {
    &&& 0 <= capacity <= limit
    &&& tile_array_budget(capacity) <= budget
    &&& forall|layers: int|
        #![trigger tile_array_budget(layers)]
        capacity < layers <= limit ==> tile_array_budget(layers) > budget
}

/// The most tiles that the budget and the array limit allow.
pub fn maximum_capacity(
    logical_tiles: u32,
    maximum_tile_bytes: u64,
    maximum_array_layers: u32,
) -> (capacity: u32)
    ensures
        is_largest_capacity(
            capacity as int,
            numeric::smaller(logical_tiles as int, maximum_array_layers as int),
            maximum_tile_bytes as int,
        ),
{
    let maximum: u32 = min_u32(logical_tiles, maximum_array_layers);
    let mut lower: u32 = 0;
    let mut upper: u32 = maximum;
    while lower < upper
        invariant
            0 <= lower <= upper <= maximum,
            tile_array_budget(lower as int) <= maximum_tile_bytes,
            forall|layers: int|
                #![trigger tile_array_budget(layers)]
                upper < layers <= maximum ==> tile_array_budget(layers) > maximum_tile_bytes,
        decreases upper - lower,
    {
        let candidate: u32 = lower + div_ceil_u32(upper - lower, 2);
        let required: u64 = tile_array_budget_bytes(candidate);
        if required <= maximum_tile_bytes {
            lower = candidate;
        } else {
            proof {
                assert forall|layers: int|
                    #![trigger tile_array_budget(layers)]
                    candidate - 1 < layers <= maximum implies tile_array_budget(layers)
                    > maximum_tile_bytes by {
                    mip::budget_grows_with_layers(
                        tile_extent(),
                        tile_extent(),
                        10,
                        candidate as int,
                        layers,
                    );
                }
            }
            upper = candidate - 1;
        }
    }
    lower
}

/// The tiles of a 1:1 viewport at the worst tile alignment, plus one prefetch
/// tile on every side.
pub open spec fn working_set_tiles(viewport_width: int, viewport_height: int) -> int {
    if viewport_width == 0 || viewport_height == 0 {
        0
    } else {
        numeric::smaller(
            (numeric::ceiling(viewport_width, 512) + 3) * (numeric::ceiling(viewport_height, 512)
                + 3),
            u32::MAX as int,
        )
    }
}

/// Holds a 1:1 viewport at the worst tile alignment, plus one prefetch tile on
/// every side.
pub fn interactive_working_set_tiles(viewport: (u32, u32)) -> (tiles: u32)
    ensures
        tiles == working_set_tiles(viewport.0 as int, viewport.1 as int),
{
    if viewport.0 == 0 || viewport.1 == 0 {
        return 0;
    }
    let columns: u32 = div_ceil_u32(viewport.0, TILE_SIZE) + 3;
    let rows: u32 = div_ceil_u32(viewport.1, TILE_SIZE) + 3;
    saturating_mul_u32(columns, rows)
}

/// The slots of a tile cache: what the viewport works on, as far as the image
/// has it and the budget and the array limit allow.
pub fn working_set_capacity(
    logical_tiles: u32,
    viewport_dimensions: (u32, u32),
    maximum_tile_bytes: u64,
    maximum_array_layers: u32,
) -> (capacity: u32)
    ensures
        is_largest_capacity(
            capacity as int,
            numeric::smaller(
                numeric::smaller(
                    logical_tiles as int,
                    working_set_tiles(
                        viewport_dimensions.0 as int,
                        viewport_dimensions.1 as int,
                    ),
                ),
                maximum_array_layers as int,
            ),
            maximum_tile_bytes as int,
        ),
{
    maximum_capacity(
        min_u32(logical_tiles, interactive_working_set_tiles(viewport_dimensions)),
        maximum_tile_bytes,
        maximum_array_layers,
    )
}

/// Whether a list holds a tile.
pub fn contains_tile(tiles: &[u32], tile: u32) -> (found: bool)
    ensures
        found == tiles@.contains(tile),
{
    let mut index: usize = 0;
    while index < tiles.len()
        invariant
            index <= tiles@.len(),
            forall|i: int| 0 <= i < index ==> tiles@[i] != tile,
        decreases tiles@.len() - index,
    {
        if tiles[index] == tile {
            assert(tiles@[index as int] == tile);
            return true;
        }
        index = index + 1;
    }
    false
}

/// Whether two lists have the same length and the second holds every tile of
/// the first.
pub fn same_tile_set(left: &[u32], right: &[u32]) -> (same: bool)
    ensures
        same == is_same_tile_set(left@, right@),
{
    if left.len() != right.len() {
        return false;
    }
    let mut index: usize = 0;
    while index < left.len()
        invariant
            index <= left@.len(),
            left@.len() == right@.len(),
            forall|i: int| 0 <= i < index ==> right@.contains(#[trigger] left@[i]),
        decreases left@.len() - index,
    {
        if !contains_tile(right, left[index]) {
            assert(!right@.contains(left@[index as int]));
            return false;
        }
        index = index + 1;
    }
    true
}

/// Two lists have the same length and the second holds every tile of the
/// first.
pub open spec fn is_same_tile_set(left: Seq<u32>, right: Seq<u32>) -> bool {
    left.len() == right.len() && forall|i: int|
        0 <= i < left.len() ==> right.contains(#[trigger] left[i])
}

/// For lists without repetition, the comparison is equality of the sets: it
/// does not matter which list is first, nor in which order the tiles stand.
pub proof fn same_tile_set_is_set_equality(left: Seq<u32>, right: Seq<u32>)
    requires
        left.no_duplicates(),
        right.no_duplicates(),
    ensures
        is_same_tile_set(left, right) <==> left.to_set() =~= right.to_set(),
        is_same_tile_set(left, right) == is_same_tile_set(right, left),
{
    left.unique_seq_to_set();
    right.unique_seq_to_set();
    if is_same_tile_set(left, right) {
        assert(left.to_set().subset_of(right.to_set())) by {
            assert forall|tile: u32| left.to_set().contains(tile) implies right.to_set().contains(
                tile,
            ) by {
                let i = choose|i: int| 0 <= i < left.len() && left[i] == tile;
                assert(right.contains(left[i]));
            }
        }
        vstd::set_lib::lemma_subset_equality(left.to_set(), right.to_set());
    }
    if is_same_tile_set(right, left) {
        assert(right.to_set().subset_of(left.to_set())) by {
            assert forall|tile: u32| right.to_set().contains(tile) implies left.to_set().contains(
                tile,
            ) by {
                let i = choose|i: int| 0 <= i < right.len() && right[i] == tile;
                assert(left.contains(right[i]));
            }
        }
        vstd::set_lib::lemma_subset_equality(right.to_set(), left.to_set());
    }
    if left.to_set() =~= right.to_set() {
        assert forall|i: int| 0 <= i < left.len() implies right.contains(#[trigger] left[i]) by {
            assert(left.contains(left[i]));
            assert(left.to_set().contains(left[i]));
            assert(right.to_set().contains(left[i]));
        }
        assert forall|i: int| 0 <= i < right.len() implies left.contains(#[trigger] right[i]) by {
            assert(right.contains(right[i]));
            assert(right.to_set().contains(right[i]));
            assert(left.to_set().contains(right[i]));
        }
    }
}

/// A rectangle of tiles, both ends included.
#[derive(Clone, Copy, Debug, PartialEq, Eq, Structural)]
pub struct TileWindow {
    pub first_x: u32,
    pub first_y: u32,
    pub last_x: u32,
    pub last_y: u32,
}

/// The image bounds that a viewport shows, as double-precision bits.
#[derive(Clone, Copy, Debug, PartialEq, Eq, Structural)]
pub struct ImageBounds {
    pub left: u64,
    pub top: u64,
    pub right: u64,
    pub bottom: u64,
}

/// The movement of the view's center, as double-precision bits.
#[derive(Clone, Copy, Debug, PartialEq, Eq, Structural)]
pub struct ViewDirection {
    pub x: u64,
    pub y: u64,
}

impl ViewDirection {
    /// The view moves to the right.
    pub open spec fn rightward(&self) -> bool {
        float_bits::less64(0, self.x)
    }

    /// The view moves to the left.
    pub open spec fn leftward(&self) -> bool {
        float_bits::less64(self.x, 0)
    }

    /// The view moves down.
    pub open spec fn downward(&self) -> bool {
        float_bits::less64(0, self.y)
    }

    /// The view moves up.
    pub open spec fn upward(&self) -> bool {
        float_bits::less64(self.y, 0)
    }
}

/// A number moved down by one, not below zero.
pub open spec fn one_less(value: int) -> int {
    numeric::larger(value - 1, 0)
}

/// A number moved up by one, not beyond a limit.
pub open spec fn one_more(value: int, limit: int) -> int {
    numeric::smaller(value + 1, limit)
}

impl TileWindow {
    /// The window lies in a grid, its ends in order.
    pub open spec fn inside(&self, columns: int, rows: int) -> bool {
        &&& self.first_x <= self.last_x < columns
        &&& self.first_y <= self.last_y < rows
    }

    /// The ends of the window are in order.
    pub open spec fn ordered(&self) -> bool {
        self.first_x <= self.last_x && self.first_y <= self.last_y
    }

    /// The number of tiles in the window; none where its ends are not in order.
    pub open spec fn area(&self) -> int {
        if self.ordered() {
            (self.last_x - self.first_x + 1) * (self.last_y - self.first_y + 1)
        } else {
            0
        }
    }

    /// A tile lies in the window.
    pub open spec fn holds(&self, x: int, y: int) -> bool {
        self.first_x <= x <= self.last_x && self.first_y <= y <= self.last_y
    }

    /// The tiles that the bounds of the visible image touch.
    pub fn visible(bounds: ImageBounds, columns: u32, rows: u32) -> (window: TileWindow)
        requires
            columns > 0,
            rows > 0,
        ensures
            window.first_x == numeric::smaller(
                float_bits::tile_coordinate(bounds.left),
                columns - 1,
            ),
            window.first_y == numeric::smaller(float_bits::tile_coordinate(bounds.top), rows - 1),
            window.last_x == numeric::smaller(
                float_bits::tile_coordinate(bounds.right),
                columns - 1,
            ),
            window.last_y == numeric::smaller(
                float_bits::tile_coordinate(bounds.bottom),
                rows - 1,
            ),
    {
        TileWindow {
            first_x: min_u32(floor_tile_coordinate(bounds.left), columns - 1),
            first_y: min_u32(floor_tile_coordinate(bounds.top), rows - 1),
            last_x: min_u32(floor_tile_coordinate(bounds.right), columns - 1),
            last_y: min_u32(floor_tile_coordinate(bounds.bottom), rows - 1),
        }
    }

    /// The window with one more tile on every side, and a second one on the
    /// sides towards which the view moves.
    pub fn expanded_for_prefetch(self, direction: ViewDirection, columns: u32, rows: u32) -> (expanded:
        TileWindow)
        requires
            self.last_x < columns,
            self.last_y < rows,
        ensures
            expanded == prefetch_window(self, direction, columns as int, rows as int),
            expanded.last_x < columns,
            expanded.last_y < rows,
            self.inside(columns as int, rows as int) ==> expanded.inside(
                columns as int,
                rows as int,
            ),
            expanded.first_x <= self.first_x,
            self.last_x <= expanded.last_x,
            expanded.first_y <= self.first_y,
            self.last_y <= expanded.last_y,
    {
        let mut expanded = TileWindow {
            first_x: self.first_x.saturating_sub(1),
            first_y: self.first_y.saturating_sub(1),
            last_x: min_u32(self.last_x.saturating_add(1), columns - 1),
            last_y: min_u32(self.last_y.saturating_add(1), rows - 1),
        };
        if is_less64(0, direction.x) {
            expanded.last_x = min_u32(expanded.last_x.saturating_add(1), columns - 1);
        } else if is_less64(direction.x, 0) {
            expanded.first_x = expanded.first_x.saturating_sub(1);
        }
        if is_less64(0, direction.y) {
            expanded.last_y = min_u32(expanded.last_y.saturating_add(1), rows - 1);
        } else if is_less64(direction.y, 0) {
            expanded.first_y = expanded.first_y.saturating_sub(1);
        }
        expanded
    }

    /// Whether a tile lies in the window.
    pub fn contains(self, x: u32, y: u32) -> (inside: bool)
        ensures
            inside == self.holds(x as int, y as int),
    {
        self.first_x <= x && x <= self.last_x && self.first_y <= y && y <= self.last_y
    }
}

/// The window with one more tile on every side, and a second one on the sides
/// towards which the view moves, kept inside the grid.
pub open spec fn prefetch_window(
    visible: TileWindow,
    direction: ViewDirection,
    columns: int,
    rows: int,
) -> TileWindow {
    let right = one_more(visible.last_x as int, columns - 1);
    let bottom = one_more(visible.last_y as int, rows - 1);
    let left = one_less(visible.first_x as int);
    let top = one_less(visible.first_y as int);
    TileWindow {
        first_x: (if direction.leftward() {
            one_less(left)
        } else {
            left
        }) as u32,
        first_y: (if direction.upward() {
            one_less(top)
        } else {
            top
        }) as u32,
        last_x: (if direction.rightward() {
            one_more(right, columns - 1)
        } else {
            right
        }) as u32,
        last_y: (if direction.downward() {
            one_more(bottom, rows - 1)
        } else {
            bottom
        }) as u32,
    }
}

/// A tile lies beyond the visible window on a side towards which the view
/// moves.
pub open spec fn is_ahead(x: int, y: int, visible: TileWindow, direction: ViewDirection) -> bool {
    ||| direction.rightward() && x > visible.last_x
    ||| direction.leftward() && x < visible.first_x
    ||| direction.downward() && y > visible.last_y
    ||| direction.upward() && y < visible.first_y
}

/// Visible tiles come first, then those ahead, then the rest of the border.
pub open spec fn priority_of(x: int, y: int, visible: TileWindow, direction: ViewDirection) -> u8 {
    if visible.holds(x, y) {
        0
    } else if is_ahead(x, y, visible, direction) {
        1
    } else {
        2
    }
}

/// Whether a tile lies ahead of the moving view.
pub fn tile_is_ahead(x: u32, y: u32, visible: TileWindow, direction: ViewDirection) -> (ahead: bool)
    ensures
        ahead == is_ahead(x as int, y as int, visible, direction),
{
    (is_less64(0, direction.x) && x > visible.last_x) || (is_less64(direction.x, 0) && x
        < visible.first_x) || (is_less64(0, direction.y) && y > visible.last_y) || (is_less64(
        direction.y,
        0,
    ) && y < visible.first_y)
}

/// The loading priority of a tile; a smaller number is loaded earlier.
pub fn tile_priority(x: u32, y: u32, visible: TileWindow, direction: ViewDirection) -> (priority: u8)
    ensures
        priority == priority_of(x as int, y as int, visible, direction),
{
    if visible.contains(x, y) {
        0
    } else if tile_is_ahead(x, y, visible, direction) {
        1
    } else {
        2
    }
}

/// A tile that a view wants: its priority, and the squared distance of its
/// center from the view's center as double-precision bits.
#[derive(Clone, Copy, Debug, PartialEq, Eq, Structural)]
pub struct TileCandidate {
    pub tile: u32,
    pub priority: u8,
    pub distance: u64,
}

/// A candidate is wanted no later than another: by priority, then by distance.
pub open spec fn wanted_no_later(a: TileCandidate, b: TileCandidate) -> bool {
    a.priority < b.priority || a.priority == b.priority && float_bits::total_order64(a.distance)
        <= float_bits::total_order64(b.distance)
}

/// The candidates of a window, row by row.
pub open spec fn window_candidates(
    visible: TileWindow,
    direction: ViewDirection,
    window: TileWindow,
    columns: int,
    distances: Seq<u64>,
) -> Seq<TileCandidate> {
    let width = window.last_x - window.first_x + 1;
    Seq::new(
        window.area() as nat,
        |i: int| candidate_at(visible, direction, window, columns, distances, i),
    )
}

/// The candidate at a row-major place of a window.
pub open spec fn candidate_at(
    visible: TileWindow,
    direction: ViewDirection,
    window: TileWindow,
    columns: int,
    distances: Seq<u64>,
    index: int,
) -> TileCandidate {
    let width = window.last_x - window.first_x + 1;
    let x = window.first_x + index % width;
    let y = window.first_y + index / width;
    TileCandidate {
        tile: (y * columns + x) as u32,
        priority: priority_of(x, y, visible, direction),
        distance: distances[index],
    }
}

/// Inserts a candidate behind every candidate that is wanted no later than it.
pub open spec fn inserted(sorted: Seq<TileCandidate>, candidate: TileCandidate) -> Seq<
    TileCandidate,
>
    decreases sorted.len(),
{
    if sorted.len() == 0 || wanted_no_later(sorted.last(), candidate) {
        sorted.push(candidate)
    } else {
        inserted(sorted.drop_last(), candidate).push(sorted.last())
    }
}

/// The candidates in the order in which they are wanted; those wanted equally
/// keep their order.
pub open spec fn in_wanted_order(candidates: Seq<TileCandidate>) -> Seq<TileCandidate>
    decreases candidates.len(),
{
    if candidates.len() == 0 {
        Seq::empty()
    } else {
        inserted(in_wanted_order(candidates.drop_last()), candidates.last())
    }
}

/// The tiles of a list of candidates.
pub open spec fn tiles_of(candidates: Seq<TileCandidate>) -> Seq<u32> {
    candidates.map_values(|candidate: TileCandidate| candidate.tile)
}

/// The first of a list, as many as a limit allows.
pub open spec fn at_most<T>(list: Seq<T>, limit: int) -> Seq<T> {
    list.take(numeric::smaller(limit, list.len() as int))
}

/// Inserts a candidate behind those wanted no later than it.
fn insert_candidate(sorted: &mut Vec<TileCandidate>, candidate: TileCandidate)
    ensures
        final(sorted)@ == inserted(old(sorted)@, candidate),
{
    let ghost before = sorted@;
    let mut position: usize = sorted.len();
    proof {
        assert(before.skip(before.len() as int) =~= Seq::<TileCandidate>::empty());
        assert(before.take(before.len() as int) =~= before);
        assert(inserted(before, candidate) + Seq::<TileCandidate>::empty() =~= inserted(
            before,
            candidate,
        ));
    }
    while position > 0 && !is_wanted_no_later(sorted[position - 1], candidate)
        invariant
            position <= before.len(),
            sorted@ == before,
            inserted(before, candidate) == inserted(before.take(position as int), candidate)
                + before.skip(position as int),
        decreases position,
    {
        proof {
            let head = before.take(position as int);
            assert(head.drop_last() =~= before.take(position - 1));
            assert(inserted(head, candidate) =~= inserted(before.take(position - 1), candidate).push(
                before[position - 1],
            ));
            assert(inserted(head.drop_last(), candidate).push(before[position - 1]) + before.skip(
                position as int,
            ) =~= inserted(head.drop_last(), candidate) + before.skip(position - 1));
        }
        position = position - 1;
    }
    sorted.insert(position, candidate);
    assert(sorted@ =~= before.take(position as int).push(candidate) + before.skip(position as int));
}

/// Whether a candidate is wanted no later than another.
fn is_wanted_no_later(a: TileCandidate, b: TileCandidate) -> (no_later: bool)
    ensures
        no_later == wanted_no_later(a, b),
{
    a.priority < b.priority || (a.priority == b.priority && is_ordered64(a.distance, b.distance))
}

/// The tiles that a view wants, in the order in which they are to be loaded,
/// as many as the cache has slots.
///
/// `distances` holds, row by row for the tiles of `window`, the squared
/// distances of their centers from the view's center.
pub fn prioritized_tiles(
    visible: TileWindow,
    direction: ViewDirection,
    window: TileWindow,
    columns: u32,
    rows: u32,
    distances: &[u64],
    capacity: usize,
) -> (desired: Vec<u32>)
    requires
        window.last_x < columns,
        window.last_y < rows,
        columns * rows <= u32::MAX,
        distances@.len() == window.area(),
    ensures
        desired@ == at_most(
            tiles_of(
                in_wanted_order(
                    window_candidates(visible, direction, window, columns as int, distances@),
                ),
            ),
            capacity as int,
        ),
        desired@.no_duplicates(),
        forall|i: int| 0 <= i < desired@.len() ==> #[trigger] desired@[i] < columns * rows,
{
    let ghost candidates = window_candidates(
        visible,
        direction,
        window,
        columns as int,
        distances@,
    );
    if window.first_x > window.last_x || window.first_y > window.last_y {
        assert(candidates =~= Seq::<TileCandidate>::empty());
        let desired: Vec<u32> = Vec::new();
        assert(desired@ =~= at_most(tiles_of(in_wanted_order(candidates)), capacity as int));
        return desired;
    }
    let width: u32 = window.last_x - window.first_x + 1;
    let height: u32 = window.last_y - window.first_y + 1;
    let mut sorted: Vec<TileCandidate> = Vec::new();
    let mut index: usize = 0;
    let mut row: u32 = 0;
    assert(candidates.take(0) =~= Seq::<TileCandidate>::empty());
    proof {
        lemma_mul_basics(width as int);
    }
    while row < height
        invariant
            row <= height,
            index == row * width,
            width == window.last_x - window.first_x + 1,
            height == window.last_y - window.first_y + 1,
            width >= 1,
            window.inside(columns as int, rows as int),
            columns * rows <= u32::MAX,
            distances@.len() == window.area(),
            candidates == window_candidates(
                visible,
                direction,
                window,
                columns as int,
                distances@,
            ),
            sorted@ == in_wanted_order(candidates.take(index as int)),
        decreases height - row,
    {
        let mut column: u32 = 0;
        proof {
            lemma_window_place(row as int, 0, width as int, height as int);
        }
        while column < width
            invariant
                row < height,
                column <= width,
                index == row * width + column,
                width == window.last_x - window.first_x + 1,
                height == window.last_y - window.first_y + 1,
                width >= 1,
                window.inside(columns as int, rows as int),
                columns * rows <= u32::MAX,
                distances@.len() == window.area(),
                candidates == window_candidates(
                    visible,
                    direction,
                    window,
                    columns as int,
                    distances@,
                ),
                sorted@ == in_wanted_order(candidates.take(index as int)),
            decreases width - column,
        {
            let x: u32 = window.first_x + column;
            let y: u32 = window.first_y + row;
            proof {
                lemma_window_place(row as int, column as int, width as int, height as int);
                lemma_tile_number(x as int, y as int, columns as int, rows as int);
                assert(candidates.len() == window.area());
                assert(candidates.take(index + 1).drop_last() =~= candidates.take(index as int));
            }
            let candidate = TileCandidate {
                tile: y * columns + x,
                priority: tile_priority(x, y, visible, direction),
                distance: distances[index],
            };
            assert(candidate == candidates[index as int]);
            insert_candidate(&mut sorted, candidate);
            index = index + 1;
            column = column + 1;
        }
        proof {
            lemma_mul_is_distributive_add_other_way(width as int, row as int, 1);
        }
        row = row + 1;
    }
    proof {
        lemma_mul_is_commutative(height as int, width as int);
        assert(candidates.take(candidates.len() as int) =~= candidates);
        lemma_wanted_order_keeps_candidates(candidates);
    }
    let mut desired: Vec<u32> = Vec::new();
    let mut next: usize = 0;
    while next < sorted.len() && next < capacity
        invariant
            next <= sorted@.len(),
            next <= capacity,
            desired@ == tiles_of(sorted@).take(next as int),
        decreases sorted@.len() - next,
    {
        desired.push(sorted[next].tile);
        assert(tiles_of(sorted@).take(next + 1) =~= tiles_of(sorted@).take(next as int).push(
            sorted@[next as int].tile,
        ));
        next = next + 1;
    }
    proof {
        lemma_window_tiles_are_distinct(
            visible,
            direction,
            window,
            columns as int,
            rows as int,
            distances@,
        );
        lemma_distinct_tiles_stay_distinct(candidates, in_wanted_order(candidates));
        assert forall|i: int| 0 <= i < desired@.len() implies #[trigger] desired@[i] < columns
            * rows by {
            let candidate = sorted@[i];
            assert(sorted@.to_multiset().count(candidate) > 0) by {
                sorted@.to_multiset_ensures();
                assert(sorted@.contains(candidate));
            }
            candidates.to_multiset_ensures();
            assert(candidates.contains(candidate));
            let j = choose|j: int| 0 <= j < candidates.len() && candidates[j] == candidate;
            lemma_window_candidate_in_grid(
                visible,
                direction,
                window,
                columns as int,
                rows as int,
                distances@,
                j,
            );
        }
    }
    desired
}

/// The place of a window's tile in row-major order.
proof fn lemma_window_place(row: int, column: int, width: int, height: int)
    requires
        0 <= row < height,
        0 <= column < width,
    ensures
        0 <= row * width + column < width * height,
        (row * width + column) / width == row,
        (row * width + column) % width == column,
{
    lemma_fundamental_div_mod_converse(row * width + column, width, row, column);
    lemma_mul_inequality(row + 1, height, width);
    lemma_mul_is_distributive_add_other_way(width, row, 1);
    lemma_mul_is_commutative(height, width);
    lemma_mul_nonnegative(row, width);
}

/// The number of a tile lies below the number of tiles.
proof fn lemma_tile_number(x: int, y: int, columns: int, rows: int)
    requires
        0 <= x < columns,
        0 <= y < rows,
    ensures
        0 <= y * columns,
        y * columns + x < columns * rows,
{
    lemma_window_place(y, x, columns, rows);
    lemma_mul_nonnegative(y, columns);
}

/// A candidate of a window in the grid has a tile of the grid, and its place
/// can be read off its tile.
proof fn lemma_window_candidate_in_grid(
    visible: TileWindow,
    direction: ViewDirection,
    window: TileWindow,
    columns: int,
    rows: int,
    distances: Seq<u64>,
    index: int,
)
    requires
        window.inside(columns, rows),
        columns * rows <= u32::MAX,
        0 <= index < window.area(),
    ensures
        ({
            let width = window.last_x - window.first_x + 1;
            let tile = candidate_at(visible, direction, window, columns, distances, index).tile;
            &&& tile < columns * rows
            &&& index == (tile as int / columns - window.first_y) * width + (tile as int % columns
                - window.first_x)
        }),
{
    let width = window.last_x - window.first_x + 1;
    let height = window.last_y - window.first_y + 1;
    lemma_fundamental_div_mod(index, width);
    let x = window.first_x + index % width;
    let y = window.first_y + index / width;
    assert(index / width < height) by {
        lemma_multiply_divide_lt(index, width, height);
    }
    lemma_div_pos_is_pos(index, width);
    lemma_tile_number(x, y, columns, rows);
    lemma_window_place(y, x, columns, rows);
    lemma_mul_is_commutative(width, index / width);
}

/// The tiles of a window are pairwise different.
proof fn lemma_window_tiles_are_distinct(
    visible: TileWindow,
    direction: ViewDirection,
    window: TileWindow,
    columns: int,
    rows: int,
    distances: Seq<u64>,
)
    requires
        window.inside(columns, rows),
        columns * rows <= u32::MAX,
    ensures
        tiles_of(
            window_candidates(visible, direction, window, columns, distances),
        ).no_duplicates(),
{
    let candidates = window_candidates(visible, direction, window, columns, distances);
    lemma_mul_nonnegative(
        window.last_x - window.first_x + 1,
        window.last_y - window.first_y + 1,
    );
    assert forall|i: int, j: int|
        0 <= i < candidates.len() && 0 <= j < candidates.len() && i != j implies tiles_of(
        candidates,
    )[i] != tiles_of(candidates)[j] by {
        lemma_window_candidate_in_grid(visible, direction, window, columns, rows, distances, i);
        lemma_window_candidate_in_grid(visible, direction, window, columns, rows, distances, j);
    }
}

/// Ordering keeps exactly the candidates, each as often as it occurs.
pub proof fn lemma_wanted_order_keeps_candidates(candidates: Seq<TileCandidate>)
    ensures
        in_wanted_order(candidates).to_multiset() == candidates.to_multiset(),
        in_wanted_order(candidates).len() == candidates.len(),
    decreases candidates.len(),
{
    candidates.to_multiset_ensures();
    if candidates.len() > 0 {
        let head = candidates.drop_last();
        lemma_wanted_order_keeps_candidates(head);
        lemma_inserted_keeps_candidates(in_wanted_order(head), candidates.last());
        assert(head.push(candidates.last()) =~= candidates);
        head.to_multiset_ensures();
        assert(candidates.to_multiset() =~= head.to_multiset().insert(candidates.last()));
    } else {
        assert(candidates =~= Seq::<TileCandidate>::empty());
    }
}

/// Inserting adds exactly the inserted candidate.
proof fn lemma_inserted_keeps_candidates(sorted: Seq<TileCandidate>, candidate: TileCandidate)
    ensures
        inserted(sorted, candidate).to_multiset() == sorted.to_multiset().insert(candidate),
        inserted(sorted, candidate).len() == sorted.len() + 1,
    decreases sorted.len(),
{
    sorted.to_multiset_ensures();
    if sorted.len() > 0 && !wanted_no_later(sorted.last(), candidate) {
        let head = sorted.drop_last();
        lemma_inserted_keeps_candidates(head, candidate);
        head.to_multiset_ensures();
        inserted(head, candidate).to_multiset_ensures();
        assert(head.push(sorted.last()) =~= sorted);
        assert(head.to_multiset().insert(candidate).insert(sorted.last())
            =~= head.to_multiset().insert(sorted.last()).insert(candidate));
    }
}

/// A reordering of candidates with different tiles has different tiles.
proof fn lemma_distinct_tiles_stay_distinct(
    candidates: Seq<TileCandidate>,
    reordered: Seq<TileCandidate>,
)
    requires
        tiles_of(candidates).no_duplicates(),
        reordered.to_multiset() == candidates.to_multiset(),
        reordered.len() == candidates.len(),
    ensures
        tiles_of(reordered).no_duplicates(),
{
    assert(candidates.no_duplicates()) by {
        assert forall|i: int, j: int|
            0 <= i < candidates.len() && 0 <= j < candidates.len() && i != j implies candidates[i]
            != candidates[j] by {
            assert(tiles_of(candidates)[i] != tiles_of(candidates)[j]);
        }
    }
    candidates.to_multiset_ensures();
    reordered.to_multiset_ensures();
    candidates.lemma_multiset_has_no_duplicates();
    assert(reordered.no_duplicates()) by {
        reordered.lemma_multiset_has_no_duplicates_conv();
    }
    assert forall|i: int, j: int|
        0 <= i < reordered.len() && 0 <= j < reordered.len() && i != j implies tiles_of(
        reordered,
    )[i] != tiles_of(reordered)[j] by {
        assert(reordered.contains(reordered[i]));
        assert(reordered.contains(reordered[j]));
        assert(candidates.to_multiset().count(reordered[i]) > 0);
        assert(candidates.to_multiset().count(reordered[j]) > 0);
        assert(candidates.contains(reordered[i]));
        assert(candidates.contains(reordered[j]));
        let p = choose|p: int| 0 <= p < candidates.len() && candidates[p] == reordered[i];
        let q = choose|q: int| 0 <= q < candidates.len() && candidates[q] == reordered[j];
        if tiles_of(reordered)[i] == tiles_of(reordered)[j] {
            assert(tiles_of(candidates)[p] == tiles_of(candidates)[q]);
            assert(p == q);
        }
    }
}

/// Candidates are in the order in which they are wanted.
pub open spec fn is_in_wanted_order(candidates: Seq<TileCandidate>) -> bool {
    forall|i: int, j: int|
        #![trigger candidates[i], candidates[j]]
        0 <= i <= j < candidates.len() ==> wanted_no_later(candidates[i], candidates[j])
}

/// Two candidates are wanted equally.
pub open spec fn wanted_equally(a: TileCandidate, b: TileCandidate) -> bool {
    wanted_no_later(a, b) && wanted_no_later(b, a)
}

/// The prioritized tiles are in the order in which they are wanted, and those
/// that are wanted equally keep the order of the window.
pub proof fn wanted_order_is_sorted_and_stable(
    candidates: Seq<TileCandidate>,
    rank: TileCandidate,
)
    ensures
        is_in_wanted_order(in_wanted_order(candidates)),
        in_wanted_order(candidates).filter(|c: TileCandidate| wanted_equally(c, rank))
            == candidates.filter(|c: TileCandidate| wanted_equally(c, rank)),
        in_wanted_order(candidates).to_multiset() == candidates.to_multiset(),
    decreases candidates.len(),
{
    lemma_wanted_order_keeps_candidates(candidates);
    let same_rank = |c: TileCandidate| wanted_equally(c, rank);
    if candidates.len() > 0 {
        let head = candidates.drop_last();
        wanted_order_is_sorted_and_stable(head, rank);
        lemma_inserted_is_sorted_and_stable(in_wanted_order(head), candidates.last(), rank);
        assert(head.push(candidates.last()) =~= candidates);
        lemma_filter_push(head, candidates.last(), same_rank);
    } else {
        assert(candidates =~= Seq::<TileCandidate>::empty());
    }
}

/// Filtering a list with one more element.
proof fn lemma_filter_push(
    list: Seq<TileCandidate>,
    last: TileCandidate,
    keep: spec_fn(TileCandidate) -> bool,
)
    ensures
        list.push(last).filter(keep) == (if keep(last) {
            list.filter(keep).push(last)
        } else {
            list.filter(keep)
        }),
{
    reveal(Seq::filter);
    assert(list.push(last).drop_last() =~= list);
}

/// Inserting into an ordered list keeps it ordered, and puts the candidate
/// behind those that are wanted equally.
proof fn lemma_inserted_is_sorted_and_stable(
    sorted: Seq<TileCandidate>,
    candidate: TileCandidate,
    rank: TileCandidate,
)
    requires
        is_in_wanted_order(sorted),
    ensures
        is_in_wanted_order(inserted(sorted, candidate)),
        inserted(sorted, candidate).filter(|c: TileCandidate| wanted_equally(c, rank)) == (
        if wanted_equally(candidate, rank) {
            sorted.filter(|c: TileCandidate| wanted_equally(c, rank)).push(candidate)
        } else {
            sorted.filter(|c: TileCandidate| wanted_equally(c, rank))
        }),
    decreases sorted.len(),
{
    let same_rank = |c: TileCandidate| wanted_equally(c, rank);
    let result = inserted(sorted, candidate);
    if sorted.len() == 0 || wanted_no_later(sorted.last(), candidate) {
        lemma_filter_push(sorted, candidate, same_rank);
        assert forall|i: int, j: int|
            #![trigger result[i], result[j]]
            0 <= i <= j < result.len() implies wanted_no_later(result[i], result[j]) by {
            if j == sorted.len() && i < j {
                assert(wanted_no_later(sorted[i], sorted[sorted.len() - 1]));
            }
        }
    } else {
        let head = sorted.drop_last();
        let last = sorted.last();
        lemma_inserted_is_sorted_and_stable(head, candidate, rank);
        lemma_filter_push(inserted(head, candidate), last, same_rank);
        assert(head.push(last) =~= sorted);
        lemma_filter_push(head, last, same_rank);
        lemma_inserted_keeps_candidates(head, candidate);
        head.to_multiset_ensures();
        inserted(head, candidate).to_multiset_ensures();
        assert forall|i: int, j: int|
            #![trigger result[i], result[j]]
            0 <= i <= j < result.len() implies wanted_no_later(result[i], result[j]) by {
            if i < j && j == result.len() - 1 {
                let c = inserted(head, candidate)[i];
                assert(inserted(head, candidate).contains(c));
                assert(inserted(head, candidate).to_multiset().count(c) > 0);
                if c != candidate {
                    assert(head.to_multiset().count(c) > 0);
                    assert(head.contains(c));
                    let k = choose|k: int| 0 <= k < head.len() && head[k] == c;
                    assert(wanted_no_later(sorted[k], sorted[sorted.len() - 1]));
                }
            } else if j < result.len() - 1 {
                assert(result[i] == inserted(head, candidate)[i]);
                assert(result[j] == inserted(head, candidate)[j]);
            }
        }
    }
}

/// The tiles of a view at scale one: on each axis from the tile of its first
/// pixel to that of its end, inside the grid.
pub open spec fn unit_window(
    left: int,
    top: int,
    viewport: (int, int),
    columns: int,
    rows: int,
) -> TileWindow {
    TileWindow {
        first_x: numeric::smaller(left / 512, columns - 1) as u32,
        first_y: numeric::smaller(top / 512, rows - 1) as u32,
        last_x: numeric::smaller((left + viewport.0) / 512, columns - 1) as u32,
        last_y: numeric::smaller((top + viewport.1) / 512, rows - 1) as u32,
    }
}

/// Along one side, the tiles that a stretch of pixels touches and one more at
/// each end are no more than the working set allows for.
proof fn lemma_side_of_working_set(start: int, length: int, tiles: int)
    requires
        0 <= start,
        0 < length,
        0 < tiles,
    ensures
        ({
            let first = numeric::smaller(start / 512, tiles - 1);
            let last = numeric::smaller((start + length) / 512, tiles - 1);
            &&& 0 <= first <= last < tiles
            &&& one_more(last, tiles - 1) - one_less(first) + 1 <= numeric::ceiling(length, 512)
                + 3
        }),
{
}

/// The working set holds a view at scale one at the worst tile alignment, plus one
/// prefetch tile on every side.
pub proof fn working_set_covers_unit_views(
    left: int,
    top: int,
    viewport: (int, int),
    columns: int,
    rows: int,
)
    requires
        0 <= left,
        0 <= top,
        0 < viewport.0 <= u32::MAX,
        0 < viewport.1 <= u32::MAX,
        0 < columns,
        0 < rows,
        columns * rows <= u32::MAX,
    ensures
        prefetch_window(
            unit_window(left, top, viewport, columns, rows),
            (ViewDirection { x: 0, y: 0 }),
            columns,
            rows,
        ).area() <= working_set_tiles(viewport.0, viewport.1),
{
    assert(columns <= u32::MAX && rows <= u32::MAX) by (nonlinear_arith)
        requires
            0 < columns,
            0 < rows,
            columns * rows <= u32::MAX,
    ;
    lemma_side_of_working_set(left, viewport.0, columns);
    lemma_side_of_working_set(top, viewport.1, rows);
    let window = prefetch_window(
        unit_window(left, top, viewport, columns, rows),
        (ViewDirection { x: 0, y: 0 }),
        columns,
        rows,
    );
    let width = window.last_x - window.first_x + 1;
    let height = window.last_y - window.first_y + 1;
    let most_columns = numeric::ceiling(viewport.0, 512) + 3;
    let most_rows = numeric::ceiling(viewport.1, 512) + 3;
    assert(width * height <= most_columns * most_rows) by (nonlinear_arith)
        requires
            0 <= width <= most_columns,
            0 <= height <= most_rows,
    ;
    assert(width * height <= columns * rows) by (nonlinear_arith)
        requires
            0 <= width <= columns,
            0 <= height <= rows,
    ;
}

/// What is prefetched around a visible window: one tile on every side, and a second
/// one on the sides towards which the view moves, as far as the image has them. A
/// view that does not move along an axis, or moves away from a side, adds no second
/// tile there.
pub proof fn prefetch_reaches_ahead_of_the_view(
    visible: TileWindow,
    direction: ViewDirection,
    columns: int,
    rows: int,
)
    requires
        visible.first_x <= visible.last_x < columns <= u32::MAX,
        visible.first_y <= visible.last_y < rows <= u32::MAX,
    ensures
        ({
            let window = prefetch_window(visible, direction, columns, rows);
            let left: int = if float_bits::less64(direction.x, 0) {
                2
            } else {
                1
            };
            let right: int = if float_bits::less64(0, direction.x) {
                2
            } else {
                1
            };
            let up: int = if float_bits::less64(direction.y, 0) {
                2
            } else {
                1
            };
            let down: int = if float_bits::less64(0, direction.y) {
                2
            } else {
                1
            };
            &&& visible.first_x >= left ==> window.first_x == visible.first_x - left
            &&& visible.first_x < left ==> window.first_x == 0
            &&& visible.last_x + right < columns ==> window.last_x == visible.last_x + right
            &&& visible.last_x + right >= columns ==> window.last_x == columns - 1
            &&& visible.first_y >= up ==> window.first_y == visible.first_y - up
            &&& visible.first_y < up ==> window.first_y == 0
            &&& visible.last_y + down < rows ==> window.last_y == visible.last_y + down
            &&& visible.last_y + down >= rows ==> window.last_y == rows - 1
        }),
{
}

/// In which order tiles are loaded: visible ones first; then those beyond the
/// visible window on a side towards which the view moves; then the others. A view
/// that stands still has no tiles ahead.
pub proof fn visible_tiles_come_first(
    x: int,
    y: int,
    visible: TileWindow,
    direction: ViewDirection,
)
    requires
        visible.first_x <= visible.last_x,
        visible.first_y <= visible.last_y,
    ensures
        ({
            let priority = priority_of(x, y, visible, direction);
            let inside = visible.first_x <= x <= visible.last_x && visible.first_y <= y
                <= visible.last_y;
            let right = float_bits::less64(0, direction.x);
            let left = float_bits::less64(direction.x, 0);
            let down = float_bits::less64(0, direction.y);
            let up = float_bits::less64(direction.y, 0);
            &&& inside <==> priority == 0
            &&& !inside && right && x > visible.last_x ==> priority == 1
            &&& !inside && left && x < visible.first_x ==> priority == 1
            &&& !inside && down && y > visible.last_y ==> priority == 1
            &&& !inside && up && y < visible.first_y ==> priority == 1
            &&& !inside && !right && !left && !down && !up ==> priority == 2
            &&& !inside && right && x < visible.first_x && visible.first_y <= y <= visible.last_y
                ==> priority == 2
            &&& !inside && left && x > visible.last_x && visible.first_y <= y <= visible.last_y
                ==> priority == 2
            &&& !inside && down && y < visible.first_y && visible.first_x <= x <= visible.last_x
                ==> priority == 2
            &&& !inside && up && y > visible.last_y && visible.first_x <= x <= visible.last_x
                ==> priority == 2
            &&& priority <= 2
        }),
{
}

/// Every tile of a window is a candidate: at its place in row-major order, under its
/// number in the image, with its own priority and its own distance.
pub proof fn windows_list_every_tile(
    visible: TileWindow,
    direction: ViewDirection,
    window: TileWindow,
    columns: int,
    rows: int,
    distances: Seq<u64>,
    x: int,
    y: int,
)
    requires
        window.inside(columns, rows),
        columns * rows <= u32::MAX,
        window.first_x <= x <= window.last_x,
        window.first_y <= y <= window.last_y,
    ensures
        ({
            let width = window.last_x - window.first_x + 1;
            let place = (y - window.first_y) * width + (x - window.first_x);
            let candidates = window_candidates(visible, direction, window, columns, distances);
            &&& candidates.len() == width * (window.last_y - window.first_y + 1)
            &&& 0 <= place < candidates.len()
            &&& candidates[place].tile == y * columns + x
            &&& candidates[place].priority == priority_of(x, y, visible, direction)
            &&& candidates[place].distance == distances[place]
        }),
{
    let width = window.last_x - window.first_x + 1;
    let height = window.last_y - window.first_y + 1;
    lemma_window_place(y - window.first_y, x - window.first_x, width, height);
    lemma_tile_number(x, y, columns, rows);
    lemma_mul_nonnegative(width, height);
}

/// The order in which tiles are wanted: by priority, the smaller first, and among
/// tiles of one priority by distance, the nearer first.
pub proof fn nearer_tiles_are_wanted_earlier(candidates: Seq<TileCandidate>, i: int, j: int)
    requires
        0 <= i < j < candidates.len(),
    ensures
        ({
            let sorted = in_wanted_order(candidates);
            &&& sorted.len() == candidates.len()
            &&& sorted[i].priority <= sorted[j].priority
            &&& sorted[i].priority == sorted[j].priority && sorted[i].distance
                < 0x8000_0000_0000_0000 && sorted[j].distance < 0x8000_0000_0000_0000
                ==> sorted[i].distance <= sorted[j].distance
        }),
{
    wanted_order_is_sorted_and_stable(candidates, candidates[i]);
    lemma_wanted_order_keeps_candidates(candidates);
    let sorted = in_wanted_order(candidates);
    assert(wanted_no_later(sorted[i], sorted[j]));
}

/// As many tiles are wanted as there are slots, or all of them; none that is wanted
/// later is taken before one that is wanted earlier.
pub proof fn slots_go_to_the_tiles_wanted_first(candidates: Seq<TileCandidate>, limit: int, i: int)
    requires
        0 <= limit,
    ensures
        ({
            let wanted = at_most(tiles_of(in_wanted_order(candidates)), limit);
            &&& limit >= candidates.len() ==> wanted.len() == candidates.len()
            &&& limit < candidates.len() ==> wanted.len() == limit
            &&& 0 <= i < wanted.len() ==> wanted[i] == in_wanted_order(candidates)[i].tile
        }),
{
    lemma_wanted_order_keeps_candidates(candidates);
}

/// The working set of a window that is a whole number of tiles: these tiles, one more
/// for an alignment between them, and one on each side. A window without pixels
/// needs none, and a larger window never fewer.
pub proof fn working_sets_grow_with_the_window(
    columns: int,
    rows: int,
    width: int,
    height: int,
    wider: int,
    higher: int,
)
    requires
        1 <= columns <= 0x4000,
        1 <= rows <= 0x4000,
        0 <= width <= wider,
        0 <= height <= higher,
    ensures
        working_set_tiles(512 * columns, 512 * rows) == (columns + 1 + 2) * (rows + 1 + 2),
        working_set_tiles(width, height) <= working_set_tiles(wider, higher),
        working_set_tiles(0, height) == 0,
        working_set_tiles(width, 0) == 0,
{
    assert((columns + 3) * (rows + 3) <= u32::MAX) by (nonlinear_arith)
        requires
            1 <= columns <= 0x4000,
            1 <= rows <= 0x4000,
    ;
    if width > 0 && height > 0 {
        let a = numeric::ceiling(width, 512) + 3;
        let b = numeric::ceiling(height, 512) + 3;
        let c = numeric::ceiling(wider, 512) + 3;
        let d = numeric::ceiling(higher, 512) + 3;
        assert(a * b <= c * d) by (nonlinear_arith)
            requires
                0 <= a <= c,
                0 <= b <= d,
        ;
    } else if wider > 0 && higher > 0 {
        let c = numeric::ceiling(wider, 512) + 3;
        let d = numeric::ceiling(higher, 512) + 3;
        assert(c * d >= 0) by (nonlinear_arith)
            requires
                0 <= c,
                0 <= d,
        ;
    }
}

} // verus!
