//! The per-frame tile-selection state machine.
//!
//! Once per external tick the engine receives the tile under the cursor (or
//! none) and a snapshot of five input signals, and updates two sets of
//! tiles: `selected`, the committed selection, and `hovered`, a preview
//! recomputed from scratch every tick. Three gesture modes interact: point
//! selection paints single tiles, area selection grows a hexagon around an
//! anchor, and line selection commits a thick line of tiles on release.

use vstd::prelude::*;
use crate::coords::COORD_LIMIT;
use crate::coords::MAP_SIZE;
use crate::coords::Position;
use crate::coords::dist_spec;
use crate::coords::within;
use crate::lines::LINE_RANGE;
use crate::lines::lemma_line_point_bounds;
use crate::lines::line_seq;
use crate::rings::hexagon_seq;
use crate::rings::ring_seq;
use crate::tiles::TilePos;
use crate::tiles::TileSet;

verus! {

/// The five input signals the selection engine is driven by.
#[derive(Debug, Clone, Copy, PartialEq, Eq, Structural)]
pub enum PlayerAction {
    /// Commit tiles to the selection.
    Select,
    /// Remove tiles from the selection.
    Deselect,
    /// Modifier: keep the existing selection instead of replacing it.
    Multiple,
    /// Modifier: select a growing hexagonal area.
    Area,
    /// Modifier: select a thick line of tiles.
    Line,
}

/// A per-tick snapshot of the input signals: which actions are currently
/// held, and which of the two committing actions were just released.
#[derive(Debug, Clone, Copy, PartialEq, Eq, Structural)]
pub struct ActionInputs {
    pub select: bool,
    pub deselect: bool,
    pub multiple: bool,
    pub area: bool,
    pub line: bool,
    pub select_just_released: bool,
    pub deselect_just_released: bool,
}

/// Is `action` currently held in the snapshot `a`?
pub open spec fn pressed_spec(a: ActionInputs, action: PlayerAction) -> bool {
    match action {
        PlayerAction::Select => a.select,
        PlayerAction::Deselect => a.deselect,
        PlayerAction::Multiple => a.multiple,
        PlayerAction::Area => a.area,
        PlayerAction::Line => a.line,
    }
}

/// Was `action` just released in the snapshot `a`? Only the two committing
/// actions report a release edge.
pub open spec fn just_released_spec(a: ActionInputs, action: PlayerAction) -> bool {
    match action {
        PlayerAction::Select => a.select_just_released,
        PlayerAction::Deselect => a.deselect_just_released,
        _ => false,
    }
}

/// An area gesture with no other modifier: area held, multiple and line
/// not.
pub open spec fn simple_area_spec(a: ActionInputs) -> bool {
    a.area && !a.multiple && !a.line
}

/// A bare deselect: deselect held with no modifier at all.
pub open spec fn simple_deselect_spec(a: ActionInputs) -> bool {
    a.deselect && !a.area && !a.multiple && !a.line
}

impl ActionInputs {
    /// Is `action` currently held?
    pub fn pressed(&self, action: PlayerAction) -> (r: bool)
        ensures
            r == pressed_spec(*self, action),
    {
        match action {
            PlayerAction::Select => self.select,
            PlayerAction::Deselect => self.deselect,
            PlayerAction::Multiple => self.multiple,
            PlayerAction::Area => self.area,
            PlayerAction::Line => self.line,
        }
    }

    /// Was `action` just released this tick?
    pub fn just_released(&self, action: PlayerAction) -> (r: bool)
        ensures
            r == just_released_spec(*self, action),
    {
        match action {
            PlayerAction::Select => self.select_just_released,
            PlayerAction::Deselect => self.deselect_just_released,
            _ => false,
        }
    }
}

/// Does the tile lie on the playable map?
pub open spec fn in_map(t: TilePos) -> bool {
    dist_spec(t.hex, Position { alpha: 0, beta: 0 }) <= MAP_SIZE
}

/// The set of tiles whose positions occur in the sequence `s`.
pub open spec fn tile_set_of(s: Seq<Position>) -> Set<TilePos> {
    Set::new(|t: TilePos| s.contains(t.hex))
}

/// The tiles of the radius-`r` ring around `c`.
pub open spec fn ring_tile_set(c: Position, r: int) -> Set<TilePos> {
    tile_set_of(ring_seq(c, r))
}

/// The tiles of the filled hexagon of radius `r` around `c`.
pub open spec fn hexagon_tile_set(c: Position, r: int) -> Set<TilePos> {
    tile_set_of(hexagon_seq(c, r))
}

/// The thick-line footprint from `s` to `e`: the union of the filled
/// hexagons of radius `r` around every tile of the straight hex line
/// between them, restricted to the first `m` line tiles.
pub open spec fn line_footprint_prefix(s: Position, e: Position, r: int, m: int) -> Set<TilePos> {
    Set::new(
        |t: TilePos|
            exists|i: int|
                0 <= i < m && #[trigger] hexagon_seq(line_seq(s, e)[i], r).contains(t.hex),
    )
}

/// The thick-line footprint from `s` to `e` with thickness radius `r`: one
/// filled hexagon around every tile of the straight hex line between them.
pub open spec fn line_footprint(s: Position, e: Position, r: int) -> Set<TilePos> {
    line_footprint_prefix(s, e, r, line_seq(s, e).len() as int)
}

/// The two tile sets the selection engine maintains.
pub ghost struct SelectedTilesView {
    /// The committed selection.
    pub selected: Set<TilePos>,
    /// The preview recomputed every tick.
    pub hovered: Set<TilePos>,
}

/// The set of tiles that is currently selected, together with the tiles
/// merely hovered over this tick.
#[derive(Debug, Clone)]
pub struct SelectedTiles {
    selected: TileSet,
    hovered: TileSet,
}

impl View for SelectedTiles {
    type V = SelectedTilesView;

    closed spec fn view(&self) -> SelectedTilesView {
        SelectedTilesView { selected: self.selected@, hovered: self.hovered@ }
    }
}

impl SelectedTiles {
    /// Well-formedness of the two backing sets.
    pub closed spec fn wf(self) -> bool {
        self.selected.wf() && self.hovered.wf()
    }

    /// Selects a single tile.
    pub fn add_tile(&mut self, tile_pos: TilePos)
        requires
            old(self).wf(),
        ensures
            final(self).wf(),
            final(self)@.selected == old(self)@.selected.insert(tile_pos),
            final(self)@.hovered == old(self)@.hovered,
    {
        self.selected.insert(tile_pos);
    }

    /// Deselects a single tile.
    pub fn remove_tile(&mut self, tile_pos: TilePos)
        requires
            old(self).wf(),
        ensures
            final(self).wf(),
            final(self)@.selected == old(self)@.selected.remove(tile_pos),
            final(self)@.hovered == old(self)@.hovered,
    {
        self.selected.remove(tile_pos);
    }

    /// Selects (or deselects) the filled hexagon of tiles of the given
    /// radius around `center`.
    pub fn select_hexagon(&mut self, center: TilePos, radius: u32, select: bool)
        requires
            old(self).wf(),
            within(center.hex, COORD_LIMIT as int),
            radius <= COORD_LIMIT as u32,
        ensures
            final(self).wf(),
            select ==> final(self)@.selected == old(self)@.selected.union(
                hexagon_tile_set(center.hex, radius as int),
            ),
            !select ==> final(self)@.selected == old(self)@.selected.difference(
                hexagon_tile_set(center.hex, radius as int),
            ),
            final(self)@.hovered == old(self)@.hovered,
    {
        let hex_coord = center.hex.hexagon(radius as isize);
        if select {
            insert_positions(&mut self.selected, &hex_coord);
        } else {
            remove_positions(&mut self.selected, &hex_coord);
        }
    }

    /// Clears the set of selected tiles.
    pub fn clear_selection(&mut self)
        requires
            old(self).wf(),
        ensures
            final(self).wf(),
            final(self)@.selected == Set::<TilePos>::empty(),
            final(self)@.hovered == old(self)@.hovered,
    {
        self.selected.clear();
    }

    /// The set of currently selected tiles.
    pub fn selection(&self) -> (s: &TileSet)
        requires
            self.wf(),
        ensures
            s.wf(),
            s@ == self@.selected,
    {
        &self.selected
    }

    /// The set of tiles hovered over this tick.
    pub fn hovered(&self) -> (s: &TileSet)
        requires
            self.wf(),
        ensures
            s.wf(),
            s@ == self@.hovered,
    {
        &self.hovered
    }

    /// Are any tiles selected?
    pub fn is_empty(&self) -> (r: bool)
        requires
            self.wf(),
        ensures
            r == (self@.selected.len() == 0),
    {
        self.selected.is_empty()
    }

    /// Is the given tile in the selection?
    pub fn contains_tile(&self, tile_pos: TilePos) -> (r: bool)
        requires
            self.wf(),
        ensures
            r == self@.selected.contains(tile_pos),
    {
        self.selected.contains(tile_pos)
    }
}

impl Default for SelectedTiles {
    /// Both sets start empty.
    fn default() -> (s: Self)
        ensures
            s.wf(),
            s@.selected == Set::<TilePos>::empty(),
            s@.hovered == Set::<TilePos>::empty(),
    {
        SelectedTiles { selected: TileSet::new(), hovered: TileSet::new() }
    }
}

/// Adds the tile of every position in `v` to `ts`.
fn insert_positions(ts: &mut TileSet, v: &Vec<Position>)
    requires
        old(ts).wf(),
    ensures
        final(ts).wf(),
        final(ts)@ == old(ts)@.union(tile_set_of(v@)),
{
    let mut i: usize = 0;
    while i < v.len()
        invariant
            0 <= i <= v@.len(),
            ts.wf(),
            ts@ == old(ts)@.union(tile_set_of(v@.take(i as int))),
        decreases v@.len() - i,
    {
        ts.insert(TilePos { hex: v[i] });
        proof {
            assert forall|t: TilePos|
                tile_set_of(v@.take(i as int + 1)).contains(t) <==> tile_set_of(
                    v@.take(i as int),
                ).insert(TilePos { hex: v@[i as int] }).contains(t) by {
                if tile_set_of(v@.take(i as int + 1)).contains(t) {
                    let k = choose|k: int|
                        0 <= k < i as int + 1 && #[trigger] v@.take(i as int + 1)[k] == t.hex;
                    if k < i as int {
                        assert(v@.take(i as int)[k] == t.hex);
                    } else {
                        assert(t == (TilePos { hex: v@[i as int] }));
                    }
                } else {
                    if tile_set_of(v@.take(i as int)).contains(t) {
                        let k = choose|k: int|
                            0 <= k < i as int && #[trigger] v@.take(i as int)[k] == t.hex;
                        assert(v@.take(i as int + 1)[k] == t.hex);
                    }
                    if t == (TilePos { hex: v@[i as int] }) {
                        assert(v@.take(i as int + 1)[i as int] == t.hex);
                    }
                }
            }
            assert forall|t: TilePos|
                ts@.contains(t) <==> old(ts)@.union(
                    tile_set_of(v@.take(i as int + 1)),
                ).contains(t) by {
                assert(tile_set_of(v@.take(i as int + 1)).contains(t) <==> tile_set_of(
                    v@.take(i as int),
                ).insert(TilePos { hex: v@[i as int] }).contains(t));
                assert(ts@.contains(t) <==> old(ts)@.union(tile_set_of(v@.take(i as int))).insert(
                    TilePos { hex: v@[i as int] },
                ).contains(t));
            }
            assert(ts@ =~= old(ts)@.union(tile_set_of(v@.take(i as int + 1))));
        }
        i = i + 1;
    }
    proof {
        assert(v@.take(v@.len() as int) =~= v@);
        assert(final(ts)@ =~= old(ts)@.union(tile_set_of(v@)));
    }
}

/// Removes the tile of every position in `v` from `ts`.
fn remove_positions(ts: &mut TileSet, v: &Vec<Position>)
    requires
        old(ts).wf(),
    ensures
        final(ts).wf(),
        final(ts)@ == old(ts)@.difference(tile_set_of(v@)),
{
    let mut i: usize = 0;
    while i < v.len()
        invariant
            0 <= i <= v@.len(),
            ts.wf(),
            ts@ == old(ts)@.difference(tile_set_of(v@.take(i as int))),
        decreases v@.len() - i,
    {
        ts.remove(TilePos { hex: v[i] });
        proof {
            assert forall|t: TilePos|
                tile_set_of(v@.take(i as int + 1)).contains(t) <==> tile_set_of(
                    v@.take(i as int),
                ).insert(TilePos { hex: v@[i as int] }).contains(t) by {
                if tile_set_of(v@.take(i as int + 1)).contains(t) {
                    let k = choose|k: int|
                        0 <= k < i as int + 1 && #[trigger] v@.take(i as int + 1)[k] == t.hex;
                    if k < i as int {
                        assert(v@.take(i as int)[k] == t.hex);
                    } else {
                        assert(t == (TilePos { hex: v@[i as int] }));
                    }
                } else {
                    if tile_set_of(v@.take(i as int)).contains(t) {
                        let k = choose|k: int|
                            0 <= k < i as int && #[trigger] v@.take(i as int)[k] == t.hex;
                        assert(v@.take(i as int + 1)[k] == t.hex);
                    }
                    if t == (TilePos { hex: v@[i as int] }) {
                        assert(v@.take(i as int + 1)[i as int] == t.hex);
                    }
                }
            }
            assert forall|t: TilePos|
                ts@.contains(t) <==> old(ts)@.difference(
                    tile_set_of(v@.take(i as int + 1)),
                ).contains(t) by {
                assert(tile_set_of(v@.take(i as int + 1)).contains(t) <==> tile_set_of(
                    v@.take(i as int),
                ).insert(TilePos { hex: v@[i as int] }).contains(t));
                assert(ts@.contains(t) <==> old(ts)@.difference(
                    tile_set_of(v@.take(i as int)),
                ).remove(TilePos { hex: v@[i as int] }).contains(t));
            }
            assert(ts@ =~= old(ts)@.difference(tile_set_of(v@.take(i as int + 1))));
        }
        i = i + 1;
    }
    proof {
        assert(v@.take(v@.len() as int) =~= v@);
        assert(final(ts)@ =~= old(ts)@.difference(tile_set_of(v@)));
    }
}


/// The transient state of the area gesture.
pub ghost struct AreaSelectionView {
    /// The anchor tile the gesture grows around, present while armed.
    pub center: Option<TilePos>,
    /// The radius of the selection; persists across frames.
    pub radius: int,
    /// Whether a snapshot of the selection was captured at gesture start.
    pub armed: bool,
}

/// Is an area gesture state well formed? The anchor is present exactly
/// while the gesture is armed, lies on the map, and the radius never
/// exceeds the map's diameter.
pub open spec fn area_view_wf(v: AreaSelectionView) -> bool {
    &&& v.armed <==> v.center is Some
    &&& (v.center matches Some(t) ==> in_map(t))
    &&& 0 <= v.radius <= 2 * MAP_SIZE
}

/// The state needed by the area gesture: an anchor tile, the current
/// radius, and the selection snapshot captured when the gesture began.
#[derive(Debug)]
pub struct AreaSelection {
    center: Option<TilePos>,
    radius: u32,
    initial_selection: Option<SelectedTiles>,
}

impl View for AreaSelection {
    type V = AreaSelectionView;

    closed spec fn view(&self) -> AreaSelectionView {
        AreaSelectionView {
            center: self.center,
            radius: self.radius as int,
            armed: self.initial_selection is Some,
        }
    }
}

impl AreaSelection {
    /// Well-formedness of the gesture state.
    pub open spec fn wf(self) -> bool {
        area_view_wf(self@)
    }

    /// Arms the gesture: records the cursor tile as the anchor and captures
    /// a snapshot of the current selection.
    pub fn begin(&mut self, selected_tiles: &SelectedTiles, cursor_pos: TilePos)
        requires
            old(self).wf(),
            in_map(cursor_pos),
        ensures
            final(self).wf(),
            final(self)@ == (AreaSelectionView {
                center: Some(cursor_pos),
                radius: old(self)@.radius,
                armed: true,
            }),
    {
        self.center = Some(cursor_pos);
        self.initial_selection = Some(selected_tiles.clone());
    }

    /// Disarms the gesture, dropping the anchor and the snapshot; the
    /// radius is retained for the next gesture.
    pub fn finish(&mut self)
        requires
            old(self).wf(),
        ensures
            final(self).wf(),
            final(self)@ == (AreaSelectionView {
                center: None,
                radius: old(self)@.radius,
                armed: false,
            }),
    {
        self.center = None;
        self.initial_selection = None;
    }
}

impl Default for AreaSelection {
    /// Unarmed, with a radius of one.
    fn default() -> (s: Self)
        ensures
            s.wf(),
            s@ == (AreaSelectionView { center: None, radius: 1, armed: false }),
    {
        AreaSelection { center: None, radius: 1, initial_selection: None }
    }
}

/// The transient state of the line gesture.
pub ghost struct LineSelectionView {
    /// The tile the next line segment starts from, present while armed.
    pub start: Option<TilePos>,
    /// Whether a snapshot of the selection was captured at gesture start.
    pub armed: bool,
}

/// Is a line gesture state well formed? The start tile is present exactly
/// while the gesture is armed and lies on the map.
pub open spec fn line_view_wf(v: LineSelectionView) -> bool {
    &&& v.armed <==> v.start is Some
    &&& (v.start matches Some(t) ==> in_map(t))
}

/// The state needed by the line gesture: the start tile of the next
/// segment and the selection snapshot captured when the gesture began.
#[derive(Debug)]
pub struct LineSelection {
    start: Option<TilePos>,
    initial_selection: Option<SelectedTiles>,
}

impl View for LineSelection {
    type V = LineSelectionView;

    closed spec fn view(&self) -> LineSelectionView {
        LineSelectionView { start: self.start, armed: self.initial_selection is Some }
    }
}

impl LineSelection {
    /// Well-formedness of the gesture state.
    pub open spec fn wf(self) -> bool {
        line_view_wf(self@)
    }

    /// Arms the gesture: records the cursor tile as the start and captures
    /// a snapshot of the current selection.
    pub fn begin(&mut self, selected_tiles: &SelectedTiles, cursor_pos: TilePos)
        requires
            old(self).wf(),
            in_map(cursor_pos),
        ensures
            final(self).wf(),
            final(self)@ == (LineSelectionView { start: Some(cursor_pos), armed: true }),
    {
        self.start = Some(cursor_pos);
        self.initial_selection = Some(selected_tiles.clone());
    }

    /// Disarms the gesture, dropping the start tile and the snapshot.
    pub fn finish(&mut self)
        requires
            old(self).wf(),
        ensures
            final(self).wf(),
            final(self)@ == (LineSelectionView { start: None, armed: false }),
    {
        self.start = None;
        self.initial_selection = None;
    }

    /// The thick line of tiles between the armed start and `end`: the
    /// filled hexagon of the given radius around every tile of the straight
    /// hex line between them. Accumulated as a set, so self-overlapping
    /// paths never double-count.
    pub fn draw_line(&self, end: TilePos, radius: u32) -> (tiles: TileSet)
        requires
            self.wf(),
            self@.armed,
            in_map(end),
            radius as int <= 2 * MAP_SIZE,
        ensures
            tiles.wf(),
            tiles@ == line_footprint(self@.start.unwrap().hex, end.hex, radius as int),
    {
        let start = self.start.unwrap();
        proof {
            lemma_in_map_within(start);
            lemma_in_map_within(end);
        }
        let line = start.hex.line_to(end.hex);
        let mut tiles = TileSet::new();
        let ghost s = start.hex;
        let ghost e = end.hex;
        let ghost r = radius as int;

        proof {
            assert(tiles@ =~= line_footprint_prefix(s, e, r, 0));
        }
        let mut li: usize = 0;
        while li < line.len()
            invariant
                0 <= li <= line@.len(),
                line@ == line_seq(s, e),
                s == self@.start.unwrap().hex,
                e == end.hex,
                r == radius as int,
                0 <= r <= 2 * MAP_SIZE,
                within(s, LINE_RANGE as int),
                within(e, LINE_RANGE as int),
                tiles.wf(),
                tiles@ == line_footprint_prefix(s, e, r, li as int),
            decreases line@.len() - li,
        {
            proof {
                lemma_line_point_bounds(s, e, li as int);
            }
            let hexes = line[li].hexagon(radius as isize);
            insert_positions(&mut tiles, &hexes);
            proof {
                let m = li as int;
                assert forall|t: TilePos|
                    line_footprint_prefix(s, e, r, m + 1).contains(t) <==> line_footprint_prefix(
                        s,
                        e,
                        r,
                        m,
                    ).union(tile_set_of(hexagon_seq(line_seq(s, e)[m], r))).contains(t) by {
                    if line_footprint_prefix(s, e, r, m + 1).contains(t) {
                        let i = choose|i: int|
                            0 <= i < m + 1 && #[trigger] hexagon_seq(
                                line_seq(s, e)[i],
                                r,
                            ).contains(t.hex);
                        if i < m {
                            assert(line_footprint_prefix(s, e, r, m).contains(t));
                        }
                    }
                    if line_footprint_prefix(s, e, r, m).contains(t) {
                        let i = choose|i: int|
                            0 <= i < m && #[trigger] hexagon_seq(line_seq(s, e)[i], r).contains(
                                t.hex,
                            );
                        assert(hexagon_seq(line_seq(s, e)[i], r).contains(t.hex));
                        assert(line_footprint_prefix(s, e, r, m + 1).contains(t));
                    }
                    if tile_set_of(hexagon_seq(line_seq(s, e)[m], r)).contains(t) {
                        assert(hexagon_seq(line_seq(s, e)[m], r).contains(t.hex));
                        assert(line_footprint_prefix(s, e, r, m + 1).contains(t));
                    }
                }
                assert(tiles@ =~= line_footprint_prefix(s, e, r, m + 1));
            }
            li = li + 1;
        }
        tiles
    }
}

impl Default for LineSelection {
    /// Unarmed.
    fn default() -> (s: Self)
        ensures
            s.wf(),
            s@ == (LineSelectionView { start: None, armed: false }),
    {
        LineSelection { start: None, initial_selection: None }
    }
}

/// A tile on the map has both coordinates within twice the map radius.
proof fn lemma_in_map_within(t: TilePos)
    requires
        in_map(t),
    ensures
        within(t.hex, 2 * MAP_SIZE as int),
        within(t.hex, LINE_RANGE as int),
        within(t.hex, COORD_LIMIT as int),
{
}


/// The area gesture state after the arming and disarming steps of a tick:
/// a bare area gesture arms an unarmed state at the cursor tile, and
/// anything that is not a bare area gesture disarms it.
pub open spec fn armed_area(st: AreaSelectionView, a: ActionInputs, c: TilePos) -> AreaSelectionView {
    if simple_area_spec(a) {
        if !st.armed {
            AreaSelectionView { center: Some(c), radius: st.radius, armed: true }
        } else {
            st
        }
    } else {
        AreaSelectionView { center: None, radius: st.radius, armed: false }
    }
}

/// The line gesture state after the arming and disarming steps of a tick:
/// a held line signal arms an unarmed state at the cursor tile, and a
/// released one disarms it.
pub open spec fn armed_line(st: LineSelectionView, a: ActionInputs, c: TilePos) -> LineSelectionView {
    if a.line {
        if !st.armed {
            LineSelectionView { start: Some(c), armed: true }
        } else {
            st
        }
    } else {
        LineSelectionView { start: None, armed: false }
    }
}

/// The center the tick works around: the armed anchor during a bare area
/// gesture, the cursor tile otherwise.
pub open spec fn resolved_center(a: ActionInputs, c: TilePos, area1: AreaSelectionView) -> TilePos {
    if a.area && simple_area_spec(a) {
        area1.center.unwrap()
    } else {
        c
    }
}

/// The radius the tick works with: the live anchor-to-cursor distance
/// during a bare area gesture, the last committed radius while area is
/// held otherwise, and zero without the area signal.
pub open spec fn resolved_radius(a: ActionInputs, c: TilePos, area1: AreaSelectionView) -> int {
    if a.area {
        if simple_area_spec(a) {
            dist_spec(c.hex, area1.center.unwrap().hex)
        } else {
            area1.radius
        }
    } else {
        0
    }
}

/// The hovered set recomputed on every tick: the outline ring plus its
/// center during a bare area gesture, the thick-line footprint while line
/// is held, and the cursor tile alone otherwise.
pub open spec fn hovered_after(
    a: ActionInputs,
    c: TilePos,
    area1: AreaSelectionView,
    line1: LineSelectionView,
) -> Set<TilePos> {
    let center = resolved_center(a, c, area1);
    let radius = resolved_radius(a, c, area1);
    if simple_area_spec(a) {
        ring_tile_set(center.hex, radius).insert(center)
    } else if a.line {
        line_footprint(line1.start.unwrap().hex, c.hex, radius)
    } else {
        Set::<TilePos>::empty().insert(c)
    }
}

/// The selected set after a tick. Conflicting select and deselect signals
/// leave it untouched. Otherwise a bare deselect, or a select without the
/// multiple modifier, first clears it; then line mode commits the
/// thick-line footprint on a release edge, and point or area mode paints
/// or erases the hexagon footprint while a signal is held.
pub open spec fn selected_after(
    old_sel: Set<TilePos>,
    a: ActionInputs,
    c: TilePos,
    area1: AreaSelectionView,
    line1: LineSelectionView,
) -> Set<TilePos> {
    let center = resolved_center(a, c, area1);
    let radius = resolved_radius(a, c, area1);
    if a.select && a.deselect {
        old_sel
    } else {
        let base = if simple_deselect_spec(a) || (a.select && !a.multiple) {
            Set::<TilePos>::empty()
        } else {
            old_sel
        };
        if a.line {
            if a.select_just_released {
                base.union(line_footprint(line1.start.unwrap().hex, c.hex, radius))
            } else if a.deselect_just_released {
                base.difference(line_footprint(line1.start.unwrap().hex, c.hex, radius))
            } else {
                base
            }
        } else {
            if a.select {
                base.union(hexagon_tile_set(center.hex, radius))
            } else if a.deselect {
                base.difference(hexagon_tile_set(center.hex, radius))
            } else {
                base
            }
        }
    }
}

/// The area gesture state at the end of a tick: the armed state, with the
/// radius refreshed to the live anchor-to-cursor distance during a bare
/// area gesture.
pub open spec fn area_after(st: AreaSelectionView, a: ActionInputs, c: TilePos) -> AreaSelectionView {
    let area1 = armed_area(st, a, c);
    if simple_area_spec(a) {
        AreaSelectionView {
            center: area1.center,
            radius: dist_spec(c.hex, area1.center.unwrap().hex),
            armed: area1.armed,
        }
    } else {
        area1
    }
}

/// The line gesture state at the end of a tick: the armed state, with the
/// start tile moved to the cursor after a commit so that consecutive
/// segments chain.
pub open spec fn line_after(st: LineSelectionView, a: ActionInputs, c: TilePos) -> LineSelectionView {
    let line1 = armed_line(st, a, c);
    if a.line && !(a.select && a.deselect) && (a.select_just_released || a.deselect_just_released) {
        LineSelectionView { start: Some(c), armed: line1.armed }
    } else {
        line1
    }
}

/// Adds every tile in `v` to `ts`.
fn insert_tiles(ts: &mut TileSet, v: &Vec<TilePos>)
    requires
        old(ts).wf(),
    ensures
        final(ts).wf(),
        final(ts)@ == old(ts)@.union(v@.to_set()),
{
    let mut i: usize = 0;
    while i < v.len()
        invariant
            0 <= i <= v@.len(),
            ts.wf(),
            ts@ == old(ts)@.union(v@.take(i as int).to_set()),
        decreases v@.len() - i,
    {
        ts.insert(v[i]);
        proof {
            assert forall|t: TilePos|
                ts@.contains(t) <==> old(ts)@.union(v@.take(i as int + 1).to_set()).contains(
                    t,
                ) by {
                assert(v@.take(i as int + 1).to_set().contains(t) <==> v@.take(
                    i as int,
                ).to_set().insert(v@[i as int]).contains(t)) by {
                    if v@.take(i as int + 1).to_set().contains(t) {
                        let k = choose|k: int|
                            0 <= k < i as int + 1 && #[trigger] v@.take(i as int + 1)[k] == t;
                        if k < i as int {
                            assert(v@.take(i as int)[k] == t);
                        }
                    }
                    if v@.take(i as int).to_set().contains(t) {
                        let k = choose|k: int|
                            0 <= k < i as int && #[trigger] v@.take(i as int)[k] == t;
                        assert(v@.take(i as int + 1)[k] == t);
                    }
                    if t == v@[i as int] {
                        assert(v@.take(i as int + 1)[i as int] == t);
                    }
                }
            }
            assert(ts@ =~= old(ts)@.union(v@.take(i as int + 1).to_set()));
        }
        i = i + 1;
    }
    proof {
        assert(v@.take(v@.len() as int) =~= v@);
        assert(final(ts)@ =~= old(ts)@.union(v@.to_set()));
    }
}

/// Removes every tile in `v` from `ts`.
fn remove_tiles(ts: &mut TileSet, v: &Vec<TilePos>)
    requires
        old(ts).wf(),
    ensures
        final(ts).wf(),
        final(ts)@ == old(ts)@.difference(v@.to_set()),
{
    let mut i: usize = 0;
    while i < v.len()
        invariant
            0 <= i <= v@.len(),
            ts.wf(),
            ts@ == old(ts)@.difference(v@.take(i as int).to_set()),
        decreases v@.len() - i,
    {
        ts.remove(v[i]);
        proof {
            assert forall|t: TilePos|
                ts@.contains(t) <==> old(ts)@.difference(v@.take(i as int + 1).to_set()).contains(
                    t,
                ) by {
                assert(v@.take(i as int + 1).to_set().contains(t) <==> v@.take(
                    i as int,
                ).to_set().insert(v@[i as int]).contains(t)) by {
                    if v@.take(i as int + 1).to_set().contains(t) {
                        let k = choose|k: int|
                            0 <= k < i as int + 1 && #[trigger] v@.take(i as int + 1)[k] == t;
                        if k < i as int {
                            assert(v@.take(i as int)[k] == t);
                        }
                    }
                    if v@.take(i as int).to_set().contains(t) {
                        let k = choose|k: int|
                            0 <= k < i as int && #[trigger] v@.take(i as int)[k] == t;
                        assert(v@.take(i as int + 1)[k] == t);
                    }
                    if t == v@[i as int] {
                        assert(v@.take(i as int + 1)[i as int] == t);
                    }
                }
            }
            assert(ts@ =~= old(ts)@.difference(v@.take(i as int + 1).to_set()));
        }
        i = i + 1;
    }
    proof {
        assert(v@.take(v@.len() as int) =~= v@);
        assert(final(ts)@ =~= old(ts)@.difference(v@.to_set()));
    }
}


/// One tick of the selection engine: integrates the input snapshot and the
/// cursor-resolved tile into the selected and hovered sets and the two
/// gesture states. An absent cursor skips the whole tick.
#[verifier::rlimit(100)]
pub fn select_tiles(
    cursor: Option<TilePos>,
    selected_tiles: &mut SelectedTiles,
    actions: &ActionInputs,
    area_selection: &mut AreaSelection,
    line_selection: &mut LineSelection,
)
    requires
        old(selected_tiles).wf(),
        old(area_selection).wf(),
        old(line_selection).wf(),
        cursor matches Some(c) ==> in_map(c),
    ensures
        final(selected_tiles).wf(),
        final(area_selection).wf(),
        final(line_selection).wf(),
        cursor is None ==> *final(selected_tiles) == *old(selected_tiles)
            && *final(area_selection) == *old(area_selection)
            && *final(line_selection) == *old(line_selection),
        cursor matches Some(c) ==> {
            let a = *actions;
            let area1 = armed_area(old(area_selection)@, a, c);
            let line1 = armed_line(old(line_selection)@, a, c);
            &&& final(selected_tiles)@.hovered == hovered_after(a, c, area1, line1)
            &&& final(selected_tiles)@.selected == selected_after(
                old(selected_tiles)@.selected,
                a,
                c,
                area1,
                line1,
            )
            &&& final(area_selection)@ == area_after(old(area_selection)@, a, c)
            &&& final(line_selection)@ == line_after(old(line_selection)@, a, c)
        },
{
    let cursor_pos = match cursor {
        Some(c) => c,
        None => {
            return ;
        },
    };
    let ghost a = *actions;
    let ghost area1 = armed_area(old(area_selection)@, a, cursor_pos);
    let ghost line1 = armed_line(old(line_selection)@, a, cursor_pos);

    let select = actions.pressed(PlayerAction::Select);
    let deselect = actions.pressed(PlayerAction::Deselect);

    let multiple = actions.pressed(PlayerAction::Multiple);
    let area = actions.pressed(PlayerAction::Area);
    let line = actions.pressed(PlayerAction::Line);
    let simple_area = area && !multiple && !line;
    let simple_deselect = deselect && !area && !multiple && !line;

    // Cache the starting state to make selections reversible
    if simple_area && area_selection.initial_selection.is_none() {
        area_selection.begin(selected_tiles, cursor_pos);
    }

    if line && line_selection.initial_selection.is_none() {
        line_selection.begin(selected_tiles, cursor_pos);
    }

    // Clean up state from area and line selections
    if !simple_area {
        area_selection.finish();
    }

    if !line {
        line_selection.finish();
    }

    assert(area_selection@ == area1);
    assert(line_selection@ == line1);

    // Compute the center and radius
    let (center, radius): (TilePos, u32) = if area {
        let center = if !simple_area {
            cursor_pos
        } else {
            area_selection.center.unwrap()
        };

        if simple_area {
            proof {
                lemma_in_map_within(cursor_pos);
                lemma_in_map_within(center);
            }
            let d = cursor_pos.hex.dist(center.hex);
            area_selection.radius = d as u32;
        }

        (center, area_selection.radius)
    } else {
        (cursor_pos, 0)
    };

    assert(center == resolved_center(a, cursor_pos, area1));
    assert(radius as int == resolved_radius(a, cursor_pos, area1));
    assert(area_selection@ == area_after(old(area_selection)@, a, cursor_pos));
    proof {
        lemma_in_map_within(center);
        lemma_in_map_within(cursor_pos);
    }

    // Record which tiles should have the "hovered" effect
    if simple_area {
        let mut hov = TileSet::new();
        hov.insert(center);
        let ring_hexes = center.hex.ring(radius as isize);
        insert_positions(&mut hov, &ring_hexes);
        proof {
            assert(hov@ =~= ring_tile_set(center.hex, radius as int).insert(center));
        }
        selected_tiles.hovered = hov;
    } else if line {
        let line_hexes = line_selection.draw_line(cursor_pos, radius);
        selected_tiles.hovered = line_hexes;
    } else {
        let mut hov = TileSet::new();
        hov.insert(cursor_pos);
        selected_tiles.hovered = hov;
    }

    assert(selected_tiles@.hovered == hovered_after(a, cursor_pos, area1, line1));
    assert(selected_tiles@.selected == old(selected_tiles)@.selected);

    // Don't attempt to handle conflicting inputs.
    if select && deselect {
        return ;
    }

    // Clear the selection
    if simple_deselect || (select && !multiple) {
        selected_tiles.clear_selection();
    }

    // Actually select tiles
    if line {
        if actions.just_released(PlayerAction::Select) {
            let line_hexes = line_selection.draw_line(cursor_pos, radius);
            insert_tiles(&mut selected_tiles.selected, line_hexes.as_vec());
            line_selection.start = Some(cursor_pos);
        } else if actions.just_released(PlayerAction::Deselect) {
            let line_hexes = line_selection.draw_line(cursor_pos, radius);
            remove_tiles(&mut selected_tiles.selected, line_hexes.as_vec());
            line_selection.start = Some(cursor_pos);
        }
    } else {
        if select {
            selected_tiles.select_hexagon(center, radius, true);
        }

        if deselect {
            selected_tiles.select_hexagon(center, radius, false);
        }
    }
}


/// Adding a tile to an empty selection makes it a member and the only one;
/// adding the same tile again changes nothing; removing it empties the
/// selection again. These are the view-level facts behind `add_tile`,
/// `remove_tile`, `contains_tile` and `is_empty`.
pub proof fn lemma_selection_add_remove(t: TilePos)
    ensures
        Set::<TilePos>::empty().insert(t).contains(t),
        Set::<TilePos>::empty().insert(t).len() == 1,
        Set::<TilePos>::empty().insert(t).insert(t) == Set::<TilePos>::empty().insert(t),
        Set::<TilePos>::empty().insert(t).remove(t) == Set::<TilePos>::empty(),
{
    let one = Set::<TilePos>::empty().insert(t);
    assert(one.insert(t) =~= one);
    assert(one.remove(t) =~= Set::<TilePos>::empty());
}

} // verus!
