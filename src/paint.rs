use vstd::prelude::*;

use crate::draw::{
    adjacent_edges, border_corner, border_corner_spec, commands, emit, glyph_run, repeat, Command,
    Corner, DrawOp, FILL_GLYPH, HORIZONTAL_GLYPH, VERTICAL_GLYPH,
};
use crate::geometry::{coord_add, point_sum, sat_add, Border, Point, Size, COORD_MAX};
use crate::style::{Color, TextStyle, FOCUS_COLOR};
use crate::text::{graphemes_of, joined, truncate_graphemes, truncated};
use crate::widget::{TreeView, Widget, WidgetId, WidgetTree};

verus! {

/// Where and how large one node is painted in a paint pass.
#[derive(Debug, Clone, Copy, PartialEq, Eq, Structural)]
pub struct Frame {
    /// The node painted.
    pub node: usize,
    /// Its absolute top-left cell.
    pub offset: Point,
    /// The bounds that its parent handed down.
    pub bounds: Size,
    /// Its drawable extent: its size clipped to what remains of `bounds`.
    pub clip: Size,
}

/// How much of `size` fits in `bound` when starting at `pos`.
pub open spec fn clip_extent(bound: u16, pos: u16, size: u16) -> u16 {
    if bound <= pos {
        0
    } else if size < bound - pos {
        size
    } else {
        (bound - pos) as u16
    }
}

/// A node's size intersected with the area left by its parent's bounds.
pub open spec fn clip_size(bounds: Size, pos: Point, size: Size) -> Size {
    Size {
        width: clip_extent(bounds.width, pos.x, size.width),
        height: clip_extent(bounds.height, pos.y, size.height),
    }
}

pub open spec fn frame_of<H>(t: TreeView<H>, x: int, cursor: Point, po: Point, bounds: Size) -> Frame {
    let w = t.widgets[x];
    Frame {
        node: x as usize,
        offset: point_sum(point_sum(cursor, po), w.position),
        bounds,
        clip: clip_size(bounds, w.position, w.size),
    }
}

/// The child at index `k` of `x` ranks below `x`.
pub proof fn lemma_child_rank<H>(t: TreeView<H>, x: int, k: int)
    requires
        t.wf(),
        t.valid(x),
        0 <= k < t.children[x].len(),
    ensures
        t.valid(t.children[x][k] as int),
        t.parents[t.children[x][k] as int] == Some(x as usize),
        t.ranking().0[t.children[x][k] as int] < t.ranking().0[x],
{
    t.lemma_ranking();
    let c = t.children[x][k] as int;
    assert(t.parents[c] == Some(x as usize));
}

/// The frames of the subtree of `x`, in paint order (pre-order), for a node
/// whose parent sits at `po` (relative to `cursor`) and hands down `bounds`.
pub open spec fn frames<H>(t: TreeView<H>, x: int, cursor: Point, po: Point, bounds: Size) -> Seq<
    Frame,
>
    decreases t.ranking().0[x], t.children[x].len() + 1,
    when t.wf() && t.valid(x)
{
    let f = frame_of(t, x, cursor, po, bounds);
    seq![f] + child_frames(t, x, 0, cursor, point_sum(po, t.widgets[x].position), f.clip)
}

/// The frames of the subtrees of the children of `x` from index `k` on.
pub open spec fn child_frames<H>(
    t: TreeView<H>,
    x: int,
    k: int,
    cursor: Point,
    po: Point,
    bounds: Size,
) -> Seq<Frame>
    decreases t.ranking().0[x], t.children[x].len() - k,
    when t.wf() && t.valid(x) && 0 <= k
{
    if k >= t.children[x].len() {
        Seq::empty()
    } else {
        proof {
            lemma_child_rank(t, x, k);
        }
        frames(t, t.children[x][k] as int, cursor, po, bounds) + child_frames(
            t,
            x,
            k + 1,
            cursor,
            po,
            bounds,
        )
    }
}

/// The sum of the positions of the nodes on the path from `r` down to `x`,
/// both included.
pub open spec fn path_offset<H>(t: TreeView<H>, r: int, x: int) -> (int, int)
    decreases t.ranking().1 - t.ranking().0[x],
    when t.wf() && t.valid(x)
{
    let p = t.widgets[x].position;
    if x == r {
        (p.x as int, p.y as int)
    } else {
        match t.parents[x] {
            Some(q) => {
                proof {
                    t.lemma_ranking();
                    assert(t.ranking().0[x] < t.ranking().0[q as int]);
                }
                let s = path_offset(t, r, q as int);
                (s.0 + p.x, s.1 + p.y)
            },
            None => (p.x as int, p.y as int),
        }
    }
}

// ---------------------------------------------------------------------------
// What a node paints
// ---------------------------------------------------------------------------

/// The color a node is filled with.
pub open spec fn fill_color<H>(w: Widget<H>, focused: bool) -> Color {
    if focused {
        FOCUS_COLOR
    } else {
        w.background_color
    }
}

/// `n` rows of `glyphs`, the first at `(x, y)`, one below the other.
pub open spec fn column(x: u16, y: u16, n: nat, glyphs: Seq<char>) -> Seq<Command>
    decreases n,
{
    if n == 0 {
        Seq::empty()
    } else {
        column(x, y, (n - 1) as nat, glyphs) + seq![
            Command::MoveTo(x, sat_add(y as int, n - 1) as u16),
            Command::Print(glyphs),
        ]
    }
}

pub open spec fn reset_colors() -> Seq<Command> {
    seq![Command::SetBackground(Color::Reset), Command::SetForeground(Color::Reset)]
}

/// Step 4 of painting a node: its drawable rectangle filled with its color.
#[verifier::opaque]
pub open spec fn background_commands<H>(w: Widget<H>, off: Point, clip: Size, focused: bool) -> Seq<
    Command,
> {
    let c = fill_color(w, focused);
    seq![Command::SetBackground(c), Command::SetForeground(c)] + column(
        off.x,
        off.y,
        clip.height as nat,
        repeat(FILL_GLYPH, clip.width as nat),
    ) + reset_colors()
}

/// The last cell (exclusive) of the inside of an edge of length `size` that
/// lies within `clip` cells.
pub open spec fn inner_end(size: u16, clip: u16) -> int {
    if size == 0 {
        0
    } else if (size - 1) < clip {
        size - 1
    } else {
        clip as int
    }
}

/// How many cells of an edge, strictly between its two corners, lie within
/// `clip` cells.
pub open spec fn edge_run(size: u16, clip: u16) -> nat {
    if inner_end(size, clip) >= 1 {
        (inner_end(size, clip) - 1) as nat
    } else {
        0
    }
}

/// Whether the far edge (last row or column) of a node of extent `size` is
/// drawable within `clip`.
pub open spec fn far_visible(size: u16, clip: u16) -> bool {
    size > 0 && clip == size
}

pub open spec fn corner_commands(b: Border, corner: Corner, visible: bool, x: u16, y: u16) -> Seq<
    Command,
> {
    if visible && border_corner_spec(b, corner) is Some {
        seq![Command::MoveTo(x, y), Command::Print(seq![border_corner_spec(b, corner)->0])]
    } else {
        Seq::empty()
    }
}

pub open spec fn hline_commands(drawn: bool, x: u16, y: u16, n: nat) -> Seq<Command> {
    if drawn && n > 0 {
        seq![Command::MoveTo(x, y), Command::Print(repeat(HORIZONTAL_GLYPH, n))]
    } else {
        Seq::empty()
    }
}

pub open spec fn vline_commands(drawn: bool, x: u16, y: u16, n: nat) -> Seq<Command> {
    if drawn {
        column(x, y, n, repeat(VERTICAL_GLYPH, 1))
    } else {
        Seq::empty()
    }
}

/// The far column and row of a node at `off` of size `size`.
pub open spec fn far_corner(off: Point, size: Size) -> Point {
    Point {
        x: sat_add(off.x as int, size.width - 1) as u16,
        y: sat_add(off.y as int, size.height - 1) as u16,
    }
}

/// The edges of border `b` of a node at `off` of size `size`, each one a line
/// clipped to the drawable extent `clip`: top, left, right, bottom.
#[verifier::opaque]
pub open spec fn edge_commands(b: Border, off: Point, size: Size, clip: Size) -> Seq<Command> {
    let far = far_corner(off, size);
    let x1 = sat_add(off.x as int, 1) as u16;
    let y1 = sat_add(off.y as int, 1) as u16;
    let hrun = edge_run(size.width, clip.width);
    let vrun = edge_run(size.height, clip.height);
    hline_commands(b.top && clip.height > 0, x1, off.y, hrun) + vline_commands(
        b.left && clip.width > 0,
        off.x,
        y1,
        vrun,
    ) + vline_commands(b.right && far_visible(size.width, clip.width), far.x, y1, vrun)
        + hline_commands(b.bottom && far_visible(size.height, clip.height), x1, far.y, hrun)
}

/// The four corners of border `b`, each drawn where it lies inside `clip`:
/// top-left, top-right, bottom-left, bottom-right.
#[verifier::opaque]
pub open spec fn corner_set_commands(b: Border, off: Point, size: Size, clip: Size) -> Seq<Command> {
    let far = far_corner(off, size);
    let rs = far_visible(size.width, clip.width);
    let bs = far_visible(size.height, clip.height);
    corner_commands(b, Corner::TopLeft, clip.width > 0 && clip.height > 0, off.x, off.y)
        + corner_commands(b, Corner::TopRight, rs && clip.height > 0, far.x, off.y)
        + corner_commands(b, Corner::BottomLeft, clip.width > 0 && bs, off.x, far.y)
        + corner_commands(b, Corner::BottomRight, rs && bs, far.x, far.y)
}

/// Step 5 of painting a node: its border's edges, then its corners.
pub open spec fn border_commands<H>(
    w: Widget<H>,
    off: Point,
    clip: Size,
    focused: bool,
    b: Border,
) -> Seq<Command> {
    seq![Command::SetBackground(fill_color(w, focused)), Command::SetForeground(w.border_color)]
        + edge_commands(b, off, w.size, clip) + corner_set_commands(b, off, w.size, clip)
        + reset_colors()
}

/// The border a node is painted with; none when it has no border.
pub open spec fn border_or_none<H>(w: Widget<H>) -> Border {
    match w.border {
        Some(b) => b,
        None => Border { top: false, bottom: false, left: false, right: false },
    }
}

pub open spec fn flag(b: bool) -> int {
    if b {
        1
    } else {
        0
    }
}

/// The width left for text: the node's width minus its left and right border.
pub open spec fn interior_width<H>(w: Widget<H>) -> int {
    let b = border_or_none(w);
    let n = w.size.width - flag(b.left) - flag(b.right);
    if n < 0 {
        0
    } else {
        n
    }
}

/// How many clusters of text are painted: the interior width, cut further
/// where the drawable rectangle ends.
pub open spec fn text_width<H>(w: Widget<H>, clip: Size) -> int {
    let avail = clip.width - flag(border_or_none(w).left);
    if avail < 0 {
        0
    } else if avail < interior_width(w) {
        avail
    } else {
        interior_width(w)
    }
}

/// Step 6 of painting a node: its text, left-aligned in the first row inside
/// the border, cut to `text_width` grapheme clusters; nothing when that row
/// lies outside the drawable rectangle.
#[verifier::opaque]
pub open spec fn text_commands<H>(w: Widget<H>, off: Point, clip: Size, focused: bool) -> Seq<
    Command,
> {
    let b = border_or_none(w);
    if flag(b.top) < clip.height {
        seq![
            Command::SetBackground(fill_color(w, focused)),
            Command::SetForeground(w.text_color),
            Command::SetAttribute(w.text_style),
            Command::MoveTo(
                sat_add(off.x as int, flag(b.left)) as u16,
                sat_add(off.y as int, flag(b.top)) as u16,
            ),
            Command::Print(truncated(graphemes_of(w.text@), text_width(w, clip))),
            Command::SetBackground(Color::Reset),
            Command::SetForeground(Color::Reset),
            Command::SetAttribute(TextStyle::Reset),
        ]
    } else {
        Seq::empty()
    }
}

/// Everything one node paints, in order: background, border, text.
pub open spec fn node_commands<H>(t: TreeView<H>, f: Frame, focus: Option<usize>) -> Seq<Command> {
    let w = t.widgets[f.node as int];
    let focused = focus == Some(f.node);
    background_commands(w, f.offset, f.clip, focused) + (match w.border {
        Some(b) => border_commands(w, f.offset, f.clip, focused, b),
        None => Seq::empty(),
    }) + text_commands(w, f.offset, f.clip, focused)
}

/// What the frames `fs` paint, in order.
pub open spec fn frames_commands<H>(t: TreeView<H>, fs: Seq<Frame>, focus: Option<usize>) -> Seq<
    Command,
>
    decreases fs.len(),
{
    if fs.len() == 0 {
        Seq::empty()
    } else {
        node_commands(t, fs[0], focus) + frames_commands(t, fs.drop_first(), focus)
    }
}

pub proof fn lemma_frames_commands_concat<H>(
    t: TreeView<H>,
    a: Seq<Frame>,
    b: Seq<Frame>,
    focus: Option<usize>,
)
    ensures
        frames_commands(t, a + b, focus) == frames_commands(t, a, focus) + frames_commands(
            t,
            b,
            focus,
        ),
    decreases a.len(),
{
    if a.len() == 0 {
        assert(a + b =~= b);
    } else {
        assert((a + b).drop_first() =~= a.drop_first() + b);
        lemma_frames_commands_concat(t, a.drop_first(), b, focus);
    }
}

/// The cell the terminal cursor is parked on after a paint: the corner just
/// beyond the painted area.
pub open spec fn corner_move(cursor: Point, bounds: Size) -> Command {
    Command::MoveTo(
        sat_add(cursor.x as int, bounds.width as int) as u16,
        sat_add(cursor.y as int, bounds.height as int) as u16,
    )
}

/// A whole paint pass of the tree under `root`.
pub open spec fn render_commands<H>(
    t: TreeView<H>,
    root: int,
    cursor: Point,
    po: Point,
    bounds: Size,
    focus: Option<usize>,
) -> Seq<Command> {
    frames_commands(t, frames(t, root, cursor, po, bounds), focus).push(corner_move(cursor, bounds))
}

/// Clearing the rows `from..to` of the terminal.
pub open spec fn clear_rows(from: u16, to: int) -> Seq<Command>
    decreases to - from,
{
    if to <= from {
        Seq::empty()
    } else {
        clear_rows(from, to - 1) + seq![Command::MoveTo(0, (to - 1) as u16), Command::ClearLine]
    }
}

/// Clearing the canvas: every row from the cursor's to the last, then going
/// back to the cursor's row.
pub open spec fn clear_commands(canvas: Size, cursor: Point) -> Seq<Command> {
    clear_rows(cursor.y, canvas.height as int).push(Command::MoveTo(0, cursor.y))
}

// ---------------------------------------------------------------------------
// Laws of the paint pass
// ---------------------------------------------------------------------------

/// A node ranks no lower than its descendants.
pub proof fn lemma_ancestor_rank<H>(t: TreeView<H>, a: int, x: int)
    requires
        t.wf(),
        t.valid(x),
        t.is_ancestor_or_self(a, x),
    ensures
        t.valid(a),
        t.ranking().0[x] <= t.ranking().0[a],
    decreases t.ranking().1 - t.ranking().0[x],
{
    t.lemma_ranking();
    if x != a {
        let q = t.parents[x]->0 as int;
        assert(t.ranking().0[x] < t.ranking().0[q]);
        lemma_ancestor_rank(t, a, q);
    }
}

pub proof fn lemma_path_offset_nonneg<H>(t: TreeView<H>, r: int, x: int)
    requires
        t.wf(),
        t.valid(x),
    ensures
        path_offset(t, r, x).0 >= t.widgets[x].position.x,
        path_offset(t, r, x).1 >= t.widgets[x].position.y,
    decreases t.ranking().1 - t.ranking().0[x],
{
    t.lemma_ranking();
    if x != r {
        if let Some(q) = t.parents[x] {
            assert(t.ranking().0[x] < t.ranking().0[q as int]);
            lemma_path_offset_nonneg(t, r, q as int);
        }
    }
}

/// What holds of every frame of a paint pass from `r` that starts at `po0`.
pub open spec fn frame_ok<H>(t: TreeView<H>, r: int, cursor: Point, po0: Point, f: Frame) -> bool {
    let x = f.node as int;
    let w = t.widgets[x];
    &&& t.valid(x)
    &&& t.is_ancestor_or_self(r, x)
    &&& f.offset.x == sat_add(cursor.x + po0.x, path_offset(t, r, x).0)
    &&& f.offset.y == sat_add(cursor.y + po0.y, path_offset(t, r, x).1)
    &&& f.clip == clip_size(f.bounds, w.position, w.size)
}

/// The parent offset handed to `x` in a pass from `r` that starts at `po0`.
pub open spec fn offset_above<H>(t: TreeView<H>, r: int, po0: Point, x: int, po: Point) -> bool {
    let p = t.widgets[x].position;
    &&& po.x == sat_add(po0.x as int, path_offset(t, r, x).0 - p.x)
    &&& po.y == sat_add(po0.y as int, path_offset(t, r, x).1 - p.y)
}

proof fn lemma_frames_ok<H>(
    t: TreeView<H>,
    r: int,
    cursor: Point,
    po0: Point,
    x: int,
    po: Point,
    bounds: Size,
)
    requires
        t.wf(),
        t.valid(x),
        t.is_ancestor_or_self(r, x),
        offset_above(t, r, po0, x, po),
    ensures
        forall|i: int|
            0 <= i < frames(t, x, cursor, po, bounds).len() ==> frame_ok(
                t,
                r,
                cursor,
                po0,
                #[trigger] frames(t, x, cursor, po, bounds)[i],
            ),
    decreases t.ranking().0[x], t.children[x].len() + 1,
{
    let w = t.widgets[x];
    let f = frame_of(t, x, cursor, po, bounds);
    let cpo = point_sum(po, w.position);
    lemma_path_offset_nonneg(t, r, x);
    lemma_ancestor_rank(t, r, x);
    lemma_child_frames_ok(t, r, cursor, po0, x, 0, cpo, f.clip);
    let fs = frames(t, x, cursor, po, bounds);
    let cf = child_frames(t, x, 0, cursor, cpo, f.clip);
    assert(fs == seq![f] + cf);
    assert forall|i: int| 0 <= i < fs.len() implies frame_ok(t, r, cursor, po0, #[trigger] fs[i]) by {
        if i == 0 {
            assert(fs[0] == f);
        } else {
            assert(fs[i] == cf[i - 1]);
        }
    }
}

proof fn lemma_child_frames_ok<H>(
    t: TreeView<H>,
    r: int,
    cursor: Point,
    po0: Point,
    x: int,
    k: int,
    po: Point,
    bounds: Size,
)
    requires
        t.wf(),
        t.valid(x),
        0 <= k,
        t.is_ancestor_or_self(r, x),
        po.x == sat_add(po0.x as int, path_offset(t, r, x).0),
        po.y == sat_add(po0.y as int, path_offset(t, r, x).1),
    ensures
        forall|i: int|
            0 <= i < child_frames(t, x, k, cursor, po, bounds).len() ==> frame_ok(
                t,
                r,
                cursor,
                po0,
                #[trigger] child_frames(t, x, k, cursor, po, bounds)[i],
            ),
    decreases t.ranking().0[x], t.children[x].len() - k,
{
    if k < t.children[x].len() {
        lemma_child_rank(t, x, k);
        let c = t.children[x][k] as int;
        lemma_ancestor_rank(t, r, x);
        assert(c != r);
        assert(t.is_ancestor_or_self(r, c));
        assert(path_offset(t, r, c).0 == path_offset(t, r, x).0 + t.widgets[c].position.x);
        lemma_frames_ok(t, r, cursor, po0, c, po, bounds);
        lemma_child_frames_ok(t, r, cursor, po0, x, k + 1, po, bounds);
        let a = frames(t, c, cursor, po, bounds);
        let b = child_frames(t, x, k + 1, cursor, po, bounds);
        let cf = child_frames(t, x, k, cursor, po, bounds);
        assert(cf == a + b);
        assert forall|i: int| 0 <= i < cf.len() implies frame_ok(t, r, cursor, po0, #[trigger] cf[i]) by {
            if i < a.len() {
                assert(cf[i] == a[i]);
            } else {
                assert(cf[i] == b[i - a.len()]);
            }
        }
    }
}

/// In a paint pass from `root` with base offset `po` (relative to the
/// terminal cursor), every node painted lies under `root`, and its absolute
/// offset is the cursor, plus `po`, plus the sum of the local positions on
/// the path from `root` down to it; a coordinate past the largest terminal
/// coordinate is held at that coordinate.
pub proof fn lemma_offset_is_path_sum<H>(
    t: TreeView<H>,
    root: int,
    cursor: Point,
    po: Point,
    bounds: Size,
)
    requires
        t.wf(),
        t.valid(root),
    ensures
        forall|i: int|
            0 <= i < frames(t, root, cursor, po, bounds).len() ==> {
                let f = #[trigger] frames(t, root, cursor, po, bounds)[i];
                let s = path_offset(t, root, f.node as int);
                &&& t.is_ancestor_or_self(root, f.node as int)
                &&& f.offset.x == if cursor.x + po.x + s.0 > COORD_MAX {
                    COORD_MAX as int
                } else {
                    cursor.x + po.x + s.0
                }
                &&& f.offset.y == if cursor.y + po.y + s.1 > COORD_MAX {
                    COORD_MAX as int
                } else {
                    cursor.y + po.y + s.1
                }
            },
{
    assert(t.is_ancestor_or_self(root, root));
    lemma_frames_ok(t, root, cursor, po, root, po, bounds);
}

/// In a paint pass, no node's drawable rectangle is wider or taller than the
/// bounds its parent handed down, nor than the node itself.
pub proof fn lemma_clip_within_bounds<H>(
    t: TreeView<H>,
    root: int,
    cursor: Point,
    po: Point,
    bounds: Size,
)
    requires
        t.wf(),
        t.valid(root),
    ensures
        forall|i: int|
            0 <= i < frames(t, root, cursor, po, bounds).len() ==> {
                let f = #[trigger] frames(t, root, cursor, po, bounds)[i];
                let w = t.widgets[f.node as int];
                &&& f.clip.width <= f.bounds.width
                &&& f.clip.height <= f.bounds.height
                &&& f.clip.width <= w.size.width
                &&& f.clip.height <= w.size.height
            },
{
    assert(t.is_ancestor_or_self(root, root));
    lemma_frames_ok(t, root, cursor, po, root, po, bounds);
}

/// The text a node paints is at most its interior width (its width minus its
/// left and right border) in grapheme clusters: the first clusters of its text.
pub proof fn lemma_text_within_interior<H>(w: Widget<H>, off: Point, clip: Size, focused: bool)
    ensures
        text_commands(w, off, clip, focused).len() == 0 || exists|k: nat|
            k <= interior_width(w) && text_commands(w, off, clip, focused)[4] == Command::Print(
                joined(graphemes_of(w.text@).take(k as int)),
            ),
{
    reveal(text_commands);
    let gs = graphemes_of(w.text@);
    let k = crate::text::min_nat(gs.len() as int, text_width(w, clip));
    if text_commands(w, off, clip, focused).len() != 0 {
        assert(text_commands(w, off, clip, focused)[4] == Command::Print(
            joined(gs.take(k as int)),
        ));
    }
}

} // verus!
