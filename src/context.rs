use vstd::prelude::*;

use crate::draw::{
    border_corner, commands, emit, glyph_run, repeat, Command, Corner, DrawOp, FILL_GLYPH,
    HORIZONTAL_GLYPH, VERTICAL_GLYPH,
};
use crate::geometry::{coord_add, point_sum, sat_add, Border, Point, Size};
use crate::paint::{
    background_commands, border_commands, border_or_none, child_frames, clear_commands, clear_rows,
    clip_extent, clip_size, column, corner_commands, corner_move, corner_set_commands,
    edge_commands, edge_run, far_corner, far_visible, frame_of, frames, frames_commands,
    hline_commands, lemma_child_rank, lemma_frames_commands_concat, node_commands,
    render_commands, text_commands, text_width, vline_commands,
};
use crate::style::{Color, TextStyle, FOCUS_COLOR};
use crate::text::truncate_graphemes;
use crate::widget::{TreeView, WidgetId, WidgetTree};

verus! {

// ---------------------------------------------------------------------------
// The paint pass
// ---------------------------------------------------------------------------

/// How much of `size` fits in `bound` when starting at `pos`.
pub fn clip_axis(bound: u16, pos: u16, size: u16) -> (r: u16)
    ensures
        r == clip_extent(bound, pos, size),
{
    if bound <= pos {
        0
    } else if size < bound - pos {
        size
    } else {
        bound - pos
    }
}

/// A node's drawable extent: its size clipped to what remains of the bounds
/// its parent hands down once its position is taken off.
pub fn clip_bounds(parent_bounds: Size, position: Point, size: Size) -> (r: Size)
    ensures
        r == clip_size(parent_bounds, position, size),
{
    Size {
        width: clip_axis(parent_bounds.width, position.x, size.width),
        height: clip_axis(parent_bounds.height, position.y, size.height),
    }
}

fn edge_run_of(size: u16, clip: u16) -> (r: u16)
    ensures
        r == edge_run(size, clip),
{
    let end: u16 = if size == 0 {
        0
    } else if size - 1 < clip {
        size - 1
    } else {
        clip
    };
    if end >= 1 {
        end - 1
    } else {
        0
    }
}

/// Appends `n` rows of `width` copies of `glyph`, the first at `(x, y)`.
fn emit_column(out: &mut Vec<DrawOp>, x: u16, y: u16, n: u16, glyph: char, width: u16)
    ensures
        commands(final(out)@) == commands(old(out)@) + column(
            x,
            y,
            n as nat,
            repeat(glyph, width as nat),
        ),
{
    let ghost base = commands(out@);
    let ghost run = repeat(glyph, width as nat);
    let mut i: u16 = 0;
    while i < n
        invariant
            i <= n,
            run == repeat(glyph, width as nat),
            commands(out@) == base + column(x, y, i as nat, run),
        decreases n - i,
    {
        emit(out, DrawOp::MoveTo(x, coord_add(y, i)));
        emit(out, DrawOp::Print(glyph_run(glyph, width)));
        proof {
            let step = seq![
                Command::MoveTo(x, sat_add(y as int, i as int) as u16),
                Command::Print(run),
            ];
            assert(column(x, y, (i + 1) as nat, run) == column(x, y, i as nat, run) + step);
            assert(commands(out@) =~= base + column(x, y, (i + 1) as nat, run));
        }
        i = i + 1;
    }
}

fn emit_hline(out: &mut Vec<DrawOp>, drawn: bool, x: u16, y: u16, n: u16)
    ensures
        commands(final(out)@) == commands(old(out)@) + hline_commands(drawn, x, y, n as nat),
{
    let ghost base = commands(out@);
    if drawn && n > 0 {
        emit(out, DrawOp::MoveTo(x, y));
        emit(out, DrawOp::Print(glyph_run(HORIZONTAL_GLYPH, n)));
    }
    assert(commands(out@) =~= base + hline_commands(drawn, x, y, n as nat));
}

fn emit_vline(out: &mut Vec<DrawOp>, drawn: bool, x: u16, y: u16, n: u16)
    ensures
        commands(final(out)@) == commands(old(out)@) + vline_commands(drawn, x, y, n as nat),
{
    let ghost base = commands(out@);
    if drawn {
        emit_column(out, x, y, n, VERTICAL_GLYPH, 1);
    }
    assert(commands(out@) =~= base + vline_commands(drawn, x, y, n as nat));
}

fn emit_corner(out: &mut Vec<DrawOp>, b: Border, corner: Corner, visible: bool, x: u16, y: u16)
    ensures
        commands(final(out)@) == commands(old(out)@) + corner_commands(b, corner, visible, x, y),
{
    let ghost base = commands(out@);
    if visible {
        if let Some(g) = border_corner(b, corner) {
            emit(out, DrawOp::MoveTo(x, y));
            let mut glyph: Vec<char> = Vec::new();
            glyph.push(g);
            assert(glyph@ =~= seq![g]);
            emit(out, DrawOp::Print(glyph));
        }
    }
    assert(commands(out@) =~= base + corner_commands(b, corner, visible, x, y));
}

/// Appends the clipped edges of border `b`.
fn emit_edges(out: &mut Vec<DrawOp>, b: Border, off: Point, size: Size, clip: Size)
    ensures
        commands(final(out)@) == commands(old(out)@) + edge_commands(b, off, size, clip),
{
    let ghost base = commands(out@);
    let far_x = if size.width == 0 {
        off.x
    } else {
        coord_add(off.x, size.width - 1)
    };
    let far_y = if size.height == 0 {
        off.y
    } else {
        coord_add(off.y, size.height - 1)
    };
    let x1 = coord_add(off.x, 1);
    let y1 = coord_add(off.y, 1);
    let hrun = edge_run_of(size.width, clip.width);
    let vrun = edge_run_of(size.height, clip.height);
    let right_seen = size.width > 0 && clip.width == size.width;
    let bottom_seen = size.height > 0 && clip.height == size.height;
    let ghost far = far_corner(off, size);
    assert(right_seen ==> far.x == far_x);
    assert(bottom_seen ==> far.y == far_y);
    emit_hline(out, b.top && clip.height > 0, x1, off.y, hrun);
    emit_vline(out, b.left && clip.width > 0, off.x, y1, vrun);
    emit_vline(out, b.right && right_seen, far_x, y1, vrun);
    emit_hline(out, b.bottom && bottom_seen, x1, far_y, hrun);
    proof {
        reveal(edge_commands);
        assert(vline_commands(b.right && right_seen, far_x, y1, vrun as nat) == vline_commands(
            b.right && far_visible(size.width, clip.width),
            far.x,
            y1,
            vrun as nat,
        ));
        assert(hline_commands(b.bottom && bottom_seen, x1, far_y, hrun as nat) == hline_commands(
            b.bottom && far_visible(size.height, clip.height),
            x1,
            far.y,
            hrun as nat,
        ));
        assert(commands(out@) =~= base + edge_commands(b, off, size, clip));
    }
}

/// Appends the corners of border `b` that lie inside `clip`.
fn emit_corners(out: &mut Vec<DrawOp>, b: Border, off: Point, size: Size, clip: Size)
    ensures
        commands(final(out)@) == commands(old(out)@) + corner_set_commands(b, off, size, clip),
{
    let ghost base = commands(out@);
    let far_x = if size.width == 0 {
        off.x
    } else {
        coord_add(off.x, size.width - 1)
    };
    let far_y = if size.height == 0 {
        off.y
    } else {
        coord_add(off.y, size.height - 1)
    };
    let right_seen = size.width > 0 && clip.width == size.width;
    let bottom_seen = size.height > 0 && clip.height == size.height;
    let ghost far = far_corner(off, size);
    assert(right_seen ==> far.x == far_x);
    assert(bottom_seen ==> far.y == far_y);
    emit_corner(out, b, Corner::TopLeft, clip.width > 0 && clip.height > 0, off.x, off.y);
    emit_corner(out, b, Corner::TopRight, right_seen && clip.height > 0, far_x, off.y);
    emit_corner(out, b, Corner::BottomLeft, clip.width > 0 && bottom_seen, off.x, far_y);
    emit_corner(out, b, Corner::BottomRight, right_seen && bottom_seen, far_x, far_y);
    proof {
        reveal(corner_set_commands);
        assert(corner_commands(b, Corner::TopRight, right_seen && clip.height > 0, far_x, off.y)
            == corner_commands(
            b,
            Corner::TopRight,
            far_visible(size.width, clip.width) && clip.height > 0,
            far.x,
            off.y,
        ));
        assert(corner_commands(b, Corner::BottomLeft, clip.width > 0 && bottom_seen, off.x, far_y)
            == corner_commands(
            b,
            Corner::BottomLeft,
            clip.width > 0 && far_visible(size.height, clip.height),
            off.x,
            far.y,
        ));
        assert(corner_commands(b, Corner::BottomRight, right_seen && bottom_seen, far_x, far_y)
            == corner_commands(
            b,
            Corner::BottomRight,
            far_visible(size.width, clip.width) && far_visible(size.height, clip.height),
            far.x,
            far.y,
        ));
        assert(commands(out@) =~= base + corner_set_commands(b, off, size, clip));
    }
}

/// The sibling right after `f` in its parent's children, if any.
pub open spec fn next_sibling<H>(t: TreeView<H>, f: int) -> Option<usize> {
    match t.parents[f] {
        None => None,
        Some(p) => {
            let sib = t.children[p as int];
            if exists|i: int| 0 <= i < sib.len() - 1 && sib[i] == f as usize {
                let i = choose|i: int| 0 <= i < sib.len() - 1 && sib[i] == f as usize;
                Some(sib[i + 1])
            } else {
                None
            }
        },
    }
}

/// The focus after a Tab: with nothing focused, the root if it is focusable;
/// else the focused node's first child if that is focusable; else its next
/// sibling if that is focusable; else the root if it is focusable; else nothing.
pub open spec fn next_focus<H>(t: TreeView<H>, root: int, focus: Option<usize>) -> Option<usize> {
    let fallback = if t.widgets[root].focusable {
        Some(root as usize)
    } else {
        None
    };
    match focus {
        None => fallback,
        Some(f) => {
            let kids = t.children[f as int];
            let sib = next_sibling(t, f as int);
            if kids.len() > 0 && t.widgets[kids[0] as int].focusable {
                Some(kids[0])
            } else if sib is Some && t.widgets[sib->0 as int].focusable {
                sib
            } else {
                fallback
            }
        },
    }
}

/// The node whose handler receives a key: the focused node, when it has one.
pub open spec fn notify_target<H>(t: TreeView<H>, focus: Option<usize>) -> Option<usize> {
    match focus {
        Some(f) => if t.widgets[f as int].event_handler is Some {
            Some(f)
        } else {
            None
        },
        None => None,
    }
}

/// Whether `focus` names a node of `t`, when it names one.
pub open spec fn focus_valid<H>(t: TreeView<H>, focus: Option<usize>) -> bool {
    focus is Some ==> t.valid(focus->0 as int)
}

/// Which key was pressed, as far as the event loop tells keys apart.
#[derive(Debug, Clone, Copy, PartialEq, Eq, Structural)]
pub enum KeyCode {
    Char(char),
    Tab,
    Other,
}

/// A key press: the key and the bits of the modifiers held with it.
#[derive(Debug, Clone, Copy, PartialEq, Eq, Structural)]
pub struct KeyInput {
    pub code: KeyCode,
    pub modifiers: u8,
}

/// The modifier bit of the Control key.
pub const CONTROL: u8 = 0b0000_0010;

/// Ctrl+C, with no other modifier: the key that ends the session.
pub open spec fn is_interrupt(key: KeyInput) -> bool {
    key.code == KeyCode::Char('c') && key.modifiers == CONTROL
}

/// What the event loop does with a key press.
pub enum KeyOutcome {
    /// End the session.
    Exit,
    /// Perform `ops`, then call the handler of node `notify`, if any, with the key.
    Repaint { ops: Vec<DrawOp>, notify: Option<WidgetId> },
}

/// The first index at which `x` stands in `v`, if any.
fn position_in(v: &Vec<usize>, x: usize) -> (r: Option<usize>)
    ensures
        match r {
            Some(i) => i < v.len() && v@[i as int] == x && forall|j: int| 0 <= j < i ==> v@[j] != x,
            None => !v@.contains(x),
        },
{
    let mut i: usize = 0;
    while i < v.len()
        invariant
            i <= v.len(),
            forall|j: int| 0 <= j < i ==> v@[j] != x,
        decreases v.len() - i,
    {
        if v[i] == x {
            return Some(i);
        }
        i = i + 1;
    }
    None
}

/// The terminal a paint pass works against (its size and the cursor cell the
/// canvas starts at) and the focused node, if any.
pub struct TermContext {
    size: Size,
    cursor_position: Point,
    focus_widget: Option<WidgetId>,
}

impl TermContext {
    pub closed spec fn canvas(&self) -> Size {
        self.size
    }

    pub closed spec fn cursor(&self) -> Point {
        self.cursor_position
    }

    pub closed spec fn focus(&self) -> Option<usize> {
        self.focus_widget
    }

    /// A context for a terminal of `size` whose canvas starts at
    /// `cursor_position`, with nothing focused.
    pub fn new(size: Size, cursor_position: Point) -> (r: Self)
        ensures
            r.canvas() == size,
            r.cursor() == cursor_position,
            (r.focus() is None),
    {
        TermContext { size, cursor_position, focus_widget: None }
    }

    pub fn focus_widget(&self) -> (r: Option<WidgetId>)
        ensures
            r == self.focus(),
    {
        self.focus_widget
    }

    fn is_focused(&self, id: WidgetId) -> (r: bool)
        ensures
            r == (self.focus() == Some(id)),
    {
        match self.focus_widget {
            Some(f) => f == id,
            None => false,
        }
    }

    /// The absolute offset of a node: cursor, plus its parent's offset, plus
    /// its own position.
    pub fn calculate_total_offset(&self, parent_offset: Point, widget_position: Point) -> (r: Point)
        ensures
            r == point_sum(point_sum(self.cursor(), parent_offset), widget_position),
    {
        self.cursor_position.add(parent_offset).add(widget_position)
    }

    /// Fills the drawable rectangle of node `id` with its color, or with the
    /// focus color when it is focused.
    pub fn render_background<H>(
        &self,
        tree: &WidgetTree<H>,
        id: WidgetId,
        total_offset: Point,
        clipped_bounds: Size,
        out: &mut Vec<DrawOp>,
    )
        requires
            tree.wf(),
            tree@.valid(id as int),
        ensures
            commands(final(out)@) == commands(old(out)@) + background_commands(
                tree@.widgets[id as int],
                total_offset,
                clipped_bounds,
                self.focus() == Some(id),
            ),
    {
        let ghost base = commands(out@);
        let w = tree.widget(id);
        let c = if self.is_focused(id) {
            FOCUS_COLOR
        } else {
            w.background_color
        };
        emit(out, DrawOp::SetBackground(c));
        emit(out, DrawOp::SetForeground(c));
        emit_column(
            out,
            total_offset.x,
            total_offset.y,
            clipped_bounds.height,
            FILL_GLYPH,
            clipped_bounds.width,
        );
        emit(out, DrawOp::SetBackground(Color::Reset));
        emit(out, DrawOp::SetForeground(Color::Reset));
        reveal(background_commands);
        assert(commands(out@) =~= base + background_commands(
            tree@.widgets[id as int],
            total_offset,
            clipped_bounds,
            self.focus() == Some(id),
        ));
    }

    /// Draws the border of node `id`, clipped to its drawable rectangle.
    pub fn render_border<H>(
        &self,
        tree: &WidgetTree<H>,
        id: WidgetId,
        total_offset: Point,
        clipped_bounds: Size,
        out: &mut Vec<DrawOp>,
    )
        requires
            tree.wf(),
            tree@.valid(id as int),
            (tree@.widgets[id as int].border is Some),
        ensures
            commands(final(out)@) == commands(old(out)@) + border_commands(
                tree@.widgets[id as int],
                total_offset,
                clipped_bounds,
                self.focus() == Some(id),
                tree@.widgets[id as int].border->0,
            ),
    {
        let ghost base = commands(out@);
        let w = tree.widget(id);
        let b = match w.border {
            Some(b) => b,
            None => Border::new(false, false, false, false),
        };
        let fill = if self.is_focused(id) {
            FOCUS_COLOR
        } else {
            w.background_color
        };
        emit(out, DrawOp::SetBackground(fill));
        emit(out, DrawOp::SetForeground(w.border_color));
        emit_edges(out, b, total_offset, w.size, clipped_bounds);
        emit_corners(out, b, total_offset, w.size, clipped_bounds);
        emit(out, DrawOp::SetBackground(Color::Reset));
        emit(out, DrawOp::SetForeground(Color::Reset));
        assert(commands(out@) =~= base + border_commands(
            tree@.widgets[id as int],
            total_offset,
            clipped_bounds,
            self.focus() == Some(id),
            b,
        ));
    }

    /// Writes the text of node `id` in the first row inside its border, cut to
    /// the grapheme clusters that fit its interior and its drawable rectangle.
    pub fn render_text<H>(
        &self,
        tree: &WidgetTree<H>,
        id: WidgetId,
        total_offset: Point,
        clipped_bounds: Size,
        out: &mut Vec<DrawOp>,
    )
        requires
            tree.wf(),
            tree@.valid(id as int),
        ensures
            commands(final(out)@) == commands(old(out)@) + text_commands(
                tree@.widgets[id as int],
                total_offset,
                clipped_bounds,
                self.focus() == Some(id),
            ),
    {
        let ghost base = commands(out@);
        let ghost wv = tree@.widgets[id as int];
        let w = tree.widget(id);
        let b = match w.border {
            Some(b) => b,
            None => Border::new(false, false, false, false),
        };
        assert(b == border_or_none(wv));
        let left: u16 = if b.left {
            1
        } else {
            0
        };
        let right: u16 = if b.right {
            1
        } else {
            0
        };
        let top: u16 = if b.top {
            1
        } else {
            0
        };
        if top < clipped_bounds.height {
            let interior: u16 = if w.size.width >= left + right {
                w.size.width - left - right
            } else {
                0
            };
            let avail: u16 = if clipped_bounds.width >= left {
                clipped_bounds.width - left
            } else {
                0
            };
            let width = if avail < interior {
                avail
            } else {
                interior
            };
            assert(width as int == text_width(wv, clipped_bounds));
            let fill = if self.is_focused(id) {
                FOCUS_COLOR
            } else {
                w.background_color
            };
            emit(out, DrawOp::SetBackground(fill));
            emit(out, DrawOp::SetForeground(w.text_color));
            emit(out, DrawOp::SetAttribute(w.text_style));
            emit(out, DrawOp::MoveTo(coord_add(total_offset.x, left), coord_add(total_offset.y, top)));
            let text = truncate_graphemes(w.text.as_str(), width as usize);
            emit(out, DrawOp::Print(text));
            emit(out, DrawOp::SetBackground(Color::Reset));
            emit(out, DrawOp::SetForeground(Color::Reset));
            emit(out, DrawOp::SetAttribute(TextStyle::Reset));
            proof {
                reveal(text_commands);
                assert(commands(out@) =~= base + text_commands(
                    wv,
                    total_offset,
                    clipped_bounds,
                    self.focus() == Some(id),
                ));
            }
        } else {
            proof {
                reveal(text_commands);
                assert(commands(out@) =~= base + text_commands(
                    wv,
                    total_offset,
                    clipped_bounds,
                    self.focus() == Some(id),
                ));
            }
        }
    }

    /// The move that parks the terminal cursor just beyond the painted area.
    pub fn set_to_corner(&self, bounds: Size) -> (r: DrawOp)
        ensures
            r@ == corner_move(self.cursor(), bounds),
    {
        let offset = self.cursor_position.add(Point::from(bounds));
        DrawOp::MoveTo(offset.x, offset.y)
    }

    /// Paints node `id` and then its subtree, children in order.
    fn render_widget<H>(
        &self,
        tree: &WidgetTree<H>,
        id: WidgetId,
        parent_offset: Point,
        parent_bounds: Size,
        out: &mut Vec<DrawOp>,
    )
        requires
            tree.wf(),
            tree@.valid(id as int),
        ensures
            commands(final(out)@) == commands(old(out)@) + frames_commands(
                tree@,
                frames(tree@, id as int, self.cursor(), parent_offset, parent_bounds),
                self.focus(),
            ),
        decreases tree@.ranking().0[id as int],
    {
        let ghost t = tree@;
        let ghost base = commands(out@);
        let ghost focus = self.focus();
        let ghost cursor = self.cursor();
        let w = tree.widget(id);
        let total_offset = self.calculate_total_offset(parent_offset, w.position);
        let clipped = clip_bounds(parent_bounds, w.position, w.size);
        self.render_background(tree, id, total_offset, clipped, out);
        if w.border.is_some() {
            self.render_border(tree, id, total_offset, clipped, out);
        }
        self.render_text(tree, id, total_offset, clipped, out);
        let child_offset = parent_offset.add(w.position);
        let ghost f = frame_of(t, id as int, cursor, parent_offset, parent_bounds);
        let ghost target = base + frames_commands(
            t,
            frames(t, id as int, cursor, parent_offset, parent_bounds),
            focus,
        );
        proof {
            let cf = child_frames(t, id as int, 0, cursor, child_offset, clipped);
            let fs = frames(t, id as int, cursor, parent_offset, parent_bounds);
            assert(fs == seq![f] + cf);
            assert(fs.drop_first() =~= cf);
            assert(commands(out@) =~= base + node_commands(t, f, focus));
            assert(commands(out@) + frames_commands(t, cf, focus) =~= target);
        }
        let children = tree.children(id);
        let mut k: usize = 0;
        while k < children.len()
            invariant
                tree.wf(),
                t == tree@,
                tree@.valid(id as int),
                children@ == t.children[id as int],
                k <= children.len(),
                focus == self.focus(),
                cursor == self.cursor(),
                commands(out@) + frames_commands(
                    t,
                    child_frames(t, id as int, k as int, cursor, child_offset, clipped),
                    focus,
                ) == target,
            decreases children.len() - k,
        {
            let c = children[k];
            proof {
                lemma_child_rank(t, id as int, k as int);
                let a = frames(t, c as int, cursor, child_offset, clipped);
                let rest = child_frames(t, id as int, k + 1, cursor, child_offset, clipped);
                assert(child_frames(t, id as int, k as int, cursor, child_offset, clipped) == a
                    + rest);
                lemma_frames_commands_concat(t, a, rest, focus);
            }
            let ghost before = commands(out@);
            self.render_widget(tree, c, child_offset, clipped, out);
            proof {
                let a = frames(t, c as int, cursor, child_offset, clipped);
                let rest = child_frames(t, id as int, k + 1, cursor, child_offset, clipped);
                assert(commands(out@) + frames_commands(t, rest, focus) =~= before
                    + frames_commands(t, a + rest, focus));
            }
            k = k + 1;
        }
    }

    /// The commands that paint the tree under `root`, whose parent sits at
    /// `parent_offset` and hands down `parent_bounds`, and then park the cursor.
    pub fn render<H>(
        &self,
        tree: &WidgetTree<H>,
        root: WidgetId,
        parent_offset: Point,
        parent_bounds: Size,
    ) -> (r: Vec<DrawOp>)
        requires
            tree.wf(),
            tree@.valid(root as int),
        ensures
            commands(r@) == render_commands(
                tree@,
                root as int,
                self.cursor(),
                parent_offset,
                parent_bounds,
                self.focus(),
            ),
    {
        let mut out: Vec<DrawOp> = Vec::new();
        assert(commands(out@) =~= Seq::empty());
        self.render_widget(tree, root, parent_offset, parent_bounds, &mut out);
        let corner = self.set_to_corner(parent_bounds);
        emit(&mut out, corner);
        assert(commands(out@) =~= render_commands(
            tree@,
            root as int,
            self.cursor(),
            parent_offset,
            parent_bounds,
            self.focus(),
        ));
        out
    }

    /// Appends the commands that clear the canvas, from the cursor's row down.
    pub fn clear(&self, out: &mut Vec<DrawOp>)
        ensures
            commands(final(out)@) == commands(old(out)@) + clear_commands(
                self.canvas(),
                self.cursor(),
            ),
    {
        let ghost base = commands(out@);
        let from = self.cursor_position.y;
        let mut y: u16 = from;
        while y < self.size.height
            invariant
                from <= y,
                from == self.cursor().y,
                y <= self.canvas().height || y == from,
                commands(out@) == base + clear_rows(from, y as int),
            decreases self.size.height - y,
        {
            emit(out, DrawOp::MoveTo(0, y));
            emit(out, DrawOp::ClearLine);
            proof {
                assert(clear_rows(from, y + 1) == clear_rows(from, y as int) + seq![
                    Command::MoveTo(0, y),
                    Command::ClearLine,
                ]);
                assert(commands(out@) =~= base + clear_rows(from, y + 1));
            }
            y = y + 1;
        }
        proof {
            if y == from {
                assert(clear_rows(from, self.canvas().height as int) == clear_rows(from, y as int))
                    by {
                    if self.canvas().height > from {
                    }
                }
            }
        }
        emit(out, DrawOp::MoveTo(0, from));
        assert(commands(out@) =~= base + clear_commands(self.canvas(), self.cursor()));
    }

    /// A full repaint: clear the canvas, then paint the tree under `root`.
    pub fn paint<H>(
        &self,
        tree: &WidgetTree<H>,
        root: WidgetId,
        parent_offset: Point,
        bounds: Size,
    ) -> (r: Vec<DrawOp>)
        requires
            tree.wf(),
            tree@.valid(root as int),
        ensures
            commands(r@) == clear_commands(self.canvas(), self.cursor()) + render_commands(
                tree@,
                root as int,
                self.cursor(),
                parent_offset,
                bounds,
                self.focus(),
            ),
    {
        let mut out: Vec<DrawOp> = Vec::new();
        assert(commands(out@) =~= Seq::empty());
        self.clear(&mut out);
        let painted = self.render(tree, root, parent_offset, bounds);
        let ghost before = out@;
        let mut rest = painted;
        out.append(&mut rest);
        assert(commands(out@) =~= commands(before) + commands(painted@));
        out
    }

    /// The node whose handler the key goes to: the focused node, if it has a handler.
    pub fn notify_focus_widget<H>(&self, tree: &WidgetTree<H>) -> (r: Option<WidgetId>)
        requires
            tree.wf(),
            focus_valid(tree@, self.focus()),
        ensures
            r == notify_target(tree@, self.focus()),
    {
        match self.focus_widget {
            Some(f) => if tree.widget(f).event_handler.is_some() {
                Some(f)
            } else {
                None
            },
            None => None,
        }
    }

    /// Moves the focus as a Tab does (see `next_focus`).
    pub fn set_next_focus<H>(&mut self, tree: &WidgetTree<H>, root: WidgetId)
        requires
            tree.wf(),
            tree@.valid(root as int),
            focus_valid(tree@, old(self).focus()),
        ensures
            final(self).focus() == next_focus(tree@, root as int, old(self).focus()),
            focus_valid(tree@, final(self).focus()),
            final(self).canvas() == old(self).canvas(),
            final(self).cursor() == old(self).cursor(),
    {
        let ghost t = tree@;
        let fallback = if tree.widget(root).focusable {
            Some(root)
        } else {
            None
        };
        if let Some(f) = self.focus_widget {
            let kids = tree.children(f);
            if kids.len() > 0 {
                let first = kids[0];
                proof {
                    lemma_child_rank(t, f as int, 0);
                }
                if tree.widget(first).focusable {
                    self.focus_widget = Some(first);
                    return;
                }
            }
            if let Some(p) = tree.parent(f) {
                let sib = tree.children(p);
                let ghost sv = t.children[p as int];
                proof {
                    assert(sv.no_duplicates());
                    assert(sv.contains(f));
                }
                if let Some(i) = position_in(sib, f) {
                    if i + 1 < sib.len() {
                        let next = sib[i + 1];
                        proof {
                            lemma_child_rank(t, p as int, i + 1);
                            assert(0 <= i < sv.len() - 1 && sv[i as int] == f);
                            let c = choose|c: int| 0 <= c < sv.len() - 1 && sv[c] == f;
                            assert(c == i);
                        }
                        if tree.widget(next).focusable {
                            self.focus_widget = Some(next);
                            return;
                        }
                    } else {
                        assert forall|c: int| 0 <= c < sv.len() - 1 implies sv[c] != f by {
                            assert(c != i);
                        }
                    }
                }
            }
        }
        self.focus_widget = fallback;
    }

    /// Decides what a key press does: Ctrl+C ends the session; any other key
    /// first moves the focus if it is Tab, then asks for a full repaint and
    /// for the focused node's handler to be called.
    pub fn on_key<H>(
        &mut self,
        tree: &WidgetTree<H>,
        root: WidgetId,
        parent_offset: Point,
        bounds: Size,
        key: KeyInput,
    ) -> (r: KeyOutcome)
        requires
            tree.wf(),
            tree@.valid(root as int),
            focus_valid(tree@, old(self).focus()),
        ensures
            focus_valid(tree@, final(self).focus()),
            final(self).canvas() == old(self).canvas(),
            final(self).cursor() == old(self).cursor(),
            is_interrupt(key) ==> (r is Exit) && final(self).focus() == old(self).focus(),
            !is_interrupt(key) ==> final(self).focus() == (if key.code == KeyCode::Tab {
                next_focus(tree@, root as int, old(self).focus())
            } else {
                old(self).focus()
            }),
            !is_interrupt(key) ==> match r {
                KeyOutcome::Repaint { ops, notify } => {
                    &&& commands(ops@) == clear_commands(old(self).canvas(), old(self).cursor())
                        + render_commands(
                        tree@,
                        root as int,
                        old(self).cursor(),
                        parent_offset,
                        bounds,
                        final(self).focus(),
                    )
                    &&& notify == notify_target(tree@, final(self).focus())
                },
                KeyOutcome::Exit => false,
            },
    {
        if key.code == KeyCode::Char('c') && key.modifiers == CONTROL {
            return KeyOutcome::Exit;
        }
        if key.code == KeyCode::Tab {
            self.set_next_focus(tree, root);
        }
        let ops = self.paint(tree, root, parent_offset, bounds);
        let notify = self.notify_focus_widget(tree);
        KeyOutcome::Repaint { ops, notify }
    }
}

} // verus!
