use vstd::prelude::*;

use crate::geometry::{Border, BorderStyle, Point, Size, TextWrap};
use crate::style::{Color, TextStyle};

verus! {

/// Identifies a node of a `WidgetTree`: its index in the tree's arena.
pub type WidgetId = usize;

/// Why attaching a child was refused.
#[derive(Debug, Clone, Copy, PartialEq, Eq, Structural)]
pub enum WidgetError {
    /// The child already has a parent.
    HasParent,
    /// The parent lies in the child's own subtree, so the link would close a cycle.
    WouldCycle,
}

/// The drawable data of one node. Parent and child links are kept by the tree.
/// `H` is the type of the key handler that the node may carry.
pub struct Widget<H> {
    pub position: Point,
    pub size: Size,
    pub border: Option<Border>,
    pub text_wrap: TextWrap,
    pub text: String,
    pub content_editable: bool,
    pub focusable: bool,
    pub focus_color: Option<Color>,
    pub background_color: Color,
    pub text_color: Color,
    pub text_style: TextStyle,
    pub border_color: Color,
    pub border_style: BorderStyle,
    pub event_handler: Option<H>,
}

impl<H> Default for Widget<H> {
    fn default() -> (r: Self)
        ensures
            (r.position == Point { x: 0, y: 0 }),
            (r.size == Size { width: 0, height: 0 }),
            (r.border is None),
            r.text_wrap == TextWrap::Hidden,
            r.text@ == Seq::<char>::empty(),
            !r.content_editable,
            !r.focusable,
            (r.focus_color is None),
            r.background_color == Color::White,
            r.text_color == Color::Black,
            r.text_style == TextStyle::NoHidden,
            r.border_color == Color::Black,
            r.border_style == BorderStyle::Blank,
            (r.event_handler is None),
    {
        Widget {
            position: Point::new(0, 0),
            size: Size::new(0, 0),
            border: None,
            text_wrap: TextWrap::Hidden,
            text: String::new(),
            content_editable: false,
            focusable: false,
            focus_color: None,
            background_color: Color::white(),
            text_color: Color::black(),
            text_style: TextStyle::no_hidden(),
            border_color: Color::black(),
            border_style: BorderStyle::Blank,
            event_handler: None,
        }
    }
}

/// The mathematical model of a widget tree: each node's data, its parent link
/// and its ordered child links.
pub struct TreeView<H> {
    pub widgets: Seq<Widget<H>>,
    pub parents: Seq<Option<usize>>,
    pub children: Seq<Seq<usize>>,
}

impl<H> TreeView<H> {
    pub open spec fn len(self) -> nat {
        self.widgets.len()
    }

    pub open spec fn valid(self, i: int) -> bool {
        0 <= i < self.len()
    }

    /// `rank` strictly decreases from every parent to each of its children,
    /// and stays under `bound`.
    pub open spec fn ranked(self, rank: Seq<nat>, bound: nat) -> bool {
        &&& rank.len() == self.len()
        &&& forall|i: int| 0 <= i < self.len() ==> #[trigger] rank[i] < bound
        &&& forall|i: int|
            0 <= i < self.len() && (#[trigger] self.parents[i]) is Some ==> rank[i]
                < rank[self.parents[i]->0 as int]
    }

    /// No node is its own ancestor: some ranking decreases along every parent link.
    pub open spec fn acyclic(self) -> bool {
        exists|r: (Seq<nat>, nat)| self.ranked(r.0, r.1)
    }

    pub proof fn lemma_ranking(self)
        requires
            self.acyclic(),
        ensures
            self.ranked(self.ranking().0, self.ranking().1),
    {
    }

    pub proof fn lemma_acyclic_by(self, rank: Seq<nat>, bound: nat)
        requires
            self.ranked(rank, bound),
        ensures
            self.acyclic(),
    {
        assert(self.ranked((rank, bound).0, (rank, bound).1));
    }

    /// A ranking witnessing acyclicity, used as a termination measure.
    pub open spec fn ranking(self) -> (Seq<nat>, nat) {
        choose|r: (Seq<nat>, nat)| self.ranked(r.0, r.1)
    }

    pub open spec fn links_consistent(self) -> bool {
        &&& forall|i: int|
            0 <= i < self.len() && (#[trigger] self.parents[i]) is Some ==> {
                let p = self.parents[i]->0 as int;
                &&& 0 <= p < self.len()
                &&& self.children[p].contains(i as usize)
            }
        &&& forall|p: int, j: int|
            0 <= p < self.len() && 0 <= j < self.children[p].len() ==> {
                let c = #[trigger] self.children[p][j] as int;
                &&& 0 <= c < self.len()
                &&& self.parents[c] == Some(p as usize)
            }
        &&& forall|p: int| 0 <= p < self.len() ==> (#[trigger] self.children[p]).no_duplicates()
    }

    /// Well-formedness: one parent link per node, parent and child links agree,
    /// no child is listed twice, and the links form no cycle.
    pub open spec fn wf(self) -> bool {
        &&& self.len() <= usize::MAX
        &&& self.parents.len() == self.len()
        &&& self.children.len() == self.len()
        &&& self.links_consistent()
        &&& self.acyclic()
    }

    /// `a` is `x` or one of its ancestors.
    pub open spec fn is_ancestor_or_self(self, a: int, x: int) -> bool
        decreases self.ranking().1 - self.ranking().0[x],
        when self.wf() && self.valid(x)
    {
        if x == a {
            true
        } else {
            match self.parents[x] {
                Some(p) => {
                    proof {
                        self.lemma_ranking();
                        assert(self.ranking().0[x] < self.ranking().0[p as int]);
                    }
                    self.is_ancestor_or_self(a, p as int)
                },
                None => false,
            }
        }
    }

    /// The tree after a successful attach of `child` under `this`.
    pub open spec fn linked(self, this: int, child: int) -> TreeView<H> {
        TreeView {
            widgets: self.widgets,
            parents: self.parents.update(child, Some(this as usize)),
            children: self.children.update(this, self.children[this].push(child as usize)),
        }
    }

    /// The outcome of attaching `child` under `this`: the resulting tree and
    /// whether the attach succeeded.
    pub open spec fn attach(self, this: int, child: int) -> (TreeView<H>, Result<(), WidgetError>) {
        if self.parents[child] is Some {
            (self, Err(WidgetError::HasParent))
        } else if self.is_ancestor_or_self(child, this) {
            (self, Err(WidgetError::WouldCycle))
        } else {
            (self.linked(this, child), Ok(()))
        }
    }

    /// The tree after adding `w` as a new, unattached node.
    pub open spec fn added(self, w: Widget<H>) -> TreeView<H> {
        TreeView {
            widgets: self.widgets.push(w),
            parents: self.parents.push(None),
            children: self.children.push(Seq::empty()),
        }
    }
}

/// A parent of an ancestor-or-self of `x` is also an ancestor of `x`.
proof fn lemma_ancestor_parent<H>(t: TreeView<H>, a: int, x: int)
    requires
        t.wf(),
        t.valid(x),
        t.valid(a),
        t.is_ancestor_or_self(a, x),
        (t.parents[a] is Some),
    ensures
        t.is_ancestor_or_self(t.parents[a]->0 as int, x),
    decreases t.ranking().1 - t.ranking().0[x],
{
    let r = t.ranking();
    t.lemma_ranking();
    let pa = t.parents[a]->0 as int;
    if x == a {
        assert(r.0[a] < r.0[pa]);
        assert(t.is_ancestor_or_self(pa, pa));
    } else {
        assert(t.parents[x] is Some);
        let q = t.parents[x]->0 as int;
        assert(r.0[x] < r.0[q]);
        assert(r.0[q] < r.1);
        lemma_ancestor_parent(t, a, q);
    }
}

/// Attaching keeps a tree well formed.
proof fn lemma_linked_wf<H>(t: TreeView<H>, this: int, child: int)
    requires
        t.wf(),
        t.valid(this),
        t.valid(child),
        (t.parents[child] is None),
        !t.is_ancestor_or_self(child, this),
    ensures
        t.linked(this, child).wf(),
{
    let t2 = t.linked(this, child);
    let (rank, bound) = t.ranking();
    t.lemma_ranking();
    let d = rank[child] + 1;
    let rank2 = Seq::new(
        t.len(),
        |i: int|
            if t.is_ancestor_or_self(i, this) {
                (rank[i] + d) as nat
            } else {
                rank[i]
            },
    );
    let bound2 = bound + d;
    assert forall|i: int| 0 <= i < t2.len() && (#[trigger] t2.parents[i]) is Some implies rank2[i]
        < rank2[t2.parents[i]->0 as int] by {
        if i == child {
            assert(t.is_ancestor_or_self(this, this));
            assert(t2.parents[i] == Some(this as usize));
            assert(rank2[child] == rank[child]);
            assert(rank2[this] == rank[this] + d);
        } else {
            assert(t2.parents[i] == t.parents[i]);
            let p = t.parents[i]->0 as int;
            assert(0 <= p < t.len());
            assert(rank[i] < rank[p]);
            if t.is_ancestor_or_self(i, this) {
                lemma_ancestor_parent(t, i, this);
                assert(rank2[i] == rank[i] + d);
                assert(rank2[p] == rank[p] + d);
            } else {
                assert(rank2[i] == rank[i]);
                assert(rank2[p] >= rank[p]);
            }
        }
    }
    assert forall|i: int| 0 <= i < t2.len() implies #[trigger] rank2[i] < bound2 by {
        assert(rank[i] < bound);
    }
    t2.lemma_acyclic_by(rank2, bound2);
    assert forall|p: int, j: int| 0 <= p < t2.len() && 0 <= j < t2.children[p].len() implies {
        let c = #[trigger] t2.children[p][j] as int;
        &&& 0 <= c < t2.len()
        &&& t2.parents[c] == Some(p as usize)
    } by {
        if p == this {
            assert(t2.children[p] == t.children[p].push(child as usize));
            if j == t.children[p].len() {
                assert(t2.children[p][j] == child as usize);
            } else {
                let c = t.children[p][j] as int;
                assert(t2.children[p][j] == c as usize);
                assert(t.parents[c] == Some(p as usize));
                assert(c != child);
            }
        } else {
            assert(t2.children[p] == t.children[p]);
            let c = t.children[p][j] as int;
            assert(t.parents[c] == Some(p as usize));
            assert(c != child);
        }
    }
    assert forall|i: int| 0 <= i < t2.len() && (#[trigger] t2.parents[i]) is Some implies {
        let p = t2.parents[i]->0 as int;
        &&& 0 <= p < t2.len()
        &&& t2.children[p].contains(i as usize)
    } by {
        if i == child {
            assert(t2.children[this].last() == child as usize);
        } else {
            let p = t.parents[i]->0 as int;
            let k = choose|k: int| 0 <= k < t.children[p].len() && t.children[p][k] == i as usize;
            assert(t2.children[p][k] == i as usize);
        }
    }
    assert forall|p: int| 0 <= p < t2.len() implies (#[trigger] t2.children[p]).no_duplicates() by {
        assert(t.children[p].no_duplicates());
        if p == this {
            assert forall|j: int| 0 <= j < t.children[p].len() implies t.children[p][j]
                != child as usize by {
                let c = t.children[p][j] as int;
                assert(t.parents[c] == Some(p as usize));
            }
        }
    }
}

/// Attaching a node a second time always fails, whatever the second parent,
/// and leaves the tree, every child list included, as the first attach left it.
pub proof fn lemma_second_attach_fails<H>(t: TreeView<H>, p: int, q: int, c: int)
    requires
        t.wf(),
        t.valid(p),
        t.valid(q),
        t.valid(c),
        (t.attach(p, c).1 is Ok),
    ensures
        ({
            let t1 = t.attach(p, c).0;
            &&& t1.children[p] == t.children[p].push(c as usize)
            &&& t1.attach(q, c) == (t1, Err::<(), WidgetError>(WidgetError::HasParent))
        }),
{
}

/// An arena of widgets with parent and child links.
pub struct WidgetTree<H> {
    widgets: Vec<Widget<H>>,
    parents: Vec<Option<usize>>,
    children: Vec<Vec<usize>>,
}

impl<H> View for WidgetTree<H> {
    type V = TreeView<H>;

    closed spec fn view(&self) -> TreeView<H> {
        TreeView {
            widgets: self.widgets@,
            parents: self.parents@,
            children: self.children@.map_values(|v: Vec<usize>| v@),
        }
    }
}

impl<H> WidgetTree<H> {
    /// A tree is well formed whenever it was built through this API.
    pub open spec fn wf(&self) -> bool {
        self@.wf()
    }

    pub fn new() -> (r: Self)
        ensures
            r.wf(),
            r@.len() == 0,
    {
        let r = WidgetTree { widgets: Vec::new(), parents: Vec::new(), children: Vec::new() };
        proof {
            r@.lemma_acyclic_by(Seq::empty(), 0);
        }
        r
    }

    pub fn len(&self) -> (r: usize)
        requires
            self.wf(),
        ensures
            r == self@.len(),
    {
        self.widgets.len()
    }

    /// Adds `widget` as a new node without parent or children and returns its id.
    pub fn add(&mut self, widget: Widget<H>) -> (id: WidgetId)
        requires
            old(self).wf(),
            old(self)@.len() < usize::MAX,
        ensures
            final(self).wf(),
            id == old(self)@.len(),
            final(self)@ == old(self)@.added(widget),
    {
        let ghost t = self@;
        let id = self.widgets.len();
        self.widgets.push(widget);
        self.parents.push(None);
        self.children.push(Vec::new());
        proof {
            let t2 = t.added(widget);
            assert(self@.children =~= t2.children);
            assert(self@ =~= t2);
            let (rank, bound) = t.ranking();
            t.lemma_ranking();
            assert(t2.ranked(rank.push(0), bound + 1));
            t2.lemma_acyclic_by(rank.push(0), bound + 1);
            assert forall|p: int, j: int| 0 <= p < t2.len() && 0 <= j < t2.children[p].len() implies {
                let c = #[trigger] t2.children[p][j] as int;
                &&& 0 <= c < t2.len()
                &&& t2.parents[c] == Some(p as usize)
            } by {
                assert(t.children[p][j] == t2.children[p][j]);
            }
            assert forall|i: int| 0 <= i < t2.len() && (#[trigger] t2.parents[i]) is Some implies {
                let p = t2.parents[i]->0 as int;
                &&& 0 <= p < t2.len()
                &&& t2.children[p].contains(i as usize)
            } by {
                assert(t.parents[i] is Some);
            }
        }
        id
    }

    pub fn widget(&self, id: WidgetId) -> (r: &Widget<H>)
        requires
            self.wf(),
            self@.valid(id as int),
        ensures
            *r == self@.widgets[id as int],
    {
        &self.widgets[id]
    }

    pub fn parent(&self, id: WidgetId) -> (r: Option<WidgetId>)
        requires
            self.wf(),
            self@.valid(id as int),
        ensures
            r == self@.parents[id as int],
    {
        self.parents[id]
    }

    pub fn children(&self, id: WidgetId) -> (r: &Vec<WidgetId>)
        requires
            self.wf(),
            self@.valid(id as int),
        ensures
            r@ == self@.children[id as int],
    {
        &self.children[id]
    }

    /// Whether `a` is `x` or one of its ancestors.
    pub fn is_ancestor_or_self(&self, a: WidgetId, x: WidgetId) -> (r: bool)
        requires
            self.wf(),
            self@.valid(x as int),
        ensures
            r == self@.is_ancestor_or_self(a as int, x as int),
    {
        let ghost t = self@;
        let ghost rb = t.ranking();
        proof {
            t.lemma_ranking();
        }
        let mut cur = x;
        loop
            invariant
                self.wf(),
                t == self@,
                t.ranked(rb.0, rb.1),
                t.valid(cur as int),
                t.is_ancestor_or_self(a as int, x as int) == t.is_ancestor_or_self(
                    a as int,
                    cur as int,
                ),
            decreases rb.1 - rb.0[cur as int],
        {
            if cur == a {
                return true;
            }
            match self.parents[cur] {
                Some(p) => {
                    assert(rb.0[cur as int] < rb.0[p as int]);
                    assert(rb.0[p as int] < rb.1);
                    cur = p;
                },
                None => {
                    return false;
                },
            }
        }
    }
}

impl<H> Widget<H> {
    /// Attaches `child` as the last child of `this`. Fails with `HasParent` when
    /// the child already has a parent, and with `WouldCycle` when `this` is the
    /// child or lies below it; a failed attach changes nothing.
    pub fn add_child(tree: &mut WidgetTree<H>, this: WidgetId, child: WidgetId) -> (r: Result<
        (),
        WidgetError,
    >)
        requires
            old(tree).wf(),
            old(tree)@.valid(this as int),
            old(tree)@.valid(child as int),
        ensures
            final(tree).wf(),
            (final(tree)@, r) == old(tree)@.attach(this as int, child as int),
    {
        if tree.parents[child].is_some() {
            return Err(WidgetError::HasParent);
        }
        if tree.is_ancestor_or_self(child, this) {
            return Err(WidgetError::WouldCycle);
        }
        let ghost t = tree@;
        proof {
            lemma_linked_wf(t, this as int, child as int);
        }
        tree.parents.set(child, Some(this));
        tree.children[this].push(child);
        proof {
            assert(tree@.children =~= t.linked(this as int, child as int).children);
            assert(tree@ =~= t.linked(this as int, child as int));
        }
        Ok(())
    }

    /// Gives node `this` the key handler `handler`, replacing any earlier one.
    pub fn add_event_handler(tree: &mut WidgetTree<H>, this: WidgetId, handler: H)
        requires
            old(tree).wf(),
            old(tree)@.valid(this as int),
        ensures
            final(tree).wf(),
            final(tree)@.parents == old(tree)@.parents,
            final(tree)@.children == old(tree)@.children,
            final(tree)@.widgets.len() == old(tree)@.widgets.len(),
            forall|i: int|
                0 <= i < old(tree)@.len() && i != this ==> final(tree)@.widgets[i] == old(
                    tree,
                )@.widgets[i],
            ({
                let (w, w0) = (final(tree)@.widgets[this as int], old(tree)@.widgets[this as int]);
                w == Widget { event_handler: Some(handler), ..w0 }
            }),
    {
        let ghost t = tree@;
        tree.widgets[this].event_handler = Some(handler);
        proof {
            assert(tree@.widgets =~= t.widgets.update(
                this as int,
                Widget { event_handler: Some(handler), ..t.widgets[this as int] },
            ));
            assert(tree@.parents =~= t.parents);
            assert(tree@.children =~= t.children);
            let (rank, bound) = t.ranking();
            t.lemma_ranking();
            assert(tree@.ranked(rank, bound));
            tree@.lemma_acyclic_by(rank, bound);
        }
    }
}

} // verus!
