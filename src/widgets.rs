//! The widget tree, the builder of buttons, and the per-tick scan that
//! recognises clicks and defers their actions.
use crate::dispatch::{flushed_spec, DeferredQueue};
use crate::interaction::{
    fired_spec, is_click, is_click_spec, observed_spec, ButtonData, Interaction,
};
use crate::registry::{ActionId, ActionRegistry, UnknownHandle};
use vstd::prelude::*;

verus! {

/// An opaque handle to a node of a [`Widgets`] tree.
#[derive(Clone, Copy, Debug, PartialEq, Eq, Structural)]
pub struct NodeId {
    index: usize,
}

impl NodeId {
    /// The position of the node in its tree.
    pub closed spec fn index(self) -> int {
        self.index as int
    }
}

/// What a node of the tree is.
#[derive(Clone, Copy, Debug, PartialEq, Eq, Structural)]
pub enum NodeKind {
    /// A node that lays out its children.
    Container,
    /// A clickable widget: its interaction record, and the phase that the
    /// host observed for it this tick.
    Button { data: ButtonData, interaction: Interaction },
    /// The text shown on a button.
    Label,
}

/// A fresh button: no interaction seen, running the action behind `h`.
pub open spec fn new_button_spec(h: ActionId) -> NodeKind {
    NodeKind::Button {
        data: ButtonData { prev_interaction: Interaction::Outside, action: h },
        interaction: Interaction::Outside,
    }
}

/// The action handle of a button node.
pub open spec fn action_of(k: NodeKind) -> ActionId
    recommends
        k is Button,
{
    k->data.action
}

/// A node after the host set this tick's phase: only buttons have one.
pub open spec fn with_interaction_spec(k: NodeKind, phase: Interaction) -> NodeKind {
    match k {
        NodeKind::Button { data, interaction: _ } => NodeKind::Button { data, interaction: phase },
        _ => k,
    }
}

/// A node after the scan: a button whose phase changed has evaluated it and
/// records it as its history; every other node is left alone.
pub open spec fn scanned_spec(k: NodeKind) -> NodeKind {
    match k {
        NodeKind::Button { data, interaction } => if interaction != data.prev_interaction {
            NodeKind::Button { data: observed_spec(data, interaction), interaction }
        } else {
            k
        },
        _ => k,
    }
}

/// The handles that one node defers during the scan.
pub open spec fn fired_of(k: NodeKind) -> Seq<ActionId> {
    match k {
        NodeKind::Button { data, interaction } => match fired_spec(data, interaction) {
            Some(h) => seq![h],
            None => Seq::empty(),
        },
        _ => Seq::empty(),
    }
}

/// The handles that a scan of the nodes `ks` defers, in scan order.
pub open spec fn fired_seq(ks: Seq<NodeKind>) -> Seq<ActionId>
    decreases ks.len(),
{
    if ks.len() == 0 {
        Seq::empty()
    } else {
        fired_seq(ks.drop_last()) + fired_of(ks.last())
    }
}

/// Every button of `ks` runs an action that `m` holds.
pub open spec fn actions_live<A>(ks: Seq<NodeKind>, m: Map<ActionId, A>) -> bool {
    forall|i: int| 0 <= i < ks.len() && (#[trigger] ks[i]) is Button ==> m.contains_key(
        action_of(ks[i]),
    )
}

/// The nodes of a user interface, each with its ordered list of children.
pub struct Widgets {
    kinds: Vec<NodeKind>,
    children: Vec<Vec<NodeId>>,
}

impl Widgets {
    /// The nodes, in the order they were spawned.
    pub closed spec fn kinds(&self) -> Seq<NodeKind> {
        self.kinds@
    }

    /// The children of each node, in the order they were attached.
    pub closed spec fn children(&self) -> Seq<Seq<NodeId>> {
        self.children@.map_values(|c: Vec<NodeId>| c@)
    }

    /// `n` names a node of this tree.
    pub open spec fn contains(&self, n: NodeId) -> bool {
        0 <= n.index() < self.kinds().len()
    }

    /// Each node has a list of children, and each child is a node.
    pub open spec fn wf(&self) -> bool {
        &&& self.children().len() == self.kinds().len()
        &&& forall|i: int, j: int|
            0 <= i < self.children().len() && 0 <= j < self.children()[i].len()
                ==> self.contains(#[trigger] self.children()[i][j])
    }

    /// An empty tree.
    pub fn new() -> (r: Widgets)
        ensures
            r.wf(),
            r.kinds() == Seq::<NodeKind>::empty(),
    {
        let r = Widgets { kinds: Vec::new(), children: Vec::new() };
        assert(r.children() =~= Seq::<Seq<NodeId>>::empty());
        r
    }

    /// Adds a node of kind `kind`, with no children, and names it.
    pub fn spawn(&mut self, kind: NodeKind) -> (r: NodeId)
        requires
            old(self).wf(),
        ensures
            final(self).wf(),
            r.index() == old(self).kinds().len(),
            final(self).kinds() == old(self).kinds().push(kind),
            final(self).children() == old(self).children().push(Seq::empty()),
    {
        let r = NodeId { index: self.kinds.len() };
        self.kinds.push(kind);
        self.children.push(Vec::new());
        assert(self.children() =~= old(self).children().push(Seq::empty()));
        r
    }

    /// Attaches `kids`, in order, after the children that `parent` has.
    pub fn push_children(&mut self, parent: NodeId, kids: &Vec<NodeId>)
        requires
            old(self).wf(),
            old(self).contains(parent),
            forall|j: int| 0 <= j < kids@.len() ==> old(self).contains(#[trigger] kids@[j]),
        ensures
            final(self).wf(),
            final(self).kinds() == old(self).kinds(),
            final(self).children() == old(self).children().update(
                parent.index(),
                old(self).children()[parent.index()] + kids@,
            ),
    {
        let p = parent.index;
        let ghost c0 = self.children();
        for j in 0..kids.len()
            invariant
                self.kinds == old(self).kinds,
                self.children@.len() == c0.len(),
                0 <= p < c0.len(),
                parent.index() == p,
                c0 == old(self).children(),
                old(self).wf(),
                forall|t: int| 0 <= t < kids@.len() ==> old(self).contains(#[trigger] kids@[t]),
                self.children() == c0.update(p as int, c0[p as int] + kids@.take(j as int)),
        {
            let ghost before = self.children@;
            let ghost before_v = self.children();
            assert(before[p as int]@ == self.children()[p as int]);
            assert(before[p as int]@ == c0[p as int] + kids@.take(j as int));
            self.children[p].push(kids[j]);
            assert(self.children@[p as int]@ == before[p as int]@.push(kids@[j as int]));
            assert(forall|t: int| 0 <= t < before.len() && t != p ==> self.children@[t] == before[t]);
            assert(kids@.take(j + 1) =~= kids@.take(j as int).push(kids@[j as int]));
            assert(c0[p as int] + kids@.take(j + 1) =~= (c0[p as int] + kids@.take(j as int)).push(
                kids@[j as int],
            ));
            let ghost target = c0.update(p as int, c0[p as int] + kids@.take(j + 1));
            assert(self.children@.len() == before.len());
            assert forall|t: int| 0 <= t < target.len() implies #[trigger] self.children()[t]
                == target[t] by {
                if t != p {
                    assert(before_v[t] == before[t]@);
                    assert(before_v[t] == c0[t]);
                }
            }
            assert(self.children() =~= target);
        }
        assert(kids@.take(kids@.len() as int) =~= kids@);
        assert forall|i: int, j: int|
            0 <= i < self.children().len() && 0 <= j < self.children()[i].len()
                implies self.contains(#[trigger] self.children()[i][j]) by {
            if i == p && j >= c0[i].len() {
                assert(self.children()[i][j] == kids@[j - c0[i].len()]);
            }
        }
    }

    /// Records the phase that the host observed for `node` this tick; a
    /// node that is not a button has none and stays as it is.
    pub fn set_interaction(&mut self, node: NodeId, phase: Interaction)
        requires
            old(self).wf(),
            old(self).contains(node),
        ensures
            final(self).wf(),
            final(self).kinds() == old(self).kinds().update(
                node.index(),
                with_interaction_spec(old(self).kinds()[node.index()], phase),
            ),
            final(self).children() == old(self).children(),
    {
        let i = node.index;
        match self.kinds[i] {
            NodeKind::Button { data, interaction: _ } => {
                self.kinds[i] = NodeKind::Button { data, interaction: phase };
            },
            _ => {},
        }
        assert(self.kinds@ =~= old(self).kinds@.update(
            i as int,
            with_interaction_spec(old(self).kinds@[i as int], phase),
        ));
    }

    /// The number of nodes.
    pub fn len(&self) -> (r: usize)
        ensures
            r == self.kinds().len(),
    {
        self.kinds.len()
    }

    /// The kind of `node`.
    pub fn kind(&self, node: NodeId) -> (r: NodeKind)
        requires
            self.contains(node),
        ensures
            r == self.kinds()[node.index()],
    {
        self.kinds[node.index]
    }

    /// The children of `node`, in the order they were attached.
    pub fn children_of(&self, node: NodeId) -> (r: &Vec<NodeId>)
        requires
            self.wf(),
            self.contains(node),
        ensures
            r@ == self.children()[node.index()],
    {
        &self.children[node.index]
    }

}

/// The action handle of the button `n` of `w`.
pub open spec fn button_action(w: Widgets, n: NodeId) -> ActionId {
    action_of(w.kinds()[n.index()])
}

/// Registers `action`, spawns a button that runs it with a label as its one
/// child, and returns the button so that a caller can attach it to a parent.
pub fn button_builder<A: Copy>(
    widgets: &mut Widgets,
    registry: &mut ActionRegistry<A>,
    action: A,
) -> (r: NodeId)
    requires
        old(widgets).wf(),
    ensures
        final(widgets).wf(),
        r.index() == old(widgets).kinds().len(),
        !old(registry)@.contains_key(button_action(*final(widgets), r)),
        final(registry)@ == old(registry)@.insert(button_action(*final(widgets), r), action),
        final(widgets).kinds() == old(widgets).kinds().push(
            new_button_spec(button_action(*final(widgets), r)),
        ).push(NodeKind::Label),
        final(widgets).children() == old(widgets).children().push(
            seq![final(widgets).children()[r.index()][0]],
        ).push(Seq::empty()),
        final(widgets).children()[r.index()][0].index() == r.index() + 1,
        actions_live(old(widgets).kinds(), old(registry)@) ==> actions_live(
            final(widgets).kinds(),
            final(registry)@,
        ),
{
    let h = registry.register(action);
    let button = widgets.spawn(NodeKind::Button {
        data: ButtonData::new(h),
        interaction: Interaction::Outside,
    });
    let label = widgets.spawn(NodeKind::Label);
    let kids = vec![label];
    widgets.push_children(button, &kids);
    assert(widgets.children()[button.index()] =~= seq![label]);
    assert(widgets.children() =~= old(widgets).children().push(seq![label]).push(Seq::empty()));
    assert(button_action(*widgets, button) == h);
    button
}

/// Builds the main menu: a container holding one button that runs `action`.
/// Returns the container.
pub fn startup_menu_system<A: Copy>(
    widgets: &mut Widgets,
    registry: &mut ActionRegistry<A>,
    action: A,
) -> (menu: NodeId)
    requires
        old(widgets).wf(),
    ensures
        final(widgets).wf(),
        menu.index() == old(widgets).kinds().len(),
        ({
            let button = final(widgets).children()[menu.index()][0];
            let h = button_action(*final(widgets), button);
            &&& button.index() == menu.index() + 1
            &&& !old(registry)@.contains_key(h)
            &&& final(registry)@ == old(registry)@.insert(h, action)
            &&& final(widgets).kinds() == old(widgets).kinds().push(NodeKind::Container).push(
                new_button_spec(h),
            ).push(NodeKind::Label)
            &&& final(widgets).children() == old(widgets).children().push(seq![button]).push(
                seq![final(widgets).children()[button.index()][0]],
            ).push(Seq::empty())
            &&& final(widgets).children()[button.index()][0].index() == menu.index() + 2
        }),
        actions_live(old(widgets).kinds(), old(registry)@) ==> actions_live(
            final(widgets).kinds(),
            final(registry)@,
        ),
{
    let menu = widgets.spawn(NodeKind::Container);
    let button = button_builder(widgets, registry, action);
    let ghost built = *widgets;
    let kids = vec![button];
    widgets.push_children(menu, &kids);
    assert(widgets.children()[menu.index()] =~= seq![button]);
    let ghost label = widgets.children()[button.index()][0];
    assert(widgets.children() =~= old(widgets).children().push(seq![button]).push(seq![label]).push(
        Seq::empty(),
    ));
    assert(button_action(*widgets, button) == button_action(built, button));
    menu
}

/// One tick of gesture detection: every button whose phase changed since the
/// previous tick evaluates it, queues its action in `commands` when a click
/// completes, and records the phase as its history. Buttons whose phase did
/// not change are skipped. No action runs here: `commands` is flushed after
/// the scan.
pub fn interactions(widgets: &mut Widgets, commands: &mut DeferredQueue)
    requires
        old(widgets).wf(),
    ensures
        final(widgets).wf(),
        final(widgets).kinds() == old(widgets).kinds().map_values(|k: NodeKind| scanned_spec(k)),
        final(widgets).children() == old(widgets).children(),
        final(commands)@ == old(commands)@ + fired_seq(old(widgets).kinds()),
{
    let ghost ks = widgets.kinds@;
    let ghost q0 = commands@;
    let n = widgets.kinds.len();
    for i in 0..n
        invariant
            n == ks.len(),
            widgets.kinds@.len() == n,
            widgets.children == old(widgets).children,
            forall|j: int| 0 <= j < i ==> widgets.kinds@[j] == scanned_spec(#[trigger] ks[j]),
            forall|j: int| i <= j < n ==> widgets.kinds@[j] == #[trigger] ks[j],
            commands@ == q0 + fired_seq(ks.take(i as int)),
    {
        let k = widgets.kinds[i];
        assert(ks.take(i + 1).drop_last() =~= ks.take(i as int));
        match k {
            NodeKind::Button { data, interaction } => {
                if interaction != data.prev_interaction {
                    let mut d = data;
                    let fired = d.observe(interaction);
                    if let Some(h) = fired {
                        commands.defer(h);
                    }
                    widgets.kinds[i] = NodeKind::Button { data: d, interaction };
                }
            },
            _ => {},
        }
        assert(commands@ =~= q0 + fired_seq(ks.take(i + 1)));
    }
    assert(ks.take(n as int) =~= ks);
    assert(widgets.kinds@ =~= ks.map_values(|k: NodeKind| scanned_spec(k)));
}

/// After the scan every button's history is the phase it had this tick,
/// whether or not a click fired, and its action is unchanged.
pub proof fn lemma_history_follows_phase(k: NodeKind)
    requires
        k is Button,
    ensures
        scanned_spec(k) is Button,
        scanned_spec(k)->data.prev_interaction == k->interaction,
        scanned_spec(k)->interaction == k->interaction,
        scanned_spec(k)->data.action == k->data.action,
{
}

/// A button whose phase equals its history is left untouched by the scan
/// and defers nothing.
pub proof fn lemma_unchanged_skipped(k: NodeKind)
    requires
        k is Button,
        k->interaction == k->data.prev_interaction,
    ensures
        scanned_spec(k) == k,
        fired_of(k) == Seq::<ActionId>::empty(),
{
}

/// The scan defers the handles of the nodes in node order: the clicks of
/// the nodes `a` come before those of the nodes `b` that follow them.
pub proof fn lemma_fired_in_order(a: Seq<NodeKind>, b: Seq<NodeKind>)
    ensures
        fired_seq(a + b) == fired_seq(a) + fired_seq(b),
    decreases b.len(),
{
    if b.len() == 0 {
        assert(a + b =~= a);
        assert(fired_seq(a) + fired_seq(b) =~= fired_seq(a));
    } else {
        assert((a + b).drop_last() =~= a + b.drop_last());
        assert((a + b).last() == b.last());
        lemma_fired_in_order(a, b.drop_last());
        assert(fired_seq(a + b) =~= fired_seq(a) + fired_seq(b));
    }
}

/// Every handle that a scan defers belongs to a button of the scanned nodes.
pub proof fn lemma_fired_from_buttons<A>(ks: Seq<NodeKind>, m: Map<ActionId, A>)
    requires
        actions_live(ks, m),
    ensures
        forall|i: int| 0 <= i < fired_seq(ks).len() ==> m.contains_key(#[trigger] fired_seq(ks)[i]),
    decreases ks.len(),
{
    if ks.len() > 0 {
        let init = ks.drop_last();
        assert(actions_live(init, m)) by {
            assert forall|i: int| 0 <= i < init.len() && (#[trigger] init[i]) is Button implies m.contains_key(
                action_of(init[i]),
            ) by {
                assert(init[i] == ks[i]);
            }
        }
        lemma_fired_from_buttons(init, m);
        let last = ks.last();
        assert(ks[ks.len() - 1] == last);
        if last is Button {
            assert(m.contains_key(action_of(last)));
        }
        assert forall|i: int| 0 <= i < fired_seq(ks).len() implies m.contains_key(
            #[trigger] fired_seq(ks)[i],
        ) by {
            if i >= fired_seq(init).len() {
                assert(fired_seq(ks)[i] == fired_of(last)[i - fired_seq(init).len()]);
            } else {
                assert(fired_seq(ks)[i] == fired_seq(init)[i]);
            }
        }
    }
}

/// When every button runs a registered action, flushing what one scan
/// deferred into an empty queue runs, click by click in the order they were
/// recognised, the action of each, and meets no unknown handle.
pub proof fn lemma_tick_runs_clicks<A>(ks: Seq<NodeKind>, m: Map<ActionId, A>)
    requires
        actions_live(ks, m),
    ensures
        flushed_spec(Seq::<ActionId>::empty() + fired_seq(ks), m) == fired_seq(ks).map_values(
            |h: ActionId| Ok::<A, UnknownHandle>(m[h]),
        ),
{
    lemma_fired_from_buttons(ks, m);
    assert(Seq::<ActionId>::empty() + fired_seq(ks) =~= fired_seq(ks));
    assert(flushed_spec(fired_seq(ks), m) =~= fired_seq(ks).map_values(
        |h: ActionId| Ok::<A, UnknownHandle>(m[h]),
    ));
}

} // verus!
