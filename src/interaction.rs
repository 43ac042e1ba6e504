//! Interaction phases and the click gesture.
use crate::registry::ActionId;
use vstd::prelude::*;

verus! {

/// The pointer's relationship to a widget during one tick.
#[derive(Clone, Copy, Debug, PartialEq, Eq, Structural)]
pub enum Interaction {
    /// The pointer is not over the widget.
    Outside,
    /// The pointer is over the widget, the primary button is up.
    Hovered,
    /// The pointer is over the widget and the primary button is held.
    Pressed,
}

/// A click completes when a press over the widget is released while the
/// pointer is still over it.
pub open spec fn is_click_spec(previous: Interaction, current: Interaction) -> bool {
    previous == Interaction::Pressed && current == Interaction::Hovered
}

/// Decides whether the move from `previous` to `current` completes a click.
pub fn is_click(previous: Interaction, current: Interaction) -> (r: bool)
    ensures
        r == is_click_spec(previous, current),
{
    previous == Interaction::Pressed && current == Interaction::Hovered
}

/// Of the nine (previous, current) pairs exactly one completes a click:
/// `(Pressed, Hovered)`.
pub proof fn lemma_click_pairs()
    ensures
        forall|p: Interaction, c: Interaction|
            #[trigger] is_click_spec(p, c) <==> (p == Interaction::Pressed && c
                == Interaction::Hovered),
        Set::new(|pc: (Interaction, Interaction)| is_click_spec(pc.0, pc.1)) == set![
            (Interaction::Pressed, Interaction::Hovered),
        ],
        Set::new(|pc: (Interaction, Interaction)| is_click_spec(pc.0, pc.1)).len() == 1,
{
    let clicks = Set::new(|pc: (Interaction, Interaction)| is_click_spec(pc.0, pc.1));
    assert(clicks =~= set![(Interaction::Pressed, Interaction::Hovered)]);
}

/// A widget whose phase did not change cannot complete a click.
pub proof fn lemma_no_click_without_change(p: Interaction)
    ensures
        !is_click_spec(p, p),
{
}

/// The interaction record of one button: the phase seen at the end of the
/// previous tick, and the handle of the action that a click runs.
#[derive(Clone, Copy, Debug, PartialEq, Eq, Structural)]
pub struct ButtonData {
    pub prev_interaction: Interaction,
    pub action: ActionId,
}

/// The action that a button fires when it observes `current`, if any.
pub open spec fn fired_spec(b: ButtonData, current: Interaction) -> Option<ActionId> {
    if is_click_spec(b.prev_interaction, current) {
        Some(b.action)
    } else {
        None
    }
}

/// The record after it observed `current`: the history is always updated.
pub open spec fn observed_spec(b: ButtonData, current: Interaction) -> ButtonData {
    ButtonData { prev_interaction: current, ..b }
}

impl ButtonData {
    /// A fresh record: no interaction seen yet.
    pub fn new(action: ActionId) -> (r: ButtonData)
        ensures
            r.prev_interaction == Interaction::Outside,
            r.action == action,
    {
        ButtonData { prev_interaction: Interaction::Outside, action }
    }

    /// Evaluates one tick's phase: returns the action handle when a click
    /// completes, and records `current` as the new history either way.
    pub fn observe(&mut self, current: Interaction) -> (fired: Option<ActionId>)
        ensures
            fired == fired_spec(*old(self), current),
            *final(self) == observed_spec(*old(self), current),
    {
        let fired = if is_click(self.prev_interaction, current) {
            Some(self.action)
        } else {
            None
        };
        self.prev_interaction = current;
        fired
    }
}

} // verus!
