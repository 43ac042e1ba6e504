use widget_actions::dispatch::DeferredQueue;
use widget_actions::interaction::{is_click, ButtonData, Interaction};
use widget_actions::registry::{ActionRegistry, UnknownHandle};
use widget_actions::widgets::{
    button_builder, interactions, startup_menu_system, NodeId, NodeKind, Widgets,
};

const PHASES: [Interaction; 3] = [Interaction::Outside, Interaction::Hovered, Interaction::Pressed];

fn prev_of(w: &Widgets, n: NodeId) -> Interaction {
    match w.kind(n) {
        NodeKind::Button { data, .. } => data.prev_interaction,
        other => panic!("not a button: {:?}", other),
    }
}

/// Sets the phase of `n`, scans, flushes, and returns what ran.
fn tick(
    w: &mut Widgets,
    reg: &ActionRegistry<&'static str>,
    q: &mut DeferredQueue,
    phases: &[(NodeId, Interaction)],
) -> Vec<Result<&'static str, UnknownHandle>> {
    for (n, p) in phases {
        w.set_interaction(*n, *p);
    }
    interactions(w, q);
    q.flush(reg)
}

#[test]
fn exactly_one_pair_clicks() {
    let mut clicks = Vec::new();
    for p in PHASES {
        for c in PHASES {
            if is_click(p, c) {
                clicks.push((p, c));
            }
        }
    }
    assert_eq!(clicks, vec![(Interaction::Pressed, Interaction::Hovered)]);
}

#[test]
fn observe_fires_only_on_release_over_widget() {
    let mut reg = ActionRegistry::new();
    let h = reg.register(7u32);
    for p in PHASES {
        for c in PHASES {
            let mut b = ButtonData { prev_interaction: p, action: h };
            let fired = b.observe(c);
            assert_eq!(b.prev_interaction, c);
            assert_eq!(b.action, h);
            if p == Interaction::Pressed && c == Interaction::Hovered {
                assert_eq!(fired, Some(h));
            } else {
                assert_eq!(fired, None);
            }
        }
    }
}

#[test]
fn new_button_data_starts_outside() {
    let mut reg = ActionRegistry::new();
    let h = reg.register(1u8);
    let b = ButtonData::new(h);
    assert_eq!(b.prev_interaction, Interaction::Outside);
    assert_eq!(b.action, h);
}

#[test]
fn example_scenario_four_ticks() {
    let mut w = Widgets::new();
    let mut reg = ActionRegistry::new();
    let mut q = DeferredQueue::new();
    let b = button_builder(&mut w, &mut reg, "quit");
    assert_eq!(prev_of(&w, b), Interaction::Outside);

    let ran = tick(&mut w, &reg, &mut q, &[(b, Interaction::Hovered)]);
    assert!(ran.is_empty());
    assert_eq!(prev_of(&w, b), Interaction::Hovered);

    let ran = tick(&mut w, &reg, &mut q, &[(b, Interaction::Pressed)]);
    assert!(ran.is_empty());
    assert_eq!(prev_of(&w, b), Interaction::Pressed);

    w.set_interaction(b, Interaction::Hovered);
    interactions(&mut w, &mut q);
    assert_eq!(q.len(), 1);
    let ran = q.flush(&reg);
    assert_eq!(ran, vec![Ok("quit")]);
    assert_eq!(q.len(), 0);
    assert_eq!(prev_of(&w, b), Interaction::Hovered);

    let before = w.kind(b);
    let ran = tick(&mut w, &reg, &mut q, &[(b, Interaction::Hovered)]);
    assert!(ran.is_empty());
    assert_eq!(w.kind(b), before);
}

#[test]
fn press_then_leave_does_not_click() {
    let mut w = Widgets::new();
    let mut reg = ActionRegistry::new();
    let mut q = DeferredQueue::new();
    let b = button_builder(&mut w, &mut reg, "a");
    tick(&mut w, &reg, &mut q, &[(b, Interaction::Pressed)]);
    let ran = tick(&mut w, &reg, &mut q, &[(b, Interaction::Outside)]);
    assert!(ran.is_empty());
    assert_eq!(prev_of(&w, b), Interaction::Outside);
    let ran = tick(&mut w, &reg, &mut q, &[(b, Interaction::Hovered)]);
    assert!(ran.is_empty());
}

#[test]
fn history_updates_when_nothing_fires() {
    let mut w = Widgets::new();
    let mut reg = ActionRegistry::new();
    let mut q = DeferredQueue::new();
    let b = button_builder(&mut w, &mut reg, "a");
    for c in [Interaction::Pressed, Interaction::Outside, Interaction::Hovered, Interaction::Outside] {
        let ran = tick(&mut w, &reg, &mut q, &[(b, c)]);
        assert!(ran.is_empty());
        assert_eq!(prev_of(&w, b), c);
    }
}

#[test]
fn clicks_run_in_detection_order() {
    let mut w = Widgets::new();
    let mut reg = ActionRegistry::new();
    let mut q = DeferredQueue::new();
    let first = button_builder(&mut w, &mut reg, "first");
    let idle = button_builder(&mut w, &mut reg, "idle");
    let second = button_builder(&mut w, &mut reg, "second");
    tick(
        &mut w,
        &reg,
        &mut q,
        &[(first, Interaction::Pressed), (second, Interaction::Pressed), (idle, Interaction::Hovered)],
    );
    w.set_interaction(second, Interaction::Hovered);
    w.set_interaction(first, Interaction::Hovered);
    interactions(&mut w, &mut q);
    // Nothing has run yet: the actions wait in the queue.
    assert_eq!(q.len(), 2);
    let ran = q.flush(&reg);
    assert_eq!(ran, vec![Ok("first"), Ok("second")]);
}

#[test]
fn unknown_handle_is_reported_and_skipped() {
    let mut other = ActionRegistry::new();
    other.register("x");
    let stray = other.register("y");
    let mut reg = ActionRegistry::new();
    let known = reg.register("known");
    assert_eq!(reg.lookup(stray), Err(UnknownHandle { handle: stray }));
    let mut q = DeferredQueue::new();
    q.defer(stray);
    q.defer(known);
    let ran = q.flush(&reg);
    assert_eq!(ran, vec![Err(UnknownHandle { handle: stray }), Ok("known")]);
}

#[test]
fn handle_deferred_twice_runs_twice() {
    let mut reg = ActionRegistry::new();
    let h = reg.register(3u64);
    let mut q = DeferredQueue::new();
    q.defer(h);
    q.defer(h);
    assert_eq!(q.flush(&reg), vec![Ok(3u64), Ok(3u64)]);
    assert_eq!(reg.lookup(h), Ok(3u64));
    assert_eq!(reg.lookup(h), Ok(3u64));
}

#[test]
fn registration_during_flush_waits_for_next_tick() {
    let mut w = Widgets::new();
    let mut reg = ActionRegistry::new();
    let mut q = DeferredQueue::new();
    let b = button_builder(&mut w, &mut reg, "spawn");
    tick(&mut w, &reg, &mut q, &[(b, Interaction::Pressed)]);
    w.set_interaction(b, Interaction::Hovered);
    interactions(&mut w, &mut q);
    let ran = q.flush(&reg);
    assert_eq!(ran, vec![Ok("spawn")]);
    // The action builds a new button while the flushed list is still held.
    let fresh = button_builder(&mut w, &mut reg, "fresh");
    assert_eq!(ran, vec![Ok("spawn")]);
    assert_eq!(q.len(), 0);
    assert_eq!(prev_of(&w, fresh), Interaction::Outside);
    // The new button takes part from the next tick on.
    tick(&mut w, &reg, &mut q, &[(fresh, Interaction::Pressed)]);
    let ran = tick(&mut w, &reg, &mut q, &[(fresh, Interaction::Hovered)]);
    assert_eq!(ran, vec![Ok("fresh")]);
}

#[test]
fn registered_handles_are_distinct() {
    let mut reg = ActionRegistry::new();
    let a = reg.register('a');
    let b = reg.register('b');
    let c = reg.register('a');
    assert_ne!(a, b);
    assert_ne!(a, c);
    assert_ne!(b, c);
    assert_eq!(reg.lookup(a), Ok('a'));
    assert_eq!(reg.lookup(b), Ok('b'));
    assert_eq!(reg.lookup(c), Ok('a'));
}

#[test]
fn button_builder_attaches_a_label() {
    let mut w = Widgets::new();
    let mut reg = ActionRegistry::new();
    let b = button_builder(&mut w, &mut reg, 42i32);
    assert_eq!(w.len(), 2);
    let kids = w.children_of(b).clone();
    assert_eq!(kids.len(), 1);
    assert_eq!(w.kind(kids[0]), NodeKind::Label);
    assert!(w.children_of(kids[0]).is_empty());
    match w.kind(b) {
        NodeKind::Button { data, interaction } => {
            assert_eq!(interaction, Interaction::Outside);
            assert_eq!(data.prev_interaction, Interaction::Outside);
            assert_eq!(reg.lookup(data.action), Ok(42));
        }
        other => panic!("not a button: {:?}", other),
    }
}

#[test]
fn startup_menu_holds_one_button() {
    let mut w = Widgets::new();
    let mut reg = ActionRegistry::new();
    let menu = startup_menu_system(&mut w, &mut reg, "exit");
    assert_eq!(w.len(), 3);
    assert_eq!(w.kind(menu), NodeKind::Container);
    let kids = w.children_of(menu).clone();
    assert_eq!(kids.len(), 1);
    let button = kids[0];
    assert_eq!(w.children_of(button).len(), 1);
    let label = w.children_of(button)[0];
    assert_eq!(w.kind(label), NodeKind::Label);
    match w.kind(button) {
        NodeKind::Button { data, .. } => assert_eq!(reg.lookup(data.action), Ok("exit")),
        other => panic!("not a button: {:?}", other),
    }
}

#[test]
fn push_children_keeps_order() {
    let mut w = Widgets::new();
    let root = w.spawn(NodeKind::Container);
    let a = w.spawn(NodeKind::Label);
    let b = w.spawn(NodeKind::Label);
    let c = w.spawn(NodeKind::Label);
    w.push_children(root, &vec![b, a]);
    w.push_children(root, &vec![c]);
    assert_eq!(w.children_of(root), &vec![b, a, c]);
}

#[test]
fn only_buttons_take_a_phase() {
    let mut w = Widgets::new();
    let root = w.spawn(NodeKind::Container);
    w.set_interaction(root, Interaction::Pressed);
    assert_eq!(w.kind(root), NodeKind::Container);
    let mut q = DeferredQueue::new();
    interactions(&mut w, &mut q);
    assert_eq!(q.len(), 0);
    assert_eq!(w.kind(root), NodeKind::Container);
}
