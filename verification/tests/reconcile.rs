use raui_core::animator::{Animation, AnimatorStates};
use raui_core::application::{absorb_unmount, run_unmount_hooks, unmount_context, unmount_widgets};
use raui_core::messenger::MessageSender;
use raui_core::props::{Props, PropsValue};
use raui_core::reconcile::{
    absorb_hook, book_component, hook_context, hooks_to_run, keep_unmount_hooks, open_component,
    first_states_empty, process_node, process_node_component, process_node_unit, run_hooks,
    settle_component, signals_from, stage_state_changes, write_identities, write_unit_identities,
    OpenedComponent, Reconciliation,
};
use raui_core::state::State;
use raui_core::widget::WidgetLifeCycle;
use raui_core::store::WidgetStore;
use raui_core::widget::component::WidgetComponent;
use raui_core::widget::context::{WidgetContext, WidgetMountOrChangeContext, WidgetUnmountContext};
use raui_core::widget::node::WidgetNode;
use raui_core::widget::unit::area::AreaBoxNode;
use raui_core::widget::unit::grid::{GridBoxItemLayout, GridBoxItemNode, GridBoxNode};
use raui_core::widget::unit::text::TextBoxNode;
use raui_core::widget::unit::WidgetUnitNode;
use raui_core::widget::utils::Rect;
use raui_core::widget::{WidgetId, WidgetProcessor, WidgetRef};

#[derive(Debug, Clone, Copy, PartialEq, Eq)]
enum Kind {
    Leaf,
    Noisy,
    Hook,
    Heir,
}

type Log = Vec<String>;

impl WidgetProcessor<Log> for Kind {
    fn process(&self, context: &mut WidgetContext<Kind>, log: &mut Log) -> WidgetNode<Kind> {
        log.push(format!("process {}", context.id.as_str()));
        if let Kind::Heir = self {
            log.push(format!(
                "inherited above={} own={}",
                context.shared_props.has("from above"),
                context.shared_props.has("own shared")
            ));
        }
        if let Kind::Noisy = self {
            context.life_cycle.mount(Kind::Hook);
            context.life_cycle.mount(Kind::Hook);
            context.life_cycle.change(Kind::Hook);
            context.life_cycle.unmount(Kind::Hook);
            context.state.write(marked("from processor"));
        }
        WidgetNode::Unit(WidgetUnitNode::TextBox(TextBoxNode {
            id: context.id.clone(),
            props: Props::new(),
            text: context.key.clone(),
        }))
    }

    fn mount_or_change(&self, context: &mut WidgetMountOrChangeContext, log: &mut Log) {
        log.push(format!(
            "hook {} with {} messages",
            context.id.as_str(),
            context.messenger.messages().len()
        ));
        context.state.write(marked("from hook"));
        context.signals.write(marked("signal"));
        context.messenger.write(context.id.clone(), marked("letter"));
        context
            .animator
            .change("spin".to_owned(), Some(Animation { duration: 2 }));
    }

    fn unmount(&self, context: &mut WidgetUnmountContext, log: &mut Log) {
        log.push(format!("unmount {}", context.id.as_str()));
        context.signals.write(marked("bye"));
        context.messenger.write(context.id.clone(), marked("last words"));
    }
}

fn marked(name: &str) -> Props {
    Props::new().with(name.to_owned(), PropsValue::Flag(true))
}

fn id(type_tag: &str, path: &[&str]) -> WidgetId {
    WidgetId::new(
        type_tag.to_owned(),
        path.iter().map(|p| p.to_string()).collect(),
    )
}

fn empty_pass() -> Reconciliation<Kind> {
    Reconciliation::new(WidgetStore::new(), WidgetStore::new(), WidgetStore::new())
}

fn widget(kind: Kind, type_tag: &str, key: Option<&str>) -> WidgetComponent<Kind> {
    let mut c = WidgetComponent::new(kind, type_tag.to_owned());
    c.key = key.map(|k| k.to_owned());
    c
}

#[test]
fn opening_a_component() {
    let target = id("leaf", &["up", "k"]);
    let mut states = WidgetStore::new();
    states.insert(target.clone(), marked("kept"));
    let mut messages = WidgetStore::new();
    messages.insert(target.clone(), vec![marked("m1"), marked("m2")]);
    messages.insert(id("else", &["x"]), vec![marked("m3")]);
    let mut animators = WidgetStore::new();
    animators.insert(
        target.clone(),
        AnimatorStates::new("a".to_owned(), Animation { duration: 1 }),
    );
    let mut c = widget(Kind::Leaf, "leaf", Some("k"));
    c.idref = Some(WidgetRef::new());
    c.props = marked("own");
    c.shared_props = Some(
        Props::new()
            .with("x".to_owned(), PropsValue::Integer(2))
            .with("z".to_owned(), PropsValue::Integer(3)),
    );
    c.listed_slots = vec![WidgetNode::Empty];
    c.named_slots = vec![("content".to_owned(), WidgetNode::Empty)];
    let master = Props::new()
        .with("x".to_owned(), PropsValue::Integer(1))
        .with("y".to_owned(), PropsValue::Integer(1));
    let (processor, context, opened) = open_component(
        c,
        &states,
        vec!["up".to_owned()],
        &mut messages,
        &animators,
        &"<0>".to_owned(),
        Some(master),
    );
    assert_eq!(processor, Kind::Leaf);
    assert!(opened.id == target);
    assert_eq!(opened.path, vec!["up".to_owned(), "k".to_owned()]);
    assert!(!opened.mounted);
    assert!(opened.state.has("kept"));
    assert_eq!(opened.messages.len(), 2);
    assert!(opened.animator.get("a").is_some());
    assert!(!messages.contains_key(&target));
    assert_eq!(messages.len(), 1);
    assert!(context.id == target);
    assert!(context.idref.unwrap().read().unwrap() == target);
    assert_eq!(context.key, "k");
    assert!(context.props.has("own"));
    assert_eq!(context.shared_props.read("x").unwrap().as_integer(), Some(2));
    assert_eq!(context.shared_props.read("y").unwrap().as_integer(), Some(1));
    assert_eq!(context.shared_props.read("z").unwrap().as_integer(), Some(3));
    assert!(context.state.read().has("kept"));
    assert!(context.animator.in_progress());
    assert_eq!(context.listed_slots.len(), 1);
    assert_eq!(context.named_slots.len(), 1);

    let (_, context, opened) = open_component(
        widget(Kind::Leaf, "leaf", None),
        &states,
        vec![],
        &mut messages,
        &animators,
        &"<7>".to_owned(),
        None,
    );
    assert_eq!(opened.id.as_str(), "leaf:/<7>");
    assert!(opened.mounted);
    assert!(opened.state.is_empty());
    assert!(opened.messages.is_empty());
    assert!(!opened.animator.in_progress());
    assert!(context.idref.is_none());
    assert!(context.shared_props.is_empty());
}

#[test]
fn booking_and_staging() {
    let mut pass = empty_pass();
    let a = id("w", &["a"]);
    book_component(&mut pass, &a, true);
    assert!(pass.used_ids.contains_key(&a));
    assert!(pass.new_states.get(&a).unwrap().is_empty());
    assert!(pass.unmount_closures.is_empty());
    let b = id("w", &["b"]);
    book_component(&mut pass, &b, false);
    assert!(pass.used_ids.contains_key(&b));
    assert!(!pass.new_states.contains_key(&b));
    assert_eq!(pass.used_ids.len(), 2);
    assert_eq!(pass.new_states.len(), 1);

    stage_state_changes(&mut pass.state_changes, &a, vec![]);
    assert!(pass.state_changes.is_empty());
    stage_state_changes(&mut pass.state_changes, &a, vec![marked("1"), marked("2")]);
    assert!(pass.state_changes.get(&a).unwrap().has("2"));
    stage_state_changes(&mut pass.state_changes, &a, vec![]);
    assert!(pass.state_changes.get(&a).unwrap().has("2"));
}

#[test]
fn expanding_a_component_that_mounts() {
    let states = WidgetStore::new();
    let mut pass = empty_pass();
    pass.messages
        .insert(id("noisy", &["n"]), vec![marked("hello")]);
    let mut log = Log::new();
    let expanded = process_node_component(
        widget(Kind::Noisy, "noisy", Some("n")),
        &states,
        vec![],
        &mut pass,
        "<*>".to_owned(),
        None,
        &mut log,
        3,
    );
    let me = id("noisy", &["n"]);
    assert_eq!(
        log,
        vec![
            "process noisy:/n",
            "hook noisy:/n with 1 messages",
            "hook noisy:/n with 1 messages"
        ]
    );
    assert!(matches!(
        expanded,
        WidgetNode::Unit(WidgetUnitNode::TextBox(_))
    ));
    assert!(pass.used_ids.contains_key(&me));
    assert!(pass.new_states.get(&me).unwrap().is_empty());
    assert!(pass.messages.is_empty());
    assert!(pass.state_changes.get(&me).unwrap().has("from hook"));
    assert_eq!(pass.unmount_closures.get(&me).unwrap().len(), 1);
    assert!(pass.animators.get(&me).unwrap().get("spin").is_some());
    assert_eq!(pass.signals.len(), 2);
    assert!(pass.signals[0].0 == me);
    let sent = std::mem::replace(&mut pass.message_sender, MessageSender::new()).unwrap();
    assert_eq!(sent.len(), 2);
    assert!(sent[1].0 == me && sent[1].1.has("letter"));
}

#[test]
fn expanding_a_component_that_changes() {
    let me = id("noisy", &["n"]);
    let mut states = WidgetStore::new();
    states.insert(me.clone(), marked("now"));
    let mut pass = empty_pass();
    let mut log = Log::new();
    process_node_component(
        widget(Kind::Noisy, "noisy", Some("n")),
        &states,
        vec![],
        &mut pass,
        "<*>".to_owned(),
        None,
        &mut log,
        1,
    );
    assert_eq!(
        log,
        vec!["process noisy:/n", "hook noisy:/n with 0 messages"]
    );
    assert!(pass.new_states.is_empty());
    assert!(pass.used_ids.contains_key(&me));
    assert!(pass.state_changes.get(&me).unwrap().has("from hook"));
}

#[test]
fn no_budget_leaves_the_component() {
    let states = WidgetStore::new();
    let mut pass = empty_pass();
    let mut log = Log::new();
    let left = process_node(
        WidgetNode::Component(widget(Kind::Noisy, "noisy", Some("n"))),
        &states,
        vec![],
        &mut pass,
        "<*>".to_owned(),
        None,
        &mut log,
        0,
    );
    assert!(left.as_component().is_some());
    assert!(log.is_empty());
    assert!(pass.used_ids.is_empty());
}

#[test]
fn expanding_the_slots_of_primitives() {
    let states = WidgetStore::new();
    let mut pass = empty_pass();
    let mut log = Log::new();
    let grid = WidgetUnitNode::GridBox(GridBoxNode {
        id: id("grid", &["g"]),
        props: Props::new(),
        items: vec![
            GridBoxItemNode {
                slot: WidgetNode::Component(widget(Kind::Leaf, "leaf", None)),
                layout: GridBoxItemLayout {
                    column: 1,
                    row: 2,
                    margin: Rect::default(),
                },
            },
            GridBoxItemNode {
                slot: WidgetNode::Unit(WidgetUnitNode::AreaBox(AreaBoxNode {
                    id: id("area", &["a"]),
                    slot: Box::new(WidgetNode::Component(widget(Kind::Leaf, "leaf", None))),
                })),
                layout: GridBoxItemLayout::default(),
            },
            GridBoxItemNode {
                slot: WidgetNode::Component(widget(Kind::Leaf, "leaf", Some("own"))),
                layout: GridBoxItemLayout::default(),
            },
        ],
        cols: 3,
        rows: 1,
    });
    let expanded = process_node_unit(
        grid,
        &states,
        vec!["top".to_owned()],
        &mut pass,
        None,
        &mut log,
        4,
    );
    assert_eq!(
        log,
        vec![
            "process leaf:/top/<0>",
            "process leaf:/top/.",
            "process leaf:/top/own"
        ]
    );
    match expanded {
        WidgetNode::Unit(WidgetUnitNode::GridBox(g)) => {
            assert_eq!(g.items.len(), 3);
            assert_eq!(g.items[0].layout.row, 2);
            assert_eq!(g.cols, 3);
            assert!(g.items.iter().all(|item| item.slot.as_component().is_none()));
        }
        _ => panic!("grid box expected"),
    }
    assert_eq!(pass.used_ids.len(), 3);
    assert_eq!(pass.new_states.len(), 3);
}

#[test]
fn hooks_run_in_order_and_collect() {
    let me = id("w", &["me"]);
    let mut sender = MessageSender::new();
    let mut signals = Vec::new();
    let mut staged = Vec::new();
    let mut changes = Vec::new();
    let mut log = Log::new();
    run_hooks(
        &vec![Kind::Hook, Kind::Hook, Kind::Hook],
        &me,
        &Props::new(),
        &Props::new(),
        &Props::new(),
        &vec![marked("m")],
        &AnimatorStates::empty(),
        &mut sender,
        &mut signals,
        &mut staged,
        &mut changes,
        &mut log,
    );
    assert_eq!(log.len(), 3);
    assert_eq!(signals.len(), 3);
    assert_eq!(staged.len(), 3);
    assert_eq!(changes.len(), 3);
    assert_eq!(sender.unwrap().len(), 3);
    let mut untouched = MessageSender::new();
    run_hooks(
        &Vec::<Kind>::new(),
        &me,
        &Props::new(),
        &Props::new(),
        &Props::new(),
        &vec![],
        &AnimatorStates::empty(),
        &mut untouched,
        &mut signals,
        &mut staged,
        &mut changes,
        &mut log,
    );
    assert_eq!(log.len(), 3);
    assert!(untouched.unwrap().is_empty());
}

#[test]
fn leaving_widgets_run_their_hooks_and_lose_their_entries() {
    let gone = id("w", &["gone"]);
    let stays = id("w", &["stays"]);
    let quiet = id("w", &["quiet"]);
    let mut removed = WidgetStore::new();
    removed.insert(gone.clone(), marked("last"));
    removed.insert(quiet.clone(), Props::new());
    let mut hooks: WidgetStore<Vec<Kind>> = WidgetStore::new();
    hooks.insert(gone.clone(), vec![Kind::Hook, Kind::Hook]);
    hooks.insert(stays.clone(), vec![Kind::Hook]);
    let mut animators = WidgetStore::new();
    animators.insert(
        gone.clone(),
        AnimatorStates::new("a".to_owned(), Animation { duration: 9 }),
    );
    animators.insert(stays.clone(), AnimatorStates::empty());
    let mut sender = MessageSender::new();
    let mut signals = Vec::new();
    let mut log = Log::new();
    unmount_widgets(
        removed,
        &mut hooks,
        &mut animators,
        &mut sender,
        &mut signals,
        &mut log,
    );
    assert_eq!(log, vec!["unmount w:/gone", "unmount w:/gone"]);
    assert!(!hooks.contains_key(&gone) && hooks.contains_key(&stays));
    assert!(!animators.contains_key(&gone) && animators.contains_key(&stays));
    assert_eq!(signals.len(), 2);
    assert!(signals.iter().all(|s| s.0 == gone && s.1.has("bye")));
    assert_eq!(sender.unwrap().len(), 2);

    let mut sender = MessageSender::new();
    run_unmount_hooks(
        &vec![Kind::Hook],
        &stays,
        &Props::new(),
        &mut sender,
        &mut signals,
        &mut log,
    );
    assert_eq!(log.last().unwrap(), "unmount w:/stays");
    assert_eq!(signals.len(), 3);
}

#[test]
fn hook_context_holds_copies_and_nothing_sent() {
    let me = id("w", &["me"]);
    let animator = AnimatorStates::new("spin".to_owned(), Animation { duration: 3 });
    let context = hook_context(
        &me,
        &marked("own"),
        &marked("shared"),
        &marked("state"),
        &vec![marked("m1"), marked("m2")],
        &animator,
    );
    assert!(context.id == me);
    assert!(context.props.has("own"));
    assert!(context.shared_props.has("shared"));
    assert!(context.state.read().has("state"));
    assert_eq!(context.messenger.messages().len(), 2);
    assert!(context.messenger.messages()[1].has("m2"));
    assert!(context.animator.get("spin").is_some());
    assert!(context.state.unwrap().is_none());
    assert!(context.messenger.unwrap().is_empty());
    assert!(context.signals.unwrap().is_empty());
    assert!(context.animator.unwrap().is_empty());
}

#[test]
fn absorbing_what_a_hook_left() {
    let me = id("w", &["me"]);
    let other = id("w", &["other"]);
    let mut context = hook_context(
        &other,
        &Props::new(),
        &Props::new(),
        &Props::new(),
        &vec![],
        &AnimatorStates::empty(),
    );
    context.state.write(marked("first"));
    context.state.write(marked("second"));
    context.messenger.write(other.clone(), marked("letter"));
    context.signals.write(marked("s1"));
    context.signals.write(marked("s2"));
    context.animator.change("a".to_owned(), None);
    let mut sender = MessageSender::new();
    sender.write(me.clone(), marked("earlier"));
    let mut signals = vec![(other.clone(), marked("s0"))];
    let mut staged = vec![marked("zero")];
    let mut changes = vec![("b".to_owned(), Some(Animation { duration: 1 }))];
    absorb_hook(context, &me, &mut sender, &mut signals, &mut staged, &mut changes);
    let sent = sender.unwrap();
    assert_eq!(sent.len(), 2);
    assert!(sent[0].1.has("earlier"));
    assert!(sent[1].0 == other && sent[1].1.has("letter"));
    assert_eq!(signals.len(), 3);
    assert!(signals[0].0 == other && signals[0].1.has("s0"));
    assert!(signals[1].0 == me && signals[1].1.has("s1"));
    assert!(signals[2].0 == me && signals[2].1.has("s2"));
    assert_eq!(staged.len(), 2);
    assert!(staged[0].has("zero") && staged[1].has("second"));
    assert_eq!(changes.len(), 2);
    assert_eq!(changes[1], ("a".to_owned(), None));

    let quiet = hook_context(
        &me,
        &Props::new(),
        &Props::new(),
        &Props::new(),
        &vec![],
        &AnimatorStates::empty(),
    );
    let mut sender = MessageSender::new();
    absorb_hook(quiet, &me, &mut sender, &mut signals, &mut staged, &mut changes);
    assert!(sender.unwrap().is_empty());
    assert_eq!((signals.len(), staged.len(), changes.len()), (3, 2, 2));
}

#[test]
fn unmount_context_and_what_its_hook_left() {
    let me = id("w", &["me"]);
    let mut context = unmount_context(&me, &marked("last"));
    assert!(context.id == me);
    assert!(context.state.has("last"));
    context.messenger.write(me.clone(), marked("bye"));
    context.signals.write(marked("gone"));
    let mut sender = MessageSender::new();
    let mut signals = Vec::new();
    absorb_unmount(context, &me, &mut sender, &mut signals);
    let sent = sender.unwrap();
    assert_eq!(sent.len(), 1);
    assert!(sent[0].0 == me && sent[0].1.has("bye"));
    assert_eq!(signals.len(), 1);
    assert!(signals[0].0 == me && signals[0].1.has("gone"));
    let untouched = unmount_context(&me, &Props::new());
    assert!(untouched.messenger.unwrap().is_empty());
    assert!(untouched.signals.unwrap().is_empty());
}

#[test]
fn every_composite_that_is_met_is_marked() {
    let states = WidgetStore::new();
    let mut pass = empty_pass();
    let mut log = Log::new();
    let tree = WidgetNode::Unit(WidgetUnitNode::AreaBox(AreaBoxNode {
        id: id("area", &["a"]),
        slot: Box::new(WidgetNode::Unit(WidgetUnitNode::GridBox(GridBoxNode {
            id: id("grid", &["g"]),
            props: Props::new(),
            items: vec![
                GridBoxItemNode {
                    slot: WidgetNode::Component(widget(Kind::Leaf, "leaf", None)),
                    layout: GridBoxItemLayout::default(),
                },
                GridBoxItemNode {
                    slot: WidgetNode::Tuple(vec![WidgetNode::Component(widget(
                        Kind::Leaf,
                        "hidden",
                        None,
                    ))]),
                    layout: GridBoxItemLayout::default(),
                },
                GridBoxItemNode {
                    slot: WidgetNode::Component(widget(Kind::Leaf, "leaf", Some("k"))),
                    layout: GridBoxItemLayout::default(),
                },
            ],
            cols: 1,
            rows: 3,
        }))),
    }));
    process_node(
        tree.duplicate(),
        &states,
        vec!["up".to_owned()],
        &mut pass,
        "<*>".to_owned(),
        None,
        &mut log,
        2,
    );
    assert_eq!(pass.used_ids.len(), 2);
    assert!(pass.used_ids.contains_key(&id("leaf", &["up", "<0>"])));
    assert!(pass.used_ids.contains_key(&id("leaf", &["up", "k"])));

    let mut idle = empty_pass();
    let mut quiet = Log::new();
    let same = process_node(
        tree,
        &states,
        vec!["up".to_owned()],
        &mut idle,
        "<*>".to_owned(),
        None,
        &mut quiet,
        0,
    );
    assert!(quiet.is_empty());
    assert!(idle.used_ids.is_empty());
    match same {
        WidgetNode::Unit(WidgetUnitNode::AreaBox(a)) => match *a.slot {
            WidgetNode::Unit(WidgetUnitNode::GridBox(g)) => {
                assert!(g.items[0].slot.as_component().is_some());
                assert!(g.items[2].slot.as_component().is_some());
            }
            _ => panic!("grid box expected"),
        },
        _ => panic!("area box expected"),
    }
}

#[test]
fn mounted_widgets_run_mount_hooks_and_known_widgets_run_change_hooks() {
    assert_eq!(
        hooks_to_run(true, vec![Kind::Hook, Kind::Noisy], vec![Kind::Leaf]),
        vec![Kind::Hook, Kind::Noisy]
    );
    assert_eq!(
        hooks_to_run(false, vec![Kind::Hook, Kind::Noisy], vec![Kind::Leaf]),
        vec![Kind::Leaf]
    );
    assert_eq!(hooks_to_run(true, vec![], vec![Kind::Leaf]), vec![]);
    assert_eq!(hooks_to_run(false, vec![Kind::Hook], vec![]), vec![]);
}

#[test]
fn hooks_for_leaving_replace_those_kept_before() {
    let a = id("w", &["a"]);
    let b = id("w", &["b"]);
    let mut kept: WidgetStore<Vec<Kind>> = WidgetStore::new();
    keep_unmount_hooks(&mut kept, &a, vec![]);
    assert!(kept.is_empty());
    keep_unmount_hooks(&mut kept, &a, vec![Kind::Hook, Kind::Leaf]);
    assert_eq!(kept.get(&a).unwrap(), &vec![Kind::Hook, Kind::Leaf]);
    keep_unmount_hooks(&mut kept, &a, vec![]);
    assert_eq!(kept.get(&a).unwrap(), &vec![Kind::Hook, Kind::Leaf]);
    keep_unmount_hooks(&mut kept, &a, vec![Kind::Noisy]);
    assert_eq!(kept.get(&a).unwrap(), &vec![Kind::Noisy]);
    keep_unmount_hooks(&mut kept, &b, vec![Kind::Leaf]);
    assert_eq!(kept.len(), 2);
    assert_eq!(kept.get(&a).unwrap(), &vec![Kind::Noisy]);
}

fn left_by_a_processor(
    me: &WidgetId,
    hooks: (Vec<Kind>, Vec<Kind>, Vec<Kind>),
    state: Option<Props>,
    shared: Props,
) -> WidgetContext<Kind> {
    let mut life_cycle = WidgetLifeCycle::new();
    for hook in hooks.0 {
        life_cycle.mount(hook);
    }
    for hook in hooks.1 {
        life_cycle.change(hook);
    }
    for hook in hooks.2 {
        life_cycle.unmount(hook);
    }
    let mut left = State::new(Props::new());
    if let Some(state) = state {
        left.write(state);
    }
    WidgetContext {
        id: me.clone(),
        idref: None,
        key: "k".to_owned(),
        props: marked("own"),
        shared_props: shared,
        state: left,
        animator: AnimatorStates::empty(),
        life_cycle,
        named_slots: vec![],
        listed_slots: vec![],
    }
}

fn opened(me: &WidgetId, mounted: bool) -> OpenedComponent {
    OpenedComponent {
        id: me.clone(),
        path: vec!["k".to_owned()],
        mounted,
        state: Props::new(),
        messages: vec![marked("waiting")],
        animator: AnimatorStates::empty(),
    }
}

#[test]
fn settling_a_mounted_component() {
    let me = id("w", &["k"]);
    let states = WidgetStore::new();
    let mut pass = empty_pass();
    let mut log = Log::new();
    let made = WidgetNode::Unit(WidgetUnitNode::AreaBox(AreaBoxNode {
        id: me.clone(),
        slot: Box::new(WidgetNode::Component(widget(Kind::Leaf, "leaf", None))),
    }));
    let context = left_by_a_processor(
        &me,
        (vec![Kind::Hook], vec![Kind::Hook, Kind::Hook], vec![Kind::Leaf, Kind::Hook]),
        Some(marked("from processor")),
        Props::new(),
    );
    let expanded = settle_component(
        made,
        context,
        opened(&me, true),
        &states,
        &mut pass,
        "<*>".to_owned(),
        &mut log,
        2,
    );
    let inner = id("leaf", &["k", "."]);
    assert_eq!(
        log,
        vec!["hook w:/k with 1 messages", "process leaf:/k/."]
    );
    match expanded {
        WidgetNode::Unit(WidgetUnitNode::AreaBox(area)) => match *area.slot {
            WidgetNode::Unit(WidgetUnitNode::TextBox(text)) => {
                assert!(text.id == inner);
                assert_eq!(text.text, ".");
            }
            _ => panic!("the slot was not expanded"),
        },
        _ => panic!("the frame was lost"),
    }
    assert!(pass.used_ids.contains_key(&me));
    assert!(pass.used_ids.contains_key(&inner));
    assert_eq!(pass.used_ids.len(), 2);
    assert!(pass.new_states.get(&me).unwrap().is_empty());
    assert!(pass.new_states.contains_key(&inner));
    assert_eq!(
        pass.unmount_closures.get(&me).unwrap(),
        &vec![Kind::Leaf, Kind::Hook]
    );
    assert!(!pass.unmount_closures.contains_key(&inner));
    assert!(pass.state_changes.get(&me).unwrap().has("from hook"));
    assert_eq!(pass.signals.len(), 1);
    assert!(pass.signals[0].0 == me);
}

#[test]
fn settling_a_known_component_without_hooks_stages_what_the_processor_left() {
    let me = id("w", &["k"]);
    let mut states = WidgetStore::new();
    states.insert(me.clone(), marked("now"));
    let mut pass = empty_pass();
    pass.unmount_closures.insert(me.clone(), vec![Kind::Noisy]);
    let mut log = Log::new();
    let context = left_by_a_processor(
        &me,
        (vec![Kind::Hook], vec![], vec![]),
        Some(marked("from processor")),
        Props::new(),
    );
    let made = WidgetNode::Unit(WidgetUnitNode::TextBox(TextBoxNode {
        id: me.clone(),
        props: Props::new(),
        text: "done".to_owned(),
    }));
    let expanded = settle_component(
        made,
        context,
        opened(&me, false),
        &states,
        &mut pass,
        "<*>".to_owned(),
        &mut log,
        0,
    );
    assert!(log.is_empty());
    match expanded {
        WidgetNode::Unit(WidgetUnitNode::TextBox(text)) => assert_eq!(text.text, "done"),
        _ => panic!("the node was changed"),
    }
    assert!(pass.used_ids.contains_key(&me));
    assert!(pass.new_states.is_empty());
    assert_eq!(pass.unmount_closures.get(&me).unwrap(), &vec![Kind::Noisy]);
    let staged = pass.state_changes.get(&me).unwrap();
    assert!(staged.has("from processor"));
    assert_eq!(staged.len(), 1);
    assert!(pass.signals.is_empty());
}

#[test]
fn settling_hands_the_shared_properties_down() {
    let me = id("w", &["k"]);
    let states = WidgetStore::new();
    let mut pass = empty_pass();
    let mut log = Log::new();
    let mut child = widget(Kind::Heir, "heir", Some("c"));
    child.shared_props = Some(marked("own shared"));
    let context = left_by_a_processor(&me, (vec![], vec![], vec![]), None, marked("from above"));
    settle_component(
        WidgetNode::Component(child),
        context,
        opened(&me, true),
        &states,
        &mut pass,
        "<*>".to_owned(),
        &mut log,
        1,
    );
    assert_eq!(
        log,
        vec!["process heir:/k/c", "inherited above=true own=true"]
    );
    assert!(pass.used_ids.contains_key(&id("heir", &["k", "c"])));
    assert!(pass.state_changes.is_empty());
    assert!(pass.unmount_closures.is_empty());
}

fn with_place(kind: Kind, type_tag: &str, key: Option<&str>) -> WidgetNode<Kind> {
    let mut c = widget(kind, type_tag, key);
    c.idref = Some(WidgetRef::new());
    WidgetNode::Component(c)
}

fn written_in(node: &WidgetNode<Kind>) -> Option<String> {
    let place = node.as_component().unwrap().idref.as_ref().unwrap();
    place.read().map(|id| id.to_string())
}

#[test]
fn identities_are_written_where_the_walk_meets_a_widget() {
    let path = vec!["up".to_owned()];
    let keyed = write_identities(with_place(Kind::Leaf, "leaf", Some("k")), &path, &"<*>".to_owned());
    assert_eq!(written_in(&keyed).as_deref(), Some("leaf:/up/k"));
    let unkeyed = write_identities(with_place(Kind::Leaf, "leaf", None), &path, &"<3>".to_owned());
    assert_eq!(written_in(&unkeyed).as_deref(), Some("leaf:/up/<3>"));
    let at_root = write_identities(with_place(Kind::Leaf, "leaf", None), &vec![], &"<*>".to_owned());
    assert_eq!(written_in(&at_root).as_deref(), Some("leaf:/<*>"));

    let without = write_identities(
        WidgetNode::Component(widget(Kind::Leaf, "leaf", Some("k"))),
        &path,
        &"<*>".to_owned(),
    );
    assert!(without.as_component().unwrap().idref.is_none());
    assert!(write_identities(WidgetNode::<Kind>::Empty, &path, &"<*>".to_owned()).is_none());

    let group = write_identities(
        WidgetNode::Tuple(vec![with_place(Kind::Leaf, "leaf", Some("k"))]),
        &path,
        &"<*>".to_owned(),
    );
    match group {
        WidgetNode::Tuple(members) => assert_eq!(written_in(&members[0]), None),
        _ => panic!("group expected"),
    }
}

#[test]
fn identities_are_written_in_the_slots_of_primitives() {
    let path = vec!["up".to_owned()];
    let area = write_unit_identities(
        WidgetUnitNode::AreaBox(AreaBoxNode {
            id: id("area", &["a"]),
            slot: Box::new(with_place(Kind::Leaf, "leaf", None)),
        }),
        &path,
    );
    match area {
        WidgetUnitNode::AreaBox(b) => {
            assert_eq!(written_in(&b.slot).as_deref(), Some("leaf:/up/."))
        }
        _ => panic!("area box expected"),
    }
    let grid = write_unit_identities(
        WidgetUnitNode::GridBox(GridBoxNode {
            id: id("grid", &["g"]),
            props: Props::new(),
            items: vec![
                GridBoxItemNode {
                    slot: with_place(Kind::Leaf, "leaf", None),
                    layout: GridBoxItemLayout::default(),
                },
                GridBoxItemNode {
                    slot: with_place(Kind::Leaf, "leaf", Some("named")),
                    layout: GridBoxItemLayout::default(),
                },
            ],
            cols: 2,
            rows: 1,
        }),
        &path,
    );
    match grid {
        WidgetUnitNode::GridBox(b) => {
            assert_eq!(b.items.len(), 2);
            assert_eq!(written_in(&b.items[0].slot).as_deref(), Some("leaf:/up/<0>"));
            assert_eq!(written_in(&b.items[1].slot).as_deref(), Some("leaf:/up/named"));
            assert_eq!(b.cols, 2);
        }
        _ => panic!("grid box expected"),
    }
}

#[test]
fn the_collections_of_a_walk_can_be_checked() {
    let (a, b, c) = (id("w", &["a"]), id("w", &["b"]), id("w", &["c"]));
    let mut states = WidgetStore::new();
    states.insert(a.clone(), marked("now"));
    let mut pass = empty_pass();
    assert!(pass.holds(&states));

    pass.unmount_closures.insert(a.clone(), vec![Kind::Hook]);
    pass.animators.insert(a.clone(), AnimatorStates::empty());
    pass.messages.insert(b.clone(), vec![marked("waiting")]);
    assert!(pass.holds(&states));

    book_component(&mut pass, &a, false);
    book_component(&mut pass, &c, true);
    pass.state_changes.insert(c.clone(), marked("next"));
    pass.signals.push((c.clone(), marked("signal")));
    assert!(pass.holds(&states));

    let mut hooks_of_nobody = empty_pass();
    hooks_of_nobody.unmount_closures.insert(b.clone(), vec![Kind::Hook]);
    assert!(!hooks_of_nobody.holds(&states));
    assert!(!hooks_of_nobody.holds(&WidgetStore::new()));

    let mut animations_of_nobody = empty_pass();
    animations_of_nobody.animators.insert(b.clone(), AnimatorStates::empty());
    assert!(!animations_of_nobody.holds(&states));

    let mut used_without_state = empty_pass();
    used_without_state.used_ids.insert(b.clone(), ());
    assert!(!used_without_state.holds(&states));

    let mut mounted_twice = empty_pass();
    mounted_twice.used_ids.insert(a.clone(), ());
    mounted_twice.new_states.insert(a.clone(), Props::new());
    assert!(!mounted_twice.holds(&states));

    let mut mounted_but_not_used = empty_pass();
    mounted_but_not_used.new_states.insert(b.clone(), Props::new());
    assert!(!mounted_but_not_used.holds(&states));

    let mut first_state_not_empty = empty_pass();
    first_state_not_empty.used_ids.insert(b.clone(), ());
    first_state_not_empty.new_states.insert(b.clone(), marked("early"));
    assert!(!first_state_not_empty.holds(&states));

    let mut message_for_a_used_widget = empty_pass();
    message_for_a_used_widget.used_ids.insert(a.clone(), ());
    message_for_a_used_widget.messages.insert(a.clone(), vec![]);
    assert!(!message_for_a_used_widget.holds(&states));

    let mut staged_for_an_unused_widget = empty_pass();
    staged_for_an_unused_widget.state_changes.insert(a.clone(), marked("next"));
    assert!(!staged_for_an_unused_widget.holds(&states));

    let mut signal_of_an_unused_widget = empty_pass();
    signal_of_an_unused_widget.signals.push((a.clone(), marked("signal")));
    assert!(!signal_of_an_unused_widget.holds(&states));
}

#[test]
fn first_states_and_signals_can_be_checked() {
    let (a, b) = (id("w", &["a"]), id("w", &["b"]));
    let mut states = WidgetStore::new();
    assert!(first_states_empty(&states));
    states.insert(a.clone(), Props::new());
    assert!(first_states_empty(&states));
    states.insert(b.clone(), marked("set"));
    assert!(!first_states_empty(&states));

    let mut used = WidgetStore::new();
    used.insert(a.clone(), ());
    assert!(signals_from(&vec![], &used));
    assert!(signals_from(&vec![(a.clone(), Props::new())], &used));
    assert!(!signals_from(
        &vec![(a.clone(), Props::new()), (b.clone(), Props::new())],
        &used
    ));
}
