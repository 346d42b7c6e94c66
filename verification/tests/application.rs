use raui_core::animator::Animation;
use raui_core::application::{Application, InvalidationCause, DEFAULT_EXPANSION_LIMIT};
use raui_core::animator::AnimatorStates;
use raui_core::props::{Props, PropsValue};
use raui_core::reconcile::{make_root_key, process_node, Reconciliation};
use raui_core::store::WidgetStore;
use raui_core::widget::component::WidgetComponent;
use raui_core::widget::context::{WidgetContext, WidgetMountOrChangeContext, WidgetUnmountContext};
use raui_core::widget::node::WidgetNode;
use raui_core::widget::unit::content::{ContentBoxItemLayout, ContentBoxItemNode, ContentBoxNode};
use raui_core::widget::unit::portal::{PortalBoxNode, PortalBoxSlotNode};
use raui_core::widget::unit::size::{SizeBoxNode, SizeBoxSizeValue};
use raui_core::widget::unit::text::TextBoxNode;
use raui_core::widget::unit::{WidgetUnit, WidgetUnitNode};
use raui_core::widget::utils::Rect;
use raui_core::widget::{WidgetId, WidgetProcessor, WidgetRef};

/// Every processor and hook of the test interface.
#[derive(Debug, Clone, Copy, PartialEq, Eq)]
enum Ui {
    ContentBox,
    Counter,
    CounterMounted,
    CounterChanged,
    CounterUnmounted,
    Wrapper,
    Forever,
    Shared,
    Pulse,
    PulseMounted,
    Echo,
    EchoChanged,
    Tooltip,
}

/// What the host keeps track of during a pass.
#[derive(Debug, Default)]
struct Host {
    log: Vec<String>,
    seen_shared: Vec<(String, Option<i64>, Option<i64>)>,
}

fn integer(props: &Props, name: &str) -> Option<i64> {
    props.read(name).and_then(|value| value.as_integer())
}

fn text_node(id: &WidgetId, text: &str) -> WidgetNode<Ui> {
    WidgetNode::Unit(WidgetUnitNode::TextBox(TextBoxNode {
        id: id.clone(),
        props: Props::new(),
        text: text.to_owned(),
    }))
}

impl WidgetProcessor<Host> for Ui {
    fn process(&self, context: &mut WidgetContext<Ui>, host: &mut Host) -> WidgetNode<Ui> {
        host.log.push(format!("process {}", context.id.as_str()));
        match self {
            Ui::ContentBox => {
                let items = std::mem::take(&mut context.listed_slots)
                    .into_iter()
                    .map(|slot| ContentBoxItemNode {
                        slot,
                        layout: ContentBoxItemLayout::default(),
                    })
                    .collect();
                WidgetNode::Unit(WidgetUnitNode::ContentBox(ContentBoxNode {
                    id: context.id.clone(),
                    props: context.props.clone(),
                    items,
                    clipping: false,
                }))
            }
            Ui::Counter => {
                context.life_cycle.mount(Ui::CounterMounted);
                context.life_cycle.change(Ui::CounterChanged);
                context.life_cycle.unmount(Ui::CounterUnmounted);
                let count = integer(context.state.read(), "count").unwrap_or(0);
                text_node(&context.id, &count.to_string())
            }
            Ui::Wrapper => {
                let mut inner = WidgetComponent::new(Ui::Counter, "counter".to_owned());
                inner.shared_props = Some(
                    Props::new().with("x".to_owned(), PropsValue::Integer(2)),
                );
                WidgetNode::Component(inner)
            }
            Ui::Forever => WidgetNode::Component(WidgetComponent::new(
                Ui::Forever,
                "forever".to_owned(),
            )),
            Ui::Shared => {
                host.seen_shared.push((
                    context.id.to_string(),
                    integer(&context.shared_props, "x"),
                    integer(&context.shared_props, "y"),
                ));
                let mut slots = std::mem::take(&mut context.listed_slots);
                match slots.pop() {
                    Some(slot) => slot,
                    None => text_node(&context.id, "leaf"),
                }
            }
            Ui::Pulse => {
                context.life_cycle.mount(Ui::PulseMounted);
                let running = context.animator.in_progress();
                text_node(&context.id, if running { "running" } else { "still" })
            }
            Ui::Echo => {
                context.life_cycle.change(Ui::EchoChanged);
                let heard = integer(context.state.read(), "heard").unwrap_or(0);
                text_node(&context.id, &heard.to_string())
            }
            Ui::Tooltip => {
                let owner = WidgetId::new("content_box".to_owned(), vec!["root".to_owned()]);
                WidgetNode::Unit(WidgetUnitNode::PortalBox(PortalBoxNode {
                    id: context.id.clone(),
                    slot: Box::new(PortalBoxSlotNode::Slot(text_node(&context.id, "tip"))),
                    owner,
                }))
            }
            _ => WidgetNode::Empty,
        }
    }

    fn mount_or_change(&self, context: &mut WidgetMountOrChangeContext, host: &mut Host) {
        match self {
            Ui::CounterMounted => {
                host.log.push(format!("mount {}", context.id.as_str()));
                context.state.write(
                    Props::new().with("count".to_owned(), PropsValue::Integer(0)),
                );
                context
                    .signals
                    .write(Props::new().with("mounted".to_owned(), PropsValue::Flag(true)));
            }
            Ui::CounterChanged => {
                host.log.push(format!("change {}", context.id.as_str()));
            }
            Ui::PulseMounted => {
                context
                    .animator
                    .change("pulse".to_owned(), Some(Animation { duration: 3 }));
            }
            Ui::EchoChanged => {
                let heard = context.messenger.messages().len() as i64;
                if heard > 0 {
                    let before = integer(context.state.read(), "heard").unwrap_or(0);
                    context.state.write(
                        Props::new().with("heard".to_owned(), PropsValue::Integer(before + heard)),
                    );
                    let other = WidgetId::new("nobody".to_owned(), vec!["home".to_owned()]);
                    context.messenger.write(other, Props::new());
                }
            }
            _ => {}
        }
    }

    fn unmount(&self, context: &mut WidgetUnmountContext, host: &mut Host) {
        if let Ui::CounterUnmounted = self {
            let count = integer(&context.state, "count").unwrap_or(-1);
            host.log
                .push(format!("unmount {} at {}", context.id.as_str(), count));
            context
                .signals
                .write(Props::new().with("gone".to_owned(), PropsValue::Flag(true)));
        }
    }
}

fn component(processor: Ui, type_tag: &str, key: Option<&str>) -> WidgetComponent<Ui> {
    let mut component = WidgetComponent::new(processor, type_tag.to_owned());
    component.key = key.map(|key| key.to_owned());
    component
}

fn root_with(children: Vec<WidgetNode<Ui>>) -> WidgetNode<Ui> {
    let mut root = component(Ui::ContentBox, "content_box", Some("root"));
    root.listed_slots = children;
    WidgetNode::Component(root)
}

fn plain_text(key: &str, text: &str) -> WidgetNode<Ui> {
    text_node(
        &WidgetId::new("text".to_owned(), vec![key.to_owned()]),
        text,
    )
}

fn counter_tree() -> WidgetNode<Ui> {
    root_with(vec![
        plain_text("label", "label"),
        WidgetNode::Component(component(Ui::Counter, "counter", None)),
    ])
}

fn root_items(tree: &WidgetUnit) -> Vec<String> {
    match tree {
        WidgetUnit::ContentBox(b) => b
            .items
            .iter()
            .map(|item| match &item.slot {
                WidgetUnit::TextBox(t) => format!("{}={}", t.id.as_str(), t.text),
                WidgetUnit::Empty => "empty".to_owned(),
                _ => "other".to_owned(),
            })
            .collect(),
        _ => panic!("content box expected"),
    }
}

fn mounts(host: &Host) -> usize {
    host.log.iter().filter(|line| line.starts_with("mount ")).count()
}

fn unmounts(host: &Host) -> usize {
    host.log
        .iter()
        .filter(|line| line.starts_with("unmount "))
        .count()
}

#[test]
fn counter_scenario() {
    let mut app: Application<Ui> = Application::new();
    let mut host = Host::default();
    app.apply(counter_tree());
    assert!(app.process_with_context(&mut host));
    let counter = WidgetId::new(
        "counter".to_owned(),
        vec!["root".to_owned(), "<1>".to_owned()],
    );
    assert_eq!(counter.to_string(), "counter:/root/<1>");
    assert!(app.state_read(&counter).unwrap().is_empty());
    assert_eq!(
        root_items(app.rendered_tree()),
        vec!["text:/label=label", "counter:/root/<1>=0"]
    );
    let root_before = app.rendered_tree().id().unwrap().to_string();
    assert_eq!(root_before, "content_box:/root");
    assert_eq!(mounts(&host), 1);

    app.state_write(
        &counter,
        Props::new().with("count".to_owned(), PropsValue::Integer(1)),
    );
    assert!(app.process_with_context(&mut host));
    assert_eq!(
        root_items(app.rendered_tree()),
        vec!["text:/label=label", "counter:/root/<1>=1"]
    );
    assert_eq!(app.rendered_tree().id().unwrap().to_string(), root_before);
    assert_eq!(
        integer(app.state_read(&counter).unwrap(), "count"),
        Some(1)
    );
    assert_eq!(mounts(&host), 1);
    assert!(matches!(
        app.last_invalidation_cause(),
        InvalidationCause::StateChange(id) if *id == counter
    ));
}

#[test]
fn identities_are_stable_and_nothing_mounts_twice() {
    let mut app: Application<Ui> = Application::new();
    let mut host = Host::default();
    app.apply(counter_tree());
    assert!(app.forced_process_with_context(&mut host));
    let first: Vec<String> = host.log.drain(..).collect();
    let first_items = root_items(app.rendered_tree());
    assert!(app.forced_process_with_context(&mut host));
    let second: Vec<String> = host.log.drain(..).collect();
    assert_eq!(
        first,
        vec![
            "process content_box:/root",
            "process counter:/root/<1>",
            "mount counter:/root/<1>"
        ]
    );
    assert_eq!(
        second,
        vec![
            "process content_box:/root",
            "process counter:/root/<1>",
            "change counter:/root/<1>"
        ]
    );
    assert_eq!(root_items(app.rendered_tree()), first_items);
    assert!(matches!(
        app.last_invalidation_cause(),
        InvalidationCause::Forced
    ));
}

#[test]
fn a_widget_that_leaves_is_pruned_and_unmounted_once() {
    let mut app: Application<Ui> = Application::new();
    let mut host = Host::default();
    let keyed = WidgetId::new("counter".to_owned(), vec!["root".to_owned(), "a".to_owned()]);
    app.apply(root_with(vec![WidgetNode::Component(component(
        Ui::Counter,
        "counter",
        Some("a"),
    ))]));
    assert!(app.process_with_context(&mut host));
    assert!(app.state_read(&keyed).is_some());
    assert!(app.process_with_context(&mut host));
    assert_eq!(integer(app.state_read(&keyed).unwrap(), "count"), Some(0));
    assert_eq!(unmounts(&host), 0);

    app.apply(root_with(vec![plain_text("label", "label")]));
    assert!(app.process_with_context(&mut host));
    assert!(app.state_read(&keyed).is_none());
    assert_eq!(unmounts(&host), 1);
    assert_eq!(
        host.log.last().unwrap(),
        "unmount counter:/root/a at 0"
    );
    let signals = app.consume_signals();
    assert_eq!(signals.len(), 1);
    assert!(signals[0].0 == keyed);
    assert!(signals[0].1.has("gone"));
    assert!(app.signals().is_empty());

    assert!(app.forced_process_with_context(&mut host));
    assert!(app.forced_process_with_context(&mut host));
    assert_eq!(unmounts(&host), 1);
    assert_eq!(mounts(&host), 1);

    app.apply(root_with(vec![WidgetNode::Component(component(
        Ui::Counter,
        "counter",
        Some("a"),
    ))]));
    assert!(app.process_with_context(&mut host));
    assert_eq!(mounts(&host), 2);
    assert!(app.state_read(&keyed).unwrap().is_empty());
}

#[test]
fn processing_without_a_reason_does_nothing() {
    let mut app: Application<Ui> = Application::new();
    let mut host = Host::default();
    assert!(app.is_dirty());
    app.apply(root_with(vec![plain_text("label", "label")]));
    assert!(app.process_with_context(&mut host));
    assert!(app.does_render_changed());
    assert!(!app.is_dirty());
    let runs = host.log.len();
    for _ in 0..3 {
        assert!(!app.process_with_context(&mut host));
        assert!(!app.does_render_changed());
        assert!(matches!(
            app.last_invalidation_cause(),
            InvalidationCause::NotInvalidated
        ));
    }
    assert_eq!(host.log.len(), runs);
    assert_eq!(root_items(app.rendered_tree()), vec!["text:/label=label"]);
    app.mark_dirty();
    assert!(app.is_dirty());
    assert!(app.process_with_context(&mut host));
    assert!(matches!(
        app.last_invalidation_cause(),
        InvalidationCause::Forced
    ));
    assert!(!app.process_with_context(&mut host));
}

#[test]
fn change_notifier_asks_for_a_pass() {
    let mut app: Application<Ui> = Application::new();
    let mut host = Host::default();
    app.apply(root_with(vec![]));
    assert!(app.process_with_context(&mut host));
    assert!(!app.process_with_context(&mut host));
    let mut notifier = app.change_notifier();
    assert!(!notifier.has_changed());
    notifier.change();
    assert!(notifier.has_changed());
    assert!(app.change_notifier().has_changed());
    assert!(app.process_with_context(&mut host));
    assert!(matches!(
        app.last_invalidation_cause(),
        InvalidationCause::Forced
    ));
    assert!(!notifier.has_changed());
    assert!(!notifier.consume_change());
    notifier.change();
    assert!(notifier.consume_change());
    assert!(!app.process_with_context(&mut host));
}

#[test]
fn shared_props_of_a_child_override_those_from_above() {
    let mut app: Application<Ui> = Application::new();
    let mut host = Host::default();
    let mut leaf = component(Ui::Shared, "shared", Some("leaf"));
    leaf.shared_props = None;
    let mut child = component(Ui::Shared, "shared", Some("child"));
    child.shared_props = Some(Props::new().with("x".to_owned(), PropsValue::Integer(2)));
    child.listed_slots = vec![WidgetNode::Component(leaf)];
    let mut parent = component(Ui::Shared, "shared", Some("parent"));
    parent.shared_props = Some(
        Props::new()
            .with("x".to_owned(), PropsValue::Integer(1))
            .with("y".to_owned(), PropsValue::Integer(7)),
    );
    parent.listed_slots = vec![WidgetNode::Component(child)];
    app.apply(WidgetNode::Component(parent));
    assert!(app.process_with_context(&mut host));
    assert_eq!(
        host.seen_shared,
        vec![
            ("shared:/parent".to_owned(), Some(1), Some(7)),
            ("shared:/parent/child".to_owned(), Some(2), Some(7)),
            ("shared:/parent/child/leaf".to_owned(), Some(2), Some(7)),
        ]
    );
}

#[test]
fn unkeyed_expansion_takes_the_key_of_its_place() {
    let mut app: Application<Ui> = Application::new();
    let mut host = Host::default();
    app.apply(WidgetNode::Component(component(Ui::Wrapper, "wrapper", None)));
    assert!(app.process_with_context(&mut host));
    assert_eq!(
        host.log,
        vec![
            "process wrapper:/<*>",
            "process counter:/<*>/<*>",
            "mount counter:/<*>/<*>"
        ]
    );
    match app.rendered_tree() {
        WidgetUnit::TextBox(t) => assert_eq!(t.id.as_str(), "counter:/<*>/<*>"),
        _ => panic!("text box expected"),
    }
}

#[test]
fn single_slots_use_a_dot_as_key() {
    let mut app: Application<Ui> = Application::new();
    let mut host = Host::default();
    let size_id = WidgetId::new("size".to_owned(), vec!["s".to_owned()]);
    app.apply(WidgetNode::Unit(WidgetUnitNode::SizeBox(SizeBoxNode {
        id: size_id.clone(),
        props: Props::new(),
        slot: Box::new(WidgetNode::Component(component(Ui::Counter, "counter", None))),
        width: SizeBoxSizeValue::Fill,
        height: SizeBoxSizeValue::Exact(12),
        margin: Rect::default(),
    })));
    assert!(app.process_with_context(&mut host));
    match app.rendered_tree() {
        WidgetUnit::SizeBox(s) => {
            assert!(s.id == size_id);
            assert!(s.height == SizeBoxSizeValue::Exact(12));
            match &*s.slot {
                WidgetUnit::TextBox(t) => assert_eq!(t.id.as_str(), "counter:/."),
                _ => panic!("text box expected"),
            }
        }
        _ => panic!("size box expected"),
    }
}

#[test]
fn items_are_keyed_by_their_index() {
    let mut app: Application<Ui> = Application::new();
    let mut host = Host::default();
    let mut children = Vec::new();
    for _ in 0..12 {
        children.push(WidgetNode::Component(component(Ui::Counter, "counter", None)));
    }
    app.apply(root_with(children));
    assert!(app.process_with_context(&mut host));
    let items = root_items(app.rendered_tree());
    assert_eq!(items.len(), 12);
    assert_eq!(items[0], "counter:/root/<0>=0");
    assert_eq!(items[9], "counter:/root/<9>=0");
    assert_eq!(items[10], "counter:/root/<10>=0");
    assert_eq!(items[11], "counter:/root/<11>=0");
}

#[test]
fn endless_expansion_keeps_the_previous_tree() {
    let mut app: Application<Ui> = Application::new();
    let mut host = Host::default();
    assert_eq!(app.expansion_limit(), DEFAULT_EXPANSION_LIMIT);
    app.set_expansion_limit(5);
    app.apply(root_with(vec![plain_text("label", "label")]));
    assert!(app.process_with_context(&mut host));
    app.apply(WidgetNode::Component(component(Ui::Forever, "forever", Some("f"))));
    host.log.clear();
    assert!(!app.process_with_context(&mut host));
    assert!(!app.does_render_changed());
    assert_eq!(host.log.len(), 5);
    assert_eq!(root_items(app.rendered_tree()), vec!["text:/label=label"]);
    assert!(matches!(
        app.last_invalidation_cause(),
        InvalidationCause::Forced
    ));
}

#[test]
fn a_group_shows_nothing() {
    let mut app: Application<Ui> = Application::new();
    let mut host = Host::default();
    app.apply(root_with(vec![
        WidgetNode::pack_tuple(vec![
            WidgetNode::Component(component(Ui::Counter, "counter", None)),
            plain_text("in", "in"),
        ]),
        plain_text("out", "out"),
    ]));
    assert!(app.process_with_context(&mut host));
    assert_eq!(host.log, vec!["process content_box:/root"]);
    assert_eq!(
        root_items(app.rendered_tree()),
        vec!["empty", "text:/out=out"]
    );
}

#[test]
fn messages_wake_the_widget_and_are_handed_over_once() {
    let mut app: Application<Ui> = Application::new();
    let mut host = Host::default();
    let echo = WidgetId::new("echo".to_owned(), vec!["root".to_owned(), "e".to_owned()]);
    app.apply(root_with(vec![WidgetNode::Component(component(
        Ui::Echo,
        "echo",
        Some("e"),
    ))]));
    assert!(app.process_with_context(&mut host));
    assert!(!app.process_with_context(&mut host));
    app.send_message(&echo, Props::new());
    app.send_message_raw(&echo, Props::new());
    assert!(app.process_with_context(&mut host));
    assert!(matches!(
        app.last_invalidation_cause(),
        InvalidationCause::MessageReceived(id) if *id == echo
    ));
    assert_eq!(root_items(app.rendered_tree()), vec!["echo:/root/e=0"]);
    assert!(app.process_with_context(&mut host));
    assert_eq!(root_items(app.rendered_tree()), vec!["echo:/root/e=2"]);
    assert_eq!(integer(app.state_read(&echo).unwrap(), "heard"), Some(2));
}

#[test]
fn state_is_written_only_for_known_widgets() {
    let mut app: Application<Ui> = Application::new();
    let mut host = Host::default();
    app.apply(counter_tree());
    assert!(app.process_with_context(&mut host));
    assert!(app.process_with_context(&mut host));
    assert!(!app.process_with_context(&mut host));
    let stranger = WidgetId::new("counter".to_owned(), vec!["nowhere".to_owned()]);
    app.state_write(&stranger, Props::new());
    assert!(!app.process_with_context(&mut host));
    assert!(app.state_read(&stranger).is_none());
}

#[test]
fn running_animation_keeps_passes_going_until_it_ends() {
    let mut app: Application<Ui> = Application::new();
    let mut host = Host::default();
    let pulse = WidgetId::new("pulse".to_owned(), vec!["root".to_owned(), "p".to_owned()]);
    app.set_animations_delta_time(2);
    assert_eq!(app.animations_delta_time(), 2);
    app.apply(root_with(vec![WidgetNode::Component(component(
        Ui::Pulse,
        "pulse",
        Some("p"),
    ))]));
    assert!(app.process_with_context(&mut host));
    assert_eq!(root_items(app.rendered_tree()), vec!["pulse:/root/p=still"]);
    assert!(app.process_with_context(&mut host));
    assert!(matches!(
        app.last_invalidation_cause(),
        InvalidationCause::AnimationInProgress(id) if *id == pulse
    ));
    assert_eq!(
        root_items(app.rendered_tree()),
        vec!["pulse:/root/p=running"]
    );
    assert!(app.process_with_context(&mut host));
    assert_eq!(root_items(app.rendered_tree()), vec!["pulse:/root/p=still"]);
    assert!(!app.process_with_context(&mut host));
}

#[test]
fn portals_of_the_pass_are_teleported() {
    let mut app: Application<Ui> = Application::new();
    let mut host = Host::default();
    app.apply(root_with(vec![
        plain_text("label", "label"),
        WidgetNode::Component(component(Ui::Tooltip, "tooltip", Some("t"))),
    ]));
    assert!(app.process_with_context(&mut host));
    assert_eq!(
        root_items(app.rendered_tree()),
        vec!["text:/label=label", "empty", "tooltip:/root/t=tip"]
    );
}

#[test]
fn identity_is_written_into_the_widgets_place() {
    let mut app: Application<Ui> = Application::new();
    let mut host = Host::default();
    let mut keyed = component(Ui::Counter, "counter", Some("k"));
    keyed.idref = Some(WidgetRef::new());
    app.apply(WidgetNode::Component(keyed));
    assert!(!app.tree().as_component().unwrap().idref.as_ref().unwrap().is_written());
    assert!(app.process_with_context(&mut host));
    let written = app.tree().as_component().unwrap().idref.as_ref().unwrap().read();
    assert_eq!(written.unwrap().to_string(), "counter:/k");
    assert!(app.tree().is_some());
    assert!(app.tree().props().unwrap().is_empty());
    assert!(app.tree().shared_props().is_none());
}

#[derive(Debug, Clone, Copy)]
struct Still;

impl WidgetProcessor<()> for Still {
    fn process(&self, context: &mut WidgetContext<Still>, _: &mut ()) -> WidgetNode<Still> {
        WidgetNode::Unit(WidgetUnitNode::TextBox(TextBoxNode {
            id: context.id.clone(),
            props: Props::new(),
            text: context.key.clone(),
        }))
    }

    fn mount_or_change(&self, _: &mut WidgetMountOrChangeContext, _: &mut ()) {}

    fn unmount(&self, _: &mut WidgetUnmountContext, _: &mut ()) {}
}

#[test]
fn processing_without_a_host_context() {
    let mut app: Application<Still> = Application::default();
    let mut node = WidgetComponent::new(Still, "still".to_owned());
    node.key = Some("here".to_owned());
    app.apply(WidgetNode::Component(node));
    assert!(app.process());
    assert!(!app.process());
    assert!(app.forced_process());
    match app.rendered_tree() {
        WidgetUnit::TextBox(t) => {
            assert_eq!(t.id.as_str(), "still:/here");
            assert_eq!(t.text, "here");
        }
        _ => panic!("text box expected"),
    }
}

#[test]
fn state_is_mutated_for_the_next_pass() {
    let mut app: Application<Ui> = Application::new();
    let mut host = Host::default();
    app.apply(counter_tree());
    assert!(app.process_with_context(&mut host));
    assert!(app.process_with_context(&mut host));
    let counter = WidgetId::new(
        "counter".to_owned(),
        vec!["root".to_owned(), "<1>".to_owned()],
    );
    assert_eq!(integer(app.state_read(&counter).unwrap(), "count"), Some(0));
    app.state_mutate(&counter, |state| {
        let count = integer(state, "count").unwrap_or(0);
        Props::new().with("count".to_owned(), PropsValue::Integer(count + 5))
    });
    assert_eq!(integer(app.state_read(&counter).unwrap(), "count"), Some(0));
    assert!(app.process_with_context(&mut host));
    assert_eq!(integer(app.state_read(&counter).unwrap(), "count"), Some(5));
    app.state_mutate_cloned(&counter, |state| {
        let count = integer(&state, "count").unwrap_or(0);
        state.with("count".to_owned(), PropsValue::Integer(count * 2))
    });
    assert!(app.process_with_context(&mut host));
    assert_eq!(
        root_items(app.rendered_tree()),
        vec!["text:/label=label", "counter:/root/<1>=10"]
    );
    let stranger = WidgetId::new("nobody".to_owned(), vec![]);
    app.state_mutate(&stranger, |_| panic!("never called"));
    app.state_mutate_cloned(&stranger, |_| panic!("never called"));
    assert!(!app.process_with_context(&mut host));
}

#[test]
fn an_animating_widget_that_leaves_stops_animating() {
    let mut app: Application<Ui> = Application::new();
    let mut host = Host::default();
    app.set_animations_delta_time(1);
    app.apply(root_with(vec![WidgetNode::Component(component(
        Ui::Pulse,
        "pulse",
        Some("p"),
    ))]));
    assert!(app.process_with_context(&mut host));
    assert!(app.process_with_context(&mut host));
    assert!(matches!(
        app.last_invalidation_cause(),
        InvalidationCause::AnimationInProgress(_)
    ));
    app.apply(root_with(vec![]));
    assert!(app.process_with_context(&mut host));
    assert!(matches!(
        app.last_invalidation_cause(),
        InvalidationCause::Forced
    ));
    let pulse = WidgetId::new("pulse".to_owned(), vec!["root".to_owned(), "p".to_owned()]);
    assert!(app.state_read(&pulse).is_none());
    assert!(!app.process_with_context(&mut host));
}

#[test]
fn widgets_with_one_identity_share_their_entries() {
    let mut app: Application<Ui> = Application::new();
    let mut host = Host::default();
    app.apply(root_with(vec![
        WidgetNode::Component(component(Ui::Counter, "counter", Some("same"))),
        WidgetNode::Component(component(Ui::Counter, "counter", Some("same"))),
    ]));
    assert!(app.process_with_context(&mut host));
    assert_eq!(mounts(&host), 2);
    assert_eq!(
        root_items(app.rendered_tree()),
        vec!["counter:/root/same=0", "counter:/root/same=0"]
    );
    let shared = WidgetId::new(
        "counter".to_owned(),
        vec!["root".to_owned(), "same".to_owned()],
    );
    app.state_write(
        &shared,
        Props::new().with("count".to_owned(), PropsValue::Integer(4)),
    );
    assert!(app.process_with_context(&mut host));
    assert_eq!(mounts(&host), 2);
    assert_eq!(
        root_items(app.rendered_tree()),
        vec!["counter:/root/same=4", "counter:/root/same=4"]
    );
    app.apply(root_with(vec![]));
    assert!(app.process_with_context(&mut host));
    assert_eq!(unmounts(&host), 1);
}

fn counter_id() -> WidgetId {
    WidgetId::new(
        "counter".to_owned(),
        vec!["root".to_owned(), "<1>".to_owned()],
    )
}

fn widget_id(name: &str) -> WidgetId {
    WidgetId::new("w".to_owned(), vec![name.to_owned()])
}

fn count_of(count: i64) -> Props {
    Props::new().with("count".to_owned(), PropsValue::Integer(count))
}

#[test]
fn a_pass_begins_only_with_a_reason() {
    let mut app: Application<Ui> = Application::new();
    let mut host = Host::default();
    app.apply(counter_tree());
    assert!(app.process_with_context(&mut host));
    assert!(app.process_with_context(&mut host));
    assert!(app.does_render_changed());

    assert!(app.begin_pass(false).is_none());
    assert!(matches!(
        app.last_invalidation_cause(),
        InvalidationCause::NotInvalidated
    ));
    assert!(!app.does_render_changed());
    assert!(app.state_read(&counter_id()).is_some());
    assert_eq!(
        root_items(app.rendered_tree()),
        vec!["text:/label=label", "counter:/root/<1>=0"]
    );

    let (tree, states, pass) = app.begin_pass(true).unwrap();
    assert!(tree.as_component().unwrap().key.as_deref() == Some("root"));
    assert_eq!(tree.as_component().unwrap().listed_slots.len(), 2);
    assert!(matches!(
        app.last_invalidation_cause(),
        InvalidationCause::Forced
    ));
    assert!(!app.is_dirty());
    assert!(app.state_read(&counter_id()).is_none());
    assert!(app.tree().is_some());
    assert_eq!(states.len(), 2);
    assert_eq!(
        integer(states.get(&counter_id()).unwrap(), "count"),
        Some(0)
    );
    assert_eq!(
        pass.unmount_closures.get(&counter_id()).unwrap(),
        &vec![Ui::CounterUnmounted]
    );
    assert!(pass.new_states.is_empty());
    assert!(pass.used_ids.is_empty());
    assert!(pass.state_changes.is_empty());
    assert!(pass.messages.is_empty());
    assert!(pass.signals.is_empty());
}

#[test]
fn beginning_a_pass_writes_the_staged_states_over_and_advances_animations() {
    let mut app: Application<Ui> = Application::new();
    let mut host = Host::default();
    app.set_animations_delta_time(2);
    app.apply(root_with(vec![
        WidgetNode::Component(component(Ui::Counter, "counter", Some("c"))),
        WidgetNode::Component(component(Ui::Pulse, "pulse", Some("p"))),
    ]));
    assert!(app.process_with_context(&mut host));
    let counter = WidgetId::new("counter".to_owned(), vec!["root".to_owned(), "c".to_owned()]);
    let pulse = WidgetId::new("pulse".to_owned(), vec!["root".to_owned(), "p".to_owned()]);
    app.state_write(&counter, count_of(5));
    app.send_message(&widget_id("nobody"), Props::new());

    let (_, states, pass) = app.begin_pass(false).unwrap();
    assert!(matches!(
        app.last_invalidation_cause(),
        InvalidationCause::AnimationInProgress(id) if *id == pulse
    ));
    assert_eq!(integer(states.get(&counter).unwrap(), "count"), Some(5));
    assert!(states.get(&pulse).unwrap().is_empty());
    assert_eq!(states.len(), 3);
    let running = pass.animators.get(&pulse).unwrap().get("pulse").unwrap();
    assert_eq!(running.duration, 3);
    assert_eq!(running.elapsed, 2);
    assert_eq!(pass.messages.get(&widget_id("nobody")).unwrap().len(), 1);
    assert_eq!(pass.messages.len(), 1);
}

fn gathered() -> (WidgetStore<Props>, Reconciliation<Ui>) {
    let (a, b, c) = (widget_id("a"), widget_id("b"), widget_id("c"));
    let mut states = WidgetStore::new();
    states.insert(a.clone(), count_of(1));
    states.insert(b.clone(), count_of(2));
    let mut waiting = WidgetStore::new();
    waiting.insert(widget_id("z"), vec![count_of(10)]);
    let mut animators = WidgetStore::new();
    animators.insert(a.clone(), AnimatorStates::new("spin".to_owned(), Animation { duration: 9 }));
    animators.insert(b.clone(), AnimatorStates::new("spin".to_owned(), Animation { duration: 9 }));
    let mut hooks = WidgetStore::new();
    hooks.insert(a.clone(), vec![Ui::CounterUnmounted]);
    hooks.insert(b.clone(), vec![Ui::CounterUnmounted]);
    let mut pass = Reconciliation::new(waiting, animators, hooks);
    pass.used_ids.insert(a.clone(), ());
    pass.used_ids.insert(c.clone(), ());
    pass.new_states.insert(c.clone(), Props::new());
    pass.state_changes.insert(a.clone(), count_of(7));
    pass.message_sender.write(widget_id("z"), count_of(11));
    pass.message_sender.write(widget_id("y"), count_of(12));
    pass.signals.push((a, count_of(3)));
    (states, pass)
}

#[test]
fn ending_a_pass_keeps_what_the_used_widgets_have() {
    let (a, b, c) = (widget_id("a"), widget_id("b"), widget_id("c"));
    let mut app: Application<Ui> = Application::new();
    let mut host = Host::default();
    assert!(app.begin_pass(false).is_some());
    let (states, pass) = gathered();
    assert!(pass.holds(&states));
    let changed = app.finish_pass(plain_text("done", "done"), states, pass, &mut host);
    assert!(changed);
    assert!(app.does_render_changed());
    match app.rendered_tree() {
        WidgetUnit::TextBox(text) => assert_eq!(text.text, "done"),
        _ => panic!("text expected"),
    }
    assert_eq!(integer(app.state_read(&a).unwrap(), "count"), Some(1));
    assert!(app.state_read(&b).is_none());
    assert!(app.state_read(&c).unwrap().is_empty());
    assert_eq!(host.log, vec!["unmount w:/b at 2"]);
    let signals = app.signals();
    assert_eq!(signals.len(), 2);
    assert!(signals[0].0 == a && integer(&signals[0].1, "count") == Some(3));
    assert!(signals[1].0 == b && signals[1].1.has("gone"));

    let (tree, states, pass) = app.begin_pass(false).unwrap();
    assert!(tree.is_none());
    assert!(matches!(
        app.last_invalidation_cause(),
        InvalidationCause::AnimationInProgress(id) if *id == a
    ));
    assert_eq!(states.len(), 2);
    assert_eq!(integer(states.get(&a).unwrap(), "count"), Some(7));
    assert_eq!(pass.animators.len(), 1);
    assert!(pass.animators.contains_key(&a));
    assert_eq!(pass.unmount_closures.len(), 1);
    assert_eq!(pass.unmount_closures.get(&a).unwrap(), &vec![Ui::CounterUnmounted]);
    let for_z = pass.messages.get(&widget_id("z")).unwrap();
    assert_eq!(for_z.len(), 2);
    assert_eq!(integer(&for_z[0], "count"), Some(10));
    assert_eq!(integer(&for_z[1], "count"), Some(11));
    let for_y = pass.messages.get(&widget_id("y")).unwrap();
    assert_eq!(for_y.len(), 1);
    assert_eq!(integer(&for_y[0], "count"), Some(12));
    assert_eq!(pass.messages.len(), 2);
}

#[test]
fn ending_a_pass_with_a_composite_left_makes_no_finished_tree() {
    let mut app: Application<Ui> = Application::new();
    let mut host = Host::default();
    app.apply(plain_text("first", "first"));
    assert!(app.process_with_context(&mut host));
    assert!(app.begin_pass(true).is_some());
    let (states, pass) = gathered();
    let left = WidgetNode::Component(component(Ui::Counter, "counter", None));
    let changed = app.finish_pass(left, states, pass, &mut host);
    assert!(!changed);
    assert!(!app.does_render_changed());
    match app.rendered_tree() {
        WidgetUnit::TextBox(text) => assert_eq!(text.text, "first"),
        _ => panic!("text expected"),
    }
    assert!(app.state_read(&widget_id("a")).is_some());
    assert!(app.state_read(&widget_id("b")).is_none());
    assert_eq!(host.log, vec!["unmount w:/b at 2"]);
}

#[test]
fn a_pass_in_three_steps_is_processing() {
    let mut whole: Application<Ui> = Application::new();
    let mut host_of_whole = Host::default();
    whole.apply(counter_tree());
    assert!(whole.process_notified(false, &mut host_of_whole));

    let mut app: Application<Ui> = Application::new();
    let mut host = Host::default();
    app.apply(counter_tree());
    let (tree, states, mut pass) = app.begin_pass(false).unwrap();
    assert!(pass.holds(&states));
    let expanded = process_node(
        tree,
        &states,
        vec![],
        &mut pass,
        make_root_key(),
        None,
        &mut host,
        app.expansion_limit(),
    );
    assert!(pass.holds(&states));
    assert!(app.finish_pass(expanded, states, pass, &mut host));
    assert_eq!(host.log, host_of_whole.log);
    assert_eq!(
        root_items(app.rendered_tree()),
        root_items(whole.rendered_tree())
    );
    assert!(app.state_read(&counter_id()).is_some());
    assert!(whole.state_read(&counter_id()).is_some());
    assert_eq!(app.signals().len(), whole.signals().len());
}

#[test]
fn a_pass_writes_the_identities_of_the_widgets_in_the_tree() {
    let mut app: Application<Ui> = Application::new();
    let mut host = Host::default();
    let mut unkeyed = component(Ui::Counter, "counter", None);
    unkeyed.idref = Some(WidgetRef::new());
    let mut child = component(Ui::Counter, "counter", Some("child"));
    child.idref = Some(WidgetRef::new());
    let mut keyed = component(Ui::Wrapper, "wrapper", Some("w"));
    keyed.idref = Some(WidgetRef::new());
    keyed.listed_slots = vec![WidgetNode::Component(child)];
    let tree = WidgetNode::Unit(WidgetUnitNode::ContentBox(ContentBoxNode {
        id: WidgetId::new("content".to_owned(), vec!["top".to_owned()]),
        props: Props::new(),
        items: vec![
            ContentBoxItemNode {
                slot: plain_text("t", "t"),
                layout: ContentBoxItemLayout::default(),
            },
            ContentBoxItemNode {
                slot: WidgetNode::Component(unkeyed),
                layout: ContentBoxItemLayout::default(),
            },
            ContentBoxItemNode {
                slot: WidgetNode::Component(keyed),
                layout: ContentBoxItemLayout::default(),
            },
        ],
        clipping: false,
    }));
    app.apply(tree);
    let place = |app: &Application<Ui>, index: usize| match app.tree().as_unit().unwrap() {
        WidgetUnitNode::ContentBox(b) => {
            let widget = b.items[index].slot.as_component().unwrap();
            widget.idref.as_ref().unwrap().read().map(|id| id.to_string())
        }
        _ => panic!("content box expected"),
    };
    assert_eq!(place(&app, 1), None);
    assert!(app.begin_pass(false).is_some());
    assert_eq!(place(&app, 1).as_deref(), Some("counter:/<1>"));
    assert_eq!(place(&app, 2).as_deref(), Some("wrapper:/w"));
    match app.tree().as_unit().unwrap() {
        WidgetUnitNode::ContentBox(b) => {
            let wrapper = b.items[2].slot.as_component().unwrap();
            let child = wrapper.listed_slots[0].as_component().unwrap();
            assert!(!child.idref.as_ref().unwrap().is_written());
        }
        _ => panic!("content box expected"),
    }
    assert!(!host.log.iter().any(|line| line.starts_with("process")));
}
