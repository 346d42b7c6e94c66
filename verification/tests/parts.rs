use raui_core::animator::{Animation, AnimationUpdate, Animator, AnimatorState, AnimatorStates};
use raui_core::application::{
    advance_animators, deliver, first_running_index, queue_message, retain_animators,
};
use raui_core::messenger::{MessageSender, Messenger};
use raui_core::props::{Props, PropsValue};
use raui_core::reconcile::{
    apply_animation_changes, clone_messages, clone_strings, component_key, make_index_key,
    make_root_key, make_slot_key, merge_shared_props, stamp_signals, take_messages,
};
use raui_core::signals::SignalSender;
use raui_core::state::{State, StateUpdate};
use raui_core::store::WidgetStore;
use raui_core::widget::WidgetId;

fn id(key: &str) -> WidgetId {
    WidgetId::new("w".to_owned(), vec![key.to_owned()])
}

fn marked(name: &str) -> Props {
    Props::new().with(name.to_owned(), PropsValue::Flag(true))
}

#[test]
fn placeholder_keys() {
    assert_eq!(make_root_key(), "<*>");
    assert_eq!(make_slot_key(), ".");
    assert_eq!(make_index_key(0), "<0>");
    assert_eq!(make_index_key(7), "<7>");
    assert_eq!(make_index_key(10), "<10>");
    assert_eq!(make_index_key(4096), "<4096>");
    assert_eq!(make_index_key(usize::MAX), format!("<{}>", usize::MAX));
}

#[test]
fn component_key_prefers_the_own_key() {
    assert_eq!(component_key(Some("own".to_owned()), &"<3>".to_owned()), "own");
    assert_eq!(component_key(None, &"<3>".to_owned()), "<3>");
    assert_eq!(component_key(Some(String::new()), &"<3>".to_owned()), "");
}

#[test]
fn shared_props_are_merged_downwards() {
    let master = Props::new()
        .with("x".to_owned(), PropsValue::Integer(1))
        .with("y".to_owned(), PropsValue::Integer(2));
    let own = Props::new().with("x".to_owned(), PropsValue::Integer(10));
    let merged = merge_shared_props(Some(master.clone()), Some(own.clone()));
    assert_eq!(merged.read("x").unwrap().as_integer(), Some(10));
    assert_eq!(merged.read("y").unwrap().as_integer(), Some(2));
    let only_own = merge_shared_props(None, Some(own));
    assert_eq!(only_own.len(), 1);
    let only_master = merge_shared_props(Some(master), None);
    assert_eq!(only_master.len(), 2);
    assert!(merge_shared_props(None, None).is_empty());
}

#[test]
fn copies_of_lists() {
    let texts = vec!["a".to_owned(), "".to_owned(), "c".to_owned()];
    assert_eq!(clone_strings(&texts), texts);
    let messages = vec![marked("a"), marked("b")];
    let copy = clone_messages(&messages);
    assert_eq!(copy.len(), 2);
    assert!(copy[0].has("a") && copy[1].has("b"));
}

#[test]
fn messages_are_taken_and_queued() {
    let mut messages = WidgetStore::new();
    queue_message(&mut messages, id("a"), marked("1"));
    queue_message(&mut messages, id("b"), marked("2"));
    queue_message(&mut messages, id("a"), marked("3"));
    assert_eq!(messages.len(), 2);
    let taken = take_messages(&mut messages, &id("a"));
    assert_eq!(taken.len(), 2);
    assert!(taken[0].has("1") && taken[1].has("3"));
    assert!(take_messages(&mut messages, &id("a")).is_empty());
    assert_eq!(messages.len(), 1);
    deliver(
        &mut messages,
        vec![
            (id("b"), marked("4")),
            (id("c"), marked("5")),
            (id("b"), marked("6")),
        ],
    );
    let for_b = take_messages(&mut messages, &id("b"));
    assert_eq!(for_b.len(), 3);
    assert!(for_b[0].has("2") && for_b[1].has("4") && for_b[2].has("6"));
    assert_eq!(take_messages(&mut messages, &id("c")).len(), 1);
    assert!(messages.is_empty());
}

#[test]
fn signals_are_stamped_with_the_widget() {
    let mut signals = vec![(id("old"), marked("0"))];
    let mut sender = SignalSender::new(id("liar"));
    sender.write(marked("1"));
    sender.write(marked("2"));
    stamp_signals(&mut signals, &id("me"), sender.unwrap());
    assert_eq!(signals.len(), 3);
    assert!(signals[0].0 == id("old"));
    assert!(signals[1].0 == id("me") && signals[1].1.has("1"));
    assert!(signals[2].0 == id("me") && signals[2].1.has("2"));
}

#[test]
fn state_keeps_the_last_replacement() {
    let mut state = State::new(marked("now"));
    assert!(state.read().has("now"));
    state.write(marked("first"));
    state.write(marked("second"));
    assert!(state.read().has("now"));
    assert!(state.unwrap().unwrap().has("second"));
    assert!(State::new(Props::new()).unwrap().is_none());
    let mut update = StateUpdate::new();
    update.write(marked("x"));
    assert!(update.unwrap().unwrap().has("x"));
    assert!(StateUpdate::new().unwrap().is_none());
}

#[test]
fn messenger_and_sender() {
    let mut messenger = Messenger::new(vec![marked("in")]);
    assert_eq!(messenger.messages().len(), 1);
    messenger.write(id("a"), marked("1"));
    messenger.write(id("b"), marked("2"));
    let sent = messenger.unwrap();
    assert_eq!(sent.len(), 2);
    assert!(sent[0].0 == id("a") && sent[1].0 == id("b"));
    let mut sender = MessageSender::new();
    sender.write(id("c"), marked("3"));
    sender.extend(sent);
    let all = sender.unwrap();
    assert_eq!(all.len(), 3);
    assert!(all[0].0 == id("c") && all[1].0 == id("a") && all[2].0 == id("b"));
}

#[test]
fn animations_run_to_their_end() {
    let state = AnimatorState::new(Animation { duration: 5 });
    assert!(state.in_progress());
    assert_eq!(state.process(2).elapsed, 2);
    assert_eq!(state.process(5).elapsed, 5);
    assert_eq!(state.process(u64::MAX).elapsed, 5);
    assert!(!state.process(5).in_progress());
    assert_eq!(state.process(5).process(3).elapsed, 5);
    assert!(!AnimatorState::new(Animation { duration: 0 }).in_progress());

    let mut states = AnimatorStates::new("a".to_owned(), Animation { duration: 4 });
    assert!(states.in_progress());
    states.change("b".to_owned(), Some(Animation { duration: 1 }));
    states.process(1);
    assert_eq!(states.get("a").unwrap().elapsed, 1);
    assert!(!states.get("b").unwrap().in_progress());
    assert!(states.in_progress());
    states.change("a".to_owned(), Some(Animation { duration: 4 }));
    assert_eq!(states.get("a").unwrap().elapsed, 0);
    states.change("a".to_owned(), None);
    states.change("missing".to_owned(), None);
    assert!(states.get("a").is_none());
    assert!(!states.in_progress());
    assert!(states.clone().get("b").is_some());
    assert!(!AnimatorStates::default().in_progress());
    assert!(AnimatorStates::empty().get("a").is_none());
}

#[test]
fn animator_collects_changes() {
    let mut animator = Animator::new(AnimatorStates::new("a".to_owned(), Animation { duration: 2 }));
    assert!(animator.in_progress());
    assert!(animator.get("a").is_some());
    animator.change("a".to_owned(), None);
    animator.change("b".to_owned(), Some(Animation { duration: 9 }));
    assert!(animator.get("a").is_some());
    let changes = animator.unwrap();
    assert_eq!(changes.len(), 2);
    assert_eq!(changes[0], ("a".to_owned(), None));
    assert_eq!(changes[1], ("b".to_owned(), Some(Animation { duration: 9 })));
    let mut update = AnimationUpdate::new();
    update.change("c".to_owned(), None);
    assert_eq!(update.unwrap().len(), 1);
}

#[test]
fn animation_changes_reach_the_store() {
    let mut animators: WidgetStore<AnimatorStates> = WidgetStore::new();
    apply_animation_changes(&mut animators, &id("a"), vec![("x".to_owned(), None)]);
    assert!(animators.is_empty());
    apply_animation_changes(
        &mut animators,
        &id("a"),
        vec![
            ("x".to_owned(), Some(Animation { duration: 3 })),
            ("y".to_owned(), Some(Animation { duration: 1 })),
            ("x".to_owned(), None),
        ],
    );
    let states = animators.get(&id("a")).unwrap();
    assert!(states.get("x").is_none());
    assert_eq!(states.get("y").unwrap().duration, 1);
    apply_animation_changes(&mut animators, &id("a"), vec![("y".to_owned(), None)]);
    assert!(animators.contains_key(&id("a")));
    assert!(!animators.get(&id("a")).unwrap().in_progress());
}

#[test]
fn animators_of_the_store() {
    let mut animators: WidgetStore<AnimatorStates> = WidgetStore::new();
    animators.insert(id("done"), AnimatorStates::new("x".to_owned(), Animation { duration: 0 }));
    animators.insert(id("slow"), AnimatorStates::new("x".to_owned(), Animation { duration: 9 }));
    animators.insert(id("fast"), AnimatorStates::new("x".to_owned(), Animation { duration: 2 }));
    assert_eq!(first_running_index(&animators), Some(1));
    advance_animators(&mut animators, 2);
    assert_eq!(animators.get(&id("slow")).unwrap().get("x").unwrap().elapsed, 2);
    assert!(!animators.get(&id("fast")).unwrap().in_progress());
    assert_eq!(first_running_index(&animators), Some(1));
    let mut used: WidgetStore<()> = WidgetStore::new();
    used.insert(id("fast"), ());
    let kept = retain_animators(animators, &used);
    assert!(kept.contains_key(&id("slow")));
    assert!(kept.contains_key(&id("fast")));
    assert!(!kept.contains_key(&id("done")));
    let mut none: WidgetStore<AnimatorStates> = WidgetStore::new();
    assert_eq!(first_running_index(&none), None);
    advance_animators(&mut none, 1);
    assert!(none.is_empty());
}
