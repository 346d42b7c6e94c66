//! Reconciliation: the walk that expands the declarative tree into layout
//! primitives, gives every composite widget its identity, and collects what
//! processors and hooks ask for.

use crate::animator::{changes_model, Animation, Animator, AnimatorState, AnimatorStates};
use crate::messenger::{contents, MessageSender, Messages, Messenger};
use crate::props::{Props, PropsValueView};
use crate::signals::{Signal, SignalSender};
use crate::state::State;
use crate::store::{reversed, WidgetStore};
use crate::measure::{lemma_sum_from_bound, sum_from};
use crate::widget::component::WidgetComponent;
use crate::widget::context::{WidgetContext, WidgetMountOrChangeContext};
use crate::widget::node::{
    node_sizes_of, ComponentModel, NodeItemModel, NodeModel, UnitNodeModel, WidgetNode,
};
use crate::widget::unit::area::AreaBoxNode;
use crate::widget::unit::content::ContentBoxNode;
use crate::widget::unit::flex::FlexBoxNode;
use crate::widget::unit::grid::GridBoxNode;
use crate::widget::unit::content::ContentBoxItemNode;
use crate::widget::unit::flex::FlexBoxItemNode;
use crate::widget::unit::grid::GridBoxItemNode;
use crate::widget::unit::portal::{PortalBoxNode, PortalBoxSlotNode};
use crate::widget::unit::size::SizeBoxNode;
use crate::widget::unit::{node_items_model, NodeItem, WidgetUnitNode};
use crate::widget::{
    lemma_compose_parts, strings_view, WidgetId, WidgetIdView, WidgetLifeCycle, WidgetProcessor,
};
use vstd::prelude::*;
use vstd::string::*;

verus! {

/// The character that stands for a digit.
pub open spec fn digit_char(digit: nat) -> char {
    if digit == 0 {
        '0'
    } else if digit == 1 {
        '1'
    } else if digit == 2 {
        '2'
    } else if digit == 3 {
        '3'
    } else if digit == 4 {
        '4'
    } else if digit == 5 {
        '5'
    } else if digit == 6 {
        '6'
    } else if digit == 7 {
        '7'
    } else if digit == 8 {
        '8'
    } else {
        '9'
    }
}

/// A number written in decimal, without leading zeros.
pub open spec fn decimal(number: nat) -> Seq<char>
    decreases number,
{
    if number < 10 {
        seq![digit_char(number)]
    } else {
        decimal(number / 10).push(digit_char(number % 10))
    }
}

/// The key that stands in for a missing key at the root of the tree.
pub open spec fn root_key() -> Seq<char> {
    seq!['<', '*', '>']
}

/// The key that stands in for a missing key in the one slot of a container.
pub open spec fn slot_key() -> Seq<char> {
    seq!['.']
}

/// The key that stands in for a missing key in the item at `index` of a
/// container: the index between angle brackets.
pub open spec fn index_key(index: nat) -> Seq<char> {
    seq!['<'] + decimal(index) + seq!['>']
}

/// The text of one digit.
fn digit_text(digit: usize) -> (text: &'static str)
    requires
        digit < 10,
    ensures
        text@ == seq![digit_char(digit as nat)],
{
    proof {
        reveal_strlit("0");
        reveal_strlit("1");
        reveal_strlit("2");
        reveal_strlit("3");
        reveal_strlit("4");
        reveal_strlit("5");
        reveal_strlit("6");
        reveal_strlit("7");
        reveal_strlit("8");
        reveal_strlit("9");
    }
    let text = if digit == 0 {
        "0"
    } else if digit == 1 {
        "1"
    } else if digit == 2 {
        "2"
    } else if digit == 3 {
        "3"
    } else if digit == 4 {
        "4"
    } else if digit == 5 {
        "5"
    } else if digit == 6 {
        "6"
    } else if digit == 7 {
        "7"
    } else if digit == 8 {
        "8"
    } else {
        "9"
    };
    text
}

/// Appends `number` in decimal to `text`.
fn push_decimal(text: &mut String, number: usize)
    ensures
        final(text)@ == old(text)@ + decimal(number as nat),
    decreases number,
{
    if number >= 10 {
        push_decimal(text, number / 10);
    }
    text.append(digit_text(number % 10));
}

/// The key for a widget without a key at the root of the tree.
pub fn make_root_key() -> (key: String)
    ensures
        key@ == root_key(),
{
    proof {
        reveal_strlit("<*>");
    }
    let key = "<*>".to_owned();
    key
}

/// The key for a widget without a key in the one slot of a container.
pub fn make_slot_key() -> (key: String)
    ensures
        key@ == slot_key(),
{
    proof {
        reveal_strlit(".");
    }
    let key = ".".to_owned();
    key
}

/// The key for a widget without a key in the item at `index` of a container.
pub fn make_index_key(index: usize) -> (key: String)
    ensures
        key@ == index_key(index as nat),
{
    proof {
        reveal_strlit("<");
        reveal_strlit(">");
    }
    let mut key = "<".to_owned();
    push_decimal(&mut key, index);
    key.append(">");
    key
}

/// A copy of a list of texts.
pub fn clone_strings(texts: &Vec<String>) -> (copy: Vec<String>)
    ensures
        strings_view(copy@) == strings_view(texts@),
{
    let mut copy: Vec<String> = Vec::new();
    let mut i: usize = 0;
    while i < texts.len()
        invariant
            i <= texts.len(),
            copy.len() == i,
            forall|j: int| 0 <= j < i ==> copy@[j]@ == texts@[j]@,
        decreases texts.len() - i,
    {
        copy.push(texts[i].clone());
        i += 1;
    }
    copy
}

/// A copy of a list of messages.
pub fn clone_messages(messages: &Messages) -> (copy: Messages)
    ensures
        contents(copy@) == contents(messages@),
{
    let mut copy: Messages = Vec::new();
    let mut i: usize = 0;
    while i < messages.len()
        invariant
            i <= messages.len(),
            copy.len() == i,
            forall|j: int| 0 <= j < i ==> copy@[j]@ == messages@[j]@,
        decreases messages.len() - i,
    {
        copy.push(messages[i].clone());
        i += 1;
    }
    copy
}

/// The key of a composite widget: its own if it has one, the key that its
/// position gives it otherwise.
pub open spec fn chosen_key(key: Option<Seq<char>>, possible_key: Seq<char>) -> Seq<char> {
    match key {
        Some(key) => key,
        None => possible_key,
    }
}

/// The key of a composite widget: its own if it has one, the key that its
/// position gives it otherwise.
pub fn component_key(key: Option<String>, possible_key: &String) -> (chosen: String)
    ensures
        chosen@ == chosen_key(
            match key {
                Some(key) => Some(key@),
                None => None,
            },
            possible_key@,
        ),
{
    match key {
        Some(key) => key,
        None => possible_key.clone(),
    }
}

/// The identity of the composite widget of type `type_tag` that is met at
/// `path` with the key `key` of its own, or with none at a place whose key is
/// `possible_key`. It depends on nothing else: not on the pass, not on what
/// the stores hold.
pub open spec fn component_identity(
    type_tag: Seq<char>,
    path: Seq<Seq<char>>,
    key: Option<Seq<char>>,
    possible_key: Seq<char>,
) -> WidgetIdView {
    WidgetIdView::compose(type_tag, path.push(chosen_key(key, possible_key)))
}

/// The properties handed down to a widget: its own shared properties written
/// over those that come from above.
pub open spec fn merged_shared(
    master: Option<Map<Seq<char>, PropsValueView>>,
    own: Option<Map<Seq<char>, PropsValueView>>,
) -> Map<Seq<char>, PropsValueView> {
    match (master, own) {
        (Some(master), Some(own)) => master.union_prefer_right(own),
        (None, Some(own)) => own,
        (Some(master), None) => master,
        (None, None) => Map::empty(),
    }
}

/// The view of properties that may be missing.
pub open spec fn props_view(props: Option<Props>) -> Option<Map<Seq<char>, PropsValueView>> {
    match props {
        Some(props) => Some(props@),
        None => None,
    }
}

/// The properties handed down to a widget: its own shared properties written
/// over those that come from above.
pub fn merge_shared_props(master_shared_props: Option<Props>, shared_props: Option<Props>)
    -> (merged:
    Props)
    ensures
        merged@ == merged_shared(props_view(master_shared_props), props_view(shared_props)),
{
    match (master_shared_props, shared_props) {
        (Some(master), Some(own)) => master.merge(own),
        (None, Some(own)) => own,
        (Some(master), None) => master,
        (None, None) => Props::new(),
    }
}

/// Where a widget and what is above it both hand down a property, the widget's
/// value is the one handed on; what only one of them hands down is handed on as
/// it is.
pub proof fn lemma_shared_props_override(
    master: Map<Seq<char>, PropsValueView>,
    own: Map<Seq<char>, PropsValueView>,
    name: Seq<char>,
)
    ensures
        own.contains_key(name) ==> merged_shared(Some(master), Some(own)).contains_key(name)
            && merged_shared(Some(master), Some(own))[name] == own[name],
        master.contains_key(name) && !own.contains_key(name) ==> merged_shared(
            Some(master),
            Some(own),
        ).contains_key(name) && merged_shared(Some(master), Some(own))[name] == master[name],
        !master.contains_key(name) && !own.contains_key(name) ==> !merged_shared(
            Some(master),
            Some(own),
        ).contains_key(name),
{
}

/// Takes the messages that wait for `id` out of the store; there are none if
/// the store has no entry for `id`.
pub fn take_messages(messages: &mut WidgetStore<Messages>, id: &WidgetId) -> (taken: Messages)
    ensures
        final(messages)@ == old(messages)@.remove(id@),
        old(messages)@.contains_key(id@) ==> taken == old(messages)@[id@],
        !old(messages)@.contains_key(id@) ==> taken@.len() == 0,
{
    match messages.remove(id) {
        Some(list) => list,
        None => Vec::new(),
    }
}

/// The animations of every widget in the store.
pub open spec fn animators_view(animators: Map<WidgetIdView, AnimatorStates>) -> Map<
    WidgetIdView,
    Map<Seq<char>, AnimatorState>,
> {
    animators.map_values(|states: AnimatorStates| states@)
}

/// The animations after one change asked for by the widget `id`. A widget
/// that has animations gets the named one started anew or ended; a widget that
/// has none gets its first one, and nothing if the change ends one.
pub open spec fn animation_applied(
    animators: Map<WidgetIdView, Map<Seq<char>, AnimatorState>>,
    id: WidgetIdView,
    name: Seq<char>,
    animation: Option<Animation>,
) -> Map<WidgetIdView, Map<Seq<char>, AnimatorState>> {
    if animators.contains_key(id) {
        animators.insert(
            id,
            match animation {
                Some(a) => animators[id].insert(
                    name,
                    AnimatorState { duration: a.duration, elapsed: 0 },
                ),
                None => animators[id].remove(name),
            },
        )
    } else {
        match animation {
            Some(a) => animators.insert(
                id,
                Map::empty().insert(name, AnimatorState { duration: a.duration, elapsed: 0 }),
            ),
            None => animators,
        }
    }
}

/// The animations after the changes asked for by the widget `id`, oldest
/// first.
pub open spec fn animations_applied(
    animators: Map<WidgetIdView, Map<Seq<char>, AnimatorState>>,
    id: WidgetIdView,
    changes: Seq<(Seq<char>, Option<Animation>)>,
) -> Map<WidgetIdView, Map<Seq<char>, AnimatorState>>
    decreases changes.len(),
{
    if changes.len() == 0 {
        animators
    } else {
        animation_applied(
            animations_applied(animators, id, changes.drop_last()),
            id,
            changes.last().0,
            changes.last().1,
        )
    }
}

/// Applies to the animations in the store the changes that the widget `id`
/// asked for, oldest first.
pub fn apply_animation_changes(
    animators: &mut WidgetStore<AnimatorStates>,
    id: &WidgetId,
    changes: Vec<(String, Option<Animation>)>,
)
    ensures
        animators_view(final(animators)@) == animations_applied(
            animators_view(old(animators)@),
            id@,
            changes_model(changes@),
        ),
        forall|other: WidgetIdView|
            other != id@ ==> (final(animators)@.contains_key(other) <==> old(animators)@.contains_key(other)),
        forall|other: WidgetIdView|
            other != id@ && old(animators)@.contains_key(other)
                ==> final(animators)@[other] == old(animators)@[other],
        old(animators)@.contains_key(id@) ==> final(animators)@.contains_key(id@),
{
    let ghost given = changes_model(changes@);
    let ghost before = animators_view(animators@);
    let mut i: usize = 0;
    while i < changes.len()
        invariant
            i <= changes.len(),
            given == changes_model(changes@),
            animators_view(animators@) == animations_applied(before, id@, given.subrange(0, i as int)),
            forall|other: WidgetIdView|
                other != id@ ==> (animators@.contains_key(other) <==> old(animators)@.contains_key(
                    other,
                )),
            forall|other: WidgetIdView|
                other != id@ && old(animators)@.contains_key(other)
                    ==> animators@[other] == old(animators)@[other],
            old(animators)@.contains_key(id@) ==> animators@.contains_key(id@),
        decreases changes.len() - i,
    {
        let name = changes[i].0.clone();
        let animation = changes[i].1;
        match animators.get(id) {
            Some(states) => {
                let mut states = states.clone();
                states.change(name, animation);
                animators.insert(id.clone(), states);
            },
            None => {
                match animation {
                    Some(a) => {
                        animators.insert(id.clone(), AnimatorStates::new(name, a));
                    },
                    None => {},
                }
            },
        }
        proof {
            assert(given.subrange(0, i + 1).drop_last() == given.subrange(0, i as int));
        }
        i += 1;
    }
    assert(given.subrange(0, changes.len() as int) == given);
}

/// What a pass collects while it walks the tree. Processors and hooks never
/// touch the stores of the application: what they ask for is kept here and
/// put into the stores when the walk is over.
pub struct Reconciliation<P> {
    /// The messages that have not been handed to a widget yet.
    pub messages: WidgetStore<Messages>,
    /// The first state of every widget that was mounted in this pass.
    pub new_states: WidgetStore<Props>,
    /// The identities of the composite widgets that were expanded.
    pub used_ids: WidgetStore<()>,
    /// The states that widgets left for the next pass.
    pub state_changes: WidgetStore<Props>,
    /// The animations of the widgets.
    pub animators: WidgetStore<AnimatorStates>,
    /// The hooks to run when a widget leaves the tree.
    pub unmount_closures: WidgetStore<Vec<P>>,
    /// The messages that widgets sent.
    pub message_sender: MessageSender,
    /// The signals that widgets sent.
    pub signals: Vec<Signal>,
}

impl<P> Reconciliation<P> {
    /// What holds of the collections at every moment of a walk, `known` being
    /// the identities that had state before the pass. A widget is mounted only
    /// if it had no state, and then it was expanded and its first state is
    /// empty; every widget that was expanded has state and no message
    /// waiting; hooks and animations are kept only for widgets with state; and
    /// only widgets that were expanded have left a new state or sent a
    /// signal. [`Reconciliation::holds`] tests it.
    pub open spec fn inv(&self, known: Set<WidgetIdView>) -> bool {
        &&& forall|id: WidgetIdView| #[trigger]
            self.used_ids@.contains_key(id) ==> known.contains(id) || self.new_states@.contains_key(
                id,
            )
        &&& forall|id: WidgetIdView| #[trigger]
            self.new_states@.contains_key(id)
                ==> !known.contains(id) && self.used_ids@.contains_key(
                id,
            )
        &&& forall|id: WidgetIdView| #[trigger]
            self.messages@.contains_key(id) ==> !self.used_ids@.contains_key(id)
        &&& forall|id: WidgetIdView| #[trigger]
            self.unmount_closures@.contains_key(id) ==> known.contains(id)
                || self.new_states@.contains_key(id)
        &&& forall|id: WidgetIdView| #[trigger]
            self.animators@.contains_key(id)
                ==> known.contains(id) || self.new_states@.contains_key(
                id,
            )
        &&& forall|id: WidgetIdView| #[trigger]
            self.state_changes@.contains_key(id) ==> self.used_ids@.contains_key(id)
        &&& forall|id: WidgetIdView| #[trigger]
            self.new_states@.contains_key(id) ==> self.new_states@[id]@ == Props::spec_empty()
        &&& forall|i: int|
            0 <= i < self.signals@.len() ==> self.used_ids@.contains_key(
                (#[trigger] self.signals@[i]).0@,
            )
    }

    /// What a walk may do to the collections: mark more identities as used,
    /// mount more widgets, hand out messages, and add to what was sent. It
    /// never takes any of that back, and the messages that wait for a widget
    /// stay unless the widget was expanded.
    pub open spec fn grown_from(&self, before: &Reconciliation<P>) -> bool {
        &&& forall|id: WidgetIdView| #[trigger]
            before.used_ids@.contains_key(id) ==> self.used_ids@.contains_key(id)
        &&& forall|id: WidgetIdView| #[trigger]
            before.new_states@.contains_key(id) ==> self.new_states@.contains_key(id)
        &&& forall|id: WidgetIdView| #[trigger]
            self.messages@.contains_key(id) ==> before.messages@.contains_key(id)
                && self.messages@[id] == before.messages@[id]
        &&& forall|id: WidgetIdView| #[trigger]
            before.messages@.contains_key(id) ==> self.messages@.contains_key(id)
                || self.used_ids@.contains_key(id)
        &&& before.signals@.len() <= self.signals@.len()
        &&& self.signals@.subrange(0, before.signals@.len() as int) =~= before.signals@
        &&& before.message_sender@.len() <= self.message_sender@.len()
        &&& self.message_sender@.subrange(0, before.message_sender@.len() as int)
            =~= before.message_sender@
    }

    /// Whether every widget that stands fewer than `depth` keys from the root
    /// has the hooks for leaving the tree that it had in `before`, or none as
    /// before.
    pub open spec fn hooks_kept_above(&self, before: &Reconciliation<P>, depth: nat) -> bool {
        forall|id: WidgetIdView|
            id.depth < depth ==> (#[trigger] self.unmount_closures@.contains_key(id)
                <==> before.unmount_closures@.contains_key(id)) && (
            before.unmount_closures@.contains_key(id) ==> self.unmount_closures@[id]
                == before.unmount_closures@[id])
    }

    /// Whether the collections are as they are at every moment of a walk over
    /// widgets whose states are those of `states`.
    pub fn holds(&self, states: &WidgetStore<Props>) -> (holds: bool)
        ensures
            holds == self.inv(states@.dom()),
    {
        let stores = self.used_ids.keys_within(states, &self.new_states)
            && self.new_states.keys_apart(states) && self.new_states.keys_within(
            &self.used_ids,
            &self.used_ids,
        ) && self.messages.keys_apart(&self.used_ids) && self.unmount_closures.keys_within(
            states,
            &self.new_states,
        ) && self.animators.keys_within(states, &self.new_states)
            && self.state_changes.keys_within(&self.used_ids, &self.used_ids);
        let fresh = first_states_empty(&self.new_states);
        let sent = signals_from(&self.signals, &self.used_ids);
        stores && fresh && sent
    }

    /// Collections with nothing in them but the messages, animations and
    /// hooks that the pass starts with.
    pub fn new(
        messages: WidgetStore<Messages>,
        animators: WidgetStore<AnimatorStates>,
        unmount_closures: WidgetStore<Vec<P>>,
    ) -> (pass: Reconciliation<P>)
        ensures
            pass.messages == messages,
            pass.animators == animators,
            pass.unmount_closures == unmount_closures,
            pass.new_states@ == Map::<WidgetIdView, Props>::empty(),
            pass.used_ids@ == Map::<WidgetIdView, ()>::empty(),
            pass.state_changes@ == Map::<WidgetIdView, Props>::empty(),
            pass.message_sender@.len() == 0,
            pass.signals@.len() == 0,
    {
        Reconciliation {
            messages,
            new_states: WidgetStore::new(),
            used_ids: WidgetStore::new(),
            state_changes: WidgetStore::new(),
            animators,
            unmount_closures,
            message_sender: MessageSender::new(),
            signals: Vec::new(),
        }
    }
}

/// Whether every state of the store is empty.
pub fn first_states_empty(states: &WidgetStore<Props>) -> (empty: bool)
    ensures
        empty == forall|id: WidgetIdView| #[trigger]
            states@.contains_key(id) ==> states@[id]@ == Props::spec_empty(),
{
    let count = states.len();
    proof {
        crate::store::lemma_assoc_map_facts(states.keys(), states.values());
    }
    let mut i: usize = 0;
    while i < count
        invariant
            i <= count,
            count == states.keys().len(),
            forall|j: int|
                0 <= j < i ==> states@[#[trigger] states.keys()[j]]@ == Props::spec_empty(),
        decreases count - i,
    {
        let id = states.id_at(i);
        if !states.value_at(i).is_empty() {
            return false;
        }
        i += 1;
    }
    proof {
        assert forall|id: WidgetIdView| #[trigger] states@.contains_key(id) implies states@[id]@
            == Props::spec_empty() by {
            assert(states.keys().to_set().contains(id));
            let j = choose|j: int| 0 <= j < states.keys().len() && states.keys()[j] == id;
            assert(states@[states.keys()[j]]@ == Props::spec_empty());
        }
    }
    true
}

/// Whether every signal of the list comes from a widget of `used`.
pub fn signals_from(signals: &Vec<Signal>, used: &WidgetStore<()>) -> (all: bool)
    ensures
        all == forall|i: int|
            0 <= i < signals@.len() ==> used@.contains_key((#[trigger] signals@[i]).0@),
{
    let mut i: usize = 0;
    while i < signals.len()
        invariant
            i <= signals.len(),
            forall|j: int| 0 <= j < i ==> used@.contains_key((#[trigger] signals@[j]).0@),
        decreases signals.len() - i,
    {
        if !used.contains_key(&signals[i].0) {
            return false;
        }
        i += 1;
    }
    true
}

/// Appends the messages of `sent` to `signals` as signals of the widget `id`,
/// oldest first. Whatever identity they came with, they leave with `id`.
pub fn stamp_signals(signals: &mut Vec<Signal>, id: &WidgetId, sent: Vec<Signal>)
    ensures
        final(signals)@.len() == old(signals)@.len() + sent@.len(),
        final(signals)@.subrange(0, old(signals)@.len() as int) == old(signals)@,
        forall|i: int|
            0 <= i < sent@.len() ==> (#[trigger] final(signals)@[old(signals)@.len() + i]).0@ == id@
                && final(signals)@[old(signals)@.len() + i].1@ == sent@[i].1@,
{
    let ghost given = sent@;
    let ghost before = signals@;
    let mut sent = reversed(sent);
    let count = sent.len();
    let mut i: usize = 0;
    while i < count
        invariant
            i <= count,
            count == given.len(),
            sent@.len() == count - i,
            forall|j: int| 0 <= j < count - i ==> #[trigger] sent@[j] == given[count - 1 - j],
            signals@.len() == before.len() + i,
            signals@.subrange(0, before.len() as int) == before,
            forall|j: int|
                0 <= j < i
                    ==> (#[trigger] signals@[before.len() + j]).0@ == id@ && signals@[before.len()
                    + j].1@ == given[j].1@,
        decreases count - i,
    {
        let signal = sent.pop().unwrap();
        signals.push((id.clone(), signal.1));
        i += 1;
    }
}

/// Runs the hooks of a widget that has been mounted or has changed, in the
/// order in which they were registered. Every hook is handed the widget's
/// properties, its state, the messages that came for it and its animations;
/// what the hooks send and ask for is added to the collections.
pub fn run_hooks<P: WidgetProcessor<C>, C>(
    hooks: &Vec<P>,
    id: &WidgetId,
    props: &Props,
    shared_props: &Props,
    state: &Props,
    messages: &Messages,
    animator: &AnimatorStates,
    sender: &mut MessageSender,
    signals: &mut Vec<Signal>,
    staged: &mut Vec<Props>,
    changes: &mut Vec<(String, Option<Animation>)>,
    process_context: &mut C,
)
    ensures
        old(sender)@.len() <= final(sender)@.len(),
        final(sender)@.subrange(0, old(sender)@.len() as int) == old(sender)@,
        old(signals)@.len() <= final(signals)@.len(),
        final(signals)@.subrange(0, old(signals)@.len() as int) == old(signals)@,
        forall|i: int|
            old(signals)@.len() <= i < final(signals)@.len() ==> (#[trigger] final(signals)@[i]).0@
                == id@,
        old(staged)@.len() <= final(staged)@.len(),
        final(staged)@.subrange(0, old(staged)@.len() as int) == old(staged)@,
        old(changes)@.len() <= final(changes)@.len(),
        final(changes)@.subrange(0, old(changes)@.len() as int) == old(changes)@,
        hooks@.len() == 0 ==> final(sender)@ == old(sender)@ && final(signals)@ == old(signals)@
            && final(staged)@ == old(staged)@ && final(changes)@ == old(changes)@,
{
    let mut i: usize = 0;
    while i < hooks.len()
        invariant
            i <= hooks.len(),
            old(sender)@.len() <= sender@.len(),
            sender@.subrange(0, old(sender)@.len() as int) == old(sender)@,
            old(signals)@.len() <= signals@.len(),
            signals@.subrange(0, old(signals)@.len() as int) == old(signals)@,
            forall|j: int| old(signals)@.len() <= j < signals@.len()
                ==> (#[trigger] signals@[j]).0@ == id@,
            old(staged)@.len() <= staged@.len(),
            staged@.subrange(0, old(staged)@.len() as int) == old(staged)@,
            old(changes)@.len() <= changes@.len(),
            changes@.subrange(0, old(changes)@.len() as int) == old(changes)@,
            hooks@.len() == 0 ==> sender@ == old(sender)@ && signals@ == old(signals)@ && staged@
                == old(staged)@ && changes@ == old(changes)@,
        decreases hooks.len() - i,
    {
        let mut context = hook_context(id, props, shared_props, state, messages, animator);
        hooks[i].mount_or_change(&mut context, process_context);
        let ghost signals_before = signals@;
        absorb_hook(context, id, sender, signals, staged, changes);
        proof {
            assert forall|j: int| old(signals)@.len() <= j < signals@.len() implies (
            #[trigger] signals@[j]).0@ == id@ by {
                if j < signals_before.len() {
                    assert(signals@[j] == signals@.subrange(0, signals_before.len() as int)[j]);
                } else {
                    assert(signals@[j] == signals@[signals_before.len() + (j - signals_before.len())]);
                }
            }
        }
        i += 1;
    }
}

/// Growth adds up: what grew from something that grew, grew.
pub proof fn lemma_grown_transitive<P>(
    first: &Reconciliation<P>,
    second: &Reconciliation<P>,
    third: &Reconciliation<P>,
)
    requires
        second.grown_from(first),
        third.grown_from(second),
    ensures
        third.grown_from(first),
{
}

/// Expands `node`: every composite widget in it is replaced by what its
/// processor makes of it, down to `budget` expansions inside each other. A
/// composite widget that is met when the budget is used up stays as it is.
/// `path` holds the keys from the root to the place of `node`,
/// `possible_key` is the key that this place gives to a widget without a key,
/// and `master_shared_props` are the properties handed down from above.
pub fn process_node<P: WidgetProcessor<C>, C>(
    node: WidgetNode<P>,
    states: &WidgetStore<Props>,
    path: Vec<String>,
    pass: &mut Reconciliation<P>,
    possible_key: String,
    master_shared_props: Option<Props>,
    process_context: &mut C,
    budget: usize,
) -> (expanded: WidgetNode<P>)
    requires
        old(pass).inv(states@.dom()),
    ensures
        final(pass).inv(states@.dom()),
        final(pass).grown_from(old(pass)),
        !node.model().unresolved()
            ==> expanded.model() == node.model() && *final(pass) == *old(pass),
        budget == 0 && node is Component ==> expanded == node && *final(pass) == *old(pass),
        budget == 0 ==> expanded.model() == node.model() && *final(pass) == *old(pass),
        budget > 0 ==> forall|id: WidgetIdView|
            met_in(node.model(), strings_view(path@), possible_key@, id)
                ==> #[trigger] final(pass).used_ids@.contains_key(id),
        node.model() matches NodeModel::Unit(unit) ==> expanded.model() is Unit && unit.same_frame(
            expanded.model()->Unit_0,
        ),
        final(pass).hooks_kept_above(old(pass), (path@.len() + 1) as nat),
    decreases budget, node.model().size(), 2nat,
{
    match node {
        WidgetNode::Empty => WidgetNode::Empty,
        WidgetNode::Tuple(nodes) => WidgetNode::Tuple(nodes),
        WidgetNode::Component(component) => process_node_component(
            component,
            states,
            path,
            pass,
            possible_key,
            master_shared_props,
            process_context,
            budget,
        ),
        WidgetNode::Unit(unit) => process_node_unit(
            unit,
            states,
            path,
            pass,
            master_shared_props,
            process_context,
            budget,
        ),
    }
}

/// What is known of a composite widget once it has been given its identity.
pub struct OpenedComponent {
    /// The identity of the widget.
    pub id: WidgetId,
    /// The path to the place of the widget, its own key last.
    pub path: Vec<String>,
    /// Whether the widget had no state: it is mounted in this pass.
    pub mounted: bool,
    /// The state of the widget: what the store holds, or an empty state if it
    /// is mounted.
    pub state: Props,
    /// The messages that waited for the widget, oldest first.
    pub messages: Messages,
    /// The animations of the widget as they are.
    pub animator: AnimatorStates,
}

/// The view of a place that may be missing.
pub open spec fn idref_view(idref: Option<crate::widget::WidgetRef>)
    -> Option<Option<WidgetIdView>> {
    match idref {
        Some(place) => Some(place@),
        None => None,
    }
}

/// The view of a key that may be missing.
pub open spec fn key_view(key: Option<String>) -> Option<Seq<char>> {
    match key {
        Some(key) => Some(key@),
        None => None,
    }
}

/// Gives a composite widget its identity and makes what its processor is
/// handed. The identity comes from the type of the widget, the path and the
/// key; it is written into the place that the widget has for it. The messages
/// that wait for the widget are taken out of the store. The processor is
/// handed the widget's properties and children as they are, the properties
/// from above with the widget's own shared properties written over them, the
/// state and animations that the stores hold for the identity, or empty ones,
/// and an empty life cycle.
pub fn open_component<P>(
    component: WidgetComponent<P>,
    states: &WidgetStore<Props>,
    path: Vec<String>,
    messages: &mut WidgetStore<Messages>,
    animators: &WidgetStore<AnimatorStates>,
    possible_key: &String,
    master_shared_props: Option<Props>,
) -> (opened: (P, WidgetContext<P>, OpenedComponent))
    ensures
        opened.0 == component.processor,
        opened.2.id@ == component_identity(
            component.type_tag@,
            strings_view(path@),
            key_view(component.key),
            possible_key@,
        ),
        strings_view(opened.2.path@) == strings_view(path@).push(
            chosen_key(key_view(component.key), possible_key@),
        ),
        opened.2.mounted == !states@.contains_key(opened.2.id@),
        opened.2.state@ == if states@.contains_key(opened.2.id@) {
            states@[opened.2.id@]@
        } else {
            Props::spec_empty()
        },
        contents(opened.2.messages@) == if old(messages)@.contains_key(opened.2.id@) {
            contents(old(messages)@[opened.2.id@]@)
        } else {
            Seq::empty()
        },
        opened.2.animator@ == if animators@.contains_key(opened.2.id@) {
            animators@[opened.2.id@]@
        } else {
            Map::<Seq<char>, AnimatorState>::empty()
        },
        final(messages)@ == old(messages)@.remove(opened.2.id@),
        opened.1.id@ == opened.2.id@,
        idref_view(opened.1.idref) == (match component.idref {
            Some(_) => Some(Some(opened.2.id@)),
            None => None,
        }),
        opened.1.key@ == chosen_key(key_view(component.key), possible_key@),
        opened.1.props == component.props,
        opened.1.shared_props@ == merged_shared(
            props_view(master_shared_props),
            props_view(component.shared_props),
        ),
        opened.1.state.data() == opened.2.state@,
        opened.1.state.pending().is_none(),
        opened.1.animator@ == opened.2.animator@,
        opened.1.life_cycle.mounts().len() == 0,
        opened.1.life_cycle.changes().len() == 0,
        opened.1.life_cycle.unmounts().len() == 0,
        opened.1.named_slots == component.named_slots,
        opened.1.listed_slots == component.listed_slots,
{
    let WidgetComponent {
        processor,
        type_tag,
        key,
        idref,
        props,
        shared_props,
        listed_slots,
        named_slots,
    } = component;
    let shared_props = merge_shared_props(master_shared_props, shared_props);
    let key = component_key(key, possible_key);
    let ghost above = strings_view(path@);
    let mut path = path;
    path.push(key.clone());
    proof {
        assert(strings_view(path@) =~= above.push(key@));
    }
    let id = WidgetId::new(type_tag, clone_strings(&path));
    let idref = match idref {
        Some(place) => {
            let mut place = place;
            place.write(id.clone());
            Some(place)
        },
        None => None,
    };
    let taken = take_messages(messages, &id);
    let mounted = !states.contains_key(&id);
    let state = match states.get(&id) {
        Some(state) => state.clone(),
        None => Props::new(),
    };
    let animator = match animators.get(&id) {
        Some(states) => states.clone(),
        None => AnimatorStates::empty(),
    };
    let context = WidgetContext {
        id: id.clone(),
        idref,
        key,
        props,
        shared_props,
        state: State::new(state.clone()),
        animator: animator.clone(),
        life_cycle: WidgetLifeCycle::new(),
        named_slots,
        listed_slots,
    };
    (processor, context, OpenedComponent { id, path, mounted, state, messages: taken, animator })
}

/// Books a widget that has been expanded: its identity is marked as used, and
/// a widget that is mounted gets its empty first state.
pub fn book_component<P>(pass: &mut Reconciliation<P>, id: &WidgetId, mounted: bool)
    ensures
        final(pass).used_ids@ == old(pass).used_ids@.insert(id@, ()),
        mounted ==> final(pass).new_states@.dom() == old(pass).new_states@.dom().insert(id@)
            && final(pass).new_states@[id@]@ == Props::spec_empty() && (forall|
            other: WidgetIdView,
        |
            other != id@ && old(pass).new_states@.contains_key(other)
                ==> final(pass).new_states@[other] == old(pass).new_states@[other]),
        !mounted ==> final(pass).new_states == old(pass).new_states,
        final(pass).unmount_closures == old(pass).unmount_closures,
        final(pass).messages == old(pass).messages,
        final(pass).state_changes == old(pass).state_changes,
        final(pass).animators == old(pass).animators,
        final(pass).message_sender == old(pass).message_sender,
        final(pass).signals == old(pass).signals,
{
    pass.used_ids.insert(id.clone(), ());
    if mounted {
        pass.new_states.insert(id.clone(), Props::new());
    }
}

/// Keeps the hooks for leaving the tree that a processor registered for its
/// widget, in the place of those kept for the widget before. A widget whose
/// processor registered none keeps those it has.
pub fn keep_unmount_hooks<P>(
    unmount_closures: &mut WidgetStore<Vec<P>>,
    id: &WidgetId,
    unmount: Vec<P>,
)
    ensures
        unmount@.len() > 0 ==> final(unmount_closures)@ == old(unmount_closures)@.insert(
            id@,
            unmount,
        ),
        unmount@.len() == 0 ==> *final(unmount_closures) == *old(unmount_closures),
{
    if unmount.len() > 0 {
        unmount_closures.insert(id.clone(), unmount);
    }
}

/// The hooks that run for a widget that has just been expanded: those for
/// mounting if the widget is mounted in this pass, those for changes if it had
/// state already.
pub fn hooks_to_run<P>(mounted: bool, mount: Vec<P>, change: Vec<P>) -> (hooks: Vec<P>)
    ensures
        hooks@ == if mounted {
            mount@
        } else {
            change@
        },
{
    if mounted {
        mount
    } else {
        change
    }
}

/// Keeps the last of the states that a widget left in a pass as its state for
/// the next pass. A widget that left none keeps what was kept for it.
pub fn stage_state_changes(state_changes: &mut WidgetStore<Props>, id: &WidgetId, staged: Vec<Props>)
    ensures
        staged@.len() == 0 ==> final(state_changes)@ == old(state_changes)@,
        staged@.len() > 0 ==> final(state_changes)@ == old(state_changes)@.insert(
            id@,
            staged@.last(),
        ),
{
    let mut staged = staged;
    match staged.pop() {
        Some(last) => {
            state_changes.insert(id.clone(), last);
        },
        None => {},
    }
}

/// Expands a composite widget. The widget gets its identity from its type,
/// the path and its key, and the identity is marked as used. The messages
/// that wait for it are taken out of the store. If it has no state yet it is
/// mounted: it gets an empty state, and its mount hooks run; otherwise its
/// change hooks run. Its processor makes the node that is shown for it, and
/// that node is expanded in turn, at the same place and with one expansion
/// less in the budget. With no budget left the widget stays as it is.
pub fn process_node_component<P: WidgetProcessor<C>, C>(
    component: WidgetComponent<P>,
    states: &WidgetStore<Props>,
    path: Vec<String>,
    pass: &mut Reconciliation<P>,
    possible_key: String,
    master_shared_props: Option<Props>,
    process_context: &mut C,
    budget: usize,
) -> (expanded: WidgetNode<P>)
    requires
        old(pass).inv(states@.dom()),
    ensures
        final(pass).inv(states@.dom()),
        final(pass).grown_from(old(pass)),
        budget == 0 ==> expanded == WidgetNode::Component(component) && *final(pass) == *old(pass),
        budget > 0 ==> final(pass).used_ids@.contains_key(
            component_identity(
                component.type_tag@,
                strings_view(path@),
                key_view(component.key),
                possible_key@,
            ),
        ),
        budget > 0 ==> !final(pass).messages@.contains_key(
            component_identity(
                component.type_tag@,
                strings_view(path@),
                key_view(component.key),
                possible_key@,
            ),
        ),
        budget > 0 ==> (final(pass).new_states@.contains_key(
            component_identity(
                component.type_tag@,
                strings_view(path@),
                key_view(component.key),
                possible_key@,
            ),
        ) <==> !states@.contains_key(
            component_identity(
                component.type_tag@,
                strings_view(path@),
                key_view(component.key),
                possible_key@,
            ),
        )),
        final(pass).hooks_kept_above(old(pass), (path@.len() + 1) as nat),
    decreases budget, 0nat, 1nat,
{
    if budget == 0 {
        return WidgetNode::Component(component);
    }
    let (processor, context, opened) = open_component(
        component,
        states,
        path,
        &mut pass.messages,
        &pass.animators,
        &possible_key,
        master_shared_props,
    );
    let mut context = context;
    let new_node = processor.process(&mut context, process_context);
    let ghost opened_pass = *pass;
    let ghost id = opened.id@;
    let expanded = settle_component(
        new_node,
        context,
        opened,
        states,
        pass,
        possible_key,
        process_context,
        budget - 1,
    );
    proof {
        assert(pass.hooks_kept_above(old(pass), (path@.len() + 1) as nat));
        assert(opened_pass.used_ids == old(pass).used_ids);
        assert forall|other: WidgetIdView| #[trigger]
            old(pass).messages@.contains_key(other) implies pass.messages@.contains_key(other)
            || pass.used_ids@.contains_key(other) by {
            if other != id {
                assert(opened_pass.messages@.contains_key(other));
            }
        }
    }
    expanded
}

/// Expands what is in the slots of a layout primitive. The primitive itself
/// stays as it is. The one slot of an area box, a size box or a portal is a
/// place whose key is a dot; the item at an index of a content, flex or grid
/// box is a place whose key is the index between angle brackets. Every slot is
/// expanded with the same path and the same properties from above.
pub fn process_node_unit<P: WidgetProcessor<C>, C>(
    unit: WidgetUnitNode<P>,
    states: &WidgetStore<Props>,
    path: Vec<String>,
    pass: &mut Reconciliation<P>,
    master_shared_props: Option<Props>,
    process_context: &mut C,
    budget: usize,
) -> (expanded: WidgetNode<P>)
    requires
        old(pass).inv(states@.dom()),
    ensures
        final(pass).inv(states@.dom()),
        final(pass).grown_from(old(pass)),
        !unit.model().unresolved() ==> expanded.model() == NodeModel::Unit(unit.model())
            && *final(pass) == *old(pass),
        budget == 0 ==> expanded.model() == NodeModel::Unit(unit.model()) && *final(pass) == *old(pass),
        budget > 0 ==> forall|id: WidgetIdView|
            met_in_unit(unit.model(), strings_view(path@), id)
                ==> #[trigger] final(pass).used_ids@.contains_key(id),
        expanded.model() is Unit,
        unit.model().same_frame(expanded.model()->Unit_0),
        unit.model() matches UnitNodeModel::Multi { items, .. } ==> forall|i: int|
            0 <= i < items.len() && !(#[trigger] items[i]).slot.unresolved()
                ==> expanded.model()->Unit_0->Multi_items[i] == items[i],
        final(pass).hooks_kept_above(old(pass), (path@.len() + 1) as nat),
    decreases budget, unit.model().size(), 1nat,
{
    let inner = match unit {
        WidgetUnitNode::Empty => WidgetUnitNode::Empty,
        WidgetUnitNode::ImageBox(b) => WidgetUnitNode::ImageBox(b),
        WidgetUnitNode::TextBox(b) => WidgetUnitNode::TextBox(b),
        WidgetUnitNode::AreaBox(b) => {
            let AreaBoxNode { id, slot } = b;
            let slot = process_node(
                *slot,
                states,
                path,
                pass,
                make_slot_key(),
                master_shared_props,
                process_context,
                budget,
            );
            WidgetUnitNode::AreaBox(AreaBoxNode { id, slot: Box::new(slot) })
        },
        WidgetUnitNode::SizeBox(b) => {
            let SizeBoxNode { id, props, slot, width, height, margin } = b;
            let slot = process_node(
                *slot,
                states,
                path,
                pass,
                make_slot_key(),
                master_shared_props,
                process_context,
                budget,
            );
            WidgetUnitNode::SizeBox(
                SizeBoxNode { id, props, slot: Box::new(slot), width, height, margin },
            )
        },
        WidgetUnitNode::PortalBox(b) => {
            let PortalBoxNode { id, slot, owner } = b;
            let slot = match *slot {
                PortalBoxSlotNode::Slot(inner) => {
                    PortalBoxSlotNode::Slot(
                        process_node(
                            inner,
                            states,
                            path,
                            pass,
                            make_slot_key(),
                            master_shared_props,
                            process_context,
                            budget,
                        ),
                    )
                },
                PortalBoxSlotNode::ContentItem(item) => {
                    let ContentBoxItemNode { slot, layout } = item;
                    let slot = process_node(
                        slot,
                        states,
                        path,
                        pass,
                        make_slot_key(),
                        master_shared_props,
                        process_context,
                        budget,
                    );
                    PortalBoxSlotNode::ContentItem(ContentBoxItemNode { slot, layout })
                },
                PortalBoxSlotNode::FlexItem(item) => {
                    let FlexBoxItemNode { slot, layout } = item;
                    let slot = process_node(
                        slot,
                        states,
                        path,
                        pass,
                        make_slot_key(),
                        master_shared_props,
                        process_context,
                        budget,
                    );
                    PortalBoxSlotNode::FlexItem(FlexBoxItemNode { slot, layout })
                },
                PortalBoxSlotNode::GridItem(item) => {
                    let GridBoxItemNode { slot, layout } = item;
                    let slot = process_node(
                        slot,
                        states,
                        path,
                        pass,
                        make_slot_key(),
                        master_shared_props,
                        process_context,
                        budget,
                    );
                    PortalBoxSlotNode::GridItem(GridBoxItemNode { slot, layout })
                },
            };
            WidgetUnitNode::PortalBox(PortalBoxNode { id, slot: Box::new(slot), owner })
        },
        WidgetUnitNode::ContentBox(b) => {
            let ContentBoxNode { id, props, items, clipping } = b;
            let ghost shapes = unit.model()->Multi_items;
            let ghost given = items@;
            assert(shapes == node_items_model(given));
            let items = process_items(
                items,
                states,
                &path,
                pass,
                &master_shared_props,
                process_context,
                budget,
                Ghost(unit.model().size()),
            );
            let inner = WidgetUnitNode::ContentBox(ContentBoxNode { id, props, items, clipping });
            proof {
                assert(inner.model()->Multi_items == node_items_model(items@));
                lemma_items_walked(given, items@, strings_view(path@), pass.used_ids@, budget);
            }
            inner
        },
        WidgetUnitNode::FlexBox(b) => {
            let FlexBoxNode { id, props, items, direction, separation, wrap } = b;
            let ghost shapes = unit.model()->Multi_items;
            let ghost given = items@;
            assert(shapes == node_items_model(given));
            let items = process_items(
                items,
                states,
                &path,
                pass,
                &master_shared_props,
                process_context,
                budget,
                Ghost(unit.model().size()),
            );
            let inner = WidgetUnitNode::FlexBox(FlexBoxNode { id, props, items, direction, separation, wrap });
            proof {
                assert(inner.model()->Multi_items == node_items_model(items@));
                lemma_items_walked(given, items@, strings_view(path@), pass.used_ids@, budget);
            }
            inner
        },
        WidgetUnitNode::GridBox(b) => {
            let GridBoxNode { id, props, items, cols, rows } = b;
            let ghost shapes = unit.model()->Multi_items;
            let ghost given = items@;
            assert(shapes == node_items_model(given));
            let items = process_items(
                items,
                states,
                &path,
                pass,
                &master_shared_props,
                process_context,
                budget,
                Ghost(unit.model().size()),
            );
            let inner = WidgetUnitNode::GridBox(GridBoxNode { id, props, items, cols, rows });
            proof {
                assert(inner.model()->Multi_items == node_items_model(items@));
                lemma_items_walked(given, items@, strings_view(path@), pass.used_ids@, budget);
            }
            inner
        },
    };
    proof {
        assert(unit.model().same_frame(inner.model()));
        assert(budget == 0 ==> inner.model() == unit.model());
    }
    WidgetNode::Unit(inner)
}

/// What expanding the items of a container one by one means for the
/// container: `given` are the items before and `made` the items after, and
/// `used` holds the identities that the walk has marked. If every item whose
/// slot holds no composite widget is unchanged, a container without composite
/// widgets is unchanged; and if the walk marked what it met in every item, it
/// marked what it met in the container.
proof fn lemma_items_walked<P, I: NodeItem<P>>(
    given: Seq<I>,
    made: Seq<I>,
    path: Seq<Seq<char>>,
    used: Map<WidgetIdView, ()>,
    budget: usize,
)
    requires
        made.len() == given.len(),
        budget == 0 ==> forall|i: int|
            0 <= i < given.len() ==> (#[trigger] made[i]).model() == given[i].model(),
        forall|i: int|
            0 <= i < given.len() && !(#[trigger] given[i]).model().slot.unresolved()
                ==> made[i].model() == given[i].model(),
        budget > 0 ==> forall|i: int, id: WidgetIdView|
            0 <= i < given.len() && met_in(
                (#[trigger] given[i]).model().slot,
                path,
                index_key(i as nat),
                id,
            ) ==> #[trigger] used.contains_key(id),
    ensures
        budget == 0 ==> node_items_model(made) == node_items_model(given),
        !(exists|i: int|
            0 <= i < given.len() && (#[trigger] node_items_model(given)[i]).slot.unresolved())
            ==> node_items_model(made) == node_items_model(given) && forall|i: int|
            0 <= i < given.len() ==> !(#[trigger] given[i]).model().slot.unresolved(),
        budget > 0 ==> forall|id: WidgetIdView|
            (exists|i: int|
                0 <= i < given.len() && met_in(
                    (#[trigger] node_items_model(given)[i]).slot,
                    path,
                    index_key(i as nat),
                    id,
                )) ==> #[trigger] used.contains_key(id),
{
    let shapes = node_items_model(given);
    let after = node_items_model(made);
    if budget == 0 {
        assert(after =~= shapes);
    } else {
        assert forall|id: WidgetIdView|
            (exists|i: int|
                0 <= i < given.len() && met_in(
                    (#[trigger] shapes[i]).slot,
                    path,
                    index_key(i as nat),
                    id,
                )) implies #[trigger] used.contains_key(id) by {
            let i = choose|i: int|
                0 <= i < given.len() && met_in(
                    (#[trigger] shapes[i]).slot,
                    path,
                    index_key(i as nat),
                    id,
                );
            assert(shapes[i] == given[i].model());
        }
    }
    if !(exists|i: int| 0 <= i < given.len() && (#[trigger] shapes[i]).slot.unresolved()) {
        assert forall|i: int| 0 <= i < given.len() implies !(#[trigger] given[i]).model().slot.unresolved() by {
            assert(shapes[i] == given[i].model());
        }
        assert(after =~= shapes);
    }
}

/// Expands what is in the slots of the items of a container, one item after
/// the other. The item at an index is a place whose key is the index between
/// angle brackets; every item gets its own copy of the path and of the
/// properties from above.
fn process_items<P: WidgetProcessor<C>, C, I: NodeItem<P>>(
    items: Vec<I>,
    states: &WidgetStore<Props>,
    path: &Vec<String>,
    pass: &mut Reconciliation<P>,
    master_shared_props: &Option<Props>,
    process_context: &mut C,
    budget: usize,
    Ghost(bound): Ghost<nat>,
) -> (expanded: Vec<I>)
    requires
        old(pass).inv(states@.dom()),
        sum_from(node_sizes_of(node_items_model(items@)), 0) < bound,
    ensures
        final(pass).inv(states@.dom()),
        final(pass).grown_from(old(pass)),
        expanded@.len() == items@.len(),
        forall|i: int|
            0 <= i < items@.len() ==> (#[trigger] expanded@[i]).model().layout
                == items@[i].model().layout,
        (forall|i: int| 0 <= i < items@.len() ==> !(#[trigger] items@[i]).model().slot.unresolved())
            ==> *final(pass) == *old(pass) && (forall|i: int|
            0 <= i < items@.len() ==> (#[trigger] expanded@[i]).model() == items@[i].model()),
        budget == 0 ==> *final(pass) == *old(pass) && (forall|i: int|
            0 <= i < items@.len() ==> (#[trigger] expanded@[i]).model() == items@[i].model()),
        forall|i: int|
            0 <= i < items@.len() && !(#[trigger] items@[i]).model().slot.unresolved()
                ==> expanded@[i].model() == items@[i].model(),
        budget > 0 ==> forall|i: int, id: WidgetIdView|
            0 <= i < items@.len() && met_in(
                (#[trigger] items@[i]).model().slot,
                strings_view(path@),
                index_key(i as nat),
                id,
            ) ==> #[trigger] final(pass).used_ids@.contains_key(id),
        final(pass).hooks_kept_above(old(pass), (path@.len() + 1) as nat),
    decreases budget, bound, 0nat,
{
    let ghost models = node_items_model(items@);
    let ghost known = states@.dom();
    let mut pending = items;
    let count = pending.len();
    let mut i: usize = 0;
    while i < count
        invariant
            i <= count,
            count == pending.len(),
            count == models.len(),
            models == node_items_model(items@),
            known == states@.dom(),
            sum_from(node_sizes_of(models), 0) < bound,
            pass.inv(known),
            pass.grown_from(old(pass)),
            pass.hooks_kept_above(old(pass), (path@.len() + 1) as nat),
            forall|j: int| i <= j < count ==> (#[trigger] pending@[j]).model() == models[j],
            forall|j: int| 0 <= j < i
                ==> (#[trigger] pending@[j]).model().layout == models[j].layout,
            (forall|j: int| 0 <= j < i ==> !(#[trigger] models[j]).slot.unresolved()) ==> {
                &&& *pass == *old(pass)
                &&& forall|j: int| 0 <= j < i ==> (#[trigger] pending@[j]).model() == models[j]
            },
            budget == 0 ==> {
                &&& *pass == *old(pass)
                &&& forall|j: int| 0 <= j < i ==> (#[trigger] pending@[j]).model() == models[j]
            },
            forall|j: int|
                0 <= j < i && !(#[trigger] models[j]).slot.unresolved() ==> pending@[j].model()
                    == models[j],
            budget > 0 ==> forall|j: int, id: WidgetIdView|
                0 <= j < i && met_in(
                    (#[trigger] models[j]).slot,
                    strings_view(path@),
                    index_key(j as nat),
                    id,
                ) ==> #[trigger] pass.used_ids@.contains_key(id),
        decreases count - i,
    {
        proof {
            lemma_sum_from_bound(node_sizes_of(models), 0, i as int);
        }
        let ghost earlier = *pass;
        let slot = pending[i].take_slot();
        let shared = match master_shared_props {
            Some(props) => Some(props.clone()),
            None => None,
        };
        let here = clone_strings(path);
        let slot = process_node(
            slot,
            states,
            here,
            pass,
            make_index_key(i),
            shared,
            process_context,
            budget,
        );
        pending[i].put_slot(slot);
        proof {
            let later = *pass;
            lemma_grown_transitive(old(pass), &earlier, &later);
            if budget > 0 {
                assert forall|j: int, id: WidgetIdView|
                    0 <= j < i + 1 && met_in(
                        (#[trigger] models[j]).slot,
                        strings_view(path@),
                        index_key(j as nat),
                        id,
                    ) implies #[trigger] later.used_ids@.contains_key(id) by {
                    if j < i {
                        assert(earlier.used_ids@.contains_key(id));
                    }
                }
            }
        }
        i += 1;
    }
    proof {
        if budget > 0 {
            assert forall|j: int, id: WidgetIdView|
                0 <= j < items@.len() && met_in(
                    (#[trigger] items@[j]).model().slot,
                    strings_view(path@),
                    index_key(j as nat),
                    id,
                ) implies #[trigger] pass.used_ids@.contains_key(id) by {
                assert(models[j] == items@[j].model());
            }
        }
    }
    pending
}

/// A number in decimal has at least one digit.
pub proof fn lemma_decimal_len(number: nat)
    ensures
        decimal(number).len() >= 1,
        number >= 10 ==> decimal(number).len() >= 2,
    decreases number,
{
    if number >= 10 {
        lemma_decimal_len(number / 10);
    }
}

/// Different numbers are written differently.
pub proof fn lemma_decimal_injective(left: nat, right: nat)
    requires
        decimal(left) == decimal(right),
    ensures
        left == right,
    decreases left,
{
    lemma_decimal_len(left);
    lemma_decimal_len(right);
    if left < 10 {
        assert(decimal(left)[0] == digit_char(left));
    } else {
        let a = decimal(left / 10);
        let b = decimal(right / 10);
        assert(decimal(left).last() == digit_char(left % 10));
        assert(decimal(left).drop_last() == a);
        assert(decimal(right).drop_last() == b);
        lemma_decimal_injective(left / 10, right / 10);
    }
}

/// Items at different indices of a container are places with different keys.
pub proof fn lemma_index_keys_differ(left: nat, right: nat)
    requires
        left != right,
    ensures
        index_key(left) != index_key(right),
{
    if index_key(left) == index_key(right) {
        let a = index_key(left);
        let b = index_key(right);
        assert(a.subrange(1, a.len() - 1) == decimal(left));
        assert(b.subrange(1, b.len() - 1) == decimal(right));
        lemma_decimal_injective(left, right);
    }
}

/// Two widgets of one type at one path have the same identity only if they
/// have the same key: widgets with different keys never share state.
pub proof fn lemma_identities_differ_by_key(
    type_tag: Seq<char>,
    path: Seq<Seq<char>>,
    left: Seq<char>,
    right: Seq<char>,
)
    requires
        left != right,
    ensures
        WidgetIdView::compose(type_tag, path.push(left)) != WidgetIdView::compose(
            type_tag,
            path.push(right),
        ),
{
    lemma_compose_parts(type_tag, path.push(left));
    lemma_compose_parts(type_tag, path.push(right));
}

/// Widgets of different types never share an identity, wherever they are.
pub proof fn lemma_identities_differ_by_type(
    left: Seq<char>,
    left_path: Seq<Seq<char>>,
    right: Seq<char>,
    right_path: Seq<Seq<char>>,
)
    requires
        left != right,
    ensures
        WidgetIdView::compose(left, left_path) != WidgetIdView::compose(right, right_path),
{
    lemma_compose_parts(left, left_path);
    lemma_compose_parts(right, right_path);
}

/// A widget that has state when a pass begins is not mounted in that pass,
/// and every widget that a pass expands has state when the pass is over:
/// so a pass that meets the widgets of the pass before mounts none of them.
pub proof fn lemma_no_second_mount<P>(
    pass: Reconciliation<P>,
    known: Set<WidgetIdView>,
    id: WidgetIdView,
)
    requires
        pass.inv(known),
    ensures
        known.contains(id) ==> !pass.new_states@.contains_key(id),
        pass.used_ids@.contains_key(id) ==> known.contains(id) || pass.new_states@.contains_key(id),
        pass.new_states@.contains_key(id) ==> pass.used_ids@.contains_key(id),
{
}

/// Hooks for leaving the tree are kept only for widgets that have state, so
/// none can run before its widget was mounted; and no message waits for a
/// widget that was expanded.
pub proof fn lemma_hooks_follow_state<P>(
    pass: Reconciliation<P>,
    known: Set<WidgetIdView>,
    id: WidgetIdView,
)
    requires
        pass.inv(known),
    ensures
        pass.unmount_closures@.contains_key(id) ==> known.contains(id)
            || pass.new_states@.contains_key(id),
        pass.animators@.contains_key(id) ==> known.contains(id) || pass.new_states@.contains_key(
            id,
        ),
        pass.used_ids@.contains_key(id) ==> !pass.messages@.contains_key(id),
{
}

/// Whether the walk over `node`, which stands at `path` in a place whose key
/// is `possible_key`, meets the composite widget with the identity `id`
/// before any processor has run: `node` is that widget, or the widget stands
/// in a slot of the primitives that `node` is made of. What is inside a group
/// or among the children of a composite widget is not met.
pub open spec fn met_in<P>(
    node: NodeModel<P>,
    path: Seq<Seq<char>>,
    possible_key: Seq<char>,
    id: WidgetIdView,
) -> bool
    decreases node,
{
    match node {
        NodeModel::Component(c) => id == component_identity(c.type_tag, path, c.key, possible_key),
        NodeModel::Unit(unit) => met_in_unit(unit, path, id),
        _ => false,
    }
}

/// Whether the walk over the slots of `unit`, which stands at `path`, meets
/// the composite widget with the identity `id` before any processor has run.
/// The one slot of a container is a place whose key is a dot, the item at an
/// index is a place whose key is the index between angle brackets.
pub open spec fn met_in_unit<P>(unit: UnitNodeModel<P>, path: Seq<Seq<char>>, id: WidgetIdView) -> bool
    decreases unit,
{
    match unit {
        UnitNodeModel::Single { slot, .. } => met_in(*slot, path, slot_key(), id),
        UnitNodeModel::Portal { slot, .. } => met_in(slot.slot, path, slot_key(), id),
        UnitNodeModel::Multi { items, .. } => exists|i: int|
            0 <= i < items.len() && met_in((#[trigger] items[i]).slot, path, index_key(i as nat), id),
        _ => false,
    }
}

/// What a hook is handed when its widget has been mounted or has changed: the
/// identity of the widget, copies of its properties, of its state and of the
/// messages that came for it, its animations as they are, and nothing sent or
/// asked for yet.
pub fn hook_context(
    id: &WidgetId,
    props: &Props,
    shared_props: &Props,
    state: &Props,
    messages: &Messages,
    animator: &AnimatorStates,
) -> (context: WidgetMountOrChangeContext)
    ensures
        context.id@ == id@,
        context.props@ == props@,
        context.shared_props@ == shared_props@,
        context.state.data() == state@,
        context.state.pending().is_none(),
        context.messenger.received() == contents(messages@),
        context.messenger.sent().len() == 0,
        context.signals.id() == id@,
        context.signals.sent().len() == 0,
        context.animator.states() == animator@,
        context.animator.changes().len() == 0,
{
    WidgetMountOrChangeContext {
        id: id.clone(),
        props: props.clone(),
        shared_props: shared_props.clone(),
        state: State::new(state.clone()),
        messenger: Messenger::new(clone_messages(messages)),
        signals: SignalSender::new(id.clone()),
        animator: Animator::new(animator.clone()),
    }
}

/// Takes what a hook left in its context into the collections of the pass:
/// the state that it left is the last of the staged states, the messages that
/// it sent follow those sent before, its signals follow the signals sent
/// before and carry the identity `id` of the widget, and the changes of
/// animations that it asked for follow those asked for before.
pub fn absorb_hook(
    context: WidgetMountOrChangeContext,
    id: &WidgetId,
    sender: &mut MessageSender,
    signals: &mut Vec<Signal>,
    staged: &mut Vec<Props>,
    changes: &mut Vec<(String, Option<Animation>)>,
)
    ensures
        final(sender)@ == old(sender)@ + context.messenger.sent(),
        final(signals)@.len() == old(signals)@.len() + context.signals.sent().len(),
        final(signals)@.subrange(0, old(signals)@.len() as int) == old(signals)@,
        forall|i: int|
            0 <= i < context.signals.sent().len()
                ==> (#[trigger] final(signals)@[old(signals)@.len() + i]).0@ == id@
                && final(signals)@[old(signals)@.len() + i].1@
                == context.signals.sent()[i],
        match context.state.pending() {
            Some(left) => {
                &&& final(staged)@.len() == old(staged)@.len() + 1
                &&& final(staged)@.drop_last() == old(staged)@
                &&& final(staged)@.last()@ == left
            },
            None => final(staged)@ == old(staged)@,
        },
        final(changes)@.len() == old(changes)@.len() + context.animator.changes().len(),
        final(changes)@.subrange(0, old(changes)@.len() as int) == old(changes)@,
        changes_model(final(changes)@) == changes_model(old(changes)@) + context.animator.changes(),
{
    let WidgetMountOrChangeContext {
        id: _,
        props: _,
        shared_props: _,
        state,
        messenger,
        signals: sent,
        animator,
    } = context;
    match state.unwrap() {
        Some(data) => {
            staged.push(data);
            assert(staged@.drop_last() =~= old(staged)@);
        },
        None => {},
    }
    sender.extend(messenger.unwrap());
    stamp_signals(signals, id, sent.unwrap());
    let mut asked = animator.unwrap();
    changes.append(&mut asked);
    assert(changes@.subrange(0, old(changes)@.len() as int) =~= old(changes)@);
    assert(changes_model(changes@) =~= changes_model(old(changes)@) + context.animator.changes());
}

/// Settles a composite widget whose processor has run. `new_node` is what the
/// processor made, `context` is the context as the processor left it, and
/// `opened` is what was known of the widget when it was given its identity.
///
/// The widget is booked. The hooks for mounting run if it is mounted, those
/// for changes otherwise; each is handed the properties as the processor left
/// them, the state that the widget had when it was opened, and the messages
/// that waited for it. The animations that the hooks ask for are applied.
/// Then `new_node` is expanded at the path of the widget, in a place with the
/// same key as the widget's own place, below the shared properties as the
/// processor left them, with `budget` expansions left. At last the hooks for
/// leaving that the processor registered are kept, and the last state that
/// the processor or a hook left is staged for the next pass. A widget whose
/// processor registered no hook for leaving keeps those it had, and no widget
/// nearer to the root than this one has its hooks for leaving touched.
pub fn settle_component<P: WidgetProcessor<C>, C>(
    new_node: WidgetNode<P>,
    context: WidgetContext<P>,
    opened: OpenedComponent,
    states: &WidgetStore<Props>,
    pass: &mut Reconciliation<P>,
    possible_key: String,
    process_context: &mut C,
    budget: usize,
) -> (expanded: WidgetNode<P>)
    requires
        old(pass).inv(states@.dom()),
        opened.mounted == !states@.contains_key(opened.id@),
        !old(pass).messages@.contains_key(opened.id@),
        opened.id@.depth == opened.path@.len(),
    ensures
        final(pass).inv(states@.dom()),
        final(pass).grown_from(old(pass)),
        final(pass).hooks_kept_above(old(pass), opened.path@.len() as nat),
        final(pass).used_ids@.contains_key(opened.id@),
        opened.mounted ==> final(pass).new_states@.contains_key(opened.id@),
        !new_node.model().unresolved() ==> expanded.model() == new_node.model(),
        budget == 0 ==> expanded.model() == new_node.model(),
        budget > 0 ==> forall|id: WidgetIdView|
            met_in(new_node.model(), strings_view(opened.path@), possible_key@, id)
                ==> #[trigger] final(pass).used_ids@.contains_key(id),
        context.life_cycle.unmounts().len() > 0 ==> final(pass).unmount_closures@.contains_key(
            opened.id@,
        ) && final(pass).unmount_closures@[opened.id@]@ == context.life_cycle.unmounts(),
        context.life_cycle.unmounts().len() == 0 ==> (final(pass).unmount_closures@.contains_key(
            opened.id@,
        ) <==> old(pass).unmount_closures@.contains_key(opened.id@)),
        context.life_cycle.unmounts().len() == 0 && old(pass).unmount_closures@.contains_key(
            opened.id@,
        ) ==> final(pass).unmount_closures@[opened.id@] == old(pass).unmount_closures@[opened.id@],
        context.state.pending() is Some ==> final(pass).state_changes@.contains_key(opened.id@),
        context.state.pending() matches Some(left) ==> (if opened.mounted {
            context.life_cycle.mounts()
        } else {
            context.life_cycle.changes()
        }).len() == 0 ==> final(pass).state_changes@[opened.id@]@ == left,
    decreases budget, new_node.model().size(), 3nat,
{
    let OpenedComponent { id, path, mounted, state: state_data, messages: messages_list, animator } =
        opened;
    let WidgetContext {
        id: _,
        idref: _,
        key: _,
        props,
        shared_props,
        state,
        animator: _,
        life_cycle,
        named_slots: _,
        listed_slots: _,
    } = context;
    let (mount, change, unmount) = life_cycle.unwrap();
    book_component(pass, &id, mounted);
    let mut staged: Vec<Props> = Vec::new();
    match state.unwrap() {
        Some(data) => {
            staged.push(data);
        },
        None => {},
    }
    let mut changes: Vec<(String, Option<Animation>)> = Vec::new();
    let hooks = hooks_to_run(mounted, mount, change);
    run_hooks(
        &hooks,
        &id,
        &props,
        &shared_props,
        &state_data,
        &messages_list,
        &animator,
        &mut pass.message_sender,
        &mut pass.signals,
        &mut staged,
        &mut changes,
        process_context,
    );
    apply_animation_changes(&mut pass.animators, &id, changes);
    let ghost middle = *pass;
    proof {
        assert(middle.used_ids@.contains_key(id@));
        assert forall|i: int| 0 <= i < middle.signals@.len() implies
            middle.used_ids@.contains_key((#[trigger] middle.signals@[i]).0@) by {
            if i < old(pass).signals@.len() {
                assert(middle.signals@[i] == middle.signals@.subrange(
                    0,
                    old(pass).signals@.len() as int,
                )[i]);
                assert(old(pass).used_ids@.contains_key(old(pass).signals@[i].0@));
            }
        }
        assert(middle.inv(states@.dom()));
    }
    let expanded = process_node(
        new_node,
        states,
        path,
        pass,
        possible_key,
        Some(shared_props),
        process_context,
        budget,
    );
    let ghost late = *pass;
    proof {
        lemma_grown_transitive(old(pass), &middle, &late);
        assert(late.unmount_closures@.contains_key(id@) <==> middle.unmount_closures@.contains_key(
            id@,
        ));
    }
    keep_unmount_hooks(&mut pass.unmount_closures, &id, unmount);
    stage_state_changes(&mut pass.state_changes, &id, staged);
    expanded
}

/// The tree with the identity of every composite widget that the walk meets
/// before any processor has run written into the place that the widget has
/// for it. A widget without such a place stays as it is, and so does what is
/// inside a group or among the children of a composite widget.
pub open spec fn identified<P>(
    node: NodeModel<P>,
    path: Seq<Seq<char>>,
    possible_key: Seq<char>,
) -> NodeModel<P>
    decreases node,
{
    match node {
        NodeModel::Component(c) => NodeModel::Component(
            ComponentModel {
                idref: match c.idref {
                    Some(_) => Some(Some(component_identity(c.type_tag, path, c.key, possible_key))),
                    None => None,
                },
                ..c
            },
        ),
        NodeModel::Unit(unit) => NodeModel::Unit(identified_unit(unit, path)),
        _ => node,
    }
}

/// The same for the slots of the primitive `unit`, which stands at `path`.
pub open spec fn identified_unit<P>(unit: UnitNodeModel<P>, path: Seq<Seq<char>>) -> UnitNodeModel<
    P,
>
    decreases unit,
{
    match unit {
        UnitNodeModel::Single { kind, id, props, slot } => UnitNodeModel::Single {
            kind,
            id,
            props,
            slot: Box::new(identified(*slot, path, slot_key())),
        },
        UnitNodeModel::Portal { id, owner, slot } => UnitNodeModel::Portal {
            id,
            owner,
            slot: Box::new(
                NodeItemModel { slot: identified(slot.slot, path, slot_key()), layout: slot.layout },
            ),
        },
        UnitNodeModel::Multi { kind, id, props, items } => UnitNodeModel::Multi {
            kind,
            id,
            props,
            items: Seq::new(
                items.len(),
                |i: int|
                    if 0 <= i < items.len() {
                        NodeItemModel {
                            slot: identified(items[i].slot, path, index_key(i as nat)),
                            layout: items[i].layout,
                        }
                    } else {
                        arbitrary()
                    },
            ),
        },
        _ => unit,
    }
}

/// Writes the identity of every composite widget that the walk meets in
/// `node` before any processor has run into the place that the widget has
/// for it. `path` holds the keys from the root to the place of `node`, and
/// `possible_key` is the key that this place gives to a widget without a key.
pub fn write_identities<P>(node: WidgetNode<P>, path: &Vec<String>, possible_key: &String) -> (written:
    WidgetNode<P>)
    ensures
        written.model() == identified(node.model(), strings_view(path@), possible_key@),
    decreases node.model().size(), 2nat,
{
    match node {
        WidgetNode::Component(component) => {
            let WidgetComponent {
                processor,
                type_tag,
                key,
                idref,
                props,
                shared_props,
                listed_slots,
                named_slots,
            } = component;
            let idref = match idref {
                Some(place) => {
                    let chosen = match &key {
                        Some(key) => key.clone(),
                        None => possible_key.clone(),
                    };
                    let mut whole = clone_strings(path);
                    whole.push(chosen);
                    proof {
                        assert(strings_view(whole@) =~= strings_view(path@).push(chosen@));
                    }
                    let mut place = place;
                    place.write(WidgetId::new(type_tag.clone(), whole));
                    Some(place)
                },
                None => None,
            };
            WidgetNode::Component(
                WidgetComponent {
                    processor,
                    type_tag,
                    key,
                    idref,
                    props,
                    shared_props,
                    listed_slots,
                    named_slots,
                },
            )
        },
        WidgetNode::Unit(unit) => WidgetNode::Unit(write_unit_identities(unit, path)),
        other => other,
    }
}

/// The same for the slots of the primitive `unit`, which stands at `path`.
/// The one slot of a container is a place whose key is a dot, the item at an
/// index is a place whose key is the index between angle brackets.
pub fn write_unit_identities<P>(unit: WidgetUnitNode<P>, path: &Vec<String>) -> (written:
    WidgetUnitNode<P>)
    ensures
        written.model() == identified_unit(unit.model(), strings_view(path@)),
    decreases unit.model().size(), 1nat,
{
    match unit {
        WidgetUnitNode::AreaBox(b) => {
            let AreaBoxNode { id, slot } = b;
            let slot = write_identities(*slot, path, &make_slot_key());
            WidgetUnitNode::AreaBox(AreaBoxNode { id, slot: Box::new(slot) })
        },
        WidgetUnitNode::SizeBox(b) => {
            let SizeBoxNode { id, props, slot, width, height, margin } = b;
            let slot = write_identities(*slot, path, &make_slot_key());
            WidgetUnitNode::SizeBox(
                SizeBoxNode { id, props, slot: Box::new(slot), width, height, margin },
            )
        },
        WidgetUnitNode::PortalBox(b) => {
            let PortalBoxNode { id, slot, owner } = b;
            let slot = match *slot {
                PortalBoxSlotNode::Slot(inner) => PortalBoxSlotNode::Slot(
                    write_identities(inner, path, &make_slot_key()),
                ),
                PortalBoxSlotNode::ContentItem(item) => {
                    let ContentBoxItemNode { slot, layout } = item;
                    let slot = write_identities(slot, path, &make_slot_key());
                    PortalBoxSlotNode::ContentItem(ContentBoxItemNode { slot, layout })
                },
                PortalBoxSlotNode::FlexItem(item) => {
                    let FlexBoxItemNode { slot, layout } = item;
                    let slot = write_identities(slot, path, &make_slot_key());
                    PortalBoxSlotNode::FlexItem(FlexBoxItemNode { slot, layout })
                },
                PortalBoxSlotNode::GridItem(item) => {
                    let GridBoxItemNode { slot, layout } = item;
                    let slot = write_identities(slot, path, &make_slot_key());
                    PortalBoxSlotNode::GridItem(GridBoxItemNode { slot, layout })
                },
            };
            WidgetUnitNode::PortalBox(PortalBoxNode { id, slot: Box::new(slot), owner })
        },
        WidgetUnitNode::ContentBox(b) => {
            let ContentBoxNode { id, props, items, clipping } = b;
            assert(unit.model()->Multi_items == node_items_model(items@));
            let items = write_item_identities(items, path, Ghost(unit.model().size()));
            let written = WidgetUnitNode::ContentBox(ContentBoxNode { id, props, items, clipping });
            proof {
                lemma_items_identified(unit.model(), written.model(), strings_view(path@));
            }
            written
        },
        WidgetUnitNode::FlexBox(b) => {
            let FlexBoxNode { id, props, items, direction, separation, wrap } = b;
            assert(unit.model()->Multi_items == node_items_model(items@));
            let items = write_item_identities(items, path, Ghost(unit.model().size()));
            let written = WidgetUnitNode::FlexBox(
                FlexBoxNode { id, props, items, direction, separation, wrap },
            );
            proof {
                lemma_items_identified(unit.model(), written.model(), strings_view(path@));
            }
            written
        },
        WidgetUnitNode::GridBox(b) => {
            let GridBoxNode { id, props, items, cols, rows } = b;
            assert(unit.model()->Multi_items == node_items_model(items@));
            let items = write_item_identities(items, path, Ghost(unit.model().size()));
            let written = WidgetUnitNode::GridBox(GridBoxNode { id, props, items, cols, rows });
            proof {
                lemma_items_identified(unit.model(), written.model(), strings_view(path@));
            }
            written
        },
        other => other,
    }
}

/// A container whose items have had the identities written into their slots,
/// each at the key of its index, is the container with the identities
/// written.
proof fn lemma_items_identified<P>(
    before: UnitNodeModel<P>,
    after: UnitNodeModel<P>,
    path: Seq<Seq<char>>,
)
    requires
        before is Multi,
        after is Multi,
        after->Multi_kind == before->Multi_kind,
        after->Multi_id == before->Multi_id,
        after->Multi_props == before->Multi_props,
        after->Multi_items.len() == before->Multi_items.len(),
        forall|i: int|
            0 <= i < before->Multi_items.len() ==> (#[trigger] after->Multi_items[i])
                == (NodeItemModel {
                slot: identified(before->Multi_items[i].slot, path, index_key(i as nat)),
                layout: before->Multi_items[i].layout,
            }),
    ensures
        after == identified_unit(before, path),
{
    assert(after->Multi_items =~= identified_unit(before, path)->Multi_items);
}

/// Writes the identities into the slots of the items of a container, one
/// item after the other, each at the key of its index.
fn write_item_identities<P, I: NodeItem<P>>(
    items: Vec<I>,
    path: &Vec<String>,
    Ghost(bound): Ghost<nat>,
) -> (written: Vec<I>)
    requires
        sum_from(node_sizes_of(node_items_model(items@)), 0) < bound,
    ensures
        written@.len() == items@.len(),
        forall|i: int|
            0 <= i < items@.len() ==> (#[trigger] written@[i]).model() == (NodeItemModel {
                slot: identified(
                    node_items_model(items@)[i].slot,
                    strings_view(path@),
                    index_key(i as nat),
                ),
                layout: node_items_model(items@)[i].layout,
            }),
    decreases bound, 0nat,
{
    let ghost models = node_items_model(items@);
    let mut pending = items;
    let count = pending.len();
    let mut i: usize = 0;
    while i < count
        invariant
            i <= count,
            count == pending.len(),
            count == models.len(),
            models == node_items_model(items@),
            sum_from(node_sizes_of(models), 0) < bound,
            forall|j: int| i <= j < count ==> (#[trigger] pending@[j]).model() == models[j],
            forall|j: int|
                0 <= j < i ==> (#[trigger] pending@[j]).model() == (NodeItemModel {
                    slot: identified(models[j].slot, strings_view(path@), index_key(j as nat)),
                    layout: models[j].layout,
                }),
        decreases count - i,
    {
        proof {
            lemma_sum_from_bound(node_sizes_of(models), 0, i as int);
        }
        let slot = pending[i].take_slot();
        let slot = write_identities(slot, path, &make_index_key(i));
        pending[i].put_slot(slot);
        i += 1;
    }
    pending
}

} // verus!
