//! The application: the declarative tree, the finished tree made from it, and
//! the per-widget stores that live from pass to pass.

use crate::animator::{any_in_progress, AnimatorState, AnimatorStates};
use crate::messenger::{contents, letters, Message, MessageSender, Messages};
use crate::props::Props;
use crate::reconcile::{
    animators_view, identified, make_root_key, met_in, process_node, root_key, stamp_signals,
    write_identities, Reconciliation,
};
use crate::signals::{Signal, SignalSender};
use crate::store::{reversed, WidgetStore};
use crate::teleport::{lemma_teleport_portal_free, teleport, teleport_portals};
use crate::widget::context::WidgetUnmountContext;
use crate::widget::node::{NodeModel, PropsMap, WidgetNode};
use crate::widget::unit::{UnitModel, WidgetUnit};
use crate::widget::{strings_view, WidgetId, WidgetIdView, WidgetProcessor};
use std::sync::atomic::{AtomicBool, Ordering};
use std::sync::Arc;
use vstd::prelude::*;

verus! {

/// A flag shared between an application and whoever wants to make it run a
/// pass. Copies of a notifier share one flag, so what one call reads depends on
/// what the holders of the other copies did.
#[derive(Debug)]
pub struct ChangeNotifier(Arc<AtomicBool>);

impl ChangeNotifier {
    /// A notifier whose flag is not set.
    pub fn new() -> ChangeNotifier {
        ChangeNotifier(Arc::new(AtomicBool::new(false)))
    }

    /// Sets the flag: the application runs a pass when it is next processed.
    pub fn change(&mut self) {
        self.0.store(true, Ordering::Relaxed);
    }

    /// Whether the flag is set.
    pub fn has_changed(&self) -> bool {
        self.0.load(Ordering::Relaxed)
    }

    /// Whether the flag was set; the flag is not set afterwards.
    pub fn consume_change(&mut self) -> bool {
        self.0.swap(false, Ordering::Relaxed)
    }
}

impl Default for ChangeNotifier {
    fn default() -> ChangeNotifier {
        ChangeNotifier::new()
    }
}

impl Clone for ChangeNotifier {
    /// A notifier that shares this one's flag.
    fn clone(&self) -> ChangeNotifier {
        ChangeNotifier(self.0.clone())
    }
}

/// Why the last pass ran.
#[derive(Debug)]
pub enum InvalidationCause {
    /// No pass was needed.
    NotInvalidated,
    /// A pass was asked for: a tree was applied or the application was marked
    /// dirty.
    Forced,
    /// The state of a widget was replaced.
    StateChange(WidgetId),
    /// A message was waiting for a widget.
    MessageReceived(WidgetId),
    /// An animation of a widget was running.
    AnimationInProgress(WidgetId),
}

/// What an [`InvalidationCause`] stands for.
pub enum InvalidationCauseView {
    NotInvalidated,
    Forced,
    StateChange(WidgetIdView),
    MessageReceived(WidgetIdView),
    AnimationInProgress(WidgetIdView),
}

impl View for InvalidationCause {
    type V = InvalidationCauseView;

    open spec fn view(&self) -> InvalidationCauseView {
        match self {
            InvalidationCause::NotInvalidated => InvalidationCauseView::NotInvalidated,
            InvalidationCause::Forced => InvalidationCauseView::Forced,
            InvalidationCause::StateChange(id) => InvalidationCauseView::StateChange(id@),
            InvalidationCause::MessageReceived(id) => InvalidationCauseView::MessageReceived(id@),
            InvalidationCause::AnimationInProgress(id) => InvalidationCauseView::AnimationInProgress(
                id@,
            ),
        }
    }
}

impl Default for InvalidationCause {
    fn default() -> (cause: InvalidationCause)
        ensures
            cause@ == InvalidationCauseView::NotInvalidated,
    {
        InvalidationCause::NotInvalidated
    }
}

impl Clone for InvalidationCause {
    fn clone(&self) -> (cause: InvalidationCause)
        ensures
            cause@ == self@,
    {
        match self {
            InvalidationCause::NotInvalidated => InvalidationCause::NotInvalidated,
            InvalidationCause::Forced => InvalidationCause::Forced,
            InvalidationCause::StateChange(id) => InvalidationCause::StateChange(id.clone()),
            InvalidationCause::MessageReceived(id) => InvalidationCause::MessageReceived(id.clone()),
            InvalidationCause::AnimationInProgress(id) => InvalidationCause::AnimationInProgress(
                id.clone(),
            ),
        }
    }
}

/// How many composite widgets may be expanded inside each other unless the
/// application is told otherwise.
pub const DEFAULT_EXPANSION_LIMIT: usize = 1024;

/// The states of a store, each as what it stands for.
pub open spec fn states_view(states: Map<WidgetIdView, Props>) -> Map<WidgetIdView, PropsMap> {
    states.map_values(|props: Props| props@)
}

/// The waiting messages of a store, each list as the contents of its messages.
pub open spec fn messages_view(messages: Map<WidgetIdView, Messages>) -> Map<
    WidgetIdView,
    Seq<PropsMap>,
> {
    messages.map_values(|list: Messages| contents(list@))
}

/// The hooks of a store, each list as a sequence.
pub open spec fn hooks_view<P>(hooks: Map<WidgetIdView, Vec<P>>) -> Map<WidgetIdView, Seq<P>> {
    hooks.map_values(|list: Vec<P>| list@)
}

/// The signals of a list as senders and contents.
pub open spec fn signals_view(signals: Seq<Signal>) -> Seq<(WidgetIdView, PropsMap)> {
    Seq::new(signals.len(), |i: int| (signals[i].0@, signals[i].1@))
}

/// The waiting messages after `message` has been sent to `id`: it is the last
/// in the list of `id`, which it starts if there is none.
pub open spec fn queued(
    messages: Map<WidgetIdView, Seq<PropsMap>>,
    id: WidgetIdView,
    message: PropsMap,
) -> Map<WidgetIdView, Seq<PropsMap>> {
    if messages.contains_key(id) {
        messages.insert(id, messages[id].push(message))
    } else {
        messages.insert(id, seq![message])
    }
}

/// The waiting messages after those of `sent` have been sent, oldest first.
pub open spec fn delivered(
    messages: Map<WidgetIdView, Seq<PropsMap>>,
    sent: Seq<(WidgetIdView, PropsMap)>,
) -> Map<WidgetIdView, Seq<PropsMap>>
    decreases sent.len(),
{
    if sent.len() == 0 {
        messages
    } else {
        queued(delivered(messages, sent.drop_last()), sent.last().0, sent.last().1)
    }
}

/// The first identity in `ids` whose animations are still running.
pub open spec fn first_running(
    ids: Seq<WidgetIdView>,
    animators: Map<WidgetIdView, Map<Seq<char>, AnimatorState>>,
    from: int,
) -> Option<WidgetIdView>
    decreases ids.len() - from,
{
    if from < 0 || from >= ids.len() {
        None
    } else if animators.contains_key(ids[from]) && any_in_progress(animators[ids[from]]) {
        Some(ids[from])
    } else {
        first_running(ids, animators, from + 1)
    }
}

/// What an [`Application`] stands for. The stores are maps from identities;
/// where the order of their entries matters, the identities are given in that
/// order too.
pub struct ApplicationView<P> {
    pub tree: NodeModel<P>,
    pub rendered_tree: UnitModel,
    pub states: Map<WidgetIdView, PropsMap>,
    pub state_changes: Map<WidgetIdView, PropsMap>,
    pub state_change_ids: Seq<WidgetIdView>,
    pub animators: Map<WidgetIdView, Map<Seq<char>, AnimatorState>>,
    pub animator_ids: Seq<WidgetIdView>,
    pub messages: Map<WidgetIdView, Seq<PropsMap>>,
    pub message_ids: Seq<WidgetIdView>,
    pub signals: Seq<(WidgetIdView, PropsMap)>,
    pub unmount_closures: Map<WidgetIdView, Seq<P>>,
    pub dirty: bool,
    pub render_changed: bool,
    pub last_invalidation_cause: InvalidationCauseView,
    pub animations_delta_time: u64,
    pub expansion_limit: usize,
}

impl<P> ApplicationView<P> {
    /// Hooks, animations and replacement states are kept only for widgets
    /// that have state.
    pub open spec fn wf(self) -> bool {
        &&& forall|id: WidgetIdView| #[trigger]
            self.unmount_closures.contains_key(id) ==> self.states.contains_key(id)
        &&& forall|id: WidgetIdView| #[trigger]
            self.animators.contains_key(id) ==> self.states.contains_key(id)
        &&& forall|id: WidgetIdView| #[trigger]
            self.state_changes.contains_key(id) ==> self.states.contains_key(id)
    }

    /// Whether any animation of any widget is still running.
    pub open spec fn animating(self) -> bool {
        first_running(self.animator_ids, self.animators, 0) is Some
    }

    /// Whether a pass has to run: one was asked for, a state is to be
    /// replaced, a message waits, or an animation is running. `notified`
    /// tells whether the change notifier asked for one.
    pub open spec fn should_run(self, notified: bool) -> bool {
        self.dirty || notified || self.state_change_ids.len() > 0 || self.message_ids.len() > 0
            || self.animating()
    }

    /// Why a pass runs. Being asked for comes first, then a running
    /// animation, then a waiting message, then a state to be replaced; among
    /// several widgets the first in the store's order is named.
    pub open spec fn cause(self, notified: bool) -> InvalidationCauseView {
        if self.dirty || notified {
            InvalidationCauseView::Forced
        } else if first_running(self.animator_ids, self.animators, 0) is Some {
            InvalidationCauseView::AnimationInProgress(
                first_running(self.animator_ids, self.animators, 0)->0,
            )
        } else if self.message_ids.len() > 0 {
            InvalidationCauseView::MessageReceived(self.message_ids[0])
        } else if self.state_change_ids.len() > 0 {
            InvalidationCauseView::StateChange(self.state_change_ids[0])
        } else {
            InvalidationCauseView::NotInvalidated
        }
    }

    /// What processing makes of an application, whatever its processors and
    /// hooks do: `after` is what the application is afterwards, `changed` what
    /// processing tells, and `notified` whether the change notifier asked for
    /// a pass.
    ///
    /// Without a reason for a pass nothing changes but the cause and the mark
    /// of a new finished tree. With one, the cause is recorded and the request
    /// is spent; the identity of every composite widget that the tree holds
    /// outside of other composite widgets is written into the place that the
    /// widget has for it; every composite widget that the tree holds outside of other
    /// composite widgets has state afterwards, unless nothing may be
    /// expanded; every widget that has state afterwards has the state left for
    /// it, else the state it had, else an empty one, since it was mounted;
    /// what is kept for widgets is kept only for widgets with state; the
    /// messages that waited for a widget without state afterwards still wait,
    /// before any that were sent; every signal comes from a widget that has
    /// state or had it; there is a new finished tree, without portal boxes,
    /// if and only if processing tells so, and none if nothing may be
    /// expanded and the tree holds a composite widget; and a tree without
    /// composite widgets is finished as it is, and no widget has state then.
    /// Everything else is what the end of a pass makes of what some walk
    /// gathered ([`ApplicationView::passed`]).
    pub open spec fn processed(
        self,
        after: ApplicationView<P>,
        changed: bool,
        notified: bool,
    ) -> bool {
        &&& after.wf()
        &&& after.tree == if self.should_run(notified) {
            identified(self.tree, Seq::empty(), root_key())
        } else {
            self.tree
        }
        &&& after.expansion_limit == self.expansion_limit
        &&& after.animations_delta_time == self.animations_delta_time
        &&& changed == after.render_changed
        &&& !self.should_run(notified) ==> !changed && after == (ApplicationView {
            last_invalidation_cause: InvalidationCauseView::NotInvalidated,
            render_changed: false,
            ..self
        })
        &&& !self.should_run(notified) ==> !after.should_run(false)
        &&& self.should_run(notified) ==> after.last_invalidation_cause == self.cause(notified)
        &&& self.should_run(notified) ==> !after.dirty
        &&& forall|id: WidgetIdView| #[trigger]
            after.states.contains_key(id)
                ==> after.states[id] == (if self.state_changes.contains_key(
                id,
            ) {
                self.state_changes[id]
            } else if self.states.contains_key(id) {
                self.states[id]
            } else {
                Props::spec_empty()
            })
        &&& changed ==> !after.rendered_tree.has_portal()
        &&& !changed ==> after.rendered_tree == self.rendered_tree
        &&& forall|id: WidgetIdView|
            !after.states.contains_key(id) ==> !#[trigger] after.unmount_closures.contains_key(id)
                && !after.animators.contains_key(id) && !after.state_changes.contains_key(id)
        &&& self.should_run(notified) ==> forall|i: int|
            0 <= i < after.signals.len() ==> after.states.contains_key(
                (#[trigger] after.signals[i]).0,
            ) || self.states.contains_key(after.signals[i].0)
        &&& self.should_run(notified) && !self.tree.unresolved() ==> {
            &&& changed
            &&& after.rendered_tree == teleport(self.tree.frozen())
            &&& after.states == Map::<WidgetIdView, PropsMap>::empty()
        }
        &&& self.should_run(notified) && self.expansion_limit > 0 ==> forall|id: WidgetIdView|
            met_in(self.tree, Seq::empty(), root_key(), id) ==> #[trigger] after.states.contains_key(
                id,
            )
        &&& self.should_run(notified) && self.expansion_limit == 0 && self.tree.unresolved()
            ==> !changed
        &&& self.should_run(notified) ==> self.keeps_waiting(after)
        &&& self.should_run(notified) ==> self.passed(after, changed, notified)
    }

    /// Whether `after` is what a pass makes of the application: there is a
    /// walk over a copy of the tree, from what the pass starts with, that
    /// keeps what holds of the collections at every moment and only adds to
    /// them, and `after` is what the end of the pass makes of the expanded
    /// tree and of what that walk gathered. What the walk gathers depends on
    /// the processors and hooks.
    pub open spec fn passed(self, after: ApplicationView<P>, changed: bool, notified: bool) -> bool {
        exists|
            tree: WidgetNode<P>,
            states: WidgetStore<Props>,
            begun: Reconciliation<P>,
            walked: Reconciliation<P>,
            expanded: NodeModel<P>,
        |
            #![trigger
                self.starts_with(tree, states, begun),
                self.handed_over(notified).finished(after, changed, expanded, states, walked)
            ]
            {
                &&& self.starts_with(tree, states, begun)
                &&& walked.inv(states@.dom())
                &&& walked.grown_from(&begun)
                &&& !self.tree.unresolved() ==> expanded == self.tree && walked == begun
                &&& self.expansion_limit == 0 ==> expanded == self.tree && walked == begun
                &&& self.expansion_limit > 0 ==> forall|id: WidgetIdView|
                    met_in(self.tree, Seq::empty(), root_key(), id)
                        ==> #[trigger] walked.used_ids@.contains_key(id)
                &&& self.handed_over(notified).finished(after, changed, expanded, states, walked)
            }
    }

    /// The messages that wait for a widget without state in `after` still
    /// wait there, before any that were sent since.
    pub open spec fn keeps_waiting(self, after: ApplicationView<P>) -> bool {
        forall|id: WidgetIdView|
            self.messages.contains_key(id) && !after.states.contains_key(id) ==> {
                &&& #[trigger] after.messages.contains_key(id)
                &&& self.messages[id].len() <= after.messages[id].len()
                &&& after.messages[id].subrange(0, self.messages[id].len() as int)
                    == self.messages[id]
            }
    }

    /// What the application keeps while a pass runs: the trees and the
    /// settings. The identities of the composite widgets that the tree holds
    /// outside of other composite widgets are written into their places, the
    /// stores are empty, the request for a pass is spent, and the cause of the
    /// pass is recorded.
    pub open spec fn handed_over(self, notified: bool) -> ApplicationView<P> {
        ApplicationView {
            tree: identified(self.tree, Seq::empty(), root_key()),
            states: Map::empty(),
            state_changes: Map::empty(),
            state_change_ids: Seq::empty(),
            animators: Map::empty(),
            animator_ids: Seq::empty(),
            messages: Map::empty(),
            message_ids: Seq::empty(),
            unmount_closures: Map::empty(),
            dirty: false,
            render_changed: false,
            last_invalidation_cause: self.cause(notified),
            ..self
        }
    }

    /// What a pass starts with: in `tree` a copy of the tree as it is; in
    /// `states` the state of every widget, with the states that were left for
    /// widgets written over it; in `pass` the waiting messages and the hooks
    /// as they were, the animations with the ticks of one pass gone by, and
    /// nothing else.
    pub open spec fn starts_with(
        self,
        tree: WidgetNode<P>,
        states: WidgetStore<Props>,
        pass: Reconciliation<P>,
    ) -> bool {
        &&& tree.model() == self.tree
        &&& states_view(states@) == self.states.union_prefer_right(self.state_changes)
        &&& messages_view(pass.messages@) == self.messages
        &&& pass.messages.keys() == self.message_ids
        &&& hooks_view(pass.unmount_closures@) == self.unmount_closures
        &&& pass.animators.keys() == self.animator_ids
        &&& animators_view(pass.animators@).dom() == self.animators.dom()
        &&& forall|id: WidgetIdView, name: Seq<char>|
            self.animators.contains_key(id) ==> (#[trigger] animators_view(
                pass.animators@,
            )[id].contains_key(name) <==> self.animators[id].contains_key(name))
        &&& forall|id: WidgetIdView, name: Seq<char>|
            self.animators.contains_key(id) && self.animators[id].contains_key(name)
                ==> #[trigger] animators_view(pass.animators@)[id][name]
                == self.animators[id][name].advanced(self.animations_delta_time)
        &&& pass.new_states@ == Map::<WidgetIdView, Props>::empty()
        &&& pass.used_ids@ == Map::<WidgetIdView, ()>::empty()
        &&& pass.state_changes@ == Map::<WidgetIdView, Props>::empty()
        &&& pass.message_sender@.len() == 0
        &&& pass.signals@.len() == 0
        &&& pass.inv(states@.dom())
    }

    /// What the end of a pass makes of an application: `expanded` is the
    /// expanded tree, `states` the states that the pass started with, and
    /// `pass` what the walk gathered.
    ///
    /// State is kept for the widgets that were expanded and for no other:
    /// the state that the pass started with, or an empty one for a widget
    /// that was mounted. Hooks and animations are kept for the same widgets.
    /// The states that widgets left are kept for the next pass. The messages
    /// that no widget took still wait, and behind them wait those that were
    /// sent: first those of the walk, then those of the hooks of the widgets
    /// that left. The signals of the walk come first, then those of the
    /// widgets that left. If no widget that leaves has a hook, nothing is
    /// sent besides what the walk gathered. There is a new finished tree if
    /// and only if no composite widget is left in `expanded`.
    pub open spec fn finished(
        self,
        after: ApplicationView<P>,
        changed: bool,
        expanded: NodeModel<P>,
        states: WidgetStore<Props>,
        pass: Reconciliation<P>,
    ) -> bool {
        let used = pass.used_ids@.dom();
        let all = states@.union_prefer_right(pass.new_states@);
        &&& after.tree == self.tree
        &&& after.dirty == self.dirty
        &&& after.last_invalidation_cause == self.last_invalidation_cause
        &&& after.animations_delta_time == self.animations_delta_time
        &&& after.expansion_limit == self.expansion_limit
        &&& after.states == states_view(all.restrict(used))
        &&& after.state_changes == states_view(pass.state_changes@)
        &&& after.state_change_ids == pass.state_changes.keys()
        &&& after.unmount_closures == hooks_view(pass.unmount_closures@.restrict(used))
        &&& after.animators == animators_view(pass.animators@.restrict(used))
        &&& exists|more: Seq<(WidgetIdView, PropsMap)>| #[trigger]
            delivered(messages_view(pass.messages@), pass.message_sender@ + more) == after.messages
        &&& signals_view(pass.signals@).len() <= after.signals.len()
        &&& after.signals.subrange(0, pass.signals@.len() as int) == signals_view(pass.signals@)
        &&& forall|i: int|
            pass.signals@.len() <= i < after.signals.len() ==> all.contains_key(
                (#[trigger] after.signals[i]).0,
            ) && !used.contains(after.signals[i].0)
        &&& (forall|id: WidgetIdView| #[trigger]
            pass.unmount_closures@.contains_key(id) ==> used.contains(id)) ==> {
            &&& after.messages == delivered(messages_view(pass.messages@), pass.message_sender@)
            &&& after.signals == signals_view(pass.signals@)
        }
        &&& changed == !expanded.unresolved()
        &&& changed ==> after.rendered_tree == teleport(expanded.frozen())
        &&& !changed ==> after.rendered_tree == self.rendered_tree
        &&& after.render_changed == (changed || self.render_changed)
    }
}

/// What an application holds.
struct ApplicationParts<P> {
    tree: WidgetNode<P>,
    rendered_tree: WidgetUnit,
    states: WidgetStore<Props>,
    state_changes: WidgetStore<Props>,
    animators: WidgetStore<AnimatorStates>,
    messages: WidgetStore<Messages>,
    signals: Vec<Signal>,
    unmount_closures: WidgetStore<Vec<P>>,
    dirty: bool,
    render_changed: bool,
    last_invalidation_cause: InvalidationCause,
    change_notifier: ChangeNotifier,
    animations_delta_time: u64,
    expansion_limit: usize,
}

impl<P> View for ApplicationParts<P> {
    type V = ApplicationView<P>;

    closed spec fn view(&self) -> ApplicationView<P> {
        ApplicationView {
            tree: self.tree.model(),
            rendered_tree: self.rendered_tree@,
            states: states_view(self.states@),
            state_changes: states_view(self.state_changes@),
            state_change_ids: self.state_changes.keys(),
            animators: animators_view(self.animators@),
            animator_ids: self.animators.keys(),
            messages: messages_view(self.messages@),
            message_ids: self.messages.keys(),
            signals: signals_view(self.signals@),
            unmount_closures: hooks_view(self.unmount_closures@),
            dirty: self.dirty,
            render_changed: self.render_changed,
            last_invalidation_cause: self.last_invalidation_cause@,
            animations_delta_time: self.animations_delta_time,
            expansion_limit: self.expansion_limit,
        }
    }
}

/// The application: it holds the declarative tree and makes the finished tree
/// from it, pass after pass. Hooks, animations and replacement states are kept
/// only for widgets that have state.
pub struct Application<P> {
    parts: ApplicationParts<P>,
}

impl<P> View for Application<P> {
    type V = ApplicationView<P>;

    closed spec fn view(&self) -> ApplicationView<P> {
        self.parts@
    }
}

impl<P> Application<P> {
    #[verifier::type_invariant]
    closed spec fn inv(&self) -> bool {
        self.parts@.wf()
    }

    /// Takes everything out of the application and leaves an empty one.
    fn take_parts(&mut self) -> (parts: ApplicationParts<P>)
        ensures
            parts == old(self).parts,
            parts@.wf(),
    {
        proof {
            use_type_invariant(&*self);
        }
        let mut taken = Application::new();
        std::mem::swap(self, &mut taken);
        let Application { parts } = taken;
        parts
    }

    /// An application with an empty tree and empty stores. Its first pass
    /// runs whatever happens before.
    pub fn new() -> (application: Application<P>)
        ensures
            application@.wf(),
            application@.tree == NodeModel::<P>::Empty,
            application@.rendered_tree == UnitModel::Empty,
            application@.states == Map::<WidgetIdView, PropsMap>::empty(),
            application@.state_changes == Map::<WidgetIdView, PropsMap>::empty(),
            application@.animators == Map::<WidgetIdView, Map<Seq<char>, AnimatorState>>::empty(),
            application@.messages == Map::<WidgetIdView, Seq<PropsMap>>::empty(),
            application@.signals.len() == 0,
            application@.unmount_closures == Map::<WidgetIdView, Seq<P>>::empty(),
            application@.dirty,
            !application@.render_changed,
            application@.last_invalidation_cause == InvalidationCauseView::NotInvalidated,
            application@.animations_delta_time == 0,
            application@.expansion_limit == DEFAULT_EXPANSION_LIMIT,
    {
        let parts = ApplicationParts {
            tree: WidgetNode::Empty,
            rendered_tree: WidgetUnit::Empty,
            states: WidgetStore::new(),
            state_changes: WidgetStore::new(),
            animators: WidgetStore::new(),
            messages: WidgetStore::new(),
            signals: Vec::new(),
            unmount_closures: WidgetStore::new(),
            dirty: true,
            render_changed: false,
            last_invalidation_cause: InvalidationCause::NotInvalidated,
            change_notifier: ChangeNotifier::new(),
            animations_delta_time: 0,
            expansion_limit: DEFAULT_EXPANSION_LIMIT,
        };
        Application { parts }
    }

    /// A notifier that shares the application's flag: setting it makes the
    /// next processing run a pass.
    pub fn change_notifier(&self) -> ChangeNotifier {
        self.parts.change_notifier.clone()
    }

    /// Why the last pass ran.
    pub fn last_invalidation_cause(&self) -> (cause: &InvalidationCause)
        ensures
            cause@ == self@.last_invalidation_cause,
    {
        &self.parts.last_invalidation_cause
    }

    /// Whether a pass was asked for.
    pub fn is_dirty(&self) -> (dirty: bool)
        ensures
            dirty == self@.dirty,
    {
        self.parts.dirty
    }

    /// Asks for a pass.
    pub fn mark_dirty(&mut self)
        ensures
            final(self)@ == (ApplicationView { dirty: true, ..old(self)@ }),
    {
        let mut parts = self.take_parts();
        parts.dirty = true;
        *self = Application { parts };
    }

    /// Whether the last processing made a new finished tree.
    pub fn does_render_changed(&self) -> (changed: bool)
        ensures
            changed == self@.render_changed,
    {
        self.parts.render_changed
    }

    /// The declarative tree.
    pub fn tree(&self) -> (tree: &WidgetNode<P>)
        ensures
            tree.model() == self@.tree,
    {
        &self.parts.tree
    }

    /// The finished tree of the last pass that made one.
    pub fn rendered_tree(&self) -> (tree: &WidgetUnit)
        ensures
            tree@ == self@.rendered_tree,
    {
        &self.parts.rendered_tree
    }

    /// Replaces the declarative tree and asks for a pass.
    pub fn apply(&mut self, tree: WidgetNode<P>)
        ensures
            final(self)@ == (ApplicationView { tree: tree.model(), dirty: true, ..old(self)@ }),
    {
        let mut parts = self.take_parts();
        parts.tree = tree;
        parts.dirty = true;
        *self = Application { parts };
    }

    /// The ticks that pass for the animations in every pass.
    pub fn animations_delta_time(&self) -> (delta_time: u64)
        ensures
            delta_time == self@.animations_delta_time,
    {
        self.parts.animations_delta_time
    }

    /// Sets the ticks that pass for the animations in every pass.
    pub fn set_animations_delta_time(&mut self, delta_time: u64)
        ensures
            final(self)@ == (ApplicationView { animations_delta_time: delta_time, ..old(self)@ }),
    {
        let mut parts = self.take_parts();
        parts.animations_delta_time = delta_time;
        *self = Application { parts };
    }

    /// How many composite widgets may be expanded inside each other.
    pub fn expansion_limit(&self) -> (limit: usize)
        ensures
            limit == self@.expansion_limit,
    {
        self.parts.expansion_limit
    }

    /// Sets how many composite widgets may be expanded inside each other.
    pub fn set_expansion_limit(&mut self, limit: usize)
        ensures
            final(self)@ == (ApplicationView { expansion_limit: limit, ..old(self)@ }),
    {
        let mut parts = self.take_parts();
        parts.expansion_limit = limit;
        *self = Application { parts };
    }

    /// The signals that widgets sent in the last pass, oldest first.
    pub fn signals(&self) -> (signals: &Vec<Signal>)
        ensures
            signals_view(signals@) == self@.signals,
    {
        &self.parts.signals
    }

    /// Takes the signals that widgets sent in the last pass; none are left.
    pub fn consume_signals(&mut self) -> (signals: Vec<Signal>)
        ensures
            signals_view(signals@) == old(self)@.signals,
            final(self)@ == (ApplicationView { signals: Seq::empty(), ..old(self)@ }),
    {
        let mut parts = self.take_parts();
        let mut signals: Vec<Signal> = Vec::new();
        std::mem::swap(&mut parts.signals, &mut signals);
        assert(parts@.signals =~= Seq::empty());
        *self = Application { parts };
        signals
    }

    /// The state of the widget `id`, if it has one.
    pub fn state_read(&self, id: &WidgetId) -> (state: Option<&Props>)
        ensures
            match state {
                Some(props) => self@.states.contains_key(id@) && props@ == self@.states[id@],
                None => !self@.states.contains_key(id@),
            },
    {
        self.parts.states.get(id)
    }

    /// Leaves `data` as the state of the widget `id` for the next pass, in
    /// place of an earlier replacement. Nothing happens if the widget has no
    /// state.
    pub fn state_write(&mut self, id: &WidgetId, data: Props)
        ensures
            old(self)@.states.contains_key(id@) ==> final(self)@ == (ApplicationView {
                state_changes: old(self)@.state_changes.insert(id@, data@),
                state_change_ids: if old(self)@.state_changes.contains_key(id@) {
                    old(self)@.state_change_ids
                } else {
                    old(self)@.state_change_ids.push(id@)
                },
                ..old(self)@
            }),
            !old(self)@.states.contains_key(id@) ==> final(self)@ == old(self)@,
            final(self)@.wf(),
    {
        let mut parts = self.take_parts();
        if parts.states.contains_key(id) {
            parts.state_changes.insert(id.clone(), data);
            assert(parts@.state_changes =~= old(self)@.state_changes.insert(id@, data@));
        }
        *self = Application { parts };
    }

    /// Leaves what `f` makes of the state of the widget `id` as its state for
    /// the next pass. Nothing happens if the widget has no state, and `f` is
    /// not called then.
    pub fn state_mutate<F: FnOnce(&Props) -> Props>(&mut self, id: &WidgetId, f: F)
        requires
            forall|state: &Props| call_requires(f, (state,)),
        ensures
            !old(self)@.states.contains_key(id@) ==> final(self)@ == old(self)@,
            old(self)@.states.contains_key(id@) ==> exists|state: Props, made: Props|
                {
                    &&& state@ == old(self)@.states[id@]
                    &&& #[trigger] call_ensures(f, (&state,), made)
                    &&& final(self)@ == (ApplicationView {
                        state_changes: old(self)@.state_changes.insert(id@, made@),
                        state_change_ids: if old(self)@.state_changes.contains_key(id@) {
                            old(self)@.state_change_ids
                        } else {
                            old(self)@.state_change_ids.push(id@)
                        },
                        ..old(self)@
                    })
                },
            final(self)@.wf(),
    {
        let mut parts = self.take_parts();
        let made = match parts.states.get(id) {
            Some(state) => {
                let made = f(state);
                Some(made)
            },
            None => None,
        };
        match made {
            Some(made) => {
                let ghost state = old(self).parts.states@[id@];
                parts.state_changes.insert(id.clone(), made);
                proof {
                    assert(parts@.state_changes =~= old(self)@.state_changes.insert(id@, made@));
                    assert(parts@.animators == old(self)@.animators);
                    assert(parts@.unmount_closures == old(self)@.unmount_closures);
                }
            },
            None => {},
        }
        *self = Application { parts };
    }

    /// Leaves the state of the widget `id` as changed by `f` as its state for
    /// the next pass. Nothing happens if the widget has no state, and `f` is
    /// not called then.
    pub fn state_mutate_cloned<F: FnOnce(Props) -> Props>(&mut self, id: &WidgetId, f: F)
        requires
            forall|state: Props| call_requires(f, (state,)),
        ensures
            !old(self)@.states.contains_key(id@) ==> final(self)@ == old(self)@,
            old(self)@.states.contains_key(id@) ==> exists|state: Props, made: Props|
                {
                    &&& state@ == old(self)@.states[id@]
                    &&& #[trigger] call_ensures(f, (state,), made)
                    &&& final(self)@ == (ApplicationView {
                        state_changes: old(self)@.state_changes.insert(id@, made@),
                        state_change_ids: if old(self)@.state_changes.contains_key(id@) {
                            old(self)@.state_change_ids
                        } else {
                            old(self)@.state_change_ids.push(id@)
                        },
                        ..old(self)@
                    })
                },
            final(self)@.wf(),
    {
        let mut parts = self.take_parts();
        let copy = match parts.states.get(id) {
            Some(state) => Some(state.clone()),
            None => None,
        };
        match copy {
            Some(state) => {
                let made = f(state);
                parts.state_changes.insert(id.clone(), made);
                proof {
                    assert(parts@.state_changes =~= old(self)@.state_changes.insert(id@, made@));
                    assert(parts@.animators == old(self)@.animators);
                    assert(parts@.unmount_closures == old(self)@.unmount_closures);
                }
            },
            None => {},
        }
        *self = Application { parts };
    }

    /// Sends `data` to the widget `id`: it waits behind the messages that are
    /// already waiting for that widget.
    pub fn send_message_raw(&mut self, id: &WidgetId, data: Message)
        ensures
            final(self)@ == (ApplicationView {
                messages: queued(old(self)@.messages, id@, data@),
                message_ids: if old(self)@.messages.contains_key(id@) {
                    old(self)@.message_ids
                } else {
                    old(self)@.message_ids.push(id@)
                },
                ..old(self)@
            }),
    {
        let mut parts = self.take_parts();
        queue_message(&mut parts.messages, id.clone(), data);
        *self = Application { parts };
    }

    /// Sends `data` to the widget `id`.
    pub fn send_message(&mut self, id: &WidgetId, data: Message)
        ensures
            final(self)@ == (ApplicationView {
                messages: queued(old(self)@.messages, id@, data@),
                message_ids: if old(self)@.messages.contains_key(id@) {
                    old(self)@.message_ids
                } else {
                    old(self)@.message_ids.push(id@)
                },
                ..old(self)@
            }),
    {
        self.send_message_raw(id, data);
    }
}

impl<P> Default for Application<P> {
    fn default() -> (application: Application<P>)
        ensures
            application@.wf(),
            application@.dirty,
    {
        Application::new()
    }
}

/// The index of the first entry of the store whose animations are still
/// running.
pub fn first_running_index(animators: &WidgetStore<AnimatorStates>) -> (found: Option<usize>)
    ensures
        match found {
            Some(index) => index < animators.keys().len() && first_running(
                animators.keys(),
                animators_view(animators@),
                0,
            ) == Some(animators.keys()[index as int]),
            None => first_running(animators.keys(), animators_view(animators@), 0).is_none(),
        },
{
    let count = animators.len();
    let mut i: usize = 0;
    while i < count
        invariant
            i <= count,
            count == animators.keys().len(),
            first_running(animators.keys(), animators_view(animators@), 0) == first_running(
                animators.keys(),
                animators_view(animators@),
                i as int,
            ),
        decreases count - i,
    {
        let id = animators.id_at(i);
        let states = animators.value_at(i);
        if states.in_progress() {
            return Some(i);
        }
        i += 1;
    }
    None
}

/// Lets `delta_time` ticks pass for every animation in the store.
pub fn advance_animators(animators: &mut WidgetStore<AnimatorStates>, delta_time: u64)
    ensures
        final(animators).keys() == old(animators).keys(),
        animators_view(final(animators)@).dom() == animators_view(old(animators)@).dom(),
        forall|id: WidgetIdView, name: Seq<char>|
            animators_view(old(animators)@).contains_key(id) ==> (#[trigger] animators_view(
                final(animators)@,
            )[id].contains_key(name) <==> animators_view(old(animators)@)[id].contains_key(name)),
        forall|id: WidgetIdView, name: Seq<char>|
            animators_view(old(animators)@).contains_key(id) && animators_view(
                old(animators)@,
            )[id].contains_key(name) ==> #[trigger] animators_view(final(animators)@)[id][name]
                == animators_view(old(animators)@)[id][name].advanced(delta_time),
{
    let count = animators.len();
    let ghost before = animators@;
    let ghost keys = animators.keys();
    let mut i: usize = 0;
    while i < count
        invariant
            i <= count,
            count == keys.len(),
            animators.keys() == keys,
            animators@.dom() == before.dom(),
            forall|j: int| 0 <= j < keys.len() ==> before.contains_key(#[trigger] keys[j]),
            forall|id: WidgetIdView| before.contains_key(id) ==> keys.contains(id),
            old(animators).wf(),
            keys == old(animators).keys(),
            before == old(animators)@,
            forall|j: int|
                i <= j < count ==> animators@[#[trigger] keys[j]] == before[keys[j]],
            forall|j: int, name: Seq<char>|
                0 <= j < i ==> (#[trigger] animators@[keys[j]]@.contains_key(name)
                    <==> before[keys[j]]@.contains_key(name)),
            forall|j: int, name: Seq<char>|
                0 <= j < i && before[keys[j]]@.contains_key(name)
                    ==> #[trigger] animators@[keys[j]]@[name]
                    == before[keys[j]]@[name].advanced(delta_time),
        decreases count - i,
    {
        let mut states = animators.replace_at(i, AnimatorStates::empty());
        states.process(delta_time);
        animators.replace_at(i, states);
        i += 1;
    }
}

/// Puts `data` behind the messages that wait for the widget `id`.
pub fn queue_message(messages: &mut WidgetStore<Messages>, id: WidgetId, data: Message)
    ensures
        messages_view(final(messages)@) == queued(messages_view(old(messages)@), id@, data@),
        final(messages).keys() == if old(messages)@.contains_key(id@) {
            old(messages).keys()
        } else {
            old(messages).keys().push(id@)
        },
{
    let mut list = match messages.insert(id.clone(), Vec::new()) {
        Some(list) => list,
        None => Vec::new(),
    };
    let ghost before = contents(list@);
    list.push(data);
    assert(contents(list@) =~= before.push(data@));
    messages.insert(id, list);
    proof {
        if old(messages)@.contains_key(id@) {
        } else {
            assert(before =~= Seq::<PropsMap>::empty());
        }
    }
}

/// Puts the messages of `outgoing` into the store, oldest first, each behind
/// the messages that wait for its widget.
pub fn deliver(messages: &mut WidgetStore<Messages>, outgoing: Vec<(WidgetId, Message)>)
    ensures
        messages_view(final(messages)@) == delivered(
            messages_view(old(messages)@),
            letters(outgoing@),
        ),
{
    let ghost sent = letters(outgoing@);
    let ghost before = messages_view(messages@);
    let mut outgoing = reversed(outgoing);
    let count = outgoing.len();
    let mut i: usize = 0;
    while i < count
        invariant
            i <= count,
            count == sent.len(),
            outgoing@.len() == count - i,
            forall|j: int|
                0 <= j < count - i ==> ((#[trigger] outgoing@[j]).0@, outgoing@[j].1@) == sent[count
                    - 1 - j],
            messages_view(messages@) == delivered(before, sent.subrange(0, i as int)),
        decreases count - i,
    {
        let letter = outgoing.pop().unwrap();
        proof {
            assert(sent.subrange(0, i + 1).drop_last() == sent.subrange(0, i as int));
        }
        queue_message(messages, letter.0, letter.1);
        i += 1;
    }
    assert(sent.subrange(0, count as int) == sent);
}

/// Runs the hooks of a widget that has left the tree, in the order in which
/// they were registered. Every hook is handed the last state of the widget;
/// what the hooks send is added to `sender` and `signals`.
pub fn run_unmount_hooks<P: WidgetProcessor<C>, C>(
    hooks: &Vec<P>,
    id: &WidgetId,
    state: &Props,
    sender: &mut MessageSender,
    signals: &mut Vec<Signal>,
    process_context: &mut C,
)
    ensures
        old(sender)@.len() <= final(sender)@.len(),
        final(sender)@.subrange(0, old(sender)@.len() as int) == old(sender)@,
        old(signals)@.len() <= final(signals)@.len(),
        final(signals)@.subrange(0, old(signals)@.len() as int) == old(signals)@,
        forall|i: int|
            old(signals)@.len() <= i < final(signals)@.len() ==> (#[trigger] final(signals)@[i]).0@
                == id@,
{
    let mut i: usize = 0;
    while i < hooks.len()
        invariant
            i <= hooks.len(),
            old(sender)@.len() <= sender@.len(),
            sender@.subrange(0, old(sender)@.len() as int) == old(sender)@,
            old(signals)@.len() <= signals@.len(),
            signals@.subrange(0, old(signals)@.len() as int) == old(signals)@,
            forall|j: int| old(signals)@.len() <= j < signals@.len()
                ==> (#[trigger] signals@[j]).0@ == id@,
        decreases hooks.len() - i,
    {
        let mut context = unmount_context(id, state);
        hooks[i].unmount(&mut context, process_context);
        let ghost signals_before = signals@;
        absorb_unmount(context, id, sender, signals);
        proof {
            assert forall|j: int| old(signals)@.len() <= j < signals@.len() implies (
            #[trigger] signals@[j]).0@ == id@ by {
                if j < signals_before.len() {
                    assert(signals@[j] == signals@.subrange(0, signals_before.len() as int)[j]);
                } else {
                    assert(signals@[j] == signals@[signals_before.len() + (j - signals_before.len())]);
                }
            }
        }
        i += 1;
    }
}

/// Lets the widgets of `removed` leave: for each of them, in the order of the
/// store, its hooks for leaving run with its last state and are then
/// forgotten, and its animations are forgotten too.
pub fn unmount_widgets<P: WidgetProcessor<C>, C>(
    removed: WidgetStore<Props>,
    unmount_closures: &mut WidgetStore<Vec<P>>,
    animators: &mut WidgetStore<AnimatorStates>,
    sender: &mut MessageSender,
    signals: &mut Vec<Signal>,
    process_context: &mut C,
)
    ensures
        final(unmount_closures)@ == old(unmount_closures)@.remove_keys(removed@.dom()),
        final(animators)@ == old(animators)@.remove_keys(removed@.dom()),
        old(sender)@.len() <= final(sender)@.len(),
        final(sender)@.subrange(0, old(sender)@.len() as int) == old(sender)@,
        old(signals)@.len() <= final(signals)@.len(),
        final(signals)@.subrange(0, old(signals)@.len() as int) == old(signals)@,
        forall|i: int|
            old(signals)@.len() <= i < final(signals)@.len() ==> removed@.contains_key(
                (#[trigger] final(signals)@[i]).0@,
            ),
        (forall|id: WidgetIdView| #[trigger]
            removed@.contains_key(id) ==> !old(unmount_closures)@.contains_key(id))
            ==> final(sender)@ == old(sender)@ && final(signals)@ == old(signals)@,
{
    let ghost keys = removed.keys();
    let ghost values = removed.values();
    let ghost leaving = removed@;
    let (ids, states) = removed.into_entries();
    proof {
        crate::store::lemma_assoc_map_facts(keys, values);
    }
    let mut ids = reversed(ids);
    let mut states = reversed(states);
    let count = ids.len();
    let ghost mut done: Set<WidgetIdView> = Set::empty();
    let mut i: usize = 0;
    while i < count
        invariant
            i <= count,
            count == keys.len(),
            ids@.len() == count - i,
            states@.len() == count - i,
            forall|j: int| 0 <= j < count - i ==> (#[trigger] ids@[j])@ == keys[count - 1 - j],
            forall|k: WidgetIdView|
                done.contains(k) <==> exists|j: int| 0 <= j < i && #[trigger] keys[j] == k,
            unmount_closures@ == old(unmount_closures)@.remove_keys(done),
            animators@ == old(animators)@.remove_keys(done),
            old(sender)@.len() <= sender@.len(),
            sender@.subrange(0, old(sender)@.len() as int) == old(sender)@,
            old(signals)@.len() <= signals@.len(),
            signals@.subrange(0, old(signals)@.len() as int) == old(signals)@,
            forall|j: int|
                old(signals)@.len() <= j < signals@.len() ==> done.contains(
                    (#[trigger] signals@[j]).0@,
                ),
            forall|j: int| 0 <= j < keys.len() ==> leaving.contains_key(#[trigger] keys[j]),
            (forall|k: WidgetIdView| #[trigger]
                leaving.contains_key(k) ==> !old(unmount_closures)@.contains_key(k)) ==> sender@
                == old(sender)@ && signals@ == old(signals)@,
        decreases count - i,
    {
        let id = ids.pop().unwrap();
        let state = states.pop().unwrap();
        let ghost gathered = signals@;
        proof {
            assert(keys[i as int] == id@);
        }
        match unmount_closures.remove(&id) {
            Some(hooks) => {
                run_unmount_hooks(&hooks, &id, &state, sender, signals, process_context);
            },
            None => {},
        }
        animators.remove(&id);
        proof {
            let more = done.insert(id@);
            assert(keys[i as int] == id@);
            assert forall|j: int| old(signals)@.len() <= j < signals@.len() implies more.contains(
                (#[trigger] signals@[j]).0@,
            ) by {
                if j < gathered.len() {
                    assert(signals@[j] == signals@.subrange(0, gathered.len() as int)[j]);
                }
            }
            done = more;
        }
        i += 1;
    }
}

/// The animations that stay after a pass: those that are still running and
/// those of widgets that were expanded in the pass.
pub fn retain_animators<U>(animators: WidgetStore<AnimatorStates>, used: &WidgetStore<U>) -> (kept:
    WidgetStore<AnimatorStates>)
    ensures
        forall|id: WidgetIdView|
            kept@.contains_key(id) <==> animators@.contains_key(id) && (
            animators@[id].spec_in_progress() || used@.contains_key(id)),
        forall|id: WidgetIdView| kept@.contains_key(id) ==> kept@[id] == animators@[id],
        kept.keys() == crate::store::kept_keys(
            animators.keys(),
            |id: WidgetIdView|
                animators@.contains_key(id) && (animators@[id].spec_in_progress()
                    || used@.contains_key(id)),
            animators.keys().len(),
        ),
{
    let ghost keys = animators.keys();
    let ghost values = animators.values();
    let ghost whole = animators@;
    let (ids, items) = animators.into_entries();
    proof {
        crate::store::lemma_assoc_map_facts(keys, values);
    }
    let mut ids = reversed(ids);
    let mut items = reversed(items);
    let count = ids.len();
    let mut kept: WidgetStore<AnimatorStates> = WidgetStore::new();
    let ghost stays = |id: WidgetIdView|
        whole.contains_key(id) && (whole[id].spec_in_progress() || used@.contains_key(id));
    let mut i: usize = 0;
    while i < count
        invariant
            i <= count,
            stays == |id: WidgetIdView|
                whole.contains_key(id) && (whole[id].spec_in_progress() || used@.contains_key(id)),
            kept.keys() == crate::store::kept_keys(keys, stays, i as nat),
            count == keys.len(),
            keys.len() == values.len(),
            keys.no_duplicates(),
            whole == crate::store::assoc_map(keys, values),
            ids@.len() == count - i,
            items@.len() == count - i,
            forall|j: int| 0 <= j < count - i ==> (#[trigger] ids@[j])@ == keys[count - 1 - j],
            forall|j: int| 0 <= j < count - i ==> #[trigger] items@[j] == values[count - 1 - j],
            forall|k: WidgetIdView|
                kept@.contains_key(k) <==> (exists|j: int| 0 <= j < i && #[trigger] keys[j] == k) && (
                whole[k].spec_in_progress() || used@.contains_key(k)),
            forall|k: WidgetIdView| kept@.contains_key(k) ==> kept@[k] == whole[k],
        decreases count - i,
    {
        let id = ids.pop().unwrap();
        let item = items.pop().unwrap();
        proof {
            crate::store::lemma_assoc_map_index(keys, values, i as int);
            assert(!kept@.contains_key(id@)) by {
                if kept@.contains_key(id@) {
                    let j = choose|j: int| 0 <= j < i && #[trigger] keys[j] == id@;
                    assert(keys[j] == keys[i as int]);
                }
            }
        }
        if item.in_progress() || used.contains_key(&id) {
            kept.insert(id, item);
        }
        i += 1;
    }
    kept
}

/// Processing an application that needs no pass, again and again and with
/// nothing done to it in between, never runs a pass: every time it tells that
/// there is no new finished tree, and after the first time the application
/// stays as it is.
pub proof fn lemma_idle_processing_repeats<P>(
    first: ApplicationView<P>,
    second: ApplicationView<P>,
    third: ApplicationView<P>,
    changed_first: bool,
    changed_second: bool,
)
    requires
        !first.should_run(false),
        first.processed(second, changed_first, false),
        second.processed(third, changed_second, false),
    ensures
        !changed_first,
        !changed_second,
        third == second,
        !third.should_run(false),
{
}

/// A widget that has state before and after processing was not mounted anew:
/// its state is the one that was left for it, or else the one it had. A widget
/// that has state only afterwards was mounted, and its state is empty.
pub proof fn lemma_state_continues<P>(
    before: ApplicationView<P>,
    after: ApplicationView<P>,
    changed: bool,
    notified: bool,
    id: WidgetIdView,
)
    requires
        before.wf(),
        before.processed(after, changed, notified),
        after.states.contains_key(id),
    ensures
        before.states.contains_key(id)
            ==> after.states[id] == (if before.state_changes.contains_key(
            id,
        ) {
            before.state_changes[id]
        } else {
            before.states[id]
        }),
        !before.states.contains_key(id) ==> after.states[id] == Props::spec_empty(),
{
}

/// A widget that has no state after processing has nothing else either: no
/// animation, no hook that waits for it to leave, and no state left for it.
/// So the hooks of a widget that has left the tree cannot run a second time.
pub proof fn lemma_pruned_widgets_keep_nothing<P>(
    before: ApplicationView<P>,
    after: ApplicationView<P>,
    changed: bool,
    notified: bool,
    id: WidgetIdView,
)
    requires
        before.processed(after, changed, notified),
        !after.states.contains_key(id),
    ensures
        !after.animators.contains_key(id),
        !after.unmount_closures.contains_key(id),
        !after.state_changes.contains_key(id),
{
}

impl<P: Copy> Application<P> {
    /// Starts a pass if one is needed: hands out a copy of the tree, the
    /// states and what the walk works on, and keeps the trees, with the
    /// identities written into the declarative one. Without a reason for a
    /// pass nothing is handed out and nothing changes but the cause and the
    /// mark of a new finished tree. `notified` tells whether the change
    /// notifier asked for a pass.
    pub fn begin_pass(&mut self, notified: bool) -> (begun: Option<
        (WidgetNode<P>, WidgetStore<Props>, Reconciliation<P>),
    >)
        ensures
            begun is Some <==> old(self)@.should_run(notified),
            begun is None ==> final(self)@ == (ApplicationView {
                last_invalidation_cause: InvalidationCauseView::NotInvalidated,
                render_changed: false,
                ..old(self)@
            }),
            begun matches Some((tree, states, pass)) ==> final(self)@ == old(self)@.handed_over(
                notified,
            ) && old(self)@.starts_with(tree, states, pass),
    {
        let mut parts = self.take_parts();
        let running = first_running_index(&parts.animators);
        if !notified && !parts.dirty && parts.state_changes.is_empty() && parts.messages.is_empty()
            && running.is_none() {
            parts.last_invalidation_cause = InvalidationCause::NotInvalidated;
            parts.render_changed = false;
            *self = Application { parts };
            return None;
        }
        let ApplicationParts {
            tree,
            rendered_tree,
            states,
            state_changes,
            animators,
            messages,
            signals,
            unmount_closures,
            dirty,
            render_changed: _,
            last_invalidation_cause: _,
            change_notifier,
            animations_delta_time,
            expansion_limit,
        } = parts;
        let cause = if dirty || notified {
            InvalidationCause::Forced
        } else {
            match running {
                Some(index) => InvalidationCause::AnimationInProgress(
                    animators.id_at(index).clone(),
                ),
                None => {
                    if !messages.is_empty() {
                        InvalidationCause::MessageReceived(messages.id_at(0).clone())
                    } else {
                        InvalidationCause::StateChange(state_changes.id_at(0).clone())
                    }
                },
            }
        };
        let mut animators = animators;
        let mut states = states;
        let walked = tree.duplicate();
        let tree = write_identities(tree, &Vec::new(), &make_root_key());
        proof {
            assert(strings_view(Seq::<String>::empty()) =~= Seq::<Seq<char>>::empty());
        }
        advance_animators(&mut animators, animations_delta_time);
        states.extend(state_changes);
        let pass = Reconciliation::new(messages, animators, unmount_closures);
        proof {
            let before = old(self)@;
            assert(states_view(states@) =~= before.states.union_prefer_right(before.state_changes));
            assert forall|id: WidgetIdView| #[trigger]
                pass.unmount_closures@.contains_key(id) implies states@.dom().contains(id) by {
                assert(before.unmount_closures.contains_key(id));
                assert(before.states.contains_key(id));
            }
            assert forall|id: WidgetIdView| #[trigger]
                pass.animators@.contains_key(id) implies states@.dom().contains(id) by {
                assert(animators_view(pass.animators@).contains_key(id));
                assert(before.animators.contains_key(id));
                assert(before.states.contains_key(id));
            }
        }
        let parts = ApplicationParts {
            tree,
            rendered_tree,
            states: WidgetStore::new(),
            state_changes: WidgetStore::new(),
            animators: WidgetStore::new(),
            messages: WidgetStore::new(),
            signals,
            unmount_closures: WidgetStore::new(),
            dirty: false,
            render_changed: false,
            last_invalidation_cause: cause,
            change_notifier,
            animations_delta_time,
            expansion_limit,
        };
        proof {
            let kept = parts@;
            assert(kept.states =~= Map::<WidgetIdView, PropsMap>::empty());
            assert(kept.animators =~= Map::<WidgetIdView, Map<Seq<char>, AnimatorState>>::empty());
            assert(kept.messages =~= Map::<WidgetIdView, Seq<PropsMap>>::empty());
            assert(kept.unmount_closures =~= Map::<WidgetIdView, Seq<P>>::empty());
        }
        *self = Application { parts };
        Some((walked, states, pass))
    }
}

impl<P> Application<P> {
    /// Ends a pass: keeps what the walk gathered for the widgets that were
    /// expanded, lets every other widget leave, delivers what was sent, and
    /// makes the finished tree from `expanded` if no composite widget is left
    /// in it. Tells whether there is a new finished tree. Whatever the
    /// application held in its stores is replaced.
    pub fn finish_pass<C>(
        &mut self,
        expanded: WidgetNode<P>,
        states: WidgetStore<Props>,
        pass: Reconciliation<P>,
        process_context: &mut C,
    ) -> (changed: bool) where P: WidgetProcessor<C>
        requires
            pass.inv(states@.dom()),
        ensures
            old(self)@.finished(final(self)@, changed, expanded.model(), states, pass),
    {
        let ghost used = pass.used_ids@.dom();
        let ghost given = pass;
        let Reconciliation {
            messages,
            new_states,
            used_ids,
            state_changes,
            animators,
            unmount_closures,
            message_sender,
            signals,
        } = pass;
        let mut states = states;
        let mut animators = animators;
        let mut unmount_closures = unmount_closures;
        let mut message_sender = message_sender;
        let mut signals = signals;
        let mut messages = messages;
        states.extend(new_states);
        let (kept, removed) = states.partition(&used_ids);
        unmount_widgets(
            removed,
            &mut unmount_closures,
            &mut animators,
            &mut message_sender,
            &mut signals,
            process_context,
        );
        let animators = retain_animators(animators, &used_ids);
        let ghost sent = message_sender@;
        deliver(&mut messages, message_sender.unwrap());
        proof {
            assert(unmount_closures@ =~= given.unmount_closures@.restrict(used));
            assert(animators@ =~= given.animators@.restrict(used));
            let more = sent.subrange(given.message_sender@.len() as int, sent.len() as int);
            assert(sent =~= given.message_sender@ + more);
            assert(signals_view(signals@).subrange(0, given.signals@.len() as int)
                =~= signals_view(given.signals@)) by {
                assert forall|i: int| 0 <= i < given.signals@.len() implies signals@[i]
                    == given.signals@[i] by {
                    assert(signals@[i] == signals@.subrange(0, given.signals@.len() as int)[i]);
                }
            }
            if forall|id: WidgetIdView| #[trigger]
                given.unmount_closures@.contains_key(id) ==> used.contains(id) {
            }
        }
        let mut parts = self.take_parts();
        parts.states = kept;
        parts.state_changes = state_changes;
        parts.animators = animators;
        parts.messages = messages;
        parts.unmount_closures = unmount_closures;
        parts.signals = signals;
        let changed = match WidgetUnit::try_from(expanded) {
            Ok(tree) => {
                parts.rendered_tree = teleport_portals(tree);
                parts.render_changed = true;
                true
            },
            Err(_) => false,
        };
        proof {
            let more = sent.subrange(given.message_sender@.len() as int, sent.len() as int);
        }
        *self = Application { parts };
        changed
    }
}

/// Messages that wait keep their places when more are sent: every list is the
/// beginning of the list that its widget has afterwards.
pub proof fn lemma_delivered_keeps(
    messages: Map<WidgetIdView, Seq<PropsMap>>,
    sent: Seq<(WidgetIdView, PropsMap)>,
    id: WidgetIdView,
)
    requires
        messages.contains_key(id),
    ensures
        delivered(messages, sent).contains_key(id),
        messages[id].len() <= delivered(messages, sent)[id].len(),
        delivered(messages, sent)[id].subrange(0, messages[id].len() as int) == messages[id],
    decreases sent.len(),
{
    if sent.len() > 0 {
        lemma_delivered_keeps(messages, sent.drop_last(), id);
    }
}

/// Pruning: when a pass ends, a widget that was not expanded in it has
/// nothing afterwards, neither state nor animations nor hooks nor a state
/// left for it; a widget that was expanded has state, and keeps the hooks
/// and the animations that the walk gathered for it.
pub proof fn lemma_pass_prunes<P>(
    before: ApplicationView<P>,
    after: ApplicationView<P>,
    changed: bool,
    expanded: NodeModel<P>,
    states: WidgetStore<Props>,
    pass: Reconciliation<P>,
    id: WidgetIdView,
)
    requires
        pass.inv(states@.dom()),
        before.finished(after, changed, expanded, states, pass),
    ensures
        !pass.used_ids@.contains_key(id) ==> !after.states.contains_key(id)
            && !after.animators.contains_key(id) && !after.unmount_closures.contains_key(id)
            && !after.state_changes.contains_key(id),
        pass.used_ids@.contains_key(id) ==> after.states.contains_key(id),
        pass.used_ids@.contains_key(id) && pass.unmount_closures@.contains_key(id)
            ==> after.unmount_closures.contains_key(id) && after.unmount_closures[id]
            == pass.unmount_closures@[id]@,
        pass.used_ids@.contains_key(id) && pass.animators@.contains_key(id)
            ==> after.animators.contains_key(id) && after.animators[id] == pass.animators@[id]@,
{
}

/// A pass that is begun, walked from the root and ended is processing:
/// `tree`, `states` and `begun` are what the pass starts with, `walked` is
/// what the walk made of `begun`, and `expanded` is the expanded tree.
pub proof fn lemma_pass_is_processing<P>(
    before: ApplicationView<P>,
    after: ApplicationView<P>,
    changed: bool,
    notified: bool,
    tree: WidgetNode<P>,
    states: WidgetStore<Props>,
    begun: Reconciliation<P>,
    walked: Reconciliation<P>,
    expanded: NodeModel<P>,
)
    requires
        before.wf(),
        before.should_run(notified),
        before.starts_with(tree, states, begun),
        walked.inv(states@.dom()),
        walked.grown_from(&begun),
        !before.tree.unresolved() ==> expanded == before.tree && walked == begun,
        before.expansion_limit == 0 ==> expanded == before.tree && walked == begun,
        before.expansion_limit > 0 ==> forall|id: WidgetIdView|
            met_in(before.tree, Seq::empty(), root_key(), id)
                ==> #[trigger] walked.used_ids@.contains_key(id),
        before.handed_over(notified).finished(after, changed, expanded, states, walked),
    ensures
        before.processed(after, changed, notified),
{
    let known = states@;
    let used = walked.used_ids@.dom();
    let all = known.union_prefer_right(walked.new_states@);
    lemma_teleport_portal_free(expanded.frozen());
    assert forall|id: WidgetIdView| #[trigger] after.states.contains_key(id) implies after.states[id]
        == (if before.state_changes.contains_key(id) {
        before.state_changes[id]
    } else if before.states.contains_key(id) {
        before.states[id]
    } else {
        Props::spec_empty()
    }) by {
        assert(all.restrict(used).contains_key(id));
        if walked.new_states@.contains_key(id) {
            assert(!known.contains_key(id));
            assert(!states_view(known).contains_key(id));
        } else {
            assert(known.contains_key(id));
            assert(states_view(known).contains_key(id));
            assert(states_view(known)[id] == known[id]@);
        }
    }
    if !before.tree.unresolved() {
        assert(after.states =~= Map::<WidgetIdView, PropsMap>::empty());
    }
    assert forall|i: int| 0 <= i < after.signals.len() implies after.states.contains_key(
        (#[trigger] after.signals[i]).0,
    ) || before.states.contains_key(after.signals[i].0) by {
        let id = after.signals[i].0;
        if i < walked.signals@.len() {
            assert(after.signals[i] == after.signals.subrange(0, walked.signals@.len() as int)[i]);
            assert(used.contains(walked.signals@[i].0@));
            assert(all.restrict(used).contains_key(id));
        } else {
            assert(all.contains_key(id) && !used.contains(id));
            assert(!walked.new_states@.contains_key(id));
            assert(states_view(known).contains_key(id));
        }
    }
    if before.expansion_limit > 0 {
        assert forall|id: WidgetIdView|
            met_in(before.tree, Seq::empty(), root_key(), id) implies #[trigger] after.states.contains_key(
            id,
        ) by {
            assert(walked.used_ids@.contains_key(id));
            assert(all.restrict(used).contains_key(id));
        }
    }
    assert forall|id: WidgetIdView|
        before.messages.contains_key(id) && !after.states.contains_key(id) implies #[trigger] after.messages.contains_key(
        id,
    ) && before.messages[id].len() <= after.messages[id].len() && after.messages[id].subrange(
        0,
        before.messages[id].len() as int,
    ) == before.messages[id] by {
        assert(begun.messages@.contains_key(id));
        if walked.used_ids@.contains_key(id) {
            assert(all.restrict(used).contains_key(id));
        }
        assert(walked.messages@.contains_key(id));
        assert(walked.messages@[id] == begun.messages@[id]);
        let waiting = messages_view(walked.messages@);
        assert(waiting.contains_key(id));
        let more = choose|more: Seq<(WidgetIdView, PropsMap)>| #[trigger]
            delivered(waiting, walked.message_sender@ + more) == after.messages;
        lemma_delivered_keeps(waiting, walked.message_sender@ + more, id);
    }
}

impl<P: Copy> Application<P> {
    /// Processes the application: if a pass is needed, the declarative tree
    /// is expanded from the root, with as many expansions inside each other
    /// as the limit allows, the stores follow, and a new finished tree is
    /// made. Tells whether there is a new finished tree. `notified` tells
    /// whether the change notifier asked for a pass.
    ///
    /// A pass that leaves a composite widget unexpanded makes no finished
    /// tree: the one of the last pass stays.
    pub fn process_notified<C>(&mut self, notified: bool, process_context: &mut C) -> (changed:
        bool) where P: WidgetProcessor<C>
        ensures
            old(self)@.processed(final(self)@, changed, notified),
    {
        proof {
            use_type_invariant(&*self);
        }
        match self.begin_pass(notified) {
            None => false,
            Some((tree, states, pass)) => {
                let mut pass = pass;
                let ghost begun = pass;
                let ghost given = tree;
                let limit = self.parts.expansion_limit;
                let expanded = process_node(
                    tree,
                    &states,
                    Vec::new(),
                    &mut pass,
                    make_root_key(),
                    None,
                    process_context,
                    limit,
                );
                let ghost walked = pass;
                let ghost states_begun = states;
                let ghost made = expanded.model();
                let changed = self.finish_pass(expanded, states, pass, process_context);
                proof {
                    assert(strings_view(Seq::<String>::empty()) =~= Seq::<Seq<char>>::empty());
                    lemma_pass_is_processing(
                        old(self)@,
                        self@,
                        changed,
                        notified,
                        given,
                        states_begun,
                        begun,
                        walked,
                        made,
                    );
                }
                changed
            },
        }
    }

    /// Processes the application, with a pass if one is needed or the change
    /// notifier asks for one. Tells whether there is a new finished tree.
    pub fn process_with_context<C>(&mut self, process_context: &mut C) -> (changed: bool) where
        P: WidgetProcessor<C>,

        ensures
            exists|notified: bool| #[trigger] old(self)@.processed(final(self)@, changed, notified),
            final(self)@.wf(),
            final(self)@.tree == old(self)@.tree || final(self)@.tree == identified(
                old(self)@.tree,
                Seq::empty(),
                root_key(),
            ),
            changed == final(self)@.render_changed,
            changed ==> !final(self)@.rendered_tree.has_portal(),
            !changed ==> final(self)@.rendered_tree == old(self)@.rendered_tree,
    {
        let mut notifier = self.parts.change_notifier.clone();
        let notified = notifier.consume_change();
        self.process_notified(notified, process_context)
    }

    /// Processes the application and runs a pass whether one is needed or
    /// not. Tells whether there is a new finished tree.
    pub fn forced_process_with_context<C>(&mut self, process_context: &mut C) -> (changed:
        bool) where P: WidgetProcessor<C>
        ensures
            (ApplicationView { dirty: true, ..old(self)@ }).processed(final(self)@, changed, true),
            final(self)@.wf(),
            final(self)@.tree == identified(old(self)@.tree, Seq::empty(), root_key()),
            final(self)@.last_invalidation_cause == InvalidationCauseView::Forced,
            !final(self)@.dirty,
            changed == final(self)@.render_changed,
            changed ==> !final(self)@.rendered_tree.has_portal(),
            !changed ==> final(self)@.rendered_tree == old(self)@.rendered_tree,
    {
        self.mark_dirty();
        let mut notifier = self.parts.change_notifier.clone();
        let notified = notifier.consume_change();
        let changed = self.process_notified(notified, process_context);
        changed
    }
}

impl<P: Copy + WidgetProcessor<()>> Application<P> {
    /// Processes the application without anything from the host for the
    /// processors. Tells whether there is a new finished tree.
    pub fn process(&mut self) -> (changed: bool)
        ensures
            exists|notified: bool| #[trigger] old(self)@.processed(final(self)@, changed, notified),
            final(self)@.wf(),
            final(self)@.tree == old(self)@.tree || final(self)@.tree == identified(
                old(self)@.tree,
                Seq::empty(),
                root_key(),
            ),
            changed == final(self)@.render_changed,
            changed ==> !final(self)@.rendered_tree.has_portal(),
            !changed ==> final(self)@.rendered_tree == old(self)@.rendered_tree,
    {
        let mut nothing = ();
        self.process_with_context(&mut nothing)
    }

    /// Processes the application without anything from the host for the
    /// processors, and runs a pass whether one is needed or not. Tells whether
    /// there is a new finished tree.
    pub fn forced_process(&mut self) -> (changed: bool)
        ensures
            (ApplicationView { dirty: true, ..old(self)@ }).processed(final(self)@, changed, true),
            final(self)@.wf(),
            final(self)@.tree == identified(old(self)@.tree, Seq::empty(), root_key()),
            final(self)@.last_invalidation_cause == InvalidationCauseView::Forced,
            !final(self)@.dirty,
            changed == final(self)@.render_changed,
            changed ==> !final(self)@.rendered_tree.has_portal(),
            !changed ==> final(self)@.rendered_tree == old(self)@.rendered_tree,
    {
        let mut nothing = ();
        self.forced_process_with_context(&mut nothing)
    }
}

/// What a hook is handed when its widget has left the tree: the identity of
/// the widget, a copy of the state that it had last, and nothing sent yet.
pub fn unmount_context(id: &WidgetId, state: &Props) -> (context: WidgetUnmountContext)
    ensures
        context.id@ == id@,
        context.state@ == state@,
        context.messenger@.len() == 0,
        context.signals.id() == id@,
        context.signals.sent().len() == 0,
{
    WidgetUnmountContext {
        id: id.clone(),
        state: state.clone(),
        messenger: MessageSender::new(),
        signals: SignalSender::new(id.clone()),
    }
}

/// Takes what a hook for leaving left in its context: the messages that it
/// sent follow those sent before, and its signals follow the signals sent
/// before and carry the identity `id` of the widget.
pub fn absorb_unmount(
    context: WidgetUnmountContext,
    id: &WidgetId,
    sender: &mut MessageSender,
    signals: &mut Vec<Signal>,
)
    ensures
        final(sender)@ == old(sender)@ + context.messenger@,
        final(signals)@.len() == old(signals)@.len() + context.signals.sent().len(),
        final(signals)@.subrange(0, old(signals)@.len() as int) == old(signals)@,
        forall|i: int|
            0 <= i < context.signals.sent().len() ==> (#[trigger] final(signals)@[old(signals)@.len()
                + i]).0@ == id@ && final(signals)@[old(signals)@.len() + i].1@
                == context.signals.sent()[i],
{
    let WidgetUnmountContext { id: _, state: _, messenger, signals: sent } = context;
    sender.extend(messenger.unwrap());
    stamp_signals(signals, id, sent.unwrap());
}

} // verus!
