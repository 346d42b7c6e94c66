//! Portal teleporting: after a pass, the content of every portal box is taken
//! out of the tree and put under the widget that owns the portal.

use crate::widget::unit::content::{ContentBox, ContentBoxItem, ContentBoxItemLayout};
use crate::widget::unit::flex::{FlexBox, FlexBoxItem, FlexBoxItemLayout};
use crate::widget::unit::grid::{GridBox, GridBoxItem, GridBoxItemLayout};
use crate::widget::unit::portal::{PortalBox, PortalBoxSlot};
use crate::measure::{lemma_sum_from_bound, lemma_sum_from_push, sum_from};
use crate::widget::unit::area::AreaBox;
use crate::widget::unit::size::SizeBox;
use crate::widget::unit::{
    items_model, ItemLayout, ItemModel, MultiKind, UnitItem, UnitModel, WidgetUnit,
};
use crate::widget::{WidgetId, WidgetIdView};
use vstd::prelude::*;

verus! {

/// A portal taken out of the tree: who owns it and what it carries.
pub struct PortalModel {
    pub owner: WidgetIdView,
    pub payload: ItemModel,
}

/// The sizes of the slots of `items`.
pub open spec fn sizes_of(items: Seq<ItemModel>) -> Seq<nat>
    decreases items,
{
    Seq::new(
        items.len(),
        |i: int|
            if 0 <= i < items.len() {
                items[i].slot.size()
            } else {
                0
            },
    )
}

/// The portals found in the slots of the first `count` items, in order.
pub open spec fn collect_items(items: Seq<ItemModel>, count: nat) -> Seq<PortalModel>
    decreases items, count,
{
    if count == 0 || count > items.len() {
        Seq::empty()
    } else {
        collect_items(items, (count - 1) as nat) + items[count - 1].slot.collect()
    }
}

impl UnitModel {
    /// The identity of the primitive; nothing has none.
    pub open spec fn id(self) -> Option<WidgetIdView> {
        match self {
            UnitModel::Empty => None,
            UnitModel::Single { id, .. } => Some(id),
            UnitModel::Multi { id, .. } => Some(id),
            UnitModel::Portal { id, .. } => Some(id),
            UnitModel::Leaf { id, .. } => Some(id),
        }
    }

    /// The number of primitives in the tree, nothing counted as one.
    pub open spec fn size(self) -> nat
        decreases self,
    {
        match self {
            UnitModel::Empty => 1,
            UnitModel::Single { slot, .. } => 1 + slot.size(),
            UnitModel::Multi { items, .. } => 1 + sum_from(sizes_of(items), 0),
            UnitModel::Portal { slot, .. } => 1 + slot.slot.size(),
            UnitModel::Leaf { .. } => 1,
        }
    }

    /// Whether a portal box occurs anywhere in the tree.
    pub open spec fn has_portal(self) -> bool
        decreases self,
    {
        match self {
            UnitModel::Empty => false,
            UnitModel::Single { slot, .. } => slot.has_portal(),
            UnitModel::Multi { items, .. } => exists|i: int|
                0 <= i < items.len() && (#[trigger] items[i]).slot.has_portal(),
            UnitModel::Portal { .. } => true,
            UnitModel::Leaf { .. } => false,
        }
    }

    /// The tree with nothing in the place of every portal box.
    pub open spec fn strip(self) -> UnitModel
        decreases self,
    {
        match self {
            UnitModel::Empty => UnitModel::Empty,
            UnitModel::Single { kind, id, slot } => UnitModel::Single {
                kind,
                id,
                slot: Box::new(slot.strip()),
            },
            UnitModel::Multi { kind, id, items } => UnitModel::Multi {
                kind,
                id,
                items: Seq::new(
                    items.len(),
                    |i: int|
                        if 0 <= i < items.len() {
                            ItemModel { slot: items[i].slot.strip(), layout: items[i].layout }
                        } else {
                            arbitrary()
                        },
                ),
            },
            UnitModel::Portal { .. } => UnitModel::Empty,
            UnitModel::Leaf { kind, id } => UnitModel::Leaf { kind, id },
        }
    }

    /// The portals of the tree, each with its content stripped of portals. A
    /// portal inside the content of another comes before that other.
    pub open spec fn collect(self) -> Seq<PortalModel>
        decreases self, 0nat,
    {
        match self {
            UnitModel::Empty => Seq::empty(),
            UnitModel::Single { slot, .. } => slot.collect(),
            UnitModel::Multi { items, .. } => collect_items(items, items.len()),
            UnitModel::Portal { owner, slot, .. } => slot.slot.collect().push(
                PortalModel {
                    owner,
                    payload: ItemModel { slot: slot.slot.strip(), layout: slot.layout },
                },
            ),
            UnitModel::Leaf { .. } => Seq::empty(),
        }
    }

    /// The primitive with `payload` put into it: the one slot of an area or
    /// size box is replaced, a content, flex or grid box gets one more item,
    /// and anything else stays as it is.
    pub open spec fn graft(self, payload: ItemModel) -> UnitModel {
        match self {
            UnitModel::Single { kind, id, slot } => UnitModel::Single {
                kind,
                id,
                slot: Box::new(payload.slot),
            },
            UnitModel::Multi { kind, id, items } => UnitModel::Multi {
                kind,
                id,
                items: items.push(
                    ItemModel { slot: payload.slot, layout: fit_layout(kind, payload.layout) },
                ),
            },
            _ => self,
        }
    }
}

/// The layout that an item gets in a box of kind `kind`: its own if it was
/// made for that kind of box, the default otherwise.
pub open spec fn fit_layout(kind: MultiKind, layout: ItemLayout) -> ItemLayout {
    match kind {
        MultiKind::Content { .. } => match layout {
            ItemLayout::Content(l) => ItemLayout::Content(l),
            _ => ItemLayout::Content(ContentBoxItemLayout::spec_default()),
        },
        MultiKind::Flex { .. } => match layout {
            ItemLayout::Flex(l) => ItemLayout::Flex(l),
            _ => ItemLayout::Flex(FlexBoxItemLayout::spec_default()),
        },
        MultiKind::Grid { .. } => match layout {
            ItemLayout::Grid(l) => ItemLayout::Grid(l),
            _ => ItemLayout::Grid(GridBoxItemLayout::spec_default()),
        },
    }
}

/// What a list of portals weighs: one for each, plus the size of its content.
pub open spec fn portals_weight(portals: Seq<PortalModel>) -> nat
    decreases portals.len(),
{
    if portals.len() == 0 {
        0
    } else {
        portals_weight(portals.drop_last()) + 1 + portals.last().payload.slot.size()
    }
}

/// The index of the first portal owned by `id`, from index `from` on.
pub open spec fn first_owned(portals: Seq<PortalModel>, id: WidgetIdView, from: int) -> Option<int>
    decreases portals.len() - from,
{
    if from < 0 || from >= portals.len() {
        None
    } else if portals[from].owner == id {
        Some(from)
    } else {
        first_owned(portals, id, from + 1)
    }
}

/// The list without the portal at `index`; the last portal takes its place.
pub open spec fn swap_removed(portals: Seq<PortalModel>, index: int) -> Seq<PortalModel> {
    portals.update(index, portals.last()).drop_last()
}

/// The primitive after every portal that it owns has been put into it, first
/// found first, and the portals that are left.
pub open spec fn graft_all(unit: UnitModel, portals: Seq<PortalModel>) -> (
    UnitModel,
    Seq<PortalModel>,
)
    decreases portals.len(),
{
    match unit.id() {
        None => (unit, portals),
        Some(id) => match first_owned(portals, id, 0) {
            Some(index) if 0 <= index < portals.len() => graft_all(
                unit.graft(portals[index].payload),
                swap_removed(portals, index),
            ),
            _ => (unit, portals),
        },
    }
}

/// The tree after the portals have been put under their owners, depth first, and
/// the portals whose owner was not found. At each primitive the portals that
/// it owns are put into it, then its slots are visited, those just added too.
///
/// The comparison of sizes in the definition always holds
/// ([`lemma_graft_all_measure`]); it is there to show that the definition
/// comes to an end.
pub open spec fn inject(unit: UnitModel, portals: Seq<PortalModel>) -> (
    UnitModel,
    Seq<PortalModel>,
)
    decreases unit.size() + portals_weight(portals), 0nat,
{
    if portals.len() == 0 {
        (unit, portals)
    } else {
        let grafted = graft_all(unit, portals);
        if grafted.0.size() + portals_weight(grafted.1) <= unit.size() + portals_weight(portals) {
            match grafted.0 {
                UnitModel::Single { kind, id, slot } => {
                    let inner = inject(*slot, grafted.1);
                    (UnitModel::Single { kind, id, slot: Box::new(inner.0) }, inner.1)
                },
                UnitModel::Multi { kind, id, items } => {
                    let inner = inject_from(items, grafted.1, 0);
                    (
                        UnitModel::Multi {
                            kind,
                            id,
                            items: Seq::new(
                                items.len(),
                                |i: int| ItemModel { slot: inner.0[i], layout: items[i].layout },
                            ),
                        },
                        inner.1,
                    )
                },
                _ => grafted,
            }
        } else {
            grafted
        }
    }
}

/// The slots of the items from index `from` on after the portals have been put
/// into them, one item after the other, and the portals that are left.
///
/// The comparison of weights in the definition always holds
/// ([`lemma_inject_measure`]); it is there to show that the definition comes
/// to an end.
pub open spec fn inject_from(items: Seq<ItemModel>, portals: Seq<PortalModel>, from: int) -> (
    Seq<UnitModel>,
    Seq<PortalModel>,
)
    decreases sum_from(sizes_of(items), from) + portals_weight(portals), 1nat,
{
    if from < 0 || from >= items.len() {
        (Seq::empty(), portals)
    } else {
        let first = inject(items[from].slot, portals);
        if portals_weight(first.1) <= portals_weight(portals) {
            let rest = inject_from(items, first.1, from + 1);
            (seq![first.0] + rest.0, rest.1)
        } else {
            (seq![first.0], first.1)
        }
    }
}

/// The tree with every portal's content moved under the portal's owner.
pub open spec fn teleport(unit: UnitModel) -> UnitModel {
    if unit.collect().len() == 0 {
        unit
    } else {
        inject(unit.strip(), unit.collect()).0
    }
}

/// The portals that a list of owners and contents stands for.
pub open spec fn bucket_model(bucket: Seq<(WidgetId, PortalBoxSlot)>) -> Seq<PortalModel> {
    Seq::new(bucket.len(), |i: int| PortalModel { owner: bucket[i].0@, payload: bucket[i].1.model() })
}

/// Counting one more item adds the portals of its slot.
pub proof fn lemma_collect_items_step(items: Seq<ItemModel>, count: nat)
    requires
        count < items.len(),
    ensures
        collect_items(items, count + 1) == collect_items(items, count)
            + items[count as int].slot.collect(),
{
}

/// The number of portal boxes in the tree, or the largest number if there are
/// more.
pub fn estimate_portals(unit: &WidgetUnit) -> (count: usize)
    ensures
        count == if unit@.collect().len() <= usize::MAX {
            unit@.collect().len()
        } else {
            usize::MAX as nat
        },
    decreases unit@.size(), 1nat,
{
    match unit {
        WidgetUnit::Empty | WidgetUnit::ImageBox(_) | WidgetUnit::TextBox(_) => 0,
        WidgetUnit::AreaBox(b) => estimate_portals(&b.slot),
        WidgetUnit::SizeBox(b) => estimate_portals(&b.slot),
        WidgetUnit::PortalBox(b) => {
            let inner = estimate_portals(b.slot.slot());
            if inner < usize::MAX {
                inner + 1
            } else {
                inner
            }
        },
        WidgetUnit::ContentBox(b) => {
            proof {
                assert(unit@->Multi_items == items_model(b.items@));
            }
            estimate_items(&b.items, Ghost(unit@.size()))
        },
        WidgetUnit::FlexBox(b) => {
            proof {
                assert(unit@->Multi_items == items_model(b.items@));
            }
            estimate_items(&b.items, Ghost(unit@.size()))
        },
        WidgetUnit::GridBox(b) => {
            proof {
                assert(unit@->Multi_items == items_model(b.items@));
            }
            estimate_items(&b.items, Ghost(unit@.size()))
        },
    }
}

/// The number of portal boxes in the slots of `items`, capped likewise.
fn estimate_items<I: UnitItem>(items: &Vec<I>, Ghost(bound): Ghost<nat>) -> (count: usize)
    requires
        sum_from(sizes_of(items_model(items@)), 0) < bound,
    ensures
        count == if collect_items(items_model(items@), items@.len()).len() <= usize::MAX {
            collect_items(items_model(items@), items@.len()).len()
        } else {
            usize::MAX as nat
        },
    decreases bound, 0nat,
{
    let ghost models = items_model(items@);
    let mut count: usize = 0;
    let mut i: usize = 0;
    while i < items.len()
        invariant
            i <= items.len(),
            models == items_model(items@),
            sum_from(sizes_of(models), 0) < bound,
            count == if collect_items(models, i as nat).len() <= usize::MAX {
                collect_items(models, i as nat).len()
            } else {
                usize::MAX as nat
            },
        decreases items.len() - i,
    {
        proof {
            lemma_sum_from_bound(sizes_of(models), 0, i as int);
            lemma_collect_items_step(models, i as nat);
        }
        let inner = estimate_portals(items[i].slot());
        count = if inner > usize::MAX - count {
            usize::MAX
        } else {
            count + inner
        };
        i += 1;
    }
    count
}

/// Takes every portal box out of the tree. Nothing is left in its place, and
/// its owner and stripped content are appended to `bucket`, a portal inside
/// the content of another before that other.
pub fn consume_portals(unit: WidgetUnit, bucket: &mut Vec<(WidgetId, PortalBoxSlot)>) -> (stripped:
    WidgetUnit)
    ensures
        stripped@ == unit@.strip(),
        bucket_model(final(bucket)@) == bucket_model(old(bucket)@) + unit@.collect(),
    decreases unit@.size(), 1nat,
{
    match unit {
        WidgetUnit::Empty => {
            WidgetUnit::Empty
        },
        WidgetUnit::ImageBox(b) => {
            WidgetUnit::ImageBox(b)
        },
        WidgetUnit::TextBox(b) => {
            WidgetUnit::TextBox(b)
        },
        WidgetUnit::AreaBox(b) => {
            let AreaBox { id, slot } = b;
            let slot = consume_portals(*slot, bucket);
            WidgetUnit::AreaBox(AreaBox { id, slot: Box::new(slot) })
        },
        WidgetUnit::SizeBox(b) => {
            let SizeBox { id, slot, width, height, margin } = b;
            let slot = consume_portals(*slot, bucket);
            WidgetUnit::SizeBox(SizeBox { id, slot: Box::new(slot), width, height, margin })
        },
        WidgetUnit::PortalBox(b) => {
            let PortalBox { id, slot, owner } = b;
            let ghost carried = slot.model();
            let payload = match *slot {
                PortalBoxSlot::Slot(inner) => {
                    assert(carried.slot == inner@);
                    PortalBoxSlot::Slot(consume_portals(inner, bucket))
                },
                PortalBoxSlot::ContentItem(item) => {
                    let ContentBoxItem { slot, layout } = item;
                    assert(carried.slot == slot@);
                    let slot = consume_portals(slot, bucket);
                    PortalBoxSlot::ContentItem(ContentBoxItem { slot, layout })
                },
                PortalBoxSlot::FlexItem(item) => {
                    let FlexBoxItem { slot, layout } = item;
                    assert(carried.slot == slot@);
                    let slot = consume_portals(slot, bucket);
                    PortalBoxSlot::FlexItem(FlexBoxItem { slot, layout })
                },
                PortalBoxSlot::GridItem(item) => {
                    let GridBoxItem { slot, layout } = item;
                    assert(carried.slot == slot@);
                    let slot = consume_portals(slot, bucket);
                    PortalBoxSlot::GridItem(GridBoxItem { slot, layout })
                },
            };
            let ghost inner = bucket_model(bucket@);
            bucket.push((owner, payload));
            proof {
                let entry = PortalModel { owner: owner@, payload: payload.model() };
                assert(bucket_model(bucket@) =~= inner.push(entry));
            }
            WidgetUnit::Empty
        },
        WidgetUnit::ContentBox(b) => {
            let ContentBox { id, items, clipping } = b;
            proof {
                assert(unit@->Multi_items == items_model(items@));
            }
            let items = consume_items(items, bucket, Ghost(unit@.size()));
            let stripped = WidgetUnit::ContentBox(ContentBox { id, items, clipping });
            proof {
                assert(stripped@->Multi_items =~= unit@.strip()->Multi_items);
            }
            stripped
        },
        WidgetUnit::FlexBox(b) => {
            let FlexBox { id, items, direction, separation, wrap } = b;
            proof {
                assert(unit@->Multi_items == items_model(items@));
            }
            let items = consume_items(items, bucket, Ghost(unit@.size()));
            let stripped = WidgetUnit::FlexBox(FlexBox { id, items, direction, separation, wrap });
            proof {
                assert(stripped@->Multi_items =~= unit@.strip()->Multi_items);
            }
            stripped
        },
        WidgetUnit::GridBox(b) => {
            let GridBox { id, items, cols, rows } = b;
            proof {
                assert(unit@->Multi_items == items_model(items@));
            }
            let items = consume_items(items, bucket, Ghost(unit@.size()));
            let stripped = WidgetUnit::GridBox(GridBox { id, items, cols, rows });
            proof {
                assert(stripped@->Multi_items =~= unit@.strip()->Multi_items);
            }
            stripped
        },
    }
}

/// Takes the portal boxes out of the slots of `items`, one item after the other.
fn consume_items<I: UnitItem>(
    items: Vec<I>,
    bucket: &mut Vec<(WidgetId, PortalBoxSlot)>,
    Ghost(bound): Ghost<nat>,
) -> (stripped: Vec<I>)
    requires
        sum_from(sizes_of(items_model(items@)), 0) < bound,
    ensures
        stripped@.len() == items@.len(),
        forall|i: int|
            0 <= i < items@.len() ==> (#[trigger] stripped@[i]).model() == (ItemModel {
                slot: items@[i].model().slot.strip(),
                layout: items@[i].model().layout,
            }),
        bucket_model(final(bucket)@) == bucket_model(old(bucket)@) + collect_items(
            items_model(items@),
            items@.len(),
        ),
    decreases bound, 0nat,
{
    let ghost models = items_model(items@);
    let ghost before = bucket_model(bucket@);
    let mut items = items;
    let count = items.len();
    let mut i: usize = 0;
    while i < count
        invariant
            i <= count,
            count == items.len(),
            count == models.len(),
            sum_from(sizes_of(models), 0) < bound,
            forall|j: int| i <= j < count ==> (#[trigger] items@[j]).model() == models[j],
            forall|j: int|
                0 <= j < i ==> (#[trigger] items@[j]).model() == (ItemModel {
                    slot: models[j].slot.strip(),
                    layout: models[j].layout,
                }),
            bucket_model(bucket@) == before + collect_items(models, i as nat),
        decreases count - i,
    {
        proof {
            lemma_sum_from_bound(sizes_of(models), 0, i as int);
            lemma_collect_items_step(models, i as nat);
        }
        let slot = items[i].take_slot();
        let slot = consume_portals(slot, bucket);
        items[i].put_slot(slot);
        i += 1;
    }
    items
}

/// Replacing one portal changes the weight by the difference of the two.
pub proof fn lemma_weight_update(portals: Seq<PortalModel>, index: int, portal: PortalModel)
    requires
        0 <= index < portals.len(),
    ensures
        portals_weight(portals.update(index, portal)) + portals[index].payload.slot.size()
            == portals_weight(portals) + portal.payload.slot.size(),
    decreases portals.len(),
{
    let updated = portals.update(index, portal);
    if index == portals.len() - 1 {
        assert(updated.drop_last() == portals.drop_last());
    } else {
        assert(updated.drop_last() == portals.drop_last().update(index, portal));
        lemma_weight_update(portals.drop_last(), index, portal);
    }
}

/// Removing a portal takes one and the size of its content off the weight.
pub proof fn lemma_weight_swap_removed(portals: Seq<PortalModel>, index: int)
    requires
        0 <= index < portals.len(),
    ensures
        swap_removed(portals, index).len() == portals.len() - 1,
        portals_weight(swap_removed(portals, index)) + 1 + portals[index].payload.slot.size()
            == portals_weight(portals),
{
    lemma_weight_update(portals, index, portals.last());
    let updated = portals.update(index, portals.last());
}

/// What `first_owned` finds is the first portal of that owner, and it finds
/// one if there is any.
pub proof fn lemma_first_owned(portals: Seq<PortalModel>, id: WidgetIdView, from: int)
    requires
        0 <= from,
    ensures
        match first_owned(portals, id, from) {
            Some(index) => {
                &&& from <= index < portals.len()
                &&& portals[index].owner == id
                &&& forall|j: int| from <= j < index ==> portals[j].owner != id
            },
            None => forall|j: int| from <= j < portals.len() ==> portals[j].owner != id,
        },
    decreases portals.len() - from,
{
    if from < portals.len() && portals[from].owner != id {
        lemma_first_owned(portals, id, from + 1);
    }
}

/// Putting a portal's content into a primitive adds at most its size.
pub proof fn lemma_graft_size(unit: UnitModel, payload: ItemModel)
    ensures
        unit.graft(payload).size() <= unit.size() + payload.slot.size(),
        unit.graft(payload).id() == unit.id(),
{
    match unit {
        UnitModel::Multi { kind, id, items } => {
            let item = ItemModel { slot: payload.slot, layout: fit_layout(kind, payload.layout) };
            assert(sizes_of(items.push(item)) == sizes_of(items).push(payload.slot.size()));
            lemma_sum_from_push(sizes_of(items), payload.slot.size(), 0);
        },
        _ => {},
    }
}

/// Putting its portals into a primitive moves their weight into the tree:
/// size and weight together do not grow, and the identity stays.
pub proof fn lemma_graft_all_measure(unit: UnitModel, portals: Seq<PortalModel>)
    ensures
        graft_all(unit, portals).0.size() + portals_weight(graft_all(unit, portals).1)
            <= unit.size() + portals_weight(portals),
        portals_weight(graft_all(unit, portals).1) <= portals_weight(portals),
        graft_all(unit, portals).0.id() == unit.id(),
        unit.id() matches Some(id) ==> first_owned(graft_all(unit, portals).1, id, 0).is_none(),
    decreases portals.len(),
{
    match unit.id() {
        None => {},
        Some(id) => {
            lemma_first_owned(portals, id, 0);
            match first_owned(portals, id, 0) {
                Some(index) => {
                    lemma_weight_swap_removed(portals, index);
                    lemma_graft_size(unit, portals[index].payload);
                    lemma_graft_all_measure(
                        unit.graft(portals[index].payload),
                        swap_removed(portals, index),
                    );
                },
                None => {},
            }
        },
    }
}

/// Putting portals under their owners never adds weight to the list, and the
/// tree grows by no more than the list loses.
pub proof fn lemma_inject_measure(unit: UnitModel, portals: Seq<PortalModel>)
    ensures
        inject(unit, portals).0.size() + portals_weight(inject(unit, portals).1) <= unit.size()
            + portals_weight(portals),
        portals_weight(inject(unit, portals).1) <= portals_weight(portals),
        inject(unit, portals).0.id() == unit.id(),
    decreases unit.size() + portals_weight(portals), 0nat,
{
    if portals.len() > 0 {
        lemma_graft_all_measure(unit, portals);
        let grafted = graft_all(unit, portals);
        match grafted.0 {
            UnitModel::Single { kind, id, slot } => {
                lemma_inject_measure(*slot, grafted.1);
            },
            UnitModel::Multi { kind, id, items } => {
                lemma_inject_from_measure(items, grafted.1, 0);
                let inner = inject_from(items, grafted.1, 0);
                let after = Seq::new(
                    items.len(),
                    |i: int| ItemModel { slot: inner.0[i], layout: items[i].layout },
                );
                assert(sizes_of(after) == Seq::new(inner.0.len(), |i: int| inner.0[i].size()));
                lemma_slots_size_sum(inner.0, 0);
                assert(inner.0.subrange(0, inner.0.len() as int) == inner.0);
            },
            _ => {},
        }
    }
}

/// The same for the slots of a list of items, from index `from` on.
pub proof fn lemma_inject_from_measure(items: Seq<ItemModel>, portals: Seq<PortalModel>, from: int)
    requires
        0 <= from <= items.len(),
    ensures
        inject_from(items, portals, from).0.len() == items.len() - from,
        slots_size(inject_from(items, portals, from).0) + portals_weight(
            inject_from(items, portals, from).1,
        ) <= sum_from(sizes_of(items), from) + portals_weight(portals),
        portals_weight(inject_from(items, portals, from).1) <= portals_weight(portals),
    decreases sum_from(sizes_of(items), from) + portals_weight(portals), 1nat,
{
    if from < items.len() {
        lemma_inject_measure(items[from].slot, portals);
        let first = inject(items[from].slot, portals);
        lemma_inject_from_measure(items, first.1, from + 1);
        let rest = inject_from(items, first.1, from + 1);
        assert((seq![first.0] + rest.0).drop_first() == rest.0);
    }
}

/// The sizes of a list of trees, added up.
pub open spec fn slots_size(slots: Seq<UnitModel>) -> nat
    decreases slots.len(),
{
    if slots.len() == 0 {
        0
    } else {
        slots[0].size() + slots_size(slots.drop_first())
    }
}

/// Adding up sizes front to back or by index gives the same.
pub proof fn lemma_slots_size_sum(slots: Seq<UnitModel>, from: int)
    requires
        0 <= from <= slots.len(),
    ensures
        sum_from(Seq::new(slots.len(), |i: int| slots[i].size()), from) == slots_size(
            slots.subrange(from, slots.len() as int),
        ),
    decreases slots.len() - from,
{
    let tail = slots.subrange(from, slots.len() as int);
    if from < slots.len() {
        lemma_slots_size_sum(slots, from + 1);
        assert(tail.drop_first() == slots.subrange(from + 1, slots.len() as int));
    }
}

/// The bare primitive that a portal carries; a layout that came with it is
/// dropped.
pub fn into_slot(payload: PortalBoxSlot) -> (slot: WidgetUnit)
    ensures
        slot@ == payload.model().slot,
{
    match payload {
        PortalBoxSlot::Slot(slot) => slot,
        PortalBoxSlot::ContentItem(item) => item.slot,
        PortalBoxSlot::FlexItem(item) => item.slot,
        PortalBoxSlot::GridItem(item) => item.slot,
    }
}

/// What a portal carries as an item of a content box: its own layout if it was
/// made for a content box, the default layout otherwise.
pub fn into_content_item(payload: PortalBoxSlot) -> (item: ContentBoxItem)
    ensures
        item.model() == (ItemModel {
            slot: payload.model().slot,
            layout: fit_layout(MultiKind::Content { clipping: false }, payload.model().layout),
        }),
{
    match payload {
        PortalBoxSlot::Slot(slot) => ContentBoxItem {
            slot,
            layout: ContentBoxItemLayout::default(),
        },
        PortalBoxSlot::ContentItem(item) => item,
        PortalBoxSlot::FlexItem(item) => ContentBoxItem {
            slot: item.slot,
            layout: ContentBoxItemLayout::default(),
        },
        PortalBoxSlot::GridItem(item) => ContentBoxItem {
            slot: item.slot,
            layout: ContentBoxItemLayout::default(),
        },
    }
}

/// What a portal carries as an item of a flex box: its own layout if it was
/// made for a flex box, the default layout otherwise.
pub fn into_flex_item(payload: PortalBoxSlot) -> (item: FlexBoxItem)
    ensures
        item.model() == (ItemModel {
            slot: payload.model().slot,
            layout: fit_layout(
                MultiKind::Flex {
                    direction: crate::widget::unit::flex::FlexBoxDirection::HorizontalLeftToRight,
                    separation: 0,
                    wrap: false,
                },
                payload.model().layout,
            ),
        }),
{
    match payload {
        PortalBoxSlot::Slot(slot) => FlexBoxItem { slot, layout: FlexBoxItemLayout::default() },
        PortalBoxSlot::ContentItem(item) => FlexBoxItem {
            slot: item.slot,
            layout: FlexBoxItemLayout::default(),
        },
        PortalBoxSlot::FlexItem(item) => item,
        PortalBoxSlot::GridItem(item) => FlexBoxItem {
            slot: item.slot,
            layout: FlexBoxItemLayout::default(),
        },
    }
}

/// What a portal carries as an item of a grid box: its own layout if it was
/// made for a grid box, the default layout otherwise.
pub fn into_grid_item(payload: PortalBoxSlot) -> (item: GridBoxItem)
    ensures
        item.model() == (ItemModel {
            slot: payload.model().slot,
            layout: fit_layout(MultiKind::Grid { cols: 0, rows: 0 }, payload.model().layout),
        }),
{
    match payload {
        PortalBoxSlot::Slot(slot) => GridBoxItem { slot, layout: GridBoxItemLayout::default() },
        PortalBoxSlot::ContentItem(item) => GridBoxItem {
            slot: item.slot,
            layout: GridBoxItemLayout::default(),
        },
        PortalBoxSlot::FlexItem(item) => GridBoxItem {
            slot: item.slot,
            layout: GridBoxItemLayout::default(),
        },
        PortalBoxSlot::GridItem(item) => item,
    }
}

/// Puts what a portal carries into `unit`: the one slot of an area or size box
/// is replaced, a content, flex or grid box gets one more item, and anything
/// else stays as it is, the content being dropped.
pub fn graft(unit: WidgetUnit, payload: PortalBoxSlot) -> (grafted: WidgetUnit)
    ensures
        grafted@ == unit@.graft(payload.model()),
{
    match unit {
        WidgetUnit::AreaBox(b) => {
            let AreaBox { id, slot: _ } = b;
            WidgetUnit::AreaBox(AreaBox { id, slot: Box::new(into_slot(payload)) })
        },
        WidgetUnit::SizeBox(b) => {
            let SizeBox { id, slot: _, width, height, margin } = b;
            WidgetUnit::SizeBox(
                SizeBox { id, slot: Box::new(into_slot(payload)), width, height, margin },
            )
        },
        WidgetUnit::ContentBox(b) => {
            let ContentBox { id, mut items, clipping } = b;
            items.push(into_content_item(payload));
            let grafted = WidgetUnit::ContentBox(ContentBox { id, items, clipping });
            assert(grafted@->Multi_items =~= unit@.graft(payload.model())->Multi_items);
            grafted
        },
        WidgetUnit::FlexBox(b) => {
            let FlexBox { id, mut items, direction, separation, wrap } = b;
            items.push(into_flex_item(payload));
            let grafted = WidgetUnit::FlexBox(FlexBox { id, items, direction, separation, wrap });
            assert(grafted@->Multi_items =~= unit@.graft(payload.model())->Multi_items);
            grafted
        },
        WidgetUnit::GridBox(b) => {
            let GridBox { id, mut items, cols, rows } = b;
            items.push(into_grid_item(payload));
            let grafted = WidgetUnit::GridBox(GridBox { id, items, cols, rows });
            assert(grafted@->Multi_items =~= unit@.graft(payload.model())->Multi_items);
            grafted
        },
        other => other,
    }
}

/// The index of the first portal in the list that `id` owns.
pub fn find_owned(portals: &Vec<(WidgetId, PortalBoxSlot)>, id: &WidgetId) -> (found: Option<usize>)
    ensures
        match found {
            Some(index) => first_owned(bucket_model(portals@), id@, 0) == Some(index as int),
            None => first_owned(bucket_model(portals@), id@, 0).is_none(),
        },
{
    let ghost models = bucket_model(portals@);
    let mut i: usize = 0;
    while i < portals.len()
        invariant
            i <= portals.len(),
            models == bucket_model(portals@),
            first_owned(models, id@, 0) == first_owned(models, id@, i as int),
        decreases portals.len() - i,
    {
        if portals[i].0 == *id {
            return Some(i);
        }
        i += 1;
    }
    None
}

/// Puts into `unit` every portal of the list that it owns, first found first.
/// A portal that is put in leaves the list, and the last one takes its place.
pub fn graft_owned(unit: WidgetUnit, portals: &mut Vec<(WidgetId, PortalBoxSlot)>) -> (grafted:
    WidgetUnit)
    ensures
        (grafted@, bucket_model(final(portals)@)) == graft_all(unit@, bucket_model(old(portals)@)),
{
    let mut unit = unit;
    let ghost target = graft_all(unit@, bucket_model(portals@));
    loop
        invariant
            graft_all(unit@, bucket_model(portals@)) == target,
        ensures
            (unit@, bucket_model(portals@)) == target,
        decreases portals.len(),
    {
        let found = match unit.id() {
            Some(id) => find_owned(portals, id),
            None => None,
        };
        match found {
            Some(index) => {
                proof {
                    lemma_first_owned(bucket_model(portals@), unit@.id().unwrap(), 0);
                }
                let ghost before = bucket_model(portals@);
                let entry = portals.swap_remove(index);
                assert(bucket_model(portals@) =~= swap_removed(before, index as int));
                unit = graft(unit, entry.1);
            },
            None => {
                break ;
            },
        }
    }
    unit
}

/// Puts the portals of the list under their owners in the tree, depth first.
/// At each primitive the portals that it owns are put into it and leave the
/// list, then its slots are visited in order, those just added too. Portals
/// whose owner is not in the tree stay in the list.
pub fn inject_portals(unit: WidgetUnit, portals: &mut Vec<(WidgetId, PortalBoxSlot)>) -> (injected:
    WidgetUnit)
    ensures
        (injected@, bucket_model(final(portals)@)) == inject(unit@, bucket_model(old(portals)@)),
    decreases unit@.size() + portals_weight(bucket_model(old(portals)@)), 1nat,
{
    if portals.len() == 0 {
        return unit;
    }
    let ghost unit0 = unit@;
    let ghost list0 = bucket_model(portals@);
    let ghost measure = unit0.size() + portals_weight(list0);
    proof {
        lemma_graft_all_measure(unit0, list0);
    }
    let unit = graft_owned(unit, portals);
    match unit {
        WidgetUnit::AreaBox(b) => {
            let AreaBox { id, slot } = b;
            let slot = inject_portals(*slot, portals);
            WidgetUnit::AreaBox(AreaBox { id, slot: Box::new(slot) })
        },
        WidgetUnit::SizeBox(b) => {
            let SizeBox { id, slot, width, height, margin } = b;
            let slot = inject_portals(*slot, portals);
            WidgetUnit::SizeBox(SizeBox { id, slot: Box::new(slot), width, height, margin })
        },
        WidgetUnit::ContentBox(b) => {
            let ContentBox { id, items, clipping } = b;
            let ghost before = items_model(items@);
            assert(unit@->Multi_items == before);
            let items = inject_items(items, portals, Ghost(measure));
            let injected = WidgetUnit::ContentBox(ContentBox { id, items, clipping });
            proof {
                lemma_items_injected(unit0, list0, unit@, injected@);
            }
            injected
        },
        WidgetUnit::FlexBox(b) => {
            let FlexBox { id, items, direction, separation, wrap } = b;
            let ghost before = items_model(items@);
            assert(unit@->Multi_items == before);
            let items = inject_items(items, portals, Ghost(measure));
            let injected = WidgetUnit::FlexBox(FlexBox { id, items, direction, separation, wrap });
            proof {
                lemma_items_injected(unit0, list0, unit@, injected@);
            }
            injected
        },
        WidgetUnit::GridBox(b) => {
            let GridBox { id, items, cols, rows } = b;
            let ghost before = items_model(items@);
            assert(unit@->Multi_items == before);
            let items = inject_items(items, portals, Ghost(measure));
            let injected = WidgetUnit::GridBox(GridBox { id, items, cols, rows });
            proof {
                lemma_items_injected(unit0, list0, unit@, injected@);
            }
            injected
        },
        other => other,
    }
}

/// A container whose items have had the portals put into their slots, one
/// after the other, is what putting the portals into the container gives:
/// `grafted` is the container with the portals that it owns, `made` the
/// container afterwards.
proof fn lemma_items_injected(
    unit: UnitModel,
    portals: Seq<PortalModel>,
    grafted: UnitModel,
    made: UnitModel,
)
    requires
        portals.len() > 0,
        grafted == graft_all(unit, portals).0,
        grafted is Multi,
        made is Multi,
        made->Multi_kind == grafted->Multi_kind,
        made->Multi_id == grafted->Multi_id,
        made->Multi_items.len() == grafted->Multi_items.len(),
        forall|i: int|
            0 <= i < grafted->Multi_items.len() ==> (#[trigger] made->Multi_items[i]) == (ItemModel {
                slot: inject_from(grafted->Multi_items, graft_all(unit, portals).1, 0).0[i],
                layout: grafted->Multi_items[i].layout,
            }),
    ensures
        made == inject(unit, portals).0,
        inject_from(grafted->Multi_items, graft_all(unit, portals).1, 0).1 == inject(
            unit,
            portals,
        ).1,
{
    lemma_graft_all_measure(unit, portals);
    lemma_inject_from_measure(grafted->Multi_items, graft_all(unit, portals).1, 0);
    assert(made->Multi_items =~= inject(unit, portals).0->Multi_items);
}

/// Puts the portals of the list into the slots of `items`, one item after the
/// other.
fn inject_items<I: UnitItem>(
    items: Vec<I>,
    portals: &mut Vec<(WidgetId, PortalBoxSlot)>,
    Ghost(bound): Ghost<nat>,
) -> (injected: Vec<I>)
    requires
        sum_from(sizes_of(items_model(items@)), 0) + portals_weight(bucket_model(old(portals)@))
            < bound,
    ensures
        injected@.len() == items@.len(),
        forall|i: int|
            0 <= i < items@.len() ==> (#[trigger] injected@[i]).model() == (ItemModel {
                slot: inject_from(items_model(items@), bucket_model(old(portals)@), 0).0[i],
                layout: items@[i].model().layout,
            }),
        bucket_model(final(portals)@) == inject_from(
            items_model(items@),
            bucket_model(old(portals)@),
            0,
        ).1,
    decreases bound, 0nat,
{
    let ghost models = items_model(items@);
    let ghost list = bucket_model(portals@);
    let ghost target = inject_from(models, list, 0);
    let mut items = items;
    let count = items.len();
    let mut i: usize = 0;
    let ghost mut done: Seq<UnitModel> = Seq::empty();
    while i < count
        invariant
            i <= count,
            count == items.len(),
            count == models.len(),
            done.len() == i,
            sum_from(sizes_of(models), 0) + portals_weight(list) < bound,
            portals_weight(bucket_model(portals@)) <= portals_weight(list),
            forall|j: int| i <= j < count ==> (#[trigger] items@[j]).model() == models[j],
            forall|j: int|
                0 <= j < i ==> (#[trigger] items@[j]).model() == (ItemModel {
                    slot: done[j],
                    layout: models[j].layout,
                }),
            target.0 == done + inject_from(models, bucket_model(portals@), i as int).0,
            target.1 == inject_from(models, bucket_model(portals@), i as int).1,
        decreases count - i,
    {
        let ghost now = bucket_model(portals@);
        proof {
            lemma_sum_from_bound(sizes_of(models), 0, i as int);
            lemma_inject_measure(models[i as int].slot, now);
        }
        let slot = items[i].take_slot();
        let slot = inject_portals(slot, portals);
        items[i].put_slot(slot);
        proof {
            let first = inject(models[i as int].slot, now);
            let rest = inject_from(models, first.1, i + 1);
            done = done.push(first.0);
        }
        i += 1;
    }
    items
}

/// Moves the content of every portal box in the tree under the portal's owner.
/// No portal box is left in the tree; content whose owner is not in the tree,
/// or cannot hold it, is dropped.
pub fn teleport_portals(root: WidgetUnit) -> (teleported: WidgetUnit)
    ensures
        teleported@ == teleport(root@),
        !teleported@.has_portal(),
{
    proof {
        lemma_teleport_portal_free(root@);
    }
    let count = estimate_portals(&root);
    if count == 0 {
        return root;
    }
    let mut portals: Vec<(WidgetId, PortalBoxSlot)> = Vec::with_capacity(count);
    let stripped = consume_portals(root, &mut portals);
    inject_portals(stripped, &mut portals)
}

/// No portal in the list carries a portal box inside its content.
pub open spec fn all_portal_free(portals: Seq<PortalModel>) -> bool {
    forall|i: int| 0 <= i < portals.len() ==> !(#[trigger] portals[i]).payload.slot.has_portal()
}

/// A stripped tree holds no portal box.
pub proof fn lemma_strip_portal_free(unit: UnitModel)
    ensures
        !unit.strip().has_portal(),
    decreases unit,
{
    match unit {
        UnitModel::Single { slot, .. } => {
            lemma_strip_portal_free(*slot);
        },
        UnitModel::Multi { items, .. } => {
            let stripped = unit.strip()->Multi_items;
            assert forall|i: int| 0 <= i < stripped.len() implies
                !(#[trigger] stripped[i]).slot.has_portal() by {
                lemma_strip_portal_free(items[i].slot);
            }
        },
        _ => {},
    }
}

/// The portals taken out of a tree carry content without portal boxes.
pub proof fn lemma_collect_portal_free(unit: UnitModel)
    ensures
        all_portal_free(unit.collect()),
    decreases unit, 0nat,
{
    match unit {
        UnitModel::Single { slot, .. } => {
            lemma_collect_portal_free(*slot);
        },
        UnitModel::Multi { items, .. } => {
            lemma_collect_items_portal_free(items, items.len());
        },
        UnitModel::Portal { slot, .. } => {
            lemma_collect_portal_free(slot.slot);
            lemma_strip_portal_free(slot.slot);
        },
        _ => {},
    }
}

/// The same for the slots of the first `count` items.
pub proof fn lemma_collect_items_portal_free(items: Seq<ItemModel>, count: nat)
    ensures
        all_portal_free(collect_items(items, count)),
    decreases items, count,
{
    if 0 < count <= items.len() {
        lemma_collect_items_portal_free(items, (count - 1) as nat);
        lemma_collect_portal_free(items[count - 1].slot);
    }
}

/// The portals of an item are among those of the list that it is in.
pub proof fn lemma_collect_items_len(items: Seq<ItemModel>, count: nat, index: int)
    requires
        0 <= index < count <= items.len(),
    ensures
        items[index].slot.collect().len() <= collect_items(items, count).len(),
    decreases count,
{
    if index < count - 1 {
        lemma_collect_items_len(items, (count - 1) as nat, index);
    }
}

/// A tree that holds a portal box gives at least one portal.
pub proof fn lemma_has_portal_collect(unit: UnitModel)
    ensures
        unit.has_portal() ==> unit.collect().len() > 0,
    decreases unit,
{
    match unit {
        UnitModel::Single { slot, .. } => {
            lemma_has_portal_collect(*slot);
        },
        UnitModel::Multi { items, .. } => {
            if unit.has_portal() {
                let i = choose|i: int| 0 <= i < items.len() && (#[trigger] items[i]).slot.has_portal();
                lemma_has_portal_collect(items[i].slot);
                lemma_collect_items_len(items, items.len(), i);
            }
        },
        _ => {},
    }
}

/// Putting content without portal boxes into a tree without portal boxes
/// gives a tree without portal boxes.
pub proof fn lemma_graft_all_portal_free(unit: UnitModel, portals: Seq<PortalModel>)
    requires
        !unit.has_portal(),
        all_portal_free(portals),
    ensures
        !graft_all(unit, portals).0.has_portal(),
        all_portal_free(graft_all(unit, portals).1),
    decreases portals.len(),
{
    match unit.id() {
        None => {},
        Some(id) => {
            lemma_first_owned(portals, id, 0);
            match first_owned(portals, id, 0) {
                Some(index) => {
                    let payload = portals[index].payload;
                    let grafted = unit.graft(payload);
                    let left = swap_removed(portals, index);
                    lemma_graft_all_portal_free(grafted, left);
                },
                None => {},
            }
        },
    }
}

/// Putting portals without portal boxes inside under their owners in a tree
/// without portal boxes leaves no portal box in the tree.
pub proof fn lemma_inject_portal_free(unit: UnitModel, portals: Seq<PortalModel>)
    requires
        !unit.has_portal(),
        all_portal_free(portals),
    ensures
        !inject(unit, portals).0.has_portal(),
        all_portal_free(inject(unit, portals).1),
    decreases unit.size() + portals_weight(portals), 0nat,
{
    if portals.len() > 0 {
        lemma_graft_all_measure(unit, portals);
        lemma_graft_all_portal_free(unit, portals);
        let grafted = graft_all(unit, portals);
        match grafted.0 {
            UnitModel::Single { kind, id, slot } => {
                lemma_inject_portal_free(*slot, grafted.1);
            },
            UnitModel::Multi { kind, id, items } => {
                lemma_inject_from_measure(items, grafted.1, 0);
                lemma_inject_from_portal_free(items, grafted.1, 0);
                let inner = inject_from(items, grafted.1, 0);
                let after = inject(unit, portals).0->Multi_items;
            },
            _ => {},
        }
    }
}

/// The same for the slots of a list of items, from index `from` on.
pub proof fn lemma_inject_from_portal_free(
    items: Seq<ItemModel>,
    portals: Seq<PortalModel>,
    from: int,
)
    requires
        0 <= from <= items.len(),
        forall|i: int| 0 <= i < items.len() ==> !(#[trigger] items[i]).slot.has_portal(),
        all_portal_free(portals),
    ensures
        forall|i: int|
            0 <= i < inject_from(items, portals, from).0.len() ==> !(#[trigger] inject_from(
                items,
                portals,
                from,
            ).0[i]).has_portal(),
        all_portal_free(inject_from(items, portals, from).1),
    decreases sum_from(sizes_of(items), from) + portals_weight(portals), 1nat,
{
    if from < items.len() {
        lemma_inject_measure(items[from].slot, portals);
        lemma_inject_portal_free(items[from].slot, portals);
        let first = inject(items[from].slot, portals);
        lemma_inject_from_portal_free(items, first.1, from + 1);
        let rest = inject_from(items, first.1, from + 1);
        let all = inject_from(items, portals, from).0;
    }
}

/// After teleporting, no portal box is left anywhere in the tree.
pub proof fn lemma_teleport_portal_free(unit: UnitModel)
    ensures
        !teleport(unit).has_portal(),
{
    if unit.collect().len() == 0 {
        lemma_has_portal_collect(unit);
    } else {
        lemma_strip_portal_free(unit);
        lemma_collect_portal_free(unit);
        lemma_inject_portal_free(unit.strip(), unit.collect());
    }
}

/// Teleporting leaves the root in its place, with its identity, unless the
/// root is itself a portal box, which leaves nothing.
pub proof fn lemma_teleport_keeps_root(unit: UnitModel)
    ensures
        unit is Portal ==> teleport(unit) is Empty,
        !(unit is Portal) ==> teleport(unit).id() == unit.id(),
{
    if unit.collect().len() > 0 {
        lemma_inject_measure(unit.strip(), unit.collect());
        if unit is Portal {
            assert(unit.strip() is Empty);
            assert(graft_all(unit.strip(), unit.collect()) == (unit.strip(), unit.collect()));
        }
    }
}

/// Whether no primitive of the tree owns a portal of the list. What is inside
/// a portal box is not looked at.
pub open spec fn owns_none(unit: UnitModel, portals: Seq<PortalModel>) -> bool
    decreases unit,
{
    portals.len() == 0 || {
        &&& forall|i: int|
            0 <= i < portals.len() ==> unit.id() != Some((#[trigger] portals[i]).owner)
        &&& match unit {
            UnitModel::Single { slot, .. } => owns_none(*slot, portals),
            UnitModel::Multi { items, .. } => forall|i: int|
                0 <= i < items.len() ==> owns_none((#[trigger] items[i]).slot, portals),
            _ => true,
        }
    }
}

/// The slots of the items from index `from` on.
pub open spec fn slots_from(items: Seq<ItemModel>, from: int) -> Seq<UnitModel> {
    Seq::new((items.len() - from) as nat, |k: int| items[k + from].slot)
}

/// A tree in which no primitive owns a portal of the list stays as it is, and
/// so does the list.
pub proof fn lemma_inject_owns_none(unit: UnitModel, portals: Seq<PortalModel>)
    requires
        owns_none(unit, portals),
    ensures
        inject(unit, portals) == (unit, portals),
    decreases unit, 0nat,
{
    if portals.len() > 0 {
        lemma_graft_all_measure(unit, portals);
        match unit.id() {
            Some(id) => {
                lemma_first_owned(portals, id, 0);
            },
            None => {},
        }
        match unit {
            UnitModel::Single { kind, id, slot } => {
                lemma_inject_owns_none(*slot, portals);
            },
            UnitModel::Multi { kind, id, items } => {
                lemma_inject_from_owns_none(items, portals, 0);
                assert(inject(unit, portals).0->Multi_items =~= items);
            },
            _ => {},
        }
    }
}

/// The same for the slots of a list of items, from index `from` on.
pub proof fn lemma_inject_from_owns_none(
    items: Seq<ItemModel>,
    portals: Seq<PortalModel>,
    from: int,
)
    requires
        0 <= from <= items.len(),
        forall|k: int| from <= k < items.len() ==> owns_none((#[trigger] items[k]).slot, portals),
    ensures
        inject_from(items, portals, from) == (slots_from(items, from), portals),
    decreases items, items.len() - from,
{
    if from < items.len() {
        lemma_inject_owns_none(items[from].slot, portals);
        lemma_inject_from_owns_none(items, portals, from + 1);
    }
}

/// Where only the slot at index `at` holds an owner: the slots before it stay
/// as they are, the portals are put into that slot, and the slots behind it
/// stay as they are if they own none of the portals that are left.
pub proof fn lemma_inject_from_one_owner(
    items: Seq<ItemModel>,
    portals: Seq<PortalModel>,
    from: int,
    at: int,
)
    requires
        0 <= from <= at < items.len(),
        forall|k: int| from <= k < at ==> owns_none((#[trigger] items[k]).slot, portals),
        forall|k: int|
            at < k < items.len() ==> owns_none(
                (#[trigger] items[k]).slot,
                inject(items[at].slot, portals).1,
            ),
    ensures
        inject_from(items, portals, from) == (
            slots_from(items, from).update(at - from, inject(items[at].slot, portals).0),
            inject(items[at].slot, portals).1,
        ),
    decreases at - from,
{
    let made = inject(items[at].slot, portals);
    if from < at {
        lemma_inject_owns_none(items[from].slot, portals);
        lemma_inject_from_one_owner(items, portals, from + 1, at);
    } else {
        lemma_inject_measure(items[at].slot, portals);
        lemma_inject_from_owns_none(items, made.1, at + 1);
    }
}

/// A primitive that owns the one portal of a list receives it, and no portal
/// is left.
pub proof fn lemma_inject_single_portal(unit: UnitModel, portal: PortalModel)
    requires
        unit.id() == Some(portal.owner),
    ensures
        inject(unit, seq![portal]) == (unit.graft(portal.payload), Seq::<PortalModel>::empty()),
{
    let portals = seq![portal];
    let grafted = unit.graft(portal.payload);
    lemma_graft_all_measure(unit, portals);
    lemma_graft_size(unit, portal.payload);
    assert(swap_removed(portals, 0) =~= Seq::<PortalModel>::empty());
    assert(graft_all(grafted, Seq::<PortalModel>::empty()) == (grafted, Seq::<PortalModel>::empty()));
    match grafted {
        UnitModel::Single { kind, id, slot } => {
            assert(inject(*slot, Seq::<PortalModel>::empty()) == (
                *slot,
                Seq::<PortalModel>::empty(),
            ));
        },
        UnitModel::Multi { kind, id, items } => {
            lemma_inject_from_owns_none(items, Seq::<PortalModel>::empty(), 0);
            assert(inject(unit, portals).0->Multi_items =~= items);
        },
        _ => {},
    }
}

/// Nested portals: `inner` is a portal that stood inside the content of the
/// portal `outer`, so that it comes first in the list. The owner of `inner`
/// is the container `root`; the owner of `outer` is the primitive in the slot
/// of the item at index `at` of `root`, and no primitive in the slots before
/// it has the identity of that owner. Then the container receives the
/// content of `inner` as its last item, the owner of `outer` receives the
/// content of `outer`, the other items stay as they are, and no portal is
/// left.
///
/// Where the owner of `inner` is a box with one slot above the owner of
/// `outer`, this does not hold: the content of `inner` takes the place of
/// what the slot held, the owner of `outer` with it. So the law is stated for
/// a container with items.
pub proof fn lemma_nested_portals(
    root: UnitModel,
    at: int,
    inner: PortalModel,
    outer: PortalModel,
)
    requires
        root is Multi,
        root.id() == Some(inner.owner),
        inner.owner != outer.owner,
        0 <= at < root->Multi_items.len(),
        root->Multi_items[at].slot.id() == Some(outer.owner),
        forall|k: int|
            0 <= k < at ==> owns_none((#[trigger] root->Multi_items[k]).slot, seq![outer]),
    ensures
        inject(root, seq![inner, outer]) == (
            UnitModel::Multi {
                kind: root->Multi_kind,
                id: root->Multi_id,
                items: root->Multi_items.update(
                    at,
                    ItemModel {
                        slot: root->Multi_items[at].slot.graft(outer.payload),
                        layout: root->Multi_items[at].layout,
                    },
                ).push(
                    ItemModel {
                        slot: inner.payload.slot,
                        layout: fit_layout(root->Multi_kind, inner.payload.layout),
                    },
                ),
            },
            Seq::<PortalModel>::empty(),
        ),
{
    let portals = seq![inner, outer];
    let rest = seq![outer];
    let grafted = root.graft(inner.payload);
    let items = grafted->Multi_items;
    lemma_graft_all_measure(root, portals);
    lemma_graft_size(root, inner.payload);
    assert(swap_removed(portals, 0) =~= rest);
    assert(first_owned(rest, inner.owner, 0).is_none()) by {
        lemma_first_owned(rest, inner.owner, 0);
        if first_owned(rest, inner.owner, 0) is Some {
            assert(rest[first_owned(rest, inner.owner, 0)->0] == outer);
        }
    }
    assert(graft_all(grafted, rest) == (grafted, rest));
    lemma_inject_single_portal(items[at].slot, outer);
    lemma_inject_from_one_owner(items, rest, 0, at);
    assert(inject(root, portals).0->Multi_items =~= root->Multi_items.update(
        at,
        ItemModel {
            slot: root->Multi_items[at].slot.graft(outer.payload),
            layout: root->Multi_items[at].layout,
        },
    ).push(
        ItemModel {
            slot: inner.payload.slot,
            layout: fit_layout(root->Multi_kind, inner.payload.layout),
        },
    ));
}

/// Slots that own none of the portals are passed over: the slots from `from`
/// up to `to` stay as they are, and the portals go on to the slots from `to`
/// on.
pub proof fn lemma_inject_from_skip(
    items: Seq<ItemModel>,
    portals: Seq<PortalModel>,
    from: int,
    to: int,
)
    requires
        0 <= from <= to <= items.len(),
        forall|k: int| from <= k < to ==> owns_none((#[trigger] items[k]).slot, portals),
    ensures
        inject_from(items, portals, from) == (
            slots_from(items, from).subrange(0, to - from) + inject_from(items, portals, to).0,
            inject_from(items, portals, to).1,
        ),
    decreases to - from,
{
    if from < to {
        lemma_inject_owns_none(items[from].slot, portals);
        lemma_inject_from_skip(items, portals, from + 1, to);
    }
}

/// A primitive that owns the first of two portals and not the second
/// receives the first; the second is left if nothing in the primitive, as it
/// is then, owns it.
pub proof fn lemma_inject_first_of_two(unit: UnitModel, first: PortalModel, second: PortalModel)
    requires
        unit.id() == Some(first.owner),
        first.owner != second.owner,
        owns_none(unit.graft(first.payload), seq![second]),
    ensures
        inject(unit, seq![first, second]) == (unit.graft(first.payload), seq![second]),
{
    let portals = seq![first, second];
    let rest = seq![second];
    let grafted = unit.graft(first.payload);
    lemma_graft_all_measure(unit, portals);
    lemma_graft_size(unit, first.payload);
    assert(swap_removed(portals, 0) =~= rest);
    assert(first_owned(rest, first.owner, 0).is_none()) by {
        lemma_first_owned(rest, first.owner, 0);
        if first_owned(rest, first.owner, 0) is Some {
            assert(rest[first_owned(rest, first.owner, 0)->0] == second);
        }
    }
    assert(graft_all(grafted, rest) == (grafted, rest));
    match grafted {
        UnitModel::Single { kind, id, slot } => {
            lemma_inject_owns_none(*slot, rest);
        },
        UnitModel::Multi { kind, id, items } => {
            lemma_inject_from_owns_none(items, rest, 0);
            assert(inject(unit, portals).0->Multi_items =~= items);
        },
        _ => {},
    }
}

/// Nested portals under a container that owns neither: `inner` stood inside
/// the content of `outer`, so that it comes first in the list. The owner of
/// `inner` is in the slot of the item at index `first` of `root`, the owner
/// of `outer` in the slot of a later item, at index `second`. No other
/// primitive that is met before the owner of a portal has its identity, and
/// nothing in the owner of `inner`, as it is with the content of `inner`,
/// owns `outer`. Then each owner receives the content of its portal, the
/// other items stay as they are, and no portal is left.
pub proof fn lemma_nested_portals_in_items(
    root: UnitModel,
    first: int,
    second: int,
    inner: PortalModel,
    outer: PortalModel,
)
    requires
        root is Multi,
        root.id() != Some(inner.owner),
        root.id() != Some(outer.owner),
        inner.owner != outer.owner,
        0 <= first < second < root->Multi_items.len(),
        root->Multi_items[first].slot.id() == Some(inner.owner),
        root->Multi_items[second].slot.id() == Some(outer.owner),
        forall|k: int|
            0 <= k < first ==> owns_none(
                (#[trigger] root->Multi_items[k]).slot,
                seq![inner, outer],
            ),
        owns_none(root->Multi_items[first].slot.graft(inner.payload), seq![outer]),
        forall|k: int|
            first < k < second ==> owns_none((#[trigger] root->Multi_items[k]).slot, seq![outer]),
    ensures
        inject(root, seq![inner, outer]) == (
            UnitModel::Multi {
                kind: root->Multi_kind,
                id: root->Multi_id,
                items: root->Multi_items.update(
                    first,
                    ItemModel {
                        slot: root->Multi_items[first].slot.graft(inner.payload),
                        layout: root->Multi_items[first].layout,
                    },
                ).update(
                    second,
                    ItemModel {
                        slot: root->Multi_items[second].slot.graft(outer.payload),
                        layout: root->Multi_items[second].layout,
                    },
                ),
            },
            Seq::<PortalModel>::empty(),
        ),
{
    let portals = seq![inner, outer];
    let rest = seq![outer];
    let items = root->Multi_items;
    lemma_graft_all_measure(root, portals);
    assert(graft_all(root, portals) == (root, portals)) by {
        lemma_first_owned(portals, root->Multi_id, 0);
        if first_owned(portals, root->Multi_id, 0) is Some {
            let index = first_owned(portals, root->Multi_id, 0)->0;
            assert(portals[index] == inner || portals[index] == outer);
        }
    }
    lemma_inject_from_skip(items, portals, 0, first);
    lemma_inject_first_of_two(items[first].slot, inner, outer);
    lemma_inject_single_portal(items[second].slot, outer);
    lemma_inject_from_one_owner(items, rest, first + 1, second);
    lemma_inject_measure(items[first].slot, portals);
    let later = inject_from(items, rest, first + 1);
    assert(inject(root, portals).0->Multi_items =~= items.update(
        first,
        ItemModel { slot: items[first].slot.graft(inner.payload), layout: items[first].layout },
    ).update(
        second,
        ItemModel { slot: items[second].slot.graft(outer.payload), layout: items[second].layout },
    ));
}

/// Nested portals, from the tree to the tree: the portals of `unit` are
/// `inner` and `outer`, in that order, as they are where `inner` stands inside
/// the content of `outer`. Without its portal boxes `unit` is a container
/// that owns neither; the owner of `inner` is in the slot of its item at
/// index `first`, the owner of `outer` in the slot of a later item, at index
/// `second`, and what is met before an owner does not have its identity.
/// Then teleporting puts the content of each portal into its owner, leaves
/// the other items as they are without their portal boxes, and leaves no
/// portal box in the owner of `outer`.
pub proof fn lemma_teleport_nested_portals(
    unit: UnitModel,
    first: int,
    second: int,
    inner: PortalModel,
    outer: PortalModel,
)
    requires
        unit.collect() == seq![inner, outer],
        unit.strip() is Multi,
        unit.strip().id() != Some(inner.owner),
        unit.strip().id() != Some(outer.owner),
        inner.owner != outer.owner,
        0 <= first < second < unit.strip()->Multi_items.len(),
        unit.strip()->Multi_items[first].slot.id() == Some(inner.owner),
        unit.strip()->Multi_items[second].slot.id() == Some(outer.owner),
        forall|k: int|
            0 <= k < first ==> owns_none(
                (#[trigger] unit.strip()->Multi_items[k]).slot,
                seq![inner, outer],
            ),
        owns_none(unit.strip()->Multi_items[first].slot.graft(inner.payload), seq![outer]),
        forall|k: int|
            first < k < second ==> owns_none(
                (#[trigger] unit.strip()->Multi_items[k]).slot,
                seq![outer],
            ),
    ensures
        teleport(unit) == (UnitModel::Multi {
            kind: unit.strip()->Multi_kind,
            id: unit.strip()->Multi_id,
            items: unit.strip()->Multi_items.update(
                first,
                ItemModel {
                    slot: unit.strip()->Multi_items[first].slot.graft(inner.payload),
                    layout: unit.strip()->Multi_items[first].layout,
                },
            ).update(
                second,
                ItemModel {
                    slot: unit.strip()->Multi_items[second].slot.graft(outer.payload),
                    layout: unit.strip()->Multi_items[second].layout,
                },
            ),
        }),
        !inner.payload.slot.has_portal(),
        !outer.payload.slot.has_portal(),
        !teleport(unit).has_portal(),
{
    lemma_nested_portals_in_items(unit.strip(), first, second, inner, outer);
    lemma_collect_portal_free(unit);
    lemma_teleport_portal_free(unit);
}

/// The portals of a portal box are those of its content, then the box's own:
/// a portal inside the content of another comes before that other, and what
/// the outer one carries is its content without any portal box.
pub proof fn lemma_nested_portals_come_first(unit: UnitModel)
    requires
        unit is Portal,
    ensures
        unit.collect().len() == unit->Portal_slot.slot.collect().len() + 1,
        unit.collect().last().owner == unit->Portal_owner,
        unit.collect().last().payload.slot == unit->Portal_slot.slot.strip(),
        !unit.collect().last().payload.slot.has_portal(),
        unit.collect().drop_last() == unit->Portal_slot.slot.collect(),
{
    lemma_strip_portal_free(unit->Portal_slot.slot);
}

} // verus!
