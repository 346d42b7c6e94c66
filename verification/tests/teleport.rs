use raui_core::teleport::{
    consume_portals, estimate_portals, find_owned, graft, graft_owned, inject_portals,
    into_content_item, into_flex_item, into_grid_item, into_slot, teleport_portals,
};
use raui_core::widget::unit::area::AreaBox;
use raui_core::widget::unit::content::{ContentBox, ContentBoxItem, ContentBoxItemLayout};
use raui_core::widget::unit::flex::{FlexBox, FlexBoxDirection, FlexBoxItem, FlexBoxItemLayout};
use raui_core::widget::unit::grid::{GridBox, GridBoxItem, GridBoxItemLayout};
use raui_core::widget::unit::image::ImageBox;
use raui_core::widget::unit::portal::{PortalBox, PortalBoxSlot};
use raui_core::widget::unit::size::{SizeBox, SizeBoxSizeValue};
use raui_core::widget::unit::text::TextBox;
use raui_core::widget::unit::WidgetUnit;
use raui_core::widget::utils::Rect;
use raui_core::widget::WidgetId;

fn id(type_tag: &str, key: &str) -> WidgetId {
    WidgetId::new(type_tag.to_owned(), vec![key.to_owned()])
}

fn text(key: &str, value: &str) -> WidgetUnit {
    WidgetUnit::TextBox(TextBox {
        id: id("text", key),
        text: value.to_owned(),
    })
}

fn content(key: &str, slots: Vec<WidgetUnit>) -> WidgetUnit {
    WidgetUnit::ContentBox(ContentBox {
        id: id("content", key),
        items: slots
            .into_iter()
            .map(|slot| ContentBoxItem {
                slot,
                layout: ContentBoxItemLayout::default(),
            })
            .collect(),
        clipping: false,
    })
}

fn flex(key: &str, slots: Vec<WidgetUnit>) -> WidgetUnit {
    WidgetUnit::FlexBox(FlexBox {
        id: id("flex", key),
        items: slots
            .into_iter()
            .map(|slot| FlexBoxItem {
                slot,
                layout: FlexBoxItemLayout::default(),
            })
            .collect(),
        direction: FlexBoxDirection::VerticalTopToBottom,
        separation: 4,
        wrap: true,
    })
}

fn grid(key: &str, slots: Vec<WidgetUnit>) -> WidgetUnit {
    WidgetUnit::GridBox(GridBox {
        id: id("grid", key),
        items: slots
            .into_iter()
            .map(|slot| GridBoxItem {
                slot,
                layout: GridBoxItemLayout::default(),
            })
            .collect(),
        cols: 2,
        rows: 3,
    })
}

fn size(key: &str, slot: WidgetUnit) -> WidgetUnit {
    WidgetUnit::SizeBox(SizeBox {
        id: id("size", key),
        slot: Box::new(slot),
        width: SizeBoxSizeValue::Exact(10),
        height: SizeBoxSizeValue::Fill,
        margin: Rect::default(),
    })
}

fn area(key: &str, slot: WidgetUnit) -> WidgetUnit {
    WidgetUnit::AreaBox(AreaBox {
        id: id("area", key),
        slot: Box::new(slot),
    })
}

fn portal(key: &str, owner: WidgetId, slot: PortalBoxSlot) -> WidgetUnit {
    WidgetUnit::PortalBox(PortalBox {
        id: id("portal", key),
        slot: Box::new(slot),
        owner,
    })
}

fn has_portal(unit: &WidgetUnit) -> bool {
    match unit {
        WidgetUnit::Empty | WidgetUnit::ImageBox(_) | WidgetUnit::TextBox(_) => false,
        WidgetUnit::PortalBox(_) => true,
        WidgetUnit::AreaBox(b) => has_portal(&b.slot),
        WidgetUnit::SizeBox(b) => has_portal(&b.slot),
        WidgetUnit::ContentBox(b) => b.items.iter().any(|item| has_portal(&item.slot)),
        WidgetUnit::FlexBox(b) => b.items.iter().any(|item| has_portal(&item.slot)),
        WidgetUnit::GridBox(b) => b.items.iter().any(|item| has_portal(&item.slot)),
    }
}

fn text_of(unit: &WidgetUnit) -> &str {
    match unit {
        WidgetUnit::TextBox(b) => b.text.as_str(),
        _ => panic!("not a text box"),
    }
}

fn content_items(unit: &WidgetUnit) -> &Vec<ContentBoxItem> {
    match unit {
        WidgetUnit::ContentBox(b) => &b.items,
        _ => panic!("not a content box"),
    }
}

#[test]
fn portal_round_trip() {
    let root_id = id("content", "root");
    let deep = portal(
        "p",
        root_id.clone(),
        PortalBoxSlot::Slot(text("tip", "tooltip")),
    );
    let tree = content(
        "root",
        vec![
            text("first", "first"),
            size("one", area("two", flex("three", vec![deep, text("in", "inside")]))),
        ],
    );
    assert_eq!(estimate_portals(&tree), 1);
    let out = teleport_portals(tree);
    assert!(!has_portal(&out));
    assert!(out.id().unwrap() == &root_id);
    let items = content_items(&out);
    assert_eq!(items.len(), 3);
    assert_eq!(text_of(&items[0].slot), "first");
    assert_eq!(text_of(&items[2].slot), "tooltip");
    assert!(items[2].layout == ContentBoxItemLayout::default());
    match &items[1].slot {
        WidgetUnit::SizeBox(s) => match &*s.slot {
            WidgetUnit::AreaBox(a) => match &*a.slot {
                WidgetUnit::FlexBox(f) => {
                    assert_eq!(f.items.len(), 2);
                    assert!(f.items[0].slot.is_none());
                    assert_eq!(text_of(&f.items[1].slot), "inside");
                    assert_eq!(f.separation, 4);
                }
                _ => panic!("flex box expected"),
            },
            _ => panic!("area box expected"),
        },
        _ => panic!("size box expected"),
    }
}

#[test]
fn nested_portals_are_resolved_inside_out() {
    let a = id("content", "a");
    let b = id("flex", "b");
    let inner = portal("inner", b.clone(), PortalBoxSlot::Slot(text("x", "for b")));
    let outer = portal(
        "outer",
        a.clone(),
        PortalBoxSlot::Slot(content("payload", vec![inner, text("y", "for a")])),
    );
    let tree = content(
        "top",
        vec![
            flex("b", vec![]),
            content("a", vec![]),
            area("holder", outer),
        ],
    );
    assert_eq!(estimate_portals(&tree), 2);
    let out = teleport_portals(tree);
    assert!(!has_portal(&out));
    let items = content_items(&out);
    match &items[0].slot {
        WidgetUnit::FlexBox(f) => {
            assert_eq!(f.items.len(), 1);
            assert_eq!(text_of(&f.items[0].slot), "for b");
        }
        _ => panic!("flex box expected"),
    }
    let in_a = content_items(&items[1].slot);
    assert_eq!(in_a.len(), 1);
    let payload = content_items(&in_a[0].slot);
    assert_eq!(payload.len(), 2);
    assert!(payload[0].slot.is_none());
    assert_eq!(text_of(&payload[1].slot), "for a");
    match &items[2].slot {
        WidgetUnit::AreaBox(holder) => assert!(holder.slot.is_none()),
        _ => panic!("area box expected"),
    }
}

#[test]
fn grafted_content_can_own_a_portal() {
    let root = id("content", "root");
    let late = id("flex", "late");
    let tree = content(
        "root",
        vec![
            portal(
                "first",
                late.clone(),
                PortalBoxSlot::Slot(text("t", "into late")),
            ),
            portal(
                "second",
                root.clone(),
                PortalBoxSlot::Slot(flex("late", vec![])),
            ),
        ],
    );
    let out = teleport_portals(tree);
    assert!(!has_portal(&out));
    let items = content_items(&out);
    assert_eq!(items.len(), 3);
    match &items[2].slot {
        WidgetUnit::FlexBox(f) => {
            assert!(f.id == late);
            assert_eq!(f.items.len(), 1);
            assert_eq!(text_of(&f.items[0].slot), "into late");
        }
        _ => panic!("flex box expected"),
    }
}

#[test]
fn unmatched_owner_is_dropped() {
    let tree = content(
        "root",
        vec![portal(
            "p",
            id("content", "nowhere"),
            PortalBoxSlot::Slot(text("t", "lost")),
        )],
    );
    let out = teleport_portals(tree);
    let items = content_items(&out);
    assert_eq!(items.len(), 1);
    assert!(items[0].slot.is_none());
}

#[test]
fn owner_without_slots_drops_the_content() {
    let tree = content(
        "root",
        vec![
            text("label", "label"),
            WidgetUnit::ImageBox(ImageBox {
                id: id("image", "pic"),
                content_keep_aspect_ratio: true,
            }),
            portal(
                "p",
                id("text", "label"),
                PortalBoxSlot::Slot(text("t", "lost")),
            ),
            portal(
                "q",
                id("image", "pic"),
                PortalBoxSlot::Slot(text("u", "lost too")),
            ),
        ],
    );
    let out = teleport_portals(tree);
    let items = content_items(&out);
    assert_eq!(items.len(), 4);
    assert_eq!(text_of(&items[0].slot), "label");
    assert!(matches!(items[1].slot, WidgetUnit::ImageBox(_)));
    assert!(items[2].slot.is_none());
    assert!(items[3].slot.is_none());
}

#[test]
fn tree_without_portals_is_unchanged() {
    let tree = content("root", vec![text("a", "a"), size("s", text("b", "b"))]);
    assert_eq!(estimate_portals(&tree), 0);
    let out = teleport_portals(tree);
    let items = content_items(&out);
    assert_eq!(items.len(), 2);
    assert_eq!(text_of(&items[0].slot), "a");
    match &items[1].slot {
        WidgetUnit::SizeBox(s) => {
            assert_eq!(text_of(&s.slot), "b");
            assert!(s.width == SizeBoxSizeValue::Exact(10));
        }
        _ => panic!("size box expected"),
    }
}

#[test]
fn single_slot_owner_gets_the_bare_content() {
    let layout = ContentBoxItemLayout {
        anchors: Rect::default(),
        margin: Rect {
            left: 1,
            right: 2,
            top: 3,
            bottom: 4,
        },
        depth: 5,
    };
    let tree = content(
        "root",
        vec![
            size("target", text("old", "old")),
            portal(
                "p",
                id("size", "target"),
                PortalBoxSlot::ContentItem(ContentBoxItem {
                    slot: text("new", "new"),
                    layout,
                }),
            ),
        ],
    );
    let out = teleport_portals(tree);
    let items = content_items(&out);
    match &items[0].slot {
        WidgetUnit::SizeBox(s) => assert_eq!(text_of(&s.slot), "new"),
        _ => panic!("size box expected"),
    }
}

#[test]
fn item_layout_is_kept_only_for_its_own_kind() {
    let flex_layout = FlexBoxItemLayout {
        fill: 1,
        grow: 2,
        shrink: 3,
        margin: Rect::default(),
    };
    let as_flex = into_flex_item(PortalBoxSlot::FlexItem(FlexBoxItem {
        slot: text("a", "a"),
        layout: flex_layout,
    }));
    assert!(as_flex.layout == flex_layout);
    let as_content = into_content_item(PortalBoxSlot::FlexItem(FlexBoxItem {
        slot: text("a", "a"),
        layout: flex_layout,
    }));
    assert!(as_content.layout == ContentBoxItemLayout::default());
    assert_eq!(text_of(&as_content.slot), "a");
    let grid_layout = GridBoxItemLayout {
        column: 1,
        row: 2,
        margin: Rect::default(),
    };
    let as_grid = into_grid_item(PortalBoxSlot::GridItem(GridBoxItem {
        slot: text("g", "g"),
        layout: grid_layout,
    }));
    assert!(as_grid.layout == grid_layout);
    let bare_grid = into_grid_item(PortalBoxSlot::Slot(text("g", "g")));
    assert!(bare_grid.layout == GridBoxItemLayout::default());
    let bare = into_slot(PortalBoxSlot::GridItem(GridBoxItem {
        slot: text("s", "s"),
        layout: grid_layout,
    }));
    assert_eq!(text_of(&bare), "s");
}

#[test]
fn graft_adds_an_item_to_a_grid_box() {
    let grafted = graft(
        grid("g", vec![text("a", "a")]),
        PortalBoxSlot::Slot(text("b", "b")),
    );
    match &grafted {
        WidgetUnit::GridBox(g) => {
            assert_eq!(g.items.len(), 2);
            assert_eq!(text_of(&g.items[1].slot), "b");
            assert_eq!(g.cols, 2);
            assert_eq!(g.rows, 3);
        }
        _ => panic!("grid box expected"),
    }
    let same = graft(text("t", "t"), PortalBoxSlot::Slot(text("b", "b")));
    assert_eq!(text_of(&same), "t");
    let nothing = graft(WidgetUnit::Empty, PortalBoxSlot::Slot(text("b", "b")));
    assert!(nothing.is_none());
}

#[test]
fn portals_of_one_owner_arrive_first_found_first() {
    let root = id("content", "root");
    let mut portals = vec![
        (root.clone(), PortalBoxSlot::Slot(text("1", "one"))),
        (id("x", "x"), PortalBoxSlot::Slot(text("x", "other"))),
        (root.clone(), PortalBoxSlot::Slot(text("2", "two"))),
        (root.clone(), PortalBoxSlot::Slot(text("3", "three"))),
    ];
    assert_eq!(find_owned(&portals, &root), Some(0));
    assert_eq!(find_owned(&portals, &id("x", "x")), Some(1));
    assert_eq!(find_owned(&portals, &id("y", "y")), None);
    let grafted = graft_owned(content("root", vec![]), &mut portals);
    let items = content_items(&grafted);
    assert_eq!(items.len(), 3);
    assert_eq!(text_of(&items[0].slot), "one");
    assert_eq!(text_of(&items[1].slot), "three");
    assert_eq!(text_of(&items[2].slot), "two");
    assert_eq!(portals.len(), 1);
    assert!(portals[0].0 == id("x", "x"));
}

#[test]
fn consume_and_inject_step_by_step() {
    let root = id("content", "root");
    let tree = content(
        "root",
        vec![
            portal("p", root.clone(), PortalBoxSlot::Slot(text("a", "a"))),
            portal(
                "q",
                id("content", "nowhere"),
                PortalBoxSlot::Slot(text("b", "b")),
            ),
        ],
    );
    let mut bucket = Vec::new();
    let stripped = consume_portals(tree, &mut bucket);
    assert_eq!(bucket.len(), 2);
    assert!(bucket[0].0 == root);
    assert!(!has_portal(&stripped));
    assert_eq!(estimate_portals(&stripped), 0);
    let injected = inject_portals(stripped, &mut bucket);
    assert_eq!(content_items(&injected).len(), 3);
    assert_eq!(bucket.len(), 1);
    assert!(bucket[0].0 == id("content", "nowhere"));
    let mut none = Vec::new();
    let same = inject_portals(injected, &mut none);
    assert_eq!(content_items(&same).len(), 3);
}

#[test]
fn a_container_that_owns_the_inner_portal_receives_it_last() {
    let a = id("flex", "a");
    let root = id("content", "root");
    let inner = portal("inner", root.clone(), PortalBoxSlot::Slot(text("x", "for root")));
    let outer = portal(
        "outer",
        a.clone(),
        PortalBoxSlot::Slot(content("payload", vec![inner, text("y", "for a")])),
    );
    let tree = content(
        "root",
        vec![text("t", "first"), flex("a", vec![]), area("holder", outer)],
    );
    let out = teleport_portals(tree);
    assert!(!has_portal(&out));
    let items = content_items(&out);
    assert_eq!(items.len(), 4);
    assert_eq!(text_of(&items[0].slot), "first");
    match &items[1].slot {
        WidgetUnit::FlexBox(f) => {
            assert_eq!(f.items.len(), 1);
            let payload = content_items(&f.items[0].slot);
            assert_eq!(payload.len(), 2);
            assert!(payload[0].slot.is_none());
            assert_eq!(text_of(&payload[1].slot), "for a");
        }
        _ => panic!("flex box expected"),
    }
    match &items[2].slot {
        WidgetUnit::AreaBox(holder) => assert!(holder.slot.is_none()),
        _ => panic!("area box expected"),
    }
    assert_eq!(text_of(&items[3].slot), "for root");
}

#[test]
fn a_one_slot_owner_above_the_later_owner_replaces_it() {
    let a = id("content", "a");
    let b = id("area", "b");
    let inner = portal("inner", b.clone(), PortalBoxSlot::Slot(text("x", "for b")));
    let outer = portal(
        "outer",
        a.clone(),
        PortalBoxSlot::Slot(content("payload", vec![inner, text("y", "for a")])),
    );
    let tree = content(
        "top",
        vec![area("b", content("a", vec![])), area("holder", outer)],
    );
    let out = teleport_portals(tree);
    assert!(!has_portal(&out));
    let items = content_items(&out);
    assert_eq!(items.len(), 2);
    match &items[0].slot {
        WidgetUnit::AreaBox(owner) => assert_eq!(text_of(&owner.slot), "for b"),
        _ => panic!("area box expected"),
    }
    match &items[1].slot {
        WidgetUnit::AreaBox(holder) => assert!(holder.slot.is_none()),
        _ => panic!("area box expected"),
    }
}
