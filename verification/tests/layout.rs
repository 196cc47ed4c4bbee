use rain_editor::dock::{DockNode, DockTree, NodeIndex, Placement, Side};
use rain_editor::error::ConfigError;
use rain_editor::geometry::{Fraction, Orientation, Rect};
use rain_editor::tabs::{ContentKind, Tab};

fn fraction(numer: u32, denom: u32) -> Fraction {
    Fraction::new(numer, denom).unwrap()
}

fn area(rect: &Rect) -> u64 {
    rect.width() as u64 * rect.height() as u64
}

fn covering(panes: &[Placement], x: i32, y: i32) -> usize {
    panes
        .iter()
        .filter(|p| p.rect.min_x <= x && x < p.rect.max_x && p.rect.min_y <= y && y < p.rect.max_y)
        .count()
}

#[test]
fn split_left_at_one_fifth_gives_200_and_800() {
    let mut tree = DockTree::new(vec![Tab::new("Viewer")]).unwrap();
    let [old, new] =
        tree.split_left(NodeIndex::root(), fraction(1, 5), vec![Tab::new("Hirachy")]).unwrap();
    assert_eq!(old, NodeIndex(2));
    assert_eq!(new, NodeIndex(1));
    let panes = tree.layout(Rect::new(0, 0, 1000, 800));
    assert_eq!(panes.len(), 2);
    assert_eq!(panes[0].node, NodeIndex(1));
    assert_eq!(panes[0].rect, Rect { min_x: 0, min_y: 0, max_x: 200, max_y: 800 });
    assert_eq!(panes[0].rect.width(), 200);
    assert_eq!(panes[0].rect.height(), 800);
    assert_eq!(panes[0].tab.name, "Hirachy");
    assert_eq!(panes[1].node, NodeIndex(2));
    assert_eq!(panes[1].rect, Rect { min_x: 200, min_y: 0, max_x: 1000, max_y: 800 });
    assert_eq!(panes[1].rect.width(), 800);
    assert_eq!(panes[1].rect.height(), 800);
    assert_eq!(panes[1].tab.name, "Viewer");
}

#[test]
fn fraction_must_lie_strictly_between_zero_and_one() {
    assert_eq!(Fraction::new(0, 5), Err(ConfigError::FractionOutOfRange));
    assert_eq!(Fraction::new(5, 5), Err(ConfigError::FractionOutOfRange));
    assert_eq!(Fraction::new(6, 5), Err(ConfigError::FractionOutOfRange));
    assert_eq!(Fraction::new(1, 0), Err(ConfigError::FractionOutOfRange));
    assert_eq!(Fraction::new(1, 5), Ok(Fraction { numer: 1, denom: 5 }));
    assert!(Fraction { numer: 4, denom: 5 }.is_valid());
    assert!(!Fraction { numer: 0, denom: 0 }.is_valid());
}

#[test]
fn rect_new_orders_its_corners() {
    let r = Rect::new(1000, 800, 0, 0);
    assert_eq!(r, Rect { min_x: 0, min_y: 0, max_x: 1000, max_y: 800 });
    assert_eq!(r.width(), 1000);
    assert_eq!(r.height(), 800);
    let whole = Rect::new(i32::MIN, i32::MIN, i32::MAX, i32::MAX);
    assert_eq!(whole.width(), u32::MAX);
    assert_eq!(whole.height(), u32::MAX);
    let reversed = Rect { min_x: 10, min_y: 0, max_x: 0, max_y: 5 };
    assert_eq!(reversed.width(), 0);
}

#[test]
fn rect_split_cuts_along_the_axis() {
    let r = Rect::new(0, 0, 1000, 800);
    let (left, right) = r.split(Orientation::Horizontal, fraction(1, 5)).unwrap();
    assert_eq!(left, Rect { min_x: 0, min_y: 0, max_x: 200, max_y: 800 });
    assert_eq!(right, Rect { min_x: 200, min_y: 0, max_x: 1000, max_y: 800 });
    let (upper, lower) = r.split(Orientation::Vertical, fraction(7, 10)).unwrap();
    assert_eq!(upper, Rect { min_x: 0, min_y: 0, max_x: 1000, max_y: 560 });
    assert_eq!(lower, Rect { min_x: 0, min_y: 560, max_x: 1000, max_y: 800 });
    assert_eq!(
        r.split(Orientation::Horizontal, Fraction { numer: 3, denom: 2 }),
        Err(ConfigError::FractionOutOfRange)
    );
}

#[test]
fn rect_split_rounds_the_share_down_and_loses_no_pixel() {
    let r = Rect::new(-7, 3, 4, 10);
    let (left, right) = r.split(Orientation::Horizontal, fraction(1, 3)).unwrap();
    assert_eq!(left.width(), 3);
    assert_eq!(right.width(), 8);
    assert_eq!(left.max_x, -4);
    assert_eq!(right.min_x, -4);
    assert_eq!(area(&left) + area(&right), area(&r));
    let huge = Rect::new(i32::MIN, 0, i32::MAX, 1);
    let (a, b) = huge.split(Orientation::Horizontal, fraction(u32::MAX - 1, u32::MAX)).unwrap();
    assert_eq!(a.width() as u64 + b.width() as u64, u32::MAX as u64);
    assert_eq!(a.width(), u32::MAX - 1);
}

#[test]
fn split_partitions_whatever_the_proportions() {
    let rects = [
        Rect::new(0, 0, 1000, 800),
        Rect::new(0, 0, 10, 1000),
        Rect::new(-50, -50, 50, -49),
        Rect::new(3, 3, 3, 9),
    ];
    let fractions = [fraction(1, 5), fraction(1, 2), fraction(13, 20), fraction(999, 1000)];
    for r in rects.iter() {
        for f in fractions.iter() {
            let mut tree = DockTree::new(vec![Tab::new("a")]).unwrap();
            tree.split(NodeIndex::root(), Side::Left, *f, vec![Tab::new("b")]).unwrap();
            let panes = tree.layout(*r);
            assert_eq!(panes.len(), 2);
            let (a, b) = (&panes[0].rect, &panes[1].rect);
            assert_eq!(a.max_x, b.min_x);
            assert_eq!((a.min_x, b.max_x), (r.min_x, r.max_x));
            assert_eq!((a.min_y, a.max_y, b.min_y, b.max_y), (r.min_y, r.max_y, r.min_y, r.max_y));
            assert_eq!(area(a) + area(b), area(r));
            let exact = area(r) * f.numer as u64;
            let got = area(a) * f.denom as u64;
            assert!(got <= exact);
            assert!(exact - got <= r.height() as u64 * (f.denom as u64 - 1));
        }
    }
}

#[test]
fn layout_is_the_same_every_time() {
    let mut tree = DockTree::new(vec![Tab::new("a")]).unwrap();
    tree.split(NodeIndex::root(), Side::Below, fraction(2, 7), vec![Tab::new("b")]).unwrap();
    let rect = Rect::new(5, 5, 333, 777);
    assert_eq!(tree.layout(rect), tree.layout(rect));
}

#[test]
fn split_returns_the_upper_left_child_first() {
    for (side, new_first, orientation) in [
        (Side::Left, true, Orientation::Horizontal),
        (Side::Right, false, Orientation::Horizontal),
        (Side::Above, true, Orientation::Vertical),
        (Side::Below, false, Orientation::Vertical),
    ] {
        let mut tree = DockTree::new(vec![Tab::new("old")]).unwrap();
        let ids = tree.split(NodeIndex::root(), side, fraction(1, 4), vec![Tab::new("new")]).unwrap();
        assert_eq!(ids, (NodeIndex(1), NodeIndex(2)));
        assert_eq!(side.is_new_first(), new_first);
        assert_eq!(side.axis(), orientation);
        match tree.root() {
            DockNode::Split { orientation: o, fraction: f, first, second } => {
                assert_eq!(*o, orientation);
                assert_eq!(*f, Fraction { numer: 1, denom: 4 });
                let (new, old) = if new_first { (first, second) } else { (second, first) };
                assert_eq!(**new, DockNode::Leaf { tabs: vec![Tab::new("new")], active: 0 });
                assert_eq!(**old, DockNode::Leaf { tabs: vec![Tab::new("old")], active: 0 });
            }
            DockNode::Leaf { .. } => panic!("the root was split"),
        }
    }
}

#[test]
fn split_of_an_inner_node_moves_the_whole_subtree() {
    let mut tree = DockTree::new(vec![Tab::new("a")]).unwrap();
    tree.split(NodeIndex::root(), Side::Right, fraction(1, 2), vec![Tab::new("b")]).unwrap();
    tree.split(NodeIndex::root(), Side::Below, fraction(3, 4), vec![Tab::new("c")]).unwrap();
    let panes = tree.layout(Rect::new(0, 0, 100, 100));
    let seen: Vec<(u64, &str, Rect)> =
        panes.iter().map(|p| (p.node.0, p.tab.name.as_str(), p.rect)).collect();
    assert_eq!(
        seen,
        vec![
            (3, "a", Rect { min_x: 0, min_y: 0, max_x: 50, max_y: 75 }),
            (4, "b", Rect { min_x: 50, min_y: 0, max_x: 100, max_y: 75 }),
            (2, "c", Rect { min_x: 0, min_y: 75, max_x: 100, max_y: 100 }),
        ]
    );
}

#[test]
fn split_refuses_bad_requests_and_leaves_the_tree_alone() {
    let mut tree = DockTree::new(vec![Tab::new("a")]).unwrap();
    let before = tree.layout(Rect::new(0, 0, 10, 10));
    assert_eq!(
        tree.split(NodeIndex::root(), Side::Left, Fraction { numer: 0, denom: 1 }, vec![Tab::new("b")]),
        Err(ConfigError::FractionOutOfRange)
    );
    assert_eq!(
        tree.split(NodeIndex::root(), Side::Left, Fraction { numer: 2, denom: 1 }, vec![]),
        Err(ConfigError::FractionOutOfRange)
    );
    assert_eq!(
        tree.split(NodeIndex::root(), Side::Left, fraction(1, 2), vec![]),
        Err(ConfigError::EmptyTabs)
    );
    assert_eq!(
        tree.split(NodeIndex(1), Side::Left, fraction(1, 2), vec![Tab::new("b")]),
        Err(ConfigError::UnknownNode)
    );
    assert_eq!(
        tree.split_left(NodeIndex(7), fraction(1, 2), vec![Tab::new("b")]),
        Err(ConfigError::UnknownNode)
    );
    assert_eq!(
        tree.split_below(NodeIndex(7), Fraction { numer: 1, denom: 1 }, vec![Tab::new("b")]),
        Err(ConfigError::FractionOutOfRange)
    );
    assert_eq!(tree.layout(Rect::new(0, 0, 10, 10)), before);
    assert_eq!(DockTree::new(vec![]), Err(ConfigError::EmptyTabs));
}

#[test]
fn split_stops_where_indices_run_out() {
    let mut tree = DockTree::new(vec![Tab::new("0")]).unwrap();
    let mut node = NodeIndex::root();
    let mut depth = 0;
    loop {
        match tree.split(node, Side::Left, fraction(1, 2), vec![Tab::new("x")]) {
            Ok((_, second)) => {
                node = second;
                depth += 1;
            }
            Err(e) => {
                assert_eq!(e, ConfigError::TooDeep);
                break;
            }
        }
        assert!(depth <= 64);
    }
    assert_eq!(depth, 63);
    assert_eq!(node, NodeIndex(u64::MAX - 1));
    assert!(tree.is_well_formed());
    assert_eq!(tree.layout(Rect::new(0, 0, 64, 64)).len(), 64);
    assert_eq!(
        tree.split(NodeIndex::root(), Side::Left, fraction(1, 2), vec![Tab::new("x")]),
        Err(ConfigError::TooDeep)
    );
}

#[test]
fn split_below_keeps_the_fraction_for_the_old_node() {
    let mut tree = DockTree::new(vec![Tab::new("old")]).unwrap();
    let [old, new] =
        tree.split_below(NodeIndex::root(), fraction(7, 10), vec![Tab::new("new")]).unwrap();
    assert_eq!((old, new), (NodeIndex(1), NodeIndex(2)));
    let panes = tree.layout(Rect::new(0, 0, 100, 100));
    assert_eq!(panes[0].tab.name, "old");
    assert_eq!(panes[0].rect.height(), 70);
    assert_eq!(panes[1].tab.name, "new");
    assert_eq!(panes[1].rect.height(), 30);
}

#[test]
fn resize_moves_one_divider() {
    let mut tree = DockTree::new(vec![Tab::new("a")]).unwrap();
    tree.split(NodeIndex::root(), Side::Right, fraction(1, 2), vec![Tab::new("b")]).unwrap();
    assert_eq!(tree.resize(NodeIndex::root(), fraction(1, 4)), Ok(()));
    let panes = tree.layout(Rect::new(0, 0, 100, 10));
    assert_eq!(panes[0].rect.width(), 25);
    assert_eq!(panes[1].rect.width(), 75);
    assert_eq!(tree.resize(NodeIndex(1), fraction(1, 4)), Err(ConfigError::NotASplit));
    assert_eq!(tree.resize(NodeIndex(3), fraction(1, 4)), Err(ConfigError::UnknownNode));
    assert_eq!(
        tree.resize(NodeIndex::root(), Fraction { numer: 4, denom: 4 }),
        Err(ConfigError::FractionOutOfRange)
    );
    assert_eq!(tree.layout(Rect::new(0, 0, 100, 10))[0].rect.width(), 25);
}

#[test]
fn select_changes_the_tab_that_the_layout_shows() {
    let mut tree = DockTree::new(vec![Tab::new("Viewer"), Tab::new("tab2")]).unwrap();
    assert_eq!(tree.layout(Rect::new(0, 0, 10, 10))[0].tab, Tab::new("Viewer"));
    assert_eq!(tree.select(NodeIndex::root(), 1), Ok(()));
    assert_eq!(tree.layout(Rect::new(0, 0, 10, 10))[0].tab, Tab::new("tab2"));
    assert_eq!(tree.select(NodeIndex::root(), 2), Err(ConfigError::UnknownTab));
    assert_eq!(tree.select(NodeIndex(1), 0), Err(ConfigError::UnknownNode));
    tree.split(NodeIndex::root(), Side::Left, fraction(1, 2), vec![Tab::new("x")]).unwrap();
    assert_eq!(tree.select(NodeIndex::root(), 0), Err(ConfigError::UnknownTab));
    assert_eq!(tree.select(NodeIndex(2), 0), Ok(()));
    assert_eq!(tree.layout(Rect::new(0, 0, 10, 10))[1].tab.name, "Viewer");
}

#[test]
fn get_finds_nodes_by_index() {
    let mut tree = DockTree::new(vec![Tab::new("a")]).unwrap();
    tree.split(NodeIndex::root(), Side::Left, fraction(1, 2), vec![Tab::new("b")]).unwrap();
    assert!(matches!(tree.get(NodeIndex(0)), Some(DockNode::Split { .. })));
    assert_eq!(tree.get(NodeIndex(1)), Some(&DockNode::Leaf { tabs: vec![Tab::new("b")], active: 0 }));
    assert_eq!(tree.get(NodeIndex(2)), Some(&DockNode::Leaf { tabs: vec![Tab::new("a")], active: 0 }));
    assert_eq!(tree.get(NodeIndex(3)), None);
    assert_eq!(tree.get(NodeIndex(u64::MAX)), None);
}

#[test]
fn node_index_numbers_children_as_a_heap() {
    assert_eq!(NodeIndex::root(), NodeIndex(0));
    assert_eq!(NodeIndex::root().left(), NodeIndex(1));
    assert_eq!(NodeIndex::root().right(), NodeIndex(2));
    assert_eq!(NodeIndex(2).left(), NodeIndex(5));
    assert_eq!(NodeIndex(2).right(), NodeIndex(6));
    assert_eq!(NodeIndex(0).path(), Vec::<bool>::new());
    assert_eq!(NodeIndex(1).path(), vec![false]);
    assert_eq!(NodeIndex(2).path(), vec![true]);
    assert_eq!(NodeIndex(5).path(), vec![true, false]);
    assert_eq!(NodeIndex(12).path(), vec![true, false, true]);
    assert_eq!(NodeIndex(u64::MAX).path().len(), 64);
}

#[test]
fn layout_tiles_the_window() {
    let mut tree = DockTree::new(vec![Tab::new("a")]).unwrap();
    let (l, r) = tree.split(NodeIndex::root(), Side::Left, fraction(1, 3), vec![Tab::new("b")]).unwrap();
    tree.split(l, Side::Below, fraction(2, 5), vec![Tab::new("c")]).unwrap();
    let (_, rr) = tree.split(r, Side::Right, fraction(5, 9), vec![Tab::new("d")]).unwrap();
    tree.split(rr, Side::Above, fraction(1, 7), vec![Tab::new("e")]).unwrap();
    let window = Rect::new(-3, -2, 38, 29);
    let panes = tree.layout(window);
    assert_eq!(panes.len(), 5);
    assert_eq!(panes.iter().map(|p| area(&p.rect)).sum::<u64>(), area(&window));
    for x in -5..40 {
        for y in -4..31 {
            let inside = -3 <= x && x < 38 && -2 <= y && y < 29;
            assert_eq!(covering(&panes, x, y), if inside { 1 } else { 0 });
        }
    }
    assert!(panes.iter().all(|p| p.tab.kind == ContentKind::Placeholder));
}

#[test]
fn retitle_changes_the_name_and_keeps_the_content() {
    let mut tree = DockTree::new(vec![Tab::new("Viewer"), Tab::new("tab2")]).unwrap();
    assert_eq!(tree.retitle(NodeIndex::root(), 0, "Scene"), Ok(()));
    let shown = &tree.layout(Rect::new(0, 0, 10, 10))[0].tab;
    assert_eq!(shown.name, "Scene");
    assert_eq!(shown.kind, ContentKind::Viewport);
    assert_eq!(
        tree.root(),
        &DockNode::Leaf {
            tabs: vec![Tab::with_kind("Scene", ContentKind::Viewport), Tab::new("tab2")],
            active: 0
        }
    );
    assert_eq!(tree.retitle(NodeIndex::root(), 2, "x"), Err(ConfigError::UnknownTab));
    assert_eq!(tree.retitle(NodeIndex(1), 0, "x"), Err(ConfigError::UnknownNode));
    tree.split(NodeIndex::root(), Side::Above, fraction(1, 2), vec![Tab::new("top")]).unwrap();
    assert_eq!(tree.retitle(NodeIndex::root(), 0, "x"), Err(ConfigError::UnknownTab));
    assert_eq!(tree.retitle(NodeIndex(1), 0, "Log"), Ok(()));
    let panes = tree.layout(Rect::new(0, 0, 10, 10));
    assert_eq!(panes[0].tab, Tab::with_kind("Log", ContentKind::Placeholder));
}
