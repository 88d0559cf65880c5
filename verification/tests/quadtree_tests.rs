use terrain_destruction::quadtree::{QuadTree, QuadTreeItem, QuadTreeNode, Rect};

fn point(x: i64, y: i64) -> QuadTreeItem {
    QuadTreeItem { x, y, tx: 0, ty: 0 }
}

fn tagged(x: i64, y: i64, tx: usize, ty: usize) -> QuadTreeItem {
    QuadTreeItem { x, y, tx, ty }
}

#[test]
fn new_tree_is_empty() {
    let tree = QuadTree::new(Rect::new(0, 0, 100, 100), 4);
    assert!(tree.query(Rect::new(0, 0, 100, 100)).is_empty());
    assert!(tree.query(Rect::new(-1000, -1000, 5000, 5000)).is_empty());
}

#[test]
fn rect_new_keeps_its_arguments() {
    let r = Rect::new(-3, 7, 11, 13);
    assert_eq!(r, Rect { x: -3, y: 7, w: 11, h: 13 });
}

#[test]
fn node_insert_reports_whether_the_point_lies_inside() {
    let mut node = QuadTreeNode::new(Rect::new(0, 0, 100, 100), 4);
    assert!(node.insert(point(0, 0)));
    assert!(node.insert(point(100, 100)));
    assert!(node.insert(point(100, 0)));
    assert!(node.insert(point(50, 50)));
    assert!(!node.insert(point(101, 50)));
    assert!(!node.insert(point(50, -1)));
    let mut found = Vec::new();
    node.query(&Rect::new(0, 0, 100, 100), &mut found);
    assert_eq!(found, vec![point(0, 0), point(100, 100), point(100, 0), point(50, 50)]);
}

#[test]
fn node_query_appends_to_what_was_found_before() {
    let mut node = QuadTreeNode::new(Rect::new(0, 0, 10, 10), 1);
    assert!(node.insert(point(1, 1)));
    assert!(node.insert(point(9, 9)));
    let mut found = vec![point(-5, -5)];
    node.query(&Rect::new(0, 0, 10, 10), &mut found);
    assert_eq!(found, vec![point(-5, -5), point(1, 1), point(9, 9)]);
}

#[test]
fn point_outside_the_boundary_is_ignored() {
    let mut tree = QuadTree::new(Rect::new(0, 0, 100, 100), 4);
    tree.insert(point(150, 50));
    tree.insert(point(-1, 0));
    tree.insert(point(0, 101));
    assert!(tree.query(Rect::new(150, 50, 0, 0)).is_empty());
    assert!(tree.query(Rect::new(-1000, -1000, 3000, 3000)).is_empty());
}

#[test]
fn inserted_point_is_found_by_a_query_of_no_area() {
    let mut tree = QuadTree::new(Rect::new(0, 0, 100, 100), 2);
    let points = [
        tagged(0, 0, 0, 0),
        tagged(100, 100, 1, 0),
        tagged(50, 50, 2, 0),
        tagged(25, 75, 3, 0),
        tagged(75, 25, 4, 0),
        tagged(50, 0, 5, 0),
        tagged(0, 50, 6, 0),
        tagged(99, 1, 7, 0),
        tagged(49, 51, 8, 0),
        tagged(51, 49, 9, 0),
    ];
    for p in points.iter() {
        tree.insert(*p);
        assert_eq!(tree.query(Rect::new(p.x, p.y, 0, 0)), vec![*p]);
    }
    for p in points.iter() {
        assert_eq!(tree.query(Rect::new(p.x, p.y, 0, 0)), vec![*p]);
    }
    assert_eq!(tree.query(Rect::new(0, 0, 100, 100)).len(), points.len());
}

#[test]
fn full_node_splits_and_keeps_the_order_of_its_quadrants() {
    let mut tree = QuadTree::new(Rect::new(0, 0, 100, 100), 2);
    let own_a = tagged(10, 10, 1, 0);
    let own_b = tagged(20, 20, 2, 0);
    let south_west = tagged(10, 60, 3, 0);
    let north_east = tagged(60, 10, 4, 0);
    let south_east = tagged(60, 60, 5, 0);
    let north_west = tagged(40, 40, 6, 0);
    tree.insert(own_a);
    tree.insert(own_b);
    tree.insert(south_west);
    tree.insert(north_east);
    tree.insert(south_east);
    tree.insert(north_west);
    assert_eq!(
        tree.query(Rect::new(0, 0, 100, 100)),
        vec![own_a, own_b, north_east, north_west, south_east, south_west]
    );
}

#[test]
fn point_on_a_split_goes_to_the_first_quadrant_only() {
    let mut tree = QuadTree::new(Rect::new(0, 0, 100, 100), 1);
    let first = tagged(5, 5, 1, 1);
    let centre = tagged(50, 50, 2, 2);
    let west_marker = tagged(10, 10, 3, 3);
    let east_marker = tagged(90, 10, 4, 4);
    tree.insert(first);
    tree.insert(centre);
    tree.insert(west_marker);
    tree.insert(east_marker);
    assert_eq!(tree.query(Rect::new(50, 50, 0, 0)), vec![centre]);
    // The centre lies in all four quadrants; the north-east one is tried
    // first, so the centre comes before everything in the other three.
    assert_eq!(
        tree.query(Rect::new(0, 0, 100, 100)),
        vec![first, centre, east_marker, west_marker]
    );
}

#[test]
fn query_returns_only_points_of_the_range_edges_included() {
    let mut tree = QuadTree::new(Rect::new(0, 0, 100, 100), 3);
    for x in 0..=10 {
        for y in 0..=10 {
            tree.insert(tagged(x * 10, y * 10, x as usize, y as usize));
        }
    }
    let found = tree.query(Rect::new(20, 30, 20, 10));
    let mut places: Vec<(usize, usize)> = found.iter().map(|p| (p.tx, p.ty)).collect();
    places.sort();
    assert_eq!(places, vec![(2, 3), (2, 4), (3, 3), (3, 4), (4, 3), (4, 4)]);
    assert_eq!(tree.query(Rect::new(0, 0, 100, 100)).len(), 121);
    assert!(tree.query(Rect::new(1, 1, 8, 8)).is_empty());
    assert!(tree.query(Rect::new(101, 0, 50, 100)).is_empty());
}

#[test]
fn query_range_may_reach_beyond_the_boundary() {
    let mut tree = QuadTree::new(Rect::new(0, 0, 100, 100), 1);
    tree.insert(point(0, 0));
    tree.insert(point(100, 100));
    tree.insert(point(30, 70));
    // From the least coordinate up to -1: short of the tree.
    assert!(tree.query(Rect::new(i64::MIN, i64::MIN, i64::MAX, i64::MAX)).is_empty());
    let found = tree.query(Rect::new(-1, -1, i64::MAX, i64::MAX));
    assert_eq!(found.len(), 3);
    let found = tree.query(Rect::new(i64::MAX - 10, 0, 100, 100));
    assert!(found.is_empty());
    let found = tree.query(Rect::new(-50, 60, 100, i64::MAX));
    assert_eq!(found, vec![point(30, 70)]);
}

#[test]
fn odd_extents_leave_no_gap_between_quadrants() {
    let mut tree = QuadTree::new(Rect::new(0, 0, 5, 7), 1);
    let mut expected = 0;
    for x in 0..=5 {
        for y in 0..=7 {
            tree.insert(tagged(x, y, x as usize, y as usize));
            expected += 1;
            assert_eq!(tree.query(Rect::new(x, y, 0, 0)).len(), 1);
        }
    }
    assert_eq!(tree.query(Rect::new(0, 0, 5, 7)).len(), expected);
}

#[test]
fn equal_points_are_all_kept() {
    let mut tree = QuadTree::new(Rect::new(0, 0, 8, 8), 1);
    for i in 0..20 {
        tree.insert(tagged(3, 3, i, 0));
    }
    let found = tree.query(Rect::new(3, 3, 0, 0));
    assert_eq!(found.len(), 20);
    let mut tags: Vec<usize> = found.iter().map(|p| p.tx).collect();
    tags.sort();
    assert_eq!(tags, (0..20).collect::<Vec<usize>>());
}

#[test]
fn tree_of_a_single_point_takes_points() {
    let mut tree = QuadTree::new(Rect::new(4, 4, 0, 0), 2);
    tree.insert(tagged(4, 4, 1, 0));
    tree.insert(tagged(4, 4, 2, 0));
    tree.insert(tagged(4, 4, 3, 0));
    tree.insert(tagged(4, 5, 4, 0));
    assert_eq!(tree.query(Rect::new(0, 0, 10, 10)).len(), 3);
}

#[test]
fn negative_coordinates_are_handled() {
    let mut tree = QuadTree::new(Rect::new(-100, -100, 200, 200), 1);
    tree.insert(point(-100, -100));
    tree.insert(point(-1, -1));
    tree.insert(point(100, 100));
    tree.insert(point(-50, 50));
    assert_eq!(tree.query(Rect::new(-100, -100, 99, 99)), vec![point(-100, -100), point(-1, -1)]);
    assert_eq!(tree.query(Rect::new(-50, 50, 0, 0)), vec![point(-50, 50)]);
    assert_eq!(tree.query(Rect::new(-100, -100, 200, 200)).len(), 4);
}
