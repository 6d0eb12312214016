use rusty_raytracing::bvh::{BvhChild, BvhLayout, BvhSpan, SceneError};

fn leaf_positions(layout: &BvhLayout) -> Vec<usize> {
    let mut seen = Vec::new();
    for node in &layout.nodes {
        for child in [node.left, node.right] {
            if let BvhChild::Leaf(p) = child {
                assert!(node.start <= p && p < node.end);
                if !seen.contains(&p) {
                    seen.push(p);
                }
            }
        }
    }
    seen.sort();
    seen
}

#[test]
fn empty_scene_is_rejected() {
    assert_eq!(BvhLayout::new(0).err(), Some(SceneError::EmptyScene));
}

#[test]
fn single_primitive_on_both_sides() {
    let layout = BvhLayout::new(1).unwrap();
    assert_eq!(layout.count, 1);
    assert_eq!(
        layout.nodes,
        vec![BvhSpan { start: 0, end: 1, left: BvhChild::Leaf(0), right: BvhChild::Leaf(0) }]
    );
}

#[test]
fn two_primitives_as_direct_leaves() {
    let layout = BvhLayout::new(2).unwrap();
    assert_eq!(
        layout.nodes,
        vec![BvhSpan { start: 0, end: 2, left: BvhChild::Leaf(0), right: BvhChild::Leaf(1) }]
    );
}

#[test]
fn three_primitives_split_at_midpoint() {
    let layout = BvhLayout::new(3).unwrap();
    assert_eq!(
        layout.nodes,
        vec![
            BvhSpan { start: 0, end: 3, left: BvhChild::Node(1), right: BvhChild::Node(2) },
            BvhSpan { start: 0, end: 1, left: BvhChild::Leaf(0), right: BvhChild::Leaf(0) },
            BvhSpan { start: 1, end: 3, left: BvhChild::Leaf(1), right: BvhChild::Leaf(2) },
        ]
    );
}

#[test]
fn six_primitives_preorder_layout() {
    let layout = BvhLayout::new(6).unwrap();
    assert_eq!(layout.nodes.len(), 7);
    assert_eq!(layout.nodes[0].left, BvhChild::Node(1));
    assert_eq!(layout.nodes[0].right, BvhChild::Node(4));
    assert_eq!((layout.nodes[1].start, layout.nodes[1].end), (0, 3));
    assert_eq!((layout.nodes[4].start, layout.nodes[4].end), (3, 6));
    assert_eq!(layout.nodes[5].left, BvhChild::Leaf(3));
    assert_eq!(layout.nodes[6].right, BvhChild::Leaf(5));
}

#[test]
fn every_primitive_is_a_leaf() {
    for count in [1usize, 2, 3, 4, 5, 7, 16, 100, 487] {
        let layout = BvhLayout::new(count).unwrap();
        assert_eq!(leaf_positions(&layout), (0..count).collect::<Vec<_>>());
        for (k, node) in layout.nodes.iter().enumerate() {
            for child in [node.left, node.right] {
                if let BvhChild::Node(c) = child {
                    assert!(c > k && c < layout.nodes.len());
                }
            }
        }
    }
}
