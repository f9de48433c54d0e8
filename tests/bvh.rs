use ray_tracer::bvh::{bvh_layout, BvhChild, BvhSpan};

fn leaves(nodes: &[BvhSpan], k: usize, out: &mut Vec<usize>) {
    for c in [nodes[k].left, nodes[k].right] {
        match c {
            BvhChild::Leaf(i) => out.push(i),
            BvhChild::Node(m) => {
                assert!(m < k);
                leaves(nodes, m, out);
            }
        }
    }
}

#[test]
fn single_primitive_is_referenced_twice() {
    let nodes = bvh_layout(1);
    assert_eq!(nodes.len(), 1);
    let root = nodes[0];
    assert_eq!((root.start, root.end), (0, 1));
    assert!(root.left == BvhChild::Leaf(0) && root.right == BvhChild::Leaf(0));
}

#[test]
fn two_primitives_are_the_two_leaves() {
    let nodes = bvh_layout(2);
    assert_eq!(nodes.len(), 1);
    assert!(nodes[0].left == BvhChild::Leaf(0) && nodes[0].right == BvhChild::Leaf(1));
}

#[test]
fn longer_spans_split_at_the_midpoint() {
    let nodes = bvh_layout(5);
    let root = *nodes.last().unwrap();
    assert_eq!((root.start, root.end), (0, 5));
    match (root.left, root.right) {
        (BvhChild::Node(a), BvhChild::Node(b)) => {
            assert_eq!((nodes[a].start, nodes[a].end), (0, 2));
            assert_eq!((nodes[b].start, nodes[b].end), (2, 5));
        }
        _ => panic!("a span of five is cut into two inner nodes"),
    }
    assert_eq!(nodes.len(), 5);
}

#[test]
fn every_primitive_is_reached_from_the_root() {
    for n in 1..200usize {
        let nodes = bvh_layout(n);
        assert!(nodes.len() <= 2 * n);
        let mut found = Vec::new();
        leaves(&nodes, nodes.len() - 1, &mut found);
        found.sort();
        found.dedup();
        assert_eq!(found, (0..n).collect::<Vec<_>>());
    }
}

#[test]
fn every_node_but_the_root_has_one_later_parent() {
    for n in 1..120usize {
        let nodes = bvh_layout(n);
        let mut parents = vec![Vec::new(); nodes.len()];
        for (k, nd) in nodes.iter().enumerate() {
            for c in [nd.left, nd.right] {
                if let BvhChild::Node(m) = c {
                    parents[m].push(k);
                }
            }
        }
        let root = nodes.len() - 1;
        assert!(parents[root].is_empty());
        for m in 0..root {
            assert_eq!(parents[m].len(), 1);
            assert!(parents[m][0] > m);
        }
    }
}
