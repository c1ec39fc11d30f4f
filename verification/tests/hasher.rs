use matrix_graph::hasher::{data_hash, hash_visit, ExchangeMap, ExchangeSet, Node, NodePair};
use matrix_graph::traits::LatticeElement;
use matrix_graph::{MatrixImage, MatrixImageBuilder, Neighborhood};
use rayon::iter::{IntoParallelRefIterator, ParallelIterator};

type Atom = LatticeElement<u32>;

#[test]
fn digest_cmp() {
    let mut hash_a = [0u8; 32];
    let mut hash_b = [0u8; 32];
    data_hash(b"message", &mut hash_a);
    data_hash(b"quote", &mut hash_b);
    assert!(((hash_a < hash_b) ^ (hash_a > hash_b)) ^ (hash_a == hash_b));
}

#[test]
fn all_hashes_for_all_positions_are_different() {
    let even_size: usize = 1_001;
    let size = (even_size, even_size);
    let matrix: MatrixImage<Atom> = MatrixImageBuilder::init()
        .with_initial_value(LatticeElement(35))
        .with_height_and_width(size.0, size.1)
        .build();
    let half: u32 = (even_size / 2).try_into().unwrap();
    let center = (half, half);
    let all_district = matrix.get_lattice_neighborhood(center, half as usize, Neighborhood::Moore);

    let nodes: Vec<Node> = all_district.par_iter().map(|point| Node::from(*point)).collect();

    let mut set = ExchangeSet::new();

    for (point, node) in all_district.into_iter().zip(nodes) {
        assert!(set.insert(node), "{:?}", Node::from(point));
    }
}

#[test]
fn create_and_append_exchange_map() {
    let mut new_map = ExchangeMap::<u32, u8>::new();
    new_map.insert(3, 2);
    new_map.insert(4, 3);
    new_map.insert(5, 4);
    assert_eq!(new_map.insert(3, 1), Some(2));
    assert_eq!(new_map.contains_key(&3), true);
    assert_eq!(new_map.contains_key(&4), true);
    assert_eq!(new_map.contains_key(&5), true);
    assert_eq!(new_map.contains_key(&6), false);
    assert_eq!(new_map.get(&3), Some(&1));
    new_map.clear();
    assert_eq!(new_map.get(&3), None);
}

#[test]
fn blake2b_256_of_the_empty_input() {
    let mut digest = [0u8; 32];
    data_hash(b"", &mut digest);
    let expected: [u8; 32] = [
        0x0e, 0x57, 0x51, 0xc0, 0x26, 0xe5, 0x43, 0xb2, 0xe8, 0xab, 0x2e, 0xb0, 0x60, 0x99, 0xda,
        0xa1, 0xd1, 0xe5, 0xdf, 0x47, 0x77, 0x8f, 0x77, 0x87, 0xfa, 0xab, 0x45, 0xcd, 0xf1, 0x2f,
        0xe3, 0xa8,
    ];
    assert_eq!(digest, expected);
}

#[test]
fn hash_visit_digests_the_two_parts_joined() {
    let mut joined = [0u8; 32];
    let mut whole = [0u8; 32];
    hash_visit(b"mess", b"age", &mut joined);
    data_hash(b"message", &mut whole);
    assert_eq!(joined, whole);
    let mut swapped = [0u8; 32];
    hash_visit(b"age", b"mess", &mut swapped);
    assert_ne!(joined, swapped);
}

#[test]
fn node_keeps_its_pair_and_orders_its_identifier() {
    let a = Node::from((3, 9));
    let b = Node::from((9, 3));
    assert_eq!(a.get_pair(), (3, 9));
    assert_eq!(b.get_pair(), (9, 3));
    assert_ne!(a.get_id_ref(), b.get_id_ref());
    let mut given = [0u8; 32];
    hash_visit(&3u32.to_le_bytes(), &9u32.to_le_bytes(), &mut given);
    let mut id = [0u8; 32];
    hash_visit(&given, &given, &mut id);
    assert_eq!(a.get_id_ref(), &id);
}

#[test]
fn precedes_orders_as_the_derived_order_does() {
    let points = [(0u32, 0u32), (1, 0), (0, 1), (7, 7), (1000, 3), (3, 1000)];
    for p in points {
        for q in points {
            let a = Node::from(p);
            let b = Node::from(q);
            assert_eq!(a.precedes(&b), a <= b);
        }
    }
}

#[test]
fn pair_identifier_ignores_the_order_of_the_nodes() {
    let a = Node::from((1, 2));
    let b = Node::from((5, 4));
    assert_eq!(a.pair_node_id(&b), b.pair_node_id(&a));
    assert_eq!(
        NodePair::<u32, ()>::get_pair_id(a.clone(), b.clone()),
        a.pair_node_id(&b)
    );
    let (first, second) = NodePair::<u32, ()>::get_pair_order(a.clone(), b.clone());
    assert!(first <= second);
    let mut expected = [0u8; 32];
    hash_visit(first.get_id_ref(), second.get_id_ref(), &mut expected);
    assert_eq!(a.pair_node_id(&b), expected);
}

#[test]
fn node_pair_keeps_what_it_was_given() {
    let a = Node::from((1, 2));
    let b = Node::from((5, 4));
    let pair = NodePair::from(b.clone(), a.clone(), (17u32, "payload"));
    assert_eq!(pair.get_left_node_ref(), &b);
    assert_eq!(pair.get_right_node_ref(), &a);
    assert_eq!(*pair.get_objective_ref(), 17);
    assert_eq!(*pair.get_payload_ref(), "payload");
    assert_eq!(pair.get_id_ref(), &a.pair_node_id(&b));
    assert_eq!(pair.clone().get_id(), a.pair_node_id(&b));
    assert_eq!(pair.get_objective_payload(), (17, "payload"));
}

#[test]
fn exchange_set_holds_each_item_once() {
    let mut set = ExchangeSet::<u32>::new();
    assert!(set.is_empty());
    assert!(set.insert(4));
    assert!(set.insert(2));
    assert!(!set.insert(4));
    assert_eq!(set.len(), 2);
    assert!(set.contains(&2));
    assert!(!set.contains(&3));
    assert_eq!(set.get(&4), Some(&4));
    assert_eq!(set.get(&5), None);
    set.clear();
    assert!(set.is_empty());
    assert_eq!(set.len(), 0);
}

#[test]
fn exchange_map_counts_its_keys() {
    let mut map = ExchangeMap::<u32, u8>::new();
    assert!(map.is_empty());
    assert_eq!(map.insert(1, 10), None);
    assert_eq!(map.insert(1, 11), Some(10));
    assert_eq!(map.insert(2, 20), None);
    assert_eq!(map.len(), 2);
    assert!(!map.is_empty());
}

#[test]
fn node_pairs_are_compared_by_their_identifiers() {
    let a = Node::from((1, 2));
    let b = Node::from((5, 4));
    let c = Node::from((8, 8));
    let ab = NodePair::from(a.clone(), b.clone(), (1u32, 'x'));
    let ba = NodePair::from(b.clone(), a.clone(), (2u32, 'y'));
    let ac = NodePair::from(a.clone(), c.clone(), (1u32, 'x'));
    assert!(ab == ba);
    assert!(ab != ac);
    assert_eq!(ab.partial_cmp(&ba), Some(std::cmp::Ordering::Equal));
    assert_eq!(ab.partial_cmp(&ac), Some(ab.get_id_ref().cmp(ac.get_id_ref())));
    assert_eq!(ac < ab, ac.get_id_ref() < ab.get_id_ref());
}

#[test]
fn the_collections_hand_their_items_out_in_ascending_order() {
    let mut set = ExchangeSet::<u32>::new();
    for item in [5, 1, 4, 1, 3] {
        set.insert(item);
    }
    assert_eq!(set.iter().copied().collect::<Vec<u32>>(), vec![1, 3, 4, 5]);
    let mut map = ExchangeMap::<u32, u8>::new();
    map.insert(9, 1);
    map.insert(2, 7);
    assert_eq!(map.iter().map(|(k, v)| (*k, *v)).collect::<Vec<(u32, u8)>>(), vec![(2, 7), (9, 1)]);
}
