//! A point with its canonical identifier.

use vstd::prelude::*;
use vstd::std_specs::convert::FromSpecImpl;
use vstd::bytes::{spec_u32_to_le_bytes, u32_to_le_bytes};
use crate::hasher::{CipherBlock, blake2b_256, hash_visit};

verus! {

/// The identifier of the point `(l, r)`: the digest of two digests, one of
/// the coordinates as given and one of the coordinates in ascending order.
pub open spec fn node_id(l: u32, r: u32) -> Seq<u8> {
    let given = blake2b_256(spec_u32_to_le_bytes(l) + spec_u32_to_le_bytes(r));
    let ascending = if l <= r {
        blake2b_256(spec_u32_to_le_bytes(l) + spec_u32_to_le_bytes(r))
    } else {
        blake2b_256(spec_u32_to_le_bytes(r) + spec_u32_to_le_bytes(l))
    };
    blake2b_256(given + ascending)
}

/// `a` comes before `b`, or equals it, in the order of dictionaries.
pub open spec fn bytes_le(a: Seq<u8>, b: Seq<u8>) -> bool {
    a == b || exists|i: int| #[trigger] differ_first_at(a, b, i) && a[i] < b[i]
}

/// `i` is the first place at which `a` and `b` differ.
pub open spec fn differ_first_at(a: Seq<u8>, b: Seq<u8>, i: int) -> bool {
    &&& 0 <= i < a.len()
    &&& i < b.len()
    &&& a[i] != b[i]
    &&& forall|k: int| 0 <= k < i ==> a[k] == b[k]
}

/// The first difference of two sequences decides their order.
pub proof fn lemma_first_difference_decides(a: Seq<u8>, b: Seq<u8>, i: int)
    requires
        differ_first_at(a, b, i),
    ensures
        a != b,
        bytes_le(a, b) == (a[i] < b[i]),
{
    assert forall|j: int| #[trigger] differ_first_at(a, b, j) implies j == i by {
        if j < i {
            assert(a[j] == b[j]);
        } else if i < j {
            assert(a[i] == b[i]);
        }
    }
}

/// The first place at which two identifiers differ, if they differ.
pub fn first_difference(a: &CipherBlock, b: &CipherBlock) -> (place: Option<usize>)
    ensures
        place is None ==> a@ == b@,
        place matches Some(i) ==> i < 32 && a@ != b@ && differ_first_at(a@, b@, i as int)
            && bytes_le(a@, b@) == (a@[i as int] < b@[i as int]),
{
    let mut i: usize = 0;
    while i < 32
        invariant
            i <= 32,
            forall|k: int| 0 <= k < i ==> a@[k] == b@[k],
        decreases 32 - i,
    {
        if a[i] != b[i] {
            proof {
                lemma_first_difference_decides(a@, b@, i as int);
            }
            return Some(i);
        }
        i += 1;
    }
    assert(a@ =~= b@);
    None
}

/// The order of nodes: by identifier, then by the first coordinate, then by
/// the second.
pub open spec fn node_le(a: Node, b: Node) -> bool {
    if a.id_spec() != b.id_spec() {
        bytes_le(a.id_spec(), b.id_spec())
    } else if a.pair_spec().0 != b.pair_spec().0 {
        a.pair_spec().0 < b.pair_spec().0
    } else {
        a.pair_spec().1 <= b.pair_spec().1
    }
}

/// The identifier of the pair of nodes `a` and `b`: the digest of their
/// identifiers, the lesser node first.
pub open spec fn pair_id(a: Node, b: Node) -> Seq<u8> {
    if node_le(a, b) {
        blake2b_256(a.id_spec() + b.id_spec())
    } else {
        blake2b_256(b.id_spec() + a.id_spec())
    }
}

/// Two sequences of one length that are not equal differ first somewhere at
/// or after `from`, if they agree before it.
proof fn lemma_first_difference_exists(a: Seq<u8>, b: Seq<u8>, from: int)
    requires
        a.len() == b.len(),
        a != b,
        0 <= from <= a.len(),
        forall|k: int| 0 <= k < from ==> a[k] == b[k],
    ensures
        exists|i: int| #[trigger] differ_first_at(a, b, i),
    decreases a.len() - from,
{
    if from == a.len() {
        assert(a =~= b);
    } else if a[from] != b[from] {
        assert(differ_first_at(a, b, from));
    } else {
        lemma_first_difference_exists(a, b, from + 1);
    }
}

/// Of two nodes one comes before the other, and two nodes that come before
/// each other have the same identifier.
pub proof fn lemma_node_order_is_total(a: Node, b: Node)
    ensures
        node_le(a, b) || node_le(b, a),
        node_le(a, b) && node_le(b, a) ==> a.id_spec() == b.id_spec(),
{
    let x = a.id_spec();
    let y = b.id_spec();
    if x != y {
        lemma_first_difference_exists(x, y, 0);
        let i = choose|i: int| #[trigger] differ_first_at(x, y, i);
        lemma_first_difference_decides(x, y, i);
        assert(differ_first_at(y, x, i));
        lemma_first_difference_decides(y, x, i);
    }
}

/// The identifier of a pair does not depend on the order of its two nodes.
pub proof fn lemma_pair_id_symmetric(a: Node, b: Node)
    ensures
        pair_id(a, b) == pair_id(b, a),
{
    lemma_node_order_is_total(a, b);
}

/// A point of the lattice under its canonical identifier.
///
/// Nodes are ordered by identifier first and by their coordinates, as
/// given, after it.
#[derive(Clone, Hash, PartialEq, Eq, Debug, Ord, PartialOrd)]
pub struct Node {
    id: CipherBlock,
    l: u32,
    r: u32,
}

impl Node {
    /// The bytes of the identifier.
    pub closed spec fn id_spec(self) -> Seq<u8> {
        self.id@
    }

    /// The coordinates, as given.
    pub closed spec fn pair_spec(self) -> (u32, u32) {
        (self.l, self.r)
    }

    pub fn get_id_ref(&self) -> (id: &CipherBlock)
        ensures
            id@ == self.id_spec(),
    {
        &self.id
    }

    pub fn get_pair(&self) -> (pair: (u32, u32))
        ensures
            pair == self.pair_spec(),
    {
        (self.l, self.r)
    }

    /// Whether this node comes before `other`, or equals it.
    pub fn precedes(&self, other: &Node) -> (holds: bool)
        ensures
            holds == node_le(*self, *other),
    {
        match first_difference(&self.id, &other.id) {
            Some(i) => self.id[i] < other.id[i],
            None => {
                if self.l != other.l {
                    self.l < other.l
                } else {
                    self.r <= other.r
                }
            },
        }
    }

    /// The identifier of the pair that this node forms with `other`; it is
    /// the same whichever of the two is asked.
    pub fn pair_node_id(&self, other: &Self) -> (id: CipherBlock)
        ensures
            id@ == pair_id(*self, *other),
    {
        let mut output: CipherBlock = [0u8; 32];
        if self.precedes(other) {
            hash_visit(self.id.as_slice(), other.id.as_slice(), &mut output);
        } else {
            hash_visit(other.id.as_slice(), self.id.as_slice(), &mut output);
        }
        output
    }
}

/// What the node of a point is stands in the contract of `from` itself,
/// over the identifier and the pair of the node.
impl FromSpecImpl<(u32, u32)> for Node {
    open spec fn obeys_from_spec() -> bool {
        false
    }

    open spec fn from_spec(value: (u32, u32)) -> Node {
        arbitrary()
    }
}

impl From<(u32, u32)> for Node {
    /// The node of the point `value`.
    fn from(value: (u32, u32)) -> (node: Node)
        ensures
            node.id_spec() == node_id(value.0, value.1),
            node.pair_spec() == value,
    {
        let first = u32_to_le_bytes(value.0);
        let second = u32_to_le_bytes(value.1);
        let mut given: CipherBlock = [0u8; 32];
        hash_visit(first.as_slice(), second.as_slice(), &mut given);
        let mut ascending: CipherBlock = given;
        if value.0 > value.1 {
            hash_visit(second.as_slice(), first.as_slice(), &mut ascending);
        }
        let mut id: CipherBlock = [0u8; 32];
        hash_visit(given.as_slice(), ascending.as_slice(), &mut id);
        Node { id, l: value.0, r: value.1 }
    }
}

} // verus!
