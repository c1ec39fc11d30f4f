//! A pair of nodes with what was measured between them.

use vstd::prelude::*;
use vstd::std_specs::cmp::{PartialEqSpecImpl, PartialOrdSpecImpl};
use core::cmp::Ordering;
use crate::hasher::CipherBlock;
use crate::hasher::node::{Node, bytes_le, first_difference, node_le, pair_id};

verus! {

/// Two nodes, the objective value of the pair, and a payload, under an
/// identifier that does not depend on the order of the two nodes.
#[derive(Clone, Hash, Debug)]
pub struct NodePair<T, InternalValues> where T: PartialOrd {
    id: CipherBlock,
    l: Node,
    r: Node,
    objective: T,
    payload: InternalValues,
}

impl<T, InternalValues> NodePair<T, InternalValues> where T: PartialOrd {
    /// The bytes of the identifier.
    pub closed spec fn id_spec(self) -> Seq<u8> {
        self.id@
    }

    /// The first node, as given.
    pub closed spec fn left_spec(self) -> Node {
        self.l
    }

    /// The second node, as given.
    pub closed spec fn right_spec(self) -> Node {
        self.r
    }

    /// The objective value.
    pub closed spec fn objective_spec(self) -> T {
        self.objective
    }

    /// The payload.
    pub closed spec fn payload_spec(self) -> InternalValues {
        self.payload
    }

    /// The pair of `left` and `right`, kept as given, under the identifier
    /// of the two in ascending order.
    pub fn from(left: Node, right: Node, objective: (T, InternalValues)) -> (pair: Self)
        ensures
            pair.id_spec() == pair_id(left, right),
            pair.left_spec() == left,
            pair.right_spec() == right,
            pair.objective_spec() == objective.0,
            pair.payload_spec() == objective.1,
    {
        let id = left.pair_node_id(&right);
        NodePair { id, l: left, r: right, objective: objective.0, payload: objective.1 }
    }

    /// The identifier of the pair of `left` and `right`.
    pub fn get_pair_id(left: Node, right: Node) -> (id: CipherBlock)
        ensures
            id@ == pair_id(left, right),
    {
        left.pair_node_id(&right)
    }

    /// `left` and `right` in ascending order.
    pub fn get_pair_order(left: Node, right: Node) -> (ordered: (Node, Node))
        ensures
            ordered == (if node_le(left, right) {
                (left, right)
            } else {
                (right, left)
            }),
    {
        if left.precedes(&right) {
            (left, right)
        } else {
            (right, left)
        }
    }

    pub fn get_id_ref(&self) -> (id: &CipherBlock)
        ensures
            id@ == self.id_spec(),
    {
        &self.id
    }

    pub fn get_id(self) -> (id: CipherBlock)
        ensures
            id@ == self.id_spec(),
    {
        self.id
    }

    pub fn get_left_node_ref(&self) -> (node: &Node)
        ensures
            *node == self.left_spec(),
    {
        &self.l
    }

    pub fn get_right_node_ref(&self) -> (node: &Node)
        ensures
            *node == self.right_spec(),
    {
        &self.r
    }

    pub fn get_objective_ref(&self) -> (objective: &T)
        ensures
            *objective == self.objective_spec(),
    {
        &self.objective
    }

    pub fn get_payload_ref(&self) -> (payload: &InternalValues)
        ensures
            *payload == self.payload_spec(),
    {
        &self.payload
    }

    pub fn get_objective_payload(self) -> (both: (T, InternalValues))
        ensures
            both == (self.objective_spec(), self.payload_spec()),
    {
        (self.objective, self.payload)
    }
}

impl<T, InternalValues> PartialEqSpecImpl for NodePair<T, InternalValues> where T: PartialOrd {
    open spec fn obeys_eq_spec() -> bool {
        true
    }

    /// Pairs are equal where their identifiers are.
    open spec fn eq_spec(&self, other: &Self) -> bool {
        self.id_spec() == other.id_spec()
    }
}

impl<T, InternalValues> PartialEq for NodePair<T, InternalValues> where T: PartialOrd {
    fn eq(&self, other: &Self) -> (equal: bool) {
        first_difference(&self.id, &other.id).is_none()
    }
}

impl<T, InternalValues> Eq for NodePair<T, InternalValues> where T: PartialOrd {

}

impl<T, InternalValues> PartialOrdSpecImpl for NodePair<T, InternalValues> where T: PartialOrd {
    open spec fn obeys_partial_cmp_spec() -> bool {
        true
    }

    /// Pairs are ordered as their identifiers are, in the order of
    /// dictionaries.
    open spec fn partial_cmp_spec(&self, other: &Self) -> Option<Ordering> {
        if self.id_spec() == other.id_spec() {
            Some(Ordering::Equal)
        } else if bytes_le(self.id_spec(), other.id_spec()) {
            Some(Ordering::Less)
        } else {
            Some(Ordering::Greater)
        }
    }
}

impl<T, InternalValues> PartialOrd for NodePair<T, InternalValues> where T: PartialOrd {
    fn partial_cmp(&self, other: &Self) -> (order: Option<Ordering>) {
        match first_difference(&self.id, &other.id) {
            None => Some(Ordering::Equal),
            Some(i) => {
                if self.id[i] < other.id[i] {
                    Some(Ordering::Less)
                } else {
                    Some(Ordering::Greater)
                }
            },
        }
    }
}

} // verus!
