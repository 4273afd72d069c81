//! The tree of capture rows, kept in an `indextree::Arena`.
//!
//! Nodes are named by their one-based id, the number `usize::from(NodeId)`
//! gives: the `k`-th node created has id `k`. The arena's contents are modelled
//! by `packet_tree_nodes`: position `k - 1` holds node `k`'s packet, the id of
//! its parent and the ids of its children in order.
use crate::total_phase_parser::USBPacket;
use indextree::Arena;
use std::num::NonZeroUsize;
use vstd::prelude::*;

verus! {

#[verifier::external_type_specification]
#[verifier::external_body]
#[verifier::reject_recursive_types(T)]
pub struct ExArena<T>(Arena<T>);

/// The slots of a packet arena in creation order: each node's packet, the id of
/// its parent, and the ids of its children in order.
pub uninterp spec fn packet_tree_nodes(a: Arena<USBPacket<'static>>) -> Seq<
    (USBPacket<'static>, Option<nat>, Seq<nat>),
>;

/// How many slots of a packet arena have been freed by removing nodes.
pub uninterp spec fn packet_tree_free_slots(a: Arena<USBPacket<'static>>) -> nat;

/// `Arena::new`: an arena with no nodes and no freed slots.
#[verifier::external_body]
pub(crate) fn tree_new() -> (a: Arena<USBPacket<'static>>)
    ensures
        packet_tree_nodes(a) == Seq::<(USBPacket<'static>, Option<nat>, Seq<nat>)>::empty(),
        packet_tree_free_slots(a) == 0,
{
    Arena::new()
}

/// `Arena::new_node`: with no freed slot to reuse, the packet goes into a new
/// slot at the end, as a node without parent or children, and its id is the new
/// number of slots. The arena panics when it already has `usize::MAX` slots.
#[verifier::external_body]
pub(crate) fn tree_add(a: &mut Arena<USBPacket<'static>>, p: USBPacket<'static>) -> (id: usize)
    requires
        packet_tree_free_slots(*old(a)) == 0,
        packet_tree_nodes(*old(a)).len() < usize::MAX,
    ensures
        packet_tree_nodes(*final(a)) == packet_tree_nodes(*old(a)).push((p, None, Seq::empty())),
        packet_tree_free_slots(*final(a)) == 0,
        id == packet_tree_nodes(*old(a)).len() + 1,
{
    usize::from(a.new_node(p))
}

/// `NodeId::append` of a node without parent or children: the child's parent
/// becomes `parent`, and the child is added after `parent`'s other children.
#[verifier::external_body]
pub(crate) fn tree_append(a: &mut Arena<USBPacket<'static>>, parent: usize, child: usize)
    requires
        packet_tree_free_slots(*old(a)) == 0,
        1 <= parent <= packet_tree_nodes(*old(a)).len(),
        1 <= child <= packet_tree_nodes(*old(a)).len(),
        parent != child,
        packet_tree_nodes(*old(a))[child - 1].1 is None,
        packet_tree_nodes(*old(a))[child - 1].2.len() == 0,
    ensures
        packet_tree_free_slots(*final(a)) == 0,
        packet_tree_nodes(*final(a)) == ({
            let n = packet_tree_nodes(*old(a));
            n.update(child - 1, (n[child - 1].0, Some(parent as nat), n[child - 1].2)).update(
                parent - 1,
                (n[parent - 1].0, n[parent - 1].1, n[parent - 1].2.push(child as nat)),
            )
        }),
{
    let p = a.get_node_id_at(NonZeroUsize::new(parent).unwrap()).unwrap();
    let c = a.get_node_id_at(NonZeroUsize::new(child).unwrap()).unwrap();
    p.append(c, a);
}

/// `Arena::len`: the number of slots.
#[verifier::external_body]
pub(crate) fn tree_len(a: &Arena<USBPacket<'static>>) -> (n: usize)
    ensures
        n == packet_tree_nodes(*a).len(),
{
    a.len()
}

/// `Arena::index` and `Node::get`: the packet of node `id`.
#[verifier::external_body]
pub(crate) fn tree_get<'t>(a: &'t Arena<USBPacket<'static>>, id: usize) -> (p: &'t USBPacket<'static>)
    requires
        packet_tree_free_slots(*a) == 0,
        1 <= id <= packet_tree_nodes(*a).len(),
    ensures
        *p == packet_tree_nodes(*a)[id - 1].0,
{
    a[a.get_node_id_at(NonZeroUsize::new(id).unwrap()).unwrap()].get()
}

/// `NodeId::parent`: the id of the parent of node `id`.
#[verifier::external_body]
pub(crate) fn tree_parent(a: &Arena<USBPacket<'static>>, id: usize) -> (p: Option<usize>)
    requires
        packet_tree_free_slots(*a) == 0,
        1 <= id <= packet_tree_nodes(*a).len(),
    ensures
        match p {
            Some(x) => packet_tree_nodes(*a)[id - 1].1 == Some(x as nat),
            None => packet_tree_nodes(*a)[id - 1].1 is None,
        },
{
    match a.get_node_id_at(NonZeroUsize::new(id).unwrap()).unwrap().parent(a) {
        Some(x) => Some(usize::from(x)),
        None => None,
    }
}

/// `NodeId::first_child`: the id of the first child of node `id`.
#[verifier::external_body]
pub(crate) fn tree_first_child(a: &Arena<USBPacket<'static>>, id: usize) -> (c: Option<usize>)
    requires
        packet_tree_free_slots(*a) == 0,
        1 <= id <= packet_tree_nodes(*a).len(),
    ensures
        match c {
            Some(x) => packet_tree_nodes(*a)[id - 1].2.len() > 0 && packet_tree_nodes(
                *a,
            )[id - 1].2[0] == x as nat,
            None => packet_tree_nodes(*a)[id - 1].2.len() == 0,
        },
{
    match a.get_node_id_at(NonZeroUsize::new(id).unwrap()).unwrap().first_child(a) {
        Some(x) => Some(usize::from(x)),
        None => None,
    }
}

/// `NodeId::children`: the ids of the children of node `id`, in order.
#[verifier::external_body]
pub(crate) fn tree_children(a: &Arena<USBPacket<'static>>, id: usize) -> (c: Vec<usize>)
    requires
        packet_tree_free_slots(*a) == 0,
        1 <= id <= packet_tree_nodes(*a).len(),
    ensures
        c@.len() == packet_tree_nodes(*a)[id - 1].2.len(),
        forall|i: int|
            0 <= i < c@.len() ==> #[trigger] c@[i] as nat == packet_tree_nodes(*a)[id - 1].2[i],
{
    a.get_node_id_at(NonZeroUsize::new(id).unwrap()).unwrap().children(a).map(usize::from).collect()
}

} // verus!
