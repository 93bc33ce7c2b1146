//! Folders as a user interface is told of them.

use slab_tree::{NodeId, Tree, TreeBuilder};
use vstd::prelude::*;
use crate::text::{parts, same_text, split_text, texts_of};

verus! {

/// A folder by its path.
pub struct Folder {
    path: String,
}

impl View for Folder {
    type V = Seq<char>;

    closed spec fn view(&self) -> Seq<char> {
        self.path@
    }
}

impl Clone for Folder {
    fn clone(&self) -> (copy: Self)
        ensures
            copy@ == self@,
    {
        Folder { path: self.path.clone() }
    }
}

impl Folder {
    pub fn new(path: String) -> (folder: Self)
        ensures
            folder@ == path@,
    {
        Self { path }
    }

    pub fn path(&self) -> (path: &str)
        ensures
            path@ == self@,
    {
        self.path.as_str()
    }
}

/// Does nothing: folders are scanned by a `FileScan`.
pub fn scan_folder(path: &str) {
}

/// The event that tells a user interface of a folder.
pub struct FolderInfoEmitEvent {
    pub media_info: Folder,
}

impl FolderInfoEmitEvent {
    pub fn new(media_info: Folder) -> (event: Self)
        ensures
            event.media_info == media_info,
    {
        Self { media_info }
    }
}

/// The tree type `slab_tree::Tree`, opaque to the verifier.
#[verifier::external_type_specification]
#[verifier::external_body]
#[verifier::reject_recursive_types(T)]
pub struct ExTree<T>(Tree<T>);

/// The node identifier type `slab_tree::NodeId`, opaque to the verifier.
#[verifier::external_type_specification]
#[verifier::external_body]
pub struct ExNodeId(NodeId);

/// A place in a tree: the numbers of the children to follow from the root,
/// each counted from zero among its siblings. The root is the empty place.
pub type Place = Seq<int>;

/// The nodes of a tree as values: at each place that holds a node, the
/// folder's path and the number of the node's children.
pub type Nodes = Map<Place, (Seq<char>, nat)>;

/// What a tree of folders holds: the nodes that can be reached from its
/// root, by place.
pub uninterp spec fn tree_nodes(tree: Tree<Folder>) -> Nodes;

/// The place of the node that an identifier names in a tree, where it names
/// one that can be reached from the root.
pub uninterp spec fn node_place(tree: Tree<Folder>, id: NodeId) -> Option<Place>;

/// `Tree::root_id` returns the identifier of the root, or none for a tree
/// without nodes.
#[verifier::external_body]
fn tree_root(tree: &Tree<Folder>) -> (root: Option<NodeId>)
    ensures
        root is Some <==> tree_nodes(*tree).contains_key(Seq::<int>::empty()),
        root is Some ==> node_place(*tree, root->0) == Some(Seq::<int>::empty()),
{
    tree.root_id()
}

/// `Tree::get` and `NodeRef::children` give the children of a node, first
/// to last; each is handed out as its identifier with its folder's path.
#[verifier::external_body]
fn tree_children(tree: &Tree<Folder>, id: NodeId) -> (children: Vec<(NodeId, String)>)
    requires
        node_place(*tree, id) is Some,
    ensures
        children@.len() == tree_nodes(*tree)[node_place(*tree, id)->0].1,
        forall|i: int|
            0 <= i < children@.len() ==> {
                let place = node_place(*tree, id)->0.push(i);
                &&& node_place(*tree, (#[trigger] children@[i]).0) == Some(place)
                &&& tree_nodes(*tree).contains_key(place)
                &&& tree_nodes(*tree)[place].0 == children@[i].1@
            },
{
    let node = tree.get(id).unwrap();
    node.children().map(|child| (child.node_id(), child.data().path().to_owned())).collect()
}

/// `TreeBuilder::new`, `with_root` and `build` make a tree that holds the
/// root alone, without children.
#[verifier::external_body]
fn tree_build(root: Folder) -> (tree: Tree<Folder>)
    ensures
        tree_nodes(tree) == root_alone(root@),
{
    TreeBuilder::new().with_root(root).build()
}

/// A tree of folders. Every value is built with its root by `new` and grows
/// by `get_tree_node` alone: folders are added as last children, and nothing
/// is ever moved, removed or put above the root.
pub struct FolderTree {
    tree: Tree<Folder>,
}

/// `Tree::get_mut` and `NodeMut::append` add a folder as the last child of
/// a node and return the new node's identifier. The new node has no
/// children; every other node keeps its place and its identifier. This is
/// said of the trees that a `FolderTree` holds: built with their root and
/// grown by this function alone, so that the last child of every node ends
/// the chain of its children.
#[verifier::external_body]
fn tree_append(tree: &mut FolderTree, id: NodeId, folder: Folder) -> (child: NodeId)
    requires
        node_place(old(tree).tree, id) is Some,
    ensures
        tree_nodes(final(tree).tree) == with_child(
            tree_nodes(old(tree).tree),
            node_place(old(tree).tree, id)->0,
            folder@,
        ),
        node_place(final(tree).tree, child) == Some(
            new_child_place(tree_nodes(old(tree).tree), node_place(old(tree).tree, id)->0),
        ),
        forall|other: NodeId|
            node_place(old(tree).tree, other) is Some ==> #[trigger] node_place(
                final(tree).tree,
                other,
            ) == node_place(old(tree).tree, other),
{
    tree.tree.get_mut(id).unwrap().append(folder).node_id()
}

/// The nodes of a tree that holds its root alone.
pub open spec fn root_alone(path: Seq<char>) -> Nodes {
    Map::<Place, (Seq<char>, nat)>::empty().insert(Seq::<int>::empty(), (path, 0nat))
}

impl FolderTree {
    /// What the tree holds: its nodes by place.
    pub closed spec fn nodes(self) -> Nodes {
        tree_nodes(self.tree)
    }

    /// The place of the node that an identifier names in the tree.
    pub closed spec fn place(self, id: NodeId) -> Option<Place> {
        node_place(self.tree, id)
    }

    /// A tree that holds the root alone.
    pub fn new(root: Folder) -> (tree: FolderTree)
        ensures
            tree.nodes() == root_alone(root@),
    {
        FolderTree { tree: tree_build(root) }
    }

    /// The tree, to read.
    pub fn tree(&self) -> (tree: &Tree<Folder>)
        ensures
            tree_nodes(*tree) == self.nodes(),
    {
        &self.tree
    }
}

/// The place that a new last child of the node at `place` takes.
pub open spec fn new_child_place(nodes: Nodes, place: Place) -> Place {
    place.push(nodes[place].1 as int)
}

/// The nodes after a folder is added as the last child of the node at
/// `place`.
pub open spec fn with_child(nodes: Nodes, place: Place, path: Seq<char>) -> Nodes {
    nodes.insert(place, (nodes[place].0, nodes[place].1 + 1)).insert(
        new_child_place(nodes, place),
        (path, 0nat),
    )
}

/// The number of the first child of the node at `place`, counting from
/// `from`, whose folder has the path `name`.
pub open spec fn child_named(nodes: Nodes, place: Place, name: Seq<char>, from: nat) -> Option<nat>
    decreases nodes[place].1 - from,
{
    if from >= nodes[place].1 {
        None
    } else if nodes[place.push(from as int)].0 == name {
        Some(from)
    } else {
        child_named(nodes, place, name, from + 1)
    }
}

/// One step down a tree, from the node at a place to its first child named
/// `name`; where it has none, a folder of that name is added as its last
/// child, and the step goes there.
pub open spec fn step_down(at: (Nodes, Place), name: Seq<char>) -> (Nodes, Place) {
    match child_named(at.0, at.1, name, 0) {
        Some(child) => (at.0, at.1.push(child as int)),
        None => (with_child(at.0, at.1, name), new_child_place(at.0, at.1)),
    }
}

/// The steps down a tree for a list of names, first to last.
pub open spec fn walk_down(at: (Nodes, Place), names: Seq<Seq<char>>) -> (Nodes, Place)
    decreases names.len(),
{
    if names.len() == 0 {
        at
    } else {
        step_down(walk_down(at, names.drop_last()), names.last())
    }
}

/// The node of the folder at `path` in a tree with a root: one step down
/// from the root for each part of the path between backslashes, adding the
/// folders that are missing on the way.
pub fn get_tree_node(tree: &mut FolderTree, path: &str) -> (node: NodeId)
    requires
        old(tree).nodes().contains_key(Seq::<int>::empty()),
    ensures
        final(tree).place(node) is Some,
        (final(tree).nodes(), final(tree).place(node)->0) == walk_down(
            (old(tree).nodes(), Seq::<int>::empty()),
            parts(path@, '\\'),
        ),
        final(tree).nodes().contains_key(Seq::<int>::empty()),
{
    let ghost start = (tree_nodes(tree.tree), Seq::<int>::empty());
    let names = split_text(path, '\\');
    let mut root_id: NodeId = tree_root(&tree.tree).unwrap();
    let mut i: usize = 0;
    while i < names.len()
        invariant
            i <= names.len(),
            texts_of(names@) == parts(path@, '\\'),
            node_place(tree.tree, root_id) is Some,
            tree_nodes(tree.tree).contains_key(Seq::<int>::empty()),
            (tree_nodes(tree.tree), node_place(tree.tree, root_id)->0) == walk_down(
                start,
                texts_of(names@).take(i as int),
            ),
        decreases names.len() - i,
    {
        let ghost nodes = tree_nodes(tree.tree);
        let ghost place = node_place(tree.tree, root_id)->0;
        let ghost name = names@[i as int]@;
        proof {
            assert(texts_of(names@).take(i + 1).drop_last() =~= texts_of(names@).take(i as int));
            assert(texts_of(names@).take(i + 1).last() == name);
        }
        let children = tree_children(&tree.tree, root_id);
        let mut found: Option<NodeId> = None;
        let mut k: usize = 0;
        while k < children.len() && found.is_none()
            invariant
                k <= children.len(),
                children@.len() == nodes[place].1,
                forall|j: int|
                    0 <= j < children@.len() ==> {
                        &&& node_place(tree.tree, (#[trigger] children@[j]).0) == Some(
                            place.push(j),
                        )
                        &&& nodes[place.push(j)].0 == children@[j].1@
                    },
                name == names@[i as int]@,
                i < names.len(),
                found is None ==> child_named(nodes, place, name, 0) == child_named(
                    nodes,
                    place,
                    name,
                    k as nat,
                ),
                found is Some ==> child_named(nodes, place, name, 0) is Some,
                found is Some ==> node_place(tree.tree, found->0) == Some(
                    place.push(child_named(nodes, place, name, 0)->0 as int),
                ),
            decreases children.len() - k + if found is None { 1int } else { 0int },
        {
            if same_text(children[k].1.as_str(), names[i].as_str()) {
                found = Some(children[k].0);
            } else {
                k = k + 1;
            }
        }
        let new_root_id: NodeId = match found {
            None => {
                let new_folder = Folder::new(names[i].clone());
                tree_append(tree, root_id, new_folder)
            },
            Some(node) => node,
        };
        root_id = new_root_id;
        i = i + 1;
    }
    assert(texts_of(names@).take(i as int) =~= texts_of(names@));
    root_id
}

/// The node of the folder at `path`, as `get_tree_node` finds or adds it;
/// none, and the tree as it was, for a tree without a root.
pub fn find_tree_node(tree: &mut FolderTree, path: &str) -> (node: Option<NodeId>)
    ensures
        node is Some <==> old(tree).nodes().contains_key(Seq::<int>::empty()),
        node is None ==> *final(tree) == *old(tree),
        node is Some ==> final(tree).place(node->0) is Some,
        node is Some ==> (final(tree).nodes(), final(tree).place(node->0)->0) == walk_down(
            (old(tree).nodes(), Seq::<int>::empty()),
            parts(path@, '\\'),
        ),
{
    if tree_root(&tree.tree).is_some() {
        Some(get_tree_node(tree, path))
    } else {
        None
    }
}

} // verus!
