//! The document tree: nodes in the order of their creation, each with its data, its
//! parent and its children.

use vstd::prelude::*;

use crate::element::{
    attrs_set, distinct_names, law_set_attribute_keeps_names_distinct, names_are_distinct,
    new_element, Attribute, Element, ElementView, IFrameSize,
};
use crate::interface::{
    claims, interface_for, interface_of, law_interface_of_tag, ElementTypeId,
};
use crate::messages::Url;
use crate::text::{concat, law_one_piece_is_the_text, law_pieces_are_whole};

verus! {

/// A node as the tokenizer knows it: zero for none.
pub type NodeDataPtr = usize;

/// A node of a document, by its place in the order of creation.
#[derive(Clone, Copy, Debug, PartialEq, Eq, Structural)]
pub struct NodeHandle {
    pub index: usize,
}

/// The node that the tokenizer means.
pub open spec fn handle(n: NodeDataPtr) -> NodeHandle {
    NodeHandle { index: (n - 1) as usize }
}

impl NodeHandle {
    /// The node as the tokenizer knows it.
    pub fn to_hubbub_node(self) -> (n: NodeDataPtr)
        requires
            self.index < usize::MAX,
        ensures
            n == self.index + 1,
    {
        self.index + 1
    }

    /// The node that the tokenizer means.
    pub fn from_hubbub_node(n: NodeDataPtr) -> (node: NodeHandle)
        requires
            n != 0,
        ensures
            node.index == n - 1,
            node == handle(n),
    {
        NodeHandle { index: n - 1 }
    }
}

/// The tokenizer's name for a node leads back to that node, and is never the name of none.
pub proof fn law_nodes_come_back_from_the_tokenizer(node: NodeHandle)
    requires
        node.index < usize::MAX,
    ensures
        (node.index + 1) as NodeDataPtr != 0,
        handle((node.index + 1) as NodeDataPtr) == node,
{
}

/// A document type declaration.
#[derive(Debug, PartialEq, Eq)]
pub struct Doctype {
    pub name: String,
    pub public_id: Option<String>,
    pub system_id: Option<String>,
    pub force_quirks: bool,
}

/// The mathematical value of a [`Doctype`].
#[verifier::ext_equal]
pub struct DoctypeView {
    pub name: Seq<char>,
    pub public_id: Option<Seq<char>>,
    pub system_id: Option<Seq<char>>,
    pub force_quirks: bool,
}

/// The view of a text that may be missing.
pub open spec fn optional_text(text: Option<String>) -> Option<Seq<char>> {
    match text {
        Some(t) => Some(t@),
        None => None,
    }
}

impl View for Doctype {
    type V = DoctypeView;

    open spec fn view(&self) -> DoctypeView {
        DoctypeView {
            name: self.name@,
            public_id: optional_text(self.public_id),
            system_id: optional_text(self.system_id),
            force_quirks: self.force_quirks,
        }
    }
}

/// What a node is.
#[derive(Debug, PartialEq, Eq)]
pub enum NodeData<C, K> {
    Comment(String),
    DocumentType(Doctype),
    Element(Element<C, K>),
    Text(String),
}

/// The mathematical value of a [`NodeData`].
#[verifier::ext_equal]
pub enum NodeDataView<C, K> {
    Comment(Seq<char>),
    DocumentType(DoctypeView),
    Element(ElementView<C, K>),
    Text(Seq<char>),
}

impl<C, K> View for NodeData<C, K> {
    type V = NodeDataView<C, K>;

    open spec fn view(&self) -> NodeDataView<C, K> {
        match *self {
            NodeData::Comment(text) => NodeDataView::Comment(text@),
            NodeData::DocumentType(doctype) => NodeDataView::DocumentType(doctype@),
            NodeData::Element(element) => NodeDataView::Element(element@),
            NodeData::Text(text) => NodeDataView::Text(text@),
        }
    }
}

impl<C, K> NodeDataView<C, K> {
    /// No element gives an attribute twice.
    pub open spec fn wf(self) -> bool {
        self matches NodeDataView::Element(element) ==> distinct_names(element.attrs)
    }

    /// The text of a text node; no text for the others.
    pub open spec fn text(self) -> Seq<char> {
        match self {
            NodeDataView::Text(text) => text,
            _ => Seq::empty(),
        }
    }
}

/// A node in its place: its parent, if it has one, and its children from first to last.
#[derive(Debug, PartialEq, Eq)]
pub struct Node<C, K> {
    pub data: NodeData<C, K>,
    pub parent: Option<usize>,
    pub children: Vec<usize>,
}

/// The mathematical value of a [`Node`].
#[verifier::ext_equal]
pub struct NodeView<C, K> {
    pub data: NodeDataView<C, K>,
    pub parent: Option<usize>,
    pub children: Seq<usize>,
}

impl<C, K> View for Node<C, K> {
    type V = NodeView<C, K>;

    open spec fn view(&self) -> NodeView<C, K> {
        NodeView { data: self.data@, parent: self.parent, children: self.children@ }
    }
}

/// The nodes that belong to a document, in the tree or not.
#[derive(Debug, PartialEq, Eq)]
pub struct Document<C, K> {
    pub nodes: Vec<Node<C, K>>,
}

/// The mathematical value of a [`Document`].
#[verifier::ext_equal]
pub struct DocumentView<C, K> {
    pub nodes: Seq<NodeView<C, K>>,
}

impl<C, K> View for Document<C, K> {
    type V = DocumentView<C, K>;

    open spec fn view(&self) -> DocumentView<C, K> {
        DocumentView { nodes: self.nodes@.map_values(|n: Node<C, K>| n@) }
    }
}

impl<C, K> DocumentView<C, K> {
    /// Whether the node belongs to the document.
    pub open spec fn contains(self, node: NodeHandle) -> bool {
        node.index < self.nodes.len()
    }

    /// Whether the tokenizer's name for a node stands for one of the document.
    pub open spec fn contains_ptr(self, n: NodeDataPtr) -> bool {
        1 <= n <= self.nodes.len()
    }

    /// The node that the tokenizer means.
    pub open spec fn at(self, n: NodeDataPtr) -> NodeView<C, K> {
        self.nodes[n - 1]
    }

    /// Parents and children agree: each child knows its parent, and each node that has a
    /// parent stands among that parent's children, once.
    pub open spec fn wf(self) -> bool {
        &&& self.nodes.len() <= usize::MAX
        &&& forall|i: int| 0 <= i < self.nodes.len() ==> (#[trigger] self.nodes[i]).data.wf()
        &&& forall|i: int, k: int|
            0 <= i < self.nodes.len() && 0 <= k < self.nodes[i].children.len() ==> {
                let child = #[trigger] self.nodes[i].children[k];
                child < self.nodes.len() && self.nodes[child as int].parent == Some(i as usize)
            }
        &&& forall|c: int|
            0 <= c < self.nodes.len() ==> ((#[trigger] self.nodes[c]).parent matches Some(p) ==> p
                < self.nodes.len() && self.nodes[p as int].children.contains(c as usize))
        &&& forall|i: int|
            0 <= i < self.nodes.len() ==> (#[trigger] self.nodes[i]).children.no_duplicates()
    }

    /// Parents and children agree around one node.
    pub open spec fn wf_at(self, i: int) -> bool {
        &&& self.nodes[i].data.wf()
        &&& forall|k: int|
            0 <= k < self.nodes[i].children.len() ==> {
                let child = #[trigger] self.nodes[i].children[k];
                child < self.nodes.len() && self.nodes[child as int].parent == Some(i as usize)
            }
        &&& self.nodes[i].parent matches Some(p) ==> p < self.nodes.len()
            && self.nodes[p as int].children.contains(i as usize)
        &&& self.nodes[i].children.no_duplicates()
    }

    /// The document with one more node, which stands alone.
    pub open spec fn with_node(self, data: NodeDataView<C, K>) -> Self {
        DocumentView {
            nodes: self.nodes.push(NodeView { data, parent: None, children: Seq::empty() }),
        }
    }

    /// The document with the node `child` as the last child of `parent`.
    pub open spec fn with_child(self, parent: NodeHandle, child: NodeHandle) -> Self {
        DocumentView {
            nodes: Seq::new(
                self.nodes.len(),
                |i: int|
                    NodeView {
                        data: self.nodes[i].data,
                        parent: if i == child.index {
                            Some(parent.index)
                        } else {
                            self.nodes[i].parent
                        },
                        children: if i == parent.index {
                            self.nodes[i].children.push(child.index)
                        } else {
                            self.nodes[i].children
                        },
                    },
            ),
        }
    }

    /// The document with other data in one node.
    pub open spec fn with_data(self, node: NodeHandle, data: NodeDataView<C, K>) -> Self {
        DocumentView {
            nodes: self.nodes.update(
                node.index as int,
                NodeView { data, ..self.nodes[node.index as int] },
            ),
        }
    }

    /// The element at a node.
    pub open spec fn element(self, node: NodeHandle) -> ElementView<C, K>
        recommends
            self.contains(node),
            self.is_element(node),
    {
        self.nodes[node.index as int].data->Element_0
    }

    /// Whether a node is an element.
    pub open spec fn is_element(self, node: NodeHandle) -> bool {
        self.nodes[node.index as int].data is Element
    }

    /// Whether all children of a node are text.
    pub open spec fn only_text_in(self, node: NodeHandle) -> bool {
        forall|k: int|
            0 <= k < self.nodes[node.index as int].children.len() ==> self.nodes[(
            #[trigger] self.nodes[node.index as int].children[k]) as int].data is Text
    }

    /// The texts of the children of a node, from first to last.
    pub open spec fn texts_in(self, node: NodeHandle) -> Seq<Seq<char>> {
        self.nodes[node.index as int].children.map_values(
            |c: usize| self.nodes[c as int].data.text(),
        )
    }

    /// The texts of the children of a node, put together.
    pub open spec fn text_in(self, node: NodeHandle) -> Seq<char> {
        concat(self.texts_in(node))
    }
}

impl<C, K> Document<C, K> {
    /// A document without nodes.
    pub fn new() -> (document: Self)
        ensures
            document@.wf(),
            document@.nodes == Seq::<NodeView<C, K>>::empty(),
            document.nodes@.len() == 0,
    {
        let document = Document { nodes: Vec::new() };
        assert(document@.nodes =~= Seq::empty());
        document
    }

    /// Whether parents and children agree.
    pub fn is_in_order(&self) -> (in_order: bool)
        ensures
            in_order == self@.wf(),
            in_order <==> {
                &&& forall|i: int, k: int, l: int|
                    0 <= i < self.nodes@.len() && self.nodes@[i].data is Element && 0 <= k < l
                        < self.nodes@[i].data->Element_0.attrs@.len() ==> (
                    #[trigger] self.nodes@[i].data->Element_0.attrs@[k]).name@ != (
                    #[trigger] self.nodes@[i].data->Element_0.attrs@[l]).name@
                &&& forall|i: int, k: int|
                    0 <= i < self.nodes@.len() && 0 <= k < self.nodes@[i].children@.len() ==> {
                        let child = #[trigger] self.nodes@[i].children@[k];
                        child < self.nodes@.len() && self.nodes@[child as int].parent == Some(
                            i as usize,
                        )
                    }
                &&& forall|c: int|
                    0 <= c < self.nodes@.len() && (#[trigger] self.nodes@[c]).parent is Some ==> {
                        let parent = self.nodes@[c].parent->Some_0;
                        parent < self.nodes@.len() && exists|k: int|
                            0 <= k < self.nodes@[parent as int].children@.len()
                                && self.nodes@[parent as int].children@[k] == c
                    }
                &&& forall|i: int, k: int, l: int|
                    0 <= i < self.nodes@.len() && 0 <= k < l < self.nodes@[i].children@.len() ==> (
                    #[trigger] self.nodes@[i].children@[k]) != (
                    #[trigger] self.nodes@[i].children@[l])
            },
    {
        proof {
            self.lemma_in_order();
        }
        let mut i: usize = 0;
        while i < self.nodes.len()
            invariant
                i <= self.nodes.len(),
                forall|j: int| 0 <= j < i ==> #[trigger] self@.wf_at(j),
            decreases self.nodes.len() - i,
        {
            if !self.is_in_order_at(i) {
                proof {
                    lemma_wf_at_every_node(self@);
                }
                return false;
            }
            i = i + 1;
        }
        proof {
            assert(self.nodes.len() == self@.nodes.len());
            lemma_wf_at_every_node(self@);
        }
        true
    }

    /// What it means that a document is in order, of the nodes as they are held.
    proof fn lemma_in_order(&self)
        ensures
            self@.wf() <==> {
                &&& forall|i: int, k: int, l: int|
                    0 <= i < self.nodes@.len() && self.nodes@[i].data is Element && 0 <= k < l
                        < self.nodes@[i].data->Element_0.attrs@.len() ==> (
                    #[trigger] self.nodes@[i].data->Element_0.attrs@[k]).name@ != (
                    #[trigger] self.nodes@[i].data->Element_0.attrs@[l]).name@
                &&& forall|i: int, k: int|
                    0 <= i < self.nodes@.len() && 0 <= k < self.nodes@[i].children@.len() ==> {
                        let child = #[trigger] self.nodes@[i].children@[k];
                        child < self.nodes@.len() && self.nodes@[child as int].parent == Some(
                            i as usize,
                        )
                    }
                &&& forall|c: int|
                    0 <= c < self.nodes@.len() && (#[trigger] self.nodes@[c]).parent is Some ==> {
                        let parent = self.nodes@[c].parent->Some_0;
                        parent < self.nodes@.len() && exists|k: int|
                            0 <= k < self.nodes@[parent as int].children@.len()
                                && self.nodes@[parent as int].children@[k] == c
                    }
                &&& forall|i: int, k: int, l: int|
                    0 <= i < self.nodes@.len() && 0 <= k < l < self.nodes@[i].children@.len() ==> (
                    #[trigger] self.nodes@[i].children@[k]) != (
                    #[trigger] self.nodes@[i].children@[l])
            },
    {
        assert(self.nodes.len() == self@.nodes.len());
        law_documents_in_order(self@);
        let nodes = self.nodes@;
        let views = self@.nodes;
        assert forall|i: int| 0 <= i < nodes.len() implies #[trigger] views[i] == nodes[i]@ by {}
        if self@.wf() {
            assert forall|i: int, k: int, l: int|
                0 <= i < nodes.len() && nodes[i].data is Element && 0 <= k < l
                    < nodes[i].data->Element_0.attrs@.len() implies (
            #[trigger] nodes[i].data->Element_0.attrs@[k]).name@ != (
            #[trigger] nodes[i].data->Element_0.attrs@[l]).name@ by {
                let attrs = views[i].data->Element_0.attrs;
                assert(attrs[k].name != attrs[l].name);
            }
            assert forall|i: int, k: int|
                0 <= i < nodes.len() && 0 <= k < nodes[i].children@.len() implies {
                let child = #[trigger] nodes[i].children@[k];
                child < nodes.len() && nodes[child as int].parent == Some(i as usize)
            } by {
                let child = views[i].children[k];
                assert(views[child as int] == nodes[child as int]@);
            }
            assert forall|c: int|
                0 <= c < nodes.len() && (#[trigger] nodes[c]).parent is Some implies {
                let parent = nodes[c].parent->Some_0;
                parent < nodes.len() && exists|k: int|
                    0 <= k < nodes[parent as int].children@.len()
                        && nodes[parent as int].children@[k] == c
            } by {
                assert(views[c].parent is Some);
                let parent = views[c].parent->Some_0 as int;
                let k = choose|k: int|
                    0 <= k < views[parent].children.len() && views[parent].children[k] == c;
                assert(nodes[parent].children@[k] == c);
            }
            assert forall|i: int, k: int, l: int|
                0 <= i < nodes.len() && 0 <= k < l < nodes[i].children@.len() implies (
            #[trigger] nodes[i].children@[k]) != (#[trigger] nodes[i].children@[l]) by {
                assert(views[i].children[k] != views[i].children[l]);
            }
        }
    }

    /// Whether parents and children agree around one node.
    fn is_in_order_at(&self, i: usize) -> (in_order: bool)
        requires
            i < self@.nodes.len(),
        ensures
            in_order == self@.wf_at(i as int),
    {
        let node = &self.nodes[i];
        assert(self@.nodes[i as int] == node@);
        if let NodeData::Element(element) = &node.data {
            if !names_are_distinct(&element.attrs) {
                return false;
            }
        }
        if let Some(p) = node.parent {
            if p >= self.nodes.len() {
                return false;
            }
            assert(self@.nodes[p as int] == self.nodes@[p as int]@);
            if position(&self.nodes[p].children, i, 0).is_none() {
                return false;
            }
        }
        let children = &node.children;
        let mut k: usize = 0;
        while k < children.len()
            invariant
                k <= children.len(),
                i < self@.nodes.len(),
                children@ == self@.nodes[i as int].children,
                forall|j: int|
                    0 <= j < k ==> {
                        let child = #[trigger] self@.nodes[i as int].children[j];
                        child < self@.nodes.len() && self@.nodes[child as int].parent == Some(i)
                    },
                forall|j: int, l: int|
                    0 <= j < k && j < l < children.len() ==> children@[j] != children@[l],
            decreases children.len() - k,
        {
            let child = children[k];
            assert(child == self@.nodes[i as int].children[k as int]);
            if child >= self.nodes.len() {
                return false;
            }
            assert(self@.nodes[child as int] == self.nodes@[child as int]@);
            match self.nodes[child].parent {
                Some(p) => {
                    if p != i {
                        return false;
                    }
                },
                None => {
                    return false;
                },
            }
            if position(children, child, k + 1).is_some() {
                return false;
            }
            k = k + 1;
        }
        true
    }

    /// Creates a node that is not in the tree yet.
    pub fn add_node(&mut self, data: NodeData<C, K>) -> (node: NodeHandle)
        requires
            old(self)@.wf(),
            data@.wf(),
        ensures
            final(self)@ == old(self)@.with_node(data@),
            node.index == old(self)@.nodes.len(),
            final(self)@.wf(),
            final(self).nodes@.len() == old(self).nodes@.len() + 1,
            final(self).nodes@.drop_last() == old(self).nodes@,
            final(self).nodes@.last().data == data,
            final(self).nodes@.last().parent is None,
            final(self).nodes@.last().children@ == Seq::<usize>::empty(),
    {
        let ghost before = self@;
        let node = NodeHandle { index: self.nodes.len() };
        let fresh = Node { data, parent: None, children: Vec::new() };
        assert(fresh@ == (NodeView { data: data@, parent: None, children: Seq::empty() }));
        self.nodes.push(fresh);
        assert(self@.nodes =~= before.with_node(data@).nodes);
        proof {
            assert(self.nodes.len() == self@.nodes.len());
            lemma_with_node_wf(before, data@);
        }
        node
    }

    /// Appends a node that has no parent to the children of another one.
    pub fn add_child(&mut self, parent: NodeHandle, child: NodeHandle)
        requires
            old(self)@.wf(),
            old(self)@.contains(parent),
            old(self)@.contains(child),
            old(self)@.nodes[child.index as int].parent is None,
        ensures
            final(self)@ == old(self)@.with_child(parent, child),
            final(self)@.wf(),
            final(self).nodes@.len() == old(self).nodes@.len(),
            forall|i: int|
                0 <= i < old(self).nodes@.len() ==> (#[trigger] final(self).nodes@[i]).data
                    == old(self).nodes@[i].data,
            forall|i: int|
                0 <= i < old(self).nodes@.len() ==> (#[trigger] final(self).nodes@[i]).parent == (
                if i == child.index {
                    Some(parent.index)
                } else {
                    old(self).nodes@[i].parent
                }),
            forall|i: int|
                0 <= i < old(self).nodes@.len() ==> (#[trigger] final(self).nodes@[i]).children@
                    == (if i == parent.index {
                    old(self).nodes@[i].children@.push(child.index)
                } else {
                    old(self).nodes@[i].children@
                }),
    {
        let ghost before = self@;
        self.nodes[parent.index].children.push(child.index);
        self.nodes[child.index].parent = Some(parent.index);
        assert(self@.nodes =~= before.with_child(parent, child).nodes);
        proof {
            lemma_with_child_wf(before, parent, child);
        }
    }

    /// Gives an attribute of an element a value.
    pub fn set_attr(&mut self, node: NodeHandle, name: String, value: String)
        requires
            old(self)@.wf(),
            old(self)@.contains(node),
            old(self)@.is_element(node),
        ensures
            final(self)@ == old(self)@.with_data(
                node,
                NodeDataView::Element(
                    ElementView {
                        attrs: attrs_set(old(self)@.element(node).attrs, name@, value@),
                        ..old(self)@.element(node)
                    },
                ),
            ),
            final(self)@.wf(),
            final(self).nodes@.len() == old(self).nodes@.len(),
            forall|i: int|
                0 <= i < old(self).nodes@.len() && i != node.index ==> (
                #[trigger] final(self).nodes@[i]) == old(self).nodes@[i],
            ({
                let was = old(self).nodes@[node.index as int];
                let is = final(self).nodes@[node.index as int];
                let had = was.data->Element_0.attrs@;
                let has = is.data->Element_0.attrs@;
                &&& is == (Node { data: is.data, ..was })
                &&& is.data == NodeData::Element(
                    Element { attrs: is.data->Element_0.attrs, ..was.data->Element_0 },
                )
                &&& forall|i: int|
                    0 <= i < had.len() ==> (#[trigger] has[i]) == (Attribute {
                        name: had[i].name,
                        value: if had[i].name@ == name@ {
                            value
                        } else {
                            had[i].value
                        },
                    })
                &&& has.len() == had.len() <==> exists|i: int|
                    0 <= i < had.len() && (#[trigger] had[i]).name@ == name@
                &&& has.len() != had.len() ==> has.len() == had.len() + 1 && has.last() == (
                Attribute { name, value })
            }),
    {
        let ghost before = self@;
        let ghost element_before = before.element(node);
        assert(before.nodes[node.index as int].data.wf());
        if let NodeData::Element(element) = &mut self.nodes[node.index].data {
            element.set_attr(name, value);
        }
        proof {
            let data = NodeDataView::Element(
                ElementView {
                    attrs: attrs_set(element_before.attrs, name@, value@),
                    ..element_before
                },
            );
            assert(self@.nodes =~= before.with_data(node, data).nodes);
            law_set_attribute_keeps_names_distinct(element_before.attrs, name@, value@);
            lemma_with_data_wf(before, node, data);
        }
    }

    /// Records the address and the frame of an `iframe` element.
    pub fn set_frame(&mut self, node: NodeHandle, url: Url, size: IFrameSize<C, K>)
        requires
            old(self)@.wf(),
            old(self)@.contains(node),
            old(self)@.is_element(node),
        ensures
            final(self)@ == old(self)@.with_data(
                node,
                NodeDataView::Element(
                    ElementView {
                        frame: Some(url@),
                        size: Some(size),
                        ..old(self)@.element(node)
                    },
                ),
            ),
            final(self)@.wf(),
            final(self).nodes@ == old(self).nodes@.update(
                node.index as int,
                Node {
                    data: NodeData::Element(
                        Element {
                            frame: Some(url),
                            size: Some(size),
                            ..old(self).nodes@[node.index as int].data->Element_0
                        },
                    ),
                    ..old(self).nodes@[node.index as int]
                },
            ),
    {
        let ghost before = self@;
        let ghost element_before = before.element(node);
        assert(before.nodes[node.index as int].data.wf());
        if let NodeData::Element(element) = &mut self.nodes[node.index].data {
            element.frame = Some(url);
            element.size = Some(size);
        }
        proof {
            let data = NodeDataView::Element(
                ElementView { frame: Some(url@), size: Some(size), ..element_before },
            );
            assert(self@.nodes =~= before.with_data(node, data).nodes);
            lemma_with_data_wf(before, node, data);
        }
    }

    /// Whether all children of a node are text.
    pub fn only_text_in(&self, node: NodeHandle) -> (only_text: bool)
        requires
            self@.wf(),
            self@.contains(node),
        ensures
            only_text == self@.only_text_in(node),
            only_text <==> forall|k: int|
                0 <= k < self.nodes@[node.index as int].children@.len() ==> self.nodes@[(
                #[trigger] self.nodes@[node.index as int].children@[k]) as int].data is Text,
    {
        let children = &self.nodes[node.index].children;
        let mut i: usize = 0;
        while i < children.len()
            invariant
                i <= children.len(),
                self@.wf(),
                self@.contains(node),
                children@ == self@.nodes[node.index as int].children,
                forall|k: int|
                    0 <= k < i ==> self@.nodes[(#[trigger] children@[k]) as int].data is Text,
            decreases children.len() - i,
        {
            let child = children[i];
            assert(child == self@.nodes[node.index as int].children[i as int]);
            assert(self@.nodes[child as int] == self.nodes@[child as int]@);
            match &self.nodes[child].data {
                NodeData::Text(_) => {},
                _ => {
                    assert(!(self@.nodes[child as int].data is Text));
                    return false;
                },
            }
            i = i + 1;
        }
        true
    }

    /// The texts of the children of a node, put together.
    pub fn child_text(&self, node: NodeHandle) -> (text: String)
        requires
            self@.wf(),
            self@.contains(node),
            self@.only_text_in(node),
        ensures
            text@ == self@.text_in(node),
            text@ == self.nodes@[node.index as int].children@.map_values(
                |c: usize| self.nodes@[c as int].data->Text_0@,
            ).flatten(),
    {
        let mut text = String::new();
        let children = &self.nodes[node.index].children;
        let mut i: usize = 0;
        let ghost texts = self@.texts_in(node);
        assert(texts.take(0) =~= Seq::empty());
        while i < children.len()
            invariant
                i <= children.len(),
                self@.wf(),
                self@.contains(node),
                self@.only_text_in(node),
                children@ == self@.nodes[node.index as int].children,
                texts == self@.texts_in(node),
                text@ == concat(texts.take(i as int)),
            decreases children.len() - i,
        {
            let child = children[i];
            assert(child == self@.nodes[node.index as int].children[i as int]);
            assert(texts.take(i + 1).drop_last() =~= texts.take(i as int));
            if let NodeData::Text(piece) = &self.nodes[child].data {
                assert(self@.nodes[child as int].data == NodeDataView::<C, K>::Text(piece@));
                text.append(piece.as_str());
            } else {
                assert(self@.nodes[child as int].data is Text);
            }
            i = i + 1;
        }
        assert(texts.take(i as int) =~= texts);
        proof {
            let pieces = children@.map_values(|c: usize| self.nodes@[c as int].data->Text_0@);
            assert forall|k: int| 0 <= k < pieces.len() implies #[trigger] pieces[k]
                == texts[k] by {
                let child = self@.nodes[node.index as int].children[k];
                assert(self@.nodes[child as int] == self.nodes@[child as int]@);
                assert(self@.nodes[child as int].data is Text);
            }
            assert(pieces =~= texts);
            law_pieces_are_whole(texts);
        }
        text
    }
}

/// Where a number stands in a list, from some place on.
fn position(list: &Vec<usize>, number: usize, from: usize) -> (place: Option<usize>)
    requires
        from <= list@.len(),
    ensures
        place matches Some(k) ==> from <= k < list@.len() && list@[k as int] == number,
        place is None ==> forall|k: int| from <= k < list@.len() ==> list@[k] != number,
{
    let mut k: usize = from;
    while k < list.len()
        invariant
            from <= k <= list@.len(),
            forall|j: int| from <= j < k ==> list@[j] != number,
        decreases list.len() - k,
    {
        if list[k] == number {
            return Some(k);
        }
        k = k + 1;
    }
    None
}

/// A document is in order exactly when it is so around every node.
proof fn lemma_wf_at_every_node<C, K>(document: DocumentView<C, K>)
    ensures
        document.wf() <==> document.nodes.len() <= usize::MAX && forall|i: int|
            0 <= i < document.nodes.len() ==> #[trigger] document.wf_at(i),
{
    if document.nodes.len() <= usize::MAX && forall|i: int|
        0 <= i < document.nodes.len() ==> #[trigger] document.wf_at(i) {
        assert forall|i: int, k: int|
            0 <= i < document.nodes.len() && 0 <= k < document.nodes[i].children.len() implies {
            let child = #[trigger] document.nodes[i].children[k];
            child < document.nodes.len() && document.nodes[child as int].parent == Some(i as usize)
        } by {
            assert(document.wf_at(i));
        }
        assert forall|c: int| 0 <= c < document.nodes.len() implies ((
        #[trigger] document.nodes[c]).parent matches Some(p) ==> p < document.nodes.len()
            && document.nodes[p as int].children.contains(c as usize)) by {
            assert(document.wf_at(c));
        }
        assert forall|i: int| 0 <= i < document.nodes.len() implies (
        #[trigger] document.nodes[i]).children.no_duplicates() && document.nodes[i].data.wf() by {
            assert(document.wf_at(i));
        }
        assert(document.wf());
    }
}

/// Creates the element for a tag, with the interface that its name asks for.
pub fn build_element_from_tag<C, K>(tag: &str, document: &mut Document<C, K>) -> (node: NodeHandle)
    requires
        old(document)@.wf(),
    ensures
        final(document)@ == old(document)@.with_node(
            NodeDataView::Element(new_element(interface_of(tag@), tag@)),
        ),
        node.index == old(document)@.nodes.len(),
        final(document)@.wf(),
        final(document).nodes@.len() == old(document).nodes@.len() + 1,
        final(document).nodes@.drop_last() == old(document).nodes@,
        final(document).nodes@.last().parent is None,
        final(document).nodes@.last().children@ == Seq::<usize>::empty(),
        ({
            &&& final(document).nodes@.last().data matches NodeData::Element(element)
            &&& element.local_name@ == tag@
            &&& element.type_id == interface_of(tag@)
            &&& element.type_id != ElementTypeId::HTMLUnknownElement ==> claims(
                element.type_id,
                tag@,
            )
            &&& element.type_id == ElementTypeId::HTMLUnknownElement ==> forall|id: ElementTypeId|
                !claims(id, tag@)
            &&& element.attrs@.len() == 0
            &&& element.frame is None
            &&& element.size is None
        }),
{
    let type_id = interface_for(tag);
    document.add_node(NodeData::Element(Element::new(type_id, tag.to_owned())))
}

/// A new node comes last: it holds the data that it was given, has no parent and no
/// children, and the nodes before it stay as they are.
pub proof fn law_new_nodes_come_last<C, K>(document: DocumentView<C, K>, data: NodeDataView<C, K>)
    ensures
        document.with_node(data).nodes.len() == document.nodes.len() + 1,
        document.with_node(data).nodes.drop_last() == document.nodes,
        document.with_node(data).nodes.last().data == data,
        document.with_node(data).nodes.last().parent is None,
        document.with_node(data).nodes.last().children.len() == 0,
{
    assert(document.with_node(data).nodes.drop_last() =~= document.nodes);
}

/// The element that is built for a tag has the tag as its name and the interface that
/// claims the tag, or else the one of unknown elements; it has no attribute and no frame.
pub proof fn law_built_elements_fit_their_tags<C, K>(document: DocumentView<C, K>, tag: Seq<char>)
    ensures
        ({
            let built = document.with_node(
                NodeDataView::Element(new_element(interface_of(tag), tag)),
            );
            &&& built.nodes.drop_last() == document.nodes
            &&& built.nodes.last().parent is None
            &&& built.nodes.last().children.len() == 0
            &&& built.nodes.last().data matches NodeDataView::Element(element)
            &&& element.local_name == tag
            &&& if exists|id: ElementTypeId| claims(id, tag) {
                claims(element.type_id, tag)
            } else {
                element.type_id == ElementTypeId::HTMLUnknownElement
            }
            &&& element.attrs.len() == 0
            &&& element.frame is None
            &&& element.size is None
        }),
{
    law_new_nodes_come_last(
        document,
        NodeDataView::Element(new_element(interface_of(tag), tag)),
    );
    law_interface_of_tag(interface_of(tag), tag);
}

/// A node that is appended to another one becomes its last child and has it as its parent;
/// no data change, no other parent and no other list of children.
pub proof fn law_new_children_come_last<C, K>(
    document: DocumentView<C, K>,
    parent: NodeHandle,
    child: NodeHandle,
    i: int,
)
    requires
        document.contains(parent),
        document.contains(child),
        0 <= i < document.nodes.len(),
    ensures
        ({
            let after = document.with_child(parent, child);
            &&& after.nodes.len() == document.nodes.len()
            &&& after.nodes[i].data == document.nodes[i].data
            &&& after.nodes[i].parent == (if i == child.index {
                Some(parent.index)
            } else {
                document.nodes[i].parent
            })
            &&& after.nodes[i].children == (if i == parent.index {
                document.nodes[i].children.push(child.index)
            } else {
                document.nodes[i].children
            })
        }),
{
}

/// Other data in one node change nothing else: not its place, and no other node.
pub proof fn law_new_data_stay_in_place<C, K>(
    document: DocumentView<C, K>,
    node: NodeHandle,
    data: NodeDataView<C, K>,
    i: int,
)
    requires
        document.contains(node),
        0 <= i < document.nodes.len(),
    ensures
        ({
            let after = document.with_data(node, data);
            &&& after.nodes.len() == document.nodes.len()
            &&& after.nodes[i].parent == document.nodes[i].parent
            &&& after.nodes[i].children == document.nodes[i].children
            &&& after.nodes[i].data == (if i == node.index {
                data
            } else {
                document.nodes[i].data
            })
        }),
{
}

/// The text of a node's children is the text of each of them in full, from first to last.
/// The text of a single child is that child's text.
pub proof fn law_text_of_children<C, K>(document: DocumentView<C, K>, node: NodeHandle)
    requires
        document.wf(),
        document.contains(node),
        document.only_text_in(node),
    ensures
        ({
            let children = document.nodes[node.index as int].children;
            &&& forall|k: int|
                0 <= k < children.len() ==> document.nodes[(
                #[trigger] children[k]) as int].data is Text
            &&& document.text_in(node) == children.map_values(
                |c: usize| document.nodes[c as int].data->Text_0,
            ).flatten()
            &&& children.len() == 1 ==> document.text_in(node)
                == document.nodes[children[0] as int].data->Text_0
        }),
{
    let children = document.nodes[node.index as int].children;
    let texts = document.texts_in(node);
    let pieces = children.map_values(|c: usize| document.nodes[c as int].data->Text_0);
    assert forall|k: int| 0 <= k < pieces.len() implies #[trigger] pieces[k] == texts[k] by {
        assert(document.nodes[document.nodes[node.index as int].children[k] as int].data is Text);
    }
    assert(pieces =~= texts);
    law_pieces_are_whole(texts);
    if children.len() == 1 {
        assert(texts =~= seq![texts[0]]);
        law_one_piece_is_the_text(texts[0]);
        assert(pieces[0] == texts[0]);
    }
}

/// What it means that a document is in order: no element gives an attribute twice, each
/// child is a node of the document that knows its parent, each node that has a parent
/// stands among that parent's children, and no list of children names a node twice.
pub proof fn law_documents_in_order<C, K>(document: DocumentView<C, K>)
    requires
        document.nodes.len() <= usize::MAX,
    ensures
        document.wf() <==> {
            &&& forall|i: int, k: int, l: int|
                0 <= i < document.nodes.len() && document.nodes[i].data is Element && 0 <= k < l
                    < document.nodes[i].data->Element_0.attrs.len() ==> (
                #[trigger] document.nodes[i].data->Element_0.attrs[k]).name != (
                #[trigger] document.nodes[i].data->Element_0.attrs[l]).name
            &&& forall|i: int, k: int|
                0 <= i < document.nodes.len() && 0 <= k < document.nodes[i].children.len() ==> {
                    let child = #[trigger] document.nodes[i].children[k];
                    child < document.nodes.len() && document.nodes[child as int].parent == Some(
                        i as usize,
                    )
                }
            &&& forall|c: int|
                0 <= c < document.nodes.len() && (#[trigger] document.nodes[c]).parent is Some ==> {
                    let parent = document.nodes[c].parent->Some_0;
                    parent < document.nodes.len() && exists|k: int|
                        0 <= k < document.nodes[parent as int].children.len()
                            && document.nodes[parent as int].children[k] == c
                }
            &&& forall|i: int, k: int, l: int|
                0 <= i < document.nodes.len() && 0 <= k < l < document.nodes[i].children.len() ==> (
                #[trigger] document.nodes[i].children[k]) != (
                #[trigger] document.nodes[i].children[l])
        },
{
    if document.wf() {
        assert forall|i: int, k: int, l: int|
            0 <= i < document.nodes.len() && document.nodes[i].data is Element && 0 <= k < l
                < document.nodes[i].data->Element_0.attrs.len() implies (
        #[trigger] document.nodes[i].data->Element_0.attrs[k]).name != (
        #[trigger] document.nodes[i].data->Element_0.attrs[l]).name by {
            assert(document.nodes[i].data.wf());
        }
        assert forall|c: int|
            0 <= c < document.nodes.len() && (
            #[trigger] document.nodes[c]).parent is Some implies {
            let parent = document.nodes[c].parent->Some_0;
            parent < document.nodes.len() && exists|k: int|
                0 <= k < document.nodes[parent as int].children.len()
                    && document.nodes[parent as int].children[k] == c
        } by {
            let parent = document.nodes[c].parent->Some_0;
            let children = document.nodes[parent as int].children;
            let k = choose|k: int| 0 <= k < children.len() && children[k] == c as usize;
            assert(document.nodes[parent as int].children[k] == c);
        }
        assert forall|i: int, k: int, l: int|
            0 <= i < document.nodes.len() && 0 <= k < l < document.nodes[i].children.len() implies (
        #[trigger] document.nodes[i].children[k]) != (
        #[trigger] document.nodes[i].children[l]) by {
            assert(document.nodes[i].children.no_duplicates());
        }
    }
}

/// Other data in a node keep the document in order.
pub proof fn lemma_with_data_wf<C, K>(
    document: DocumentView<C, K>,
    node: NodeHandle,
    data: NodeDataView<C, K>,
)
    requires
        document.wf(),
        document.contains(node),
        data.wf(),
    ensures
        document.with_data(node, data).wf(),
{
    let after = document.with_data(node, data);
    assert forall|i: int| 0 <= i < after.nodes.len() implies (#[trigger] after.nodes[i]).children
        == document.nodes[i].children && after.nodes[i].parent == document.nodes[i].parent
        && after.nodes[i].data.wf() by {
        assert(document.nodes[i].data.wf());
    }
    assert forall|i: int, k: int|
        0 <= i < after.nodes.len() && 0 <= k < after.nodes[i].children.len() implies {
        let child = #[trigger] after.nodes[i].children[k];
        child < after.nodes.len() && after.nodes[child as int].parent == Some(i as usize)
    } by {
        assert(document.nodes[i].children[k] == after.nodes[i].children[k]);
    }
    assert forall|c: int| 0 <= c < after.nodes.len() implies ((
    #[trigger] after.nodes[c]).parent matches Some(p) ==> p < after.nodes.len()
        && after.nodes[p as int].children.contains(c as usize)) by {
        assert(document.nodes[c].parent == after.nodes[c].parent);
    }
}

/// A new node keeps the document in order.
pub proof fn lemma_with_node_wf<C, K>(document: DocumentView<C, K>, data: NodeDataView<C, K>)
    requires
        document.wf(),
        data.wf(),
        document.nodes.len() < usize::MAX,
    ensures
        document.with_node(data).wf(),
{
    let after = document.with_node(data);
    assert forall|i: int, k: int|
        0 <= i < after.nodes.len() && 0 <= k < after.nodes[i].children.len() implies {
        let child = #[trigger] after.nodes[i].children[k];
        child < after.nodes.len() && after.nodes[child as int].parent == Some(i as usize)
    } by {
        assert(document.nodes[i].children[k] == after.nodes[i].children[k]);
    }
    assert forall|c: int| 0 <= c < after.nodes.len() implies ((
    #[trigger] after.nodes[c]).parent matches Some(p) ==> p < after.nodes.len()
        && after.nodes[p as int].children.contains(c as usize)) by {
        if c < document.nodes.len() {
            assert(after.nodes[c] == document.nodes[c]);
        }
    }
}

/// A new child keeps the document in order.
pub proof fn lemma_with_child_wf<C, K>(
    document: DocumentView<C, K>,
    parent: NodeHandle,
    child: NodeHandle,
)
    requires
        document.wf(),
        document.contains(parent),
        document.contains(child),
        document.nodes[child.index as int].parent is None,
    ensures
        document.with_child(parent, child).wf(),
{
    let after = document.with_child(parent, child);
    let p = parent.index as int;
    let old_children = document.nodes[p].children;
    assert(!old_children.contains(child.index)) by {
        if old_children.contains(child.index) {
            let k = choose|k: int| 0 <= k < old_children.len() && old_children[k] == child.index;
            assert(document.nodes[p].children[k] == child.index);
        }
    }
    assert forall|i: int, k: int|
        0 <= i < after.nodes.len() && 0 <= k < after.nodes[i].children.len() implies {
        let c = #[trigger] after.nodes[i].children[k];
        c < after.nodes.len() && after.nodes[c as int].parent == Some(i as usize)
    } by {
        if k < document.nodes[i].children.len() {
            assert(after.nodes[i].children[k] == document.nodes[i].children[k]);
        }
    }
    assert forall|c: int| 0 <= c < after.nodes.len() implies ((
    #[trigger] after.nodes[c]).parent matches Some(q) ==> q < after.nodes.len()
        && after.nodes[q as int].children.contains(c as usize)) by {
        if c == child.index {
            assert(after.nodes[p].children[old_children.len() as int] == c as usize);
        } else if document.nodes[c].parent is Some {
            let q = document.nodes[c].parent->Some_0 as int;
            let k = choose|k: int|
                0 <= k < document.nodes[q].children.len() && document.nodes[q].children[k]
                    == c as usize;
            assert(after.nodes[q].children[k] == c as usize);
        }
    }
}

} // verus!
