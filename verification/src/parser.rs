//! Building a document from the callbacks of the tokenizer, and finding the style
//! sheets, scripts, frames and images that it asks for.

use std::sync::Arc;
use vstd::prelude::*;

use crate::document::{
    build_element_from_tag, handle, Doctype, Document, DocumentView, Node, NodeData, NodeDataPtr,
    NodeDataView, NodeHandle,
};
use crate::element::{
    attr_value, attrs_set_all, attrs_view, law_tag_attributes_read_back, lemma_value_is_read,
    new_element, reads, Attribute, AttributeView, Element, ElementView, IFrameSize,
};
use crate::interface::{claims, interface_of, law_interfaces_by_name, ElementTypeId};
use crate::messages::{
    CSSMessage, CSSMessageView, HtmlDiscoveryMessage, HtmlDiscoveryMessageView, JSMessage,
    JSMessageView, PipelineId, StylesheetProvenance, StylesheetProvenanceView, SubpageId, Url,
};
use crate::text::eq_slice;

verus! {

/// A start tag.
#[derive(Debug, PartialEq, Eq)]
pub struct Tag {
    pub name: String,
    pub attributes: Vec<Attribute>,
}

/// The mathematical value of a [`Tag`].
#[verifier::ext_equal]
pub struct TagView {
    pub name: Seq<char>,
    pub attributes: Seq<AttributeView>,
}

impl View for Tag {
    type V = TagView;

    open spec fn view(&self) -> TagView {
        TagView { name: self.name@, attributes: attrs_view(self.attributes@) }
    }
}

/// The element that a start tag makes.
pub open spec fn element_of_tag<C, K>(tag: TagView) -> ElementView<C, K> {
    ElementView {
        attrs: attrs_set_all(Seq::empty(), tag.attributes),
        ..new_element(interface_of(tag.name), tag.name)
    }
}

/// What a new element asks for besides its place in the tree.
#[derive(Debug, PartialEq, Eq)]
pub enum Discovery {
    /// Nothing.
    Nothing,
    /// The style sheet at `href`, which is relative to `base`.
    Stylesheet { href: String, base: Url },
    /// A frame that shows `src`, which is relative to `base`.
    Frame { src: String, base: Url },
    /// An image, whose address is relative to `base`.
    Image { base: Url },
}

/// The mathematical value of a [`Discovery`].
#[verifier::ext_equal]
pub enum DiscoveryView {
    Nothing,
    Stylesheet { href: Seq<char>, base: Seq<char> },
    Frame { src: Seq<char>, base: Seq<char> },
    Image { base: Seq<char> },
}

impl View for Discovery {
    type V = DiscoveryView;

    open spec fn view(&self) -> DiscoveryView {
        match *self {
            Discovery::Nothing => DiscoveryView::Nothing,
            Discovery::Stylesheet { href, base } => {
                DiscoveryView::Stylesheet { href: href@, base: base@ }
            },
            Discovery::Frame { src, base } => DiscoveryView::Frame { src: src@, base: base@ },
            Discovery::Image { base } => DiscoveryView::Image { base: base@ },
        }
    }
}

/// What an element asks for: a `link` of the relation `stylesheet` its style sheet, an
/// `iframe` with a source a frame, an `img` an image.
pub open spec fn discovery_in<C, K>(element: ElementView<C, K>, base: Seq<char>) -> DiscoveryView {
    match element.type_id {
        ElementTypeId::HTMLLinkElement => {
            if attr_value(element.attrs, "rel"@) == Some("stylesheet"@) {
                match attr_value(element.attrs, "href"@) {
                    Some(href) => DiscoveryView::Stylesheet { href, base },
                    None => DiscoveryView::Nothing,
                }
            } else {
                DiscoveryView::Nothing
            }
        },
        ElementTypeId::HTMLIFrameElement => {
            match attr_value(element.attrs, "src"@) {
                Some(src) => DiscoveryView::Frame { src, base },
                None => DiscoveryView::Nothing,
            }
        },
        ElementTypeId::HTMLImageElement => DiscoveryView::Image { base },
        _ => DiscoveryView::Nothing,
    }
}

/// What an element asks for.
pub fn discover<C, K>(element: &Element<C, K>, base: &Url) -> (discovery: Discovery)
    ensures
        discovery@ == discovery_in(element@, base@),
        discovery is Stylesheet <==> element.type_id == ElementTypeId::HTMLLinkElement && reads(
            element.attrs@,
            "rel"@,
            "stylesheet"@,
        ) && exists|i: int|
            0 <= i < element.attrs@.len() && (#[trigger] element.attrs@[i]).name@ == "href"@,
        discovery is Frame <==> element.type_id == ElementTypeId::HTMLIFrameElement && exists|
            i: int,
        |
            0 <= i < element.attrs@.len() && (#[trigger] element.attrs@[i]).name@ == "src"@,
        discovery is Image <==> element.type_id == ElementTypeId::HTMLImageElement,
        match discovery {
            Discovery::Nothing => true,
            Discovery::Stylesheet { href, base: from } => reads(element.attrs@, "href"@, href@)
                && from == *base,
            Discovery::Frame { src, base: from } => reads(element.attrs@, "src"@, src@) && from
                == *base,
            Discovery::Image { base: from } => from == *base,
        },
{
    proof {
        lemma_value_is_read(element.attrs@, "rel"@);
        lemma_value_is_read(element.attrs@, "href"@);
        lemma_value_is_read(element.attrs@, "src"@);
    }
    match element.type_id {
        ElementTypeId::HTMLLinkElement => {
            match (element.get_attr("rel"), element.get_attr("href")) {
                (Some(rel), Some(href)) => {
                    if eq_slice(rel, "stylesheet") {
                        Discovery::Stylesheet { href: href.to_owned(), base: base.clone() }
                    } else {
                        Discovery::Nothing
                    }
                },
                _ => Discovery::Nothing,
            }
        },
        ElementTypeId::HTMLIFrameElement => {
            match element.get_attr("src") {
                Some(src) => Discovery::Frame { src: src.to_owned(), base: base.clone() },
                None => Discovery::Nothing,
            }
        },
        ElementTypeId::HTMLImageElement => Discovery::Image { base: base.clone() },
        _ => Discovery::Nothing,
    }
}

/// What the end of a `script` element asks for.
#[derive(Debug, PartialEq, Eq)]
pub enum ScriptAction {
    /// The script at `src`, which is relative to `base`, is to be loaded.
    Load { src: String, base: Url },
    /// The script stands in the page: this is to be told to the listener for scripts.
    Send(JSMessage),
}

/// The mathematical value of a [`ScriptAction`].
#[verifier::ext_equal]
pub enum ScriptActionView {
    Load { src: Seq<char>, base: Seq<char> },
    Send(JSMessageView),
}

impl View for ScriptAction {
    type V = ScriptActionView;

    open spec fn view(&self) -> ScriptActionView {
        match *self {
            ScriptAction::Load { src, base } => ScriptActionView::Load { src: src@, base: base@ },
            ScriptAction::Send(message) => ScriptActionView::Send(message@),
        }
    }
}

/// The page that a document is for.
#[derive(Debug, PartialEq, Eq)]
pub struct Page {
    pub id: PipelineId,
    /// The address of the page, with a flag that is set when the page is parsed.
    pub url: Option<(Url, bool)>,
}

/// The mathematical value of a [`Page`].
#[verifier::ext_equal]
pub struct PageView {
    pub id: PipelineId,
    pub url: Option<(Seq<char>, bool)>,
}

impl View for Page {
    type V = PageView;

    open spec fn view(&self) -> PageView {
        PageView {
            id: self.id,
            url: match self.url {
                Some((url, flag)) => Some((url@, flag)),
                None => None,
            },
        }
    }
}

/// How the tokenizer is to be set up.
#[derive(Debug, PartialEq, Eq)]
pub struct TokenizerSettings {
    pub encoding: String,
    pub fix_encoding: bool,
    pub document_node: NodeDataPtr,
    pub scripting: bool,
    pub styling: bool,
}

/// News of the page that is being loaded.
#[derive(Debug, PartialEq, Eq)]
pub enum ProgressMsg {
    /// Some more bytes.
    Payload(Vec<u8>),
    /// All bytes have come, or no more will.
    Done(Result<(), ()>),
}

/// The mathematical value of a [`ProgressMsg`].
#[verifier::ext_equal]
pub enum ProgressMsgView {
    Payload(Seq<u8>),
    Done(Result<(), ()>),
}

impl View for ProgressMsg {
    type V = ProgressMsgView;

    open spec fn view(&self) -> ProgressMsgView {
        match *self {
            ProgressMsg::Payload(data) => ProgressMsgView::Payload(data@),
            ProgressMsg::Done(outcome) => ProgressMsgView::Done(outcome),
        }
    }
}

/// What is to be done upon news of the page.
#[derive(Debug, PartialEq, Eq)]
pub enum LoadStep {
    /// The tokenizer gets these bytes.
    ParseChunk(Vec<u8>),
    /// Parsing fails, for this reason.
    Fail(String),
    /// The page is complete: the listeners are told so, first the one for style sheets.
    Finish(CSSMessage, JSMessage),
}

/// The mathematical value of a [`LoadStep`].
#[verifier::ext_equal]
pub enum LoadStepView {
    ParseChunk(Seq<u8>),
    Fail(Seq<char>),
    Finish(CSSMessageView, JSMessageView),
}

impl View for LoadStep {
    type V = LoadStepView;

    open spec fn view(&self) -> LoadStepView {
        match *self {
            LoadStep::ParseChunk(data) => LoadStepView::ParseChunk(data@),
            LoadStep::Fail(reason) => LoadStepView::Fail(reason@),
            LoadStep::Finish(css, js) => LoadStepView::Finish(css@, js@),
        }
    }
}

/// What the outcome of loading the page at `requested_url` leads to: both listeners are
/// told that the page is complete, or parsing fails.
pub open spec fn end_upon(requested_url: Seq<char>, outcome: Result<(), ()>) -> LoadStepView {
    match outcome {
        Ok(_) => LoadStepView::Finish(CSSMessageView::CSSTaskExit, JSMessageView::JSTaskExit),
        Err(_) => LoadStepView::Fail("Failed to load page URL "@ + requested_url),
    }
}

/// What news of the page at `requested_url` lead to.
pub open spec fn step_upon(requested_url: Seq<char>, news: ProgressMsgView) -> LoadStepView {
    match news {
        ProgressMsgView::Payload(data) => LoadStepView::ParseChunk(data),
        ProgressMsgView::Done(outcome) => end_upon(requested_url, outcome),
    }
}

/// A callback of the tokenizer that neither creates nor appends a node, nor ends an
/// element.
pub enum OtherCallback {
    RefNode(NodeDataPtr),
    UnrefNode(NodeDataPtr),
    InsertBefore { parent: NodeDataPtr, child: NodeDataPtr },
    RemoveChild { parent: NodeDataPtr, child: NodeDataPtr },
    CloneNode { node: NodeDataPtr, deep: bool },
    ReparentChildren { node: NodeDataPtr, new_parent: NodeDataPtr },
    GetParent { node: NodeDataPtr, element_only: bool },
    HasChildren(NodeDataPtr),
    FormAssociate { form: NodeDataPtr, node: NodeDataPtr },
    AddAttributes { node: NodeDataPtr, attributes: Seq<AttributeView> },
    SetQuirksMode,
    EncodingChange(Seq<char>),
}

/// What the tokenizer is answered.
pub enum Reply {
    /// Nothing.
    Done,
    /// A node, or zero for none.
    Node(NodeDataPtr),
    /// Yes or no.
    Answer(bool),
    /// That it cannot be done, for this reason.
    Failure(Seq<char>),
}

/// What the tokenizer is answered upon a callback, whatever the document holds.
pub open spec fn reply_to(callback: OtherCallback) -> Reply {
    match callback {
        OtherCallback::InsertBefore { parent, child } => Reply::Node(0),
        OtherCallback::RemoveChild { parent, child } => Reply::Node(0),
        OtherCallback::ReparentChildren { node, new_parent } => Reply::Node(0),
        OtherCallback::GetParent { node, element_only } => Reply::Node(0),
        OtherCallback::HasChildren(node) => Reply::Answer(false),
        OtherCallback::CloneNode { node, deep } => Reply::Failure("clone node unimplemented"@),
        _ => Reply::Done,
    }
}

/// The outcome of parsing. `P` is where the discoveries can be received.
#[derive(Debug, PartialEq, Eq)]
pub struct HtmlParserResult<P> {
    pub root: NodeHandle,
    pub discovery_port: P,
}

/// A parser at work.
#[derive(Debug, PartialEq, Eq)]
pub struct HtmlParser<C, K> {
    pub document: Document<C, K>,
    pub page: Page,
    pub root: NodeHandle,
    /// The address that was asked for.
    pub requested_url: Url,
    /// The address that the page came from in the end.
    pub url: Url,
    pub next_subpage_id: SubpageId,
    /// Whom the frames of the page tell of changes.
    pub constellation_chan: Arc<K>,
}

/// The mathematical value of a [`HtmlParser`].
#[verifier::ext_equal]
pub struct HtmlParserView<C, K> {
    pub document: DocumentView<C, K>,
    pub page: PageView,
    pub root: NodeHandle,
    pub requested_url: Seq<char>,
    pub url: Seq<char>,
    pub next_subpage_id: SubpageId,
    pub constellation_chan: Arc<K>,
}

impl<C, K> View for HtmlParser<C, K> {
    type V = HtmlParserView<C, K>;

    open spec fn view(&self) -> HtmlParserView<C, K> {
        HtmlParserView {
            document: self.document@,
            page: self.page@,
            root: self.root,
            requested_url: self.requested_url@,
            url: self.url@,
            next_subpage_id: self.next_subpage_id,
            constellation_chan: self.constellation_chan,
        }
    }
}

/// The number that follows a frame's number.
pub open spec fn next_id(id: SubpageId) -> SubpageId {
    if id.0 == usize::MAX {
        SubpageId(0)
    } else {
        SubpageId((id.0 + 1) as usize)
    }
}

/// The address that style sheets in the page are said to come from.
pub open spec fn inline_style_url() -> Seq<char> {
    "http://example.com/"@
}

impl<C, K> HtmlParserView<C, K> {
    /// The document is in order, the root is an `html` element of it, and the page has
    /// the address that the bytes came from.
    pub open spec fn wf(self) -> bool {
        &&& self.document.wf()
        &&& self.document.contains(self.root)
        &&& self.document.is_element(self.root)
        &&& self.document.element(self.root).type_id == ElementTypeId::HTMLHtmlElement
        &&& self.document.element(self.root).local_name == "html"@
        &&& self.page.url == Some((self.url, true))
    }

    /// The parser with one more node in its document.
    pub open spec fn with_node(self, data: NodeDataView<C, K>) -> Self {
        HtmlParserView { document: self.document.with_node(data), ..self }
    }

    /// How the tokenizer names the next node to be created.
    pub open spec fn next_ptr(self) -> nat {
        self.document.nodes.len() + 1
    }

    /// Whether a node can be appended to another one: both are there, and the child has
    /// no parent.
    pub open spec fn may_append(self, parent: NodeDataPtr, child: NodeDataPtr) -> bool {
        &&& self.document.contains_ptr(parent)
        &&& self.document.contains_ptr(child)
        &&& self.document.at(child).parent is None
    }

    /// Whether a node can be a script that ends: it is an element, and it names a source
    /// or holds nothing but text.
    pub open spec fn may_end_script(self, script: NodeDataPtr) -> bool {
        &&& self.document.contains_ptr(script)
        &&& self.document.is_element(handle(script))
        &&& attr_value(self.document.element(handle(script)).attrs, "src"@) is None
            ==> self.document.only_text_in(handle(script))
    }

    /// Whether a node can be a style sheet that ends: it holds nothing but text.
    pub open spec fn may_end_style(self, style: NodeDataPtr) -> bool {
        &&& self.document.contains_ptr(style)
        &&& self.document.only_text_in(handle(style))
    }

    /// The parser after a child was appended.
    pub open spec fn with_child(self, parent: NodeDataPtr, child: NodeDataPtr) -> Self {
        HtmlParserView {
            document: self.document.with_child(handle(parent), handle(child)),
            ..self
        }
    }

    /// The parser after the frame of an `iframe` was given its address, its number and
    /// the sending end for its size.
    pub open spec fn with_frame(self, node: NodeDataPtr, url: Seq<char>, future_chan: C) -> Self {
        HtmlParserView {
            document: self.document.with_data(
                handle(node),
                NodeDataView::Element(
                    ElementView {
                        frame: Some(url),
                        size: Some(
                            IFrameSize {
                                pipeline_id: self.page.id,
                                subpage_id: self.next_subpage_id,
                                future_chan: Some(future_chan),
                                constellation_chan: self.constellation_chan,
                            },
                        ),
                        ..self.document.element(handle(node))
                    },
                ),
            ),
            next_subpage_id: next_id(self.next_subpage_id),
            ..self
        }
    }

    /// What the end of a script element asks for: to load the source that it names, or
    /// else to run the text in it.
    pub open spec fn script_action(self, script: NodeDataPtr) -> ScriptActionView {
        match attr_value(self.document.element(handle(script)).attrs, "src"@) {
            Some(src) => ScriptActionView::Load { src, base: self.url },
            None => ScriptActionView::Send(
                JSMessageView::JSTaskNewInlineScript(
                    self.document.text_in(handle(script)),
                    self.url,
                ),
            ),
        }
    }

    /// What the end of a style element tells the listener for style sheets.
    pub open spec fn style_message(self, style: NodeDataPtr) -> CSSMessageView {
        CSSMessageView::CSSTaskNewFile(
            StylesheetProvenanceView::InlineProvenance(
                inline_style_url(),
                self.document.text_in(handle(style)),
            ),
        )
    }
}

/// What it means that a parser is in order: its document is, the root is an `html` element
/// of the document, and the page has the address that the bytes came from.
pub proof fn law_parsers_in_order<C, K>(parser: HtmlParserView<C, K>)
    ensures
        parser.wf() <==> {
            &&& parser.document.wf()
            &&& parser.root.index < parser.document.nodes.len()
            &&& parser.document.nodes[parser.root.index as int].data matches NodeDataView::Element(
                root,
            )
            &&& root.type_id == ElementTypeId::HTMLHtmlElement
            &&& root.local_name == "html"@
            &&& parser.page.url == Some((parser.url, true))
        },
{
}

/// Starts parsing the page at `url`, which came from `final_url` in the end: records
/// that address for the page before anything is parsed, and creates the root element.
pub fn parse_html<C, K>(
    document: Document<C, K>,
    page: Page,
    url: Url,
    final_url: Url,
    next_subpage_id: SubpageId,
    constellation_chan: Arc<K>,
) -> (parser: HtmlParser<C, K>)
    requires
        document@.wf(),
    ensures
        parser@ == (HtmlParserView {
            document: document@.with_node(
                NodeDataView::Element(new_element(ElementTypeId::HTMLHtmlElement, "html"@)),
            ),
            page: PageView { id: page.id, url: Some((final_url@, true)) },
            root: NodeHandle { index: document@.nodes.len() as usize },
            requested_url: url@,
            url: final_url@,
            next_subpage_id,
            constellation_chan,
        }),
        parser@.wf(),
        parser.page.id == page.id,
        parser.page.url == Some((final_url, true)),
        parser.root.index == document.nodes@.len(),
        parser.requested_url == url,
        parser.url == final_url,
        parser.next_subpage_id == next_subpage_id,
        parser.constellation_chan == constellation_chan,
        parser.document.nodes@.len() == document.nodes@.len() + 1,
        parser.document.nodes@.drop_last() == document.nodes@,
        parser.document.nodes@.last().parent is None,
        parser.document.nodes@.last().children@ == Seq::<usize>::empty(),
        ({
            &&& parser.document.nodes@.last().data matches NodeData::Element(element)
            &&& element.type_id == ElementTypeId::HTMLHtmlElement
            &&& element.local_name@ == "html"@
            &&& element.attrs@.len() == 0
            &&& element.frame is None
            &&& element.size is None
        }),
{
    let mut document = document;
    let page = Page { id: page.id, url: Some((final_url.clone(), true)) };
    let root = document.add_node(
        NodeData::Element(Element::new(ElementTypeId::HTMLHtmlElement, "html".to_owned())),
    );
    HtmlParser {
        document,
        page,
        root,
        requested_url: url,
        url: final_url,
        next_subpage_id,
        constellation_chan,
    }
}

impl<C, K> HtmlParser<C, K> {
    /// How the tokenizer is to be set up: for UTF-8, with scripts and styles, below the
    /// root.
    pub fn settings(&self) -> (settings: TokenizerSettings)
        requires
            self@.wf(),
        ensures
            settings.encoding@ == "UTF-8"@,
            !settings.fix_encoding,
            settings.document_node == self.root.index + 1,
            settings.scripting,
            settings.styling,
    {
        TokenizerSettings {
            encoding: "UTF-8".to_owned(),
            fix_encoding: false,
            document_node: self.root.to_hubbub_node(),
            scripting: true,
            styling: true,
        }
    }

    /// Creates a comment.
    pub fn create_comment(&mut self, data: String) -> (node: NodeDataPtr)
        requires
            old(self)@.wf(),
        ensures
            final(self)@ == old(self)@.with_node(NodeDataView::Comment(data@)),
            node == old(self)@.next_ptr(),
            final(self)@.wf(),
            *final(self) == (HtmlParser { document: final(self).document, ..*old(self) }),
            final(self).document.nodes@.len() == old(self).document.nodes@.len() + 1,
            final(self).document.nodes@.drop_last() == old(self).document.nodes@,
            final(self).document.nodes@.last().data == NodeData::<C, K>::Comment(data),
            final(self).document.nodes@.last().parent is None,
            final(self).document.nodes@.last().children@ == Seq::<usize>::empty(),
            node == old(self).document.nodes@.len() + 1,
    {
        let node = self.document.add_node(NodeData::Comment(data));
        node.to_hubbub_node()
    }

    /// Creates a document type declaration.
    pub fn create_doctype(&mut self, doctype: Doctype) -> (node: NodeDataPtr)
        requires
            old(self)@.wf(),
        ensures
            final(self)@ == old(self)@.with_node(NodeDataView::DocumentType(doctype@)),
            node == old(self)@.next_ptr(),
            final(self)@.wf(),
            *final(self) == (HtmlParser { document: final(self).document, ..*old(self) }),
            final(self).document.nodes@.len() == old(self).document.nodes@.len() + 1,
            final(self).document.nodes@.drop_last() == old(self).document.nodes@,
            final(self).document.nodes@.last().data == NodeData::<C, K>::DocumentType(doctype),
            final(self).document.nodes@.last().parent is None,
            final(self).document.nodes@.last().children@ == Seq::<usize>::empty(),
            node == old(self).document.nodes@.len() + 1,
    {
        let node = self.document.add_node(NodeData::DocumentType(doctype));
        node.to_hubbub_node()
    }

    /// Creates a text.
    pub fn create_text(&mut self, data: String) -> (node: NodeDataPtr)
        requires
            old(self)@.wf(),
        ensures
            final(self)@ == old(self)@.with_node(NodeDataView::Text(data@)),
            node == old(self)@.next_ptr(),
            final(self)@.wf(),
            *final(self) == (HtmlParser { document: final(self).document, ..*old(self) }),
            final(self).document.nodes@.len() == old(self).document.nodes@.len() + 1,
            final(self).document.nodes@.drop_last() == old(self).document.nodes@,
            final(self).document.nodes@.last().data == NodeData::<C, K>::Text(data),
            final(self).document.nodes@.last().parent is None,
            final(self).document.nodes@.last().children@ == Seq::<usize>::empty(),
            node == old(self).document.nodes@.len() + 1,
    {
        let node = self.document.add_node(NodeData::Text(data));
        node.to_hubbub_node()
    }

    /// Creates the element for a start tag, with the tag's attributes, and says what it
    /// asks for.
    pub fn create_element(&mut self, tag: Tag) -> (created: (NodeDataPtr, Discovery))
        requires
            old(self)@.wf(),
        ensures
            final(self)@ == old(self)@.with_node(NodeDataView::Element(element_of_tag(tag@))),
            created.0 == old(self)@.next_ptr(),
            created.1@ == discovery_in(element_of_tag::<C, K>(tag@), old(self)@.url),
            final(self)@.wf(),
            *final(self) == (HtmlParser { document: final(self).document, ..*old(self) }),
            created.0 == old(self).document.nodes@.len() + 1,
            final(self).document.nodes@.len() == old(self).document.nodes@.len() + 1,
            final(self).document.nodes@.drop_last() == old(self).document.nodes@,
            final(self).document.nodes@.last().parent is None,
            final(self).document.nodes@.last().children@ == Seq::<usize>::empty(),
            ({
                &&& final(self).document.nodes@.last().data matches NodeData::Element(element)
                &&& element.local_name@ == tag.name@
                &&& element.type_id == interface_of(tag.name@)
                &&& element.type_id != ElementTypeId::HTMLUnknownElement ==> claims(
                    element.type_id,
                    tag.name@,
                )
                &&& element.type_id == ElementTypeId::HTMLUnknownElement ==> forall|
                    id: ElementTypeId,
                |
                    !claims(id, tag.name@)
                &&& element.frame is None
                &&& element.size is None
                &&& forall|name: Seq<char>, value: Seq<char>| #[trigger]
                    reads(element.attrs@, name, value) <==> reads(tag.attributes@, name, value)
                &&& forall|i: int, j: int|
                    0 <= i < j < element.attrs@.len() ==> (#[trigger] element.attrs@[i]).name@ != (
                    #[trigger] element.attrs@[j]).name@
            }),
            created.1 is Stylesheet <==> tag.name@ == "link"@ && reads(
                tag.attributes@,
                "rel"@,
                "stylesheet"@,
            ) && exists|i: int|
                0 <= i < tag.attributes@.len() && (#[trigger] tag.attributes@[i]).name@ == "href"@,
            created.1 is Frame <==> tag.name@ == "iframe"@ && exists|i: int|
                0 <= i < tag.attributes@.len() && (#[trigger] tag.attributes@[i]).name@ == "src"@,
            created.1 is Image <==> tag.name@ == "img"@,
            match created.1 {
                Discovery::Nothing => true,
                Discovery::Stylesheet { href, base } => reads(tag.attributes@, "href"@, href@)
                    && base == old(self).url,
                Discovery::Frame { src, base } => reads(tag.attributes@, "src"@, src@) && base
                    == old(self).url,
                Discovery::Image { base } => base == old(self).url,
            },
    {
        let ghost before = self@;
        let ghost entry = *self;
        let ghost given = tag@.attributes;
        let node = build_element_from_tag(tag.name.as_str(), &mut self.document);
        let ghost bare = new_element(interface_of(tag@.name), tag@.name);
        let mut i: usize = 0;
        assert(given.take(0) =~= Seq::empty());
        assert(self@ =~= before.with_node(
            NodeDataView::Element(
                ElementView { attrs: attrs_set_all(Seq::empty(), given.take(0)), ..bare },
            ),
        ));
        while i < tag.attributes.len()
            invariant
                i <= tag.attributes.len(),
                given == attrs_view(tag.attributes@),
                node.index == before.document.nodes.len(),
                self.document@.wf(),
                *self == (HtmlParser { document: self.document, ..entry }),
                node.index == entry.document.nodes@.len(),
                self.document.nodes@.len() == entry.document.nodes@.len() + 1,
                self.document.nodes@.drop_last() == entry.document.nodes@,
                self@ == before.with_node(
                    NodeDataView::Element(
                        ElementView {
                            attrs: attrs_set_all(Seq::empty(), given.take(i as int)),
                            ..bare
                        },
                    ),
                ),
            decreases tag.attributes.len() - i,
        {
            let attr = &tag.attributes[i];
            assert(given.take(i + 1).drop_last() =~= given.take(i as int));
            assert(given.take(i + 1).last() == attr@);
            let ghost prior = self.document.nodes@;
            self.document.set_attr(node, attr.name.clone(), attr.value.clone());
            i = i + 1;
            assert(self.document.nodes@.drop_last() =~= prior.drop_last());
            assert(self@.document.nodes =~= before.with_node(
                NodeDataView::Element(
                    ElementView {
                        attrs: attrs_set_all(Seq::empty(), given.take(i as int)),
                        ..bare
                    },
                ),
            ).document.nodes);
        }
        assert(given.take(i as int) =~= given);
        let mut discovery = Discovery::Nothing;
        if let NodeData::Element(element) = &self.document.nodes[node.index].data {
            assert(self@.document.nodes[node.index as int].data == NodeDataView::Element(element@));
            discovery = discover(element, &self.url);
            proof {
                lemma_element_of_tag(*element, tag);
            }
        } else {
            assert(self@.document.is_element(node));
        }
        (node.to_hubbub_node(), discovery)
    }

    /// Gives the frame of an `iframe` element its address and the next number, and tells
    /// of the discovery. Of the two ends over which the size of the frame is to go, the
    /// element keeps the sending one and the message takes the other.
    pub fn discover_frame<S, F>(
        &mut self,
        node: NodeDataPtr,
        url: Url,
        oneshot: (C, F),
        sandboxed: bool,
    ) -> (message: HtmlDiscoveryMessage<S, F>)
        requires
            old(self)@.wf(),
            old(self)@.document.contains_ptr(node),
            old(self)@.document.is_element(handle(node)),
            old(self)@.document.element(handle(node)).type_id == ElementTypeId::HTMLIFrameElement,
        ensures
            final(self)@ == old(self)@.with_frame(node, url@, oneshot.0),
            message@ == HtmlDiscoveryMessageView::<S, F>::HtmlDiscoveredIFrame(
                (url@, old(self)@.next_subpage_id, oneshot.1, sandboxed),
            ),
            final(self)@.wf(),
            message == HtmlDiscoveryMessage::<S, F>::HtmlDiscoveredIFrame(
                (url, old(self).next_subpage_id, oneshot.1, sandboxed),
            ),
            *final(self) == (HtmlParser {
                document: final(self).document,
                next_subpage_id: final(self).next_subpage_id,
                ..*old(self)
            }),
            final(self).next_subpage_id.0 == (if old(self).next_subpage_id.0 == usize::MAX {
                0
            } else {
                old(self).next_subpage_id.0 + 1
            }),
            final(self).document.nodes@ == old(self).document.nodes@.update(
                node - 1,
                Node {
                    data: NodeData::Element(
                        Element {
                            frame: Some(url),
                            size: Some(
                                IFrameSize {
                                    pipeline_id: old(self).page.id,
                                    subpage_id: old(self).next_subpage_id,
                                    future_chan: Some(oneshot.0),
                                    constellation_chan: old(self).constellation_chan,
                                },
                            ),
                            ..old(self).document.nodes@[node - 1].data->Element_0
                        },
                    ),
                    ..old(self).document.nodes@[node - 1]
                },
            ),
    {
        let subpage_id = self.next_subpage_id;
        self.next_subpage_id = SubpageId(subpage_id.0.wrapping_add(1));
        let (future_chan, size_future) = oneshot;
        let size = IFrameSize {
            pipeline_id: self.page.id,
            subpage_id,
            future_chan: Some(future_chan),
            constellation_chan: self.constellation_chan.clone(),
        };
        self.document.set_frame(NodeHandle::from_hubbub_node(node), url.clone(), size);
        HtmlDiscoveryMessage::HtmlDiscoveredIFrame((url, subpage_id, size_future, sandboxed))
    }

    /// Appends a node that has no parent to the children of another one.
    pub fn append_child(&mut self, parent: NodeDataPtr, child: NodeDataPtr) -> (node: NodeDataPtr)
        requires
            old(self)@.wf(),
            old(self)@.may_append(parent, child),
        ensures
            final(self)@ == old(self)@.with_child(parent, child),
            node == child,
            final(self)@.wf(),
            *final(self) == (HtmlParser { document: final(self).document, ..*old(self) }),
            final(self).document.nodes@.len() == old(self).document.nodes@.len(),
            forall|i: int|
                0 <= i < old(self).document.nodes@.len() ==> (
                #[trigger] final(self).document.nodes@[i]).data
                    == old(self).document.nodes@[i].data,
            forall|i: int|
                0 <= i < old(self).document.nodes@.len() ==> (
                #[trigger] final(self).document.nodes@[i]).parent == (if i == child - 1 {
                    Some((parent - 1) as usize)
                } else {
                    old(self).document.nodes@[i].parent
                }),
            forall|i: int|
                0 <= i < old(self).document.nodes@.len() ==> (
                #[trigger] final(self).document.nodes@[i]).children@ == (if i == parent - 1 {
                    old(self).document.nodes@[i].children@.push((child - 1) as usize)
                } else {
                    old(self).document.nodes@[i].children@
                }),
    {
        self.document.add_child(
            NodeHandle::from_hubbub_node(parent),
            NodeHandle::from_hubbub_node(child),
        );
        child
    }

    /// Whether a node can be appended to another one.
    pub fn may_append(&self, parent: NodeDataPtr, child: NodeDataPtr) -> (may: bool)
        ensures
            may == self@.may_append(parent, child),
            may <==> 1 <= parent <= self.document.nodes@.len() && 1 <= child
                <= self.document.nodes@.len() && self.document.nodes@[child - 1].parent is None,
    {
        let n = self.document.nodes.len();
        1 <= parent && parent <= n && 1 <= child && child <= n && self.document.nodes[child
            - 1].parent.is_none()
    }

    /// Whether a node can be a script that ends.
    pub fn may_end_script(&self, script: NodeDataPtr) -> (may: bool)
        requires
            self@.wf(),
        ensures
            may == self@.may_end_script(script),
            may <==> {
                &&& 1 <= script <= self.document.nodes@.len()
                &&& self.document.nodes@[script - 1].data matches NodeData::Element(element)
                &&& {
                    ||| exists|i: int|
                        0 <= i < element.attrs@.len() && (#[trigger] element.attrs@[i]).name@
                            == "src"@
                    ||| forall|k: int|
                        0 <= k < self.document.nodes@[script - 1].children@.len()
                            ==> self.document.nodes@[(
                        #[trigger] self.document.nodes@[script - 1].children@[k]) as int].data
                            is Text
                }
            },
    {
        if script == 0 || script > self.document.nodes.len() {
            return false;
        }
        let node = NodeHandle::from_hubbub_node(script);
        if let NodeData::Element(element) = &self.document.nodes[node.index].data {
            assert(self@.document.nodes[node.index as int].data == NodeDataView::Element(element@));
            if element.get_attr("src").is_some() {
                true
            } else {
                self.document.only_text_in(node)
            }
        } else {
            assert(!self@.document.is_element(node));
            false
        }
    }

    /// Whether a node can be a style sheet that ends.
    pub fn may_end_style(&self, style: NodeDataPtr) -> (may: bool)
        requires
            self@.wf(),
        ensures
            may == self@.may_end_style(style),
            may <==> 1 <= style <= self.document.nodes@.len() && forall|k: int|
                0 <= k < self.document.nodes@[style - 1].children@.len() ==> self.document.nodes@[(
                #[trigger] self.document.nodes@[style - 1].children@[k]) as int].data is Text,
    {
        if style == 0 || style > self.document.nodes.len() {
            return false;
        }
        self.document.only_text_in(NodeHandle::from_hubbub_node(style))
    }

    /// The end of a `script` element.
    pub fn complete_script(&self, script: NodeDataPtr) -> (action: ScriptAction)
        requires
            self@.wf(),
            self@.may_end_script(script),
        ensures
            action@ == self@.script_action(script),
            action is Load <==> exists|i: int|
                0 <= i < self.document.nodes@[script - 1].data->Element_0.attrs@.len() && (
                #[trigger] self.document.nodes@[script - 1].data->Element_0.attrs@[i]).name@
                    == "src"@,
            match action {
                ScriptAction::Load { src, base } => reads(
                    self.document.nodes@[script - 1].data->Element_0.attrs@,
                    "src"@,
                    src@,
                ) && base == self.url,
                ScriptAction::Send(message) => {
                    &&& message matches JSMessage::JSTaskNewInlineScript(data, url)
                    &&& url == self.url
                    &&& data@ == self.document.nodes@[script - 1].children@.map_values(
                        |c: usize| self.document.nodes@[c as int].data->Text_0@,
                    ).flatten()
                },
            },
    {
        let node = NodeHandle::from_hubbub_node(script);
        let mut src: Option<String> = None;
        if let NodeData::Element(element) = &self.document.nodes[node.index].data {
            assert(self@.document.nodes[node.index as int].data == NodeDataView::Element(element@));
            src = match element.get_attr("src") {
                Some(src) => Some(src.to_owned()),
                None => None,
            };
        } else {
            assert(self@.document.is_element(node));
        }
        match src {
            Some(src) => ScriptAction::Load { src, base: self.url.clone() },
            None => ScriptAction::Send(
                JSMessage::JSTaskNewInlineScript(self.document.child_text(node), self.url.clone()),
            ),
        }
    }

    /// The end of a `style` element: the text in it goes to the listener for style
    /// sheets.
    pub fn complete_style(&self, style: NodeDataPtr) -> (message: CSSMessage)
        requires
            self@.wf(),
            self@.may_end_style(style),
        ensures
            message@ == self@.style_message(style),
            ({
                &&& message matches CSSMessage::CSSTaskNewFile(provenance)
                &&& provenance matches StylesheetProvenance::InlineProvenance(url, data)
                &&& url.text@ == "http://example.com/"@
                &&& data@ == self.document.nodes@[style - 1].children@.map_values(
                    |c: usize| self.document.nodes@[c as int].data->Text_0@,
                ).flatten()
            }),
    {
        let url = Url { text: "http://example.com/".to_owned() };
        let data = self.document.child_text(NodeHandle::from_hubbub_node(style));
        CSSMessage::CSSTaskNewFile(StylesheetProvenance::InlineProvenance(url, data))
    }

    /// What news of the page leads to.
    pub fn progress(&self, news: ProgressMsg) -> (step: LoadStep)
        ensures
            step@ == step_upon(self@.requested_url, news@),
            match news {
                ProgressMsg::Payload(data) => step == LoadStep::ParseChunk(data),
                ProgressMsg::Done(Ok(_)) => step == LoadStep::Finish(
                    CSSMessage::CSSTaskExit,
                    JSMessage::JSTaskExit,
                ),
                ProgressMsg::Done(Err(_)) => step matches LoadStep::Fail(reason) && reason@
                    == "Failed to load page URL "@ + self.requested_url.text@,
            },
    {
        match news {
            ProgressMsg::Payload(data) => LoadStep::ParseChunk(data),
            ProgressMsg::Done(Err(_)) => LoadStep::Fail(
                "Failed to load page URL ".to_owned().concat(self.requested_url.text.as_str()),
            ),
            ProgressMsg::Done(Ok(_)) => {
                LoadStep::Finish(CSSMessage::CSSTaskExit, JSMessage::JSTaskExit)
            },
        }
    }

    /// Ends parsing: gives out the root, and the document and the page as they are now.
    pub fn finish<P>(self, discovery_port: P) -> (finished: (
        HtmlParserResult<P>,
        Document<C, K>,
        Page,
    ))
        ensures
            finished.0 == (HtmlParserResult { root: self.root, discovery_port }),
            finished.1 == self.document,
            finished.2 == self.page,
    {
        (HtmlParserResult { root: self.root, discovery_port }, self.document, self.page)
    }

    /// A node came into use: nothing to do.
    pub fn ref_node(&mut self, _node: NodeDataPtr)
        ensures
            *final(self) == *old(self),
    {
    }

    /// A node went out of use: nothing to do.
    pub fn unref_node(&mut self, _node: NodeDataPtr)
        ensures
            *final(self) == *old(self),
    {
    }

    /// Inserting before a sibling is not done: no node comes back.
    pub fn insert_before(&mut self, _parent: NodeDataPtr, _child: NodeDataPtr) -> (node:
        NodeDataPtr)
        ensures
            *final(self) == *old(self),
            node == 0,
            Reply::Node(node) == reply_to(
                OtherCallback::InsertBefore { parent: _parent, child: _child },
            ),
    {
        0
    }

    /// Removing a child is not done: no node comes back.
    pub fn remove_child(&mut self, _parent: NodeDataPtr, _child: NodeDataPtr) -> (node: NodeDataPtr)
        ensures
            *final(self) == *old(self),
            node == 0,
            Reply::Node(node) == reply_to(
                OtherCallback::RemoveChild { parent: _parent, child: _child },
            ),
    {
        0
    }

    /// Cloning a node cannot be done: parsing fails, for the reason that comes back.
    pub fn clone_node(&mut self, _node: NodeDataPtr, _deep: bool) -> (reason: String)
        ensures
            *final(self) == *old(self),
            reason@ == "clone node unimplemented"@,
            Reply::Failure(reason@) == reply_to(
                OtherCallback::CloneNode { node: _node, deep: _deep },
            ),
    {
        "clone node unimplemented".to_owned()
    }

    /// Moving children to another parent is not done: no node comes back.
    pub fn reparent_children(&mut self, _node: NodeDataPtr, _new_parent: NodeDataPtr) -> (node:
        NodeDataPtr)
        ensures
            *final(self) == *old(self),
            node == 0,
            Reply::Node(node) == reply_to(
                OtherCallback::ReparentChildren { node: _node, new_parent: _new_parent },
            ),
    {
        0
    }

    /// The tokenizer is told of no parent, whatever the document holds.
    pub fn get_parent(&self, _node: NodeDataPtr, _element_only: bool) -> (parent: NodeDataPtr)
        ensures
            parent == 0,
            Reply::Node(parent) == reply_to(
                OtherCallback::GetParent { node: _node, element_only: _element_only },
            ),
    {
        0
    }

    /// The tokenizer is told of no children, whatever the document holds.
    pub fn has_children(&self, _node: NodeDataPtr) -> (answer: bool)
        ensures
            !answer,
            Reply::Answer(answer) == reply_to(OtherCallback::HasChildren(_node)),
    {
        false
    }

    /// An element belongs to a form: nothing to do.
    pub fn form_associate(&mut self, _form: NodeDataPtr, _node: NodeDataPtr)
        ensures
            *final(self) == *old(self),
    {
    }

    /// A second tag gives an element more attributes: they are not taken over.
    pub fn add_attributes(&mut self, _node: NodeDataPtr, _attributes: Vec<Attribute>)
        ensures
            *final(self) == *old(self),
    {
    }

    /// The document is in quirks mode: nothing to do.
    pub fn set_quirks_mode<M>(&mut self, _mode: M)
        ensures
            *final(self) == *old(self),
    {
    }

    /// The page is in another encoding: nothing to do.
    pub fn encoding_change(&mut self, _encname: String)
        ensures
            *final(self) == *old(self),
    {
    }
}

/// An element whose view is the element of a tag reads as the tag does.
proof fn lemma_element_of_tag<C, K>(element: Element<C, K>, tag: Tag)
    requires
        element@ == element_of_tag::<C, K>(tag@),
    ensures
        forall|name: Seq<char>, value: Seq<char>| #[trigger]
            reads(element.attrs@, name, value) <==> reads(tag.attributes@, name, value),
        forall|i: int, j: int|
            0 <= i < j < element.attrs@.len() ==> (#[trigger] element.attrs@[i]).name@ != (
            #[trigger] element.attrs@[j]).name@,
        (exists|i: int|
            0 <= i < element.attrs@.len() && (#[trigger] element.attrs@[i]).name@ == "href"@) <==> (
        exists|i: int|
            0 <= i < tag.attributes@.len() && (#[trigger] tag.attributes@[i]).name@ == "href"@),
        (exists|i: int|
            0 <= i < element.attrs@.len() && (#[trigger] element.attrs@[i]).name@ == "src"@) <==> (
        exists|i: int|
            0 <= i < tag.attributes@.len() && (#[trigger] tag.attributes@[i]).name@ == "src"@),
        element.type_id == ElementTypeId::HTMLLinkElement <==> tag.name@ == "link"@,
        element.type_id == ElementTypeId::HTMLIFrameElement <==> tag.name@ == "iframe"@,
        element.type_id == ElementTypeId::HTMLImageElement <==> tag.name@ == "img"@,
{
    assert forall|name: Seq<char>, value: Seq<char>| #[trigger]
        reads(element.attrs@, name, value) <==> reads(tag.attributes@, name, value) by {
        law_tag_attributes_read_back(tag@.attributes, name);
        lemma_value_is_read(element.attrs@, name);
        lemma_value_is_read(tag.attributes@, name);
    }
    assert forall|i: int, j: int| 0 <= i < j < element.attrs@.len() implies (
    #[trigger] element.attrs@[i]).name@ != (#[trigger] element.attrs@[j]).name@ by {
        law_tag_attributes_read_back(tag@.attributes, Seq::empty());
        assert(element@.attrs[i].name != element@.attrs[j].name);
    }
    law_tag_attributes_read_back(tag@.attributes, "href"@);
    law_tag_attributes_read_back(tag@.attributes, "src"@);
    lemma_value_is_read(element.attrs@, "href"@);
    lemma_value_is_read(element.attrs@, "src"@);
    lemma_value_is_read(tag.attributes@, "href"@);
    lemma_value_is_read(tag.attributes@, "src"@);
    law_interfaces_by_name(tag.name@);
}

/// What the listener for style sheets is told of a `link` whose address is `url`.
pub fn stylesheet_at(url: Url) -> (message: CSSMessage)
    ensures
        message == CSSMessage::CSSTaskNewFile(StylesheetProvenance::UrlProvenance(url)),
{
    CSSMessage::CSSTaskNewFile(StylesheetProvenance::UrlProvenance(url))
}

/// What the listener for scripts is told of a `script` whose address is `url`.
pub fn script_at(url: Url) -> (message: JSMessage)
    ensures
        message == JSMessage::JSTaskNewFile(url),
{
    JSMessage::JSTaskNewFile(url)
}

} // verus!
