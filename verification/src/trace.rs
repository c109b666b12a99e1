//! Whole parses: what holds of any sequence of callbacks.

use vstd::prelude::*;

use crate::css_listener::{css_messages, law_sheets_come_back_in_order, listen, send_back};
use crate::document::{
    handle, law_new_nodes_come_last, law_text_of_children, lemma_with_child_wf,
    lemma_with_data_wf, lemma_with_node_wf, DoctypeView, NodeDataPtr, NodeDataView, NodeHandle,
    NodeView,
};
use crate::element::{
    attr_value, law_tag_attributes_are_taken_over, law_tag_attributes_read_back,
};
use crate::forest::{
    is_forest, is_in, law_new_children_keep_a_forest, law_new_data_keep_a_forest,
    law_new_nodes_keep_a_forest,
};
use crate::interface::{claims, interface_of, law_interface_of_tag, ElementTypeId};
use crate::js_listener::{
    addresses_in, is_text, law_scripts_come_back_in_order, law_what_is_not_text_ends_the_listener,
    loads, loads_text, no_exit_in, scripts_of, sent_back, LoadedView,
};
use crate::messages::{
    CSSMessageView, HtmlDiscoveryMessageView, JSMessageView, StylesheetProvenanceView, SubpageId,
};
use crate::parser::{
    discovery_in, element_of_tag, next_id, reply_to, step_upon, DiscoveryView,
    HtmlParserView, LoadStepView, OtherCallback, ProgressMsgView, Reply, ScriptActionView, TagView,
};
use crate::text::law_pieces_are_whole;

verus! {

/// What is decided outside the parser.
pub struct Outside<C, F> {
    /// The address that a text stands for next to a base address.
    pub make_url: spec_fn(Seq<char>, Seq<char>) -> Seq<char>,
    /// Whether the `iframe` element of a tag is sandboxed.
    pub sandboxed: spec_fn(TagView) -> bool,
    /// The two ends over which the size of the frame of a node goes: the sending one, and
    /// the one that gives the size.
    pub oneshot: spec_fn(NodeDataPtr) -> (C, F),
}

/// Something that happens to a parser.
pub enum ParserEvent {
    /// A comment is created.
    CreateComment(Seq<char>),
    /// A document type declaration is created.
    CreateDoctype(DoctypeView),
    /// An element is created, and it gets what it asks for.
    CreateElement(TagView),
    /// A text is created.
    CreateText(Seq<char>),
    /// A node is appended to another one.
    AppendChild { parent: NodeDataPtr, child: NodeDataPtr },
    /// A script element ends.
    CompleteScript(NodeDataPtr),
    /// A style element ends.
    CompleteStyle(NodeDataPtr),
    /// Any other callback.
    Other(OtherCallback),
    /// The last byte of the page has been parsed.
    Finish,
}

/// Whether the event can happen to the parser as it is.
pub open spec fn allowed<C, K>(parser: HtmlParserView<C, K>, event: ParserEvent) -> bool {
    match event {
        ParserEvent::AppendChild { parent, child } => parser.may_append(parent, child),
        ParserEvent::CompleteScript(node) => parser.may_end_script(node),
        ParserEvent::CompleteStyle(node) => parser.may_end_style(node),
        // A callback that fails ends the parse.
        ParserEvent::Other(callback) => !(reply_to(callback) is Failure),
        _ => true,
    }
}

/// What the tokenizer is answered upon an event.
pub open spec fn replied<C, K>(parser: HtmlParserView<C, K>, event: ParserEvent) -> Reply {
    match event {
        ParserEvent::CreateComment(_) => Reply::Node(parser.next_ptr() as usize),
        ParserEvent::CreateDoctype(_) => Reply::Node(parser.next_ptr() as usize),
        ParserEvent::CreateElement(_) => Reply::Node(parser.next_ptr() as usize),
        ParserEvent::CreateText(_) => Reply::Node(parser.next_ptr() as usize),
        ParserEvent::AppendChild { parent, child } => Reply::Node(child),
        ParserEvent::Other(callback) => reply_to(callback),
        _ => Reply::Done,
    }
}

/// The parser after the element for a tag was created and, where it is an `iframe` with
/// a source, its frame was given an address, a number and the sending end for its size.
pub open spec fn with_tag<C, K, F>(
    parser: HtmlParserView<C, K>,
    tag: TagView,
    outside: Outside<C, F>,
) -> HtmlParserView<C, K> {
    let created = parser.with_node(NodeDataView::Element(element_of_tag(tag)));
    match discovery_in(element_of_tag::<C, K>(tag), parser.url) {
        DiscoveryView::Frame { src, base } => created.with_frame(
            parser.next_ptr() as usize,
            (outside.make_url)(src, base),
            (outside.oneshot)(parser.next_ptr() as usize).0,
        ),
        _ => created,
    }
}

/// The parser after an event.
pub open spec fn after<C, K, F>(
    parser: HtmlParserView<C, K>,
    event: ParserEvent,
    outside: Outside<C, F>,
) -> HtmlParserView<C, K> {
    match event {
        ParserEvent::CreateComment(text) => parser.with_node(NodeDataView::Comment(text)),
        ParserEvent::CreateDoctype(doctype) => {
            parser.with_node(NodeDataView::DocumentType(doctype))
        },
        ParserEvent::CreateElement(tag) => with_tag(parser, tag, outside),
        ParserEvent::CreateText(text) => parser.with_node(NodeDataView::Text(text)),
        ParserEvent::AppendChild { parent, child } => parser.with_child(parent, child),
        _ => parser,
    }
}

/// What the listener for style sheets is told upon an event.
pub open spec fn css_told<C, K, F>(
    parser: HtmlParserView<C, K>,
    event: ParserEvent,
    outside: Outside<C, F>,
) -> Seq<CSSMessageView> {
    match event {
        ParserEvent::CreateElement(tag) => match discovery_in(
            element_of_tag::<C, K>(tag),
            parser.url,
        ) {
            DiscoveryView::Stylesheet { href, base } => seq![
                CSSMessageView::CSSTaskNewFile(
                    StylesheetProvenanceView::UrlProvenance((outside.make_url)(href, base)),
                ),
            ],
            _ => Seq::empty(),
        },
        ParserEvent::CompleteStyle(node) => seq![parser.style_message(node)],
        ParserEvent::Finish => seq![CSSMessageView::CSSTaskExit],
        _ => Seq::empty(),
    }
}

/// What the listener for scripts is told upon an event.
pub open spec fn js_told<C, K, F>(
    parser: HtmlParserView<C, K>,
    event: ParserEvent,
    outside: Outside<C, F>,
) -> Seq<JSMessageView> {
    match event {
        ParserEvent::CompleteScript(node) => match parser.script_action(node) {
            ScriptActionView::Send(message) => seq![message],
            ScriptActionView::Load { src, base } => seq![
                JSMessageView::JSTaskNewFile((outside.make_url)(src, base)),
            ],
        },
        ParserEvent::Finish => seq![JSMessageView::JSTaskExit],
        _ => Seq::empty(),
    }
}

/// A frame that was discovered: its address, its number, what will give its size, and
/// whether it is sandboxed.
pub struct FrameView<F> {
    pub url: Seq<char>,
    pub subpage_id: SubpageId,
    pub size_future: F,
    pub sandboxed: bool,
}

/// The frames that are told of upon an event.
pub open spec fn frames_told<C, K, F>(
    parser: HtmlParserView<C, K>,
    event: ParserEvent,
    outside: Outside<C, F>,
) -> Seq<FrameView<F>> {
    match event {
        ParserEvent::CreateElement(tag) => match discovery_in(
            element_of_tag::<C, K>(tag),
            parser.url,
        ) {
            DiscoveryView::Frame { src, base } => seq![
                FrameView {
                    url: (outside.make_url)(src, base),
                    subpage_id: parser.next_subpage_id,
                    size_future: (outside.oneshot)(parser.next_ptr() as usize).1,
                    sandboxed: (outside.sandboxed)(tag),
                },
            ],
            _ => Seq::empty(),
        },
        _ => Seq::empty(),
    }
}

/// The parser after a sequence of events.
pub open spec fn run<C, K, F>(
    parser: HtmlParserView<C, K>,
    events: Seq<ParserEvent>,
    outside: Outside<C, F>,
) -> HtmlParserView<C, K>
    decreases events.len(),
{
    if events.len() == 0 {
        parser
    } else {
        after(run(parser, events.drop_last(), outside), events.last(), outside)
    }
}

/// Whether each event can happen when it does.
pub open spec fn allowed_run<C, K, F>(
    parser: HtmlParserView<C, K>,
    events: Seq<ParserEvent>,
    outside: Outside<C, F>,
) -> bool
    decreases events.len(),
{
    events.len() > 0 ==> allowed_run(parser, events.drop_last(), outside) && allowed(
        run(parser, events.drop_last(), outside),
        events.last(),
    )
}

/// What the listener for style sheets is told over a sequence of events.
pub open spec fn css_told_in<C, K, F>(
    parser: HtmlParserView<C, K>,
    events: Seq<ParserEvent>,
    outside: Outside<C, F>,
) -> Seq<CSSMessageView>
    decreases events.len(),
{
    if events.len() == 0 {
        Seq::empty()
    } else {
        css_told_in(parser, events.drop_last(), outside) + css_told(
            run(parser, events.drop_last(), outside),
            events.last(),
            outside,
        )
    }
}

/// What the listener for scripts is told over a sequence of events.
pub open spec fn js_told_in<C, K, F>(
    parser: HtmlParserView<C, K>,
    events: Seq<ParserEvent>,
    outside: Outside<C, F>,
) -> Seq<JSMessageView>
    decreases events.len(),
{
    if events.len() == 0 {
        Seq::empty()
    } else {
        js_told_in(parser, events.drop_last(), outside) + js_told(
            run(parser, events.drop_last(), outside),
            events.last(),
            outside,
        )
    }
}

/// The frames that are told of over a sequence of events.
pub open spec fn frames_told_in<C, K, F>(
    parser: HtmlParserView<C, K>,
    events: Seq<ParserEvent>,
    outside: Outside<C, F>,
) -> Seq<FrameView<F>>
    decreases events.len(),
{
    if events.len() == 0 {
        Seq::empty()
    } else {
        frames_told_in(parser, events.drop_last(), outside) + frames_told(
            run(parser, events.drop_last(), outside),
            events.last(),
            outside,
        )
    }
}

/// Whether the page is not complete yet in any of these events.
pub open spec fn unfinished(events: Seq<ParserEvent>) -> bool {
    forall|i: int| 0 <= i < events.len() ==> !(#[trigger] events[i] is Finish)
}

/// Whether a tag is `<link rel="stylesheet" href="..">`.
pub open spec fn links_stylesheet(tag: TagView) -> bool {
    &&& tag.name == "link"@
    &&& attr_value(tag.attributes, "rel"@) == Some("stylesheet"@)
    &&& attr_value(tag.attributes, "href"@) is Some
}

/// Whether a tag is `<iframe src="..">`.
pub open spec fn opens_frame(tag: TagView) -> bool {
    &&& tag.name == "iframe"@
    &&& attr_value(tag.attributes, "src"@) is Some
}

/// The style sheets that the page asks for over a sequence of events: those that a tag
/// links to, and the text of each style element.
pub open spec fn sheets_found_in<C, K, F>(
    parser: HtmlParserView<C, K>,
    events: Seq<ParserEvent>,
    outside: Outside<C, F>,
) -> Seq<StylesheetProvenanceView>
    decreases events.len(),
{
    if events.len() == 0 {
        Seq::empty()
    } else {
        let before = sheets_found_in(parser, events.drop_last(), outside);
        match events.last() {
            ParserEvent::CreateElement(tag) => if links_stylesheet(tag) {
                before.push(
                    StylesheetProvenanceView::UrlProvenance(
                        (outside.make_url)(
                            attr_value(tag.attributes, "href"@)->Some_0,
                            parser.url,
                        ),
                    ),
                )
            } else {
                before
            },
            ParserEvent::CompleteStyle(node) => before.push(
                StylesheetProvenanceView::InlineProvenance(
                    "http://example.com/"@,
                    run(parser, events.drop_last(), outside).document.text_in(handle(node)),
                ),
            ),
            _ => before,
        }
    }
}

/// The scripts that the page asks for over a sequence of events: where a script element
/// ends, the one that its source names, or else its text.
pub open spec fn scripts_found_in<C, K, F>(
    parser: HtmlParserView<C, K>,
    events: Seq<ParserEvent>,
    outside: Outside<C, F>,
) -> Seq<JSMessageView>
    decreases events.len(),
{
    if events.len() == 0 {
        Seq::empty()
    } else {
        let before = scripts_found_in(parser, events.drop_last(), outside);
        let document = run(parser, events.drop_last(), outside).document;
        match events.last() {
            ParserEvent::CompleteScript(node) => before.push(
                match attr_value(document.element(handle(node)).attrs, "src"@) {
                    Some(src) => JSMessageView::JSTaskNewFile(
                        (outside.make_url)(src, parser.url),
                    ),
                    None => JSMessageView::JSTaskNewInlineScript(
                        document.text_in(handle(node)),
                        parser.url,
                    ),
                },
            ),
            _ => before,
        }
    }
}

/// The frames that the page asks for over a sequence of events, with the addresses that
/// their tags give, numbered from `parser.next_subpage_id` on.
pub open spec fn frames_found_in<C, K, F>(
    parser: HtmlParserView<C, K>,
    events: Seq<ParserEvent>,
    outside: Outside<C, F>,
) -> Seq<FrameView<F>>
    decreases events.len(),
{
    if events.len() == 0 {
        Seq::empty()
    } else {
        let before = frames_found_in(parser, events.drop_last(), outside);
        match events.last() {
            ParserEvent::CreateElement(tag) => if opens_frame(tag) {
                before.push(
                    FrameView {
                        url: (outside.make_url)(
                            attr_value(tag.attributes, "src"@)->Some_0,
                            parser.url,
                        ),
                        subpage_id: id_after(parser.next_subpage_id, before.len() as int),
                        size_future: (outside.oneshot)(
                            run(parser, events.drop_last(), outside).next_ptr() as usize,
                        ).1,
                        sandboxed: (outside.sandboxed)(tag),
                    },
                )
            } else {
                before
            },
            _ => before,
        }
    }
}

/// A node as it can be later: the same thing, with the same parent if it had one, and
/// with the children it had, in that order, before any others.
pub open spec fn grown<C, K>(before: NodeView<C, K>, later: NodeView<C, K>) -> bool {
    &&& later.data == before.data
    &&& before.parent is Some ==> later.parent == before.parent
    &&& before.children.len() <= later.children.len()
    &&& before.children == later.children.take(before.children.len() as int)
}

/// A new element asks for a style sheet exactly where its tag links to one, for a frame
/// exactly where its tag is an `iframe` with a source, and for an image exactly where its
/// tag is an `img`.
pub proof fn law_what_tags_ask_for<C, K>(tag: TagView, base: Seq<char>)
    ensures
        links_stylesheet(tag) <==> {
            &&& tag.name == "link"@
            &&& attr_value(tag.attributes, "rel"@) == Some("stylesheet"@)
            &&& attr_value(tag.attributes, "href"@) is Some
        },
        opens_frame(tag) <==> tag.name == "iframe"@ && attr_value(tag.attributes, "src"@) is Some,
        discovery_in(element_of_tag::<C, K>(tag), base) == (if links_stylesheet(tag) {
            DiscoveryView::Stylesheet { href: attr_value(tag.attributes, "href"@)->Some_0, base }
        } else if opens_frame(tag) {
            DiscoveryView::Frame { src: attr_value(tag.attributes, "src"@)->Some_0, base }
        } else if tag.name == "img"@ {
            DiscoveryView::Image { base }
        } else {
            DiscoveryView::Nothing
        }),
{
    law_tag_attributes_read_back(tag.attributes, "rel"@);
    law_tag_attributes_read_back(tag.attributes, "href"@);
    law_tag_attributes_read_back(tag.attributes, "src"@);
    law_interface_of_tag(ElementTypeId::HTMLLinkElement, tag.name);
    law_interface_of_tag(ElementTypeId::HTMLIFrameElement, tag.name);
    law_interface_of_tag(ElementTypeId::HTMLImageElement, tag.name);
    law_interface_of_tag(interface_of(tag.name), tag.name);
    let id = interface_of(tag.name);
    if id == ElementTypeId::HTMLLinkElement || id == ElementTypeId::HTMLIFrameElement || id
        == ElementTypeId::HTMLImageElement {
        assert(claims(id, tag.name));
    }
}

/// Whatever happens, the document stays in order; the root, the address of the page and
/// its recorded address stay what they are.
pub proof fn law_parsing_keeps_order<C, K, F>(
    parser: HtmlParserView<C, K>,
    events: Seq<ParserEvent>,
    outside: Outside<C, F>,
)
    requires
        parser.wf(),
        allowed_run(parser, events, outside),
        parser.document.nodes.len() + events.len() <= usize::MAX,
    ensures
        run(parser, events, outside).wf(),
        run(parser, events, outside).root == parser.root,
        run(parser, events, outside).url == parser.url,
        run(parser, events, outside).requested_url == parser.requested_url,
        run(parser, events, outside).page == parser.page,
        run(parser, events, outside).document.nodes.len() <= parser.document.nodes.len()
            + events.len(),
    decreases events.len(),
{
    if events.len() > 0 {
        law_parsing_keeps_order(parser, events.drop_last(), outside);
        lemma_after_wf(run(parser, events.drop_last(), outside), events.last(), outside);
    }
}

/// One event keeps the parser in order.
proof fn lemma_after_wf<C, K, F>(
    parser: HtmlParserView<C, K>,
    event: ParserEvent,
    outside: Outside<C, F>,
)
    requires
        parser.wf(),
        allowed(parser, event),
        after(parser, event, outside).document.nodes.len() <= usize::MAX,
    ensures
        after(parser, event, outside).wf(),
{
    match event {
        ParserEvent::CreateComment(text) => {
            lemma_with_node_wf(parser.document, NodeDataView::Comment(text));
        },
        ParserEvent::CreateDoctype(doctype) => {
            lemma_with_node_wf(parser.document, NodeDataView::DocumentType(doctype));
        },
        ParserEvent::CreateElement(tag) => {
            let data = NodeDataView::Element(element_of_tag(tag));
            law_tag_attributes_read_back(tag.attributes, "src"@);
            lemma_with_node_wf(parser.document, data);
            let created = parser.with_node(data);
            if discovery_in(element_of_tag::<C, K>(tag), parser.url) is Frame {
                let fresh = parser.next_ptr() as usize;
                let last = after(parser, event, outside).document.at(fresh).data;
                lemma_with_data_wf(created.document, handle(fresh), last);
            }
        },
        ParserEvent::CreateText(text) => {
            lemma_with_node_wf(parser.document, NodeDataView::Text(text));
        },
        ParserEvent::AppendChild { parent, child } => {
            lemma_with_child_wf(parser.document, handle(parent), handle(child));
        },
        _ => {},
    }
}

/// Whether no node is ever appended to itself or to a node below it.
pub open spec fn appends_outside_itself<C, K, F>(
    parser: HtmlParserView<C, K>,
    events: Seq<ParserEvent>,
    outside: Outside<C, F>,
) -> bool
    decreases events.len(),
{
    events.len() > 0 ==> {
        &&& appends_outside_itself(parser, events.drop_last(), outside)
        &&& events.last() matches ParserEvent::AppendChild { parent, child } ==> !is_in(
            run(parser, events.drop_last(), outside).document,
            handle(parent).index as int,
            handle(child).index as int,
        )
    }
}

/// The document stays a forest as long as no node is appended to itself or to a node
/// below it.
pub proof fn law_parsing_keeps_a_forest<C, K, F>(
    parser: HtmlParserView<C, K>,
    events: Seq<ParserEvent>,
    outside: Outside<C, F>,
)
    requires
        parser.wf(),
        is_forest(parser.document),
        allowed_run(parser, events, outside),
        appends_outside_itself(parser, events, outside),
        parser.document.nodes.len() + events.len() <= usize::MAX,
    ensures
        is_forest(run(parser, events, outside).document),
    decreases events.len(),
{
    if events.len() > 0 {
        let before = run(parser, events.drop_last(), outside);
        law_parsing_keeps_order(parser, events.drop_last(), outside);
        law_parsing_keeps_a_forest(parser, events.drop_last(), outside);
        match events.last() {
            ParserEvent::CreateComment(text) => {
                law_new_nodes_keep_a_forest(before.document, NodeDataView::Comment(text));
            },
            ParserEvent::CreateDoctype(doctype) => {
                law_new_nodes_keep_a_forest(before.document, NodeDataView::DocumentType(doctype));
            },
            ParserEvent::CreateElement(tag) => {
                let data = NodeDataView::Element(element_of_tag(tag));
                law_new_nodes_keep_a_forest(before.document, data);
                if discovery_in(element_of_tag::<C, K>(tag), before.url) is Frame {
                    let fresh = before.next_ptr() as usize;
                    let last = run(parser, events, outside).document.at(fresh).data;
                    law_new_data_keep_a_forest(
                        before.document.with_node(data),
                        handle(fresh),
                        last,
                    );
                }
            },
            ParserEvent::CreateText(text) => {
                law_new_nodes_keep_a_forest(before.document, NodeDataView::Text(text));
            },
            ParserEvent::AppendChild { parent, child } => {
                law_new_children_keep_a_forest(before.document, handle(parent), handle(child));
            },
            _ => {},
        }
    }
}

/// The address of the page is the same at any time.
proof fn lemma_url_stays<C, K, F>(
    parser: HtmlParserView<C, K>,
    events: Seq<ParserEvent>,
    outside: Outside<C, F>,
)
    ensures
        run(parser, events, outside).url == parser.url,
    decreases events.len(),
{
    if events.len() > 0 {
        lemma_url_stays(parser, events.drop_last(), outside);
    }
}

/// Nothing that was built is undone: no node goes away or turns into another, none
/// changes its parent or loses a child.
pub proof fn law_documents_only_grow<C, K, F>(
    parser: HtmlParserView<C, K>,
    events: Seq<ParserEvent>,
    outside: Outside<C, F>,
    node: NodeHandle,
)
    requires
        parser.wf(),
        allowed_run(parser, events, outside),
        parser.document.nodes.len() + events.len() <= usize::MAX,
        parser.document.contains(node),
    ensures
        run(parser, events, outside).document.contains(node),
        grown(
            parser.document.nodes[node.index as int],
            run(parser, events, outside).document.nodes[node.index as int],
        ),
    decreases events.len(),
{
    let i = node.index as int;
    let before = parser.document.nodes[i];
    if events.len() == 0 {
        assert(before.children =~= before.children.take(before.children.len() as int));
    } else {
        let middle = run(parser, events.drop_last(), outside);
        law_parsing_keeps_order(parser, events.drop_last(), outside);
        law_documents_only_grow(parser, events.drop_last(), outside, node);
        let now = middle.document.nodes[i];
        let later = run(parser, events, outside).document.nodes[i];
        assert(now.children.len() <= later.children.len());
        assert(later.children.take(now.children.len() as int) =~= now.children);
        assert(later.children.take(before.children.len() as int) =~= now.children.take(
            before.children.len() as int,
        ));
    }
}

/// The listener for style sheets is told of the sheets that the page asks for, in the
/// order in which they are found, and then once, last, that the page is complete.
pub proof fn law_css_listener_is_told<C, K, F>(
    parser: HtmlParserView<C, K>,
    events: Seq<ParserEvent>,
    outside: Outside<C, F>,
)
    requires
        unfinished(events),
    ensures
        css_told_in(parser, events.push(ParserEvent::Finish), outside) == css_messages(
            sheets_found_in(parser, events, outside),
        ),
{
    let all = events.push(ParserEvent::Finish);
    assert(all.drop_last() =~= events);
    lemma_css_told_of_sheets(parser, events, outside);
    assert(css_told_in(parser, all, outside) =~= css_messages(
        sheets_found_in(parser, events, outside),
    ));
}

/// Before the page is complete the listener for style sheets is told of sheets only.
proof fn lemma_css_told_of_sheets<C, K, F>(
    parser: HtmlParserView<C, K>,
    events: Seq<ParserEvent>,
    outside: Outside<C, F>,
)
    requires
        unfinished(events),
    ensures
        css_told_in(parser, events, outside) == sheets_found_in(
            parser,
            events,
            outside,
        ).map_values(|p: StylesheetProvenanceView| CSSMessageView::CSSTaskNewFile(p)),
    decreases events.len(),
{
    let tell = |p: StylesheetProvenanceView| CSSMessageView::CSSTaskNewFile(p);
    if events.len() > 0 {
        let rest = events.drop_last();
        assert forall|i: int| 0 <= i < rest.len() implies !(#[trigger] rest[i] is Finish) by {
            assert(rest[i] == events[i]);
        }
        assert(!(events[events.len() - 1] is Finish));
        lemma_css_told_of_sheets(parser, rest, outside);
        lemma_url_stays(parser, rest, outside);
        if let ParserEvent::CreateElement(tag) = events.last() {
            law_what_tags_ask_for::<C, K>(tag, parser.url);
        }
    }
    assert(css_told_in(parser, events, outside) =~= sheets_found_in(
        parser,
        events,
        outside,
    ).map_values(tell));
}

/// A page gets back one style sheet for each one that it asks for, in the order in which
/// they are found, and the listener is done then.
pub proof fn law_style_sheets_of_a_page<C, K, F, P, S>(
    parser: HtmlParserView<C, K>,
    events: Seq<ParserEvent>,
    outside: Outside<C, F>,
    spawn: spec_fn(int, StylesheetProvenanceView) -> P,
    sheet: spec_fn(P) -> S,
)
    requires
        unfinished(events),
    ensures
        listen(css_told_in(parser, events.push(ParserEvent::Finish), outside), spawn).exited,
        send_back::<P, S, F>(
            listen(css_told_in(parser, events.push(ParserEvent::Finish), outside), spawn),
            sheet,
        ) == Seq::new(
            sheets_found_in(parser, events, outside).len(),
            |i: int|
                HtmlDiscoveryMessageView::<S, F>::HtmlDiscoveredStyle(
                    sheet(spawn(i, sheets_found_in(parser, events, outside)[i])),
                ),
        ),
{
    law_css_listener_is_told(parser, events, outside);
    law_sheets_come_back_in_order::<P, S, F>(
        sheets_found_in(parser, events, outside),
        spawn,
        sheet,
    );
}

/// The listener for scripts is told of the scripts that the page asks for, in the order
/// in which they are found, and then once, last, that the page is complete.
pub proof fn law_js_listener_is_told<C, K, F>(
    parser: HtmlParserView<C, K>,
    events: Seq<ParserEvent>,
    outside: Outside<C, F>,
)
    requires
        unfinished(events),
    ensures
        js_told_in(parser, events.push(ParserEvent::Finish), outside) == scripts_found_in(
            parser,
            events,
            outside,
        ).push(JSMessageView::JSTaskExit),
        no_exit_in(scripts_found_in(parser, events, outside)),
{
    let all = events.push(ParserEvent::Finish);
    assert(all.drop_last() =~= events);
    lemma_js_told_of_scripts(parser, events, outside);
    assert(js_told_in(parser, all, outside) =~= scripts_found_in(parser, events, outside).push(
        JSMessageView::JSTaskExit,
    ));
}

/// Before the page is complete the listener for scripts is told of scripts only.
proof fn lemma_js_told_of_scripts<C, K, F>(
    parser: HtmlParserView<C, K>,
    events: Seq<ParserEvent>,
    outside: Outside<C, F>,
)
    requires
        unfinished(events),
    ensures
        js_told_in(parser, events, outside) == scripts_found_in(parser, events, outside),
        no_exit_in(scripts_found_in(parser, events, outside)),
    decreases events.len(),
{
    if events.len() > 0 {
        let rest = events.drop_last();
        assert forall|i: int| 0 <= i < rest.len() implies !(#[trigger] rest[i] is Finish) by {
            assert(rest[i] == events[i]);
        }
        assert(!(events[events.len() - 1] is Finish));
        lemma_js_told_of_scripts(parser, rest, outside);
        lemma_url_stays(parser, rest, outside);
    }
    assert(js_told_in(parser, events, outside) =~= scripts_found_in(parser, events, outside));
}

/// A page gets back its scripts all at once, in the order in which they are found: those
/// in the page as they are, the others as they were loaded, without those that could not
/// be. What is loaded is text here.
pub proof fn law_scripts_of_a_page<C, K, F, S>(
    parser: HtmlParserView<C, K>,
    events: Seq<ParserEvent>,
    outside: Outside<C, F>,
    load: spec_fn(int, Seq<char>) -> LoadedView,
)
    requires
        unfinished(events),
        loads_text(scripts_found_in(parser, events, outside), load),
    ensures
        sent_back::<S, F>(js_told_in(parser, events.push(ParserEvent::Finish), outside), load)
            == seq![
            HtmlDiscoveryMessageView::<S, F>::HtmlDiscoveredScript(
                scripts_of(scripts_found_in(parser, events, outside), load),
            ),
        ],
        loads(js_told_in(parser, events.push(ParserEvent::Finish), outside), load) == addresses_in(
            scripts_found_in(parser, events, outside),
        ),
{
    law_js_listener_is_told(parser, events, outside);
    law_scripts_come_back_in_order::<S, F>(scripts_found_in(parser, events, outside), load);
}

/// A page gets back no scripts at all where one that was loaded is not text.
pub proof fn law_a_script_that_is_not_text_fails_the_page<C, K, F, S>(
    parser: HtmlParserView<C, K>,
    events: Seq<ParserEvent>,
    outside: Outside<C, F>,
    load: spec_fn(int, Seq<char>) -> LoadedView,
    k: int,
)
    requires
        unfinished(events),
        0 <= k < scripts_found_in(parser, events, outside).len(),
        loads_text(scripts_found_in(parser, events, outside).take(k), load),
        scripts_found_in(parser, events, outside)[k] matches JSMessageView::JSTaskNewFile(url)
            && !is_text(load(k, url)),
    ensures
        sent_back::<S, F>(js_told_in(parser, events.push(ParserEvent::Finish), outside), load)
            == Seq::<HtmlDiscoveryMessageView<S, F>>::empty(),
{
    let found = scripts_found_in(parser, events, outside);
    law_js_listener_is_told(parser, events, outside);
    let before = found.take(k);
    let url = found[k]->JSTaskNewFile_0;
    let later = found.skip(k + 1).push(JSMessageView::JSTaskExit);
    assert forall|i: int| 0 <= i < before.len() implies !(#[trigger] before[i] is JSTaskExit) by {
        assert(before[i] == found[i]);
    }
    assert(found.push(JSMessageView::JSTaskExit) =~= before.push(
        JSMessageView::JSTaskNewFile(url),
    ) + later);
    law_what_is_not_text_ends_the_listener::<S, F>(before, url, later, load);
}

/// The number `k` places after a frame's number.
pub open spec fn id_after(id: SubpageId, k: int) -> SubpageId {
    SubpageId(((id.0 + k) % (usize::MAX + 1)) as usize)
}

/// One frame is told of for each `iframe` with a source, in the order of the tags, and
/// the frames are numbered one after the other from the number that the parser was given.
pub proof fn law_frames_of_a_page<C, K, F>(
    parser: HtmlParserView<C, K>,
    events: Seq<ParserEvent>,
    outside: Outside<C, F>,
)
    ensures
        frames_told_in(parser, events, outside) == frames_found_in(parser, events, outside),
        run(parser, events, outside).next_subpage_id == id_after(
            parser.next_subpage_id,
            frames_found_in(parser, events, outside).len() as int,
        ),
    decreases events.len(),
{
    let id = parser.next_subpage_id;
    let told = frames_told_in(parser, events, outside);
    if events.len() == 0 {
        vstd::arithmetic::div_mod::lemma_small_mod(id.0 as nat, (usize::MAX + 1) as nat);
    } else {
        let rest = events.drop_last();
        let before = frames_found_in(parser, rest, outside);
        law_frames_of_a_page(parser, rest, outside);
        lemma_url_stays(parser, rest, outside);
        lemma_next_id_after(id, before.len() as int);
        if let ParserEvent::CreateElement(tag) = events.last() {
            law_what_tags_ask_for::<C, K>(tag, parser.url);
            lemma_link_is_no_iframe(tag);
        }
    }
    assert(told =~= frames_found_in(parser, events, outside));
}

/// No tag links to a style sheet and opens a frame.
proof fn lemma_link_is_no_iframe(tag: TagView)
    ensures
        !(links_stylesheet(tag) && opens_frame(tag)),
{
    reveal_strlit("link");
    reveal_strlit("iframe");
    assert("link"@.len() != "iframe"@.len());
}

/// The next number is one place further.
proof fn lemma_next_id_after(id: SubpageId, k: int)
    requires
        k >= 0,
    ensures
        next_id(id_after(id, k)) == id_after(id, k + 1),
{
    let n = usize::MAX + 1;
    vstd::arithmetic::div_mod::lemma_add_mod_noop_right(1, id.0 + k, n);
    vstd::arithmetic::div_mod::lemma_mod_bound(id.0 + k, n);
    let m = (id.0 + k) % n;
    assert((1 + m) % n == (1 + (id.0 + k)) % n);
    if m == usize::MAX {
        vstd::arithmetic::div_mod::lemma_mod_self_0(n);
    } else {
        vstd::arithmetic::div_mod::lemma_small_mod((1 + m) as nat, n as nat);
    }
}

/// Where one frame comes after another in the list, its number is further by as many
/// places.
proof fn lemma_frame_number<C, K, F>(
    parser: HtmlParserView<C, K>,
    events: Seq<ParserEvent>,
    outside: Outside<C, F>,
    k: int,
)
    requires
        0 <= k < frames_found_in(parser, events, outside).len(),
    ensures
        frames_found_in(parser, events, outside)[k].subpage_id == id_after(
            parser.next_subpage_id,
            k,
        ),
    decreases events.len(),
{
    if events.len() > 0 && k < frames_found_in(parser, events.drop_last(), outside).len() {
        lemma_frame_number(parser, events.drop_last(), outside, k);
    }
}

/// No two frames of a page have the same number, as long as there are numbers left.
pub proof fn law_frames_have_their_own_numbers<C, K, F>(
    parser: HtmlParserView<C, K>,
    events: Seq<ParserEvent>,
    outside: Outside<C, F>,
    i: int,
    j: int,
)
    requires
        frames_told_in(parser, events, outside).len() <= usize::MAX + 1,
        0 <= i < j < frames_told_in(parser, events, outside).len(),
    ensures
        frames_told_in(parser, events, outside)[i].subpage_id != frames_told_in(
            parser,
            events,
            outside,
        )[j].subpage_id,
{
    law_frames_of_a_page(parser, events, outside);
    lemma_frame_number(parser, events, outside, i);
    lemma_frame_number(parser, events, outside, j);
    let n = usize::MAX + 1;
    let a = parser.next_subpage_id.0 + i;
    let b = parser.next_subpage_id.0 + j;
    vstd::arithmetic::div_mod::lemma_mod_bound(a, n);
    vstd::arithmetic::div_mod::lemma_mod_bound(b, n);
    if a % n == b % n {
        vstd::arithmetic::div_mod::lemma_fundamental_div_mod(a, n);
        vstd::arithmetic::div_mod::lemma_fundamental_div_mod(b, n);
        let q = b / n - a / n;
        assert(n * (b / n) - n * (a / n) == n * q) by (nonlinear_arith)
            requires
                q == b / n - a / n,
        ;
        assert(n * q == j - i);
        assert(q == 0 || n * q >= n || n * q < 0) by (nonlinear_arith)
            requires
                n > 0,
        ;
        assert(false);
    }
}

/// A frame whose tag has a source: the element keeps the address and the number that are
/// told of the frame, the page's number, the sending end for the size and the channel of
/// the parser, and what is told gives what is sent there. An element whose tag is none
/// such keeps no frame, and no frame is told of.
///
/// `gives(c, f)` says that `f` gives what is sent on `c`.
pub proof fn law_frames_belong_to_their_elements<C, K, F>(
    parser: HtmlParserView<C, K>,
    tag: TagView,
    outside: Outside<C, F>,
    gives: spec_fn(C, F) -> bool,
)
    requires
        parser.document.nodes.len() < usize::MAX,
        forall|n: NodeDataPtr|
            gives((#[trigger] (outside.oneshot)(n)).0, (outside.oneshot)(n).1),
    ensures
        ({
            let node = handle(parser.next_ptr() as usize);
            let event = ParserEvent::CreateElement(tag);
            let element = after(parser, event, outside).document.element(node);
            let told = frames_told(parser, event, outside);
            if opens_frame(tag) {
                &&& told.len() == 1
                &&& told[0].url == (outside.make_url)(
                    attr_value(tag.attributes, "src"@)->Some_0,
                    parser.url,
                )
                &&& told[0].subpage_id == parser.next_subpage_id
                &&& told[0].sandboxed == (outside.sandboxed)(tag)
                &&& element.frame == Some(told[0].url)
                &&& element.size matches Some(size)
                &&& size.pipeline_id == parser.page.id
                &&& size.subpage_id == told[0].subpage_id
                &&& size.future_chan matches Some(chan)
                &&& gives(chan, told[0].size_future)
                &&& size.constellation_chan == parser.constellation_chan
            } else {
                &&& told.len() == 0
                &&& element.frame is None
                &&& element.size is None
            }
        }),
{
    law_what_tags_ask_for::<C, K>(tag, parser.url);
    lemma_link_is_no_iframe(tag);
    let pair = (outside.oneshot)(parser.next_ptr() as usize);
    assert(gives(pair.0, pair.1));
}

/// The frame that an element was given when it was created stays with it, whatever
/// happens later.
pub proof fn law_frames_stay_with_their_elements<C, K, F>(
    parser: HtmlParserView<C, K>,
    earlier: Seq<ParserEvent>,
    tag: TagView,
    later: Seq<ParserEvent>,
    outside: Outside<C, F>,
)
    requires
        parser.wf(),
        allowed_run(parser, earlier.push(ParserEvent::CreateElement(tag)) + later, outside),
        parser.document.nodes.len() + earlier.len() + 1 + later.len() <= usize::MAX,
    ensures
        ({
            let created = run(parser, earlier.push(ParserEvent::CreateElement(tag)), outside);
            let node = handle(run(parser, earlier, outside).next_ptr() as usize);
            run(
                parser,
                earlier.push(ParserEvent::CreateElement(tag)) + later,
                outside,
            ).document.element(node) == created.document.element(node)
        }),
{
    let first = earlier.push(ParserEvent::CreateElement(tag));
    lemma_run_in_two_parts(parser, first, later, outside);
    assert(first.drop_last() =~= earlier);
    law_parsing_keeps_order(parser, earlier, outside);
    law_parsing_keeps_order(parser, first, outside);
    let created = run(parser, first, outside);
    let node = handle(run(parser, earlier, outside).next_ptr() as usize);
    assert(created.document.nodes.len() == run(parser, earlier, outside).document.nodes.len() + 1);
    law_documents_only_grow(created, later, outside, node);
}

/// Two sequences of events, one after the other, lead where the whole leads.
proof fn lemma_run_in_two_parts<C, K, F>(
    parser: HtmlParserView<C, K>,
    first: Seq<ParserEvent>,
    second: Seq<ParserEvent>,
    outside: Outside<C, F>,
)
    ensures
        run(parser, first + second, outside) == run(run(parser, first, outside), second, outside),
        allowed_run(parser, first + second, outside) ==> allowed_run(parser, first, outside)
            && allowed_run(run(parser, first, outside), second, outside),
    decreases second.len(),
{
    if second.len() == 0 {
        assert(first + second =~= first);
    } else {
        assert((first + second).drop_last() =~= first + second.drop_last());
        lemma_run_in_two_parts(parser, first, second.drop_last(), outside);
    }
}

/// A comment, a document type declaration or a text that is created becomes the last node
/// of the document, under the name that the tokenizer is told of. It holds exactly what it
/// was created with, has no parent and no children, and nothing else changes.
pub proof fn law_created_nodes_hold_what_they_are_given<C, K, F>(
    parser: HtmlParserView<C, K>,
    text: Seq<char>,
    doctype: DoctypeView,
    outside: Outside<C, F>,
)
    requires
        parser.document.nodes.len() < usize::MAX,
    ensures
        ({
            let event = ParserEvent::CreateComment(text);
            let now = after(parser, event, outside);
            &&& replied(parser, event) == Reply::Node((parser.document.nodes.len() + 1) as usize)
            &&& now == (HtmlParserView { document: now.document, ..parser })
            &&& now.document.nodes.len() == parser.document.nodes.len() + 1
            &&& now.document.nodes.drop_last() == parser.document.nodes
            &&& now.document.nodes.last().parent is None
            &&& now.document.nodes.last().children.len() == 0
            &&& now.document.nodes.last().data matches NodeDataView::Comment(held)
            &&& held == text
        }),
        ({
            let event = ParserEvent::CreateText(text);
            let now = after(parser, event, outside);
            &&& replied(parser, event) == Reply::Node((parser.document.nodes.len() + 1) as usize)
            &&& now == (HtmlParserView { document: now.document, ..parser })
            &&& now.document.nodes.len() == parser.document.nodes.len() + 1
            &&& now.document.nodes.drop_last() == parser.document.nodes
            &&& now.document.nodes.last().parent is None
            &&& now.document.nodes.last().children.len() == 0
            &&& now.document.nodes.last().data matches NodeDataView::Text(held)
            &&& held == text
        }),
        ({
            let event = ParserEvent::CreateDoctype(doctype);
            let now = after(parser, event, outside);
            &&& replied(parser, event) == Reply::Node((parser.document.nodes.len() + 1) as usize)
            &&& now == (HtmlParserView { document: now.document, ..parser })
            &&& now.document.nodes.len() == parser.document.nodes.len() + 1
            &&& now.document.nodes.drop_last() == parser.document.nodes
            &&& now.document.nodes.last().parent is None
            &&& now.document.nodes.last().children.len() == 0
            &&& now.document.nodes.last().data matches NodeDataView::DocumentType(held)
            &&& held.name == doctype.name
            &&& held.public_id == doctype.public_id
            &&& held.system_id == doctype.system_id
            &&& held.force_quirks == doctype.force_quirks
        }),
{
    law_new_nodes_come_last(parser.document, NodeDataView::Comment(text));
    law_new_nodes_come_last(parser.document, NodeDataView::Text(text));
    law_new_nodes_come_last(parser.document, NodeDataView::DocumentType(doctype));
}

/// The element that is created for a tag becomes the last node of the document, with no
/// parent and no children, and the nodes before it stay as they are. Its name is the tag's,
/// its interface is the one that claims the tag. Under any name it has an attribute exactly
/// where the tag gives one, no second one, and its value is what the tag gives last.
pub proof fn law_created_elements_fit_their_tags<C, K, F>(
    parser: HtmlParserView<C, K>,
    tag: TagView,
    outside: Outside<C, F>,
    name: Seq<char>,
)
    requires
        parser.document.nodes.len() < usize::MAX,
    ensures
        ({
            let event = ParserEvent::CreateElement(tag);
            let now = after(parser, event, outside);
            let given = tag.attributes;
            &&& replied(parser, event) == Reply::Node((parser.document.nodes.len() + 1) as usize)
            &&& now == (HtmlParserView {
                document: now.document,
                next_subpage_id: now.next_subpage_id,
                ..parser
            })
            &&& now.document.nodes.len() == parser.document.nodes.len() + 1
            &&& now.document.nodes.drop_last() == parser.document.nodes
            &&& now.document.nodes.last().parent is None
            &&& now.document.nodes.last().children.len() == 0
            &&& now.document.nodes.last().data matches NodeDataView::Element(element)
            &&& element.local_name == tag.name
            &&& if exists|id: ElementTypeId| claims(id, tag.name) {
                claims(element.type_id, tag.name)
            } else {
                element.type_id == ElementTypeId::HTMLUnknownElement
            }
            &&& (exists|k: int|
                0 <= k < element.attrs.len() && (#[trigger] element.attrs[k]).name == name) <==> (
            exists|i: int| 0 <= i < given.len() && (#[trigger] given[i]).name == name)
            &&& forall|k: int, i: int|
                0 <= k < element.attrs.len() && 0 <= i < given.len() && (
                #[trigger] element.attrs[k]).name == name && (#[trigger] given[i]).name == name && (
                forall|j: int| i < j < given.len() ==> (#[trigger] given[j]).name != name)
                    ==> element.attrs[k].value == given[i].value
            &&& forall|k: int, l: int|
                0 <= k < l < element.attrs.len() ==> (#[trigger] element.attrs[k]).name != (
                #[trigger] element.attrs[l]).name
        }),
{
    let made = element_of_tag::<C, K>(tag);
    let data = NodeDataView::Element(made);
    law_new_nodes_come_last(parser.document, data);
    law_tag_attributes_are_taken_over(tag.attributes, name);
    law_interface_of_tag(interface_of(tag.name), tag.name);
    let now = after(parser, ParserEvent::CreateElement(tag), outside);
    let created = parser.with_node(data);
    assert(now.document.nodes.drop_last() =~= created.document.nodes.drop_last());
    assert(now.document.nodes.last().data->Element_0.attrs == made.attrs);
}

/// Appending makes a node the last child of its parent, tells the tokenizer of that node,
/// and changes nothing else: no data, no other parent, no other list of children.
pub proof fn law_appending_adds_the_last_child<C, K, F>(
    parser: HtmlParserView<C, K>,
    parent: NodeDataPtr,
    child: NodeDataPtr,
    outside: Outside<C, F>,
    other: NodeDataPtr,
)
    requires
        parser.wf(),
        parser.may_append(parent, child),
        parser.document.contains_ptr(other),
    ensures
        ({
            let event = ParserEvent::AppendChild { parent, child };
            let now = after(parser, event, outside);
            &&& replied(parser, event) == Reply::Node(child)
            &&& now == (HtmlParserView { document: now.document, ..parser })
            &&& now.document.nodes.len() == parser.document.nodes.len()
            &&& now.document.nodes[parent - 1].children == parser.document.nodes[parent
                - 1].children.push((child - 1) as usize)
            &&& now.document.nodes[child - 1].parent == Some((parent - 1) as usize)
            &&& now.document.nodes[other - 1].data == parser.document.nodes[other - 1].data
            &&& other != parent ==> now.document.nodes[other - 1].children
                == parser.document.nodes[other - 1].children
            &&& other != child ==> now.document.nodes[other - 1].parent
                == parser.document.nodes[other - 1].parent
        }),
{
}

/// The callbacks that create and append nothing change nothing. Inserting, removing,
/// moving and asking for a parent are answered with no node, asking for children with no,
/// cloning with a failure, and the others need no answer.
pub proof fn law_other_callbacks_change_nothing<C, K, F>(
    parser: HtmlParserView<C, K>,
    callback: OtherCallback,
    outside: Outside<C, F>,
)
    ensures
        after(parser, ParserEvent::Other(callback), outside) == parser,
        replied(parser, ParserEvent::Other(callback)) == (match callback {
            OtherCallback::InsertBefore { parent, child } => Reply::Node(0),
            OtherCallback::RemoveChild { parent, child } => Reply::Node(0),
            OtherCallback::ReparentChildren { node, new_parent } => Reply::Node(0),
            OtherCallback::GetParent { node, element_only } => Reply::Node(0),
            OtherCallback::HasChildren(node) => Reply::Answer(false),
            OtherCallback::CloneNode { node, deep } => Reply::Failure(
                "clone node unimplemented"@,
            ),
            OtherCallback::RefNode(node) => Reply::Done,
            OtherCallback::UnrefNode(node) => Reply::Done,
            OtherCallback::FormAssociate { form, node } => Reply::Done,
            OtherCallback::AddAttributes { node, attributes } => Reply::Done,
            OtherCallback::SetQuirksMode => Reply::Done,
            OtherCallback::EncodingChange(encname) => Reply::Done,
        }),
        callback is CloneNode <==> !allowed(parser, ParserEvent::Other(callback)),
{
}

/// Each chunk of the page is parsed as it is. When all of it has come, both listeners are
/// told so; when it could not be loaded, parsing fails, and the reason names the address
/// that was asked for.
pub proof fn law_what_news_lead_to(requested_url: Seq<char>, news: ProgressMsgView)
    ensures
        match news {
            ProgressMsgView::Payload(data) => step_upon(requested_url, news)
                == LoadStepView::ParseChunk(data),
            ProgressMsgView::Done(Ok(_)) => step_upon(requested_url, news) == LoadStepView::Finish(
                CSSMessageView::CSSTaskExit,
                JSMessageView::JSTaskExit,
            ),
            ProgressMsgView::Done(Err(_)) => step_upon(requested_url, news) == LoadStepView::Fail(
                "Failed to load page URL "@ + requested_url,
            ),
        },
{
}

/// What is done over a sequence of news of the page at `requested_url`. Nothing is done
/// once the page is complete or parsing has failed.
pub open spec fn load_steps(requested_url: Seq<char>, news: Seq<ProgressMsgView>) -> Seq<
    LoadStepView,
>
    decreases news.len(),
{
    if news.len() == 0 {
        Seq::empty()
    } else {
        let before = load_steps(requested_url, news.drop_last());
        if before.len() > 0 && !(before.last() is ParseChunk) {
            before
        } else {
            before.push(step_upon(requested_url, news.last()))
        }
    }
}

/// The news that these chunks have come.
pub open spec fn payloads(chunks: Seq<Seq<u8>>) -> Seq<ProgressMsgView> {
    chunks.map_values(|data: Seq<u8>| ProgressMsgView::Payload(data))
}

/// The tokenizer gets exactly the chunks that come, in that order, and then parsing ends
/// once: both listeners are told that the page is complete, or parsing fails, as loading
/// did, and no later news count.
pub proof fn law_page_is_parsed_to_its_end(
    requested_url: Seq<char>,
    chunks: Seq<Seq<u8>>,
    outcome: Result<(), ()>,
    later: Seq<ProgressMsgView>,
)
    ensures
        load_steps(
            requested_url,
            payloads(chunks).push(ProgressMsgView::Done(outcome)) + later,
        ) == chunks.map_values(|data: Seq<u8>| LoadStepView::ParseChunk(data)).push(
            match outcome {
                Ok(_) => LoadStepView::Finish(
                    CSSMessageView::CSSTaskExit,
                    JSMessageView::JSTaskExit,
                ),
                Err(_) => LoadStepView::Fail("Failed to load page URL "@ + requested_url),
            },
        ),
        payloads(chunks) == Seq::new(
            chunks.len(),
            |i: int| ProgressMsgView::Payload(chunks[i]),
        ),
    decreases later.len(),
{
    let news = payloads(chunks).push(ProgressMsgView::Done(outcome));
    if later.len() == 0 {
        assert(news + later =~= news);
        assert(news.drop_last() =~= payloads(chunks));
        lemma_chunks_are_parsed(requested_url, chunks);
    } else {
        law_page_is_parsed_to_its_end(requested_url, chunks, outcome, later.drop_last());
        assert((news + later).drop_last() =~= news + later.drop_last());
    }
    assert(payloads(chunks) =~= Seq::new(
        chunks.len(),
        |i: int| ProgressMsgView::Payload(chunks[i]),
    ));
}

/// As long as chunks come, they are parsed.
proof fn lemma_chunks_are_parsed(requested_url: Seq<char>, chunks: Seq<Seq<u8>>)
    ensures
        load_steps(requested_url, payloads(chunks)) == chunks.map_values(
            |data: Seq<u8>| LoadStepView::ParseChunk(data),
        ),
    decreases chunks.len(),
{
    let parse = |data: Seq<u8>| LoadStepView::ParseChunk(data);
    if chunks.len() > 0 {
        lemma_chunks_are_parsed(requested_url, chunks.drop_last());
        assert(payloads(chunks).drop_last() =~= payloads(chunks.drop_last()));
    }
    assert(load_steps(requested_url, payloads(chunks)) =~= chunks.map_values(parse));
}

/// The document after these texts were created and appended to a node, one after the
/// other.
pub open spec fn with_texts<C, K>(
    parser: HtmlParserView<C, K>,
    node: NodeDataPtr,
    texts: Seq<Seq<char>>,
) ->
    HtmlParserView<C, K>
    decreases texts.len(),
{
    if texts.len() == 0 {
        parser
    } else {
        let before = with_texts(parser, node, texts.drop_last());
        before.with_node(NodeDataView::Text(texts.last())).with_child(
            node,
            before.next_ptr() as usize,
        )
    }
}

/// A script that ends asks for the source that it names, next to the address of the page,
/// if it names one. Otherwise the listener is told the address of the page and the text of
/// each child in full, from first to last; of a single child, that child's text.
pub proof fn law_what_ending_scripts_ask_for<C, K>(
    parser: HtmlParserView<C, K>,
    script: NodeDataPtr,
)
    requires
        parser.wf(),
        parser.may_end_script(script),
    ensures
        ({
            let node = parser.document.nodes[script - 1];
            let action = parser.script_action(script);
            &&& node.data matches NodeDataView::Element(element)
            &&& match attr_value(element.attrs, "src"@) {
                Some(named) => {
                    &&& action matches ScriptActionView::Load { src, base }
                    &&& src == named
                    &&& base == parser.url
                },
                None => {
                    &&& action matches ScriptActionView::Send(message)
                    &&& message matches JSMessageView::JSTaskNewInlineScript(text, url)
                    &&& url == parser.url
                    &&& text == node.children.map_values(
                        |c: usize| parser.document.nodes[c as int].data->Text_0,
                    ).flatten()
                    &&& node.children.len() == 1 ==> text
                        == parser.document.nodes[node.children[0] as int].data->Text_0
                },
            }
        }),
{
    let element = parser.document.element(handle(script));
    if attr_value(element.attrs, "src"@) is None {
        law_text_of_children(parser.document, handle(script));
    }
}

/// When a style element ends, the listener is told the text of each of its children in
/// full, from first to last; of a single child, that child's text.
pub proof fn law_what_ending_styles_tell<C, K>(parser: HtmlParserView<C, K>, style: NodeDataPtr)
    requires
        parser.wf(),
        parser.may_end_style(style),
    ensures
        ({
            let node = parser.document.nodes[style - 1];
            &&& parser.style_message(style) matches CSSMessageView::CSSTaskNewFile(provenance)
            &&& provenance matches StylesheetProvenanceView::InlineProvenance(url, text)
            &&& url == "http://example.com/"@
            &&& text == node.children.map_values(
                |c: usize| parser.document.nodes[c as int].data->Text_0,
            ).flatten()
            &&& node.children.len() == 1 ==> text
                == parser.document.nodes[node.children[0] as int].data->Text_0
        }),
{
    law_text_of_children(parser.document, handle(style));
}

/// A script in the page is the text between its tags: what the listener is told is the
/// texts that were appended to the element, in that order, and the address of the page.
pub proof fn law_inline_script_is_its_text<C, K>(
    parser: HtmlParserView<C, K>,
    script: NodeDataPtr,
    texts: Seq<Seq<char>>,
)
    requires
        parser.wf(),
        parser.document.nodes.len() + texts.len() <= usize::MAX,
        parser.document.contains_ptr(script),
        parser.document.is_element(handle(script)),
        parser.document.at(script).children.len() == 0,
        attr_value(parser.document.element(handle(script)).attrs, "src"@) is None,
    ensures
        allowed(with_texts(parser, script, texts), ParserEvent::CompleteScript(script)),
        with_texts(parser, script, texts).script_action(script) == ScriptActionView::Send(
            JSMessageView::JSTaskNewInlineScript(texts.flatten(), parser.url),
        ),
{
    lemma_with_texts(parser, script, texts);
    law_pieces_are_whole(texts);
}

/// A style sheet in the page is the text between its tags.
pub proof fn law_inline_style_is_its_text<C, K>(
    parser: HtmlParserView<C, K>,
    style: NodeDataPtr,
    texts: Seq<Seq<char>>,
)
    requires
        parser.wf(),
        parser.document.nodes.len() + texts.len() <= usize::MAX,
        parser.document.contains_ptr(style),
        parser.document.at(style).children.len() == 0,
    ensures
        allowed(with_texts(parser, style, texts), ParserEvent::CompleteStyle(style)),
        with_texts(parser, style, texts).style_message(style) == CSSMessageView::CSSTaskNewFile(
            StylesheetProvenanceView::InlineProvenance("http://example.com/"@, texts.flatten()),
        ),
{
    lemma_with_texts(parser, style, texts);
    law_pieces_are_whole(texts);
}

/// Appending texts to a node without children makes them its text.
proof fn lemma_with_texts<C, K>(
    parser: HtmlParserView<C, K>,
    node: NodeDataPtr,
    texts: Seq<Seq<char>>,
)
    requires
        parser.wf(),
        parser.document.nodes.len() + texts.len() <= usize::MAX,
        parser.document.contains_ptr(node),
        parser.document.at(node).children.len() == 0,
    ensures
        with_texts(parser, node, texts).wf(),
        with_texts(parser, node, texts).url == parser.url,
        with_texts(parser, node, texts).document.nodes.len() == parser.document.nodes.len()
            + texts.len(),
        with_texts(parser, node, texts).document.at(node).data == parser.document.at(node).data,
        with_texts(parser, node, texts).document.only_text_in(handle(node)),
        with_texts(parser, node, texts).document.texts_in(handle(node)) == texts,
    decreases texts.len(),
{
    let now = with_texts(parser, node, texts);
    if texts.len() == 0 {
        assert(now.document.texts_in(handle(node)) =~= texts);
    } else {
        lemma_with_texts(parser, node, texts.drop_last());
        let before = with_texts(parser, node, texts.drop_last());
        let data = NodeDataView::Text(texts.last());
        let middle = before.with_node(data);
        let fresh = before.next_ptr() as usize;
        lemma_with_node_wf(before.document, data);
        lemma_with_child_wf(middle.document, handle(node), handle(fresh));
        let h = handle(node);
        let old_children = before.document.nodes[h.index as int].children;
        let children = now.document.nodes[h.index as int].children;
        assert(children =~= old_children.push(handle(fresh).index));
        assert forall|k: int| 0 <= k < children.len() implies {
            let data = now.document.nodes[(#[trigger] children[k]) as int].data;
            data is Text && data.text() == texts[k]
        } by {
            if k < old_children.len() {
                assert(children[k] == old_children[k]);
                assert(before.document.texts_in(h)[k] == texts.drop_last()[k]);
                assert(before.document.nodes[old_children[k] as int].data is Text);
                assert(now.document.nodes[children[k] as int].data
                    == before.document.nodes[old_children[k] as int].data);
            }
        }
        assert(old_children.len() == before.document.texts_in(h).len());
        assert(now.document.texts_in(h) =~= texts);
    }
}

} // verus!
