use std::sync::Arc;

use hubbub_html_parser::document::{Doctype, Document, NodeData, NodeHandle};
use hubbub_html_parser::element::{Attribute, Element, IFrameSize};
use hubbub_html_parser::interface::ElementTypeId;
use hubbub_html_parser::messages::{
    CSSMessage, HtmlDiscoveryMessage, JSMessage, PipelineId, StylesheetProvenance, SubpageId, Url,
};
use hubbub_html_parser::parser::{
    parse_html, script_at, stylesheet_at, Discovery, HtmlParser, HtmlParserResult, LoadStep, Page,
    ProgressMsg, ScriptAction, Tag,
};

fn url(text: &str) -> Url {
    Url { text: text.to_string() }
}

fn tag(name: &str, attributes: &[(&str, &str)]) -> Tag {
    Tag {
        name: name.to_string(),
        attributes: attributes
            .iter()
            .map(|(n, v)| Attribute { name: n.to_string(), value: v.to_string() })
            .collect(),
    }
}

type Parser = HtmlParser<&'static str, &'static str>;

fn start() -> Parser {
    parse_html(
        Document::new(),
        Page { id: PipelineId(3), url: None },
        url("http://asked/"),
        url("http://page/"),
        SubpageId(7),
        Arc::new("constellation"),
    )
}

fn element(parser: &Parser, ptr: usize) -> &Element<&'static str, &'static str> {
    match &parser.document.nodes[NodeHandle::from_hubbub_node(ptr).index].data {
        NodeData::Element(element) => element,
        other => panic!("{:?}", other),
    }
}

#[test]
fn parsing_starts_with_a_root_and_the_final_address() {
    let parser = start();
    assert_eq!(parser.root, NodeHandle { index: 0 });
    assert_eq!(parser.page, Page { id: PipelineId(3), url: Some((url("http://page/"), true)) });
    assert_eq!(element(&parser, 1).type_id, ElementTypeId::HTMLHtmlElement);
    assert_eq!(element(&parser, 1).local_name, "html");
    let settings = parser.settings();
    assert_eq!(settings.encoding, "UTF-8");
    assert!(!settings.fix_encoding);
    assert_eq!(settings.document_node, 1);
    assert!(settings.scripting);
    assert!(settings.styling);
}

#[test]
fn the_root_is_a_new_node_of_the_document_given() {
    let mut document: Document<(), ()> = Document::new();
    document.add_node(NodeData::Comment("before".to_string()));
    let parser = parse_html(
        document,
        Page { id: PipelineId(0), url: Some((url("http://old/"), false)) },
        url("http://a/"),
        url("http://b/"),
        SubpageId(0),
        Arc::new(()),
    );
    assert_eq!(parser.root, NodeHandle { index: 1 });
    assert_eq!(parser.page.url, Some((url("http://b/"), true)));
}

#[test]
fn nodes_hold_what_they_were_created_with() {
    let mut parser = start();
    assert_eq!(parser.create_comment("c".to_string()), 2);
    let doctype = Doctype {
        name: "html".to_string(),
        public_id: None,
        system_id: Some("about:legacy-compat".to_string()),
        force_quirks: true,
    };
    assert_eq!(parser.create_doctype(doctype), 3);
    assert_eq!(parser.create_text("t".to_string()), 4);
    assert_eq!(parser.document.nodes[1].data, NodeData::Comment("c".to_string()));
    match &parser.document.nodes[2].data {
        NodeData::DocumentType(doctype) => {
            assert_eq!(doctype.name, "html");
            assert_eq!(doctype.public_id, None);
            assert_eq!(doctype.system_id.as_deref(), Some("about:legacy-compat"));
            assert!(doctype.force_quirks);
        }
        other => panic!("{:?}", other),
    }
    assert_eq!(parser.document.nodes[3].data, NodeData::Text("t".to_string()));
}

#[test]
fn node_names_lead_back_to_nodes() {
    for index in [0usize, 1, 41, usize::MAX - 1] {
        let node = NodeHandle { index };
        assert_eq!(node.to_hubbub_node(), index + 1);
        assert_eq!(NodeHandle::from_hubbub_node(node.to_hubbub_node()), node);
    }
}

#[test]
fn attributes_read_back_what_was_set_last() {
    let mut parser = start();
    let (p, discovery) =
        parser.create_element(tag("p", &[("id", "a"), ("class", "x"), ("id", "b")]));
    assert_eq!((p, discovery), (2, Discovery::Nothing));
    assert_eq!(element(&parser, p).get_attr("id"), Some("b"));
    assert_eq!(element(&parser, p).get_attr("class"), Some("x"));
    assert_eq!(element(&parser, p).get_attr("ID"), None);
    assert_eq!(element(&parser, p).attrs.len(), 2);
    assert_eq!(element(&parser, p).attrs[0].name, "id");
    let mut lone: Element<(), ()> = Element::new(ElementTypeId::HTMLElement, "b".to_string());
    lone.set_attr("k".to_string(), "1".to_string());
    lone.set_attr("k".to_string(), "2".to_string());
    assert_eq!(lone.get_attr("k"), Some("2"));
    assert_eq!(lone.attrs.len(), 1);
}

#[test]
fn links_to_style_sheets_are_discovered() {
    let mut parser = start();
    let (_, found) =
        parser.create_element(tag("link", &[("rel", "stylesheet"), ("href", "a.css")]));
    assert_eq!(
        found,
        Discovery::Stylesheet { href: "a.css".to_string(), base: url("http://page/") }
    );
    for attributes in [
        vec![("rel", "Stylesheet"), ("href", "a.css")],
        vec![("rel", "alternate stylesheet"), ("href", "a.css")],
        vec![("rel", "icon"), ("href", "a.css")],
        vec![("rel", "stylesheet")],
        vec![("href", "a.css")],
        vec![],
    ] {
        assert_eq!(parser.create_element(tag("link", &attributes)).1, Discovery::Nothing);
    }
    let (_, other) = parser.create_element(tag("a", &[("rel", "stylesheet"), ("href", "a.css")]));
    assert_eq!(other, Discovery::Nothing);
    assert_eq!(
        stylesheet_at(url("http://page/a.css")),
        CSSMessage::CSSTaskNewFile(StylesheetProvenance::UrlProvenance(url("http://page/a.css")))
    );
}

#[test]
fn images_are_discovered() {
    let mut parser = start();
    assert_eq!(
        parser.create_element(tag("img", &[])).1,
        Discovery::Image { base: url("http://page/") }
    );
    assert_eq!(parser.create_element(tag("image", &[])).1, Discovery::Nothing);
}

#[test]
fn frames_are_numbered_one_after_the_other() {
    let mut parser = start();
    let (bare, nothing) = parser.create_element(tag("iframe", &[]));
    assert_eq!(nothing, Discovery::Nothing);
    assert_eq!(element(&parser, bare).frame, None);
    for (k, sandboxed) in [(0usize, true), (1, false)] {
        let (node, found) = parser.create_element(tag("iframe", &[("src", "f.html")]));
        assert_eq!(
            found,
            Discovery::Frame { src: "f.html".to_string(), base: url("http://page/") }
        );
        let message: HtmlDiscoveryMessage<(), &str> =
            parser.discover_frame(node, url("http://page/f.html"), ("chan", "size"), sandboxed);
        assert_eq!(
            message,
            HtmlDiscoveryMessage::HtmlDiscoveredIFrame((
                url("http://page/f.html"),
                SubpageId(7 + k),
                "size",
                sandboxed
            ))
        );
        assert_eq!(element(&parser, node).frame, Some(url("http://page/f.html")));
        assert_eq!(
            element(&parser, node).size,
            Some(IFrameSize {
                pipeline_id: PipelineId(3),
                subpage_id: SubpageId(7 + k),
                future_chan: Some("chan"),
                constellation_chan: Arc::new("constellation"),
            })
        );
    }
    assert_eq!(parser.next_subpage_id, SubpageId(9));
}

#[test]
fn frame_numbers_start_over_after_the_last_one() {
    let mut parser = start();
    parser.next_subpage_id = SubpageId(usize::MAX);
    let (node, _) = parser.create_element(tag("iframe", &[("src", "f")]));
    let message: HtmlDiscoveryMessage<(), ()> =
        parser.discover_frame(node, url("http://page/f"), ("chan", ()), false);
    match message {
        HtmlDiscoveryMessage::HtmlDiscoveredIFrame((_, id, _, _)) => {
            assert_eq!(id, SubpageId(usize::MAX))
        }
        other => panic!("{:?}", other),
    }
    assert_eq!(parser.next_subpage_id, SubpageId(0));
}

#[test]
fn children_are_appended_in_order() {
    let mut parser = start();
    let (ul, _) = parser.create_element(tag("ul", &[]));
    let (first, _) = parser.create_element(tag("li", &[]));
    let (second, _) = parser.create_element(tag("li", &[]));
    assert!(parser.may_append(ul, first));
    assert_eq!(parser.append_child(ul, first), first);
    assert_eq!(parser.append_child(ul, second), second);
    assert_eq!(parser.append_child(1, ul), ul);
    assert_eq!(parser.document.nodes[ul - 1].children, vec![first - 1, second - 1]);
    assert_eq!(parser.document.nodes[first - 1].parent, Some(ul - 1));
    assert_eq!(parser.document.nodes[ul - 1].parent, Some(0));
    assert!(!parser.may_append(1, first));
    assert!(!parser.may_append(0, first));
    assert!(!parser.may_append(1, 0));
    assert!(!parser.may_append(1, 5));
    assert!(!parser.may_append(5, 1));
}

#[test]
fn scripts_with_a_source_are_to_be_loaded() {
    let mut parser = start();
    let (script, discovery) = parser.create_element(tag("script", &[("src", "a.js")]));
    assert_eq!(discovery, Discovery::Nothing);
    let comment = parser.create_comment("not text".to_string());
    parser.append_child(script, comment);
    assert!(parser.may_end_script(script));
    assert_eq!(
        parser.complete_script(script),
        ScriptAction::Load { src: "a.js".to_string(), base: url("http://page/") }
    );
    assert_eq!(
        script_at(url("http://page/a.js")),
        JSMessage::JSTaskNewFile(url("http://page/a.js"))
    );
}

#[test]
fn scripts_in_the_page_are_their_text() {
    let mut parser = start();
    let (script, _) = parser.create_element(tag("script", &[]));
    assert_eq!(
        parser.complete_script(script),
        ScriptAction::Send(JSMessage::JSTaskNewInlineScript(String::new(), url("http://page/")))
    );
    for piece in ["var x", " = ", "\u{e9};"] {
        let text = parser.create_text(piece.to_string());
        parser.append_child(script, text);
    }
    assert!(parser.may_end_script(script));
    assert_eq!(
        parser.complete_script(script),
        ScriptAction::Send(JSMessage::JSTaskNewInlineScript(
            "var x = \u{e9};".to_string(),
            url("http://page/")
        ))
    );
}

#[test]
fn styles_in_the_page_are_their_text() {
    let mut parser = start();
    let (style, _) = parser.create_element(tag("style", &[]));
    for piece in ["p { ", "}"] {
        let text = parser.create_text(piece.to_string());
        parser.append_child(style, text);
    }
    assert!(parser.may_end_style(style));
    assert_eq!(
        parser.complete_style(style),
        CSSMessage::CSSTaskNewFile(StylesheetProvenance::InlineProvenance(
            url("http://example.com/"),
            "p { }".to_string()
        ))
    );
}

#[test]
fn only_elements_with_text_can_end_as_scripts() {
    let mut parser = start();
    let text = parser.create_text("t".to_string());
    assert!(!parser.may_end_script(text));
    assert!(parser.may_end_style(text));
    assert!(!parser.may_end_script(0));
    assert!(!parser.may_end_script(3));
    assert!(!parser.may_end_style(0));
    assert!(!parser.may_end_style(3));
    let (script, _) = parser.create_element(tag("script", &[]));
    let comment = parser.create_comment("c".to_string());
    parser.append_child(script, text);
    assert!(parser.may_end_script(script));
    parser.append_child(script, comment);
    assert!(!parser.may_end_script(script));
    assert!(!parser.may_end_style(script));
}

#[test]
fn news_of_the_page_lead_on() {
    let parser = start();
    assert_eq!(
        parser.progress(ProgressMsg::Payload(vec![60, 112, 62])),
        LoadStep::ParseChunk(vec![60, 112, 62])
    );
    assert_eq!(
        parser.progress(ProgressMsg::Done(Err(()))),
        LoadStep::Fail("Failed to load page URL http://asked/".to_string())
    );
    assert_eq!(
        parser.progress(ProgressMsg::Done(Ok(()))),
        LoadStep::Finish(CSSMessage::CSSTaskExit, JSMessage::JSTaskExit)
    );
}

#[test]
fn callbacks_without_effect_change_nothing() {
    let mut parser = start();
    let (p, _) = parser.create_element(tag("p", &[]));
    let text = parser.create_text("t".to_string());
    parser.append_child(p, text);
    let before = format!("{:?}", parser);
    parser.ref_node(p);
    parser.unref_node(p);
    assert_eq!(parser.insert_before(p, text), 0);
    assert_eq!(parser.remove_child(p, text), 0);
    assert_eq!(parser.reparent_children(p, 1), 0);
    assert_eq!(parser.clone_node(p, true), "clone node unimplemented");
    assert_eq!(parser.clone_node(text, false), "clone node unimplemented");
    assert_eq!(parser.get_parent(text, false), 0);
    assert!(!parser.has_children(p));
    parser.form_associate(p, text);
    parser.add_attributes(p, vec![Attribute { name: "a".to_string(), value: "b".to_string() }]);
    parser.set_quirks_mode(1u8);
    parser.encoding_change("latin1".to_string());
    assert_eq!(format!("{:?}", parser), before);
}

#[test]
fn the_result_names_the_root() {
    let mut parser = start();
    let text = parser.create_text("t".to_string());
    parser.append_child(1, text);
    let (result, document, page) = parser.finish("port");
    assert_eq!(
        result,
        HtmlParserResult { root: NodeHandle { index: 0 }, discovery_port: "port" }
    );
    assert_eq!(document.nodes.len(), 2);
    assert_eq!(document.nodes[0].children, vec![1]);
    assert_eq!(page.url, Some((url("http://page/"), true)));
}
