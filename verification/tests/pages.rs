use std::sync::mpsc::{channel, Receiver, Sender};
use std::sync::Arc;

use hubbub_html_parser::css_listener::{sheet_parsed, CssAction, CssLinkListener};
use hubbub_html_parser::document::{Document, NodeData};
use hubbub_html_parser::element::{Attribute, IFrameSize};
use hubbub_html_parser::js_listener::{JsAction, JsScriptListener};
use hubbub_html_parser::messages::{
    CSSMessage, HtmlDiscoveryMessage, JSFile, JSMessage, PipelineId, StylesheetProvenance,
    SubpageId, Url,
};
use hubbub_html_parser::parser::{
    parse_html, script_at, stylesheet_at, Discovery, HtmlParser, LoadStep, Page, ProgressMsg,
    ScriptAction, Tag,
};

type Message = HtmlDiscoveryMessage<String, Receiver<u32>>;

/// A parser with the messages that it sends.
struct Session {
    parser: HtmlParser<Sender<u32>, &'static str>,
    css: Vec<CSSMessage>,
    js: Vec<JSMessage>,
    discovered: Vec<Message>,
}

fn make_url(text: &str, base: &Url) -> Url {
    Url { text: format!("{}{}", base.text, text) }
}

impl Session {
    fn new() -> Session {
        let url = Url { text: "http://page/".to_string() };
        let page = Page { id: PipelineId(1), url: None };
        Session {
            parser: parse_html(
                Document::new(),
                page,
                url.clone(),
                url,
                SubpageId(4),
                Arc::new("constellation"),
            ),
            css: Vec::new(),
            js: Vec::new(),
            discovered: Vec::new(),
        }
    }

    fn open(&mut self, parent: usize, name: &str, attributes: &[(&str, &str)]) -> usize {
        let attributes = attributes
            .iter()
            .map(|(n, v)| Attribute { name: n.to_string(), value: v.to_string() })
            .collect();
        let (node, discovery) =
            self.parser.create_element(Tag { name: name.to_string(), attributes });
        match discovery {
            Discovery::Stylesheet { href, base } => {
                self.css.push(stylesheet_at(make_url(&href, &base)))
            }
            Discovery::Frame { src, base } => {
                let url = make_url(&src, &base);
                self.discovered.push(self.parser.discover_frame(node, url, channel(), false));
            }
            Discovery::Image { .. } | Discovery::Nothing => {}
        }
        self.parser.append_child(parent, node)
    }

    fn text(&mut self, parent: usize, data: &str) -> usize {
        let node = self.parser.create_text(data.to_string());
        self.parser.append_child(parent, node)
    }

    fn end_script(&mut self, node: usize) {
        match self.parser.complete_script(node) {
            ScriptAction::Load { src, base } => self.js.push(script_at(make_url(&src, &base))),
            ScriptAction::Send(message) => self.js.push(message),
        }
    }

    fn end_style(&mut self, node: usize) {
        let message = self.parser.complete_style(node);
        self.css.push(message);
    }

    fn finish(&mut self) {
        match self.parser.progress(ProgressMsg::Done(Ok(()))) {
            LoadStep::Finish(css, js) => {
                self.css.push(css);
                self.js.push(js);
            }
            other => panic!("{:?}", other),
        }
    }
}

fn page() -> Session {
    let mut session = Session::new();
    let html = session.open(1, "html", &[]);
    let head = session.open(html, "head", &[]);
    session.open(head, "link", &[("rel", "stylesheet"), ("href", "a.css")]);
    session.open(head, "link", &[("rel", "icon"), ("href", "i.png")]);
    let style = session.open(head, "style", &[]);
    session.text(style, "p {}");
    session.end_style(style);
    let script = session.open(head, "script", &[("src", "a.js")]);
    session.end_script(script);
    let body = session.open(html, "body", &[]);
    session.open(body, "iframe", &[("src", "f.html")]);
    let script = session.open(body, "script", &[]);
    session.text(script, "f(");
    session.text(script, ");");
    session.end_script(script);
    session.open(body, "iframe", &[]);
    session.open(body, "iframe", &[("src", "g.html")]);
    session.open(body, "link", &[("href", "b.css"), ("rel", "stylesheet")]);
    session.finish();
    session
}

#[test]
fn a_page_gets_its_style_sheets_in_order() {
    let session = page();
    let mut listener: CssLinkListener<String> = CssLinkListener::new();
    let mut sent: Vec<HtmlDiscoveryMessage<String, ()>> = Vec::new();
    let count = session.css.len();
    for (i, message) in session.css.into_iter().enumerate() {
        match listener.receive(message) {
            CssAction::SpawnParser(StylesheetProvenance::UrlProvenance(url)) => {
                listener.parser_spawned(url.text)
            }
            CssAction::SpawnParser(StylesheetProvenance::InlineProvenance(url, text)) => {
                listener.parser_spawned(format!("{} {}", url.text, text))
            }
            CssAction::SendSheets => assert_eq!(i + 1, count),
        }
    }
    while let Some(port) = listener.next_port() {
        sent.push(sheet_parsed(port));
    }
    let expected: Vec<HtmlDiscoveryMessage<String, ()>> =
        ["http://page/a.css", "http://example.com/ p {}", "http://page/b.css"]
            .iter()
            .map(|sheet| HtmlDiscoveryMessage::HtmlDiscoveredStyle(sheet.to_string()))
            .collect();
    assert_eq!(sent, expected);
}

#[test]
fn a_page_gets_its_scripts_in_order() {
    let session = page();
    let mut listener = JsScriptListener::new();
    let mut sent: Vec<HtmlDiscoveryMessage<String, ()>> = Vec::new();
    for message in session.js {
        match listener.receive(message) {
            JsAction::Load(url) => {
                assert_eq!(url.text, "http://page/a.js");
                let moved = Url { text: "http://moved/a.js".to_string() };
                assert_eq!(listener.loaded(Ok((moved, b"g();".to_vec()))), Ok(()));
            }
            JsAction::Receive => {}
            JsAction::Send(message) => sent.push(message),
        }
    }
    assert_eq!(
        sent,
        vec![HtmlDiscoveryMessage::HtmlDiscoveredScript(vec![
            JSFile {
                data: "g();".to_string(),
                url: Url { text: "http://moved/a.js".to_string() }
            },
            JSFile { data: "f();".to_string(), url: Url { text: "http://page/".to_string() } },
        ])]
    );
}

#[test]
fn a_page_gets_its_frames_numbered_in_order() {
    let session = page();
    let expected = [("http://page/f.html", 4), ("http://page/g.html", 5)];
    assert_eq!(session.discovered.len(), expected.len());
    let sized: Vec<&IFrameSize<Sender<u32>, &'static str>> = session
        .parser
        .document
        .nodes
        .iter()
        .filter_map(|n| match &n.data {
            NodeData::Element(element) => element.size.as_ref(),
            _ => None,
        })
        .collect();
    assert_eq!(sized.len(), expected.len());
    for (k, message) in session.discovered.iter().enumerate() {
        match message {
            HtmlDiscoveryMessage::HtmlDiscoveredIFrame((url, id, size_future, sandboxed)) => {
                assert_eq!(url.text, expected[k].0);
                assert_eq!(*id, SubpageId(expected[k].1));
                assert!(!sandboxed);
                assert_eq!(sized[k].pipeline_id, PipelineId(1));
                assert_eq!(sized[k].subpage_id, *id);
                assert_eq!(*sized[k].constellation_chan, "constellation");
                // What is sent on the end that the element keeps comes out of the message.
                let number = 600 + k as u32;
                sized[k].future_chan.as_ref().unwrap().send(number).unwrap();
                assert_eq!(size_future.recv().unwrap(), number);
            }
            other => panic!("{:?}", other),
        }
    }
    assert_eq!(session.parser.next_subpage_id, SubpageId(6));
}

#[test]
fn the_tokenizer_gets_the_chunks_in_order() {
    for outcome in [Ok(()), Err(())] {
        let parser = Session::new().parser;
        let mut chunks: Vec<Vec<u8>> = Vec::new();
        let mut ends: Vec<LoadStep> = Vec::new();
        let news = vec![
            ProgressMsg::Payload(vec![1, 2]),
            ProgressMsg::Payload(vec![]),
            ProgressMsg::Payload(vec![3]),
            ProgressMsg::Done(outcome),
            ProgressMsg::Payload(vec![4]),
        ];
        for message in news {
            match parser.progress(message) {
                LoadStep::ParseChunk(data) => chunks.push(data),
                end => {
                    ends.push(end);
                    break;
                }
            }
        }
        assert_eq!(chunks, vec![vec![1, 2], vec![], vec![3]]);
        let end = match outcome {
            Ok(()) => LoadStep::Finish(CSSMessage::CSSTaskExit, JSMessage::JSTaskExit),
            Err(()) => LoadStep::Fail("Failed to load page URL http://page/".to_string()),
        };
        assert_eq!(ends, vec![end]);
    }
}

#[test]
fn documents_out_of_order_are_found_out() {
    let mut document = page().parser.document;
    assert!(document.is_in_order());
    let parent = document.nodes[1].parent;
    document.nodes[1].parent = None;
    assert!(!document.is_in_order());
    document.nodes[1].parent = Some(99);
    assert!(!document.is_in_order());
    document.nodes[1].parent = parent;
    assert!(document.is_in_order());
    document.nodes[0].children.push(1);
    assert!(!document.is_in_order());
    document.nodes[0].children.pop();
    document.nodes[0].children.push(99);
    assert!(!document.is_in_order());
    document.nodes[0].children.pop();
    if let NodeData::Element(element) = &mut document.nodes[0].data {
        for value in ["a", "b"] {
            element
                .attrs
                .push(Attribute { name: "id".to_string(), value: value.to_string() });
        }
    }
    assert!(!document.is_in_order());
    assert!(Document::<(), ()>::new().is_in_order());
}

#[test]
fn parents_and_children_agree_in_a_page() {
    let document = page().parser.document;
    for (i, node) in document.nodes.iter().enumerate() {
        for (k, child) in node.children.iter().enumerate() {
            assert_eq!(document.nodes[*child].parent, Some(i));
            assert!(!node.children[..k].contains(child));
        }
        if let Some(parent) = node.parent {
            assert!(document.nodes[parent].children.contains(&i));
        }
        // Going up from any node ends at the root.
        let mut at = i;
        let mut steps = 0;
        while let Some(parent) = document.nodes[at].parent {
            at = parent;
            steps += 1;
            assert!(steps < document.nodes.len());
        }
        assert_eq!(at, 0);
    }
}

#[test]
fn what_was_built_stays() {
    let mut session = page();
    let before: Vec<(String, Option<usize>, Vec<usize>)> = session
        .parser
        .document
        .nodes
        .iter()
        .map(|n| (format!("{:?}", n.data), n.parent, n.children.clone()))
        .collect();
    for parent in 1..=before.len() {
        session.text(parent, "more");
        session.open(parent, "iframe", &[("src", "h.html")]);
    }
    for (node, (data, parent, children)) in session.parser.document.nodes.iter().zip(&before) {
        assert_eq!(&format!("{:?}", node.data), data);
        assert_eq!(&node.parent, parent);
        assert_eq!(&node.children[..children.len()], &children[..]);
    }
    assert_eq!(
        session.parser.page.url,
        Some((Url { text: "http://page/".to_string() }, true))
    );
}
