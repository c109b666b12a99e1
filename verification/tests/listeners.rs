use hubbub_html_parser::css_listener::{sheet_parsed, CssAction, CssLinkListener};
use hubbub_html_parser::js_listener::{JsAction, JsScriptListener};
use hubbub_html_parser::messages::{
    CSSMessage, HtmlDiscoveryMessage, JSFile, JSMessage, StylesheetProvenance, Url,
};
use hubbub_html_parser::text::NotUtf8;

type Message = HtmlDiscoveryMessage<u32, ()>;
type Action = JsAction<u32, ()>;

fn url(text: &str) -> Url {
    Url { text: text.to_string() }
}

#[test]
fn sheets_come_back_in_order() {
    let mut listener: CssLinkListener<u32> = CssLinkListener::new();
    let sheets = vec![
        StylesheetProvenance::UrlProvenance(url("http://a/1.css")),
        StylesheetProvenance::InlineProvenance(url("http://example.com/"), "p {}".to_string()),
        StylesheetProvenance::UrlProvenance(url("http://a/2.css")),
    ];
    let mut port: u32 = 10;
    for sheet in sheets {
        let copy = match &sheet {
            StylesheetProvenance::UrlProvenance(u) => {
                StylesheetProvenance::UrlProvenance(u.clone())
            }
            StylesheetProvenance::InlineProvenance(u, t) => {
                StylesheetProvenance::InlineProvenance(u.clone(), t.clone())
            }
        };
        let action = listener.receive(CSSMessage::CSSTaskNewFile(sheet));
        assert_eq!(action, CssAction::SpawnParser(copy));
        listener.parser_spawned(port);
        port += 1;
    }
    assert_eq!(listener.receive(CSSMessage::CSSTaskExit), CssAction::SendSheets);
    let mut sent: Vec<Message> = Vec::new();
    while let Some(port) = listener.next_port() {
        sent.push(sheet_parsed(port * 2));
    }
    assert_eq!(
        sent,
        vec![
            HtmlDiscoveryMessage::HtmlDiscoveredStyle(20),
            HtmlDiscoveryMessage::HtmlDiscoveredStyle(22),
            HtmlDiscoveryMessage::HtmlDiscoveredStyle(24),
        ]
    );
}

#[test]
fn no_sheets_come_back_from_a_page_without_any() {
    let mut listener: CssLinkListener<u32> = CssLinkListener::new();
    assert_eq!(listener.receive(CSSMessage::CSSTaskExit), CssAction::SendSheets);
    assert_eq!(listener.next_port(), None);
    assert_eq!(listener.next_port(), None);
}

#[test]
fn scripts_come_back_in_order_without_those_that_failed() {
    let mut listener = JsScriptListener::new();
    let first: Action =
        listener.receive(JSMessage::JSTaskNewInlineScript("one".to_string(), url("http://p/")));
    assert_eq!(first, JsAction::Receive);
    let second: Action = listener.receive(JSMessage::JSTaskNewFile(url("http://p/a.js")));
    assert_eq!(second, JsAction::Load(url("http://p/a.js")));
    assert_eq!(listener.loaded(Err(())), Ok(()));
    let third: Action = listener.receive(JSMessage::JSTaskNewFile(url("http://p/b.js")));
    assert_eq!(third, JsAction::Load(url("http://p/b.js")));
    let bytes = "\u{e9}\u{20ac}\u{1f600}!".as_bytes().to_vec();
    assert_eq!(listener.loaded(Ok((url("http://q/b.js"), bytes))), Ok(()));
    let fourth: Action =
        listener.receive(JSMessage::JSTaskNewInlineScript("four".to_string(), url("http://p/")));
    assert_eq!(fourth, JsAction::Receive);
    let last: Action = listener.receive(JSMessage::JSTaskExit);
    assert_eq!(
        last,
        JsAction::Send(HtmlDiscoveryMessage::HtmlDiscoveredScript(vec![
            JSFile { data: "one".to_string(), url: url("http://p/") },
            JSFile { data: "\u{e9}\u{20ac}\u{1f600}!".to_string(), url: url("http://q/b.js") },
            JSFile { data: "four".to_string(), url: url("http://p/") },
        ]))
    );
    assert!(listener.files.is_empty());
    assert!(listener.exited);
}

#[test]
fn scripts_that_are_not_text_are_refused() {
    for bytes in [vec![0xffu8], vec![0xc3], vec![0xed, 0xa0, 0x80], vec![0xc0, 0x80]] {
        let mut listener = JsScriptListener::new();
        assert_eq!(listener.loaded(Ok((url("http://p/a.js"), bytes))), Err(NotUtf8));
        assert!(!listener.exited);
        assert!(listener.failed);
        assert!(listener.files.is_empty());
    }
}

#[test]
fn a_script_that_is_not_text_ends_the_listener() {
    let messages = vec![
        JSMessage::JSTaskNewInlineScript("one".to_string(), url("http://p/")),
        JSMessage::JSTaskNewFile(url("http://p/bad.js")),
        JSMessage::JSTaskNewFile(url("http://p/good.js")),
        JSMessage::JSTaskExit,
    ];
    let mut listener = JsScriptListener::new();
    let mut loaded: Vec<Url> = Vec::new();
    let mut sent: Vec<Message> = Vec::new();
    for message in messages {
        if listener.failed || listener.exited {
            break;
        }
        match listener.receive(message) {
            JsAction::Load(address) => {
                loaded.push(address.clone());
                assert_eq!(listener.loaded(Ok((address, vec![0xff]))), Err(NotUtf8));
            }
            JsAction::Receive => {}
            JsAction::Send(message) => sent.push(message),
        }
    }
    assert_eq!(loaded, vec![url("http://p/bad.js")]);
    assert_eq!(sent, Vec::new());
    assert!(listener.failed);
    assert!(!listener.exited);
}

#[test]
fn nothing_is_sent_before_the_page_is_complete() {
    let mut scripts = JsScriptListener::new();
    for _ in 0..3 {
        let action: Action =
            scripts.receive(JSMessage::JSTaskNewInlineScript("x".to_string(), url("http://p/")));
        assert_eq!(action, JsAction::Receive);
    }
    assert_eq!((scripts.files.len(), scripts.exited, scripts.failed), (3, false, false));
    let mut sheets: CssLinkListener<u32> = CssLinkListener::new();
    for port in 0..3 {
        let provenance = StylesheetProvenance::UrlProvenance(url("http://p/a.css"));
        match sheets.receive(CSSMessage::CSSTaskNewFile(provenance)) {
            CssAction::SpawnParser(_) => sheets.parser_spawned(port),
            CssAction::SendSheets => panic!("the page is not complete"),
        }
    }
    assert_eq!((sheets.ports.len(), sheets.exited), (3, false));
}

#[test]
fn an_empty_script_is_a_script() {
    let mut listener = JsScriptListener::new();
    assert_eq!(listener.loaded(Ok((url("http://p/a.js"), Vec::new()))), Ok(()));
    assert_eq!(
        listener.files,
        vec![JSFile { data: String::new(), url: url("http://p/a.js") }]
    );
}
