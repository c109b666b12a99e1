//! What the parser, its two listeners and the rest of the browser tell each other.

use vstd::prelude::*;

verus! {

/// An absolute URL, by its text.
#[derive(Debug, PartialEq, Eq)]
pub struct Url {
    pub text: String,
}

impl View for Url {
    type V = Seq<char>;

    open spec fn view(&self) -> Seq<char> {
        self.text@
    }
}

impl Clone for Url {
    fn clone(&self) -> (copy: Self)
        ensures
            copy == *self,
    {
        Url { text: self.text.clone() }
    }
}

/// The number of a frame within its page.
#[derive(Clone, Copy, Debug, PartialEq, Eq, Structural)]
pub struct SubpageId(pub usize);

/// The number of a page within the browser.
#[derive(Clone, Copy, Debug, PartialEq, Eq, Structural)]
pub struct PipelineId(pub usize);

/// A script: its text, and the address it came from.
#[derive(Debug, PartialEq, Eq)]
pub struct JSFile {
    pub data: String,
    pub url: Url,
}

/// The mathematical value of a [`JSFile`].
#[verifier::ext_equal]
pub struct JSFileView {
    pub data: Seq<char>,
    pub url: Seq<char>,
}

impl View for JSFile {
    type V = JSFileView;

    open spec fn view(&self) -> JSFileView {
        JSFileView { data: self.data@, url: self.url@ }
    }
}

/// The scripts of a page, in order.
pub type JSResult = Vec<JSFile>;

/// The views of a sequence of scripts.
pub open spec fn files_view(files: Seq<JSFile>) -> Seq<JSFileView> {
    files.map_values(|f: JSFile| f@)
}

/// Where the text of a style sheet comes from: an address to load, or a text that
/// stands in the page with the address to resolve its own links against.
#[derive(Debug, PartialEq, Eq)]
pub enum StylesheetProvenance {
    UrlProvenance(Url),
    InlineProvenance(Url, String),
}

/// The mathematical value of a [`StylesheetProvenance`].
#[verifier::ext_equal]
pub enum StylesheetProvenanceView {
    UrlProvenance(Seq<char>),
    InlineProvenance(Seq<char>, Seq<char>),
}

impl View for StylesheetProvenance {
    type V = StylesheetProvenanceView;

    open spec fn view(&self) -> StylesheetProvenanceView {
        match *self {
            StylesheetProvenance::UrlProvenance(url) => {
                StylesheetProvenanceView::UrlProvenance(url@)
            },
            StylesheetProvenance::InlineProvenance(url, text) => {
                StylesheetProvenanceView::InlineProvenance(url@, text@)
            },
        }
    }
}

/// What the parser tells the listener for style sheets.
#[derive(Debug, PartialEq, Eq)]
pub enum CSSMessage {
    CSSTaskNewFile(StylesheetProvenance),
    CSSTaskExit,
}

/// The mathematical value of a [`CSSMessage`].
#[verifier::ext_equal]
pub enum CSSMessageView {
    CSSTaskNewFile(StylesheetProvenanceView),
    CSSTaskExit,
}

impl View for CSSMessage {
    type V = CSSMessageView;

    open spec fn view(&self) -> CSSMessageView {
        match *self {
            CSSMessage::CSSTaskNewFile(provenance) => {
                CSSMessageView::CSSTaskNewFile(provenance@)
            },
            CSSMessage::CSSTaskExit => CSSMessageView::CSSTaskExit,
        }
    }
}

/// What the parser tells the listener for scripts.
#[derive(Debug, PartialEq, Eq)]
pub enum JSMessage {
    JSTaskNewFile(Url),
    JSTaskNewInlineScript(String, Url),
    JSTaskExit,
}

/// The mathematical value of a [`JSMessage`].
#[verifier::ext_equal]
pub enum JSMessageView {
    JSTaskNewFile(Seq<char>),
    JSTaskNewInlineScript(Seq<char>, Seq<char>),
    JSTaskExit,
}

impl View for JSMessage {
    type V = JSMessageView;

    open spec fn view(&self) -> JSMessageView {
        match *self {
            JSMessage::JSTaskNewFile(url) => JSMessageView::JSTaskNewFile(url@),
            JSMessage::JSTaskNewInlineScript(data, url) => {
                JSMessageView::JSTaskNewInlineScript(data@, url@)
            },
            JSMessage::JSTaskExit => JSMessageView::JSTaskExit,
        }
    }
}

/// Messages generated upon discovery of additional resources.
///
/// `S` is a parsed style sheet, and `F` is what will give the size of a frame once it
/// is laid out.
#[derive(Debug, PartialEq, Eq)]
pub enum HtmlDiscoveryMessage<S, F> {
    HtmlDiscoveredStyle(S),
    /// The address of the frame, its number, its size, and whether it is sandboxed.
    HtmlDiscoveredIFrame((Url, SubpageId, F, bool)),
    HtmlDiscoveredScript(JSResult),
}

/// The mathematical value of a [`HtmlDiscoveryMessage`].
#[verifier::ext_equal]
pub enum HtmlDiscoveryMessageView<S, F> {
    HtmlDiscoveredStyle(S),
    HtmlDiscoveredIFrame((Seq<char>, SubpageId, F, bool)),
    HtmlDiscoveredScript(Seq<JSFileView>),
}

impl<S, F> View for HtmlDiscoveryMessage<S, F> {
    type V = HtmlDiscoveryMessageView<S, F>;

    open spec fn view(&self) -> HtmlDiscoveryMessageView<S, F> {
        match *self {
            HtmlDiscoveryMessage::HtmlDiscoveredStyle(sheet) => {
                HtmlDiscoveryMessageView::HtmlDiscoveredStyle(sheet)
            },
            HtmlDiscoveryMessage::HtmlDiscoveredIFrame((url, id, size, sandboxed)) => {
                HtmlDiscoveryMessageView::HtmlDiscoveredIFrame((url@, id, size, sandboxed))
            },
            HtmlDiscoveryMessage::HtmlDiscoveredScript(files) => {
                HtmlDiscoveryMessageView::HtmlDiscoveredScript(files_view(files@))
            },
        }
    }
}

} // verus!
