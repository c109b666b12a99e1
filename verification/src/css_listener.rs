//! Gathering the style sheets of a page.
//!
//! The listener is told of style sheets while the page is parsed, has a parser started
//! for each of them, and sends the parsed sheets back, in the order in which it was told
//! of them, once the page is complete.

use std::collections::VecDeque;
use vstd::prelude::*;

use crate::messages::{
    CSSMessage, CSSMessageView, HtmlDiscoveryMessage, HtmlDiscoveryMessageView,
    StylesheetProvenance, StylesheetProvenanceView,
};

verus! {

/// What the listener does next.
#[derive(Debug, PartialEq, Eq)]
pub enum CssAction {
    /// It has a parser started for this style sheet.
    SpawnParser(StylesheetProvenance),
    /// It waits for the parsers, one after the other, and sends each sheet back.
    SendSheets,
}

/// The listener for style sheets. `P` is where the sheet of a parser can be received.
#[derive(Debug, PartialEq, Eq)]
pub struct CssLinkListener<P> {
    /// One for each parser that was started and not waited for, in that order.
    pub ports: VecDeque<P>,
    /// Whether the page is complete.
    pub exited: bool,
}

/// The mathematical value of a [`CssLinkListener`].
#[verifier::ext_equal]
pub struct CssLinkListenerView<P> {
    pub ports: Seq<P>,
    pub exited: bool,
}

impl<P> View for CssLinkListener<P> {
    type V = CssLinkListenerView<P>;

    open spec fn view(&self) -> CssLinkListenerView<P> {
        CssLinkListenerView { ports: self.ports@, exited: self.exited }
    }
}

impl<P> CssLinkListenerView<P> {
    /// A listener that was told nothing yet.
    pub open spec fn fresh() -> Self {
        CssLinkListenerView { ports: Seq::empty(), exited: false }
    }

    /// The listener after a message.
    pub open spec fn received(self, message: CSSMessageView) -> Self {
        CssLinkListenerView { exited: self.exited || message is CSSTaskExit, ..self }
    }

    /// The listener after a parser was started.
    pub open spec fn spawned(self, port: P) -> Self {
        CssLinkListenerView { ports: self.ports.push(port), ..self }
    }

    /// The listener after it has taken up the first parser to wait for.
    pub open spec fn waiting(self) -> Self {
        CssLinkListenerView { ports: self.ports.drop_first(), ..self }
    }
}

impl<P> CssLinkListener<P> {
    /// A listener that was told nothing yet.
    pub fn new() -> (listener: Self)
        ensures
            listener@ == CssLinkListenerView::<P>::fresh(),
            listener.ports@.len() == 0,
            !listener.exited,
    {
        let listener = CssLinkListener { ports: VecDeque::new(), exited: false };
        assert(listener@.ports =~= Seq::empty());
        listener
    }

    /// Takes a message, and says what follows from it.
    pub fn receive(&mut self, message: CSSMessage) -> (action: CssAction)
        requires
            !old(self)@.exited,
        ensures
            final(self)@ == old(self)@.received(message@),
            final(self).ports@ == old(self).ports@,
            final(self).exited == (old(self).exited || message is CSSTaskExit),
            message matches CSSMessage::CSSTaskNewFile(provenance) ==> action
                == CssAction::SpawnParser(provenance),
            message is CSSTaskExit ==> action is SendSheets,
    {
        match message {
            CSSMessage::CSSTaskNewFile(provenance) => CssAction::SpawnParser(provenance),
            CSSMessage::CSSTaskExit => {
                self.exited = true;
                CssAction::SendSheets
            },
        }
    }

    /// Takes note of a parser that was started.
    pub fn parser_spawned(&mut self, port: P)
        requires
            !old(self)@.exited,
        ensures
            final(self)@ == old(self)@.spawned(port),
            final(self).ports@ == old(self).ports@.push(port),
            final(self).exited == old(self).exited,
    {
        self.ports.push_back(port);
    }

    /// The parser to wait for next, until there is none.
    pub fn next_port(&mut self) -> (port: Option<P>)
        requires
            old(self)@.exited,
        ensures
            old(self)@.ports.len() == 0 ==> port is None && final(self)@ == old(self)@,
            old(self)@.ports.len() > 0 ==> port == Some(old(self)@.ports.first())
                && final(self)@ == old(self)@.waiting(),
            final(self).exited == old(self).exited,
            match port {
                Some(first) => old(self).ports@ == seq![first] + final(self).ports@,
                None => old(self).ports@.len() == 0 && final(self).ports@.len() == 0,
            },
    {
        let ghost before = self@.ports;
        let port = self.ports.pop_front();
        assert(before.len() > 0 ==> self@.ports =~= before.drop_first());
        assert(before.len() > 0 ==> before =~= seq![before.first()] + self.ports@);
        port
    }
}

/// What the listener sends back of a style sheet that was parsed.
pub fn sheet_parsed<S, F>(sheet: S) -> (message: HtmlDiscoveryMessage<S, F>)
    ensures
        message@ == HtmlDiscoveryMessageView::<S, F>::HtmlDiscoveredStyle(sheet),
        message == HtmlDiscoveryMessage::<S, F>::HtmlDiscoveredStyle(sheet),
{
    HtmlDiscoveryMessage::HtmlDiscoveredStyle(sheet)
}

/// The listener after these messages, where the parser that is started upon message `i`
/// is `parser(i, ..)`.
pub open spec fn listen<P>(
    messages: Seq<CSSMessageView>,
    parser: spec_fn(int, StylesheetProvenanceView) -> P,
) -> CssLinkListenerView<P>
    decreases messages.len(),
{
    if messages.len() == 0 {
        CssLinkListenerView::fresh()
    } else {
        let before = listen(messages.drop_last(), parser);
        if before.exited {
            before
        } else {
            match messages.last() {
                CSSMessageView::CSSTaskNewFile(provenance) => before.received(
                    messages.last(),
                ).spawned(parser(messages.len() - 1, provenance)),
                CSSMessageView::CSSTaskExit => before.received(messages.last()),
            }
        }
    }
}

/// What the listener sends back, where `sheet(p)` is what comes from the port `p`: nothing
/// until the page is complete, then the sheet of each parser that it waits for.
pub open spec fn send_back<P, S, F>(
    listener: CssLinkListenerView<P>,
    sheet: spec_fn(P) -> S,
) -> Seq<HtmlDiscoveryMessageView<S, F>>
    decreases listener.ports.len(),
{
    if !listener.exited || listener.ports.len() == 0 {
        Seq::empty()
    } else {
        seq![HtmlDiscoveryMessageView::HtmlDiscoveredStyle(sheet(listener.ports.first()))]
            + send_back(listener.waiting(), sheet)
    }
}

/// The messages that tell of these style sheets, and then that the page is complete.
pub open spec fn css_messages(sheets: Seq<StylesheetProvenanceView>) -> Seq<CSSMessageView> {
    sheets.map_values(|p: StylesheetProvenanceView| CSSMessageView::CSSTaskNewFile(p)).push(
        CSSMessageView::CSSTaskExit,
    )
}

/// The listener has one parser started for each style sheet that it is told of, and it
/// sends the sheets back in the order in which it was told of them.
pub proof fn law_sheets_come_back_in_order<P, S, F>(
    sheets: Seq<StylesheetProvenanceView>,
    parser: spec_fn(int, StylesheetProvenanceView) -> P,
    sheet: spec_fn(P) -> S,
)
    ensures
        listen(css_messages(sheets), parser).exited,
        send_back::<P, S, F>(listen(css_messages(sheets), parser), sheet) == Seq::new(
            sheets.len(),
            |i: int|
                HtmlDiscoveryMessageView::<S, F>::HtmlDiscoveredStyle(sheet(parser(i, sheets[i]))),
        ),
{
    let news = sheets.map_values(|p: StylesheetProvenanceView| CSSMessageView::CSSTaskNewFile(p));
    assert(css_messages(sheets).drop_last() =~= news);
    lemma_listen_to_news(sheets, parser);
    let listener = listen(css_messages(sheets), parser);
    lemma_send_back::<P, S, F>(listener, sheet);
    assert(listener.ports =~= Seq::new(sheets.len(), |i: int| parser(i, sheets[i])));
    assert(send_back::<P, S, F>(listener, sheet) =~= Seq::new(
        sheets.len(),
        |i: int|
                HtmlDiscoveryMessageView::<S, F>::HtmlDiscoveredStyle(sheet(parser(i, sheets[i]))),
    ));
}

/// Before the listener is told that the page is complete it has one parser started for
/// each message, and it sends nothing back.
pub proof fn law_no_sheet_is_sent_before_the_exit<P, S, F>(
    messages: Seq<CSSMessageView>,
    parser: spec_fn(int, StylesheetProvenanceView) -> P,
    sheet: spec_fn(P) -> S,
)
    requires
        forall|i: int| 0 <= i < messages.len() ==> !(#[trigger] messages[i] is CSSTaskExit),
    ensures
        !listen(messages, parser).exited,
        listen(messages, parser).ports == Seq::new(
            messages.len(),
            |i: int| parser(i, messages[i]->CSSTaskNewFile_0),
        ),
        send_back::<P, S, F>(listen(messages, parser), sheet) == Seq::<
            HtmlDiscoveryMessageView<S, F>,
        >::empty(),
{
    let sheets = Seq::new(messages.len(), |i: int| messages[i]->CSSTaskNewFile_0);
    assert(messages =~= sheets.map_values(
        |p: StylesheetProvenanceView| CSSMessageView::CSSTaskNewFile(p),
    ));
    lemma_listen_to_news(sheets, parser);
    assert(listen(messages, parser).ports =~= Seq::new(
        messages.len(),
        |i: int| parser(i, messages[i]->CSSTaskNewFile_0),
    ));
}

/// Once the listener was told that the page is complete, nothing that follows is taken.
pub proof fn law_no_sheet_is_taken_after_the_exit<P>(
    sheets: Seq<StylesheetProvenanceView>,
    later: Seq<CSSMessageView>,
    parser: spec_fn(int, StylesheetProvenanceView) -> P,
)
    ensures
        listen(css_messages(sheets) + later, parser) == listen(css_messages(sheets), parser),
    decreases later.len(),
{
    let messages = css_messages(sheets);
    if later.len() == 0 {
        assert(messages + later =~= messages);
    } else {
        law_no_sheet_is_taken_after_the_exit(sheets, later.drop_last(), parser);
        assert((messages + later).drop_last() =~= messages + later.drop_last());
        assert(listen(messages, parser).exited);
    }
}

/// While the page is parsed, the ports are those of the parsers started so far.
proof fn lemma_listen_to_news<P>(
    sheets: Seq<StylesheetProvenanceView>,
    parser: spec_fn(int, StylesheetProvenanceView) -> P,
)
    ensures
        listen(
            sheets.map_values(|p: StylesheetProvenanceView| CSSMessageView::CSSTaskNewFile(p)),
            parser,
        ) == (CssLinkListenerView {
            ports: Seq::new(sheets.len(), |i: int| parser(i, sheets[i])),
            exited: false,
        }),
    decreases sheets.len(),
{
    let tell = |p: StylesheetProvenanceView| CSSMessageView::CSSTaskNewFile(p);
    let news = sheets.map_values(tell);
    if sheets.len() == 0 {
        assert(listen(news, parser).ports =~= Seq::new(
            sheets.len(),
            |i: int| parser(i, sheets[i]),
        ));
    } else {
        lemma_listen_to_news(sheets.drop_last(), parser);
        assert(news.drop_last() =~= sheets.drop_last().map_values(tell));
        assert(listen(news, parser).ports =~= Seq::new(
            sheets.len(),
            |i: int| parser(i, sheets[i]),
        ));
    }
}

/// Waiting for one port after the other gives one sheet for each port.
proof fn lemma_send_back<P, S, F>(listener: CssLinkListenerView<P>, sheet: spec_fn(P) -> S)
    requires
        listener.exited,
    ensures
        send_back::<P, S, F>(listener, sheet) == listener.ports.map_values(
            |p: P| HtmlDiscoveryMessageView::<S, F>::HtmlDiscoveredStyle(sheet(p)),
        ),
    decreases listener.ports.len(),
{
    let send = |p: P| HtmlDiscoveryMessageView::<S, F>::HtmlDiscoveredStyle(sheet(p));
    if listener.ports.len() > 0 {
        lemma_send_back::<P, S, F>(listener.waiting(), sheet);
        assert(send_back::<P, S, F>(listener, sheet) =~= listener.ports.map_values(send));
    } else {
        assert(send_back::<P, S, F>(listener, sheet) =~= listener.ports.map_values(send));
    }
}

} // verus!
