//! Gathering the scripts of a page.
//!
//! The listener is told of scripts while the page is parsed, has those loaded that are
//! not in the page, and sends all of them back at once, in the order in which it was
//! told of them, when the page is complete. A script that cannot be loaded is left out.
//! A script that is loaded and is not text makes the listener fail: it takes nothing more
//! and sends nothing back.

use vstd::prelude::*;
use vstd::utf8::*;

use crate::messages::{
    files_view, HtmlDiscoveryMessage, HtmlDiscoveryMessageView, JSFile, JSFileView, JSMessage,
    JSMessageView, Url,
};
use crate::text::{from_utf8, NotUtf8};

verus! {

/// What the listener does next.
#[derive(Debug, PartialEq, Eq)]
pub enum JsAction<S, F> {
    /// It has the script at this address loaded.
    Load(Url),
    /// It waits for the next message.
    Receive,
    /// It sends this back, and is done.
    Send(HtmlDiscoveryMessage<S, F>),
}

/// The mathematical value of a [`JsAction`].
#[verifier::ext_equal]
pub enum JsActionView<S, F> {
    Load(Seq<char>),
    Receive,
    Send(HtmlDiscoveryMessageView<S, F>),
}

impl<S, F> View for JsAction<S, F> {
    type V = JsActionView<S, F>;

    open spec fn view(&self) -> JsActionView<S, F> {
        match *self {
            JsAction::Load(url) => JsActionView::Load(url@),
            JsAction::Receive => JsActionView::Receive,
            JsAction::Send(message) => JsActionView::Send(message@),
        }
    }
}

/// The listener for scripts.
#[derive(Debug, PartialEq, Eq)]
pub struct JsScriptListener {
    /// The scripts that it has so far.
    pub files: Vec<JSFile>,
    /// Whether the page is complete.
    pub exited: bool,
    /// Whether a script was not text.
    pub failed: bool,
}

/// The mathematical value of a [`JsScriptListener`].
#[verifier::ext_equal]
pub struct JsScriptListenerView {
    pub files: Seq<JSFileView>,
    pub exited: bool,
    pub failed: bool,
}

impl View for JsScriptListener {
    type V = JsScriptListenerView;

    open spec fn view(&self) -> JsScriptListenerView {
        JsScriptListenerView {
            files: files_view(self.files@),
            exited: self.exited,
            failed: self.failed,
        }
    }
}

/// What came of loading a script: the address it came from in the end and its bytes,
/// or nothing.
pub type Loaded = Result<(Url, Vec<u8>), ()>;

/// The mathematical value of a [`Loaded`].
pub type LoadedView = Option<(Seq<char>, Seq<u8>)>;

/// The view of what came of loading a script.
pub open spec fn loaded_view(loaded: Loaded) -> LoadedView {
    match loaded {
        Ok((url, bytes)) => Some((url@, bytes@)),
        Err(_) => None,
    }
}

/// The bytes that came, if any did, are text.
pub open spec fn is_text(loaded: LoadedView) -> bool {
    loaded matches Some((url, bytes)) ==> valid_utf8(bytes)
}

impl JsScriptListenerView {
    /// A listener that was told nothing yet.
    pub open spec fn fresh() -> Self {
        JsScriptListenerView { files: Seq::empty(), exited: false, failed: false }
    }

    /// Whether the listener takes no more: the page is complete, or a script was not text.
    pub open spec fn ended(self) -> bool {
        self.exited || self.failed
    }

    /// The listener after a message: a script in the page is added at once, and upon the
    /// last message the scripts are handed out.
    pub open spec fn received(self, message: JSMessageView) -> Self {
        match message {
            JSMessageView::JSTaskNewFile(_) => self,
            JSMessageView::JSTaskNewInlineScript(data, url) => JsScriptListenerView {
                files: self.files.push(JSFileView { data, url }),
                ..self
            },
            JSMessageView::JSTaskExit => JsScriptListenerView {
                files: Seq::empty(),
                exited: true,
                ..self
            },
        }
    }

    /// The listener after a script was loaded, or could not be. Bytes that are not text
    /// make it fail.
    pub open spec fn with_loaded(self, loaded: LoadedView) -> Self {
        match loaded {
            Some((url, bytes)) => if valid_utf8(bytes) {
                JsScriptListenerView {
                    files: self.files.push(JSFileView { data: decode_utf8(bytes), url }),
                    ..self
                }
            } else {
                JsScriptListenerView { failed: true, ..self }
            },
            None => self,
        }
    }

    /// What the listener does upon a message.
    pub open spec fn action_upon<S, F>(self, message: JSMessageView) -> JsActionView<S, F> {
        match message {
            JSMessageView::JSTaskNewFile(url) => JsActionView::Load(url),
            JSMessageView::JSTaskNewInlineScript(_, _) => JsActionView::Receive,
            JSMessageView::JSTaskExit => JsActionView::Send(
                HtmlDiscoveryMessageView::HtmlDiscoveredScript(self.files),
            ),
        }
    }
}

impl JsScriptListener {
    /// A listener that was told nothing yet.
    pub fn new() -> (listener: Self)
        ensures
            listener@ == JsScriptListenerView::fresh(),
            listener.files@.len() == 0,
            !listener.exited,
            !listener.failed,
    {
        let listener = JsScriptListener { files: Vec::new(), exited: false, failed: false };
        assert(listener@.files =~= Seq::empty());
        listener
    }

    /// Takes a message, and says what follows from it. None is taken after the last one,
    /// nor after a script that was not text.
    pub fn receive<S, F>(&mut self, message: JSMessage) -> (action: JsAction<S, F>)
        requires
            !old(self)@.ended(),
        ensures
            action@ == old(self)@.action_upon::<S, F>(message@),
            final(self)@ == old(self)@.received(message@),
            final(self).failed == old(self).failed,
            final(self).exited == (old(self).exited || message is JSTaskExit),
            match message {
                JSMessage::JSTaskNewFile(url) => action == JsAction::<S, F>::Load(url)
                    && final(self).files@ == old(self).files@,
                JSMessage::JSTaskNewInlineScript(data, url) => action is Receive
                    && final(self).files@ == old(self).files@.push(JSFile { data, url }),
                JSMessage::JSTaskExit => {
                    &&& action matches JsAction::Send(sent)
                    &&& sent matches HtmlDiscoveryMessage::HtmlDiscoveredScript(files)
                    &&& files@ == old(self).files@
                    &&& final(self).files@.len() == 0
                },
            },
    {
        let ghost before = self@.files;
        match message {
            JSMessage::JSTaskNewFile(url) => JsAction::Load(url),
            JSMessage::JSTaskNewInlineScript(data, url) => {
                self.files.push(JSFile { data, url });
                assert(self@.files =~= before.push(JSFileView { data: data@, url: url@ }));
                JsAction::Receive
            },
            JSMessage::JSTaskExit => {
                let mut files: Vec<JSFile> = Vec::new();
                std::mem::swap(&mut files, &mut self.files);
                self.exited = true;
                assert(self@.files =~= Seq::empty());
                JsAction::Send(HtmlDiscoveryMessage::HtmlDiscoveredScript(files))
            },
        }
    }

    /// Takes what came of loading a script. Bytes that are not text make the listener
    /// fail.
    pub fn loaded(&mut self, loaded: Loaded) -> (taken: Result<(), NotUtf8>)
        requires
            !old(self)@.ended(),
        ensures
            taken is Ok <==> is_text(loaded_view(loaded)),
            final(self)@ == old(self)@.with_loaded(loaded_view(loaded)),
            final(self).exited == old(self).exited,
            match loaded {
                Ok((url, bytes)) => if valid_utf8(bytes@) {
                    &&& taken is Ok
                    &&& final(self).failed == old(self).failed
                    &&& final(self).files@.len() == old(self).files@.len() + 1
                    &&& final(self).files@.drop_last() == old(self).files@
                    &&& final(self).files@.last().data@ == decode_utf8(bytes@)
                    &&& final(self).files@.last().url == url
                } else {
                    &&& taken is Err
                    &&& final(self).failed
                    &&& final(self).files@ == old(self).files@
                },
                Err(_) => taken is Ok && *final(self) == *old(self),
            },
    {
        let ghost before = self@.files;
        match loaded {
            Ok((url, bytes)) => {
                match from_utf8(bytes) {
                    Ok(data) => {
                        self.files.push(JSFile { data, url });
                        assert(self@.files =~= before.push(JSFileView { data: data@, url: url@ }));
                        Ok(())
                    },
                    Err(refused) => {
                        self.failed = true;
                        Err(refused)
                    },
                }
            },
            Err(_) => Ok(()),
        }
    }
}

/// The listener after these messages, where `load(i, ..)` is what came of loading the
/// script that message `i` names. It takes no message after the first that tells it that
/// the page is complete, nor after one whose script is not text.
pub open spec fn listen(
    messages: Seq<JSMessageView>,
    load: spec_fn(int, Seq<char>) -> LoadedView,
) -> JsScriptListenerView
    decreases messages.len(),
{
    if messages.len() == 0 {
        JsScriptListenerView::fresh()
    } else {
        let before = listen(messages.drop_last(), load);
        if before.ended() {
            before
        } else {
            match messages.last() {
                JSMessageView::JSTaskNewFile(url) => before.received(messages.last()).with_loaded(
                    load(messages.len() - 1, url),
                ),
                _ => before.received(messages.last()),
            }
        }
    }
}

/// What the listener sends back over these messages.
pub open spec fn sent_back<S, F>(
    messages: Seq<JSMessageView>,
    load: spec_fn(int, Seq<char>) -> LoadedView,
) -> Seq<HtmlDiscoveryMessageView<S, F>>
    decreases messages.len(),
{
    if messages.len() == 0 {
        Seq::empty()
    } else {
        let before = listen(messages.drop_last(), load);
        let sent = sent_back::<S, F>(messages.drop_last(), load);
        if before.ended() {
            sent
        } else {
            match before.action_upon::<S, F>(messages.last()) {
                JsActionView::Send(message) => sent.push(message),
                _ => sent,
            }
        }
    }
}

/// The addresses that the listener has loaded over these messages.
pub open spec fn loads(
    messages: Seq<JSMessageView>,
    load: spec_fn(int, Seq<char>) -> LoadedView,
) -> Seq<Seq<char>>
    decreases messages.len(),
{
    if messages.len() == 0 {
        Seq::empty()
    } else {
        let before = listen(messages.drop_last(), load);
        let asked = loads(messages.drop_last(), load);
        if before.ended() {
            asked
        } else {
            match before.action_upon::<(), ()>(messages.last()) {
                JsActionView::Load(url) => asked.push(url),
                _ => asked,
            }
        }
    }
}

/// The script that message `i` brings, if it brings one.
pub open spec fn script_of(
    i: int,
    message: JSMessageView,
    load: spec_fn(int, Seq<char>) -> LoadedView,
) -> Option<JSFileView> {
    match message {
        JSMessageView::JSTaskNewInlineScript(data, url) => Some(JSFileView { data, url }),
        JSMessageView::JSTaskNewFile(url) => match load(i, url) {
            Some((final_url, bytes)) => Some(
                JSFileView { data: decode_utf8(bytes), url: final_url },
            ),
            None => None,
        },
        JSMessageView::JSTaskExit => None,
    }
}

/// What is there, without the gaps.
pub open spec fn present<T>(items: Seq<Option<T>>) -> Seq<T>
    decreases items.len(),
{
    if items.len() == 0 {
        Seq::empty()
    } else {
        match items.last() {
            Some(item) => present(items.drop_last()).push(item),
            None => present(items.drop_last()),
        }
    }
}

/// Each thing that is there stays, in its place among the others, and a gap leaves nothing.
pub proof fn law_nothing_present_is_lost<T>(
    first: Seq<Option<T>>,
    second: Seq<Option<T>>,
    item: T,
)
    ensures
        present(first + second) == present(first) + present(second),
        present(seq![Some(item)]) == seq![item],
        present(seq![None::<T>]) == Seq::<T>::empty(),
    decreases second.len(),
{
    let one = seq![Some(item)];
    let gap = seq![None::<T>];
    assert(one.drop_last() =~= Seq::empty());
    assert(gap.drop_last() =~= Seq::empty());
    assert(present(one.drop_last()) =~= Seq::empty());
    assert(present(one) =~= seq![item]);
    assert(present(gap.drop_last()) =~= Seq::empty());
    if second.len() == 0 {
        assert(first + second =~= first);
        assert(present(first) + present(second) =~= present(first));
    } else {
        law_nothing_present_is_lost(first, second.drop_last(), item);
        assert((first + second).drop_last() =~= first + second.drop_last());
        assert(present(first + second) =~= present(first) + present(second));
    }
}

/// The scripts that these messages bring, in that order: those in the page as they are,
/// the others as they were loaded, without those that could not be.
pub open spec fn scripts_of(
    messages: Seq<JSMessageView>,
    load: spec_fn(int, Seq<char>) -> LoadedView,
) -> Seq<JSFileView> {
    present(Seq::new(messages.len(), |i: int| script_of(i, messages[i], load)))
}

/// The addresses that these messages name, in that order.
pub open spec fn addresses_in(messages: Seq<JSMessageView>) -> Seq<Seq<char>> {
    present(
        Seq::new(
            messages.len(),
            |i: int|
                match messages[i] {
                    JSMessageView::JSTaskNewFile(url) => Some(url),
                    _ => None,
                },
        ),
    )
}

/// None of these messages tells that the page is complete.
pub open spec fn no_exit_in(messages: Seq<JSMessageView>) -> bool {
    forall|i: int| 0 <= i < messages.len() ==> !(#[trigger] messages[i] is JSTaskExit)
}

/// What comes of loading the scripts that these messages name is text.
pub open spec fn loads_text(
    messages: Seq<JSMessageView>,
    load: spec_fn(int, Seq<char>) -> LoadedView,
) -> bool {
    forall|i: int|
        0 <= i < messages.len() ==> (#[trigger] messages[i] matches JSMessageView::JSTaskNewFile(
            url,
        ) ==> is_text(load(i, url)))
}

/// The listener sends back the scripts that it was told of, all at once, in that order:
/// those in the page as they are, the others as they were loaded, without those that
/// could not be. It has loaded what it was told to load, and nothing else. What is loaded
/// is text here.
pub proof fn law_scripts_come_back_in_order<S, F>(
    messages: Seq<JSMessageView>,
    load: spec_fn(int, Seq<char>) -> LoadedView,
)
    requires
        no_exit_in(messages),
        loads_text(messages, load),
    ensures
        listen(messages.push(JSMessageView::JSTaskExit), load).exited,
        sent_back::<S, F>(messages.push(JSMessageView::JSTaskExit), load) == seq![
            HtmlDiscoveryMessageView::<S, F>::HtmlDiscoveredScript(scripts_of(messages, load)),
        ],
        loads(messages.push(JSMessageView::JSTaskExit), load) == addresses_in(messages),
{
    let all = messages.push(JSMessageView::JSTaskExit);
    assert(all.drop_last() =~= messages);
    lemma_listen_to_scripts::<S, F>(messages, load);
    assert(sent_back::<S, F>(all, load) =~= seq![
        HtmlDiscoveryMessageView::<S, F>::HtmlDiscoveredScript(scripts_of(messages, load)),
    ]);
}

/// Before the page is complete the listener has the scripts that it was told of.
proof fn lemma_listen_to_scripts<S, F>(
    messages: Seq<JSMessageView>,
    load: spec_fn(int, Seq<char>) -> LoadedView,
)
    requires
        no_exit_in(messages),
        loads_text(messages, load),
    ensures
        listen(messages, load) == (JsScriptListenerView {
            files: scripts_of(messages, load),
            exited: false,
            failed: false,
        }),
        sent_back::<S, F>(messages, load) == Seq::<HtmlDiscoveryMessageView<S, F>>::empty(),
        loads(messages, load) == addresses_in(messages),
    decreases messages.len(),
{
    if messages.len() > 0 {
        let rest = messages.drop_last();
        assert forall|i: int| 0 <= i < rest.len() implies !(#[trigger] rest[i] is JSTaskExit) by {
            assert(rest[i] == messages[i]);
        }
        assert forall|i: int| 0 <= i < rest.len() implies (
        #[trigger] rest[i] matches JSMessageView::JSTaskNewFile(url) ==> is_text(load(i, url))) by {
            assert(rest[i] == messages[i]);
        }
        lemma_listen_to_scripts::<S, F>(rest, load);
        let last = messages[messages.len() - 1];
        assert(!(last is JSTaskExit));
        let scripts = Seq::new(messages.len(), |i: int| script_of(i, messages[i], load));
        assert(scripts.drop_last() =~= Seq::new(
            rest.len(),
            |i: int| script_of(i, rest[i], load),
        ));
        let name = |m: JSMessageView|
            match m {
                JSMessageView::JSTaskNewFile(url) => Some(url),
                _ => None,
            };
        let named = Seq::new(messages.len(), |i: int| name(messages[i]));
        assert(named.drop_last() =~= Seq::new(rest.len(), |i: int| name(rest[i])));
        assert(addresses_in(messages) == present(named)) by {
            assert(named =~= Seq::new(
                messages.len(),
                |i: int|
                    match messages[i] {
                        JSMessageView::JSTaskNewFile(url) => Some(url),
                        _ => None,
                    },
            ));
        }
        assert(addresses_in(rest) == present(named.drop_last())) by {
            assert(named.drop_last() =~= Seq::new(
                rest.len(),
                |i: int|
                    match rest[i] {
                        JSMessageView::JSTaskNewFile(url) => Some(url),
                        _ => None,
                    },
            ));
        }
    }
}

/// Nothing is sent back before the listener is told that the page is complete.
pub proof fn law_no_script_is_sent_before_the_exit<S, F>(
    messages: Seq<JSMessageView>,
    load: spec_fn(int, Seq<char>) -> LoadedView,
)
    requires
        no_exit_in(messages),
    ensures
        !listen(messages, load).exited,
        sent_back::<S, F>(messages, load) == Seq::<HtmlDiscoveryMessageView<S, F>>::empty(),
    decreases messages.len(),
{
    if messages.len() > 0 {
        let rest = messages.drop_last();
        assert forall|i: int| 0 <= i < rest.len() implies !(#[trigger] rest[i] is JSTaskExit) by {
            assert(rest[i] == messages[i]);
        }
        assert(!(messages[messages.len() - 1] is JSTaskExit));
        law_no_script_is_sent_before_the_exit::<S, F>(rest, load);
    }
}

/// A script that is loaded and is not text ends the listener: it fails, loads nothing
/// more, and sends nothing back, whatever it is told later.
pub proof fn law_what_is_not_text_ends_the_listener<S, F>(
    messages: Seq<JSMessageView>,
    url: Seq<char>,
    later: Seq<JSMessageView>,
    load: spec_fn(int, Seq<char>) -> LoadedView,
)
    requires
        no_exit_in(messages),
        loads_text(messages, load),
        !is_text(load(messages.len() as int, url)),
    ensures
        ({
            let all = messages.push(JSMessageView::JSTaskNewFile(url)) + later;
            &&& listen(all, load).failed
            &&& !listen(all, load).exited
            &&& sent_back::<S, F>(all, load) == Seq::<HtmlDiscoveryMessageView<S, F>>::empty()
            &&& loads(all, load) == addresses_in(messages).push(url)
        }),
{
    let told = messages.push(JSMessageView::JSTaskNewFile(url));
    assert(told.drop_last() =~= messages);
    lemma_listen_to_scripts::<S, F>(messages, load);
    lemma_nothing_is_taken_after_the_end::<S, F>(told, later, load);
}

/// Once the listener was told that the page is complete, nothing that follows is taken:
/// it changes neither the listener, nor what is sent back, nor what is loaded.
pub proof fn law_nothing_is_taken_after_the_exit<S, F>(
    messages: Seq<JSMessageView>,
    later: Seq<JSMessageView>,
    load: spec_fn(int, Seq<char>) -> LoadedView,
)
    requires
        exists|i: int| 0 <= i < messages.len() && #[trigger] messages[i] is JSTaskExit,
    ensures
        listen(messages + later, load) == listen(messages, load),
        sent_back::<S, F>(messages + later, load) == sent_back::<S, F>(messages, load),
        loads(messages + later, load) == loads(messages, load),
{
    lemma_exit_is_heard(messages, load);
    lemma_nothing_is_taken_after_the_end::<S, F>(messages, later, load);
}

/// A listener that has ended takes nothing that follows.
proof fn lemma_nothing_is_taken_after_the_end<S, F>(
    messages: Seq<JSMessageView>,
    later: Seq<JSMessageView>,
    load: spec_fn(int, Seq<char>) -> LoadedView,
)
    requires
        listen(messages, load).ended(),
    ensures
        listen(messages + later, load) == listen(messages, load),
        sent_back::<S, F>(messages + later, load) == sent_back::<S, F>(messages, load),
        loads(messages + later, load) == loads(messages, load),
    decreases later.len(),
{
    if later.len() == 0 {
        assert(messages + later =~= messages);
    } else {
        lemma_nothing_is_taken_after_the_end::<S, F>(messages, later.drop_last(), load);
        assert((messages + later).drop_last() =~= messages + later.drop_last());
    }
}

/// A listener that was told that the page is complete has ended, by then or before.
proof fn lemma_exit_is_heard(
    messages: Seq<JSMessageView>,
    load: spec_fn(int, Seq<char>) -> LoadedView,
)
    requires
        exists|i: int| 0 <= i < messages.len() && #[trigger] messages[i] is JSTaskExit,
    ensures
        listen(messages, load).ended(),
    decreases messages.len(),
{
    let rest = messages.drop_last();
    let i = choose|i: int| 0 <= i < messages.len() && #[trigger] messages[i] is JSTaskExit;
    if i < rest.len() {
        assert(rest[i] is JSTaskExit);
        lemma_exit_is_heard(rest, load);
    }
}

} // verus!
