//! The interface that implements each element, chosen by tag name.

use vstd::prelude::*;

use crate::text::eq_slice;

verus! {

/// The level of a heading element.
#[derive(Clone, Copy, Debug, PartialEq, Eq, Structural)]
pub enum HeadingLevel {
    Heading1,
    Heading2,
    Heading3,
    Heading4,
    Heading5,
    Heading6,
}

/// The interface that implements an element.
#[derive(Clone, Copy, Debug, PartialEq, Eq, Structural)]
pub enum ElementTypeId {
    HTMLAnchorElement,
    HTMLAppletElement,
    HTMLAreaElement,
    HTMLBaseElement,
    HTMLBRElement,
    HTMLBodyElement,
    HTMLButtonElement,
    HTMLCanvasElement,
    HTMLDataElement,
    HTMLDataListElement,
    HTMLDirectoryElement,
    HTMLDivElement,
    HTMLDListElement,
    HTMLEmbedElement,
    HTMLFieldSetElement,
    HTMLFontElement,
    HTMLFormElement,
    HTMLFrameElement,
    HTMLFrameSetElement,
    HTMLHRElement,
    HTMLHeadElement,
    HTMLHtmlElement,
    HTMLInputElement,
    HTMLLabelElement,
    HTMLLegendElement,
    HTMLLinkElement,
    HTMLLIElement,
    HTMLMapElement,
    HTMLMainElement,
    HTMLMetaElement,
    HTMLMeterElement,
    HTMLElement,
    HTMLAudioElement,
    HTMLTableCaptionElement,
    HTMLTableColElement,
    HTMLModElement,
    HTMLHeadingElement(HeadingLevel),
    HTMLIFrameElement,
    HTMLImageElement,
    HTMLObjectElement,
    HTMLOListElement,
    HTMLOptGroupElement,
    HTMLOptionElement,
    HTMLOutputElement,
    HTMLParagraphElement,
    HTMLParamElement,
    HTMLPreElement,
    HTMLProgressElement,
    HTMLQuoteElement,
    HTMLScriptElement,
    HTMLSelectElement,
    HTMLSourceElement,
    HTMLSpanElement,
    HTMLStyleElement,
    HTMLTableElement,
    HTMLTableSectionElement,
    HTMLTableDataCellElement,
    HTMLTemplateElement,
    HTMLTextAreaElement,
    HTMLTableHeaderCellElement,
    HTMLTimeElement,
    HTMLTitleElement,
    HTMLTableRowElement,
    HTMLTrackElement,
    HTMLUListElement,
    HTMLVideoElement,
    HTMLUnknownElement,
}

/// Whether the interface `id` claims the tag name `tag` for itself. The interface
/// of unknown elements claims no name.
pub open spec fn claims(id: ElementTypeId, tag: Seq<char>) -> bool {
    match id {
        ElementTypeId::HTMLAnchorElement => tag == "a"@,
        ElementTypeId::HTMLAppletElement => tag == "applet"@,
        ElementTypeId::HTMLAreaElement => tag == "area"@,
        ElementTypeId::HTMLBaseElement => tag == "base"@,
        ElementTypeId::HTMLBRElement => tag == "br"@,
        ElementTypeId::HTMLBodyElement => tag == "body"@,
        ElementTypeId::HTMLButtonElement => tag == "button"@,
        ElementTypeId::HTMLCanvasElement => tag == "canvas"@,
        ElementTypeId::HTMLDataElement => tag == "data"@,
        ElementTypeId::HTMLDataListElement => tag == "datalist"@,
        ElementTypeId::HTMLDirectoryElement => tag == "dir"@,
        ElementTypeId::HTMLDivElement => tag == "div"@,
        ElementTypeId::HTMLDListElement => tag == "dl"@,
        ElementTypeId::HTMLEmbedElement => tag == "embed"@,
        ElementTypeId::HTMLFieldSetElement => tag == "fieldset"@,
        ElementTypeId::HTMLFontElement => tag == "font"@,
        ElementTypeId::HTMLFormElement => tag == "form"@,
        ElementTypeId::HTMLFrameElement => tag == "frame"@,
        ElementTypeId::HTMLFrameSetElement => tag == "frameset"@,
        ElementTypeId::HTMLHRElement => tag == "hr"@,
        ElementTypeId::HTMLHeadElement => tag == "head"@,
        ElementTypeId::HTMLHtmlElement => tag == "html"@,
        ElementTypeId::HTMLInputElement => tag == "input"@,
        ElementTypeId::HTMLLabelElement => tag == "label"@,
        ElementTypeId::HTMLLegendElement => tag == "legend"@,
        ElementTypeId::HTMLLinkElement => tag == "link"@,
        ElementTypeId::HTMLLIElement => tag == "li"@,
        ElementTypeId::HTMLMapElement => tag == "map"@,
        ElementTypeId::HTMLMainElement => tag == "main"@,
        ElementTypeId::HTMLMetaElement => tag == "meta"@,
        ElementTypeId::HTMLMeterElement => tag == "meter"@,
        ElementTypeId::HTMLElement => {
            ||| tag == "aside"@
            ||| tag == "b"@
            ||| tag == "i"@
            ||| tag == "section"@
            ||| tag == "small"@
        },
        ElementTypeId::HTMLAudioElement => tag == "audio"@,
        ElementTypeId::HTMLTableCaptionElement => tag == "caption"@,
        ElementTypeId::HTMLTableColElement => {
            ||| tag == "col"@
            ||| tag == "colgroup"@
        },
        ElementTypeId::HTMLModElement => {
            ||| tag == "del"@
            ||| tag == "ins"@
        },
        ElementTypeId::HTMLHeadingElement(level) => match level {
            HeadingLevel::Heading1 => tag == "h1"@,
            HeadingLevel::Heading2 => tag == "h2"@,
            HeadingLevel::Heading3 => tag == "h3"@,
            HeadingLevel::Heading4 => tag == "h4"@,
            HeadingLevel::Heading5 => tag == "h5"@,
            HeadingLevel::Heading6 => tag == "h6"@,
        },
        ElementTypeId::HTMLIFrameElement => tag == "iframe"@,
        ElementTypeId::HTMLImageElement => tag == "img"@,
        ElementTypeId::HTMLObjectElement => tag == "object"@,
        ElementTypeId::HTMLOListElement => tag == "ol"@,
        ElementTypeId::HTMLOptGroupElement => tag == "optgroup"@,
        ElementTypeId::HTMLOptionElement => tag == "option"@,
        ElementTypeId::HTMLOutputElement => tag == "output"@,
        ElementTypeId::HTMLParagraphElement => tag == "p"@,
        ElementTypeId::HTMLParamElement => tag == "param"@,
        ElementTypeId::HTMLPreElement => tag == "pre"@,
        ElementTypeId::HTMLProgressElement => tag == "progress"@,
        ElementTypeId::HTMLQuoteElement => tag == "q"@,
        ElementTypeId::HTMLScriptElement => tag == "script"@,
        ElementTypeId::HTMLSelectElement => tag == "select"@,
        ElementTypeId::HTMLSourceElement => tag == "source"@,
        ElementTypeId::HTMLSpanElement => tag == "span"@,
        ElementTypeId::HTMLStyleElement => tag == "style"@,
        ElementTypeId::HTMLTableElement => tag == "table"@,
        ElementTypeId::HTMLTableSectionElement => tag == "tbody"@,
        ElementTypeId::HTMLTableDataCellElement => tag == "td"@,
        ElementTypeId::HTMLTemplateElement => tag == "template"@,
        ElementTypeId::HTMLTextAreaElement => tag == "textarea"@,
        ElementTypeId::HTMLTableHeaderCellElement => tag == "th"@,
        ElementTypeId::HTMLTimeElement => tag == "time"@,
        ElementTypeId::HTMLTitleElement => tag == "title"@,
        ElementTypeId::HTMLTableRowElement => tag == "tr"@,
        ElementTypeId::HTMLTrackElement => tag == "track"@,
        ElementTypeId::HTMLUListElement => tag == "ul"@,
        ElementTypeId::HTMLVideoElement => tag == "video"@,
        ElementTypeId::HTMLUnknownElement => false,
    }
}

/// The interface for a tag name: the one that claims it, or the interface of
/// unknown elements where none does.
pub open spec fn interface_of(tag: Seq<char>) -> ElementTypeId {
    if exists|id: ElementTypeId| claims(id, tag) {
        choose|id: ElementTypeId| claims(id, tag)
    } else {
        ElementTypeId::HTMLUnknownElement
    }
}

/// What tells the claimed tag names apart: the length and the first characters.
spec fn digest(s: Seq<char>) -> (nat, char, char, char) {
    (s.len(), s[0], s[1], s[2])
}

/// No tag name is claimed by two interfaces.
pub proof fn law_one_interface_claims_a_tag(a: ElementTypeId, b: ElementTypeId, tag: Seq<char>)
    requires
        claims(a, tag),
        claims(b, tag),
    ensures
        a == b,
{
    reveal_strlit("a");
    reveal_strlit("applet");
    reveal_strlit("area");
    reveal_strlit("base");
    reveal_strlit("br");
    reveal_strlit("body");
    reveal_strlit("button");
    reveal_strlit("canvas");
    reveal_strlit("data");
    reveal_strlit("datalist");
    reveal_strlit("dir");
    reveal_strlit("div");
    reveal_strlit("dl");
    reveal_strlit("embed");
    reveal_strlit("fieldset");
    reveal_strlit("font");
    reveal_strlit("form");
    reveal_strlit("frame");
    reveal_strlit("frameset");
    reveal_strlit("hr");
    reveal_strlit("head");
    reveal_strlit("html");
    reveal_strlit("input");
    reveal_strlit("label");
    reveal_strlit("legend");
    reveal_strlit("link");
    reveal_strlit("li");
    reveal_strlit("map");
    reveal_strlit("main");
    reveal_strlit("meta");
    reveal_strlit("meter");
    reveal_strlit("aside");
    reveal_strlit("b");
    reveal_strlit("i");
    reveal_strlit("section");
    reveal_strlit("small");
    reveal_strlit("audio");
    reveal_strlit("caption");
    reveal_strlit("col");
    reveal_strlit("colgroup");
    reveal_strlit("del");
    reveal_strlit("h1");
    reveal_strlit("h2");
    reveal_strlit("h3");
    reveal_strlit("h4");
    reveal_strlit("h5");
    reveal_strlit("h6");
    reveal_strlit("iframe");
    reveal_strlit("img");
    reveal_strlit("ins");
    reveal_strlit("object");
    reveal_strlit("ol");
    reveal_strlit("optgroup");
    reveal_strlit("option");
    reveal_strlit("output");
    reveal_strlit("p");
    reveal_strlit("param");
    reveal_strlit("pre");
    reveal_strlit("progress");
    reveal_strlit("q");
    reveal_strlit("script");
    reveal_strlit("select");
    reveal_strlit("source");
    reveal_strlit("span");
    reveal_strlit("style");
    reveal_strlit("table");
    reveal_strlit("tbody");
    reveal_strlit("td");
    reveal_strlit("template");
    reveal_strlit("textarea");
    reveal_strlit("th");
    reveal_strlit("time");
    reveal_strlit("title");
    reveal_strlit("tr");
    reveal_strlit("track");
    reveal_strlit("ul");
    reveal_strlit("video");
    // The names differ in their digests; each one is mentioned so that it is worked out.
    let _ = digest(tag);
    let _ = digest("a"@);
    let _ = digest("applet"@);
    let _ = digest("area"@);
    let _ = digest("base"@);
    let _ = digest("br"@);
    let _ = digest("body"@);
    let _ = digest("button"@);
    let _ = digest("canvas"@);
    let _ = digest("data"@);
    let _ = digest("datalist"@);
    let _ = digest("dir"@);
    let _ = digest("div"@);
    let _ = digest("dl"@);
    let _ = digest("embed"@);
    let _ = digest("fieldset"@);
    let _ = digest("font"@);
    let _ = digest("form"@);
    let _ = digest("frame"@);
    let _ = digest("frameset"@);
    let _ = digest("hr"@);
    let _ = digest("head"@);
    let _ = digest("html"@);
    let _ = digest("input"@);
    let _ = digest("label"@);
    let _ = digest("legend"@);
    let _ = digest("link"@);
    let _ = digest("li"@);
    let _ = digest("map"@);
    let _ = digest("main"@);
    let _ = digest("meta"@);
    let _ = digest("meter"@);
    let _ = digest("aside"@);
    let _ = digest("b"@);
    let _ = digest("i"@);
    let _ = digest("section"@);
    let _ = digest("small"@);
    let _ = digest("audio"@);
    let _ = digest("caption"@);
    let _ = digest("col"@);
    let _ = digest("colgroup"@);
    let _ = digest("del"@);
    let _ = digest("h1"@);
    let _ = digest("h2"@);
    let _ = digest("h3"@);
    let _ = digest("h4"@);
    let _ = digest("h5"@);
    let _ = digest("h6"@);
    let _ = digest("iframe"@);
    let _ = digest("img"@);
    let _ = digest("ins"@);
    let _ = digest("object"@);
    let _ = digest("ol"@);
    let _ = digest("optgroup"@);
    let _ = digest("option"@);
    let _ = digest("output"@);
    let _ = digest("p"@);
    let _ = digest("param"@);
    let _ = digest("pre"@);
    let _ = digest("progress"@);
    let _ = digest("q"@);
    let _ = digest("script"@);
    let _ = digest("select"@);
    let _ = digest("source"@);
    let _ = digest("span"@);
    let _ = digest("style"@);
    let _ = digest("table"@);
    let _ = digest("tbody"@);
    let _ = digest("td"@);
    let _ = digest("template"@);
    let _ = digest("textarea"@);
    let _ = digest("th"@);
    let _ = digest("time"@);
    let _ = digest("title"@);
    let _ = digest("tr"@);
    let _ = digest("track"@);
    let _ = digest("ul"@);
    let _ = digest("video"@);
}

/// A tag name has the interface that claims it, and only the names that no interface
/// claims are unknown.
pub proof fn law_interface_of_tag(id: ElementTypeId, tag: Seq<char>)
    ensures
        claims(id, tag) ==> interface_of(tag) == id,
        interface_of(tag) == ElementTypeId::HTMLUnknownElement <==> !exists|other: ElementTypeId|
            claims(other, tag),
{
    if claims(id, tag) {
        law_one_interface_claims_a_tag(interface_of(tag), id, tag);
    }
}

/// The interface of each tag name, and that every other name is unknown.
pub proof fn law_interfaces_by_name(tag: Seq<char>)
    ensures
        tag == "a"@ ==> interface_of(tag) == ElementTypeId::HTMLAnchorElement,
        tag == "applet"@ ==> interface_of(tag) == ElementTypeId::HTMLAppletElement,
        tag == "area"@ ==> interface_of(tag) == ElementTypeId::HTMLAreaElement,
        tag == "base"@ ==> interface_of(tag) == ElementTypeId::HTMLBaseElement,
        tag == "br"@ ==> interface_of(tag) == ElementTypeId::HTMLBRElement,
        tag == "body"@ ==> interface_of(tag) == ElementTypeId::HTMLBodyElement,
        tag == "button"@ ==> interface_of(tag) == ElementTypeId::HTMLButtonElement,
        tag == "canvas"@ ==> interface_of(tag) == ElementTypeId::HTMLCanvasElement,
        tag == "data"@ ==> interface_of(tag) == ElementTypeId::HTMLDataElement,
        tag == "datalist"@ ==> interface_of(tag) == ElementTypeId::HTMLDataListElement,
        tag == "dir"@ ==> interface_of(tag) == ElementTypeId::HTMLDirectoryElement,
        tag == "div"@ ==> interface_of(tag) == ElementTypeId::HTMLDivElement,
        tag == "dl"@ ==> interface_of(tag) == ElementTypeId::HTMLDListElement,
        tag == "embed"@ ==> interface_of(tag) == ElementTypeId::HTMLEmbedElement,
        tag == "fieldset"@ ==> interface_of(tag) == ElementTypeId::HTMLFieldSetElement,
        tag == "font"@ ==> interface_of(tag) == ElementTypeId::HTMLFontElement,
        tag == "form"@ ==> interface_of(tag) == ElementTypeId::HTMLFormElement,
        tag == "frame"@ ==> interface_of(tag) == ElementTypeId::HTMLFrameElement,
        tag == "frameset"@ ==> interface_of(tag) == ElementTypeId::HTMLFrameSetElement,
        tag == "hr"@ ==> interface_of(tag) == ElementTypeId::HTMLHRElement,
        tag == "head"@ ==> interface_of(tag) == ElementTypeId::HTMLHeadElement,
        tag == "html"@ ==> interface_of(tag) == ElementTypeId::HTMLHtmlElement,
        tag == "input"@ ==> interface_of(tag) == ElementTypeId::HTMLInputElement,
        tag == "label"@ ==> interface_of(tag) == ElementTypeId::HTMLLabelElement,
        tag == "legend"@ ==> interface_of(tag) == ElementTypeId::HTMLLegendElement,
        tag == "link"@ ==> interface_of(tag) == ElementTypeId::HTMLLinkElement,
        tag == "li"@ ==> interface_of(tag) == ElementTypeId::HTMLLIElement,
        tag == "map"@ ==> interface_of(tag) == ElementTypeId::HTMLMapElement,
        tag == "main"@ ==> interface_of(tag) == ElementTypeId::HTMLMainElement,
        tag == "meta"@ ==> interface_of(tag) == ElementTypeId::HTMLMetaElement,
        tag == "meter"@ ==> interface_of(tag) == ElementTypeId::HTMLMeterElement,
        tag == "aside"@ ==> interface_of(tag) == ElementTypeId::HTMLElement,
        tag == "b"@ ==> interface_of(tag) == ElementTypeId::HTMLElement,
        tag == "i"@ ==> interface_of(tag) == ElementTypeId::HTMLElement,
        tag == "section"@ ==> interface_of(tag) == ElementTypeId::HTMLElement,
        tag == "small"@ ==> interface_of(tag) == ElementTypeId::HTMLElement,
        tag == "audio"@ ==> interface_of(tag) == ElementTypeId::HTMLAudioElement,
        tag == "caption"@ ==> interface_of(tag) == ElementTypeId::HTMLTableCaptionElement,
        tag == "col"@ ==> interface_of(tag) == ElementTypeId::HTMLTableColElement,
        tag == "colgroup"@ ==> interface_of(tag) == ElementTypeId::HTMLTableColElement,
        tag == "del"@ ==> interface_of(tag) == ElementTypeId::HTMLModElement,
        tag == "h1"@ ==> interface_of(tag)
            == ElementTypeId::HTMLHeadingElement(HeadingLevel::Heading1),
        tag == "h2"@ ==> interface_of(tag)
            == ElementTypeId::HTMLHeadingElement(HeadingLevel::Heading2),
        tag == "h3"@ ==> interface_of(tag)
            == ElementTypeId::HTMLHeadingElement(HeadingLevel::Heading3),
        tag == "h4"@ ==> interface_of(tag)
            == ElementTypeId::HTMLHeadingElement(HeadingLevel::Heading4),
        tag == "h5"@ ==> interface_of(tag)
            == ElementTypeId::HTMLHeadingElement(HeadingLevel::Heading5),
        tag == "h6"@ ==> interface_of(tag)
            == ElementTypeId::HTMLHeadingElement(HeadingLevel::Heading6),
        tag == "iframe"@ ==> interface_of(tag) == ElementTypeId::HTMLIFrameElement,
        tag == "img"@ ==> interface_of(tag) == ElementTypeId::HTMLImageElement,
        tag == "ins"@ ==> interface_of(tag) == ElementTypeId::HTMLModElement,
        tag == "object"@ ==> interface_of(tag) == ElementTypeId::HTMLObjectElement,
        tag == "ol"@ ==> interface_of(tag) == ElementTypeId::HTMLOListElement,
        tag == "optgroup"@ ==> interface_of(tag) == ElementTypeId::HTMLOptGroupElement,
        tag == "option"@ ==> interface_of(tag) == ElementTypeId::HTMLOptionElement,
        tag == "output"@ ==> interface_of(tag) == ElementTypeId::HTMLOutputElement,
        tag == "p"@ ==> interface_of(tag) == ElementTypeId::HTMLParagraphElement,
        tag == "param"@ ==> interface_of(tag) == ElementTypeId::HTMLParamElement,
        tag == "pre"@ ==> interface_of(tag) == ElementTypeId::HTMLPreElement,
        tag == "progress"@ ==> interface_of(tag) == ElementTypeId::HTMLProgressElement,
        tag == "q"@ ==> interface_of(tag) == ElementTypeId::HTMLQuoteElement,
        tag == "script"@ ==> interface_of(tag) == ElementTypeId::HTMLScriptElement,
        tag == "select"@ ==> interface_of(tag) == ElementTypeId::HTMLSelectElement,
        tag == "source"@ ==> interface_of(tag) == ElementTypeId::HTMLSourceElement,
        tag == "span"@ ==> interface_of(tag) == ElementTypeId::HTMLSpanElement,
        tag == "style"@ ==> interface_of(tag) == ElementTypeId::HTMLStyleElement,
        tag == "table"@ ==> interface_of(tag) == ElementTypeId::HTMLTableElement,
        tag == "tbody"@ ==> interface_of(tag) == ElementTypeId::HTMLTableSectionElement,
        tag == "td"@ ==> interface_of(tag) == ElementTypeId::HTMLTableDataCellElement,
        tag == "template"@ ==> interface_of(tag) == ElementTypeId::HTMLTemplateElement,
        tag == "textarea"@ ==> interface_of(tag) == ElementTypeId::HTMLTextAreaElement,
        tag == "th"@ ==> interface_of(tag) == ElementTypeId::HTMLTableHeaderCellElement,
        tag == "time"@ ==> interface_of(tag) == ElementTypeId::HTMLTimeElement,
        tag == "title"@ ==> interface_of(tag) == ElementTypeId::HTMLTitleElement,
        tag == "tr"@ ==> interface_of(tag) == ElementTypeId::HTMLTableRowElement,
        tag == "track"@ ==> interface_of(tag) == ElementTypeId::HTMLTrackElement,
        tag == "ul"@ ==> interface_of(tag) == ElementTypeId::HTMLUListElement,
        tag == "video"@ ==> interface_of(tag) == ElementTypeId::HTMLVideoElement,
        interface_of(tag) == ElementTypeId::HTMLUnknownElement <==> {
            &&& tag != "a"@
            &&& tag != "applet"@
            &&& tag != "area"@
            &&& tag != "base"@
            &&& tag != "br"@
            &&& tag != "body"@
            &&& tag != "button"@
            &&& tag != "canvas"@
            &&& tag != "data"@
            &&& tag != "datalist"@
            &&& tag != "dir"@
            &&& tag != "div"@
            &&& tag != "dl"@
            &&& tag != "embed"@
            &&& tag != "fieldset"@
            &&& tag != "font"@
            &&& tag != "form"@
            &&& tag != "frame"@
            &&& tag != "frameset"@
            &&& tag != "hr"@
            &&& tag != "head"@
            &&& tag != "html"@
            &&& tag != "input"@
            &&& tag != "label"@
            &&& tag != "legend"@
            &&& tag != "link"@
            &&& tag != "li"@
            &&& tag != "map"@
            &&& tag != "main"@
            &&& tag != "meta"@
            &&& tag != "meter"@
            &&& tag != "aside"@
            &&& tag != "b"@
            &&& tag != "i"@
            &&& tag != "section"@
            &&& tag != "small"@
            &&& tag != "audio"@
            &&& tag != "caption"@
            &&& tag != "col"@
            &&& tag != "colgroup"@
            &&& tag != "del"@
            &&& tag != "h1"@
            &&& tag != "h2"@
            &&& tag != "h3"@
            &&& tag != "h4"@
            &&& tag != "h5"@
            &&& tag != "h6"@
            &&& tag != "iframe"@
            &&& tag != "img"@
            &&& tag != "ins"@
            &&& tag != "object"@
            &&& tag != "ol"@
            &&& tag != "optgroup"@
            &&& tag != "option"@
            &&& tag != "output"@
            &&& tag != "p"@
            &&& tag != "param"@
            &&& tag != "pre"@
            &&& tag != "progress"@
            &&& tag != "q"@
            &&& tag != "script"@
            &&& tag != "select"@
            &&& tag != "source"@
            &&& tag != "span"@
            &&& tag != "style"@
            &&& tag != "table"@
            &&& tag != "tbody"@
            &&& tag != "td"@
            &&& tag != "template"@
            &&& tag != "textarea"@
            &&& tag != "th"@
            &&& tag != "time"@
            &&& tag != "title"@
            &&& tag != "tr"@
            &&& tag != "track"@
            &&& tag != "ul"@
            &&& tag != "video"@
        },
{
    law_interface_of_tag(ElementTypeId::HTMLAnchorElement, tag);
    law_interface_of_tag(ElementTypeId::HTMLAppletElement, tag);
    law_interface_of_tag(ElementTypeId::HTMLAreaElement, tag);
    law_interface_of_tag(ElementTypeId::HTMLBaseElement, tag);
    law_interface_of_tag(ElementTypeId::HTMLBRElement, tag);
    law_interface_of_tag(ElementTypeId::HTMLBodyElement, tag);
    law_interface_of_tag(ElementTypeId::HTMLButtonElement, tag);
    law_interface_of_tag(ElementTypeId::HTMLCanvasElement, tag);
    law_interface_of_tag(ElementTypeId::HTMLDataElement, tag);
    law_interface_of_tag(ElementTypeId::HTMLDataListElement, tag);
    law_interface_of_tag(ElementTypeId::HTMLDirectoryElement, tag);
    law_interface_of_tag(ElementTypeId::HTMLDivElement, tag);
    law_interface_of_tag(ElementTypeId::HTMLDListElement, tag);
    law_interface_of_tag(ElementTypeId::HTMLEmbedElement, tag);
    law_interface_of_tag(ElementTypeId::HTMLFieldSetElement, tag);
    law_interface_of_tag(ElementTypeId::HTMLFontElement, tag);
    law_interface_of_tag(ElementTypeId::HTMLFormElement, tag);
    law_interface_of_tag(ElementTypeId::HTMLFrameElement, tag);
    law_interface_of_tag(ElementTypeId::HTMLFrameSetElement, tag);
    law_interface_of_tag(ElementTypeId::HTMLHRElement, tag);
    law_interface_of_tag(ElementTypeId::HTMLHeadElement, tag);
    law_interface_of_tag(ElementTypeId::HTMLHtmlElement, tag);
    law_interface_of_tag(ElementTypeId::HTMLInputElement, tag);
    law_interface_of_tag(ElementTypeId::HTMLLabelElement, tag);
    law_interface_of_tag(ElementTypeId::HTMLLegendElement, tag);
    law_interface_of_tag(ElementTypeId::HTMLLinkElement, tag);
    law_interface_of_tag(ElementTypeId::HTMLLIElement, tag);
    law_interface_of_tag(ElementTypeId::HTMLMapElement, tag);
    law_interface_of_tag(ElementTypeId::HTMLMainElement, tag);
    law_interface_of_tag(ElementTypeId::HTMLMetaElement, tag);
    law_interface_of_tag(ElementTypeId::HTMLMeterElement, tag);
    law_interface_of_tag(ElementTypeId::HTMLElement, tag);
    law_interface_of_tag(ElementTypeId::HTMLAudioElement, tag);
    law_interface_of_tag(ElementTypeId::HTMLTableCaptionElement, tag);
    law_interface_of_tag(ElementTypeId::HTMLTableColElement, tag);
    law_interface_of_tag(ElementTypeId::HTMLModElement, tag);
    law_interface_of_tag(ElementTypeId::HTMLHeadingElement(HeadingLevel::Heading1), tag);
    law_interface_of_tag(ElementTypeId::HTMLHeadingElement(HeadingLevel::Heading2), tag);
    law_interface_of_tag(ElementTypeId::HTMLHeadingElement(HeadingLevel::Heading3), tag);
    law_interface_of_tag(ElementTypeId::HTMLHeadingElement(HeadingLevel::Heading4), tag);
    law_interface_of_tag(ElementTypeId::HTMLHeadingElement(HeadingLevel::Heading5), tag);
    law_interface_of_tag(ElementTypeId::HTMLHeadingElement(HeadingLevel::Heading6), tag);
    law_interface_of_tag(ElementTypeId::HTMLIFrameElement, tag);
    law_interface_of_tag(ElementTypeId::HTMLImageElement, tag);
    law_interface_of_tag(ElementTypeId::HTMLObjectElement, tag);
    law_interface_of_tag(ElementTypeId::HTMLOListElement, tag);
    law_interface_of_tag(ElementTypeId::HTMLOptGroupElement, tag);
    law_interface_of_tag(ElementTypeId::HTMLOptionElement, tag);
    law_interface_of_tag(ElementTypeId::HTMLOutputElement, tag);
    law_interface_of_tag(ElementTypeId::HTMLParagraphElement, tag);
    law_interface_of_tag(ElementTypeId::HTMLParamElement, tag);
    law_interface_of_tag(ElementTypeId::HTMLPreElement, tag);
    law_interface_of_tag(ElementTypeId::HTMLProgressElement, tag);
    law_interface_of_tag(ElementTypeId::HTMLQuoteElement, tag);
    law_interface_of_tag(ElementTypeId::HTMLScriptElement, tag);
    law_interface_of_tag(ElementTypeId::HTMLSelectElement, tag);
    law_interface_of_tag(ElementTypeId::HTMLSourceElement, tag);
    law_interface_of_tag(ElementTypeId::HTMLSpanElement, tag);
    law_interface_of_tag(ElementTypeId::HTMLStyleElement, tag);
    law_interface_of_tag(ElementTypeId::HTMLTableElement, tag);
    law_interface_of_tag(ElementTypeId::HTMLTableSectionElement, tag);
    law_interface_of_tag(ElementTypeId::HTMLTableDataCellElement, tag);
    law_interface_of_tag(ElementTypeId::HTMLTemplateElement, tag);
    law_interface_of_tag(ElementTypeId::HTMLTextAreaElement, tag);
    law_interface_of_tag(ElementTypeId::HTMLTableHeaderCellElement, tag);
    law_interface_of_tag(ElementTypeId::HTMLTimeElement, tag);
    law_interface_of_tag(ElementTypeId::HTMLTitleElement, tag);
    law_interface_of_tag(ElementTypeId::HTMLTableRowElement, tag);
    law_interface_of_tag(ElementTypeId::HTMLTrackElement, tag);
    law_interface_of_tag(ElementTypeId::HTMLUListElement, tag);
    law_interface_of_tag(ElementTypeId::HTMLVideoElement, tag);
    law_interface_of_tag(ElementTypeId::HTMLUnknownElement, tag);
    if interface_of(tag) != ElementTypeId::HTMLUnknownElement {
        assert(claims(interface_of(tag), tag));
    }
}

/// The interface that claims `tag`, found by comparing with one name after another.
fn claimant(tag: &str) -> (id: ElementTypeId)
    ensures
        claims(id, tag@) || (id == ElementTypeId::HTMLUnknownElement && forall|other: ElementTypeId|
            !claims(other, tag@)),
{
    if eq_slice(tag, "a") {
        return ElementTypeId::HTMLAnchorElement;
    }
    if eq_slice(tag, "applet") {
        return ElementTypeId::HTMLAppletElement;
    }
    if eq_slice(tag, "area") {
        return ElementTypeId::HTMLAreaElement;
    }
    if eq_slice(tag, "base") {
        return ElementTypeId::HTMLBaseElement;
    }
    if eq_slice(tag, "br") {
        return ElementTypeId::HTMLBRElement;
    }
    if eq_slice(tag, "body") {
        return ElementTypeId::HTMLBodyElement;
    }
    if eq_slice(tag, "button") {
        return ElementTypeId::HTMLButtonElement;
    }
    if eq_slice(tag, "canvas") {
        return ElementTypeId::HTMLCanvasElement;
    }
    if eq_slice(tag, "data") {
        return ElementTypeId::HTMLDataElement;
    }
    if eq_slice(tag, "datalist") {
        return ElementTypeId::HTMLDataListElement;
    }
    if eq_slice(tag, "dir") {
        return ElementTypeId::HTMLDirectoryElement;
    }
    if eq_slice(tag, "div") {
        return ElementTypeId::HTMLDivElement;
    }
    if eq_slice(tag, "dl") {
        return ElementTypeId::HTMLDListElement;
    }
    if eq_slice(tag, "embed") {
        return ElementTypeId::HTMLEmbedElement;
    }
    if eq_slice(tag, "fieldset") {
        return ElementTypeId::HTMLFieldSetElement;
    }
    if eq_slice(tag, "font") {
        return ElementTypeId::HTMLFontElement;
    }
    if eq_slice(tag, "form") {
        return ElementTypeId::HTMLFormElement;
    }
    if eq_slice(tag, "frame") {
        return ElementTypeId::HTMLFrameElement;
    }
    if eq_slice(tag, "frameset") {
        return ElementTypeId::HTMLFrameSetElement;
    }
    if eq_slice(tag, "hr") {
        return ElementTypeId::HTMLHRElement;
    }
    if eq_slice(tag, "head") {
        return ElementTypeId::HTMLHeadElement;
    }
    if eq_slice(tag, "html") {
        return ElementTypeId::HTMLHtmlElement;
    }
    if eq_slice(tag, "input") {
        return ElementTypeId::HTMLInputElement;
    }
    if eq_slice(tag, "label") {
        return ElementTypeId::HTMLLabelElement;
    }
    if eq_slice(tag, "legend") {
        return ElementTypeId::HTMLLegendElement;
    }
    if eq_slice(tag, "link") {
        return ElementTypeId::HTMLLinkElement;
    }
    if eq_slice(tag, "li") {
        return ElementTypeId::HTMLLIElement;
    }
    if eq_slice(tag, "map") {
        return ElementTypeId::HTMLMapElement;
    }
    if eq_slice(tag, "main") {
        return ElementTypeId::HTMLMainElement;
    }
    if eq_slice(tag, "meta") {
        return ElementTypeId::HTMLMetaElement;
    }
    if eq_slice(tag, "meter") {
        return ElementTypeId::HTMLMeterElement;
    }
    if eq_slice(tag, "aside") {
        return ElementTypeId::HTMLElement;
    }
    if eq_slice(tag, "b") {
        return ElementTypeId::HTMLElement;
    }
    if eq_slice(tag, "i") {
        return ElementTypeId::HTMLElement;
    }
    if eq_slice(tag, "section") {
        return ElementTypeId::HTMLElement;
    }
    if eq_slice(tag, "small") {
        return ElementTypeId::HTMLElement;
    }
    if eq_slice(tag, "audio") {
        return ElementTypeId::HTMLAudioElement;
    }
    if eq_slice(tag, "caption") {
        return ElementTypeId::HTMLTableCaptionElement;
    }
    if eq_slice(tag, "col") {
        return ElementTypeId::HTMLTableColElement;
    }
    if eq_slice(tag, "colgroup") {
        return ElementTypeId::HTMLTableColElement;
    }
    if eq_slice(tag, "del") {
        return ElementTypeId::HTMLModElement;
    }
    if eq_slice(tag, "h1") {
        return ElementTypeId::HTMLHeadingElement(HeadingLevel::Heading1);
    }
    if eq_slice(tag, "h2") {
        return ElementTypeId::HTMLHeadingElement(HeadingLevel::Heading2);
    }
    if eq_slice(tag, "h3") {
        return ElementTypeId::HTMLHeadingElement(HeadingLevel::Heading3);
    }
    if eq_slice(tag, "h4") {
        return ElementTypeId::HTMLHeadingElement(HeadingLevel::Heading4);
    }
    if eq_slice(tag, "h5") {
        return ElementTypeId::HTMLHeadingElement(HeadingLevel::Heading5);
    }
    if eq_slice(tag, "h6") {
        return ElementTypeId::HTMLHeadingElement(HeadingLevel::Heading6);
    }
    if eq_slice(tag, "iframe") {
        return ElementTypeId::HTMLIFrameElement;
    }
    if eq_slice(tag, "img") {
        return ElementTypeId::HTMLImageElement;
    }
    if eq_slice(tag, "ins") {
        return ElementTypeId::HTMLModElement;
    }
    if eq_slice(tag, "object") {
        return ElementTypeId::HTMLObjectElement;
    }
    if eq_slice(tag, "ol") {
        return ElementTypeId::HTMLOListElement;
    }
    if eq_slice(tag, "optgroup") {
        return ElementTypeId::HTMLOptGroupElement;
    }
    if eq_slice(tag, "option") {
        return ElementTypeId::HTMLOptionElement;
    }
    if eq_slice(tag, "output") {
        return ElementTypeId::HTMLOutputElement;
    }
    if eq_slice(tag, "p") {
        return ElementTypeId::HTMLParagraphElement;
    }
    if eq_slice(tag, "param") {
        return ElementTypeId::HTMLParamElement;
    }
    if eq_slice(tag, "pre") {
        return ElementTypeId::HTMLPreElement;
    }
    if eq_slice(tag, "progress") {
        return ElementTypeId::HTMLProgressElement;
    }
    if eq_slice(tag, "q") {
        return ElementTypeId::HTMLQuoteElement;
    }
    if eq_slice(tag, "script") {
        return ElementTypeId::HTMLScriptElement;
    }
    if eq_slice(tag, "select") {
        return ElementTypeId::HTMLSelectElement;
    }
    if eq_slice(tag, "source") {
        return ElementTypeId::HTMLSourceElement;
    }
    if eq_slice(tag, "span") {
        return ElementTypeId::HTMLSpanElement;
    }
    if eq_slice(tag, "style") {
        return ElementTypeId::HTMLStyleElement;
    }
    if eq_slice(tag, "table") {
        return ElementTypeId::HTMLTableElement;
    }
    if eq_slice(tag, "tbody") {
        return ElementTypeId::HTMLTableSectionElement;
    }
    if eq_slice(tag, "td") {
        return ElementTypeId::HTMLTableDataCellElement;
    }
    if eq_slice(tag, "template") {
        return ElementTypeId::HTMLTemplateElement;
    }
    if eq_slice(tag, "textarea") {
        return ElementTypeId::HTMLTextAreaElement;
    }
    if eq_slice(tag, "th") {
        return ElementTypeId::HTMLTableHeaderCellElement;
    }
    if eq_slice(tag, "time") {
        return ElementTypeId::HTMLTimeElement;
    }
    if eq_slice(tag, "title") {
        return ElementTypeId::HTMLTitleElement;
    }
    if eq_slice(tag, "tr") {
        return ElementTypeId::HTMLTableRowElement;
    }
    if eq_slice(tag, "track") {
        return ElementTypeId::HTMLTrackElement;
    }
    if eq_slice(tag, "ul") {
        return ElementTypeId::HTMLUListElement;
    }
    if eq_slice(tag, "video") {
        return ElementTypeId::HTMLVideoElement;
    }
    ElementTypeId::HTMLUnknownElement
}

/// The interface for a tag name. Names are compared as they stand, upper and lower
/// case being different.
pub fn interface_for(tag: &str) -> (id: ElementTypeId)
    ensures
        id == interface_of(tag@),
        forall|other: ElementTypeId| claims(other, tag@) ==> id == other,
        id == ElementTypeId::HTMLUnknownElement || claims(id, tag@),
        id == ElementTypeId::HTMLUnknownElement <==> forall|other: ElementTypeId|
            !claims(other, tag@),
{
    let id = claimant(tag);
    proof {
        law_interface_of_tag(id, tag@);
        assert forall|other: ElementTypeId| claims(other, tag@) implies id == other by {
            law_one_interface_claims_a_tag(id, other, tag@);
        }
    }
    id
}

} // verus!
