use hubbub_html_parser::document::{build_element_from_tag, Document, NodeData};
use hubbub_html_parser::interface::{interface_for, ElementTypeId, HeadingLevel};

#[test]
fn every_listed_tag_has_its_interface() {
    let table: Vec<(&str, ElementTypeId)> = vec![
        ("a", ElementTypeId::HTMLAnchorElement),
        ("applet", ElementTypeId::HTMLAppletElement),
        ("area", ElementTypeId::HTMLAreaElement),
        ("base", ElementTypeId::HTMLBaseElement),
        ("br", ElementTypeId::HTMLBRElement),
        ("body", ElementTypeId::HTMLBodyElement),
        ("button", ElementTypeId::HTMLButtonElement),
        ("canvas", ElementTypeId::HTMLCanvasElement),
        ("data", ElementTypeId::HTMLDataElement),
        ("datalist", ElementTypeId::HTMLDataListElement),
        ("dir", ElementTypeId::HTMLDirectoryElement),
        ("div", ElementTypeId::HTMLDivElement),
        ("dl", ElementTypeId::HTMLDListElement),
        ("embed", ElementTypeId::HTMLEmbedElement),
        ("fieldset", ElementTypeId::HTMLFieldSetElement),
        ("font", ElementTypeId::HTMLFontElement),
        ("form", ElementTypeId::HTMLFormElement),
        ("frame", ElementTypeId::HTMLFrameElement),
        ("frameset", ElementTypeId::HTMLFrameSetElement),
        ("hr", ElementTypeId::HTMLHRElement),
        ("head", ElementTypeId::HTMLHeadElement),
        ("html", ElementTypeId::HTMLHtmlElement),
        ("input", ElementTypeId::HTMLInputElement),
        ("label", ElementTypeId::HTMLLabelElement),
        ("legend", ElementTypeId::HTMLLegendElement),
        ("link", ElementTypeId::HTMLLinkElement),
        ("li", ElementTypeId::HTMLLIElement),
        ("map", ElementTypeId::HTMLMapElement),
        ("main", ElementTypeId::HTMLMainElement),
        ("meta", ElementTypeId::HTMLMetaElement),
        ("meter", ElementTypeId::HTMLMeterElement),
        ("aside", ElementTypeId::HTMLElement),
        ("b", ElementTypeId::HTMLElement),
        ("i", ElementTypeId::HTMLElement),
        ("section", ElementTypeId::HTMLElement),
        ("small", ElementTypeId::HTMLElement),
        ("audio", ElementTypeId::HTMLAudioElement),
        ("caption", ElementTypeId::HTMLTableCaptionElement),
        ("col", ElementTypeId::HTMLTableColElement),
        ("colgroup", ElementTypeId::HTMLTableColElement),
        ("del", ElementTypeId::HTMLModElement),
        ("h1", ElementTypeId::HTMLHeadingElement(HeadingLevel::Heading1)),
        ("h2", ElementTypeId::HTMLHeadingElement(HeadingLevel::Heading2)),
        ("h3", ElementTypeId::HTMLHeadingElement(HeadingLevel::Heading3)),
        ("h4", ElementTypeId::HTMLHeadingElement(HeadingLevel::Heading4)),
        ("h5", ElementTypeId::HTMLHeadingElement(HeadingLevel::Heading5)),
        ("h6", ElementTypeId::HTMLHeadingElement(HeadingLevel::Heading6)),
        ("iframe", ElementTypeId::HTMLIFrameElement),
        ("img", ElementTypeId::HTMLImageElement),
        ("ins", ElementTypeId::HTMLModElement),
        ("object", ElementTypeId::HTMLObjectElement),
        ("ol", ElementTypeId::HTMLOListElement),
        ("optgroup", ElementTypeId::HTMLOptGroupElement),
        ("option", ElementTypeId::HTMLOptionElement),
        ("output", ElementTypeId::HTMLOutputElement),
        ("p", ElementTypeId::HTMLParagraphElement),
        ("param", ElementTypeId::HTMLParamElement),
        ("pre", ElementTypeId::HTMLPreElement),
        ("progress", ElementTypeId::HTMLProgressElement),
        ("q", ElementTypeId::HTMLQuoteElement),
        ("script", ElementTypeId::HTMLScriptElement),
        ("select", ElementTypeId::HTMLSelectElement),
        ("source", ElementTypeId::HTMLSourceElement),
        ("span", ElementTypeId::HTMLSpanElement),
        ("style", ElementTypeId::HTMLStyleElement),
        ("table", ElementTypeId::HTMLTableElement),
        ("tbody", ElementTypeId::HTMLTableSectionElement),
        ("td", ElementTypeId::HTMLTableDataCellElement),
        ("template", ElementTypeId::HTMLTemplateElement),
        ("textarea", ElementTypeId::HTMLTextAreaElement),
        ("th", ElementTypeId::HTMLTableHeaderCellElement),
        ("time", ElementTypeId::HTMLTimeElement),
        ("title", ElementTypeId::HTMLTitleElement),
        ("tr", ElementTypeId::HTMLTableRowElement),
        ("track", ElementTypeId::HTMLTrackElement),
        ("ul", ElementTypeId::HTMLUListElement),
        ("video", ElementTypeId::HTMLVideoElement),
    ];
    assert_eq!(table.len(), 77);
    for (tag, id) in table {
        assert_eq!(interface_for(tag), id, "{}", tag);
    }
}

#[test]
fn other_tags_are_unknown() {
    for tag in ["", "blink", "A", "LINK", "links", "h7", "h", "a ", "b\u{e9}"] {
        assert_eq!(interface_for(tag), ElementTypeId::HTMLUnknownElement, "{}", tag);
    }
}

#[test]
fn built_elements_keep_the_tag_as_their_name() {
    let mut document: Document<(), ()> = Document::new();
    let first = build_element_from_tag("colgroup", &mut document);
    let second = build_element_from_tag("x-foo", &mut document);
    assert_eq!((first.index, second.index), (0, 1));
    let expected = [
        ("colgroup", ElementTypeId::HTMLTableColElement),
        ("x-foo", ElementTypeId::HTMLUnknownElement),
    ];
    for (node, (name, id)) in document.nodes.iter().zip(expected) {
        assert_eq!(node.parent, None);
        assert!(node.children.is_empty());
        match &node.data {
            NodeData::Element(element) => {
                assert_eq!(element.local_name, name);
                assert_eq!(element.type_id, id);
                assert!(element.attrs.is_empty());
                assert_eq!(element.frame, None);
                assert_eq!(element.size, None);
            }
            other => panic!("{:?}", other),
        }
    }
}
