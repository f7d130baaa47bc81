use element_ref::element::{ElementRef, NamespaceConstraint, HTML_NAMESPACE};
use element_ref::tree::{Attribute, ElementData, NodeKind, QualName, Tree};
use element_ref::{map_b_to_cs, CaseSensitivity};
use html5ever::tendril::TendrilSink;
use markup5ever_rcdom::{Handle, NodeData, RcDom};

fn qual(name: &html5ever::QualName) -> QualName {
    QualName {
        ns: name.ns.to_string(),
        local: name.local.to_string(),
    }
}

fn copy_node(tree: &mut Tree, parent: usize, handle: &Handle) {
    let kind = match &handle.data {
        NodeData::Document => NodeKind::Document,
        NodeData::Doctype { name, .. } => NodeKind::Doctype(name.to_string()),
        NodeData::Text { contents } => NodeKind::Text(contents.borrow().to_string()),
        NodeData::Comment { contents } => NodeKind::Comment(contents.to_string()),
        NodeData::Element { name, attrs, .. } => {
            let attrs = attrs
                .borrow()
                .iter()
                .map(|a| Attribute {
                    name: qual(&a.name),
                    value: a.value.to_string(),
                })
                .collect();
            NodeKind::Element(ElementData::new(qual(name), attrs))
        }
        NodeData::ProcessingInstruction { target, contents } => NodeKind::ProcessingInstruction {
            target: target.to_string(),
            data: contents.to_string(),
        },
    };
    let id = tree.append(parent, kind);
    for child in handle.children.borrow().iter() {
        copy_node(tree, id, child);
    }
}

fn copy_children(root: NodeKind, dom: &RcDom) -> Tree {
    let mut tree = Tree::new(root);
    for child in dom.document.children.borrow().iter() {
        copy_node(&mut tree, 0, child);
    }
    tree
}

fn parse_fragment(html: &str) -> Tree {
    let context = html5ever::QualName::new(
        None,
        html5ever::Namespace::from(HTML_NAMESPACE),
        html5ever::LocalName::from("body"),
    );
    let dom = html5ever::parse_fragment(RcDom::default(), Default::default(), context, Vec::new()).one(html);
    copy_children(NodeKind::Fragment, &dom)
}

fn parse_document(html: &str) -> Tree {
    let dom = html5ever::parse_document(RcDom::default(), Default::default()).one(html);
    copy_children(NodeKind::Document, &dom)
}

/// The first element in document order with the given tag name.
fn select<'a>(tree: &'a Tree, tag: &str) -> ElementRef<'a> {
    let tag = tag.to_string();
    (0..tree.kinds.len())
        .filter_map(|i| ElementRef::wrap(tree, i))
        .find(|e| e.has_local_name(&tag))
        .unwrap()
}

fn s(text: &str) -> String {
    text.to_string()
}

fn element_with_attrs(attrs: Vec<(&str, &str, &str)>) -> Tree {
    let attrs = attrs
        .into_iter()
        .map(|(ns, local, value)| Attribute {
            name: QualName { ns: s(ns), local: s(local) },
            value: s(value),
        })
        .collect();
    let name = QualName { ns: s(HTML_NAMESPACE), local: s("a") };
    let mut tree = Tree::new(NodeKind::Fragment);
    tree.append(0, NodeKind::Element(ElementData::new(name, attrs)));
    tree
}

#[test]
fn test_has_id() {
    let html = "<p id='link_id_456'>hey there</p>";
    let fragment = parse_fragment(html);
    let element = select(&fragment, "p");
    assert_eq!(true, element.has_id(&s("link_id_456"), map_b_to_cs(true)));

    let html = "<p>hey there</p>";
    let fragment = parse_fragment(html);
    let element = select(&fragment, "p");
    assert_eq!(false, element.has_id(&s("any_link_id"), map_b_to_cs(true)));
}

#[test]
fn test_is_link() {
    let html = "<link href='https://www.example.com'>";
    let fragment = parse_fragment(html);
    let element = select(&fragment, "link");
    assert_eq!(true, element.is_link());

    let html = "<p>hey there</p>";
    let fragment = parse_fragment(html);
    let element = select(&fragment, "p");
    assert_eq!(false, element.is_link());
}

#[test]
fn test_has_class() {
    let html = "<p class='my_class'>hey there</p>";
    let fragment = parse_fragment(html);
    let element = select(&fragment, "p");
    assert_eq!(true, element.has_class(&s("my_class"), map_b_to_cs(true)));

    let html = "<p>hey there</p>";
    let fragment = parse_fragment(html);
    let element = select(&fragment, "p");
    assert_eq!(false, element.has_class(&s("my_class"), map_b_to_cs(true)));
}

#[test]
fn map_b_to_cs_picks_policy() {
    assert_eq!(map_b_to_cs(true), CaseSensitivity::CaseSensitive);
    assert_eq!(map_b_to_cs(false), CaseSensitivity::AsciiCaseInsensitive);
}

#[test]
fn has_id_exact_and_folded() {
    let fragment = parse_fragment("<p id='LinkId'>x</p>");
    let p = select(&fragment, "p");
    assert!(p.has_id(&s("LinkId"), CaseSensitivity::CaseSensitive));
    assert!(!p.has_id(&s("linkid"), CaseSensitivity::CaseSensitive));
    assert!(!p.has_id(&s("LINKID"), CaseSensitivity::CaseSensitive));
    assert!(p.has_id(&s("linkid"), CaseSensitivity::AsciiCaseInsensitive));
    assert!(p.has_id(&s("LINKID"), CaseSensitivity::AsciiCaseInsensitive));
    assert!(!p.has_id(&s("linkid2"), CaseSensitivity::AsciiCaseInsensitive));
    assert!(!p.has_id(&s("LinkI"), CaseSensitivity::CaseSensitive));
}

#[test]
fn has_id_folds_only_ascii() {
    let fragment = parse_fragment("<p id='\u{c9}t\u{e9}'>x</p>");
    let p = select(&fragment, "p");
    assert!(p.has_id(&s("\u{c9}T\u{e9}"), CaseSensitivity::AsciiCaseInsensitive));
    assert!(!p.has_id(&s("\u{e9}t\u{e9}"), CaseSensitivity::AsciiCaseInsensitive));
}

#[test]
fn has_id_absent_never_matches() {
    let fragment = parse_fragment("<p class='x'>x</p>");
    let p = select(&fragment, "p");
    assert!(!p.has_id(&s(""), CaseSensitivity::CaseSensitive));
    assert!(!p.has_id(&s("x"), CaseSensitivity::AsciiCaseInsensitive));
}

#[test]
fn has_class_each_token() {
    let fragment = parse_fragment("<p class=' one  Two\tthree\n'>x</p>");
    let p = select(&fragment, "p");
    let classes: Vec<&str> = p.value().classes.iter().map(|c| c.as_str()).collect();
    assert_eq!(classes, vec!["one", "Two", "three"]);
    for c in ["one", "Two", "three"] {
        assert!(p.has_class(&s(c), CaseSensitivity::CaseSensitive));
    }
    assert!(!p.has_class(&s("two"), CaseSensitivity::CaseSensitive));
    assert!(p.has_class(&s("two"), CaseSensitivity::AsciiCaseInsensitive));
    assert!(!p.has_class(&s("four"), CaseSensitivity::AsciiCaseInsensitive));
    assert!(!p.has_class(&s("one Two"), CaseSensitivity::CaseSensitive));
    assert!(!p.has_class(&s(""), CaseSensitivity::CaseSensitive));
}

#[test]
fn element_data_takes_first_id() {
    let tree = element_with_attrs(vec![("", "title", "t"), ("", "id", "first"), ("x", "id", "second")]);
    let e = ElementRef::wrap(&tree, 1).unwrap();
    assert_eq!(e.value().id.as_deref(), Some("first"));
    assert_eq!(e.value().attrs.len(), 3);
    assert!(e.value().classes.is_empty());
}

#[test]
fn sibling_scan_skips_non_elements() {
    let fragment = parse_fragment("<div><i></i>t<!--c--><a></a>u<b></b></div>");
    let i = select(&fragment, "i");
    let a = select(&fragment, "a");
    let b = select(&fragment, "b");
    assert_eq!(i.next_sibling_element().unwrap().opaque(), a.opaque());
    assert_eq!(a.next_sibling_element().unwrap().opaque(), b.opaque());
    assert!(b.next_sibling_element().is_none());
    assert_eq!(b.prev_sibling_element().unwrap().opaque(), a.opaque());
    assert_eq!(a.prev_sibling_element().unwrap().opaque(), i.opaque());
    assert!(i.prev_sibling_element().is_none());
}

#[test]
fn sibling_scan_from_text_run() {
    let mut tree = Tree::new(NodeKind::Fragment);
    let name = |l: &str| QualName { ns: s(HTML_NAMESPACE), local: s(l) };
    let x = tree.append(0, NodeKind::Element(ElementData::new(name("x"), Vec::new())));
    let t = tree.append(0, NodeKind::Text(s("t")));
    tree.append(0, NodeKind::Comment(s("c")));
    let a = tree.append(0, NodeKind::Element(ElementData::new(name("a"), Vec::new())));
    tree.append(0, NodeKind::Text(s("t")));
    tree.append(0, NodeKind::ProcessingInstruction { target: s("p"), data: s("d") });
    let b = tree.append(0, NodeKind::Element(ElementData::new(name("b"), Vec::new())));
    let ex = ElementRef::wrap(&tree, x).unwrap();
    let ea = ex.next_sibling_element().unwrap();
    assert_eq!(ea.node, a);
    assert_eq!(ea.next_sibling_element().unwrap().node, b);
    assert!(ElementRef::wrap(&tree, t).is_none());
}

#[test]
fn is_root_needs_document_parent() {
    let document = parse_document("<p>x</p>");
    assert!(select(&document, "html").is_root());
    assert!(!select(&document, "body").is_root());
    assert!(!select(&document, "p").is_root());

    let fragment = parse_fragment("<p>x</p>");
    assert!(!select(&fragment, "html").is_root());

    let detached = Tree::new(NodeKind::Element(ElementData::new(
        QualName { ns: s(HTML_NAMESPACE), local: s("p") },
        Vec::new(),
    )));
    let e = ElementRef::wrap(&detached, 0).unwrap();
    assert!(!e.is_root());
    assert!(e.parent_element().is_none());
}

#[test]
fn is_empty_cases() {
    assert!(select(&parse_fragment("<p></p>"), "p").is_empty());
    assert!(select(&parse_fragment("<p><!--c--></p>"), "p").is_empty());
    assert!(!select(&parse_fragment("<p>x</p>"), "p").is_empty());
    assert!(!select(&parse_fragment("<p><span/></p>"), "p").is_empty());
}

#[test]
fn is_link_cases() {
    assert!(select(&parse_fragment("<link href=\"a.css\">"), "link").is_link());
    assert!(!select(&parse_fragment("<a href=\"x.html\">x</a>"), "a").is_link());
    assert!(!select(&parse_fragment("<p>x</p>"), "p").is_link());
}

#[test]
fn attr_matches_respects_namespace() {
    let xlink = "http://www.w3.org/1999/xlink";
    let tree = element_with_attrs(vec![(xlink, "href", "#a")]);
    let e = ElementRef::wrap(&tree, 1).unwrap();
    let any_value = |_: &String| true;
    let href = s("href");
    assert!(e.attr_matches(&NamespaceConstraint::Any, &href, any_value));
    assert!(e.attr_matches(&NamespaceConstraint::Specific(s(xlink)), &href, any_value));
    assert!(!e.attr_matches(&NamespaceConstraint::Specific(s("")), &href, any_value));
    assert!(!e.attr_matches(&NamespaceConstraint::Specific(s(HTML_NAMESPACE)), &href, any_value));
    assert!(!e.attr_matches(&NamespaceConstraint::Any, &s("src"), any_value));
}

#[test]
fn attr_matches_hands_value_to_operation() {
    let tree = element_with_attrs(vec![("", "lang", "en"), ("", "lang2", "fr"), ("", "title", "Hello")]);
    let e = ElementRef::wrap(&tree, 1).unwrap();
    let any = NamespaceConstraint::Any;
    assert!(e.attr_matches(&any, &s("title"), |v: &String| v == "Hello"));
    assert!(!e.attr_matches(&any, &s("title"), |v: &String| v == "hello"));
    assert!(e.attr_matches(&any, &s("lang"), |v: &String| v.starts_with('e')));
    assert!(!e.attr_matches(&any, &s("lang"), |v: &String| v == "fr"));
}

#[test]
fn id_and_class_scenario() {
    let fragment = parse_fragment("<div id=\"Main\" class=\"Foo bar\">x</div>");
    let div = select(&fragment, "div");
    assert!(div.has_id(&s("Main"), CaseSensitivity::AsciiCaseInsensitive));
    assert!(div.has_id(&s("main"), CaseSensitivity::AsciiCaseInsensitive));
    assert!(!div.has_id(&s("main"), CaseSensitivity::CaseSensitive));
    assert!(div.has_class(&s("foo"), CaseSensitivity::AsciiCaseInsensitive));
    assert!(div.has_class(&s("Foo"), CaseSensitivity::CaseSensitive));
    assert!(!div.has_class(&s("foo"), CaseSensitivity::CaseSensitive));
    assert!(div.has_class(&s("bar"), CaseSensitivity::CaseSensitive));
}

#[test]
fn shielded_maps_flag() {
    let fragment = parse_fragment("<div id=\"Main\" class=\"Foo bar\">x</div>");
    let div = select(&fragment, "div");
    let shielded = div.shielded();
    assert!(shielded.has_id(&s("Main"), true));
    assert!(!shielded.has_id(&s("MAIN"), true));
    assert!(shielded.has_id(&s("MAIN"), false));
    assert!(shielded.has_class(&s("Foo"), true));
    assert!(!shielded.has_class(&s("FOO"), true));
    assert!(shielded.has_class(&s("FOO"), false));
    assert!(!shielded.has_class(&s("baz"), false));
}

#[test]
fn navigation_and_names() {
    let fragment = parse_fragment("<div><p>x</p><span></span></div><svg></svg>");
    let div = select(&fragment, "div");
    let p = select(&fragment, "p");
    let span = select(&fragment, "span");
    let svg = select(&fragment, "svg");
    assert_eq!(p.parent_element().unwrap().opaque(), div.opaque());
    assert_eq!(select(&fragment, "html").opaque(), div.parent_element().unwrap().opaque());
    assert!(select(&fragment, "html").parent_element().is_none());
    assert_ne!(p.opaque(), span.opaque());
    assert_eq!(p.opaque(), ElementRef::wrap(&fragment, p.node).unwrap().opaque());
    assert!(p.is_same_type(&select(&parse_fragment("<p>y</p>"), "p")));
    assert!(!p.is_same_type(&span));
    assert!(p.has_local_name(&s("p")));
    assert!(!p.has_local_name(&s("P")));
    assert!(p.has_namespace(&s(HTML_NAMESPACE)));
    assert!(p.is_html_element_in_html_document());
    assert!(!svg.is_html_element_in_html_document());
    assert!(svg.has_namespace(&s("http://www.w3.org/2000/svg")));
}

#[test]
fn unsupported_features_are_fixed() {
    let fragment = parse_fragment("<p>x</p>");
    let p = select(&fragment, "p");
    assert!(!p.parent_node_is_shadow_root());
    assert!(p.containing_shadow_host().is_none());
    assert!(!p.is_pseudo_element());
    assert!(!p.is_part(&s("x")));
    assert!(p.exported_part(&s("x")).is_none());
    assert!(p.imported_part(&s("x")).is_none());
    assert!(!p.match_non_ts_pseudo_class());
    assert!(!p.match_pseudo_element());
    assert!(p.is_html_slot_element());
}
