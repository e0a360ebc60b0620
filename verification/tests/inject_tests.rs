use vonr_injector::attrs::AttrMap;
use vonr_injector::inject::{find_target_index, inject};
use vonr_injector::tree::{XmlElement, XmlNode};

fn element(name: &str, attrs: &[(&str, &str)], children: Vec<XmlNode>) -> XmlElement {
    let mut attributes = AttrMap::new();
    for (k, v) in attrs {
        attributes.insert(k, v);
    }
    XmlElement { name: name.to_owned(), attributes, children }
}

fn marker_children(root: &XmlElement) -> Vec<usize> {
    let mut found = Vec::new();
    for (i, c) in root.children.iter().enumerate() {
        if let XmlNode::Element(e) = c {
            if e.attributes.get_value("name").as_deref() == Some("vonr_enabled_bool") {
                found.push(i);
            }
        }
    }
    found
}

#[test]
fn injects_fresh_marker_when_absent() {
    let mut root = element(
        "config",
        &[],
        vec![
            XmlNode::Text("lead".to_owned()),
            XmlNode::Element(element("string", &[("name", "other")], Vec::new())),
        ],
    );
    inject(&mut root);
    assert_eq!(root.children.len(), 3);
    match root.children.last().unwrap() {
        XmlNode::Element(e) => {
            assert_eq!(e.name, "boolean");
            assert_eq!(e.attributes.get_value("name"), Some("vonr_enabled_bool".to_owned()));
            assert_eq!(e.attributes.get_value("value"), Some("true".to_owned()));
            assert!(e.children.is_empty());
        }
        other => panic!("expected an element, got {:?}", other),
    }
    assert_eq!(root.children[0], XmlNode::Text("lead".to_owned()));
}

#[test]
fn fresh_marker_attribute_order_is_value_then_name() {
    let mut root = element("config", &[], Vec::new());
    inject(&mut root);
    match &root.children[0] {
        XmlNode::Element(e) => {
            let entries = e.attributes.entries();
            assert_eq!(entries.len(), 2);
            assert_eq!(entries[0], ("value".to_owned(), "true".to_owned()));
            assert_eq!(entries[1], ("name".to_owned(), "vonr_enabled_bool".to_owned()));
        }
        other => panic!("expected an element, got {:?}", other),
    }
}

#[test]
fn updates_existing_marker_and_moves_it_last() {
    let mut root = element(
        "config",
        &[],
        vec![
            XmlNode::Element(element("string", &[("name", "first")], Vec::new())),
            XmlNode::Element(element(
                "boolean",
                &[("name", "vonr_enabled_bool"), ("value", "false")],
                Vec::new(),
            )),
            XmlNode::Element(element("string", &[("name", "last")], Vec::new())),
        ],
    );
    inject(&mut root);
    assert_eq!(root.children.len(), 3);
    match &root.children[2] {
        XmlNode::Element(e) => {
            assert_eq!(e.name, "boolean");
            assert_eq!(e.attributes.get_value("value"), Some("true".to_owned()));
            assert_eq!(e.attributes.get_value("name"), Some("vonr_enabled_bool".to_owned()));
        }
        other => panic!("expected an element, got {:?}", other),
    }
    match &root.children[0] {
        XmlNode::Element(e) => assert_eq!(e.attributes.get_value("name"), Some("first".to_owned())),
        other => panic!("expected an element, got {:?}", other),
    }
    match &root.children[1] {
        XmlNode::Element(e) => assert_eq!(e.attributes.get_value("name"), Some("last".to_owned())),
        other => panic!("expected an element, got {:?}", other),
    }
}

#[test]
fn creates_value_attribute_when_marker_lacks_one() {
    let mut root = element(
        "config",
        &[],
        vec![XmlNode::Element(element(
            "boolean",
            &[("name", "vonr_enabled_bool")],
            Vec::new(),
        ))],
    );
    inject(&mut root);
    assert_eq!(root.children.len(), 1);
    match &root.children[0] {
        XmlNode::Element(e) => {
            assert_eq!(e.attributes.get_value("value"), Some("true".to_owned()));
        }
        other => panic!("expected an element, got {:?}", other),
    }
}

#[test]
fn running_twice_leaves_exactly_one_marker() {
    let mut root = element(
        "config",
        &[],
        vec![XmlNode::Element(element("string", &[("name", "other")], Vec::new()))],
    );
    inject(&mut root);
    inject(&mut root);
    assert_eq!(marker_children(&root).len(), 1);
    assert_eq!(root.children.len(), 2);
}

#[test]
fn find_target_index_picks_first_marker() {
    let root = element(
        "config",
        &[],
        vec![
            XmlNode::Comment("note".to_owned()),
            XmlNode::Element(element(
                "boolean",
                &[("name", "vonr_enabled_bool"), ("value", "false")],
                Vec::new(),
            )),
        ],
    );
    assert_eq!(find_target_index(&root.children), Some(1));
}

#[test]
fn find_target_index_reports_absence() {
    let root = element(
        "config",
        &[],
        vec![XmlNode::Element(element("string", &[("name", "other")], Vec::new()))],
    );
    assert_eq!(find_target_index(&root.children), None);
}

#[test]
fn attr_map_updates_first_match_in_place() {
    let mut m = AttrMap::new();
    m.insert("a", "1");
    m.insert("b", "2");
    m.insert("a", "3");
    assert_eq!(m.len(), 2);
    assert_eq!(m.get_value("a"), Some("3".to_owned()));
    assert_eq!(m.get_value("b"), Some("2".to_owned()));
    assert_eq!(m.get_value("c"), None);
    let entries = m.entries();
    assert_eq!(entries[0], ("a".to_owned(), "3".to_owned()));
    assert_eq!(entries[1], ("b".to_owned(), "2".to_owned()));
}
