use vonr_injector::xml_io::{rewrite_document, RewriteError};

fn marker_state(doc: &str) -> (usize, Option<String>, usize) {
    let root = xmltree::Element::parse(doc.as_bytes()).expect("output must parse");
    let mut markers = 0;
    let mut last_value = None;
    let mut last_index = 0;
    for (i, c) in root.children.iter().enumerate() {
        if let xmltree::XMLNode::Element(e) = c {
            if e.attributes.get("name").map(|v| v.as_str()) == Some("vonr_enabled_bool") {
                markers += 1;
                last_value = e.attributes.get("value").cloned();
                last_index = i;
            }
        }
    }
    (markers, last_value, last_index)
}

#[test]
fn rewrite_rejects_malformed_input() {
    let r = rewrite_document("<config><unterminated>");
    match r {
        Err(RewriteError::Parse(_)) => {}
        other => panic!("expected a parse error, got {:?}", other),
    }
}

#[test]
fn rewrite_rejects_plain_text() {
    assert!(matches!(rewrite_document("not xml at all"), Err(RewriteError::Parse(_))));
}

#[test]
fn rewrite_injects_marker_when_absent() {
    let input = "<config><string name=\"other\">keep me</string></config>";
    let out = rewrite_document(input).expect("well-formed input must rewrite");
    let (markers, value, index) = marker_state(&out);
    assert_eq!(markers, 1);
    assert_eq!(value, Some("true".to_owned()));
    let root = xmltree::Element::parse(out.as_bytes()).unwrap();
    assert_eq!(index, root.children.len() - 1);
    let kept = root.get_child("string").expect("sibling must survive");
    assert_eq!(kept.attributes.get("name").map(|v| v.as_str()), Some("other"));
    assert_eq!(kept.get_text().as_deref(), Some("keep me"));
}

#[test]
fn rewrite_updates_existing_marker() {
    let input = "<config>\
        <string name=\"other\">keep me</string>\
        <boolean name=\"vonr_enabled_bool\" value=\"false\" />\
        <string name=\"tail\">also kept</string>\
        </config>";
    let out = rewrite_document(input).expect("well-formed input must rewrite");
    let (markers, value, index) = marker_state(&out);
    assert_eq!(markers, 1);
    assert_eq!(value, Some("true".to_owned()));
    let root = xmltree::Element::parse(out.as_bytes()).unwrap();
    assert_eq!(index, root.children.len() - 1, "updated marker must be the last child");
    assert!(root.get_child("string").is_some());
}

#[test]
fn rewrite_is_idempotent_in_structure() {
    let input = "<config><boolean name=\"vonr_enabled_bool\" value=\"false\" /></config>";
    let once = rewrite_document(input).unwrap();
    let twice = rewrite_document(&once).unwrap();
    let (markers_once, value_once, _) = marker_state(&once);
    let (markers_twice, value_twice, _) = marker_state(&twice);
    assert_eq!(markers_once, 1);
    assert_eq!(markers_twice, 1);
    assert_eq!(value_once, Some("true".to_owned()));
    assert_eq!(value_twice, Some("true".to_owned()));
}

#[test]
fn rewrite_emits_no_document_declaration() {
    let out = rewrite_document("<config />").unwrap();
    assert!(out.starts_with('<'));
    assert!(!out.starts_with("<?xml"));
}

#[test]
fn rewrite_changes_the_document() {
    let input = "<config />";
    let out = rewrite_document(input).unwrap();
    assert_ne!(out, input);
    assert!(out.contains("vonr_enabled_bool"));
}
