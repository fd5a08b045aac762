use file_count::default_extractors::docx::extract_docx_sections;
use file_count::default_extractors::pptx::extract_slides;
use file_count::default_extractors::xliff::extract_xliff_sections;
use file_count::default_extractors::xliff::holds_translation;
use file_count::default_extractors::xliff::Xliff;
use file_count::default_extractors::xlsx::extract_texts_of_runs;
use file_count::default_extractors::xlsx::find_elements;
use file_count::default_extractors::xml::read_xml;
use file_count::default_extractors::xml::read_xml_text;
use file_count::default_extractors::xml::Xml;
use file_count::error::ErrorKind;
use file_count::extract::Extract;
use file_count::text::same_text;
use file_count::xml_extensions::attribute;
use file_count::xml_extensions::extract_text_from_node;
use file_count::xml_extensions::extract_text_from_nodes;
use file_count::xml_extensions::find_subtree_end;
use file_count::xml_extensions::has_tag_name;
use file_count::xml_extensions::XmlAttribute;
use file_count::xml_extensions::XmlNode;
use file_count::xml_extensions::XmlNodeKind;

fn node(kind: XmlNodeKind, level: usize, name: &str, text: Option<&str>) -> XmlNode {
    XmlNode {
        kind,
        level,
        name: String::from(name),
        text: text.map(String::from),
        attributes: Vec::new(),
    }
}

fn element(level: usize, name: &str, text: Option<&str>) -> XmlNode {
    node(XmlNodeKind::Element, level, name, text)
}

fn text(level: usize, text: &str) -> XmlNode {
    node(XmlNodeKind::Text, level, "", Some(text))
}

fn plain(name: &str, value: &str) -> XmlAttribute {
    XmlAttribute { namespace: None, name: String::from(name), value: String::from(value) }
}

/// `<a>one<b>two<c/></b>three</a>` below a root.
fn small_tree() -> Vec<XmlNode> {
    vec![
        node(XmlNodeKind::Root, 1, "", None),
        element(2, "a", Some("one")),
        text(3, "one"),
        element(3, "b", Some("two")),
        text(4, "two"),
        element(4, "c", None),
        text(3, "three"),
    ]
}

#[test]
fn texts_are_told_apart() {
    assert!(same_text("", ""));
    assert!(same_text("header", "header"));
    assert!(same_text("h\u{e9}", "h\u{e9}"));
    assert!(!same_text("header", "Header"));
    assert!(!same_text("header", "head"));
    assert!(!same_text("head", "header"));
    assert!(!same_text("", "x"));
}

#[test]
fn parsed_document_lists_its_nodes_in_order() {
    let nodes = read_xml_text("<a x=\"1\">one<b>two<c/></b><!--note-->three</a>").unwrap();
    let kinds: Vec<XmlNodeKind> = nodes.iter().map(|n| n.kind).collect();
    assert_eq!(
        kinds,
        vec![
            XmlNodeKind::Root,
            XmlNodeKind::Element,
            XmlNodeKind::Text,
            XmlNodeKind::Element,
            XmlNodeKind::Text,
            XmlNodeKind::Element,
            XmlNodeKind::Comment,
            XmlNodeKind::Text,
        ]
    );
    let levels: Vec<usize> = nodes.iter().map(|n| n.level).collect();
    assert_eq!(levels, vec![1, 2, 3, 3, 4, 4, 3, 3]);
    let names: Vec<&str> = nodes.iter().map(|n| n.name.as_str()).collect();
    assert_eq!(names, vec!["", "a", "", "b", "", "c", "", ""]);
    let texts: Vec<Option<&str>> = nodes.iter().map(|n| n.text.as_deref()).collect();
    assert_eq!(
        texts,
        vec![
            None,
            Some("one"),
            Some("one"),
            Some("two"),
            Some("two"),
            None,
            Some("note"),
            Some("three"),
        ]
    );
    assert_eq!(nodes[1].attributes, vec![plain("x", "1")]);
    assert!(nodes[3].attributes.is_empty());
}

#[test]
fn parsed_attributes_keep_their_namespace() {
    let nodes = read_xml_text("<e xmlns:n=\"http://www.w3.org\" a=\"b\" n:a=\"c\"/>").unwrap();
    assert_eq!(
        nodes[1].attributes,
        vec![
            plain("a", "b"),
            XmlAttribute {
                namespace: Some(String::from("http://www.w3.org")),
                name: String::from("a"),
                value: String::from("c"),
            },
        ]
    );
}

#[test]
fn subtree_ends_before_the_next_node_of_its_level() {
    let nodes = small_tree();
    assert_eq!(find_subtree_end(&nodes, 0), 7);
    assert_eq!(find_subtree_end(&nodes, 1), 7);
    assert_eq!(find_subtree_end(&nodes, 2), 3);
    assert_eq!(find_subtree_end(&nodes, 3), 6);
    assert_eq!(find_subtree_end(&nodes, 5), 6);
    assert_eq!(find_subtree_end(&nodes, 6), 7);
}

#[test]
fn tag_name_is_of_elements_only() {
    assert!(has_tag_name(&element(2, "p", None), "p"));
    assert!(!has_tag_name(&element(2, "p", None), "t"));
    assert!(!has_tag_name(&node(XmlNodeKind::Text, 2, "p", None), "p"));
    assert!(!has_tag_name(&node(XmlNodeKind::Root, 1, "", None), ""));
}

#[test]
fn attribute_is_the_first_plain_one_of_its_name() {
    let mut e = element(2, "e", None);
    e.attributes.push(XmlAttribute {
        namespace: Some(String::from("urn:n")),
        name: String::from("a"),
        value: String::from("namespaced"),
    });
    e.attributes.push(plain("b", "other"));
    e.attributes.push(plain("a", "first"));
    e.attributes.push(plain("a", "second"));
    assert_eq!(attribute(&e, "a"), Some("first"));
    assert_eq!(attribute(&e, "b"), Some("other"));
    assert_eq!(attribute(&e, "c"), None);
    assert_eq!(attribute(&element(2, "e", None), "a"), None);
}

#[test]
fn text_below_a_node_is_that_of_its_text_nodes() {
    let nodes = small_tree();
    assert_eq!(extract_text_from_node(&nodes, 0), vec!["one", "two", "three"]);
    assert_eq!(extract_text_from_node(&nodes, 3), vec!["two"]);
    assert_eq!(extract_text_from_node(&nodes, 4), vec!["two"]);
    assert!(extract_text_from_node(&nodes, 5).is_empty());
    assert!(extract_text_from_node(&nodes, 7).is_empty());
    assert!(extract_text_from_node(&Vec::new(), 0).is_empty());
}

#[test]
fn text_below_several_nodes_is_put_together() {
    let nodes = small_tree();
    assert_eq!(extract_text_from_nodes(&nodes, &vec![6, 3, 3]), vec!["three", "two", "two"]);
    assert!(extract_text_from_nodes(&nodes, &Vec::new()).is_empty());
}

#[test]
fn elements_are_found_by_name() {
    let nodes = read_xml_text("<r><t>a</t><u><t>b</t></u><t/></r>").unwrap();
    assert_eq!(find_elements(&nodes, "t"), vec![2, 5, 7]);
    assert_eq!(find_elements(&nodes, "r"), vec![1]);
    assert!(find_elements(&nodes, "x").is_empty());
}

#[test]
fn runs_of_text_are_extracted() {
    let nodes = read_xml_text("<r><t>a</t>skipped<u><t>b<i>c</i></t></u><t/></r>").unwrap();
    assert_eq!(extract_texts_of_runs(&nodes), vec!["a", "b", "c"]);
}

#[test]
fn xml_rule_takes_xml_files() {
    assert!(Xml.can_extract(b"", Some("xml")));
    assert!(Xml.can_extract(b"  <?xml version=\"1.0\"?><a/>", None));
    assert!(Xml.can_extract(b"<?XML version=\"1.0\"?><a/>", Some("txt")));
    assert!(!Xml.can_extract(b"<a/>", None));
    assert!(!Xml.can_extract(b"<a/>", Some("XML")));
}

#[test]
fn xml_rule_extracts_every_text_node() {
    let sections = Xml.extract(b"<a>one<b>two</b><!-- no -->three<c d=\"no\"/></a>").unwrap();
    assert_eq!(sections, vec!["one", "two", "three"]);
}

#[test]
fn xml_rule_rejects_what_is_not_xml() {
    assert_eq!(Xml.extract(b"<a></b>").unwrap_err().kind, ErrorKind::MalformedMarkup);
    assert_eq!(Xml.extract(b"no markup").unwrap_err().kind, ErrorKind::MalformedMarkup);
    assert_eq!(Xml.extract(&[0x3c, 0x61, 0x3e, 0xc3]).unwrap_err().kind, ErrorKind::InvalidEncoding);
    assert_eq!(read_xml(&[0xff]).unwrap_err().kind, ErrorKind::InvalidEncoding);
    assert_eq!(read_xml_text("<a>").map(|nodes| nodes.len()).unwrap_or(0), 2);
}

#[test]
fn translation_is_a_target_with_text() {
    assert!(holds_translation(&element(2, "target", Some("x"))));
    assert!(!holds_translation(&element(2, "target", Some(""))));
    assert!(!holds_translation(&element(2, "target", None)));
    assert!(!holds_translation(&element(2, "source", Some("x"))));
}

#[test]
fn xliff_rule_takes_xliff_files() {
    assert!(Xliff.can_extract(b"", Some("xlf")));
    assert!(Xliff.can_extract(b"", Some("xliff")));
    assert!(!Xliff.can_extract(b"<xliff/>", Some("xml")));
    assert!(!Xliff.can_extract(b"<xliff/>", None));
}

#[test]
fn xliff_rule_extracts_untranslated_sources() {
    let xliff = "<xliff><file><unit>\
<segment><source>Open</source></segment>\
<segment><source>Done</source><target>Klaar</target></segment>\
<segment><source>Empty target</source><target></target></segment>\
<segment><source><b>bold</b></source><source>Second</source></segment>\
</unit><source>Outside</source></file></xliff>";
    let sections = Xliff.extract(xliff.as_bytes()).unwrap();
    assert_eq!(sections, vec!["Open", "Empty target", "Second"]);
}

#[test]
fn xliff_sections_of_nodes_written_by_hand() {
    let nodes = vec![
        node(XmlNodeKind::Root, 1, "", None),
        element(2, "segment", None),
        element(3, "source", Some("kept")),
        text(4, "kept"),
        element(3, "target", None),
        element(2, "segment", None),
        element(3, "source", Some("translated")),
        element(3, "note", None),
        element(4, "target", Some("vertaald")),
        element(2, "source", Some("no segment")),
    ];
    assert_eq!(extract_xliff_sections(&nodes), vec!["kept"]);
    assert_eq!(Xliff.extract(b"<a></b>").unwrap_err().kind, ErrorKind::MalformedMarkup);
}

#[test]
fn docx_paragraphs_are_put_together() {
    let document = "<w:document xmlns:w=\"urn:w\"><w:body>\
<w:p><w:r><w:t>Hello</w:t></w:r><w:r><w:tab/><w:t>world</w:t></w:r></w:p>\
<w:p/>\
<w:p><w:r><w:t xml:space=\"preserve\">Second </w:t></w:r><w:r><w:t>one</w:t></w:r></w:p>\
</w:body></w:document>";
    let nodes = read_xml_text(document).unwrap();
    assert_eq!(extract_docx_sections(&nodes), vec!["Hello  world", "", "Second one"]);
}

#[test]
fn docx_paragraph_in_a_paragraph_is_counted_twice() {
    let nodes = vec![
        node(XmlNodeKind::Root, 1, "", None),
        element(2, "p", Some("a")),
        text(3, "a"),
        element(3, "p", Some("b")),
        text(4, "b"),
        element(3, "tab", None),
        node(XmlNodeKind::Comment, 3, "", Some("c")),
        text(2, "d"),
    ];
    assert_eq!(extract_docx_sections(&nodes), vec!["ab  ", "b"]);
}

#[test]
fn slides_are_extracted_one_after_the_other() {
    let slides = vec![
        String::from("<p:sld xmlns:p=\"urn:p\" xmlns:a=\"urn:a\"><a:t>Title</a:t><a:t>Body</a:t></p:sld>"),
        String::from("<sld/>"),
        String::from("<sld><t>Last</t></sld>"),
    ];
    assert_eq!(extract_slides(&slides).unwrap(), vec!["Title", "Body", "Last"]);
    assert!(extract_slides(&Vec::new()).unwrap().is_empty());
}

#[test]
fn broken_slide_fails_the_presentation() {
    let slides = vec![String::from("<sld><t>First</t></sld>"), String::from("<sld></t>")];
    assert_eq!(extract_slides(&slides).unwrap_err().kind, ErrorKind::MalformedMarkup);
}
