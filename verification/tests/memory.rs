use file_count::error::ErrorKind;
use file_count::hash::hash;
use file_count::memory::is_source_variant;
use file_count::memory::HashedMemory;
use file_count::xml_extensions::XmlAttribute;
use file_count::xml_extensions::XmlNode;
use file_count::xml_extensions::XmlNodeKind;

fn node(kind: XmlNodeKind, level: usize, name: &str, text: Option<&str>) -> XmlNode {
    XmlNode {
        kind,
        level,
        name: String::from(name),
        text: text.map(String::from),
        attributes: Vec::new(),
    }
}

fn with_attribute(mut node: XmlNode, namespace: Option<&str>, name: &str, value: &str) -> XmlNode {
    node.attributes.push(XmlAttribute {
        namespace: namespace.map(String::from),
        name: String::from(name),
        value: String::from(value),
    });
    node
}

const TMX: &str = "<tmx version=\"1.4\"><header srclang=\"en\"/><body><tu>\
<tuv lang=\"en\"><seg>Hello world!</seg></tuv>\
<tuv lang=\"nl\"><seg>Hallo wereld!</seg></tuv>\
</tu></body></tmx>";

#[test]
fn hash_is_a_function_of_the_text() {
    assert_eq!(hash("Hello world!"), hash("Hello world!"));
    assert_eq!(hash(""), hash(""));
    assert_ne!(hash("Hello world!"), hash("Hello world"));
    assert_ne!(hash("a"), hash("b"));
}

#[test]
fn new_memory_is_empty() {
    let memory = HashedMemory::new();
    assert!(!memory.contains("Hello world!"));
    assert!(!memory.contains(""));
    assert!(!memory.contains_hash(&0));
}

#[test]
fn added_segment_is_contained() {
    let mut memory = HashedMemory::new();
    memory.add("Hello world!");
    assert!(memory.contains("Hello world!"));
    assert!(memory.contains_hash(&hash("Hello world!")));
    assert!(!memory.contains("Goodbye"));
}

#[test]
fn added_hash_is_contained() {
    let mut memory = HashedMemory::new();
    memory.add_hash(42);
    assert!(memory.contains_hash(&42));
    assert!(!memory.contains_hash(&43));
    memory.add_hash(hash("by hash"));
    assert!(memory.contains("by hash"));
}

#[test]
fn adding_twice_is_adding_once() {
    let mut memory = HashedMemory::new();
    memory.add("again");
    memory.add("again");
    assert!(memory.contains("again"));
    assert!(memory.delete("again"));
    assert!(!memory.contains("again"));
}

#[test]
fn deleted_segment_is_absent() {
    let mut memory = HashedMemory::new();
    memory.add("one");
    memory.add("two");
    assert!(memory.delete("one"));
    assert!(!memory.contains("one"));
    assert!(memory.contains("two"));
}

#[test]
fn delete_of_absent_segment_returns_false() {
    let mut memory = HashedMemory::new();
    assert!(!memory.delete("never added"));
    memory.add("one");
    assert!(!memory.delete("never added"));
    assert!(memory.contains("one"));
    assert!(memory.delete("one"));
    assert!(!memory.delete("one"));
}

#[test]
fn memory_from_tmx_holds_the_source_segments() {
    let memory = HashedMemory::from_tmx(TMX.as_bytes()).unwrap();
    assert!(memory.contains("Hello world!"));
    assert!(!memory.contains("Goodbye"));
    assert!(!memory.contains("Hallo wereld!"));
}

#[test]
fn memory_from_tmx_takes_every_text_node_of_a_variant() {
    let tmx = "<tmx><header srclang=\"de\"/><body>\
<tu><tuv xml:lang=\"de\"><seg>Eins <b>zwei</b> drei</seg></tuv></tu>\
<tu><tuv xml:lang=\"en\"><seg>One</seg></tuv></tu>\
<tu><tuv xml:lang=\"de\"><seg>Vier</seg></tuv></tu>\
</body></tmx>";
    let memory = HashedMemory::from_tmx(tmx.as_bytes()).unwrap();
    assert!(memory.contains("Eins "));
    assert!(memory.contains("zwei"));
    assert!(memory.contains(" drei"));
    assert!(memory.contains("Vier"));
    assert!(!memory.contains("One"));
    assert!(!memory.contains("Eins zwei drei"));
}

#[test]
fn tmx_without_header_is_rejected() {
    let error = HashedMemory::from_tmx(b"<tmx><body/></tmx>").unwrap_err();
    assert_eq!(error.kind, ErrorKind::MissingMetadata);
    assert_eq!(error.message, "Missing header in tmx");
}

#[test]
fn tmx_without_source_language_is_rejected() {
    let error = HashedMemory::from_tmx(b"<tmx><header/><body/></tmx>").unwrap_err();
    assert_eq!(error.kind, ErrorKind::MissingMetadata);
    assert_eq!(error.message, "Missing srclang in tmx header");
}

#[test]
fn tmx_that_is_not_xml_is_rejected() {
    let error = HashedMemory::from_tmx(b"<tmx><header srclang=\"en\"></tmx>").unwrap_err();
    assert_eq!(error.kind, ErrorKind::MalformedMarkup);
}

#[test]
fn tmx_that_is_not_utf8_is_rejected() {
    let error = HashedMemory::from_tmx(&[0x3c, 0x61, 0xff, 0x3e]).unwrap_err();
    assert_eq!(error.kind, ErrorKind::InvalidEncoding);
}

#[test]
fn memory_from_nodes_written_by_hand() {
    let nodes = vec![
        node(XmlNodeKind::Root, 1, "", None),
        node(XmlNodeKind::Element, 2, "tmx", None),
        with_attribute(node(XmlNodeKind::Element, 3, "header", None), None, "srclang", "en"),
        node(XmlNodeKind::Element, 3, "body", None),
        with_attribute(node(XmlNodeKind::Element, 4, "tuv", None), None, "lang", "en"),
        node(XmlNodeKind::Element, 5, "seg", Some("kept")),
        node(XmlNodeKind::Text, 6, "", Some("kept")),
        node(XmlNodeKind::Comment, 6, "", Some("a comment")),
        with_attribute(node(XmlNodeKind::Element, 4, "tuv", None), None, "lang", "fr"),
        node(XmlNodeKind::Text, 5, "", Some("dropped")),
        node(XmlNodeKind::Text, 3, "", Some("outside")),
    ];
    let memory = HashedMemory::from_tmx_nodes(&nodes).unwrap();
    assert!(memory.contains("kept"));
    assert!(!memory.contains("a comment"));
    assert!(!memory.contains("dropped"));
    assert!(!memory.contains("outside"));
}

#[test]
fn source_language_is_read_from_the_first_header() {
    let nodes = vec![
        node(XmlNodeKind::Root, 1, "", None),
        with_attribute(node(XmlNodeKind::Element, 2, "header", None), None, "srclang", "en"),
        with_attribute(node(XmlNodeKind::Element, 2, "header", None), None, "srclang", "fr"),
        with_attribute(node(XmlNodeKind::Element, 2, "tuv", None), None, "lang", "fr"),
        node(XmlNodeKind::Text, 3, "", Some("bonjour")),
        with_attribute(node(XmlNodeKind::Element, 2, "tuv", None), None, "lang", "en"),
        node(XmlNodeKind::Text, 3, "", Some("hello")),
    ];
    let memory = HashedMemory::from_tmx_nodes(&nodes).unwrap();
    assert!(memory.contains("hello"));
    assert!(!memory.contains("bonjour"));
}

#[test]
fn source_language_with_a_namespace_does_not_count() {
    let nodes = vec![
        node(XmlNodeKind::Root, 1, "", None),
        with_attribute(
            node(XmlNodeKind::Element, 2, "header", None),
            Some("urn:other"),
            "srclang",
            "en",
        ),
    ];
    let error = HashedMemory::from_tmx_nodes(&nodes).unwrap_err();
    assert_eq!(error.kind, ErrorKind::MissingMetadata);
    assert_eq!(error.message, "Missing srclang in tmx header");
}

#[test]
fn variant_is_told_by_tag_and_language() {
    let english = with_attribute(
        node(XmlNodeKind::Element, 2, "tuv", None),
        Some("http://www.w3.org/XML/1998/namespace"),
        "lang",
        "en",
    );
    assert!(is_source_variant(&english, "en"));
    assert!(!is_source_variant(&english, "fr"));
    let other = with_attribute(node(XmlNodeKind::Element, 2, "tu", None), None, "lang", "en");
    assert!(!is_source_variant(&other, "en"));
    assert!(!is_source_variant(&node(XmlNodeKind::Element, 2, "tuv", None), "en"));
}

#[test]
fn hashes_are_listed_once_each() {
    let mut memory = HashedMemory::new();
    assert!(memory.hashes().is_empty());
    memory.add_hash(30);
    memory.add_hash(10);
    memory.add_hash(30);
    memory.add_hash(20);
    let mut hashes = memory.hashes();
    hashes.sort();
    assert_eq!(hashes, vec![10, 20, 30]);
}
