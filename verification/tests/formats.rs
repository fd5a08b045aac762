use file_count::default_extractors::docx::Docx;
use file_count::default_extractors::html::extract_html_sections;
use file_count::default_extractors::html::extract_text_from_node;
use file_count::default_extractors::html::join;
use file_count::default_extractors::html::Html;
use file_count::default_extractors::html::HtmlNode;
use file_count::default_extractors::json::extract_text_from_json_value;
use file_count::default_extractors::json::Json;
use file_count::default_extractors::json::JsonValue;
use file_count::default_extractors::pptx::Pptx;
use file_count::default_extractors::txt::Txt;
use file_count::default_extractors::xlsx::Xlsx;
use file_count::error::ErrorKind;
use file_count::extract::extract;
use file_count::extract::Extract;
use file_count::extract::ExtractionError;
use file_count::extract::ExtractionRules;
use file_count::zip_extensions::read_file_from_zip;
use file_count::zip_extensions::read_files_from_zip;
use std::io::Write;

fn archive(files: &[(&str, &[u8])]) -> Vec<u8> {
    let mut writer = zip::ZipWriter::new(std::io::Cursor::new(Vec::new()));
    for (name, content) in files {
        writer.start_file(*name, zip::write::FileOptions::default()).unwrap();
        writer.write_all(content).unwrap();
    }
    writer.finish().unwrap().into_inner()
}

/// An archive of one entry that is marked for a cipher in its extra field, though
/// not as encrypted.
fn archive_with_cipher_field(name: &str, content: &[u8]) -> Vec<u8> {
    archive_with_unreadable_entry(&[(name, content)], 0)
}

/// An archive in which the entry at the place `unreadable` is marked for a cipher in
/// its extra field, so that it cannot be opened.
fn archive_with_unreadable_entry(files: &[(&str, &[u8])], unreadable: usize) -> Vec<u8> {
    let mut writer = zip::ZipWriter::new(std::io::Cursor::new(Vec::new()));
    for (place, (name, content)) in files.iter().enumerate() {
        if place == unreadable {
            writer.start_file_with_extra_data(*name, zip::write::FileOptions::default()).unwrap();
            writer
                .write_all(&[0xef, 0xbe, 0x07, 0x00, 0x02, 0x00, 0x41, 0x45, 0x01, 0x00, 0x00])
                .unwrap();
            writer.end_extra_data().unwrap();
        } else {
            writer.start_file(*name, zip::write::FileOptions::default()).unwrap();
        }
        writer.write_all(content).unwrap();
    }
    let mut bytes = writer.finish().unwrap().into_inner();
    for at in 0..bytes.len() - 3 {
        if bytes[at..at + 4] == [0xef, 0xbe, 0x07, 0x00] {
            bytes[at] = 0x01;
            bytes[at + 1] = 0x99;
        }
    }
    bytes
}

/// A rule of the caller: takes files with a given extension and gives the
/// extension back.
struct Only(Option<&'static str>);

impl Extract for Only {
    fn can_extract(&self, _buf: &[u8], extension: Option<&str>) -> bool {
        extension == self.0
    }

    fn extract(&self, _buf: &[u8]) -> Result<Vec<String>, ExtractionError> {
        Ok(vec![String::from(self.0.unwrap_or("none"))])
    }
}

fn only(extension: Option<&'static str>) -> ExtractionRules {
    let mut rules = ExtractionRules::new();
    rules.add(Box::new(Only(extension)));
    rules
}

fn html_text(text: &str) -> HtmlNode {
    HtmlNode::Text(String::from(text))
}

fn html_element(name: &str, children: Vec<HtmlNode>) -> HtmlNode {
    HtmlNode::Element { name: String::from(name), children }
}

/// A rule of the caller: takes files with the extension `up` and gives their text
/// in upper case.
struct Upper;

impl Extract for Upper {
    fn can_extract(&self, _buf: &[u8], extension: Option<&str>) -> bool {
        extension == Some("up")
    }

    fn extract(&self, buf: &[u8]) -> Result<Vec<String>, ExtractionError> {
        Ok(vec![String::from_utf8_lossy(buf).to_uppercase()])
    }
}

#[test]
fn txt_rule_takes_the_whole_file_as_one_section() {
    assert!(Txt.can_extract(b"", Some("txt")));
    assert!(!Txt.can_extract(b"plain text", None));
    assert!(!Txt.can_extract(b"plain text", Some("text")));
    assert_eq!(Txt.extract("one. two.\nthree".as_bytes()).unwrap(), vec!["one. two.\nthree"]);
    assert_eq!(Txt.extract(b"").unwrap(), vec![""]);
    assert_eq!(Txt.extract("h\u{e9}".as_bytes()).unwrap(), vec!["h\u{e9}"]);
}

#[test]
fn txt_rule_rejects_what_is_not_utf8() {
    assert_eq!(Txt.extract(&[0x68, 0xe9]).unwrap_err().kind, ErrorKind::InvalidEncoding);
}

#[test]
fn json_rule_takes_json_files() {
    assert!(Json.can_extract(b"", Some("json")));
    assert!(!Json.can_extract(b"{}", None));
    assert!(!Json.can_extract(b"{}", Some("txt")));
}

#[test]
fn json_rule_extracts_every_string_value() {
    let json = b"{\"b\": [\"two\", 3, [\"three\", null], {\"k\": \"four\"}], \"a\": \"one\", \"c\": true}";
    assert_eq!(Json.extract(json).unwrap(), vec!["one", "two", "three", "four"]);
    assert_eq!(Json.extract(b"\"alone\"").unwrap(), vec!["alone"]);
    assert!(Json.extract(b"12").unwrap().is_empty());
    assert!(Json.extract(b"[]").unwrap().is_empty());
}

#[test]
fn json_rule_rejects_what_is_not_json() {
    assert_eq!(Json.extract(b"{\"a\": ").unwrap_err().kind, ErrorKind::MalformedMarkup);
    assert_eq!(Json.extract(b"").unwrap_err().kind, ErrorKind::MalformedMarkup);
}

#[test]
fn json_value_written_by_hand() {
    let value = JsonValue::Object(vec![
        (String::from("z"), JsonValue::Text(String::from("first"))),
        (String::from("n"), JsonValue::Number),
        (
            String::from("a"),
            JsonValue::Array(vec![
                JsonValue::Null,
                JsonValue::Text(String::from("second")),
                JsonValue::Array(vec![JsonValue::Text(String::from("third"))]),
                JsonValue::Bool(false),
            ]),
        ),
        (String::from("last"), JsonValue::Text(String::from(""))),
    ]);
    assert_eq!(extract_text_from_json_value(&value), vec!["first", "second", "third", ""]);
    assert!(extract_text_from_json_value(&JsonValue::Null).is_empty());
    assert!(extract_text_from_json_value(&JsonValue::Bool(true)).is_empty());
    assert!(extract_text_from_json_value(&JsonValue::Number).is_empty());
    assert!(extract_text_from_json_value(&JsonValue::Array(Vec::new())).is_empty());
}

#[test]
fn texts_are_joined_with_a_separator() {
    assert_eq!(join(&Vec::new(), " "), "");
    assert_eq!(join(&vec![String::from("one")], " "), "one");
    assert_eq!(join(&vec![String::from("a"), String::new(), String::from("c")], ", "), "a, , c");
}

#[test]
fn html_element_with_text_is_one_section() {
    let paragraph = html_element(
        "p",
        vec![
            html_text("Hello"),
            html_element("b", vec![html_text("bold"), html_element("i", vec![html_text("er")])]),
            HtmlNode::Comment(String::from("no")),
            html_text("world"),
        ],
    );
    assert_eq!(extract_text_from_node(&paragraph), vec!["Hello bold er world"]);
}

#[test]
fn html_element_without_text_keeps_its_sections_apart() {
    let list = html_element(
        "ul",
        vec![
            html_element("li", vec![html_text("one")]),
            html_element("li", Vec::new()),
            HtmlNode::Comment(String::from("no")),
            html_element("li", vec![html_element("a", vec![html_text("two")])]),
        ],
    );
    assert_eq!(extract_text_from_node(&list), vec!["one", "two"]);
    assert_eq!(extract_text_from_node(&html_text("alone")), vec!["alone"]);
    assert!(extract_text_from_node(&HtmlNode::Comment(String::from("no"))).is_empty());
    assert!(extract_text_from_node(&html_element("div", Vec::new())).is_empty());
    assert_eq!(
        extract_html_sections(&vec![html_text("a"), list, html_text("b")]),
        vec!["a", "one", "two", "b"]
    );
}

#[test]
fn html_rule_takes_html_files() {
    assert!(Html.can_extract(b"", Some("html")));
    assert!(Html.can_extract(b"", Some("htmlx")));
    assert!(Html.can_extract(b"<html ><body></body></html>", None));
    assert!(Html.can_extract(b"\n <!DOCTYPE html >", Some("txt")));
    assert!(!Html.can_extract(b"plain", Some("htm")));
    assert!(!Html.can_extract(b"plain", None));
}

#[test]
fn html_rule_extracts_sections() {
    let html = "<div><p>Hello<b>bold</b></p><!-- no --><p>World</p></div>";
    assert_eq!(Html.extract(html.as_bytes()).unwrap(), vec!["Hello bold", "World"]);
    assert_eq!(Html.extract(&[0x3c, 0xff]).unwrap_err().kind, ErrorKind::InvalidEncoding);
}

#[test]
fn file_is_read_from_an_archive() {
    let bytes = archive(&[("a.txt", b"first"), ("dir/b.txt", "zw\u{f6}lf".as_bytes())]);
    assert_eq!(read_file_from_zip(&bytes, "a.txt").unwrap(), "first");
    assert_eq!(read_file_from_zip(&bytes, "dir/b.txt").unwrap(), "zw\u{f6}lf");
    assert_eq!(
        read_file_from_zip(&bytes, "missing").unwrap_err().kind,
        ErrorKind::MalformedArchive
    );
    assert_eq!(
        read_file_from_zip(b"not an archive", "a.txt").unwrap_err().kind,
        ErrorKind::MalformedArchive
    );
}

#[test]
fn file_that_is_not_text_is_rejected() {
    let bytes = archive(&[("bin", &[0xff, 0xfe]), ("ok", b"fine")]);
    assert_eq!(read_file_from_zip(&bytes, "bin").unwrap_err().kind, ErrorKind::InvalidEncoding);
    assert_eq!(read_files_from_zip(&bytes, "bin").unwrap_err().kind, ErrorKind::InvalidEncoding);
    assert_eq!(read_files_from_zip(&bytes, "ok").unwrap(), vec!["fine"]);
}

#[test]
fn files_are_read_from_an_archive_by_part_of_their_name() {
    let bytes = archive(&[
        ("ppt/slides/slide2.xml", b"two"),
        ("ppt/presentation.xml", b"no"),
        ("ppt/slides/slide1.xml", b"one"),
        ("x/ppt/slides/slide", b"three"),
        ("ppt/slides/_rels/slide1.xml.rels", b"no"),
    ]);
    assert_eq!(read_files_from_zip(&bytes, "ppt/slides/slide").unwrap(), vec!["two", "one", "three"]);
    assert_eq!(read_files_from_zip(&bytes, "").unwrap().len(), 5);
    assert!(read_files_from_zip(&bytes, "nowhere").unwrap().is_empty());
    assert_eq!(
        read_files_from_zip(b"not an archive", "").unwrap_err().kind,
        ErrorKind::MalformedArchive
    );
}

#[test]
fn entry_marked_for_a_cipher_is_refused() {
    let bytes = archive_with_cipher_field("word/document.xml", b"<document/>");
    assert_eq!(
        read_file_from_zip(&bytes, "word/document.xml").unwrap_err().kind,
        ErrorKind::MalformedArchive
    );
    assert_eq!(read_files_from_zip(&bytes, "word").unwrap_err().kind, ErrorKind::MalformedArchive);
    assert_eq!(read_files_from_zip(&bytes, "other").unwrap_err().kind, ErrorKind::MalformedArchive);
    assert_eq!(Docx.extract(&bytes).unwrap_err().kind, ErrorKind::MalformedArchive);
    assert_eq!(Pptx.extract(&bytes).unwrap_err().kind, ErrorKind::MalformedArchive);
    assert_eq!(Xlsx.extract(&bytes).unwrap_err().kind, ErrorKind::MalformedArchive);
}

#[test]
fn first_failure_in_an_archive_is_reported() {
    let files: [(&str, &[u8]); 3] = [("slide1", b"one"), ("slide2", &[0xff]), ("slide3", b"three")];
    let later = archive_with_unreadable_entry(&files, 2);
    assert_eq!(read_files_from_zip(&later, "slide").unwrap_err().kind, ErrorKind::InvalidEncoding);
    assert_eq!(read_files_from_zip(&later, "slide1").unwrap_err().kind, ErrorKind::MalformedArchive);
    assert_eq!(read_file_from_zip(&later, "slide1").unwrap(), "one");
    let earlier = archive_with_unreadable_entry(&files, 0);
    assert_eq!(
        read_files_from_zip(&earlier, "slide2").unwrap_err().kind,
        ErrorKind::MalformedArchive
    );
    let none = archive_with_unreadable_entry(&files, 3);
    assert_eq!(read_files_from_zip(&none, "slide1").unwrap(), vec!["one"]);
    assert_eq!(read_files_from_zip(&none, "slide").unwrap_err().kind, ErrorKind::InvalidEncoding);
}

#[test]
fn extension_of_a_bare_name_follows_its_last_dot() {
    assert_eq!(extract(Vec::new(), "a.txt", only(Some("txt"))).unwrap(), vec!["txt"]);
    assert_eq!(extract(Vec::new(), "a.tar.gz", only(Some("gz"))).unwrap(), vec!["gz"]);
    assert_eq!(extract(Vec::new(), "..gz", only(Some("gz"))).unwrap(), vec!["gz"]);
    assert_eq!(extract(Vec::new(), "a.", only(Some(""))).unwrap(), vec![""]);
    assert_eq!(extract(Vec::new(), "...", only(Some(""))).unwrap(), vec![""]);
    assert_eq!(extract(Vec::new(), "txt", only(None)).unwrap(), vec!["none"]);
    assert_eq!(extract(Vec::new(), ".txt", only(None)).unwrap(), vec!["none"]);
    assert_eq!(extract(Vec::new(), "..", only(None)).unwrap(), vec!["none"]);
    assert_eq!(extract(Vec::new(), ".", only(None)).unwrap(), vec!["none"]);
    assert_eq!(extract(Vec::new(), "", only(None)).unwrap(), vec!["none"]);
    let error = extract(Vec::new(), "a.txt", only(Some("gz"))).unwrap_err();
    assert_eq!(error.kind, ErrorKind::UnsupportedFormat);
    assert_eq!(error.message, "No rule matched file type");
}

#[test]
fn docx_rule_extracts_paragraphs() {
    let document = b"<document><body><p><r><t>Hello</t><tab/><t>there</t></r></p><p><r><t>Bye</t></r></p></body></document>";
    let bytes = archive(&[("word/document.xml", document), ("word/styles.xml", b"<styles/>")]);
    assert!(Docx.can_extract(&bytes, None));
    assert!(!Docx.can_extract(b"<document/>", Some("docx")));
    assert_eq!(Docx.extract(&bytes).unwrap(), vec!["Hello  there", "Bye"]);
}

#[test]
fn docx_rule_rejects_other_archives() {
    let other = archive(&[("xl/sharedStrings.xml", b"<sst/>")]);
    assert!(!Docx.can_extract(&other, Some("docx")));
    assert_eq!(Docx.extract(&other).unwrap_err().kind, ErrorKind::MalformedArchive);
    assert_eq!(Docx.extract(b"no archive").unwrap_err().kind, ErrorKind::MalformedArchive);
    let broken = archive(&[("word/document.xml", b"<document></p>")]);
    assert_eq!(Docx.extract(&broken).unwrap_err().kind, ErrorKind::MalformedMarkup);
}

#[test]
fn xlsx_rule_extracts_shared_strings() {
    let strings = b"<sst><si><t>Name</t></si><si><r><t>Rich</t></r><r><t> text</t></r></si><si><t/></si></sst>";
    let bytes = archive(&[("xl/sharedStrings.xml", strings), ("xl/workbook.xml", b"<workbook/>")]);
    assert!(Xlsx.can_extract(&bytes, None));
    assert!(!Xlsx.can_extract(b"", Some("xlsx")));
    assert_eq!(Xlsx.extract(&bytes).unwrap(), vec!["Name", "Rich", " text"]);
    assert_eq!(Xlsx.extract(b"").unwrap_err().kind, ErrorKind::MalformedArchive);
}

#[test]
fn pptx_rule_extracts_the_text_of_the_slides() {
    let bytes = archive(&[
        ("ppt/slides/slide1.xml", b"<sld><sp><t>Title</t></sp><sp><t>Body</t></sp></sld>"),
        ("ppt/presentation.xml", b"<presentation><t>no</t></presentation>"),
        ("ppt/slides/slide2.xml", b"<sld><t>Second</t></sld>"),
    ]);
    assert!(Pptx.can_extract(&bytes, None));
    assert!(!Pptx.can_extract(b"PK", Some("pptx")));
    assert_eq!(Pptx.extract(&bytes).unwrap(), vec!["Title", "Body", "Second"]);
}

#[test]
fn no_rule_no_extraction() {
    let error = extract(b"text".to_vec(), "file.txt", ExtractionRules::new()).unwrap_err();
    assert_eq!(error.kind, ErrorKind::UnsupportedFormat);
    assert_eq!(error.message, "No rule matched file type");
    let rules = ExtractionRules::new();
    assert_eq!(
        rules.extract_with_extension(b"text", Some("txt")).unwrap_err().kind,
        ErrorKind::UnsupportedFormat
    );
}

#[test]
fn default_rules_go_by_extension_and_content() {
    let text = extract(b"a. b.".to_vec(), "dir/file.txt", ExtractionRules::default()).unwrap();
    assert_eq!(text, vec!["a. b."]);
    let json = extract(b"[\"x\"]".to_vec(), "file.json", ExtractionRules::default()).unwrap();
    assert_eq!(json, vec!["x"]);
    let xml = extract(b"<?xml version=\"1.0\"?><a>x</a>".to_vec(), "file", ExtractionRules::default())
        .unwrap();
    assert_eq!(xml, vec!["x"]);
    let xliff = b"<xliff><segment><source>s</source><target>t</target></segment></xliff>";
    assert!(extract(xliff.to_vec(), "file.xlf", ExtractionRules::default()).unwrap().is_empty());
    let docx = archive(&[("word/document.xml", b"<document><p><t>p</t></p></document>")]);
    assert_eq!(extract(docx, "file.bin", ExtractionRules::default()).unwrap(), vec!["p"]);
    let unknown = extract(b"data".to_vec(), "file.bin", ExtractionRules::default()).unwrap_err();
    assert_eq!(unknown.kind, ErrorKind::UnsupportedFormat);
    let none = extract(b"data".to_vec(), "txt", ExtractionRules::default()).unwrap_err();
    assert_eq!(none.kind, ErrorKind::UnsupportedFormat);
}

#[test]
fn first_rule_that_takes_the_file_extracts() {
    let rules = ExtractionRules::default();
    let as_xliff = rules.extract_with_extension(b"<a>x</a>", Some("xlf")).unwrap();
    assert!(as_xliff.is_empty());
    let as_xml = rules.extract_with_extension(b"<a>x</a>", Some("xml")).unwrap();
    assert_eq!(as_xml, vec!["x"]);
    let failed = rules.extract_with_extension(b"<a>", Some("json")).unwrap_err();
    assert_eq!(failed.kind, ErrorKind::MalformedMarkup);
}

#[test]
fn added_rules_are_tried_in_order() {
    let mut rules = ExtractionRules::new();
    rules.add(Box::new(Upper));
    rules.add(Box::new(Txt));
    rules.add(Box::new(Html));
    assert_eq!(extract(b"shout".to_vec(), "a.up", rules).unwrap(), vec!["SHOUT"]);

    let mut rules = ExtractionRules::default();
    rules.add(Box::new(Upper));
    assert_eq!(rules.extract_with_extension(b"shout", Some("up")).unwrap(), vec!["SHOUT"]);
    assert_eq!(rules.extract_with_extension(b"quiet", Some("txt")).unwrap(), vec!["quiet"]);
    assert_eq!(
        rules.extract_with_extension(b"quiet", None).unwrap_err().kind,
        ErrorKind::UnsupportedFormat
    );
}
