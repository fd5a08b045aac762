//! Extraction of the translatable text of a file, by the first rule that takes the file.

use crate::default_extractors::docx::Docx;
use crate::default_extractors::json::Json;
use crate::default_extractors::pptx::Pptx;
use crate::default_extractors::txt::Txt;
use crate::default_extractors::xliff::Xliff;
use crate::default_extractors::xlsx::Xlsx;
use crate::default_extractors::xml::Xml;
use crate::error::ErrorKind;
use crate::segmentation::section_texts;
use vstd::prelude::*;

verus! {

/// Thrown when parsing a file fails
#[derive(Debug)]
pub struct ExtractionError {
    pub kind: ErrorKind,
    pub message: String,
}

/// What an extraction ends in: the sections of text as texts, or the kind of failure.
pub open spec fn outcome(result: Result<Vec<String>, ExtractionError>) -> Result<
    Seq<Seq<char>>,
    ErrorKind,
> {
    match result {
        Ok(sections) => Ok(section_texts(sections@)),
        Err(error) => Err(error.kind),
    }
}

/// The text of an extension, where there is one.
pub open spec fn extension_text(extension: Option<&str>) -> Option<Seq<char>> {
    match extension {
        Some(extension) => Some(extension@),
        None => None,
    }
}

/// This trait is used to define extraction rule structs
///
/// The spec function `accepts` names what `can_extract` returns, a function of what
/// it is given. The spec function `yields` says which outcomes `extract` may end in
/// on a file: exactly one for a rule whose outcome is a function of the bytes. A
/// verified implementation defines them and proves that its operations keep to
/// them; what this library proves of a rule holds as far as that is true of it.
pub trait Extract {
    /// Whether the rule takes a file of these bytes and this extension.
    open spec fn accepts(&self, buf: Seq<u8>, extension: Option<Seq<char>>) -> bool {
        arbitrary()
    }

    /// Whether extraction from a file of these bytes may end in this outcome.
    open spec fn yields(&self, buf: Seq<u8>, outcome: Result<Seq<Seq<char>>, ErrorKind>) -> bool {
        arbitrary()
    }

    /// Defines whether this rule can actually extract a file given the content and extension
    fn can_extract(&self, buf: &[u8], extension: Option<&str>) -> (accepted: bool)
        ensures
            accepted == self.accepts(buf@, extension_text(extension)),
    ;

    /// The extraction logic, parses the file and extracts sections of translatable text.
    fn extract(&self, buf: &[u8]) -> (result: Result<Vec<String>, ExtractionError>)
        ensures
            self.yields(buf@, outcome(result)),
    ;
}

/// A rule as it stands in a set of rules: one of those that come with the library,
/// or one that the caller added.
pub enum Rule {
    Xliff,
    Txt,
    Xml,
    Docx,
    Json,
    Pptx,
    Xlsx,
    Custom(Box<dyn Extract>),
}

impl Extract for Rule {
    open spec fn accepts(&self, buf: Seq<u8>, extension: Option<Seq<char>>) -> bool {
        match self {
            Rule::Xliff => Xliff.accepts(buf, extension),
            Rule::Txt => Txt.accepts(buf, extension),
            Rule::Xml => Xml.accepts(buf, extension),
            Rule::Docx => Docx.accepts(buf, extension),
            Rule::Json => Json.accepts(buf, extension),
            Rule::Pptx => Pptx.accepts(buf, extension),
            Rule::Xlsx => Xlsx.accepts(buf, extension),
            Rule::Custom(rule) => rule.accepts(buf, extension),
        }
    }

    open spec fn yields(&self, buf: Seq<u8>, outcome: Result<Seq<Seq<char>>, ErrorKind>) -> bool {
        match self {
            Rule::Xliff => Xliff.yields(buf, outcome),
            Rule::Txt => Txt.yields(buf, outcome),
            Rule::Xml => Xml.yields(buf, outcome),
            Rule::Docx => Docx.yields(buf, outcome),
            Rule::Json => Json.yields(buf, outcome),
            Rule::Pptx => Pptx.yields(buf, outcome),
            Rule::Xlsx => Xlsx.yields(buf, outcome),
            Rule::Custom(rule) => rule.yields(buf, outcome),
        }
    }

    fn can_extract(&self, buf: &[u8], extension: Option<&str>) -> (accepted: bool) {
        match self {
            Rule::Xliff => Xliff.can_extract(buf, extension),
            Rule::Txt => Txt.can_extract(buf, extension),
            Rule::Xml => Xml.can_extract(buf, extension),
            Rule::Docx => Docx.can_extract(buf, extension),
            Rule::Json => Json.can_extract(buf, extension),
            Rule::Pptx => Pptx.can_extract(buf, extension),
            Rule::Xlsx => Xlsx.can_extract(buf, extension),
            Rule::Custom(rule) => rule.can_extract(buf, extension),
        }
    }

    fn extract(&self, buf: &[u8]) -> (result: Result<Vec<String>, ExtractionError>) {
        match self {
            Rule::Xliff => Xliff.extract(buf),
            Rule::Txt => Txt.extract(buf),
            Rule::Xml => Xml.extract(buf),
            Rule::Docx => Docx.extract(buf),
            Rule::Json => Json.extract(buf),
            Rule::Pptx => Pptx.extract(buf),
            Rule::Xlsx => Xlsx.extract(buf),
            Rule::Custom(rule) => rule.extract(buf),
        }
    }
}

/// Wrapper around implementations of the Extract trait. Add custom extraction rules or use
/// the default extraction rules.
pub struct ExtractionRules {
    rules: Vec<Rule>,
}

impl View for ExtractionRules {
    type V = Seq<Rule>;

    /// The rules, in the order in which they are tried.
    closed spec fn view(&self) -> Seq<Rule> {
        self.rules@
    }
}

/// Whether `i` is the place of the first rule that takes the file.
pub open spec fn is_first_accepting(
    rules: Seq<Rule>,
    buf: Seq<u8>,
    extension: Option<Seq<char>>,
    i: int,
) -> bool {
    &&& 0 <= i < rules.len()
    &&& rules[i].accepts(buf, extension)
    &&& forall|j: int| 0 <= j < i ==> !(#[trigger] rules[j]).accepts(buf, extension)
}

/// Whether extraction by the rules from a file may end in this outcome: one that
/// the first rule that takes the file may end in, and `UnsupportedFormat` where no
/// rule takes the file.
pub open spec fn extracts(
    rules: Seq<Rule>,
    buf: Seq<u8>,
    extension: Option<Seq<char>>,
    outcome: Result<Seq<Seq<char>>, ErrorKind>,
) -> bool {
    if exists|i: int| is_first_accepting(rules, buf, extension, i) {
        rules[choose|i: int| is_first_accepting(rules, buf, extension, i)].yields(buf, outcome)
    } else {
        outcome == Err::<Seq<Seq<char>>, ErrorKind>(ErrorKind::UnsupportedFormat)
    }
}

/// Whether a failed extraction by the rules tells in its message that no rule took
/// the file, where none did.
pub open spec fn tells_of_no_rule(
    rules: Seq<Rule>,
    buf: Seq<u8>,
    extension: Option<Seq<char>>,
    result: Result<Vec<String>, ExtractionError>,
) -> bool {
    (forall|i: int| !is_first_accepting(rules, buf, extension, i)) ==> result is Err
        && result->Err_0.message@ == "No rule matched file type"@
}

/// Whether a path is a bare file name: it holds no slash, no backslash and no colon.
pub open spec fn is_bare_name(path: Seq<char>) -> bool {
    forall|i: int|
        0 <= i < path.len() ==> (#[trigger] path[i]) != '/' && path[i] != '\\' && path[i] != ':'
}

/// Whether `i` is the place of the last dot of a name.
pub open spec fn is_last_dot(name: Seq<char>, i: int) -> bool {
    &&& 0 <= i < name.len()
    &&& name[i] == '.'
    &&& forall|j: int| i < j < name.len() ==> (#[trigger] name[j]) != '.'
}

/// The extension of a file name: what follows its last dot. None where the name is
/// `..`, has no dot, or has its only dot in front.
pub open spec fn extension_of_name(name: Seq<char>) -> Option<Seq<char>> {
    if name =~= seq!['.', '.'] {
        None
    } else if exists|i: int| is_last_dot(name, i) && i > 0 {
        Some(name.subrange((choose|i: int| is_last_dot(name, i) && i > 0) + 1, name.len() as int))
    } else {
        None
    }
}

impl ExtractionRules {
    /// Add an Extract implementation to the ruleset
    pub fn add(&mut self, rule: Box<dyn Extract>)
        ensures
            final(self)@ == old(self)@.push(Rule::Custom(rule)),
    {
        self.rules.push(Rule::Custom(rule));
    }

    /// Instantiate a new ExtractionRules set
    pub fn new() -> (rules: Self)
        ensures
            rules@ == Seq::<Rule>::empty(),
    {
        Self { rules: Vec::new() }
    }

    /// Extracts with the first rule that takes a file of these bytes and this extension.
    ///
    /// # Errors
    /// `UnsupportedFormat`: No rule matched the file. Any other: the rule that took the
    /// file failed on it.
    pub fn extract_with_extension(&self, buf: &[u8], extension: Option<&str>) -> (result: Result<
        Vec<String>,
        ExtractionError,
    >)
        ensures
            extracts(self@, buf@, extension_text(extension), outcome(result)),
            tells_of_no_rule(self@, buf@, extension_text(extension), result),
    {
        let mut i: usize = 0;
        while i < self.rules.len()
            invariant
                i <= self.rules.len(),
                forall|j: int|
                    0 <= j < i ==> !(#[trigger] self.rules[j]).accepts(
                        buf@,
                        extension_text(extension),
                    ),
            decreases self.rules.len() - i,
        {
            if self.rules[i].can_extract(buf, extension) {
                assert(is_first_accepting(self@, buf@, extension_text(extension), i as int));
                return self.rules[i].extract(buf);
            }
            i += 1;
        }
        Err(
            ExtractionError {
                kind: ErrorKind::UnsupportedFormat,
                message: "No rule matched file type".to_string(),
            },
        )
    }
}

/// The rules that come with the library, in the order in which they are tried.
pub open spec fn default_rules() -> Seq<Rule> {
    seq![Rule::Xliff, Rule::Txt, Rule::Xml, Rule::Docx, Rule::Json, Rule::Pptx, Rule::Xlsx]
}

/// The default implementation of ExtractionRules uses all the rules in the
/// default_extractors folder
impl Default for ExtractionRules {
    fn default() -> (rules: Self)
        ensures
            rules@ == default_rules(),
    {
        let rules = vec![
            Rule::Xliff,
            Rule::Txt,
            Rule::Xml,
            Rule::Docx,
            Rule::Json,
            Rule::Pptx,
            Rule::Xlsx,
        ];
        assert(rules@ =~= default_rules());
        ExtractionRules { rules }
    }
}

/// Calls `Path::new(path).extension()` and takes the extension as a string slice.
/// Trusted: a path that is a bare file name has the extension of that name. What
/// counts as the file name of any other path depends on the platform, so nothing
/// is stated of it.
#[verifier::external_body]
fn extension_of(path: &str) -> (extension: Option<&str>)
    ensures
        is_bare_name(path@) ==> extension_text(extension) == extension_of_name(path@),
{
    std::path::Path::new(path).extension().and_then(|extension| extension.to_str())
}

/// Given a file, path and a set of extraction rules, this method will extract all the
/// sections of translatable text from the file. E.g. paragraphs from word documents, values
/// from json files, untranslated source segments from xliff, etc.
///
/// The default implementation of the extraction rules can be used, but custom extraction
/// rules can also be defined for files types that are not supported.
///
/// The rules are given the extension of the path, as the platform reads it: for a
/// bare file name, what follows its last dot.
///
/// # Errors
/// `UnsupportedFormat`: No rule matched the file and/or path
pub fn extract(buf: Vec<u8>, path: &str, rules: ExtractionRules) -> (result: Result<
    Vec<String>,
    ExtractionError,
>)
    ensures
        exists|extension: Option<Seq<char>>|
            #![trigger extracts(rules@, buf@, extension, outcome(result))]
            extracts(rules@, buf@, extension, outcome(result)) && tells_of_no_rule(
                rules@,
                buf@,
                extension,
                result,
            ),
        is_bare_name(path@) ==> extracts(
            rules@,
            buf@,
            extension_of_name(path@),
            outcome(result),
        ) && tells_of_no_rule(rules@, buf@, extension_of_name(path@), result),
{
    let extension = extension_of(path);
    let result = rules.extract_with_extension(buf.as_slice(), extension);
    assert(extracts(rules@, buf@, extension_text(extension), outcome(result)));
    result
}

} // verus!
