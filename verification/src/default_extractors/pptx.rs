//! PowerPoint presentations.

use crate::default_extractors::xlsx::extract_texts_of_runs;
use crate::default_extractors::xlsx::texts_of_runs;
use crate::default_extractors::xml::read_xml_text;
use crate::error::ErrorKind;
use crate::extract::outcome;
use crate::extract::Extract;
use crate::extract::ExtractionError;
use crate::segmentation::section_texts;
use crate::xml_extensions::xml_nodes;
use crate::zip_extensions::read_files_from_zip;
use crate::zip_extensions::zip_texts_matching;
use vstd::prelude::*;

verus! {

/// The rule for PowerPoint presentations: every run of text on a slide is a
/// section of text.
pub struct Pptx;

/// Whether `infer` takes a buffer for a PowerPoint presentation by its first bytes.
pub uninterp spec fn pptx_signature(buf: Seq<u8>) -> bool;

/// Calls `infer::doc::is_pptx`. Trusted: it looks at the bytes alone. It adds
/// offsets that it reads from the buffer, which fit where a `usize` has 64 bits.
#[verifier::external_body]
fn is_pptx(buf: &[u8]) -> (found: bool)
    requires
        usize::BITS >= 64,
    ensures
        found == pptx_signature(buf@),
{
    infer::doc::is_pptx(buf)
}

/// The sections of the first `count` slides, slide after slide; `MalformedMarkup`
/// where one of them is not well-formed XML.
pub open spec fn sections_of_slides(slides: Seq<Seq<char>>, count: nat) -> Result<
    Seq<Seq<char>>,
    ErrorKind,
>
    decreases count,
{
    if count == 0 {
        Ok(Seq::empty())
    } else {
        match sections_of_slides(slides, (count - 1) as nat) {
            Err(kind) => Err(kind),
            Ok(sections) => match xml_nodes(slides[count - 1]) {
                None => Err(ErrorKind::MalformedMarkup),
                Some(nodes) => Ok(sections + texts_of_runs(nodes)),
            },
        }
    }
}

/// A failure among the first slides is the failure of the whole.
pub proof fn lemma_slides_failure(slides: Seq<Seq<char>>, count: nat, more: nat)
    requires
        count <= more,
        sections_of_slides(slides, count) is Err,
    ensures
        sections_of_slides(slides, more) == sections_of_slides(slides, count),
    decreases more,
{
    if count < more {
        lemma_slides_failure(slides, count, (more - 1) as nat);
    }
}

/// The sections of the slides of a presentation, given the XML text of each slide.
///
/// # Errors
/// `MalformedMarkup` where a slide is not well-formed XML.
pub fn extract_slides(slides: &Vec<String>) -> (result: Result<Vec<String>, ExtractionError>)
    ensures
        outcome(result) == sections_of_slides(section_texts(slides@), slides.len() as nat),
{
    let mut sections: Vec<String> = Vec::new();
    let mut i: usize = 0;
    assert(section_texts(sections@) =~= Seq::<Seq<char>>::empty());
    while i < slides.len()
        invariant
            i <= slides.len(),
            sections_of_slides(section_texts(slides@), i as nat) == Ok::<
                Seq<Seq<char>>,
                ErrorKind,
            >(section_texts(sections@)),
        decreases slides.len() - i,
    {
        match read_xml_text(slides[i].as_str()) {
            Ok(nodes) => {
                let mut texts = extract_texts_of_runs(&nodes);
                let ghost before = sections@;
                let ghost added = texts@;
                sections.append(&mut texts);
                assert(section_texts(sections@) =~= section_texts(before) + section_texts(added));
            },
            Err(error) => {
                proof {
                    lemma_slides_failure(
                        section_texts(slides@),
                        (i + 1) as nat,
                        slides.len() as nat,
                    );
                }
                return Err(error);
            },
        }
        i += 1;
    }
    Ok(sections)
}

/// What the rule extracts from the bytes of a presentation.
pub open spec fn pptx_extraction(buf: Seq<u8>) -> Result<Seq<Seq<char>>, ErrorKind> {
    match zip_texts_matching(buf, "ppt/slides/slide"@) {
        Err(kind) => Err(kind),
        Ok(slides) => sections_of_slides(slides, slides.len()),
    }
}

impl Extract for Pptx {
    open spec fn accepts(&self, buf: Seq<u8>, extension: Option<Seq<char>>) -> bool {
        usize::BITS >= 64 && pptx_signature(buf)
    }

    open spec fn yields(&self, buf: Seq<u8>, outcome: Result<Seq<Seq<char>>, ErrorKind>) -> bool {
        outcome == pptx_extraction(buf)
    }

    fn can_extract(&self, buf: &[u8], _extension: Option<&str>) -> (accepted: bool) {
        usize::BITS >= 64 && is_pptx(buf)
    }

    fn extract(&self, buf: &[u8]) -> (result: Result<Vec<String>, ExtractionError>) {
        match read_files_from_zip(buf, "ppt/slides/slide") {
            Ok(slides) => extract_slides(&slides),
            Err(error) => Err(error),
        }
    }
}

} // verus!
