//! The page extractor as the pipeline sees it: how it is asked for one
//! page, and what its answer is worth.
//!
//! The extractor is a program of its own. The caller runs it; this module
//! says with which arguments, and decides from its exit status and its
//! output whether the page was found.

use vstd::prelude::*;
use vstd::string::StringExecFns;
use crate::text::{decimal, decimal_text};

verus! {

/// The program that extracts a page.
pub const EXTRACTOR: &'static str = "./pdftotext";

/// Where the downloaded document is kept while its pages are probed.
pub const DOCUMENT: &'static str = "file.pdf";

/// What an error says before the extractor's own words.
pub const FAILURE_HEAD: &'static str = "pdftotext command failed with error: ";

/// What an error says where the extractor ended well and printed nothing.
pub const NOTHING_EXTRACTED: &'static str = "No text extracted";

/// Why a page has no text.
#[derive(Debug, Clone, PartialEq, Eq)]
pub struct PdfParsingError(pub String);

impl PdfParsingError {
    /// The error in words.
    pub fn message(&self) -> (message: String)
        ensures
            message@ == self.0@,
    {
        self.0.clone()
    }
}

/// The arguments that ask for page `page` of the document at `file`: the
/// layout is kept, the first and the last page wanted are both `page`, and
/// the text goes to standard output.
pub open spec fn arguments_for(page: nat, file: Seq<char>) -> Seq<Seq<char>> {
    seq!["-layout"@, "-f"@, decimal(page), "-l"@, decimal(page), file, "-"@]
}

/// What an error says where the extractor failed with `stderr`.
pub open spec fn failure_message(stderr: Seq<char>) -> Seq<char> {
    FAILURE_HEAD@ + stderr
}

/// What a byte string reads as where every malformed part of it is
/// replaced by the replacement character.
pub uninterp spec fn utf8_lossy(bytes: Seq<u8>) -> Seq<char>;

/// `String::from_utf8_lossy`: believed to be a function of the bytes alone.
/// Nothing else is claimed of the text.
#[verifier::external_body]
fn lossy_text(bytes: &[u8]) -> (text: String)
    ensures
        text@ == utf8_lossy(bytes@),
{
    String::from_utf8_lossy(bytes).into_owned()
}

/// Builds the extractor's arguments for one page.
pub fn extractor_arguments(page: u64, local_pdf_file: &str) -> (arguments: Vec<String>)
    ensures
        arguments.deep_view() == arguments_for(page as nat, local_pdf_file@),
{
    let mut arguments: Vec<String> = Vec::new();
    arguments.push(String::from_str("-layout"));
    arguments.push(String::from_str("-f"));
    arguments.push(decimal_text(page));
    arguments.push(String::from_str("-l"));
    arguments.push(decimal_text(page));
    arguments.push(String::from_str(local_pdf_file));
    arguments.push(String::from_str("-"));
    proof {
        assert(arguments.deep_view() =~= arguments_for(page as nat, local_pdf_file@));
    }
    arguments
}

/// Decides whether the extractor found the page. It did where it ended
/// well and printed something: the page is then what it printed. Where it
/// failed, the error carries what it wrote to standard error; where it
/// printed nothing, the error says so.
pub fn page_text(succeeded: bool, stdout: String, stderr: &str) -> (page: Result<
    String,
    PdfParsingError,
>)
    ensures
        succeeded && stdout@.len() > 0 ==> page == Ok::<String, PdfParsingError>(stdout),
        succeeded && stdout@.len() == 0 ==> page is Err && page->Err_0.0@ == NOTHING_EXTRACTED@,
        !succeeded ==> page is Err && page->Err_0.0@ == failure_message(stderr@),
{
    if !succeeded {
        let mut message: String = String::from_str(FAILURE_HEAD);
        message.append(stderr);
        Err(PdfParsingError(message))
    } else if stdout.as_str().is_empty() {
        Err(PdfParsingError(String::from_str(NOTHING_EXTRACTED)))
    } else {
        Ok(stdout)
    }
}

/// Decides the same from the extractor's raw output, read leniently: bytes
/// that are no text do not fail the page.
pub fn convert_output(succeeded: bool, stdout: &[u8], stderr: &[u8]) -> (page: Result<
    String,
    PdfParsingError,
>)
    ensures
        succeeded && utf8_lossy(stdout@).len() > 0 ==> page is Ok && page->Ok_0@ == utf8_lossy(
            stdout@,
        ),
        succeeded && utf8_lossy(stdout@).len() == 0 ==> page is Err && page->Err_0.0@
            == NOTHING_EXTRACTED@,
        !succeeded ==> page is Err && page->Err_0.0@ == failure_message(utf8_lossy(stderr@)),
{
    if succeeded {
        page_text(true, lossy_text(stdout), "")
    } else {
        let words: String = lossy_text(stderr);
        page_text(false, String::new(), words.as_str())
    }
}

} // verus!
