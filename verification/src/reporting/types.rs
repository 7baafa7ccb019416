//! What a report is made of.

use vstd::prelude::*;
use vstd::string::StringExecFns;
use crate::runners::RunResult;
use crate::text::{clone_opt_string, opt_text};

verus! {

/// The format of a report.
#[derive(Debug, PartialEq, Eq)]
pub enum ReportFormat {
    Text,
    Json,
    Csv,
    Html,
    JUnit,
    Tap,
    /// Several reports, of these formats.
    Composite(Vec<ReportFormat>),
}

/// The words for the first `n` of `formats`, with a comma and a blank
/// between two.
pub open spec fn labels(formats: Seq<ReportFormat>, n: int) -> Seq<char>
    decreases formats, n,
{
    if n <= 0 || n > formats.len() {
        Seq::empty()
    } else if n == 1 {
        formats[0].label()
    } else {
        labels(formats, n - 1) + ", "@ + formats[n - 1].label()
    }
}

/// The words for the first `n` of `formats`, with a comma and a blank
/// between two.
pub fn write_labels(formats: &Vec<ReportFormat>, n: usize) -> (r: String)
    requires
        n <= formats.len(),
    ensures
        r@ == labels(formats@, n as int),
    decreases formats, n,
{
    if n == 0 {
        String::new()
    } else if n == 1 {
        formats[0].to_string()
    } else {
        let mut out = write_labels(formats, n - 1);
        out.append(", ");
        let word = formats[n - 1].to_string();
        out.append(word.as_str());
        out
    }
}

impl ReportFormat {
    /// The word for this format; for several formats, their words in
    /// brackets.
    pub open spec fn label(self) -> Seq<char>
        decreases self,
    {
        match self {
            ReportFormat::Text => "text"@,
            ReportFormat::Json => "json"@,
            ReportFormat::Csv => "csv"@,
            ReportFormat::Html => "html"@,
            ReportFormat::JUnit => "junit"@,
            ReportFormat::Tap => "tap"@,
            ReportFormat::Composite(formats) => "composite("@ + labels(
                formats@,
                formats@.len() as int,
            ) + ")"@,
        }
    }

    /// The word for this format.
    pub fn to_string(&self) -> (s: String)
        ensures
            s@ == self.label(),
        decreases self,
    {
        match self {
            ReportFormat::Text => String::from_str("text"),
            ReportFormat::Json => String::from_str("json"),
            ReportFormat::Csv => String::from_str("csv"),
            ReportFormat::Html => String::from_str("html"),
            ReportFormat::JUnit => String::from_str("junit"),
            ReportFormat::Tap => String::from_str("tap"),
            ReportFormat::Composite(formats) => {
                let mut out = String::from_str("composite(");
                let words = write_labels(formats, formats.len());
                out.append(words.as_str());
                out.append(")");
                out
            },
        }
    }
}

/// What a report says of itself.
#[derive(Debug)]
pub struct ReportMetadata {
    pub title: String,
    pub description: Option<String>,
    pub version: String,
    pub generator: String,
}

/// The mathematical content of a [`ReportMetadata`].
pub ghost struct ReportMetadataView {
    pub title: Seq<char>,
    pub description: Option<Seq<char>>,
    pub version: Seq<char>,
    pub generator: Seq<char>,
}

impl ReportMetadataView {
    /// The metadata of a report that was given none.
    pub open spec fn standard() -> ReportMetadataView {
        ReportMetadataView {
            title: "Test Report"@,
            description: None,
            version: "1.0"@,
            generator: "Sheila Testing Framework"@,
        }
    }
}

impl View for ReportMetadata {
    type V = ReportMetadataView;

    open spec fn view(&self) -> ReportMetadataView {
        ReportMetadataView {
            title: self.title@,
            description: opt_text(self.description),
            version: self.version@,
            generator: self.generator@,
        }
    }
}

impl Default for ReportMetadata {
    fn default() -> (r: Self)
        ensures
            r@ == ReportMetadataView::standard(),
    {
        ReportMetadata {
            title: String::from_str("Test Report"),
            description: None,
            version: String::from_str("1.0"),
            generator: String::from_str("Sheila Testing Framework"),
        }
    }
}

impl Clone for ReportMetadata {
    fn clone(&self) -> (r: Self)
        ensures
            r@ == self@,
    {
        ReportMetadata {
            title: self.title.clone(),
            description: clone_opt_string(&self.description),
            version: self.version.clone(),
            generator: self.generator.clone(),
        }
    }
}

/// A report of a run.
#[derive(Debug)]
pub struct TestReport {
    pub metadata: ReportMetadata,
    pub run_result: RunResult,
    pub format: ReportFormat,
    /// The document.
    pub content: String,
    /// When the report was made, in milliseconds since the Unix epoch.
    pub created_at: i64,
}

} // verus!
