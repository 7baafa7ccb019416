//! Helpers of the command line: what a target names, and how a duration is
//! shown.

use vstd::prelude::*;
use vstd::string::StringExecFns;
use crate::text::{
    contains, decimal, decimal_value, digits_end, ends_with, find, first_match, is_digit,
    lemma_first_match_from, matches_at, parse_digits, push_decimal, scan_digits, starts_with,
    string_of, string_of_range, to_chars,
};

verus! {

/// What a target on the command line names.
#[derive(Debug)]
pub enum TargetSpec {
    /// A source file, or a directory.
    File(String),
    /// A line of a source file.
    FileLine { file: String, line: usize },
    /// A function.
    Function(String),
    /// A tag.
    Tag(String),
}

/// The mathematical content of a [`TargetSpec`].
pub ghost enum TargetSpecView {
    File(Seq<char>),
    FileLine { file: Seq<char>, line: usize },
    Function(Seq<char>),
    Tag(Seq<char>),
}

impl View for TargetSpec {
    type V = TargetSpecView;

    open spec fn view(&self) -> TargetSpecView {
        match self {
            TargetSpec::File(f) => TargetSpecView::File(f@),
            TargetSpec::FileLine { file, line } => TargetSpecView::FileLine {
                file: file@,
                line: *line,
            },
            TargetSpec::Function(f) => TargetSpecView::Function(f@),
            TargetSpec::Tag(t) => TargetSpecView::Tag(t@),
        }
    }
}

/// The digits of a number written with an optional plus sign before it.
pub open spec fn unsigned_digits(s: Seq<char>) -> Seq<char> {
    if s.len() > 0 && s[0] == '+' {
        s.skip(1)
    } else {
        s
    }
}

/// The line number that a text stands for: digits, with an optional plus
/// sign before them, whose value fits the machine's word.
pub open spec fn line_number(s: Seq<char>) -> Option<usize> {
    let digits = unsigned_digits(s);
    if digits.len() == 0 || digits_end(digits, 0) != digits.len() || decimal_value(digits)
        > usize::MAX {
        None
    } else {
        Some(decimal_value(digits) as usize)
    }
}

/// What a target that names no line of a file stands for: a tag where it
/// begins with `@`, a file where it holds `/` or ends in `.rs`, else a
/// function.
pub open spec fn plain_target(target: Seq<char>) -> TargetSpecView {
    if starts_with(target, "@"@) {
        TargetSpecView::Tag(target.skip("@"@.len() as int))
    } else if contains(target, "/"@) || ends_with(target, ".rs"@) {
        TargetSpecView::File(target)
    } else {
        TargetSpecView::Function(target)
    }
}

/// What a target stands for: a line of a file where a line number follows
/// its first colon; else see [`plain_target`].
pub open spec fn target_spec(target: Seq<char>) -> TargetSpecView {
    match first_match(target, ":"@) {
        Some(colon) => match line_number(target.skip(colon + ":"@.len())) {
            Some(line) => TargetSpecView::FileLine { file: target.subrange(0, colon), line },
            None => plain_target(target),
        },
        None => plain_target(target),
    }
}

/// The line number that the characters of `s` from `from` on stand for.
fn parse_line_number(s: &Vec<char>, from: usize) -> (r: Option<usize>)
    requires
        from <= s.len(),
    ensures
        r == line_number(s@.skip(from as int)),
{
    let ghost rest = s@.skip(from as int);
    let start: usize = if from < s.len() && s[from] == '+' {
        from + 1
    } else {
        from
    };
    let ghost digits = unsigned_digits(rest);
    assert(digits =~= s@.skip(start as int)) by {
        if from < s.len() {
            assert(rest[0] == s@[from as int]);
        }
        if start > from {
            assert(rest.skip(1) =~= s@.skip(start as int));
        }
    }
    let end = scan_digits(s, start);
    proof {
        lemma_digits_end_skip(s@, start as int, start as int);
        assert(s@.subrange(start as int, s.len() as int) =~= digits);
    }
    if start == s.len() || end != s.len() {
        return None;
    }
    match parse_digits(s, start, s.len()) {
        Some(n) => if n <= usize::MAX as u64 {
            Some(n as usize)
        } else {
            None
        },
        None => None,
    }
}

/// The number that `text` stands for: digits, with an optional plus sign
/// before them, whose value fits the machine's word.
pub fn parse_target_line(text: &str) -> (r: Option<usize>)
    ensures
        r == line_number(text@),
{
    let chars = to_chars(text);
    let r = parse_line_number(&chars, 0);
    assert(chars@.skip(0) =~= chars@);
    r
}

/// Scanning for the end of the digits gives the same in a text and in what
/// is left of it when its start is cut off.
pub proof fn lemma_digits_end_skip(s: Seq<char>, cut: int, from: int)
    requires
        0 <= cut <= from <= s.len(),
    ensures
        digits_end(s.skip(cut), from - cut) == digits_end(s, from) - cut,
    decreases s.len() - from,
{
    if from < s.len() {
        assert(s.skip(cut)[from - cut] == s[from]);
        if is_digit(s[from]) {
            lemma_digits_end_skip(s, cut, from + 1);
        }
    }
}

/// What the target `target` names.
pub fn parse_target(target: &str) -> (r: TargetSpec)
    ensures
        r@ == target_spec(target@),
{
    let chars = to_chars(target);
    let colon = to_chars(":");
    let at = to_chars("@");
    let slash = to_chars("/");
    let rs = to_chars(".rs");
    proof {
        lemma_first_match_from(chars@, colon@, 0);
    }
    match find(&chars, &colon) {
        Some(c) => {
            assert(c + colon.len() <= chars.len());
            match parse_line_number(&chars, c + colon.len()) {
                Some(line) => {
                    return TargetSpec::FileLine { file: string_of_range(&chars, 0, c), line };
                },
                None => {},
            }
        },
        None => {},
    }
    if matches_at(&chars, &at, 0) {
        let tag = string_of_range(&chars, at.len(), chars.len());
        assert(chars@.subrange(at.len() as int, chars.len() as int) =~= chars@.skip(
            at.len() as int,
        ));
        TargetSpec::Tag(tag)
    } else if crate::text::has_match(&chars, &slash) || (rs.len() <= chars.len() && matches_at(
        &chars,
        &rs,
        chars.len() - rs.len(),
    )) {
        TargetSpec::File(string_of(&chars))
    } else {
        TargetSpec::Function(string_of(&chars))
    }
}

/// How a duration of `millis` milliseconds is shown: hours, minutes and
/// seconds where it is an hour or more; minutes and seconds where it is a
/// minute or more; seconds and tenths where it is a second or more; else
/// milliseconds.
pub open spec fn duration_text(millis: u64) -> Seq<char> {
    let total_seconds = millis as nat / 1000;
    let hours = total_seconds / 3600;
    let minutes = (total_seconds % 3600) / 60;
    let seconds = total_seconds % 60;
    let rest = millis as nat % 1000;
    if hours > 0 {
        decimal(hours) + "h "@ + decimal(minutes) + "m "@ + decimal(seconds) + "s"@
    } else if minutes > 0 {
        decimal(minutes) + "m "@ + decimal(seconds) + "s"@
    } else if seconds > 0 {
        decimal(seconds) + "."@ + decimal(rest / 100) + "s"@
    } else {
        decimal(rest) + "ms"@
    }
}

/// How a duration of `millis` milliseconds is shown.
pub fn format_duration(millis: u64) -> (r: String)
    ensures
        r@ == duration_text(millis),
{
    let total_seconds: u64 = millis / 1000;
    let hours: u64 = total_seconds / 3600;
    let minutes: u64 = (total_seconds % 3600) / 60;
    let seconds: u64 = total_seconds % 60;
    let rest: u64 = millis % 1000;
    let mut s = String::new();
    if hours > 0 {
        push_decimal(&mut s, hours);
        s.append("h ");
        push_decimal(&mut s, minutes);
        s.append("m ");
        push_decimal(&mut s, seconds);
        s.append("s");
    } else if minutes > 0 {
        push_decimal(&mut s, minutes);
        s.append("m ");
        push_decimal(&mut s, seconds);
        s.append("s");
    } else if seconds > 0 {
        push_decimal(&mut s, seconds);
        s.append(".");
        push_decimal(&mut s, rest / 100);
        s.append("s");
    } else {
        push_decimal(&mut s, rest);
        s.append("ms");
    }
    assert(s@ =~= duration_text(millis));
    s
}

/// The format that the command line can ask a report in.
#[derive(Debug, Clone, Copy, PartialEq, Eq, Structural)]
pub enum OutputFormat {
    Text,
    Json,
    Csv,
    Html,
    Junit,
    Tap,
}

impl OutputFormat {
    /// The word for this format.
    pub open spec fn label(&self) -> Seq<char> {
        match self {
            OutputFormat::Text => "text"@,
            OutputFormat::Json => "json"@,
            OutputFormat::Csv => "csv"@,
            OutputFormat::Html => "html"@,
            OutputFormat::Junit => "junit"@,
            OutputFormat::Tap => "tap"@,
        }
    }

    /// The format that the word `name` stands for.
    pub open spec fn named(name: Seq<char>) -> Option<OutputFormat> {
        if name == "text"@ {
            Some(OutputFormat::Text)
        } else if name == "json"@ {
            Some(OutputFormat::Json)
        } else if name == "csv"@ {
            Some(OutputFormat::Csv)
        } else if name == "html"@ {
            Some(OutputFormat::Html)
        } else if name == "junit"@ {
            Some(OutputFormat::Junit)
        } else if name == "tap"@ {
            Some(OutputFormat::Tap)
        } else {
            None
        }
    }

    /// The word for this format.
    pub fn to_string(&self) -> (s: String)
        ensures
            s@ == self.label(),
    {
        match self {
            OutputFormat::Text => String::from_str("text"),
            OutputFormat::Json => String::from_str("json"),
            OutputFormat::Csv => String::from_str("csv"),
            OutputFormat::Html => String::from_str("html"),
            OutputFormat::Junit => String::from_str("junit"),
            OutputFormat::Tap => String::from_str("tap"),
        }
    }

    /// The format that the word `name` stands for.
    pub fn from_name(name: &str) -> (r: Option<OutputFormat>)
        ensures
            r == Self::named(name@),
    {
        if crate::text::str_eq(name, "text") {
            Some(OutputFormat::Text)
        } else if crate::text::str_eq(name, "json") {
            Some(OutputFormat::Json)
        } else if crate::text::str_eq(name, "csv") {
            Some(OutputFormat::Csv)
        } else if crate::text::str_eq(name, "html") {
            Some(OutputFormat::Html)
        } else if crate::text::str_eq(name, "junit") {
            Some(OutputFormat::Junit)
        } else if crate::text::str_eq(name, "tap") {
            Some(OutputFormat::Tap)
        } else {
            None
        }
    }
}

/// The helpers, under one name.
#[derive(Debug, Clone, Copy)]
pub struct Utils;

impl Utils {
    /// What the target `target` names; see [`target_spec`].
    pub fn parse_target(target: &str) -> (r: TargetSpec)
        ensures
            r@ == target_spec(target@),
    {
        parse_target(target)
    }

    /// How a duration of `millis` milliseconds is shown; see
    /// [`duration_text`].
    pub fn format_duration(millis: u64) -> (r: String)
        ensures
            r@ == duration_text(millis),
    {
        format_duration(millis)
    }
}

} // verus!
