use vstd::prelude::*;

use crate::text::same_text;

verus! {

/// How results are presented.
#[derive(Debug, Clone, Copy, PartialEq, Eq, Structural)]
pub enum OutputFormat {
    /// Decorated text for people.
    Pretty,
    /// The full record as JSON.
    Json,
    /// The full record as YAML.
    Yaml,
}

/// The lowercase form of a text, as Unicode defines it.
pub uninterp spec fn lower_of(s: Seq<char>) -> Seq<char>;

/// Relies on `str::to_lowercase`: its result depends on the characters of `s` alone.
#[verifier::external_body]
fn lowercase(s: &str) -> (r: String)
    ensures
        r@ == lower_of(s@),
{
    s.to_lowercase()
}

/// The format that a lowercase name stands for.
pub open spec fn format_named(s: Seq<char>) -> Option<OutputFormat> {
    if s == "pretty"@ || s == "default"@ {
        Some(OutputFormat::Pretty)
    } else if s == "json"@ {
        Some(OutputFormat::Json)
    } else if s == "yaml"@ || s == "yml"@ {
        Some(OutputFormat::Yaml)
    } else {
        None
    }
}

impl OutputFormat {
    /// The format named by `s`, in any letter case.
    pub fn from_str(s: &str) -> (r: Option<OutputFormat>)
        ensures
            r == format_named(lower_of(s@)),
    {
        let lower = lowercase(s);
        OutputFormat::from_lowercase(lower.as_str())
    }

    /// The format named by the already lowercase `s`.
    pub fn from_lowercase(s: &str) -> (r: Option<OutputFormat>)
        ensures
            r == format_named(s@),
    {
        if same_text(s, "pretty") || same_text(s, "default") {
            Some(OutputFormat::Pretty)
        } else if same_text(s, "json") {
            Some(OutputFormat::Json)
        } else if same_text(s, "yaml") || same_text(s, "yml") {
            Some(OutputFormat::Yaml)
        } else {
            None
        }
    }

    /// Whether the output is decorated text rather than a serialized record.
    pub fn is_decorated(&self) -> (r: bool)
        ensures
            r == (*self == OutputFormat::Pretty),
    {
        matches!(self, OutputFormat::Pretty)
    }
}

} // verus!
