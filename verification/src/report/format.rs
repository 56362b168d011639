//! Report output format identifiers.
use vstd::prelude::*;

use crate::error::Error;
use crate::text::{chars_of, lower, push_str, str_eq, string_of, to_lower, trim, trim_chars};

verus! {

/// Supported report / export formats.
#[derive(Debug, Clone, Copy, PartialEq, Eq, Structural)]
pub enum ReportFormat {
    /// Human-oriented plain text (the default).
    Text,
    /// Pretty-printed JSON.
    Json,
    /// Markdown document.
    Markdown,
    /// Self-contained HTML document.
    Html,
    /// Mermaid flowchart source.
    Mermaid,
    /// Graphviz DOT source.
    Dot,
}

/// The format named `s` (already trimmed and lower-cased).
pub open spec fn format_named(s: Seq<char>) -> Option<ReportFormat> {
    if s == "text"@ || s == "plain"@ {
        Some(ReportFormat::Text)
    } else if s == "json"@ {
        Some(ReportFormat::Json)
    } else if s == "markdown"@ || s == "md"@ {
        Some(ReportFormat::Markdown)
    } else if s == "html"@ {
        Some(ReportFormat::Html)
    } else if s == "mermaid"@ {
        Some(ReportFormat::Mermaid)
    } else if s == "dot"@ || s == "graphviz"@ {
        Some(ReportFormat::Dot)
    } else {
        None
    }
}

/// Trimmed, ASCII lower-cased flag value.
pub open spec fn normalized(value: Seq<char>) -> Seq<char> {
    trim(value).map_values(|c: char| lower(c))
}

impl ReportFormat {
    /// The default format (`Text`).
    pub fn default_format() -> (r: ReportFormat)
        ensures
            r == ReportFormat::Text,
    {
        ReportFormat::Text
    }

    /// Parse from a flag value (`text`, `json`, `markdown`, `html`, `mermaid`,
    /// `dot`, and the aliases `plain`, `md`, `graphviz`), ignoring surrounding
    /// white space and ASCII case.
    pub fn parse(value: &str) -> (r: Result<ReportFormat, Error>)
        ensures
            match format_named(normalized(value@)) {
                Some(f) => r == Ok::<ReportFormat, Error>(f),
                None => r matches Err(Error::Serialization(m)) && m@ == "unknown report format `"@ + normalized(value@)
                    + "` (expected text|json|markdown|html|mermaid|dot)"@,
            },
    {
        let t = trim_chars(&chars_of(value));
        let mut low: Vec<char> = Vec::new();
        let mut i: usize = 0;
        while i < t.len()
            invariant
                i <= t@.len(),
                low@ == t@.take(i as int).map_values(|c: char| lower(c)),
            decreases t.len() - i,
        {
            low.push(to_lower(t[i]));
            assert(low@ =~= t@.take(i + 1).map_values(|c: char| lower(c)));
            i += 1;
        }
        assert(t@.take(t@.len() as int) =~= t@);
        let s = string_of(&low);
        let k = s.as_str();
        if str_eq(k, "text") || str_eq(k, "plain") {
            Ok(ReportFormat::Text)
        } else if str_eq(k, "json") {
            Ok(ReportFormat::Json)
        } else if str_eq(k, "markdown") || str_eq(k, "md") {
            Ok(ReportFormat::Markdown)
        } else if str_eq(k, "html") {
            Ok(ReportFormat::Html)
        } else if str_eq(k, "mermaid") {
            Ok(ReportFormat::Mermaid)
        } else if str_eq(k, "dot") || str_eq(k, "graphviz") {
            Ok(ReportFormat::Dot)
        } else {
            let mut m = String::from_str("unknown report format `");
            push_str(&mut m, k);
            push_str(&mut m, "` (expected text|json|markdown|html|mermaid|dot)");
            Err(Error::Serialization(m))
        }
    }

    /// Returns `true` when this format is a graph export.
    pub fn is_graph_export(self) -> (r: bool)
        ensures
            r == (self == ReportFormat::Mermaid || self == ReportFormat::Dot),
    {
        match self {
            ReportFormat::Mermaid | ReportFormat::Dot => true,
            _ => false,
        }
    }

    /// Flag name of the format.
    pub open spec fn label(self) -> Seq<char> {
        match self {
            ReportFormat::Text => "text"@,
            ReportFormat::Json => "json"@,
            ReportFormat::Markdown => "markdown"@,
            ReportFormat::Html => "html"@,
            ReportFormat::Mermaid => "mermaid"@,
            ReportFormat::Dot => "dot"@,
        }
    }

    /// Flag name of the format.
    pub fn as_str(self) -> (r: &'static str)
        ensures
            r@ == self.label(),
    {
        match self {
            ReportFormat::Text => {
                proof { reveal_strlit("text"); }
                "text"
            },
            ReportFormat::Json => {
                proof { reveal_strlit("json"); }
                "json"
            },
            ReportFormat::Markdown => {
                proof { reveal_strlit("markdown"); }
                "markdown"
            },
            ReportFormat::Html => {
                proof { reveal_strlit("html"); }
                "html"
            },
            ReportFormat::Mermaid => {
                proof { reveal_strlit("mermaid"); }
                "mermaid"
            },
            ReportFormat::Dot => {
                proof { reveal_strlit("dot"); }
                "dot"
            },
        }
    }
}

} // verus!
