//! The formats in which the statistics table is written.

use vstd::prelude::*;
use crate::error::ToolError;
use crate::files::{lowered, matches_ignoring_case};

verus! {

/// A table format.
#[derive(Clone, Copy, Debug, PartialEq, Eq, Structural)]
pub enum OutputFormat {
    Parquet,
    Csv,
}

/// White space as Unicode defines it.
pub open spec fn is_space(c: char) -> bool {
    ||| ('\u{9}' <= c && c <= '\u{d}')
    ||| c == ' '
    ||| c == '\u{85}'
    ||| c == '\u{a0}'
    ||| c == '\u{1680}'
    ||| ('\u{2000}' <= c && c <= '\u{200a}')
    ||| c == '\u{2028}'
    ||| c == '\u{2029}'
    ||| c == '\u{202f}'
    ||| c == '\u{205f}'
    ||| c == '\u{3000}'
}

/// `from .. to` is what is left of `s` when the white space at both ends is
/// taken away. A text of white space alone leaves the empty range at its end.
pub open spec fn is_trim_of(s: Seq<char>, from: int, to: int) -> bool {
    &&& 0 <= from <= to <= s.len()
    &&& forall|i: int| 0 <= i < from ==> is_space(#[trigger] s[i])
    &&& forall|i: int| to <= i < s.len() ==> is_space(#[trigger] s[i])
    &&& from < to ==> !is_space(s[from]) && !is_space(s[to - 1])
    &&& from == to ==> from == s.len()
}

/// The format that a word in small letters names.
pub open spec fn format_named(word: Seq<char>) -> Result<OutputFormat, ToolError> {
    if word == "parquet"@ {
        Ok(OutputFormat::Parquet)
    } else if word == "csv"@ {
        Ok(OutputFormat::Csv)
    } else {
        Err(ToolError::UnsupportedFormat)
    }
}

/// The name of a format.
pub open spec fn format_name(f: OutputFormat) -> Seq<char> {
    match f {
        OutputFormat::Parquet => "parquet"@,
        OutputFormat::Csv => "csv"@,
    }
}

/// A text has one trimmed range only.
pub proof fn trim_is_unique(s: Seq<char>, a: int, b: int, c: int, d: int)
    requires
        is_trim_of(s, a, b),
        is_trim_of(s, c, d),
    ensures
        a == c,
        b == d,
{
    if a < c {
        assert(is_space(s[a]));
    }
    if c < a {
        assert(is_space(s[c]));
    }
    if b < d {
        assert(is_space(s[d - 1]));
    }
    if d < b {
        assert(is_space(s[b - 1]));
    }
}

pub fn is_whitespace(c: char) -> (r: bool)
    ensures
        r == is_space(c),
{
    ('\u{9}' <= c && c <= '\u{d}') || c == ' ' || c == '\u{85}' || c == '\u{a0}' || c
        == '\u{1680}' || ('\u{2000}' <= c && c <= '\u{200a}') || c == '\u{2028}' || c
        == '\u{2029}' || c == '\u{202f}' || c == '\u{205f}' || c == '\u{3000}'
}

/// The bounds of a text without the white space at its ends.
pub fn trim_bounds(text: &str) -> (bounds: (usize, usize))
    ensures
        is_trim_of(text@, bounds.0 as int, bounds.1 as int),
{
    let n: usize = text.unicode_len();
    let mut from: usize = 0;
    while from < n && is_whitespace(text.get_char(from))
        invariant
            from <= n,
            n == text@.len(),
            forall|i: int| 0 <= i < from ==> is_space(#[trigger] text@[i]),
        decreases n - from,
    {
        from = from + 1;
    }
    if from == n {
        return (n, n);
    }
    let mut to: usize = n;
    while to > from + 1 && is_whitespace(text.get_char(to - 1))
        invariant
            from < to <= n,
            n == text@.len(),
            !is_space(text@[from as int]),
            forall|i: int| to <= i < n ==> is_space(#[trigger] text@[i]),
        decreases to,
    {
        to = to - 1;
    }
    (from, to)
}

impl OutputFormat {
    /// Reads a format from its name, whatever the case of its letters and
    /// the white space around it.
    pub fn from_str(text: &str) -> (r: Result<OutputFormat, ToolError>)
        ensures
            exists|from: int, to: int|
                is_trim_of(text@, from, to) && r == format_named(
                    lowered(text@.subrange(from, to)),
                ),
            r.is_err() ==> r == Err::<OutputFormat, ToolError>(ToolError::UnsupportedFormat),
    {
        let (from, to) = trim_bounds(text);
        let word = text.substring_char(from, to);
        let r = if matches_ignoring_case(word, "parquet") {
            Ok(OutputFormat::Parquet)
        } else if matches_ignoring_case(word, "csv") {
            Ok(OutputFormat::Csv)
        } else {
            Err(ToolError::UnsupportedFormat)
        };
        proof {
            reveal_strlit("parquet");
            reveal_strlit("csv");
            assert(r == format_named(lowered(text@.subrange(from as int, to as int))));
        }
        r
    }

    /// The name under which a format is asked for.
    pub fn name(&self) -> (s: &'static str)
        ensures
            s@ == format_name(*self),
    {
        match self {
            OutputFormat::Parquet => "parquet",
            OutputFormat::Csv => "csv",
        }
    }

    /// The name as an owned text.
    pub fn to_string(&self) -> (s: String)
        ensures
            s@ == format_name(*self),
    {
        self.name().to_owned()
    }
}

/// A format's own name reads back as that format.
pub proof fn name_reads_back(f: OutputFormat)
    ensures
        is_trim_of(format_name(f), 0, format_name(f).len() as int),
        format_named(lowered(format_name(f))) == Ok::<OutputFormat, ToolError>(f),
{
    reveal_strlit("parquet");
    reveal_strlit("csv");
    let s = format_name(f);
    assert(lowered(s) =~= s);
    assert("parquet"@ != "csv"@) by {
        assert("parquet"@.len() == 7);
        assert("csv"@.len() == 3);
    }
}

} // verus!
