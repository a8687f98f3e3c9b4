//! How deep a Turtle document nests its annotations (`{|` ... `|}`).
//!
//! The parser recurses once for every annotation that is opened inside
//! another and keeps no count of these levels, so the library measures the
//! nesting before it hands a document over. The measure reads the text as
//! the parser reads it, as far as that matters here: `{|` and `|}` count
//! only where the parser looks for tokens, not inside a comment, an IRI or
//! a string.

use crate::text::to_chars;
use vstd::prelude::*;

verus! {

/// The deepest nesting of annotations that is handed to the parser.
pub const ANNOTATION_LIMIT: usize = 128;

/// What a position of the text belongs to.
#[derive(Clone, Copy, Debug)]
pub enum Region {
    /// Between tokens or inside one that is none of the others.
    Code,
    /// A comment: from `#` to the end of the line.
    Comment,
    /// An IRI: from `<` to the next `>`.
    Iri,
    /// A string between single `quote`s (`"` or `'`): to the next `quote`
    /// that no backslash stands before.
    Short { quote: char },
    /// A string between tripled `quote`s: to the next three `quote`s in a
    /// row that no backslash stands before.
    Long { quote: char },
}

/// A point of the scan: the position reached, the region it lies in and
/// the number of annotations open there.
pub struct Scan {
    pub at: int,
    pub region: Region,
    pub depth: nat,
}

/// `c` stands in `text` at position `at`.
pub open spec fn is_at(text: Seq<char>, at: int, c: char) -> bool {
    0 <= at < text.len() && text[at] == c
}

/// The position two characters on, or the end of the text where that is
/// nearer.
pub open spec fn past_escape(text: Seq<char>, at: int) -> int {
    if at + 2 <= text.len() {
        at + 2
    } else {
        text.len() as int
    }
}

/// One step of the scan from a position inside the text.
///
/// Outside comments, IRIs and strings: `#` begins a comment; a quote
/// begins a string, a long one where it stands three times in a row; `<<`
/// is passed over and any other `<` begins an IRI; a backslash takes the
/// next character with it; `{|` opens an annotation and `|}` closes one.
/// A comment ends with the line, an IRI with `>`, a string with its
/// quote; inside a string a backslash takes the next character with it.
pub open spec fn step(text: Seq<char>, scan: Scan) -> Scan {
    let at = scan.at;
    let c = text[at];
    let depth = scan.depth;
    match scan.region {
        Region::Code => {
            if c == '#' {
                Scan { at: at + 1, region: Region::Comment, depth }
            } else if c == '"' || c == '\'' {
                if is_at(text, at + 1, c) && is_at(text, at + 2, c) {
                    Scan { at: at + 3, region: Region::Long { quote: c }, depth }
                } else {
                    Scan { at: at + 1, region: Region::Short { quote: c }, depth }
                }
            } else if c == '<' {
                if is_at(text, at + 1, '<') {
                    Scan { at: at + 2, region: Region::Code, depth }
                } else {
                    Scan { at: at + 1, region: Region::Iri, depth }
                }
            } else if c == '\\' {
                Scan { at: past_escape(text, at), region: Region::Code, depth }
            } else if c == '{' && is_at(text, at + 1, '|') {
                Scan { at: at + 2, region: Region::Code, depth: depth + 1 }
            } else if c == '|' && is_at(text, at + 1, '}') {
                Scan {
                    at: at + 2,
                    region: Region::Code,
                    depth: if depth > 0 {
                        (depth - 1) as nat
                    } else {
                        0
                    },
                }
            } else {
                Scan { at: at + 1, region: Region::Code, depth }
            }
        },
        Region::Comment => {
            if c == '\n' || c == '\r' {
                Scan { at: at + 1, region: Region::Code, depth }
            } else {
                Scan { at: at + 1, region: Region::Comment, depth }
            }
        },
        Region::Iri => {
            if c == '>' {
                Scan { at: at + 1, region: Region::Code, depth }
            } else {
                Scan { at: at + 1, region: Region::Iri, depth }
            }
        },
        Region::Short { quote } => {
            if c == quote {
                Scan { at: at + 1, region: Region::Code, depth }
            } else if c == '\\' {
                Scan { at: past_escape(text, at), region: Region::Short { quote }, depth }
            } else {
                Scan { at: at + 1, region: Region::Short { quote }, depth }
            }
        },
        Region::Long { quote } => {
            if c == quote && is_at(text, at + 1, quote) && is_at(text, at + 2, quote) {
                Scan { at: at + 3, region: Region::Code, depth }
            } else if c == '\\' {
                Scan { at: past_escape(text, at), region: Region::Long { quote }, depth }
            } else {
                Scan { at: at + 1, region: Region::Long { quote }, depth }
            }
        },
    }
}

/// The greatest number of annotations open at `scan` or at any later point
/// of the scan.
pub open spec fn deepest(text: Seq<char>, scan: Scan) -> nat
    decreases text.len() - scan.at,
{
    if scan.at < 0 || scan.at >= text.len() {
        scan.depth
    } else {
        let next = step(text, scan);
        if next.at <= scan.at {
            scan.depth
        } else if deepest(text, next) > scan.depth {
            deepest(text, next)
        } else {
            scan.depth
        }
    }
}

/// How deep `text` nests its annotations: the greatest number of
/// annotations open at once, scanning from the start.
pub open spec fn annotation_depth(text: Seq<char>) -> nat {
    deepest(text, Scan { at: 0, region: Region::Code, depth: 0 })
}

/// From a point on, the scan goes at least as deep as it is there.
pub proof fn lemma_deepest_at_least_depth(text: Seq<char>, scan: Scan)
    ensures
        deepest(text, scan) >= scan.depth,
{
}

/// Whether `text` nests its annotations at most `ANNOTATION_LIMIT` deep.
pub fn within_annotation_limit(text: &str) -> (within: bool)
    ensures
        within == (annotation_depth(text@) <= ANNOTATION_LIMIT),
{
    let chars = to_chars(text);
    let n = chars.len();
    let mut at: usize = 0;
    let mut region = Region::Code;
    let mut depth: usize = 0;
    let mut best: usize = 0;
    while at < n
        invariant
            chars@ == text@,
            n == chars.len(),
            at <= n,
            depth <= best <= at,
            annotation_depth(text@) == if deepest(
                text@,
                Scan { at: at as int, region, depth: depth as nat },
            ) > best {
                deepest(text@, Scan { at: at as int, region, depth: depth as nat })
            } else {
                best as nat
            },
        decreases n - at,
    {
        let ghost here = Scan { at: at as int, region, depth: depth as nat };
        let c = chars[at];
        let two_left = n - at >= 2;
        let three_left = n - at >= 3;
        match region {
            Region::Code => {
                if c == '#' {
                    region = Region::Comment;
                    at += 1;
                } else if c == '"' || c == '\'' {
                    if three_left && chars[at + 1] == c && chars[at + 2] == c {
                        region = Region::Long { quote: c };
                        at += 3;
                    } else {
                        region = Region::Short { quote: c };
                        at += 1;
                    }
                } else if c == '<' {
                    if two_left && chars[at + 1] == '<' {
                        at += 2;
                    } else {
                        region = Region::Iri;
                        at += 1;
                    }
                } else if c == '\\' {
                    at = if two_left {
                        at + 2
                    } else {
                        n
                    };
                } else if c == '{' && two_left && chars[at + 1] == '|' {
                    depth += 1;
                    at += 2;
                } else if c == '|' && two_left && chars[at + 1] == '}' {
                    if depth > 0 {
                        depth -= 1;
                    }
                    at += 2;
                } else {
                    at += 1;
                }
            },
            Region::Comment => {
                if c == '\n' || c == '\r' {
                    region = Region::Code;
                }
                at += 1;
            },
            Region::Iri => {
                if c == '>' {
                    region = Region::Code;
                }
                at += 1;
            },
            Region::Short { quote } => {
                if c == quote {
                    region = Region::Code;
                    at += 1;
                } else if c == '\\' {
                    at = if two_left {
                        at + 2
                    } else {
                        n
                    };
                } else {
                    at += 1;
                }
            },
            Region::Long { quote } => {
                if c == quote && three_left && chars[at + 1] == quote && chars[at + 2] == quote {
                    region = Region::Code;
                    at += 3;
                } else if c == '\\' {
                    at = if two_left {
                        at + 2
                    } else {
                        n
                    };
                } else {
                    at += 1;
                }
            },
        }
        proof {
            let next = Scan { at: at as int, region, depth: depth as nat };
            assert(next == step(text@, here));
            lemma_deepest_at_least_depth(text@, next);
        }
        if depth > best {
            best = depth;
        }
    }
    best <= ANNOTATION_LIMIT
}

} // verus!
