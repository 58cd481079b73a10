//! Algorithm selection and result-extraction metadata.

use vstd::prelude::*;
use vstd::string::*;
use crate::text::str_chars;

verus! {

/// The built-in graph algorithms.
#[derive(Debug, Clone, Copy, PartialEq, Eq, Structural, Default)]
pub enum Algorithm {
    #[default]
    Pagerank,
    ConnectedComponents,
    /// Single-source shortest path (unweighted). Source vertex = 0.
    ShortestPath,
}

/// Per-worker query: what to extract from a partition.
#[derive(Debug, Clone, PartialEq, Eq)]
pub enum ResultQuery {
    AllVertexValues,
    VertexSubset(Vec<u64>),
}

/// Coordinator post-function: how to combine worker outputs.
#[derive(Debug, Clone, Copy, PartialEq, Eq, Structural)]
pub enum PostFunction {
    ConcatAndSort,
    Concat,
    SingleValue,
}

/// Metadata for result extraction per algorithm.
#[derive(Debug, Clone)]
pub struct AlgoMetadata {
    pub query: ResultQuery,
    pub post: PostFunction,
}

impl AlgoMetadata {
    /// The post-function of each algorithm: PageRank concatenates worker
    /// results, the others concatenate and sort by vertex id.
    pub open spec fn spec_post(algo: Algorithm) -> PostFunction {
        match algo {
            Algorithm::Pagerank => PostFunction::Concat,
            _ => PostFunction::ConcatAndSort,
        }
    }

    pub fn for_algo(algo: Algorithm) -> (r: Self)
        ensures
            r.query is AllVertexValues,
            r.post == Self::spec_post(algo),
    {
        match algo {
            Algorithm::Pagerank => AlgoMetadata {
                query: ResultQuery::AllVertexValues,
                post: PostFunction::Concat,
            },
            Algorithm::ConnectedComponents => AlgoMetadata {
                query: ResultQuery::AllVertexValues,
                post: PostFunction::ConcatAndSort,
            },
            Algorithm::ShortestPath => AlgoMetadata {
                query: ResultQuery::AllVertexValues,
                post: PostFunction::ConcatAndSort,
            },
        }
    }
}

/// The only characters whose lowercase form is an ASCII letter are the
/// ASCII letters themselves and KELVIN SIGN (U+212A), which lowercases to
/// `k`; every other character lowercases to itself or to non-ASCII text.
pub open spec fn fold_char(c: char) -> char {
    if 'A' <= c <= 'Z' {
        ((c as int) + 32) as char
    } else if c == '\u{212A}' {
        'k'
    } else {
        c
    }
}

/// Whether `s` lowercases to the ASCII word `name`.
pub open spec fn folds_to(s: Seq<char>, name: Seq<char>) -> bool {
    &&& s.len() == name.len()
    &&& forall|i: int| 0 <= i < s.len() ==> #[trigger] fold_char(s[i]) == name[i]
}

impl Algorithm {
    /// The algorithm that a name selects, case-insensitively.
    pub open spec fn spec_parse(s: Seq<char>) -> Option<Algorithm> {
        if folds_to(s, "pagerank"@) || folds_to(s, "pr"@) {
            Some(Algorithm::Pagerank)
        } else if folds_to(s, "connected_components"@) || folds_to(s, "cc"@) {
            Some(Algorithm::ConnectedComponents)
        } else if folds_to(s, "shortest_path"@) || folds_to(s, "sssp"@) || folds_to(s, "sp"@) {
            Some(Algorithm::ShortestPath)
        } else {
            None
        }
    }

    /// Parse an algorithm name: pagerank/pr, connected_components/cc,
    /// shortest_path/sssp/sp, in any letter case.
    pub fn parse(s: &str) -> (r: Result<Algorithm, String>)
        ensures
            match r {
                Ok(a) => Self::spec_parse(s@) == Some(a),
                Err(e) => Self::spec_parse(s@) is None && e@ == "Unknown algorithm: "@ + s@,
            },
    {
        let chars = str_chars(s);
        if folds_to_exec(&chars, "pagerank") || folds_to_exec(&chars, "pr") {
            Ok(Algorithm::Pagerank)
        } else if folds_to_exec(&chars, "connected_components") || folds_to_exec(&chars, "cc") {
            Ok(Algorithm::ConnectedComponents)
        } else if folds_to_exec(&chars, "shortest_path") || folds_to_exec(&chars, "sssp")
            || folds_to_exec(&chars, "sp") {
            Ok(Algorithm::ShortestPath)
        } else {
            Err(String::from_str("Unknown algorithm: ").concat(s))
        }
    }
}

impl std::str::FromStr for Algorithm {
    type Err = String;

    /// Same as [`Algorithm::parse`].
    fn from_str(s: &str) -> (r: Result<Algorithm, String>)
        ensures
            match r {
                Ok(a) => Self::spec_parse(s@) == Some(a),
                Err(e) => Self::spec_parse(s@) is None && e@ == "Unknown algorithm: "@ + s@,
            },
    {
        Algorithm::parse(s)
    }
}

fn fold_char_exec(c: char) -> (r: char)
    ensures
        r == fold_char(c),
{
    if 'A' <= c && c <= 'Z' {
        ((c as u32) + 32) as u8 as char
    } else if c == '\u{212A}' {
        'k'
    } else {
        c
    }
}

fn folds_to_exec(s: &Vec<char>, name: &str) -> (r: bool)
    ensures
        r == folds_to(s@, name@),
{
    let name_chars = str_chars(name);
    if s.len() != name_chars.len() {
        return false;
    }
    let n = s.len();
    for i in 0..n
        invariant
            n == s@.len(),
            n == name_chars@.len(),
            name_chars@ == name@,
            forall|j: int| 0 <= j < i ==> #[trigger] fold_char(s@[j]) == name_chars@[j],
    {
        if fold_char_exec(s[i]) != name_chars[i] {
            assert(fold_char(s@[i as int]) != name@[i as int]);
            return false;
        }
    }
    true
}

} // verus!
