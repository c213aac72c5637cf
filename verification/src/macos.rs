//! The macOS branch: extracting the platform UUID from device-tree output.
//!
//! The helper process prints the platform expert device's properties, one per
//! line.  The first line holding the marker `IOPlatformUUID` carries the
//! identifier after its last `=`, wrapped in quotes and whitespace.

use vstd::prelude::*;

use crate::decode::{decode_utf8_lossy, utf8_lossy_of};
use crate::errors::Error;
use crate::lines::{
    find_char_from, last_index_of, lemma_last_index_of_none, lemma_last_index_of_some,
    lemma_split_lines_step, lemma_split_lines_whole, rfind_char, split_lines,
};
use crate::text::{is_quote_or_space, lemma_stripped_clean, lemma_stripped_nonempty,
    quote_space_pred, trim_quotes, unquoted};

verus! {

/// The marker substring that names the platform UUID line.
pub open spec fn marker() -> Seq<char> {
    "IOPlatformUUID"@
}

/// Whether the marker stands in `line` starting at position `i`.
pub open spec fn marker_at(line: Seq<char>, i: int) -> bool {
    &&& 0 <= i
    &&& i + marker().len() <= line.len()
    &&& line.subrange(i, i + marker().len()) == marker()
}

/// Whether some position of `line` carries the marker.
pub open spec fn has_marker(line: Seq<char>) -> bool {
    exists|i: int| marker_at(line, i)
}

/// The segment of `line` after its last `=`, or the whole line where it has
/// none.
pub open spec fn value_of_line(line: Seq<char>) -> Seq<char> {
    match last_index_of(line, '=') {
        Some(i) => line.subrange(i + 1, line.len() as int),
        None => line,
    }
}

/// The identifier the lines carry: for the first line holding the marker,
/// the segment after its last `=`, stripped of quotes and whitespace.
pub open spec fn extract_from_lines(lines: Seq<Seq<char>>) -> Option<Seq<char>>
    decreases lines.len(),
{
    if lines.len() == 0 {
        None
    } else if has_marker(lines[0]) {
        Some(unquoted(value_of_line(lines[0])))
    } else {
        extract_from_lines(lines.drop_first())
    }
}

/// The identifier carried by `content`, scanned line by line.
pub open spec fn extracted_id(content: Seq<char>) -> Option<Seq<char>> {
    extract_from_lines(split_lines(content))
}

/// Whether `pat` stands in `s` starting at position `i`.
fn match_at(s: &str, pat: &str, i: usize) -> (b: bool)
    requires
        i + pat@.len() <= s@.len(),
    ensures
        b == (s@.subrange(i as int, i + pat@.len()) == pat@),
{
    let n = s.unicode_len();
    let m = pat.unicode_len();
    let mut k: usize = 0;
    while k < m
        invariant
            0 <= k <= m,
            n == s@.len(),
            m == pat@.len(),
            i + m <= n,
            forall|t: int| 0 <= t < k ==> s@[i + t] == pat@[t],
        decreases m - k,
    {
        if s.get_char(i + k) != pat.get_char(k) {
            proof {
                assert(s@.subrange(i as int, i + pat@.len())[k as int] == s@[i + k]);
            }
            return false;
        }
        k = k + 1;
    }
    proof {
        assert(s@.subrange(i as int, i + pat@.len()) =~= pat@);
    }
    true
}

/// Whether some line position of `line` carries the marker.
fn contains_marker(line: &str) -> (b: bool)
    ensures
        b == has_marker(line@),
{
    let pat = "IOPlatformUUID";
    proof {
        reveal_strlit("IOPlatformUUID");
        assert(pat@ == marker());
    }
    let n = line.unicode_len();
    let m = pat.unicode_len();
    if m > n {
        proof {
            assert(forall|i: int| marker_at(line@, i) ==> i + marker().len() <= line@.len());
        }
        return false;
    }
    let mut i: usize = 0;
    while i <= n - m
        invariant
            0 <= i <= n - m + 1,
            1 <= m <= n,
            n == line@.len(),
            m == marker().len(),
            pat@ == marker(),
            forall|k: int| 0 <= k < i ==> !marker_at(line@, k),
        decreases n - i,
    {
        if match_at(line, pat, i) {
            proof {
                assert(marker_at(line@, i as int));
            }
            return true;
        }
        i = i + 1;
    }
    proof {
        assert(forall|k: int| marker_at(line@, k) ==> 0 <= k < i);
    }
    false
}

/// The value segment of `line`: everything after its last `=`, or the whole
/// line where it has no `=`.
fn value_segment<'a>(line: &'a str) -> (r: &'a str)
    ensures
        r@ == value_of_line(line@),
{
    let n = line.unicode_len();
    match rfind_char(line, '=') {
        Some(eq) => {
            proof {
                lemma_last_index_of_some(line@, '=', eq as int);
            }
            line.substring_char(eq + 1, n)
        },
        None => {
            proof {
                lemma_last_index_of_none(line@, '=');
            }
            line
        },
    }
}

/// The machine identifier in `content`: scan the lines in order for the
/// first one holding the marker, split it on its last `=`, and strip quotes
/// and whitespace from the right-hand segment.  Where no line holds the
/// marker, the lookup fails with [`Error::PatternNotFound`].
pub fn extract_id(content: &str) -> (r: Result<String, Error>)
    ensures
        match extracted_id(content@) {
            Some(id) => match r {
                Ok(s) => s@ == id,
                Err(_) => false,
            },
            None => r == Err::<String, Error>(Error::PatternNotFound),
        },
{
    let n = content.unicode_len();
    proof {
        assert(content@.subrange(0, n as int) =~= content@);
    }
    let mut p: usize = 0;
    loop
        invariant
            0 <= p <= n,
            n == content@.len(),
            extracted_id(content@) == extract_from_lines(
                split_lines(content@.subrange(p as int, n as int)),
            ),
        decreases n - p,
    {
        let ghost suffix = content@.subrange(p as int, n as int);
        let line_end_opt = find_char_from(content, p, '\n');
        let line_end = match line_end_opt {
            Some(q) => q,
            None => n,
        };
        let line = content.substring_char(p, line_end);
        proof {
            match line_end_opt {
                Some(q) => {
                    assert(suffix[q - p] == '\n');
                    lemma_split_lines_step(suffix, q - p);
                    assert(suffix.subrange(0, q - p) =~= line@);
                    assert(suffix.subrange(q + 1 - p, suffix.len() as int) =~= content@.subrange(
                        q + 1,
                        n as int,
                    ));
                    assert(split_lines(suffix) == seq![line@] + split_lines(
                        content@.subrange(q + 1, n as int),
                    ));
                    assert((seq![line@] + split_lines(content@.subrange(q + 1, n as int)))[0]
                        == line@);
                },
                None => {
                    lemma_split_lines_whole(suffix);
                    assert(suffix =~= line@);
                    assert(split_lines(suffix) == seq![line@]);
                },
            }
            assert(split_lines(suffix)[0] == line@);
            assert(split_lines(suffix).len() > 0);
        }
        if contains_marker(line) {
            proof {
                assert(extract_from_lines(split_lines(suffix)) == Some(
                    unquoted(value_of_line(line@)),
                ));
            }
            let value = value_segment(line);
            return Ok(trim_quotes(value));
        }
        match line_end_opt {
            Some(q) => {
                proof {
                    let rest = split_lines(content@.subrange(q + 1, n as int));
                    assert((seq![line@] + rest).drop_first() =~= rest);
                    assert(extract_from_lines(split_lines(suffix)) == extract_from_lines(rest));
                }
                p = q + 1;
            },
            None => {
                proof {
                    let one = split_lines(suffix);
                    assert(one.drop_first() =~= Seq::<Seq<char>>::empty());
                    assert(extract_from_lines(Seq::<Seq<char>>::empty()) is None);
                    assert(extract_from_lines(one) == extract_from_lines(one.drop_first()));
                }
                return Err(Error::PatternNotFound);
            },
        }
    }
}

/// What the lookup yields from the helper invocation's outcome: captured
/// output is decoded and scanned for the marker line; a helper that could
/// not be run fails the lookup.
pub open spec fn resolved(output: Option<Seq<u8>>) -> Result<Seq<char>, Error> {
    match output {
        None => Err(Error::ProcessSpawnFailed),
        Some(bytes) => match extracted_id(utf8_lossy_of(bytes)) {
            Some(id) => Ok(id),
            None => Err(Error::PatternNotFound),
        },
    }
}

/// The machine identifier from captured device-tree output.
///
/// `output` holds the bytes the helper process wrote to its standard output,
/// or nothing where the process could not be run: that case fails with
/// [`Error::ProcessSpawnFailed`], and output without a marker line with
/// [`Error::PatternNotFound`].
pub fn get_machine_id(output: Option<Vec<u8>>) -> (r: Result<String, Error>)
    ensures
        match r {
            Ok(s) => resolved(output.deep_view()) == Ok::<Seq<char>, Error>(s@),
            Err(e) => resolved(output.deep_view()) == Err::<Seq<char>, Error>(e),
        },
{
    match output {
        None => Err(Error::ProcessSpawnFailed),
        Some(bytes) => {
            proof {
                assert(bytes.deep_view() =~= bytes@);
            }
            let content = decode_utf8_lossy(bytes.as_slice());
            extract_id(content.as_str())
        },
    }
}

/// Resolution is a function of the captured output alone: two lookups over
/// an unchanged system yield the same identifier.
pub proof fn lemma_resolved_deterministic(
    output: Option<Seq<u8>>,
    r1: Result<Seq<char>, Error>,
    r2: Result<Seq<char>, Error>,
)
    requires
        r1 == resolved(output),
        r2 == resolved(output),
    ensures
        r1 == r2,
{
}

proof fn lemma_extract_from_lines_clean(lines: Seq<Seq<char>>)
    ensures
        match extract_from_lines(lines) {
            Some(id) => id.len() > 0 ==> (!is_quote_or_space(id.first()) && !is_quote_or_space(
                id.last(),
            )),
            None => true,
        },
    decreases lines.len(),
{
    if lines.len() > 0 {
        if has_marker(lines[0]) {
            lemma_stripped_clean(value_of_line(lines[0]), quote_space_pred());
        } else {
            lemma_extract_from_lines_clean(lines.drop_first());
        }
    }
}

/// An identifier extracted from device-tree output never carries leading or
/// trailing quotes or whitespace.
pub proof fn lemma_extracted_clean(content: Seq<char>)
    ensures
        match extracted_id(content) {
            Some(id) => id.len() > 0 ==> (!is_quote_or_space(id.first()) && !is_quote_or_space(
                id.last(),
            )),
            None => true,
        },
{
    lemma_extract_from_lines_clean(split_lines(content));
}

/// A resolved identifier never carries leading or trailing quotes or
/// whitespace.
pub proof fn lemma_resolved_clean(output: Option<Seq<u8>>)
    ensures
        match resolved(output) {
            Ok(id) => id.len() > 0 ==> (!is_quote_or_space(id.first()) && !is_quote_or_space(
                id.last(),
            )),
            Err(_) => true,
        },
{
    if output is Some {
        lemma_extracted_clean(utf8_lossy_of(output->0));
    }
}

/// Where single-line output holds the marker, and the segment after its
/// last `=` holds a character that is neither quote nor whitespace, the
/// extraction succeeds with a non-empty identifier.
pub proof fn lemma_marker_line_nonempty(line: Seq<char>)
    requires
        forall|k: int| 0 <= k < line.len() ==> line[k] != '\n',
        has_marker(line),
        exists|k: int|
            0 <= k < value_of_line(line).len() && !is_quote_or_space(value_of_line(line)[k]),
    ensures
        extracted_id(line) == Some(unquoted(value_of_line(line))),
        unquoted(value_of_line(line)).len() > 0,
{
    lemma_split_lines_whole(line);
    lemma_stripped_nonempty(value_of_line(line), quote_space_pred());
}

} // verus!
