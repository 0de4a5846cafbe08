//! The input resolver's pure parts: which source an invocation reads
//! from, and the normalization applied to what standard input yields.

use vstd::prelude::*;

verus! {

use vstd::string::StrSliceExecFns;

/// Where the data to transcode comes from. Exactly one variant is
/// chosen per invocation, at startup, and never re-resolved.
pub enum Input {
    /// Read from standard input.
    Stdin,
    /// Read from the file at this path.
    File(String),
    /// Use this string as the data itself.
    Literal(String),
}

/// Chooses the input source from the parsed arguments: a file path
/// wins over a literal string, and with neither the data comes from
/// standard input.
pub fn select_input(file: Option<String>, literal: Option<String>) -> (r: Input)
    ensures
        file matches Some(p) ==> (r matches Input::File(q) && q == p),
        file is None ==> (literal matches Some(s) ==> (r matches Input::Literal(t) && t == s)),
        file is None && literal is None ==> r is Stdin,
{
    match file {
        Some(path) => Input::File(path),
        None => match literal {
            Some(text) => Input::Literal(text),
            None => Input::Stdin,
        },
    }
}

/// Removes one trailing line feed from piped bytes, if present; any
/// other content is kept verbatim.
pub fn strip_trailing_newline(v: &mut Vec<u8>)
    ensures
        old(v)@.len() > 0 && old(v)@.last() == 10u8 ==> final(v)@ == old(v)@.drop_last(),
        !(old(v)@.len() > 0 && old(v)@.last() == 10u8) ==> final(v)@ == old(v)@,
{
    if v.len() > 0 {
        let last = v[v.len() - 1];
        if last == 10 {
            v.pop();
        }
    }
}

/// Whether a character counts as whitespace for trailing-whitespace
/// trimming; it depends on the character alone.
pub uninterp spec fn is_unicode_ws(c: char) -> bool;

/// Relies on `char::is_whitespace`: whether the character has the
/// Unicode `White_Space` property, a function of the character alone.
#[verifier::external_body]
fn is_whitespace_char(c: char) -> (r: bool)
    ensures
        r == is_unicode_ws(c),
{
    c.is_whitespace()
}

/// The text without its trailing whitespace: characters are dropped
/// from the end while the last one is whitespace.
pub open spec fn trimmed_end(s: Seq<char>) -> Seq<char>
    decreases s.len(),
{
    if s.len() > 0 && is_unicode_ws(s.last()) {
        trimmed_end(s.drop_last())
    } else {
        s
    }
}

/// Removes all trailing whitespace from text read from standard input.
pub fn trim_trailing_whitespace(s: &str) -> (r: String)
    ensures
        r@ == trimmed_end(s@),
{
    let n = s.unicode_len();
    let mut end = n;
    proof {
        assert(s@.take(n as int) =~= s@);
    }
    while end > 0 && is_whitespace_char(s.get_char(end - 1))
        invariant
            end <= n,
            n == s@.len(),
            trimmed_end(s@) == trimmed_end(s@.take(end as int)),
        decreases end,
    {
        proof {
            assert(s@.take(end as int).last() == s@[end - 1]);
            assert(s@.take(end as int).drop_last() =~= s@.take(end - 1));
        }
        end = end - 1;
    }
    proof {
        if end > 0 {
            assert(s@.take(end as int).last() == s@[end - 1]);
        }
        assert(trimmed_end(s@.take(end as int)) == s@.take(end as int));
    }
    s.substring_char(0, end).to_owned()
}

} // verus!
