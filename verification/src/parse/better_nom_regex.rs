//! Regular expressions on the front of an input.
use vstd::prelude::*;

verus! {

/// Whether the regular expression `pattern` matches somewhere in `text`, as
/// the regex crate finds it; `None` where the pattern is no regular
/// expression.
pub uninterp spec fn regex_is_match(pattern: Seq<char>, text: Seq<char>) -> Option<bool>;

/// Compiles `pattern` with `Regex::new` and asks `Regex::is_match` whether
/// it matches somewhere in `text`. The answer depends on the two texts
/// alone.
#[verifier::external_body]
pub(crate) fn re_is_match(pattern: &str, text: &str) -> (found: Option<bool>)
    ensures
        found == regex_is_match(pattern@, text@),
{
    match regex::Regex::new(pattern) {
        Ok(re) => Some(re.is_match(text)),
        Err(_) => None,
    }
}

/// The first match of the regular expression `pattern` in `text`, as the
/// regex crate finds it: what follows the match, and the match itself.
/// `None` where there is no match, and where the pattern is no regular
/// expression.
pub uninterp spec fn regex_find(pattern: Seq<char>, text: Seq<char>) -> Option<
    (Seq<char>, Seq<char>),
>;

/// Compiles `pattern` with `Regex::new` and searches `i` with
/// `Regex::find`, which gives the first match. Hands back what follows the
/// match in `i`, and the match. Both are parts of `i`: the match ends where
/// the rest begins, so that together they are no longer than `i`.
#[verifier::external_body]
pub(crate) fn re_find<'a>(pattern: &str, i: &'a str) -> (found: Option<(&'a str, &'a str)>)
    ensures
        match found {
            Some((rest, matched)) => regex_find(pattern@, i@) == Some((rest@, matched@))
                && rest@.len() + matched@.len() <= i@.len(),
            None => regex_find(pattern@, i@) is None,
        },
{
    let re = regex::Regex::new(pattern).ok()?;
    let m = re.find(i)?;
    Some((&i[m.end()..], &i[m.start()..m.end()]))
}

/// The first match of the regular expression `pattern` in `text` with its
/// groups, as the regex crate finds them: what follows the match, and what
/// each group matched, the whole match first, a group that matched nothing
/// as an empty text. `None` where there is no match, and where the pattern
/// is no regular expression.
pub uninterp spec fn regex_captures(pattern: Seq<char>, text: Seq<char>) -> Option<
    (Seq<char>, Seq<Seq<char>>),
>;

/// Compiles `pattern` with `Regex::new` and searches `i` with
/// `Regex::captures`, which gives the first match and what each group of
/// the pattern matched in it. Hands back what follows the match in `i`, and
/// the groups as `Captures::iter` yields them. The rest is a part of `i`.
#[verifier::external_body]
pub(crate) fn re_capture<'a>(pattern: &str, i: &'a str) -> (found: Option<(&'a str, Vec<&'a str>)>)
    ensures
        match found {
            Some((rest, groups)) => regex_captures(pattern@, i@) == Some(
                (rest@, Seq::new(groups@.len(), |k: int| groups@[k]@)),
            ) && rest@.len() <= i@.len(),
            None => regex_captures(pattern@, i@) is None,
        },
{
    let re = regex::Regex::new(pattern).ok()?;
    let c = re.captures(i)?;
    let v: Vec<&str> = c.iter().map(|m| m.map_or("", |m| m.as_str())).collect();
    let offset = c.get(0).map_or(0, |m| m.end());
    Some((&i[offset..], v))
}

} // verus!
