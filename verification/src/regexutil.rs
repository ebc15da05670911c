use vstd::prelude::*;

verus! {

/// Whether the pattern is a regular expression the engine accepts; a
/// pattern that is not UTF-8 is never valid.
pub uninterp spec fn regex_valid(pattern: Seq<u8>) -> bool;

/// The byte spans of the capture groups when the pattern matches the text,
/// the whole match first; the empty sequence when the pattern is invalid,
/// the pattern or text is not UTF-8, the text does not match, or the search
/// passes the engine's backtrack budget.
pub uninterp spec fn regex_captures(pattern: Seq<u8>, text: Seq<u8>) -> Seq<(usize, usize)>;

/// Relies on fancy_regex::Regex::new: it accepts or rejects a pattern by
/// the pattern text alone.
#[verifier::external_body]
pub fn regex_is_valid(pattern: &Vec<u8>) -> (r: bool)
    ensures
        r == regex_valid(pattern@),
{
    match core::str::from_utf8(pattern.as_slice()) {
        Ok(s) => fancy_regex::Regex::new(s).is_ok(),
        Err(_) => false,
    }
}

/// Relies on fancy_regex::Regex::captures: the groups found depend on the
/// pattern and the text alone, the backtrack limit being a fixed default,
/// and every group's span is a pair of byte offsets into the text. An
/// unmatched optional group comes back as an empty span.
#[verifier::external_body]
pub fn regex_find_captures(pattern: &Vec<u8>, text: &Vec<u8>) -> (r: Vec<(usize, usize)>)
    ensures
        r@ == regex_captures(pattern@, text@),
        forall|i: int| 0 <= i < r@.len() ==> (#[trigger] r@[i]).0 <= r@[i].1 <= text@.len(),
{
    let mut out = Vec::new();
    let p = core::str::from_utf8(pattern.as_slice());
    let t = core::str::from_utf8(text.as_slice());
    if let (Ok(p), Ok(t)) = (p, t) {
        if let Ok(re) = fancy_regex::Regex::new(p) {
            if let Ok(Some(caps)) = re.captures(t) {
                for g in caps.iter() {
                    out.push(g.map_or((0, 0), |m| (m.start(), m.end())));
                }
            }
        }
    }
    out
}

} // verus!
