//! Text helpers for requests and for the addresses handed back.

use crate::views::opt_text;
use vstd::prelude::*;
use vstd::string::StringExecFns;

verus! {

/// What `serde_urlencoded::to_string` writes for a list of pairs of strings,
/// or `None` where it refuses.
pub uninterp spec fn url_query(pairs: Seq<(Seq<char>, Seq<char>)>) -> Option<Seq<char>>;

/// The pairs of a list as characters.
pub open spec fn pairs_text(pairs: Seq<(String, String)>) -> Seq<(Seq<char>, Seq<char>)> {
    Seq::new(pairs.len(), |i: int| (pairs[i].0@, pairs[i].1@))
}

/// `serde_urlencoded::to_string` on a list of pairs, a refusal turned into `None`.
///
/// Trusted: the text, or its absence, is a function of the pairs and their order.
#[verifier::external_body]
pub(crate) fn encode_query(pairs: &Vec<(String, String)>) -> (query: Option<String>)
    ensures
        opt_text(query) == url_query(pairs_text(pairs@)),
{
    serde_urlencoded::to_string(pairs).ok()
}

/// `==` on two string slices.
///
/// Trusted: true exactly when the two hold the same characters.
#[verifier::external_body]
pub(crate) fn same_text(a: &str, b: &str) -> (same: bool)
    ensures
        same == (a@ == b@),
{
    a == b
}

/// The address of a download: the service's address, the path segment
/// `file`, and behind a `?` the encoded parameters, where there are any.
/// Parameters that the encoder refuses are left out.
pub open spec fn download_url(
    base: Seq<char>,
    file: Seq<char>,
    pairs: Seq<(Seq<char>, Seq<char>)>,
) -> Seq<char> {
    base + "/download/"@ + file + (if pairs.len() > 0 {
        "?"@
    } else {
        Seq::<char>::empty()
    }) + (match url_query(pairs) {
        Some(q) => q,
        None => Seq::<char>::empty(),
    })
}

/// Writes the address of a download.
pub fn build_download_url(base: &str, file: &str, pairs: &Vec<(String, String)>) -> (url: String)
    ensures
        url@ == download_url(base@, file@, pairs_text(pairs@)),
{
    let mut url = String::from_str(base);
    url.append("/download/");
    url.append(file);
    if pairs.len() > 0 {
        url.append("?");
    } else {
        assert(url@ + Seq::<char>::empty() =~= url@);
    }
    match encode_query(pairs) {
        Some(q) => {
            url.append(q.as_str());
        },
        None => {
            assert(url@ + Seq::<char>::empty() =~= url@);
        },
    }
    url
}

} // verus!
