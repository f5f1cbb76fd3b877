//! Request shaping for the translation pass-through: the outbound query URL
//! is built here, verified; the HTTP round trip itself and the reshaping of
//! the provider's JSON reply are outside collaboration and live with the
//! caller.

use vstd::prelude::*;
use vstd::string::StringExecFns;

verus! {

/// An inbound translation request. `source` is carried but ignored by the
/// provider, which assumes English input.
pub struct TranslateReq {
    pub q: String,
    pub source: String,
    pub target: String,
}

/// What urlencoding::encode returns for a string: a deterministic function
/// of the input characters alone (every byte except alphanumerics and
/// `-`, `_`, `.`, `~` is percent-encoded).
pub uninterp spec fn uri_encoded(s: Seq<char>) -> Seq<char>;

/// Relies on urlencoding::encode: percent-encodes the input, a
/// deterministic function of it; an empty input stays empty.
#[verifier::external_body]
fn encode_component(s: &String) -> (r: String)
    ensures
        r@ == uri_encoded(s@),
        s@.len() == 0 ==> r@.len() == 0,
{
    urlencoding::encode(s).into_owned()
}

/// The provider URL for a translation request: the percent-encoded text,
/// and a language pair that assumes English input, exactly
/// `<base>?q=<encoded q>&langpair=en|<target>`.
pub fn translate_url(req: &TranslateReq) -> (r: String)
    ensures
        r@ == "https://api.mymemory.translated.net/get?q="@ + uri_encoded(req.q@)
            + "&langpair=en|"@ + req.target@,
{
    let mut url = "https://api.mymemory.translated.net/get?q=".to_owned();
    let encoded = encode_component(&req.q);
    url.append(encoded.as_str());
    url.append("&langpair=en|");
    url.append(req.target.as_str());
    url
}

} // verus!
