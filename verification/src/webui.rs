//! What the WebUI shows of a key, and which embedded asset answers a WebUI path.
use vstd::prelude::*;

use crate::keys::KeyRow;
use crate::text::{chars_of, concat, string_of_range};

verus! {

/// A key as the WebUI JSON API shows it: everything but the secret, which is masked.
pub struct KeyApi {
    pub id: i64,
    pub provider: String,
    pub account_team: Option<String>,
    pub status: String,
    pub cooldown_until: Option<i64>,
    pub credits_remaining: Option<i64>,
    pub last_used_at: Option<i64>,
    pub last_error: Option<String>,
    pub key_masked: String,
}

/// A key as it may be shown: keys of at most ten characters in full, longer ones as their
/// first six characters, `...`, and their last four.
pub open spec fn spec_mask_key(k: Seq<char>) -> Seq<char> {
    if k.len() <= 10 {
        k
    } else {
        k.take(6) + "..."@ + k.skip(k.len() - 4)
    }
}

/// Shows only head and tail of a key to avoid pasting full secrets into terminals.
pub fn mask_key(k: &str) -> (r: String)
    ensures
        r@ == spec_mask_key(k@),
{
    let v = chars_of(k);
    let len = v.len();
    if len <= 10 {
        k.to_owned()
    } else {
        let head = string_of_range(&v, 0, 6);
        let tail = string_of_range(&v, len - 4, len);
        let a = concat(head.as_str(), "...");
        let r = concat(a.as_str(), tail.as_str());
        assert(v@.subrange(0, 6) =~= k@.take(6));
        assert(v@.subrange(len - 4, len as int) =~= k@.skip(len - 4));
        r
    }
}

/// The API view of a key row.
pub fn key_row_to_api(r: KeyRow) -> (a: KeyApi)
    ensures
        a.id == r.id,
        a.provider == r.provider,
        a.account_team == r.account_team,
        a.status == r.status,
        a.cooldown_until == r.cooldown_until,
        a.credits_remaining == r.credits_remaining,
        a.last_used_at == r.last_used_at,
        a.last_error == r.last_error,
        a.key_masked@ == spec_mask_key(r.key_value@),
{
    let key_masked = mask_key(r.key_value.as_str());
    KeyApi {
        id: r.id,
        provider: r.provider,
        account_team: r.account_team,
        status: r.status,
        cooldown_until: r.cooldown_until,
        credits_remaining: r.credits_remaining,
        last_used_at: r.last_used_at,
        last_error: r.last_error,
        key_masked,
    }
}

/// The MIME type that mime_guess gives a path (decided by its extension).
pub uninterp spec fn guessed_mime(path: Seq<char>) -> Seq<char>;

/// The content type of an asset: `mime_guess::from_path(path).first_or_octet_stream()`,
/// as its essence string. The guess depends on the path's extension alone; a path without
/// any `.` has no extension and gets `application/octet-stream`.
#[verifier::external_body]
fn mime_for_path(path: &str) -> (r: String)
    ensures
        r@ == guessed_mime(path@),
        !path@.contains('.') ==> r@ == "application/octet-stream"@,
{
    mime_guess::from_path(path).first_or_octet_stream().essence_str().to_string()
}

/// Status and content type of the answer to a request for an embedded asset.
pub struct AssetHead {
    pub status: u16,
    /// The content type, when the asset exists.
    pub content_type: Option<String>,
}

/// The answer for asset `path`: 200 with its guessed MIME type when it is embedded,
/// 404 `not found` otherwise.
pub fn asset_head(path: &str, found: bool) -> (r: AssetHead)
    ensures
        found ==> r.status == 200 && (r.content_type matches Some(t) && t@ == guessed_mime(path@)),
        !found ==> r.status == 404 && r.content_type is None,
{
    if found {
        AssetHead { status: 200, content_type: Some(mime_for_path(path)) }
    } else {
        AssetHead { status: 404, content_type: None }
    }
}

/// Which embedded file answers a WebUI path.
pub enum WebuiTarget {
    /// The single-page app's `index.html`.
    Index,
    /// The embedded file at the requested path.
    Asset,
}

/// The WebUI is a single-page app: the empty path and every path that names no embedded
/// file are answered with `index.html`, so the client can render them.
pub fn webui_target(path: &str, embedded: bool) -> (r: WebuiTarget)
    ensures
        path@.len() == 0 ==> r is Index,
        path@.len() > 0 && embedded ==> r is Asset,
        path@.len() > 0 && !embedded ==> r is Index,
{
    if path.is_empty() {
        WebuiTarget::Index
    } else if embedded {
        WebuiTarget::Asset
    } else {
        WebuiTarget::Index
    }
}

} // verus!
