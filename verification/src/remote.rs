//! Talking to the remote host: where to ask, how to authenticate, and what
//! an answer means.

use vstd::prelude::*;
use vstd::utf8::encode_utf8;
use crate::asset::RemoteAsset;
use crate::error::{is_success_status, status_is_success, BackupError, ErrorView};
use crate::orchestrator::Event;
use crate::reconcile::page_view;
use crate::run_model::EventView;

verus! {

/// The number of assets asked for per page.
pub const PAGE_SIZE: u64 = 100;

/// How long a request may take, in seconds.
pub const REQUEST_TIMEOUT_SECS: u64 = 30;

/// The pause before each page request, in milliseconds.
pub const LISTING_PAUSE_MS: u64 = 100;

/// The pause after each download, in milliseconds.
pub const DOWNLOAD_PAUSE_MS: u64 = 200;

/// The standard base64 encoding, with padding, of a sequence of bytes.
pub uninterp spec fn base64_standard(input: Seq<u8>) -> Seq<char>;

/// The length of the padded base64 encoding of `n` bytes.
pub open spec fn encoded_len(n: nat) -> nat {
    (n / 3) * 4 + if n % 3 > 0 {
        4nat
    } else {
        0nat
    }
}

/// `Engine::encode` of the crate `base64`, on its `STANDARD` engine. The
/// result is taken to be the standard padded base64 encoding of the bytes of
/// `input`, a function of those bytes alone. The call panics where the length
/// of the encoding does not fit in `usize`; such inputs are left out.
#[verifier::external_body]
fn encode_base64(input: &str) -> (r: String)
    requires
        encoded_len(encode_utf8(input@).len()) <= usize::MAX,
    ensures
        r@ == base64_standard(encode_utf8(input@)),
{
    base64::Engine::encode(&base64::engine::general_purpose::STANDARD, input)
}

/// The value of the authorization header for encoded credentials.
pub open spec fn authorization_of(encoded: Seq<char>) -> Seq<char> {
    "Basic "@ + encoded
}

/// The credentials as they are encoded: key and secret with a colon between them.
pub open spec fn credential_pair(api_key: Seq<char>, api_secret: Seq<char>) -> Seq<char> {
    api_key + ":"@ + api_secret
}

/// Puts the scheme in front of encoded credentials.
pub fn authorization_value(encoded: &str) -> (r: String)
    ensures
        r@ == authorization_of(encoded@),
{
    String::from_str("Basic ").concat(encoded)
}

/// The value of the authorization header for a key and a secret: the
/// scheme, then the base64 encoding of `key:secret`. The credentials go
/// nowhere else: not into the URL and not into a message. There is no value
/// where the encoding would be longer than a string can be.
pub fn basic_auth_header(api_key: &str, api_secret: &str) -> (r: Option<String>)
    ensures
        r is Some == (encoded_len(encode_utf8(credential_pair(api_key@, api_secret@)).len()) <= usize::MAX),
        r matches Some(h) ==> h@ == authorization_of(
            base64_standard(encode_utf8(credential_pair(api_key@, api_secret@))),
        ),
{
    let mut pair = String::from_str(api_key);
    pair.append(":");
    pair.append(api_secret);
    let n = pair.as_str().as_bytes().len();
    let chunks = n / 3;
    if chunks > usize::MAX / 4 {
        return None;
    }
    let padding: usize = if n % 3 > 0 {
        4
    } else {
        0
    };
    if chunks * 4 > usize::MAX - padding {
        return None;
    }
    let encoded = encode_base64(pair.as_str());
    Some(authorization_value(encoded.as_str()))
}

/// The address of a page of the catalog of `cloud_name`: the first page
/// without a cursor, a later one with the cursor that the page before it gave.
pub open spec fn listing_url_of(cloud_name: Seq<char>, cursor: Option<Seq<char>>) -> Seq<char> {
    "https://api.cloudinary.com/v1_1/"@ + cloud_name + "/resources/image"@ + match cursor {
        Some(c) => "?next_cursor="@ + c + "&max_results=100"@,
        None => "?max_results=100"@,
    }
}

/// The address of a page of the catalog.
pub fn listing_url(cloud_name: &str, cursor: &Option<String>) -> (r: String)
    ensures
        r@ == listing_url_of(cloud_name@, cursor.deep_view()),
{
    let mut url = String::from_str("https://api.cloudinary.com/v1_1/");
    url.append(cloud_name);
    url.append("/resources/image");
    match cursor {
        Some(c) => {
            url.append("?next_cursor=");
            url.append(c.as_str());
            url.append("&max_results=100");
        },
        None => {
            url.append("?max_results=100");
        },
    }
    assert(url@ =~= listing_url_of(cloud_name@, cursor.deep_view()));
    url
}

/// Tells an answer that carries what was asked for from a rejection: the
/// body of an answer in the 2xx range is handed on, any other answer is an error
/// that keeps the status and the body.
pub fn check_status(status: u16, body: String) -> (r: Result<String, BackupError>)
    ensures
        is_success_status(status) ==> (r matches Ok(b) && b@ == body@),
        !is_success_status(status) ==> (r matches Err(e) && e@ == (ErrorView::RemoteRejected {
            status,
            body: body@,
        })),
{
    if status_is_success(status) {
        Ok(body)
    } else {
        Err(BackupError::RemoteRejected { status, body })
    }
}

/// One page of the catalog.
#[derive(Clone, Debug, PartialEq, Eq)]
pub struct ListingPage {
    pub assets: Vec<RemoteAsset>,
    /// The token for the page after this one; absent on the last page.
    pub next_token: Option<String>,
    pub rate_limit_allowed: Option<u32>,
    pub rate_limit_remaining: Option<u32>,
    pub rate_limit_reset_at: Option<String>,
}

/// A file that a download has put on disk.
#[derive(Clone, Debug, PartialEq, Eq)]
pub struct DownloadedFile {
    pub local_path: String,
    pub checksum: String,
    pub backup_date: String,
}

/// The event that reports how a page request ended.
pub fn listing_event(outcome: Result<ListingPage, BackupError>) -> (r: Event)
    ensures
        r@ == match outcome {
            Ok(page) => EventView::PageListed {
                assets: page_view(page.assets@),
                next_token: page.next_token.deep_view(),
            },
            Err(error) => EventView::ListingFailed { error: error@ },
        },
{
    match outcome {
        Ok(page) => Event::PageListed { assets: page.assets, next_token: page.next_token },
        Err(error) => Event::ListingFailed { error },
    }
}

/// The event that reports how a download ended.
pub fn download_event(outcome: Result<DownloadedFile, BackupError>) -> (r: Event)
    ensures
        r@ == match outcome {
            Ok(file) => EventView::Downloaded {
                local_path: file.local_path@,
                checksum: file.checksum@,
                backup_date: file.backup_date@,
            },
            Err(error) => EventView::DownloadFailed { error: error@ },
        },
{
    match outcome {
        Ok(file) => Event::Downloaded {
            local_path: file.local_path,
            checksum: file.checksum,
            backup_date: file.backup_date,
        },
        Err(error) => Event::DownloadFailed { error },
    }
}

} // verus!
