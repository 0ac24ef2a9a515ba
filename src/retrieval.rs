//! The retrieval path: from a public path to the stored record, the direct
//! fetch or the large-object proxy, and the response that serves the bytes.
use vstd::prelude::*;
use base64::Engine;
use crate::file_storage::{opt_view, FileMetadata, FileMetadataView, FileStore};
use crate::link_utils::{decode_path, extract_id_from_path};
use crate::parse::{contains, contains_exec};
use crate::text::{dec, dec_signed, push_all, push_decimal, push_signed};

verus! {

/// The character of the standard Base64 alphabet for a six-bit value.
pub open spec fn b64_char(v: nat) -> char {
    "ABCDEFGHIJKLMNOPQRSTUVWXYZabcdefghijklmnopqrstuvwxyz0123456789+/"@[v as int]
}

/// Padded standard Base64: each group of three bytes becomes four characters of
/// six bits each; a last group of one or two bytes is padded with `=`.
pub open spec fn base64_of(b: Seq<u8>) -> Seq<char>
    decreases b.len(),
{
    if b.len() == 0 {
        Seq::empty()
    } else if b.len() == 1 {
        seq![b64_char(b[0] as nat / 4), b64_char((b[0] as nat % 4) * 16), '=', '=']
    } else if b.len() == 2 {
        seq![
            b64_char(b[0] as nat / 4),
            b64_char((b[0] as nat % 4) * 16 + b[1] as nat / 16),
            b64_char((b[1] as nat % 16) * 4),
            '=',
        ]
    } else {
        seq![
            b64_char(b[0] as nat / 4),
            b64_char((b[0] as nat % 4) * 16 + b[1] as nat / 16),
            b64_char((b[1] as nat % 16) * 4 + b[2] as nat / 64),
            b64_char(b[2] as nat % 64),
        ] + base64_of(b.subrange(3, b.len() as int))
    }
}

/// Relies on `base64::engine::general_purpose::STANDARD.encode`: the padded
/// standard Base64 text of the bytes.
#[verifier::external_body]
fn encode_base64(bytes: &[u8]) -> (r: String)
    ensures
        r@ == base64_of(bytes@),
{
    base64::engine::general_purpose::STANDARD.encode(bytes)
}

/// Why a file could not be served.
pub enum RetrievalError {
    /// No record for the identifier.
    NotFound,
    /// Too large for a direct fetch, and the record has no proxy coordinates.
    NotAvailable,
    /// Too large for a direct fetch, and no storage channel is configured.
    ProxyNotConfigured,
    /// The direct fetch failed for another reason.
    StorageFailure,
    /// The proxy could not be reached or answered with a failure status.
    ProxyUnavailable,
}

pub open spec fn status_of(e: RetrievalError) -> u16 {
    match e {
        RetrievalError::NotFound => 404,
        RetrievalError::NotAvailable => 404,
        RetrievalError::ProxyNotConfigured => 503,
        RetrievalError::StorageFailure => 500,
        RetrievalError::ProxyUnavailable => 503,
    }
}

impl RetrievalError {
    /// The HTTP status that reports the error.
    pub fn status(&self) -> (r: u16)
        ensures
            r == status_of(*self),
    {
        match self {
            RetrievalError::NotFound => 404,
            RetrievalError::NotAvailable => 404,
            RetrievalError::ProxyNotConfigured => 503,
            RetrievalError::StorageFailure => 500,
                RetrievalError::ProxyUnavailable => 503,
        }
    }
}

/// The record that a public path names, if there is one.
pub fn resolve_metadata(store: &FileStore, path: &str) -> (r: Result<FileMetadata, RetrievalError>)
    requires
        store.wf(),
    ensures
        match r {
            Ok(m) => store@.contains_key(decode_path(path@)) && m@ == store@[decode_path(path@)],
            Err(e) => !store@.contains_key(decode_path(path@)) && e == RetrievalError::NotFound,
        },
{
    let id = extract_id_from_path(path);
    match store.get(id) {
        Some(m) => Ok(m),
        None => Err(RetrievalError::NotFound),
    }
}

/// The failure of a direct fetch says that the file is too large for it.
pub open spec fn too_big_signal(err: Seq<char>) -> bool {
    contains(err, "file is too big"@)
}

/// Whether the error text of a failed direct fetch is the size-limit rejection.
pub fn is_too_big_error(err: &str) -> (r: bool)
    ensures
        r == too_big_signal(err@),
{
    proof {
        reveal_strlit("file is too big");
    }
    contains_exec(err, "file is too big")
}

pub open spec fn proxy_url_text(base: Seq<char>, channel_id: i64, message_id: i32) -> Seq<char> {
    base + "/download/"@ + dec_signed(channel_id as int) + "/"@ + dec_signed(message_id as int)
}

/// What follows a failed direct fetch: the proxy URL to fetch instead, or the error
/// to report. The proxy is asked only on the size-limit rejection, and only when
/// both a storage channel and the record's message coordinate are known.
pub open spec fn fallback(
    message_id: Option<i32>,
    err: Seq<char>,
    proxy_base: Seq<char>,
    channel_id: Option<i64>,
) -> Result<Seq<char>, RetrievalError> {
    if !too_big_signal(err) {
        Err(RetrievalError::StorageFailure)
    } else {
        match channel_id {
            None => Err(RetrievalError::ProxyNotConfigured),
            Some(c) => match message_id {
                None => Err(RetrievalError::NotAvailable),
                Some(m) => Ok(proxy_url_text(proxy_base, c, m)),
            },
        }
    }
}

pub fn after_direct_failure(
    metadata: &FileMetadata,
    err: &str,
    proxy_base: &str,
    channel_id: Option<i64>,
) -> (r: Result<String, RetrievalError>)
    ensures
        match r {
            Ok(url) => fallback(metadata.message_id, err@, proxy_base@, channel_id) == Ok::<
                Seq<char>,
                RetrievalError,
            >(url@),
            Err(e) => fallback(metadata.message_id, err@, proxy_base@, channel_id) == Err::<
                Seq<char>,
                RetrievalError,
            >(e),
        },
{
    if !is_too_big_error(err) {
        return Err(RetrievalError::StorageFailure);
    }
    let channel = match channel_id {
        Some(c) => c,
        None => {
            return Err(RetrievalError::ProxyNotConfigured);
        },
    };
    let message = match metadata.message_id {
        Some(m) => m,
        None => {
            return Err(RetrievalError::NotAvailable);
        },
    };
    let mut url = String::new();
    push_all(&mut url, proxy_base);
    push_all(&mut url, "/download/");
    push_signed(&mut url, channel);
    push_all(&mut url, "/");
    push_signed(&mut url, message as i64);
    Ok(url)
}

/// A record without proxy coordinates is never sent to the proxy: on the size-limit
/// rejection the answer is an error whatever the configuration, and "not available"
/// once a storage channel is configured.
pub proof fn lemma_no_proxy_without_coordinates(
    err: Seq<char>,
    proxy_base: Seq<char>,
    channel_id: Option<i64>,
)
    requires
        too_big_signal(err),
    ensures
        fallback(None, err, proxy_base, channel_id) is Err,
        channel_id is Some ==> fallback(None, err, proxy_base, channel_id) == Err::<
            Seq<char>,
            RetrievalError,
        >(RetrievalError::NotAvailable),
{
}

pub open spec fn octet_stream() -> Seq<char> {
    "application/octet-stream"@
}

pub open spec fn content_type_text(metadata: FileMetadataView, force_download: bool) -> Seq<char> {
    if force_download {
        octet_stream()
    } else {
        match metadata.mime_type {
            Some(t) => t,
            None => octet_stream(),
        }
    }
}

/// The content type a directly fetched file is served with.
pub fn content_type_for(metadata: &FileMetadata, force_download: bool) -> (r: String)
    ensures
        r@ == content_type_text(metadata@, force_download),
{
    if force_download {
        String::from_str("application/octet-stream")
    } else {
        match &metadata.mime_type {
            Some(t) => t.clone(),
            None => String::from_str("application/octet-stream"),
        }
    }
}

pub open spec fn disposition_text(file_name: Seq<char>) -> Seq<char> {
    "attachment; filename=\""@ + file_name + "\""@
}

/// The content-disposition header that makes the client save the file under its name.
pub fn content_disposition(file_name: &str) -> (r: String)
    ensures
        r@ == disposition_text(file_name@),
{
    let mut r = String::new();
    push_all(&mut r, "attachment; filename=\"");
    push_all(&mut r, file_name);
    push_all(&mut r, "\"");
    r
}

/// The headers of a proxied response: the proxy's own, else the defaults.
pub fn proxied_headers(
    metadata: &FileMetadata,
    content_type: Option<&str>,
    disposition: Option<&str>,
) -> (r: (String, String))
    ensures
        r.0@ == match content_type {
            Some(t) => t@,
            None => octet_stream(),
        },
        r.1@ == match disposition {
            Some(d) => d@,
            None => disposition_text(metadata.file_name@),
        },
{
    let t = match content_type {
        Some(t) => String::from_str(t),
        None => String::from_str("application/octet-stream"),
    };
    let d = match disposition {
        Some(d) => String::from_str(d),
        None => content_disposition(metadata.file_name.as_str()),
    };
    (t, d)
}

pub open spec fn download_page_text(name: Seq<char>, payload: Seq<char>, content_type: Seq<char>) -> Seq<
    char,
> {
    PAGE_HEAD@ + name + PAGE_TITLE_END@ + name + PAGE_SCRIPT@ + payload + PAGE_TYPE@ + content_type
        + PAGE_NAME@ + name + PAGE_TAIL@
}

pub const PAGE_HEAD: &'static str = "<!DOCTYPE html>\n<html>\n<head>\n    <title>Downloading ";

pub const PAGE_TITLE_END: &'static str = "</title>
    <style>
        body { font-family: Arial, sans-serif; text-align: center; padding: 50px; }
        .loader { border: 5px solid #f3f3f3; border-top: 5px solid #3498db;
                   border-radius: 50%; width: 50px; height: 50px;
                   animation: spin 1s linear infinite; margin: 20px auto; }
        @keyframes spin { 0% { transform: rotate(0deg); } 100% { transform: rotate(360deg); } }
    </style>
</head>
<body>
    <h2>Downloading ";

pub const PAGE_SCRIPT: &'static str = "</h2>
    <div class=\"loader\"></div>
    <p>Your download will begin shortly...</p>
    <p><small>This window will close automatically.</small></p>
    <script>
        // Create blob from base64 data and trigger download
        const base64Data = \"";

pub const PAGE_TYPE: &'static str = "\";
        const byteCharacters = atob(base64Data);
        const byteNumbers = new Array(byteCharacters.length);
        for (let i = 0; i < byteCharacters.length; i++) {
            byteNumbers[i] = byteCharacters.charCodeAt(i);
        }
        const byteArray = new Uint8Array(byteNumbers);
        const blob = new Blob([byteArray], { type: '";

pub const PAGE_NAME: &'static str = "' });
        const url = window.URL.createObjectURL(blob);
        const a = document.createElement('a');
        a.href = url;
        a.download = \"";

pub const PAGE_TAIL: &'static str = "\";
        document.body.appendChild(a);
        a.click();
        window.URL.revokeObjectURL(url);

        // Close window after 2 seconds
        setTimeout(function() {
            window.close();
        }, 2000);
    </script>
</body>
</html>";

/// The page that carries the file as Base64 and has the browser save it, then
/// close the window.
pub fn auto_download_page(file_name: &str, bytes: &[u8], content_type: &str) -> (r: String)
    ensures
        r@ == download_page_text(file_name@, base64_of(bytes@), content_type@),
{
    let payload = encode_base64(bytes);
    let mut r = String::new();
    push_all(&mut r, PAGE_HEAD);
    push_all(&mut r, file_name);
    push_all(&mut r, PAGE_TITLE_END);
    push_all(&mut r, file_name);
    push_all(&mut r, PAGE_SCRIPT);
    push_all(&mut r, payload.as_str());
    push_all(&mut r, PAGE_TYPE);
    push_all(&mut r, content_type);
    push_all(&mut r, PAGE_NAME);
    push_all(&mut r, file_name);
    push_all(&mut r, PAGE_TAIL);
    r
}

pub open spec fn listing_item(m: FileMetadataView) -> Seq<char> {
    "<li><a href=\"/files/"@ + m.unique_id + "\">"@ + m.file_name + "</a> ("@ + dec(
        m.file_size as nat,
    ) + " bytes)</li>"@
}

pub open spec fn listing_items(files: Seq<FileMetadata>) -> Seq<char>
    decreases files.len(),
{
    if files.len() == 0 {
        Seq::empty()
    } else {
        listing_items(files.drop_last()) + listing_item(files.last()@)
    }
}

pub open spec fn listing_text(files: Seq<FileMetadata>) -> Seq<char> {
    if files.len() == 0 {
        "<h1>Files in storage</h1><p>No files uploaded yet.</p>"@
    } else {
        "<h1>Files in storage</h1><ul>"@ + listing_items(files) + "</ul>"@
    }
}

/// The HTML listing of the given records, one line each, in the given order.
pub fn files_list_page(files: &Vec<FileMetadata>) -> (r: String)
    ensures
        r@ == listing_text(files@),
{
    if files.len() == 0 {
        return String::from_str("<h1>Files in storage</h1><p>No files uploaded yet.</p>");
    }
    let mut r = String::new();
    push_all(&mut r, "<h1>Files in storage</h1><ul>");
    let mut i: usize = 0;
    while i < files.len()
        invariant
            i <= files@.len(),
            r@ == "<h1>Files in storage</h1><ul>"@ + listing_items(files@.subrange(0, i as int)),
        decreases files@.len() - i,
    {
        let m = &files[i];
        push_all(&mut r, "<li><a href=\"/files/");
        push_all(&mut r, m.unique_id.as_str());
        push_all(&mut r, "\">");
        push_all(&mut r, m.file_name.as_str());
        push_all(&mut r, "</a> (");
        push_decimal(&mut r, m.file_size as u64);
        push_all(&mut r, " bytes)</li>");
        proof {
            let next = files@.subrange(0, i + 1);
            assert(next.drop_last() =~= files@.subrange(0, i as int));
            assert(next.last() == files@[i as int]);
        }
        assert(r@ =~= "<h1>Files in storage</h1><ul>"@ + listing_items(files@.subrange(0, i + 1)));
        i = i + 1;
    }
    push_all(&mut r, "</ul>");
    assert(files@.subrange(0, files@.len() as int) =~= files@);
    r
}

/// The body of a served file.
pub enum Body {
    /// The stored bytes themselves.
    Bytes(Vec<u8>),
    /// A page that carries the bytes and has the browser save them.
    Page(String),
}

/// A file ready to be sent: its headers and its body.
pub struct Served {
    pub content_type: String,
    pub content_disposition: Option<String>,
    pub body: Body,
}

/// The response for bytes fetched directly from storage: the bytes as an
/// attachment under the record's name, or with `auto_close` the download page.
/// `force_download` serves a generic content type.
pub fn serve_direct(metadata: &FileMetadata, bytes: Vec<u8>, auto_close: bool, force_download: bool) -> (r:
    Served)
    ensures
        !auto_close ==> {
            &&& r.body matches Body::Bytes(b) && b@ == bytes@
            &&& r.content_type@ == content_type_text(metadata@, force_download)
            &&& r.content_disposition matches Some(d) && d@ == disposition_text(metadata.file_name@)
        },
        auto_close ==> {
            &&& r.body matches Body::Page(p) && p@ == download_page_text(
                metadata.file_name@,
                base64_of(bytes@),
                content_type_text(metadata@, force_download),
            )
            &&& r.content_type@ == "text/html; charset=utf-8"@
            &&& r.content_disposition is None
        },
{
    let content_type = content_type_for(metadata, force_download);
    if auto_close {
        let page = auto_download_page(metadata.file_name.as_str(), bytes.as_slice(), content_type.as_str());
        Served {
            content_type: String::from_str("text/html; charset=utf-8"),
            content_disposition: None,
            body: Body::Page(page),
        }
    } else {
        Served {
            content_type,
            content_disposition: Some(content_disposition(metadata.file_name.as_str())),
            body: Body::Bytes(bytes),
        }
    }
}

} // verus!
