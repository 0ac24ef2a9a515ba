//! The ingestion pipeline's own decisions: the artifact's name and MIME type,
//! its fresh identifier, the record that commits it, and the message that
//! hands out its link.
use vstd::prelude::*;
use crate::file_storage::{opt_view, FileMetadata, FileMetadataView, FileStore};
use crate::link_utils::{build_url_path, encode_path, ID_LEN};
use crate::parse::{
    after_last, after_last_exec, find_from, next_occ, second_piece, second_piece_exec, trim_char,
    trim_char_exec,
};
use crate::queue::{MediaKind, MediaRef};
use crate::text::{dec, digit, digit_char, push_all, push_decimal, str_eq};

verus! {

/// A character of nanoid's URL-safe alphabet.
pub open spec fn is_id_char(c: char) -> bool {
    c == '_' || c == '-' || ('0' <= c && c <= '9') || ('a' <= c && c <= 'z') || ('A' <= c
        && c <= 'Z')
}

/// Relies on `nanoid::format` with `nanoid::alphabet::SAFE` and `nanoid::rngs::default`:
/// it returns `size` characters, each drawn from that alphabet. It never returns
/// for a size of zero.
#[verifier::external_body]
fn random_id(size: usize) -> (r: String)
    requires
        0 < size <= 1024,
    ensures
        r@.len() == size,
        forall|i: int| 0 <= i < r@.len() ==> is_id_char(#[trigger] r@[i]),
{
    nanoid::format(nanoid::rngs::default, &nanoid::alphabet::SAFE, size)
}

/// What `mime_guess` registers first for a file name's extension, if anything.
pub uninterp spec fn guessed_mime(file_name: Seq<char>) -> Option<Seq<char>>;

/// Relies on `mime_guess::from_path(..).first()`: the first MIME type known for the
/// extension of the name, which depends on the name alone.
#[verifier::external_body]
fn guess_mime(file_name: &str) -> (r: Option<String>)
    ensures
        opt_view(r) == guessed_mime(file_name@),
{
    match mime_guess::from_path(file_name).first() {
        Some(m) => Some(m.to_string()),
        None => None,
    }
}

/// A fresh identifier: fixed length, URL-safe characters, drawn at random.
pub fn new_unique_id() -> (r: String)
    ensures
        r@.len() == ID_LEN,
        forall|i: int| 0 <= i < r@.len() ==> is_id_char(#[trigger] r@[i]),
{
    random_id(ID_LEN)
}

/// Draws made before `fresh_unique_id` gives up.
pub const MAX_DRAWS: usize = 8;

/// A fresh identifier that no record of `store` has yet; `None` only when every
/// one of `MAX_DRAWS` draws was already taken, which cannot happen while no stored
/// identifier has the generated length.
pub fn fresh_unique_id(store: &FileStore) -> (r: Option<String>)
    requires
        store.wf(),
    ensures
        r matches Some(id) ==> {
            &&& id@.len() == ID_LEN
            &&& forall|i: int| 0 <= i < id@.len() ==> is_id_char(#[trigger] id@[i])
            &&& !store@.contains_key(id@)
        },
        (forall|k: Seq<char>| #[trigger] store@.contains_key(k) ==> k.len() != ID_LEN) ==> r is Some,
{
    let mut n: usize = 0;
    while n < MAX_DRAWS
        invariant
            n <= MAX_DRAWS,
            store.wf(),
            (forall|k: Seq<char>| #[trigger] store@.contains_key(k) ==> k.len() != ID_LEN) ==> n
                == 0,
        decreases MAX_DRAWS - n,
    {
        let id = new_unique_id();
        if !store.contains(id.as_str()) {
            return Some(id);
        }
        n = n + 1;
    }
    None
}

pub const KB: u64 = 1024;

pub const MB: u64 = 1048576;

pub const GB: u64 = 1073741824;

/// `b / unit` in hundredths, rounded to nearest with ties to even.
pub open spec fn round_hundredths(b: nat, unit: nat) -> nat {
    let q = (b * 100) / unit;
    let r = (b * 100) % unit;
    if 2 * r > unit || (2 * r == unit && q % 2 == 1) {
        q + 1
    } else {
        q
    }
}

/// A number of hundredths written with two decimal places.
pub open spec fn two_places(h: nat) -> Seq<char> {
    dec(h / 100) + seq!['.', digit_char((h % 100) / 10), digit_char(h % 10)]
}

pub open spec fn human_size_text(b: nat) -> Seq<char> {
    if b >= GB {
        two_places(round_hundredths(b, GB as nat)) + " GB"@
    } else if b >= MB {
        two_places(round_hundredths(b, MB as nat)) + " MB"@
    } else if b >= KB {
        two_places(round_hundredths(b, KB as nat)) + " KB"@
    } else {
        dec(b) + " bytes"@
    }
}

fn push_two_places(s: &mut String, b: u64, unit: u64)
    requires
        unit == KB || unit == MB || unit == GB,
        b >= unit,
    ensures
        final(s)@ == old(s)@ + two_places(round_hundredths(b as nat, unit as nat)),
{
    let x: u128 = (b as u128) * 100;
    let q: u128 = x / (unit as u128);
    let r: u128 = x % (unit as u128);
    let h: u128 = if 2 * r > unit as u128 || (2 * r == unit as u128 && q % 2 == 1) {
        q + 1
    } else {
        q
    };
    assert(h == round_hundredths(b as nat, unit as nat));
    assert(q <= x);
    assert(h <= 0xffff_ffff_ffff_ffff_ffff) by (nonlinear_arith)
        requires
            h <= q + 1,
            q <= x,
            x == (b as u128) * 100,
            b <= 0xffff_ffff_ffff_ffff,
    ;
    let whole: u128 = h / 100;
    assert(whole <= 0xffff_ffff_ffff_ffff);
    push_decimal(s, whole as u64);
    s.push('.');
    s.push(digit(((h % 100) / 10) as u64));
    s.push(digit((h % 10) as u64));
    assert(final(s)@ =~= old(s)@ + two_places(h as nat));
}

/// A size in bytes as a person reads it: bytes below one KiB, else KB, MB or GB
/// with two decimal places.
pub fn human_size(bytes: u64) -> (r: String)
    ensures
        r@ == human_size_text(bytes as nat),
{
    let mut r = String::new();
    if bytes >= GB {
        push_two_places(&mut r, bytes, GB);
        push_all(&mut r, " GB");
    } else if bytes >= MB {
        push_two_places(&mut r, bytes, MB);
        push_all(&mut r, " MB");
    } else if bytes >= KB {
        push_two_places(&mut r, bytes, KB);
        push_all(&mut r, " KB");
    } else {
        push_decimal(&mut r, bytes);
        push_all(&mut r, " bytes");
    }
    r
}

/// The essence of a MIME type: the text before its first `;` parameter, without
/// surrounding spaces.
pub open spec fn mime_essence(t: Seq<char>) -> Seq<char> {
    trim_char(t.subrange(0, next_occ(t, ";"@, 0)), ' ')
}

pub open spec fn is_gif(t: Option<Seq<char>>) -> bool {
    match t {
        Some(t) => mime_essence(t) == "image/gif"@,
        None => false,
    }
}

fn mime_essence_exec(t: &str) -> (r: &str)
    ensures
        r@ == mime_essence(t@),
{
    proof {
        reveal_strlit(";");
    }
    let end = find_from(t, ";", 0);
    trim_char_exec(t.substring_char(0, end), ' ')
}

/// The name a platform-native attachment is stored under when none was requested.
pub open spec fn media_default_name(m: MediaRef, id: Seq<char>) -> Seq<char> {
    match m.kind {
        MediaKind::Document => match m.file_name {
            Some(n) => n@,
            None => "file_"@ + id,
        },
        MediaKind::Photo => "photo_"@ + id + ".jpg"@,
        MediaKind::Video => "video_"@ + id + ".mp4"@,
        MediaKind::Animation => "animation_"@ + id + if is_gif(opt_view(m.mime_type)) {
            ".gif"@
        } else {
            ".mp4"@
        },
    }
}

pub open spec fn media_name(requested: Option<Seq<char>>, m: MediaRef, id: Seq<char>) -> Seq<
    char,
> {
    match requested {
        Some(n) => n,
        None => media_default_name(m, id),
    }
}

/// The MIME type that the attachment itself implies, if any.
pub open spec fn media_given_mime(m: MediaRef) -> Option<Seq<char>> {
    match m.kind {
        MediaKind::Document => opt_view(m.mime_type),
        MediaKind::Photo => Some("image/jpeg"@),
        _ => match opt_view(m.mime_type) {
            Some(t) => Some(t),
            None => Some("video/mp4"@),
        },
    }
}

/// A known MIME type, else the one guessed from the file name.
pub open spec fn mime_or_guess(known: Option<Seq<char>>, name: Seq<char>) -> Option<Seq<char>> {
    match known {
        Some(t) => Some(t),
        None => guessed_mime(name),
    }
}

fn media_default_name_exec(m: &MediaRef, id: &str) -> (r: String)
    ensures
        r@ == media_default_name(*m, id@),
{
    let mut r = String::new();
    match m.kind {
        MediaKind::Document => match &m.file_name {
            Some(n) => {
                push_all(&mut r, n.as_str());
            },
            None => {
                push_all(&mut r, "file_");
                push_all(&mut r, id);
            },
        },
        MediaKind::Photo => {
            push_all(&mut r, "photo_");
            push_all(&mut r, id);
            push_all(&mut r, ".jpg");
        },
        MediaKind::Video => {
            push_all(&mut r, "video_");
            push_all(&mut r, id);
            push_all(&mut r, ".mp4");
        },
        MediaKind::Animation => {
            push_all(&mut r, "animation_");
            push_all(&mut r, id);
            let gif = match &m.mime_type {
                Some(t) => str_eq(mime_essence_exec(t.as_str()), "image/gif"),
                None => false,
            };
            if gif {
                push_all(&mut r, ".gif");
            } else {
                push_all(&mut r, ".mp4");
            }
        },
    }
    r
}

fn media_given_mime_exec(m: &MediaRef) -> (r: Option<String>)
    ensures
        opt_view(r) == media_given_mime(*m),
{
    match m.kind {
        MediaKind::Document => crate::file_storage::copy_opt_string(&m.mime_type),
        MediaKind::Photo => Some(String::from_str("image/jpeg")),
        _ => match &m.mime_type {
            Some(t) => Some(t.clone()),
            None => Some(String::from_str("video/mp4")),
        },
    }
}

fn mime_or_guess_exec(known: Option<String>, name: &str) -> (r: Option<String>)
    ensures
        opt_view(r) == mime_or_guess(opt_view(known), name@),
{
    match known {
        Some(t) => Some(t),
        None => guess_mime(name),
    }
}

/// The record for an attachment that was copied into storage: its name is the
/// requested one or one that suits the kind, its MIME type the one the
/// attachment implies or, failing that, one guessed from the name.
pub fn media_metadata(
    requested_name: &Option<String>,
    media: &MediaRef,
    unique_id: &str,
    stored_file_id: String,
    message_id: i32,
    uploaded_at: u64,
) -> (r: FileMetadata)
    ensures
        r@ == (FileMetadataView {
            unique_id: unique_id@,
            telegram_file_id: stored_file_id@,
            file_name: media_name(opt_view(*requested_name), *media, unique_id@),
            mime_type: mime_or_guess(
                media_given_mime(*media),
                media_name(opt_view(*requested_name), *media, unique_id@),
            ),
            file_size: media.file_size,
            uploaded_at: uploaded_at,
            message_id: Some(message_id),
        }),
{
    let file_name = match requested_name {
        Some(n) => n.clone(),
        None => media_default_name_exec(media, unique_id),
    };
    let mime_type = mime_or_guess_exec(media_given_mime_exec(media), file_name.as_str());
    FileMetadata {
        unique_id: String::from_str(unique_id),
        telegram_file_id: stored_file_id,
        file_name,
        mime_type,
        file_size: media.file_size,
        uploaded_at,
        message_id: Some(message_id),
    }
}

/// The name a downloaded file is stored under: the `filename=` of the
/// content-disposition header, stripped of quotes, else the URL's last path
/// segment; `None` when that is empty.
pub open spec fn url_file_name_spec(content_disposition: Option<Seq<char>>, url: Seq<char>) -> Option<
    Seq<char>,
> {
    let from_header = match content_disposition {
        Some(c) => match second_piece(c, "filename="@) {
            Some(p) => Some(trim_char(p, '"')),
            None => None,
        },
        None => None,
    };
    let name = match from_header {
        Some(n) => n,
        None => after_last(url, '/'),
    };
    if name.len() == 0 {
        None
    } else {
        Some(name)
    }
}

pub open spec fn opt_str_view(o: Option<&str>) -> Option<Seq<char>> {
    match o {
        Some(s) => Some(s@),
        None => None,
    }
}

/// The name for a file fetched from `url`, from the response's content-disposition
/// header when it names one.
pub fn url_file_name(content_disposition: Option<&str>, url: &str) -> (r: Option<String>)
    ensures
        opt_view(r) == url_file_name_spec(opt_str_view(content_disposition), url@),
{
    proof {
        reveal_strlit("filename=");
    }
    let from_header = match content_disposition {
        Some(c) => match second_piece_exec(c, "filename=") {
            Some(p) => Some(trim_char_exec(p, '"')),
            None => None,
        },
        None => None,
    };
    let name = match from_header {
        Some(n) => n,
        None => after_last_exec(url, '/'),
    };
    if name.unicode_len() == 0 {
        None
    } else {
        Some(String::from_str(name))
    }
}

/// Why a fetched resource cannot be stored.
pub enum SourceError {
    /// Neither the response nor the URL gives a usable file name.
    NoFileName,
    /// The response body is empty.
    EmptyBody,
    /// The response body has more bytes than a record can count.
    TooLarge,
}

/// The largest body a record can hold the size of.
pub const MAX_BODY: usize = 0xffff_ffff;

/// The name to store a fetched resource under, or why it cannot be stored.
pub fn resolve_url_source(content_disposition: Option<&str>, url: &str, body_len: usize) -> (r:
    Result<String, SourceError>)
    ensures
        url_file_name_spec(opt_str_view(content_disposition), url@) is None ==> r == Err::<
            String,
            SourceError,
        >(SourceError::NoFileName),
        url_file_name_spec(opt_str_view(content_disposition), url@) is Some && body_len == 0 ==> r
            == Err::<String, SourceError>(SourceError::EmptyBody),
        url_file_name_spec(opt_str_view(content_disposition), url@) is Some && body_len > MAX_BODY
            ==> r == Err::<String, SourceError>(SourceError::TooLarge),
        url_file_name_spec(opt_str_view(content_disposition), url@) is Some && 0 < body_len
            <= MAX_BODY ==> r is Ok && Some(r->Ok_0@) == url_file_name_spec(
            opt_str_view(content_disposition),
            url@,
        ),
{
    match url_file_name(content_disposition, url) {
        None => Err(SourceError::NoFileName),
        Some(name) => {
            if body_len == 0 {
                Err(SourceError::EmptyBody)
            } else if body_len > MAX_BODY {
                Err(SourceError::TooLarge)
            } else {
                Ok(name)
            }
        },
    }
}

/// The record for a file fetched from a URL and uploaded to storage; its MIME
/// type is guessed from its name.
pub fn url_metadata(
    file_name: String,
    body_len: usize,
    unique_id: &str,
    stored_file_id: String,
    message_id: i32,
    uploaded_at: u64,
) -> (r: FileMetadata)
    requires
        body_len <= MAX_BODY,
    ensures
        r@.file_size == body_len,
        r@ == (FileMetadataView {
            unique_id: unique_id@,
            telegram_file_id: stored_file_id@,
            file_name: file_name@,
            mime_type: guessed_mime(file_name@),
            file_size: body_len as u32,
            uploaded_at: uploaded_at,
            message_id: Some(message_id),
        }),
{
    let mime_type = guess_mime(file_name.as_str());
    FileMetadata {
        unique_id: String::from_str(unique_id),
        telegram_file_id: stored_file_id,
        file_name,
        mime_type,
        file_size: body_len as u32,
        uploaded_at,
        message_id: Some(message_id),
    }
}

pub open spec fn success_text(name: Seq<char>, size: Seq<char>, link: Seq<char>) -> Seq<char> {
    "\u{2705} <b>File uploaded successfully!</b>\n\n\u{1F4C1} <b>File:</b> "@ + name
        + "\n\u{1F4CA} <b>Size:</b> "@ + size + "\n\n\u{1F517} <b>Download Link:</b>\n<a href=\""@
        + link + "\">"@ + link + "</a>"@
}

/// The outcome of a committed ingestion: the artifact's public path and the
/// message that replaces the job's status.
pub struct StoredLink {
    pub path: String,
    pub message: String,
}

/// Why an artifact was not committed.
pub enum CommitError {
    /// A record with the same identifier is already stored.
    IdTaken,
}

/// Commits the record to the store and builds the link that the requester receives.
/// This is the commit point: before it no trace of the artifact is visible. An
/// identifier that is already stored is refused, and the store is left as it was.
pub fn commit_artifact(store: &mut FileStore, metadata: FileMetadata, file_domain: &str) -> (r:
    Result<StoredLink, CommitError>)
    requires
        old(store).wf(),
    ensures
        final(store).wf(),
        old(store)@.contains_key(metadata@.unique_id) ==> r is Err && final(store)@ == old(
            store,
        )@,
        !old(store)@.contains_key(metadata@.unique_id) ==> r is Ok && final(store)@ == old(
            store,
        )@.insert(metadata@.unique_id, metadata@),
        r matches Ok(link) ==> link.path@ == encode_path(metadata@.unique_id, metadata@.file_name)
            && link.message@ == success_text(
            metadata@.file_name,
            human_size_text(metadata.file_size as nat),
            file_domain@ + encode_path(metadata@.unique_id, metadata@.file_name),
        ),
{
    if store.contains(metadata.unique_id.as_str()) {
        return Err(CommitError::IdTaken);
    }
    let path = build_url_path(metadata.unique_id.as_str(), metadata.file_name.as_str());
    let size = human_size(metadata.file_size as u64);
    let mut message = String::new();
    push_all(&mut message, "\u{2705} <b>File uploaded successfully!</b>\n\n\u{1F4C1} <b>File:</b> ");
    push_all(&mut message, metadata.file_name.as_str());
    push_all(&mut message, "\n\u{1F4CA} <b>Size:</b> ");
    push_all(&mut message, size.as_str());
    push_all(&mut message, "\n\n\u{1F517} <b>Download Link:</b>\n<a href=\"");
    push_all(&mut message, file_domain);
    push_all(&mut message, path.as_str());
    push_all(&mut message, "\">");
    push_all(&mut message, file_domain);
    push_all(&mut message, path.as_str());
    push_all(&mut message, "</a>");
    assert(message@ =~= success_text(
        metadata@.file_name,
        human_size_text(metadata.file_size as nat),
        file_domain@ + encode_path(metadata@.unique_id, metadata@.file_name),
    ));
    store.put(metadata);
    Ok(StoredLink { path, message })
}

/// The store that committing the record gives, with the link to hand out; the
/// store itself is left as it is until the result has reached the durable mirror.
pub fn prepare_commit(store: &FileStore, metadata: FileMetadata, file_domain: &str) -> (r: Result<
    (FileStore, StoredLink),
    CommitError,
>)
    requires
        store.wf(),
    ensures
        r is Err == store@.contains_key(metadata@.unique_id),
        r matches Ok((next, link)) ==> {
            &&& next.wf()
            &&& next@ == store@.insert(metadata@.unique_id, metadata@)
            &&& link.path@ == encode_path(metadata@.unique_id, metadata@.file_name)
            &&& link.message@ == success_text(
                metadata@.file_name,
                human_size_text(metadata.file_size as nat),
                file_domain@ + encode_path(metadata@.unique_id, metadata@.file_name),
            )
        },
{
    let mut next = store.duplicate();
    match commit_artifact(&mut next, metadata, file_domain) {
        Ok(link) => Ok((next, link)),
        Err(e) => Err(e),
    }
}

} // verus!
