//! Uploading a pet to the server with hash skipping: the errors and whether
//! they are worth retrying, the SHA-256 fingerprints of the files, what is
//! sent, and how the answers of the hash-only phase and of the full upload
//! are read.
use sha2::Digest;
use vstd::prelude::*;

use crate::pet::{PetLoadError, PetManifest};
use crate::state::RuntimeState;
use crate::text::{
    decimal, decimal_exec, ends_with_exec, has_suffix, hex_lower2, hex_lower2_exec, owned,
    push_str, str_eq, trim, trim_end_char, trim_end_matches_char, trim_seq,
};

verus! {

#[derive(Debug, Clone, PartialEq, Eq)]
pub enum UploadError {
    /// The pet (`<source>:<id>`) is not installed.
    PetNotInstalled(String),
    /// A file could not be read (the error's text).
    Io(String),
    /// The request failed (the error's text).
    Http(String),
    /// The server refused the request.
    Server { status: u16, body: String },
}

pub open spec fn upload_error_text(e: UploadError) -> Seq<char> {
    match e {
        UploadError::PetNotInstalled(id) => "pet '"@ + id@
            + "' is not installed under ~/.eggs/pets/ or ~/.codex/pets/ (use `eggs install <dir>` or hatch-pet)"@,
        UploadError::Io(t) => "io error: "@ + t@,
        UploadError::Http(t) => "http error: "@ + t@,
        UploadError::Server { status, body } => if body@.len() == 0 {
            "server returned HTTP "@ + decimal(status as nat)
        } else {
            "server returned HTTP "@ + decimal(status as nat) + ": "@ + body@
        },
    }
}

/// Client errors that a retry cannot fix.
pub open spec fn is_client_refusal(status: u16) -> bool {
    status == 400 || status == 401 || status == 403 || status == 404 || status == 409 || status
        == 422
}

pub open spec fn retryable_spec(e: UploadError) -> bool {
    match e {
        UploadError::Http(_) => true,
        UploadError::Io(_) => false,
        UploadError::PetNotInstalled(_) => false,
        UploadError::Server { status, .. } => !is_client_refusal(status),
    }
}

impl UploadError {
    /// The message shown for the error.
    pub fn message(&self) -> (r: String)
        ensures
            r@ == upload_error_text(*self),
    {
        match self {
            UploadError::PetNotInstalled(id) => {
                let mut s = owned("pet '");
                push_str(&mut s, id.as_str());
                push_str(
                    &mut s,
                    "' is not installed under ~/.eggs/pets/ or ~/.codex/pets/ (use `eggs install <dir>` or hatch-pet)",
                );
                s
            },
            UploadError::Io(t) => {
                let mut s = owned("io error: ");
                push_str(&mut s, t.as_str());
                s
            },
            UploadError::Http(t) => {
                let mut s = owned("http error: ");
                push_str(&mut s, t.as_str());
                s
            },
            UploadError::Server { status, body } => {
                let mut s = owned("server returned HTTP ");
                let d = decimal_exec(*status as u64);
                push_str(&mut s, d.as_str());
                if !body.as_str().is_empty() {
                    push_str(&mut s, ": ");
                    push_str(&mut s, body.as_str());
                }
                s
            },
        }
    }

    /// Network failures and server errors are retried; a missing pet, a
    /// file that cannot be read and the server's refusals (400, 401, 403,
    /// 404, 409, 422) are not.
    pub fn is_retryable(&self) -> (r: bool)
        ensures
            r == retryable_spec(*self),
    {
        match self {
            UploadError::Http(_) => true,
            UploadError::Io(_) => false,
            UploadError::PetNotInstalled(_) => false,
            UploadError::Server { status, .. } => !(*status == 400 || *status == 401 || *status
                == 403 || *status == 404 || *status == 409 || *status == 422),
        }
    }
}

#[derive(Debug, Clone, Copy, PartialEq, Eq, Structural)]
pub enum UploadMode {
    /// The server already had this pet for the device; nothing was done.
    Reused,
    /// The server had the files (uploaded by anyone) and registered them.
    HashRegistered,
    /// The files were sent.
    BytesUploaded,
}

#[derive(Debug, Clone)]
pub struct UploadOutcome {
    pub sprite_id: String,
    pub mode: UploadMode,
}

// ---------------------------------------------------------------------------
// switching pets while remote play is on
// ---------------------------------------------------------------------------

pub open spec fn switch_failed_text(id: Seq<char>, e: UploadError) -> Seq<char> {
    "remote sprite upload failed for '"@ + id + "': "@ + upload_error_text(e)
}

/// Switches the active pet to `id`, from the source `source` when one is
/// named. While remote play is on, the pet is uploaded first (`upload` is
/// how that went) and the switch is refused when the upload failed, so
/// that the local pet and what the peers see change together; with remote
/// play off no upload is made and `upload` is not looked at.
pub fn switch_pet(
    current: RuntimeState,
    id: &str,
    source: Option<&str>,
    remote_enabled: bool,
    upload: Result<(), UploadError>,
) -> (r: Result<RuntimeState, String>)
    ensures
        r is Ok <==> (!remote_enabled || upload is Ok),
        r matches Ok(s) ==> s == (RuntimeState { pet: s.pet, pet_source: s.pet_source, ..current })
            && s.pet@ == id@ && opt_seq(s.pet_source) == (match source {
            Some(src) => Some(src@),
            None => None,
        }),
        r matches Err(m) ==> upload matches Err(e) && m@ == switch_failed_text(id@, e),
{
    if remote_enabled {
        if let Err(e) = upload {
            let mut m = owned("remote sprite upload failed for '");
            push_str(&mut m, id);
            push_str(&mut m, "': ");
            let t = e.message();
            push_str(&mut m, t.as_str());
            return Err(m);
        }
    }
    match source {
        Some(src) => Ok(crate::state::set_pet_exact(current, src, id)),
        None => Ok(crate::state::set_pet(current, id)),
    }
}

/// The source a pet is uploaded under: the one saved with it in the state
/// when `pet` is the active pet and a source was named, else the source it
/// is listed with (`preferred`), else `local`.
pub fn upload_source(state: &RuntimeState, pet: &str, preferred: Option<String>) -> (r: String)
    ensures
        r@ == (match state.pet_source {
            Some(s) if state.pet@ == pet@ => s@,
            _ => match preferred {
                Some(p) => p@,
                None => "local"@,
            },
        }),
{
    if str_eq(state.pet.as_str(), pet) {
        if let Some(s) = &state.pet_source {
            return s.clone();
        }
    }
    match preferred {
        Some(p) => p,
        None => owned("local"),
    }
}

// ---------------------------------------------------------------------------
// fingerprints
// ---------------------------------------------------------------------------

/// The SHA-256 digest of some bytes.
pub uninterp spec fn sha256(data: Seq<u8>) -> Seq<u8>;

/// `sha2::Sha256::digest`. The digest is named; the contract states its
/// length (the output size of SHA-256) and nothing more.
#[verifier::external_body]
fn sha256_digest(data: &[u8]) -> (r: Vec<u8>)
    ensures
        r@ == sha256(data@),
        r@.len() == 32,
{
    sha2::Sha256::digest(data).to_vec()
}

/// Bytes as lower-case hex, two digits each.
pub open spec fn hex_bytes(b: Seq<u8>) -> Seq<char>
    decreases b.len(),
{
    if b.len() == 0 {
        Seq::empty()
    } else {
        hex_bytes(b.drop_last()) + hex_lower2(b.last() as nat)
    }
}

pub fn hex_encode(bytes: &Vec<u8>) -> (r: String)
    ensures
        r@ == hex_bytes(bytes@),
{
    let mut s = String::new();
    let mut i: usize = 0;
    while i < bytes.len()
        invariant
            i <= bytes@.len(),
            s@ == hex_bytes(bytes@.take(i as int)),
        decreases bytes.len() - i,
    {
        let h = hex_lower2_exec(bytes[i] as u64);
        push_str(&mut s, h.as_str());
        assert(bytes@.take(i + 1).drop_last() =~= bytes@.take(i as int));
        i += 1;
    }
    assert(bytes@.take(bytes@.len() as int) =~= bytes@);
    s
}

/// The SHA-256 fingerprint of some bytes, as the server expects it.
pub fn sha256_hex(data: &[u8]) -> (r: String)
    ensures
        r@ == hex_bytes(sha256(data@)),
        r@.len() == 64,
{
    let d = sha256_digest(data);
    proof {
        law_hex_length(d@);
    }
    hex_encode(&d)
}

/// Hex takes two digits per byte, all of them lower-case hex digits.
pub proof fn law_hex_length(b: Seq<u8>)
    ensures
        hex_bytes(b).len() == 2 * b.len(),
        forall|i: int|
            0 <= i < hex_bytes(b).len() ==> crate::client::is_lower_hex(#[trigger] hex_bytes(b)[i]),
    decreases b.len(),
{
    if b.len() > 0 {
        law_hex_length(b.drop_last());
        let n = b.last() as nat;
        let pre = hex_bytes(b.drop_last());
        let h = hex_lower2(n);
        if n < 16 {
            assert(h.len() == 2);
        } else {
            assert(n / 16 < 16);
            assert((n / 16) % 16 == n / 16);
            assert(h == crate::text::digits(n, 16, false));
            assert(crate::text::digits(n, 16, false) == crate::text::digits(n / 16, 16, false).push(
                digit_char_of(n % 16),
            ));
            assert(crate::text::digits(n / 16, 16, false) == seq![digit_char_of(n / 16)]);
            assert(h =~= seq![digit_char_of(n / 16), digit_char_of(n % 16)]);
        }
        assert forall|i: int| 0 <= i < (pre + h).len() implies crate::client::is_lower_hex(
            #[trigger] (pre + h)[i],
        ) by {
            if i >= pre.len() {
                let k = i - pre.len();
                assert((pre + h)[i] == h[k]);
            }
        }
    }
}

pub open spec fn digit_char_of(d: nat) -> char {
    crate::text::digit_char(d, false)
}

// ---------------------------------------------------------------------------
// what is uploaded
// ---------------------------------------------------------------------------

/// What `std::path::Path::parent` gives for a path.
pub uninterp spec fn path_parent(p: Seq<char>) -> Option<Seq<char>>;

/// `std::path::Path::parent`, as a string. The contract names the result
/// and says nothing more of it.
#[verifier::external_body]
fn parent_of(p: &str) -> (r: Option<String>)
    ensures
        opt_seq(r) == path_parent(p@),
{
    std::path::Path::new(p).parent().map(|d| d.to_string_lossy().to_string())
}

/// What `std::path::Path::file_name` gives for a path, when it is valid
/// UTF-8.
pub uninterp spec fn path_file_name(p: Seq<char>) -> Option<Seq<char>>;

/// `std::path::Path::file_name`, as a string. The contract names the
/// result and says nothing more of it.
#[verifier::external_body]
pub(crate) fn file_name_of(p: &str) -> (r: Option<String>)
    ensures
        opt_seq(r) == path_file_name(p@),
{
    std::path::Path::new(p).file_name().and_then(|n| n.to_str()).map(|n| n.to_string())
}

pub open spec fn opt_seq(o: Option<String>) -> Option<Seq<char>> {
    match o {
        Some(s) => Some(s@),
        None => None,
    }
}

/// The files of an installed pet that are uploaded.
#[derive(Debug, Clone)]
pub struct UploadFiles {
    pub sheet_path: String,
    pub manifest_path: String,
    /// The name shown for the pet: its display name, or its id.
    pub display_name: String,
    /// The file name the spritesheet is sent under.
    pub sheet_filename: String,
}

pub open spec fn not_installed_spec(pet_id: Seq<char>, source_kind: Seq<char>) -> Seq<char> {
    source_kind + ":"@ + pet_id
}

fn not_installed(pet_id: &str, source_kind: &str) -> (r: UploadError)
    ensures
        r matches UploadError::PetNotInstalled(t) && t@ == not_installed_spec(pet_id@, source_kind@),
{
    let mut s = owned(source_kind);
    push_str(&mut s, ":");
    push_str(&mut s, pet_id);
    UploadError::PetNotInstalled(s)
}

pub open spec fn upload_files_spec(
    pet_id: Seq<char>,
    source_kind: Seq<char>,
    loaded: Result<PetManifest, PetLoadError>,
    r: Result<UploadFiles, UploadError>,
) -> bool {
    let missing = r matches Err(UploadError::PetNotInstalled(t)) && t@ == not_installed_spec(
        pet_id,
        source_kind,
    );
    match loaded {
        Err(_) => missing,
        Ok(m) => match m.spritesheet_abs {
            None => missing,
            Some(sheet) => match path_parent(sheet@) {
                None => missing,
                Some(dir) => r matches Ok(f) && {
                    &&& f.sheet_path@ == sheet@
                    &&& f.manifest_path@ == (match m.manifest_abs {
                        Some(p) => p@,
                        None => crate::text::path_join(dir, "pet.json"@),
                    })
                    &&& f.display_name@ == (if m.display_name@.len() == 0 {
                        pet_id
                    } else {
                        m.display_name@
                    })
                    &&& f.sheet_filename@ == (match path_file_name(sheet@) {
                        Some(n) => n,
                        None => "spritesheet.webp"@,
                    })
                },
            },
        },
    }
}

/// The files to upload for pet `pet_id` of source `source_kind`, from the
/// result of loading it: a pet that does not load, has no spritesheet, or
/// whose spritesheet has no parent directory is not installed.
pub fn upload_files(
    pet_id: &str,
    source_kind: &str,
    loaded: Result<PetManifest, PetLoadError>,
) -> (r: Result<UploadFiles, UploadError>)
    ensures
        upload_files_spec(pet_id@, source_kind@, loaded, r),
{
    let m = match loaded {
        Ok(m) => m,
        Err(_) => {
            return Err(not_installed(pet_id, source_kind));
        },
    };
    let sheet = match &m.spritesheet_abs {
        Some(s) => s.clone(),
        None => {
            return Err(not_installed(pet_id, source_kind));
        },
    };
    let dir = match parent_of(sheet.as_str()) {
        Some(d) => d,
        None => {
            return Err(not_installed(pet_id, source_kind));
        },
    };
    let manifest_path = match &m.manifest_abs {
        Some(p) => p.clone(),
        None => crate::text::join_path(dir.as_str(), "pet.json"),
    };
    let display_name = if m.display_name.as_str().is_empty() {
        owned(pet_id)
    } else {
        m.display_name.clone()
    };
    let sheet_filename = match file_name_of(sheet.as_str()) {
        Some(n) => n,
        None => owned("spritesheet.webp"),
    };
    Ok(UploadFiles { sheet_path: sheet, manifest_path, display_name, sheet_filename })
}

/// The upload endpoint of a server.
pub fn sprites_endpoint(server_url: &str) -> (r: String)
    ensures
        r@ == trim_end_char(server_url@, '/') + "/api/v1/sprites"@,
{
    let mut s = trim_end_matches_char(server_url, '/');
    push_str(&mut s, "/api/v1/sprites");
    s
}

/// The content type the spritesheet is sent with.
pub fn sheet_mime(filename: &str) -> (r: &'static str)
    ensures
        r@ == (if has_suffix(filename@, ".png"@) {
            "image/png"@
        } else {
            "image/webp"@
        }),
{
    if ends_with_exec(filename, ".png") {
        "image/png"
    } else {
        "image/webp"
    }
}

// ---------------------------------------------------------------------------
// the server's answers
// ---------------------------------------------------------------------------

/// What is read of the body of an answer: the sprite record's id (or the
/// text of the error reading it), the list of missing files, or the text.
pub enum AnswerBody {
    Record(Result<String, String>),
    Missing(Vec<String>),
    Text(String),
}

/// Which body to read of an answer to the hash-only phase.
pub enum BodyRead {
    Record,
    Missing,
    Text,
}

pub fn phase_one_body(status: u16) -> (r: BodyRead)
    ensures
        r == (if status == 200 || status == 201 {
            BodyRead::Record
        } else if status == 404 {
            BodyRead::Missing
        } else {
            BodyRead::Text
        }),
{
    if status == 200 || status == 201 {
        BodyRead::Record
    } else if status == 404 {
        BodyRead::Missing
    } else {
        BodyRead::Text
    }
}

pub open spec fn record_result(
    body: AnswerBody,
    mode: UploadMode,
    r: Result<Option<UploadOutcome>, UploadError>,
) -> bool {
    match body {
        AnswerBody::Record(Ok(id)) => r matches Ok(Some(o)) && o.sprite_id == id && o.mode == mode,
        AnswerBody::Record(Err(e)) => r matches Err(UploadError::Http(t)) && t == e,
        _ => false,
    }
}

/// The answer to the hash-only phase: 200 reuses the pet the server has for
/// the device, 201 registers files the server already has, 404 with a list
/// of missing files asks for the full upload (`None`), and anything else is
/// an error carrying the trimmed body.
pub open spec fn phase_one_spec(status: u16, body: AnswerBody, r: Result<Option<UploadOutcome>, UploadError>) -> bool {
    if status == 200 {
        record_result(body, UploadMode::Reused, r)
    } else if status == 201 {
        record_result(body, UploadMode::HashRegistered, r)
    } else if status == 404 {
        match body {
            AnswerBody::Missing(items) => if items@.len() == 0 {
                r matches Err(UploadError::Server { status: s, body: b }) && s == 404 && b@
                    == "missing-blobs response had empty list"@
            } else {
                r matches Ok(None)
            },
            _ => false,
        }
    } else {
        match body {
            AnswerBody::Text(t) => r matches Err(UploadError::Server { status: s, body: b }) && s
                == status && b@ == trim_seq(t@),
            _ => false,
        }
    }
}

fn record_outcome(body: AnswerBody, mode: UploadMode) -> (r: Result<Option<UploadOutcome>, UploadError>)
    requires
        body is Record,
    ensures
        record_result(body, mode, r),
{
    match body {
        AnswerBody::Record(Ok(id)) => Ok(Some(UploadOutcome { sprite_id: id, mode })),
        AnswerBody::Record(Err(e)) => Err(UploadError::Http(e)),
        _ => Err(UploadError::Io(String::new())),
    }
}

pub fn phase_one_outcome(status: u16, body: AnswerBody) -> (r: Result<Option<UploadOutcome>, UploadError>)
    requires
        body is Record <==> (status == 200 || status == 201),
        body is Missing <==> status == 404,
    ensures
        phase_one_spec(status, body, r),
{
    if status == 200 {
        record_outcome(body, UploadMode::Reused)
    } else if status == 201 {
        record_outcome(body, UploadMode::HashRegistered)
    } else if status == 404 {
        match body {
            AnswerBody::Missing(items) => {
                if items.len() == 0 {
                    Err(
                        UploadError::Server {
                            status: 404,
                            body: owned("missing-blobs response had empty list"),
                        },
                    )
                } else {
                    Ok(None)
                }
            },
            _ => Ok(None),
        }
    } else {
        match body {
            AnswerBody::Text(t) => Err(UploadError::Server { status, body: trim(t.as_str()) }),
            _ => Ok(None),
        }
    }
}

pub open spec fn is_success(status: u16) -> bool {
    200 <= status <= 299
}

/// The answer to the full upload: a success status with the sprite record
/// (200 means the server reused an existing entry), or an error carrying
/// the trimmed body.
pub open spec fn phase_two_spec(status: u16, body: AnswerBody, r: Result<UploadOutcome, UploadError>) -> bool {
    if !is_success(status) {
        match body {
            AnswerBody::Text(t) => r matches Err(UploadError::Server { status: s, body: b }) && s
                == status && b@ == trim_seq(t@),
            _ => false,
        }
    } else {
        match body {
            AnswerBody::Record(Ok(id)) => r matches Ok(o) && o.sprite_id == id && o.mode == (if status
                == 200 {
                UploadMode::Reused
            } else {
                UploadMode::BytesUploaded
            }),
            AnswerBody::Record(Err(e)) => r matches Err(UploadError::Http(t)) && t == e,
            _ => false,
        }
    }
}

/// Which body to read of an answer to the full upload.
pub fn phase_two_body(status: u16) -> (r: BodyRead)
    ensures
        r == (if is_success(status) {
            BodyRead::Record
        } else {
            BodyRead::Text
        }),
{
    if 200 <= status && status <= 299 {
        BodyRead::Record
    } else {
        BodyRead::Text
    }
}

pub fn phase_two_outcome(status: u16, body: AnswerBody) -> (r: Result<UploadOutcome, UploadError>)
    requires
        body is Record <==> is_success(status),
        body is Text <==> !is_success(status),
    ensures
        phase_two_spec(status, body, r),
{
    match body {
        AnswerBody::Text(t) => Err(UploadError::Server { status, body: trim(t.as_str()) }),
        AnswerBody::Record(Ok(id)) => Ok(
            UploadOutcome {
                sprite_id: id,
                mode: if status == 200 {
                    UploadMode::Reused
                } else {
                    UploadMode::BytesUploaded
                },
            },
        ),
        AnswerBody::Record(Err(e)) => Err(UploadError::Http(e)),
        AnswerBody::Missing(_) => Err(UploadError::Io(String::new())),
    }
}

} // verus!
