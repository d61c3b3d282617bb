//! The cache's decisions: which dataset a name stands for, when the local
//! copy is stale, whether to use, fetch or refuse a file, and how a corrupt
//! JSON document is reported. The filesystem and network work around these
//! decisions is done by the caller.

use vstd::prelude::*;
use std::io::Read;
use vstd::string::*;
use crate::config::{find_path, json_files, json_table, lookup, parquet_files, parquet_table, table_view};
use crate::error::MtgjsonError;
use crate::text::owned;

verus! {

#[verifier::external_type_specification]
#[verifier::external_body]
pub struct ExJsonValue(serde_json::Value);

/// The text that `str::trim` leaves of `s`.
pub uninterp spec fn trimmed(s: Seq<char>) -> Seq<char>;

/// Whether `serde_json::from_str` accepts `text` as a JSON value.
pub uninterp spec fn json_parses(text: Seq<char>) -> bool;

/// The message of the error `serde_json::from_str` gives for `text`.
pub uninterp spec fn json_error_of(text: Seq<char>) -> Seq<char>;

/// What a gzip decoder reads from `bytes`: the decompressed bytes, or
/// `None` when they are not a valid gzip stream.
pub uninterp spec fn gunzipped(bytes: Seq<u8>) -> Option<Seq<u8>>;

/// The text that `bytes` encode as UTF-8, or `None` when they are not UTF-8.
pub uninterp spec fn utf8_decoded(bytes: Seq<u8>) -> Option<Seq<char>>;

/// Relies on `str::trim`: leading and trailing whitespace removed; the
/// result depends on the text alone.
#[verifier::external_body]
fn trim_text(s: &str) -> (r: String)
    ensures
        r@ == trimmed(s@),
{
    s.trim().to_string()
}

/// Relies on `serde_json::from_str` and the `Display` of its error: whether
/// the text parses, and the message when it does not, depend on the text
/// alone.
#[verifier::external_body]
fn parse_json(text: &str) -> (r: Result<serde_json::Value, String>)
    ensures
        r is Ok <==> json_parses(text@),
        r matches Err(m) ==> m@ == json_error_of(text@),
{
    match serde_json::from_str(text) {
        Ok(v) => Ok(v),
        Err(e) => Err(e.to_string()),
    }
}

/// Relies on `flate2::read::GzDecoder` read to the end: the decompressed
/// bytes, or `None` on an invalid stream; the outcome depends on the bytes
/// alone.
#[verifier::external_body]
fn gunzip(bytes: &Vec<u8>) -> (r: Option<Vec<u8>>)
    ensures
        match r {
            Some(v) => gunzipped(bytes@) == Some(v@),
            None => gunzipped(bytes@) is None,
        },
{
    let mut out = Vec::new();
    match flate2::read::GzDecoder::new(bytes.as_slice()).read_to_end(&mut out) {
        Ok(_) => Some(out),
        Err(_) => None,
    }
}

/// Relies on `std::str::from_utf8`: the text the bytes encode, or `None`
/// when they are not UTF-8.
#[verifier::external_body]
fn decode_utf8(bytes: &Vec<u8>) -> (r: Option<String>)
    ensures
        match r {
            Some(s) => utf8_decoded(bytes@) == Some(s@),
            None => utf8_decoded(bytes@) is None,
        },
{
    match std::str::from_utf8(bytes.as_slice()) {
        Ok(s) => Some(s.to_string()),
        Err(_) => None,
    }
}

/// The two kinds of cached file.
pub enum DatasetKind {
    /// A columnar snapshot, registered as a view.
    Parquet,
    /// A JSON document, optionally gzip-compressed.
    Json,
}

#[derive(Clone, Copy, Debug, PartialEq, Eq, Structural)]
/// What to do to make a file present.
pub enum FileAction {
    /// The cached copy serves.
    UseCached,
    /// Fetch the file (to a temporary sibling, then rename it into place).
    Download,
    /// Offline and not cached: the file cannot be had.
    Missing,
}

/// Stale: no local version token, or a remote token that differs from it.
/// An unknown remote token counts as fresh.
pub open spec fn stale(local: Option<Seq<char>>, remote: Option<Seq<char>>) -> bool {
    match local {
        None => true,
        Some(l) => match remote {
            None => false,
            Some(r) => l != r,
        },
    }
}

/// The action for a file: missing or stale files are fetched, unless
/// offline, where a cached copy serves as it is and a missing one cannot be had.
pub open spec fn action(offline: bool, exists: bool, is_stale: bool) -> FileAction {
    if exists && !is_stale {
        FileAction::UseCached
    } else if offline {
        if exists { FileAction::UseCached } else { FileAction::Missing }
    } else {
        FileAction::Download
    }
}

/// The text of an optional string.
pub open spec fn opt_text(o: Option<String>) -> Option<Seq<char>> {
    match o {
        Some(s) => Some(s@),
        None => None,
    }
}

/// The table of a dataset kind.
pub open spec fn table_of(kind: DatasetKind) -> Seq<(Seq<char>, Seq<char>)> {
    match kind {
        DatasetKind::Parquet => parquet_table(),
        DatasetKind::Json => json_table(),
    }
}

/// The message for an unknown logical name.
pub open spec fn unknown_message(kind: DatasetKind, name: Seq<char>) -> Seq<char> {
    match kind {
        DatasetKind::Parquet => "Unknown parquet view: "@ + name,
        DatasetKind::Json => "Unknown JSON file: "@ + name,
    }
}

/// The message for a file that offline mode cannot fetch.
pub open spec fn offline_message(kind: DatasetKind, file: Seq<char>) -> Seq<char> {
    match kind {
        DatasetKind::Parquet => "Parquet file "@ + file + " not cached and offline mode is enabled"@,
        DatasetKind::Json => "JSON file "@ + file + " not cached and offline mode is enabled"@,
    }
}

/// The bytes of a cached document once decompressed (when `gzipped`).
pub open spec fn payload_bytes(bytes: Seq<u8>, gzipped: bool) -> Option<Seq<u8>> {
    if gzipped { gunzipped(bytes) } else { Some(bytes) }
}

/// The text of a cached document, when its bytes decompress and decode.
pub open spec fn payload_text(bytes: Seq<u8>, gzipped: bool) -> Option<Seq<char>> {
    match payload_bytes(bytes, gzipped) {
        Some(b) => utf8_decoded(b),
        None => None,
    }
}

/// Why a cached document is corrupt: it does not decompress, does not
/// decode, or does not parse.
pub open spec fn corrupt_detail(bytes: Seq<u8>, gzipped: bool) -> Seq<char> {
    match payload_bytes(bytes, gzipped) {
        None => "IO error: invalid gzip data"@,
        Some(b) => match utf8_decoded(b) {
            None => "IO error: stream did not contain valid UTF-8"@,
            Some(t) => "JSON error: "@ + json_error_of(t),
        },
    }
}

/// The message for a corrupt JSON document that was removed.
pub open spec fn corrupt_message(file: Seq<char>, detail: Seq<char>) -> Seq<char> {
    "Cache file '"@ + file + "' was corrupt and has been removed. Retry to re-download. Original error: "@ + detail
}

#[derive(Clone, Debug)]
/// The session's cache settings and the remote version token once known.
pub struct CacheState {
    /// Directory of the cached files.
    pub cache_dir: String,
    /// Never fetch; use cached files only.
    pub offline: bool,
    /// The remote version token once this session has learnt it.
    pub remote_ver: Option<String>,
}

#[derive(Clone, Debug, PartialEq)]
/// What a remote version lookup needs.
pub enum RemoteCheck {
    /// The token is known for this session.
    Known(String),
    /// Offline: the token cannot be had and nothing is fetched.
    Unavailable,
    /// Fetch the metadata document.
    Fetch,
}

impl CacheState {
    /// The remote version token that this session has recorded.
    pub open spec fn remote(&self) -> Option<Seq<char>> {
        opt_text(self.remote_ver)
    }

    /// A cache rooted at `cache_dir` with no remote token known yet.
    pub fn new(cache_dir: String, offline: bool) -> (r: CacheState)
        ensures
            r.cache_dir == cache_dir,
            r.offline == offline,
            r.remote() is None,
    {
        CacheState { cache_dir, offline, remote_ver: None }
    }

    /// What finding the remote version token takes: a token recorded in this
    /// session is reused; offline, none is sought.
    pub fn remote_check(&self) -> (r: RemoteCheck)
        ensures
            self.remote() matches Some(v) ==> (r matches RemoteCheck::Known(s) && s@ == v),
            self.remote() is None && self.offline ==> r is Unavailable,
            self.remote() is None && !self.offline ==> r is Fetch,
    {
        match &self.remote_ver {
            Some(v) => RemoteCheck::Known(v.clone()),
            None => if self.offline { RemoteCheck::Unavailable } else { RemoteCheck::Fetch },
        }
    }

    /// Records the outcome of fetching the metadata document: `None` when
    /// the transfer failed (nothing is recorded, a later lookup tries again),
    /// else the tokens found under `data.version` and `meta.version`. The
    /// first of these present is the remote token, recorded for the session.
    pub fn record_fetch(&mut self, fetched: Option<(Option<String>, Option<String>)>) -> (r: Option<String>)
        ensures
            final(self).cache_dir == old(self).cache_dir,
            final(self).offline == old(self).offline,
            fetched is None ==> r is None && final(self).remote() == old(self).remote(),
            fetched matches Some((d, m)) ==> opt_text(r) == (if d is Some { opt_text(d) } else { opt_text(m) })
                && final(self).remote() == opt_text(r),
    {
        match fetched {
            None => None,
            Some((data_version, meta_version)) => {
                let v = match data_version {
                    Some(d) => Some(d),
                    None => meta_version,
                };
                self.remote_ver = match &v {
                    Some(s) => Some(s.clone()),
                    None => None,
                };
                v
            }
        }
    }

    /// What to do to make a file present, given whether it is cached and
    /// whether the cache is stale.
    pub fn ensure_action(&self, exists: bool, is_stale: bool) -> (r: FileAction)
        ensures
            r == action(self.offline, exists, is_stale),
    {
        if exists && !is_stale {
            FileAction::UseCached
        } else if self.offline {
            if exists { FileAction::UseCached } else { FileAction::Missing }
        } else {
            FileAction::Download
        }
    }
}

/// Whether the cache is stale, given the local token and the remote one
/// (`None` when it could not be had).
pub fn staleness(local: &Option<String>, remote: &Option<String>) -> (r: bool)
    ensures
        r == stale(opt_text(*local), opt_text(*remote)),
{
    match local {
        None => true,
        Some(l) => match remote {
            None => false,
            Some(rv) => !(*l == *rv),
        },
    }
}

/// The local version token from the contents of `version.txt` (`None`
/// when the file is absent or unreadable), without surrounding whitespace.
pub fn local_version_from(contents: Option<String>) -> (r: Option<String>)
    ensures
        contents is None ==> r is None,
        contents matches Some(c) ==> (r matches Some(v) && v@ == trimmed(c@)),
{
    match contents {
        None => None,
        Some(c) => Some(trim_text(c.as_str())),
    }
}

/// The relative path of the dataset `name` of the given kind; an unknown
/// name is a not-found error.
pub fn dataset_path(kind: &DatasetKind, name: &str) -> (r: Result<&'static str, MtgjsonError>)
    ensures
        r matches Ok(p) ==> lookup(table_of(*kind), name@) == Some(p@),
        r is Err <==> lookup(table_of(*kind), name@) is None,
        r matches Err(e) ==> (e matches MtgjsonError::NotFound(m) && m@ == unknown_message(*kind, name@)),
{
    let table = match kind {
        DatasetKind::Parquet => parquet_files(),
        DatasetKind::Json => json_files(),
    };
    match find_path(&table, name) {
        Some(p) => Ok(p),
        None => {
            let mut m = match kind {
                DatasetKind::Parquet => owned("Unknown parquet view: "),
                DatasetKind::Json => owned("Unknown JSON file: "),
            };
            m.append(name);
            Err(MtgjsonError::NotFound(m))
        }
    }
}

/// `base/relative`: a dataset's location under a root (the CDN or the cache
/// directory).
pub fn join_path(base: &str, relative: &str) -> (r: String)
    ensures
        r@ == base@ + seq!['/'] + relative@,
{
    let mut r = owned(base);
    crate::text::push_char(&mut r, '/');
    r.append(relative);
    r
}

/// The temporary sibling a download is written to before it is renamed.
pub fn temp_path(dest: &str) -> (r: String)
    ensures
        r@ == dest@ + ".tmp"@,
{
    owned(dest).concat(".tmp")
}

/// Whether a cached file is gzip-compressed, by its `.gz` extension.
pub fn is_gzip(path: &str) -> (r: bool)
    ensures
        r == (path@.len() >= 3 && path@.subrange(path@.len() - 3, path@.len() as int) == seq!['.', 'g', 'z']),
{
    let n = path.unicode_len();
    if n < 3 {
        return false;
    }
    let r = path.get_char(n - 3) == '.' && path.get_char(n - 2) == 'g' && path.get_char(n - 1) == 'z';
    assert(path@.subrange(n - 3, n as int) =~= seq![path@[n - 3], path@[n - 2], path@[n - 1]]);
    r
}

/// The error for a file that offline mode cannot fetch.
pub fn offline_missing(kind: &DatasetKind, file: &str) -> (r: MtgjsonError)
    ensures
        r matches MtgjsonError::NotFound(m) && m@ == offline_message(*kind, file@),
{
    let mut m = match kind {
        DatasetKind::Parquet => owned("Parquet file "),
        DatasetKind::Json => owned("JSON file "),
    };
    m.append(file);
    m.append(" not cached and offline mode is enabled");
    MtgjsonError::NotFound(m)
}

/// Reads a cached JSON document from the bytes of `file` (gzip-compressed
/// when `gzipped`). A document that does not decompress, is not UTF-8 or
/// does not parse is corrupt: the error is a retryable not-found naming the
/// file and the cause, and the caller removes the file so that the next load
/// fetches it afresh.
pub fn parse_cached(file: &str, bytes: &Vec<u8>, gzipped: bool) -> (r: Result<serde_json::Value, MtgjsonError>)
    ensures
        r is Ok <==> (payload_text(bytes@, gzipped) matches Some(t) && json_parses(t)),
        r matches Err(e) ==> (e matches MtgjsonError::NotFound(m) && m@ == corrupt_message(file@, corrupt_detail(bytes@, gzipped))),
{
    let outcome = if gzipped {
        match gunzip(bytes) {
            None => Err(owned("IO error: invalid gzip data")),
            Some(raw) => read_text(&raw),
        }
    } else {
        read_text(bytes)
    };
    match outcome {
        Ok(v) => Ok(v),
        Err(detail) => {
            let mut m = owned("Cache file '");
            m.append(file);
            m.append("' was corrupt and has been removed. Retry to re-download. Original error: ");
            m.append(detail.as_str());
            Err(MtgjsonError::NotFound(m))
        }
    }
}

/// Decodes and parses the bytes of a document; on failure, why.
fn read_text(raw: &Vec<u8>) -> (r: Result<serde_json::Value, String>)
    ensures
        r is Ok <==> (utf8_decoded(raw@) matches Some(t) && json_parses(t)),
        r matches Err(d) ==> d@ == (match utf8_decoded(raw@) {
            None => "IO error: stream did not contain valid UTF-8"@,
            Some(t) => "JSON error: "@ + json_error_of(t),
        }),
{
    match decode_utf8(raw) {
        None => Err(owned("IO error: stream did not contain valid UTF-8")),
        Some(text) => match parse_json(text.as_str()) {
            Ok(v) => Ok(v),
            Err(e) => Err(owned("JSON error: ").concat(e.as_str())),
        },
    }
}

/// The cache as the decisions see it: the files present, the local version
/// token, the mode, and the remote token of the session.
pub ghost struct CacheModel {
    pub files: Set<Seq<char>>,
    pub local_version: Option<Seq<char>>,
    pub offline: bool,
    pub remote: Option<Seq<char>>,
}

/// The action that ensuring `file` takes in `m`.
pub open spec fn model_action(m: CacheModel, file: Seq<char>) -> FileAction {
    action(m.offline, m.files.contains(file), stale(m.local_version, m.remote))
}

/// The cache after ensuring `file` with a successful download where one is
/// needed: the file is present and the remote token, when known, becomes
/// the local one.
pub open spec fn after_ensure(m: CacheModel, file: Seq<char>) -> CacheModel {
    match model_action(m, file) {
        FileAction::Download => CacheModel {
            files: m.files.insert(file),
            local_version: if m.remote is Some { m.remote } else { m.local_version },
            ..m
        },
        _ => m,
    }
}

/// The cache after it was cleared: no files, no local token.
pub open spec fn cleared(m: CacheModel) -> CacheModel {
    CacheModel { files: Set::empty(), local_version: None, ..m }
}

/// The cache after a corrupt `file` was removed.
pub open spec fn without_file(m: CacheModel, file: Seq<char>) -> CacheModel {
    CacheModel { files: m.files.remove(file), ..m }
}

/// Clearing the cache, then ensuring a file while online with a known
/// remote token, downloads it once; the local token becomes the remote one,
/// and ensuring the file again uses the cached copy.
pub proof fn lemma_clear_then_ensure(m: CacheModel, file: Seq<char>)
    requires
        !m.offline,
        m.remote is Some,
    ensures
        model_action(cleared(m), file) == FileAction::Download,
        after_ensure(cleared(m), file).local_version == m.remote,
        after_ensure(cleared(m), file).files.contains(file),
        model_action(after_ensure(cleared(m), file), file) == FileAction::UseCached,
{
}

/// A corrupt file that was removed is fetched afresh by the next load when
/// online, and cannot be had when offline.
pub proof fn lemma_corrupt_then_reload(m: CacheModel, file: Seq<char>)
    ensures
        !m.offline ==> model_action(without_file(m, file), file) == FileAction::Download,
        !m.offline ==> after_ensure(without_file(m, file), file).files.contains(file),
        m.offline ==> model_action(without_file(m, file), file) == FileAction::Missing,
{
}

/// Without a local token the cache is stale; with a token equal to the
/// remote one it is fresh; with the remote token unknown it counts as fresh.
pub proof fn lemma_staleness_defaults(local: Seq<char>, remote: Option<Seq<char>>)
    ensures
        stale(None, remote),
        !stale(Some(local), Some(local)),
        !stale(Some(local), None),
{
}

} // verus!
