//! Checks on encrypted media uploads, and the names they are stored under.

use vstd::prelude::*;

use crate::clock::random_uuid;
use crate::text::same_text;

verus! {

/// Largest accepted upload, in bytes (50 MiB).
pub const MAX_FILE_SIZE: u64 = 52428800;

/// Longest accepted recording, in seconds (10 minutes).
pub const MAX_DURATION: u64 = 600;

/// How long a stored file is kept, in seconds (7 days).
pub const FILE_RETENTION_SECS: u64 = 604800;

/// The text fields of a media upload form, each as sent, if sent.
#[derive(Clone, Debug)]
pub struct UploadFields {
    pub conversation_id: Option<String>,
    pub media_type: Option<String>,
    pub duration: Option<String>,
    pub encrypted_keys: Option<String>,
    pub nonce: Option<String>,
}

/// A checked media upload form.
#[derive(Clone, Debug)]
pub struct UploadMediaForm {
    pub conversation_id: String,
    /// `audio` or `video`.
    pub media_type: String,
    /// In seconds, from 1 to `MAX_DURATION`.
    pub duration: u64,
    /// JSON text, opaque here.
    pub encrypted_keys: String,
    /// JSON text, opaque here.
    pub nonce: String,
}

/// The reply to an upload.
#[derive(Clone, Debug)]
pub struct UploadResponse {
    pub success: bool,
    pub url: Option<String>,
    pub message_id: Option<String>,
    pub file_path: Option<String>,
    pub encrypted_keys: Option<String>,
    pub nonce: Option<String>,
}

/// The body of an error reply.
#[derive(Clone, Debug)]
pub struct ErrorResponse {
    pub error: String,
}

#[derive(Clone, Copy, Debug, PartialEq, Eq, Structural)]
pub enum UploadError {
    /// A field is missing or malformed.
    BadRequest,
    /// The file is larger than `MAX_FILE_SIZE`.
    PayloadTooLarge,
}

pub open spec fn is_digit(c: char) -> bool {
    '0' <= c && c <= '9'
}

/// The number that the decimal digits `s` write.
pub open spec fn digits_value(s: Seq<char>) -> nat
    decreases s.len(),
{
    if s.len() == 0 {
        0
    } else {
        digits_value(s.drop_last()) * 10 + (s.last() as nat - '0' as nat) as nat
    }
}

/// `s` without its leading `+`, if it has one.
pub open spec fn unsigned_part(s: Seq<char>) -> Seq<char> {
    if s.len() > 0 && s[0] == '+' {
        s.drop_first()
    } else {
        s
    }
}

/// Whether `d` is one digit or more.
pub open spec fn all_digits(d: Seq<char>) -> bool {
    d.len() > 0 && forall|i: int| 0 <= i < d.len() ==> is_digit(#[trigger] d[i])
}

/// The unsigned decimal integer written by `s`, as `str::parse::<u64>`
/// reads it: an optional `+`, then one digit or more, the value fitting in
/// 64 bits.
pub open spec fn decimal_u64(s: Seq<char>) -> Option<u64> {
    if all_digits(unsigned_part(s)) && digits_value(unsigned_part(s)) <= u64::MAX {
        Some(digits_value(unsigned_part(s)) as u64)
    } else {
        None
    }
}

/// Whether `t` names an accepted kind of media.
pub open spec fn media_kind(t: Seq<char>) -> bool {
    t == "audio"@ || t == "video"@
}

/// Whether a duration of `d` seconds is accepted.
pub open spec fn duration_ok(d: u64) -> bool {
    1 <= d && d <= MAX_DURATION
}

/// Whether `f` holds every field, an accepted kind of media and an accepted
/// duration.
pub open spec fn form_ok(f: UploadFields) -> bool {
    &&& f.conversation_id is Some
    &&& f.media_type is Some
    &&& f.duration is Some
    &&& f.encrypted_keys is Some
    &&& f.nonce is Some
    &&& media_kind(f.media_type->0@)
    &&& decimal_u64(f.duration->0@) matches Some(d) && duration_ok(d)
}

proof fn lemma_digits_step(s: Seq<char>, i: int)
    requires
        0 <= i < s.len(),
    ensures
        digits_value(s.subrange(0, i + 1)) == digits_value(s.subrange(0, i)) * 10 + (s[i] as nat
            - '0' as nat) as nat,
{
    assert(s.subrange(0, i + 1).drop_last() =~= s.subrange(0, i));
}

proof fn lemma_digits_grow(s: Seq<char>, i: int)
    requires
        0 <= i < s.len(),
        forall|j: int| 0 <= j < s.len() ==> is_digit(#[trigger] s[j]),
    ensures
        digits_value(s.subrange(0, i)) <= digits_value(s.subrange(0, i + 1)),
        digits_value(s.subrange(0, i + 1)) <= digits_value(s),
    decreases s.len() - i,
{
    lemma_digits_step(s, i);
    if i + 1 < s.len() {
        lemma_digits_grow(s, i + 1);
    } else {
        assert(s.subrange(0, i + 1) =~= s);
    }
}

/// Reads an unsigned decimal integer.
pub fn parse_u64(s: &str) -> (r: Option<u64>)
    ensures
        r == decimal_u64(s@),
{
    let n = s.unicode_len();
    let mut start: usize = 0;
    if n > 0 && s.get_char(0) == '+' {
        start = 1;
    }
    let ghost d = unsigned_part(s@);
    assert(d =~= s@.subrange(start as int, n as int));
    if start == n {
        return None;
    }
    let mut value: u64 = 0;
    let mut i: usize = start;
    while i < n
        invariant
            n == s@.len(),
            start <= i <= n,
            d == s@.subrange(start as int, n as int),
            d == unsigned_part(s@),
            forall|j: int| 0 <= j < i - start ==> is_digit(#[trigger] d[j]),
            value == digits_value(d.subrange(0, i - start)),
        decreases n - i,
    {
        let c = s.get_char(i);
        assert(d[i - start] == c);
        if !('0' <= c && c <= '9') {
            assert(!is_digit(d[i - start]));
            assert(!(forall|j: int| 0 <= j < d.len() ==> is_digit(#[trigger] d[j])));
            assert(decimal_u64(s@) is None);
            return None;
        }
        let digit = (c as u32 - '0' as u32) as u64;
        proof {
            lemma_digits_step(d, i - start);
        }
        if value > (u64::MAX - digit) / 10 {
            proof {
                assert(digits_value(d.subrange(0, i - start + 1)) > u64::MAX) by (nonlinear_arith)
                    requires
                        value > (u64::MAX - digit) / 10,
                        digits_value(d.subrange(0, i - start + 1)) == value * 10 + digit,
                ;
                if forall|j: int| 0 <= j < d.len() ==> is_digit(#[trigger] d[j]) {
                    lemma_digits_grow(d, i - start);
                    assert(digits_value(d) > u64::MAX);
                }
                assert(decimal_u64(s@) is None);
            }
            return None;
        }
        proof {
            assert(value * 10 + digit <= u64::MAX) by (nonlinear_arith)
                requires
                    value <= (u64::MAX - digit) / 10,
                    digit <= 9,
            ;
        }
        value = value * 10 + digit;
        i = i + 1;
    }
    assert(d.subrange(0, n - start) =~= d);
    Some(value)
}

/// Whether a file of `len` bytes may be stored.
pub fn file_size_ok(len: u64) -> (r: bool)
    ensures
        r == (len <= MAX_FILE_SIZE),
{
    len <= MAX_FILE_SIZE
}

/// Whether a stored file of age `age_secs` is due for removal. A file whose
/// age cannot be known (its time lies in the future) is kept.
pub fn is_stale(age_secs: Option<u64>) -> (r: bool)
    ensures
        r == (age_secs matches Some(a) && a > FILE_RETENTION_SECS),
{
    match age_secs {
        Some(a) => a > FILE_RETENTION_SECS,
        None => false,
    }
}

/// Checks the text fields of a media upload form.
pub fn check_media_form(fields: UploadFields) -> (r: Result<UploadMediaForm, UploadError>)
    ensures
        r is Ok <==> form_ok(fields),
        r is Err ==> r == Err::<UploadMediaForm, UploadError>(UploadError::BadRequest),
        r matches Ok(f) ==> {
            &&& Some(f.conversation_id) == fields.conversation_id
            &&& Some(f.media_type) == fields.media_type
            &&& decimal_u64(fields.duration->0@) == Some(f.duration)
            &&& Some(f.encrypted_keys) == fields.encrypted_keys
            &&& Some(f.nonce) == fields.nonce
        },
{
    let UploadFields { conversation_id, media_type, duration, encrypted_keys, nonce } = fields;
    let (conversation_id, media_type, duration, encrypted_keys, nonce) = match (
        conversation_id,
        media_type,
        duration,
        encrypted_keys,
        nonce,
    ) {
        (Some(c), Some(m), Some(d), Some(k), Some(n)) => (c, m, d, k, n),
        _ => {
            return Err(UploadError::BadRequest);
        },
    };
    if !same_text(media_type.as_str(), "audio") && !same_text(media_type.as_str(), "video") {
        return Err(UploadError::BadRequest);
    }
    let seconds = match parse_u64(duration.as_str()) {
        None => {
            return Err(UploadError::BadRequest);
        },
        Some(v) => v,
    };
    if seconds == 0 || seconds > MAX_DURATION {
        return Err(UploadError::BadRequest);
    }
    Ok(UploadMediaForm { conversation_id, media_type, duration: seconds, encrypted_keys, nonce })
}

/// A fresh random name for a stored encrypted file.
pub fn new_file_name() -> (r: String)
    ensures
        exists|id: Seq<char>| r@ == id + ".enc"@,
{
    let mut name = random_uuid();
    let ghost id = name@;
    name.append(".enc");
    assert(name@ == id + ".enc"@);
    name
}

/// The public URL of stored file `file_name`.
pub fn media_url(file_name: &str) -> (r: String)
    ensures
        r@ == "/uploads/"@ + file_name@,
{
    let mut url = String::from_str("/uploads/");
    url.append(file_name);
    url
}

/// The conversation preview of a message of kind `media_type`.
pub fn media_preview(media_type: &str) -> (r: String)
    ensures
        r@ == "["@ + media_type@ + " message]"@,
{
    let mut p = String::from_str("[");
    p.append(media_type);
    p.append(" message]");
    p
}

impl UploadResponse {
    /// The reply to a stored upload of `file_name`: the form's key material
    /// and the new message's id are handed back when there are any.
    pub fn stored(
        file_name: &str,
        message_id: Option<String>,
        encrypted_keys: Option<String>,
        nonce: Option<String>,
    ) -> (r: UploadResponse)
        ensures
            r.success,
            r.url matches Some(u) && u@ == "/uploads/"@ + file_name@,
            message_id is Some ==> (r.file_path matches Some(p) && p@ == "/uploads/"@ + file_name@),
            message_id is None ==> r.file_path is None,
            r.message_id == message_id,
            r.encrypted_keys == encrypted_keys,
            r.nonce == nonce,
    {
        let file_path = match &message_id {
            Some(_) => Some(media_url(file_name)),
            None => None,
        };
        UploadResponse {
            success: true,
            url: Some(media_url(file_name)),
            message_id,
            file_path,
            encrypted_keys,
            nonce,
        }
    }
}

} // verus!
