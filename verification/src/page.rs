use base64::Engine;
use vstd::prelude::*;

use crate::api::{encode_base64, MAX_TTL_SECONDS};
use crate::b64::{base64_encode, base64_standard_encode};
use crate::http::{parse_u64, parse_u64_spec};
use crate::ids::{has_prefix, is_previewable, previewable_type};
use crate::kdf::fill_random;
use crate::types::{DataType, MAX_PASTE_SIZE};

verus! {

/// The password a share link carries in its fragment: the text after a
/// leading `#`; none when the fragment is missing, does not start with `#`,
/// or is empty.
pub open spec fn fragment_password(fragment: Seq<char>) -> Option<Seq<char>> {
    let pwd = if fragment.len() > 0 && fragment[0] == '#' { fragment.drop_first() } else { Seq::empty() };
    if pwd.len() == 0 { None } else { Some(pwd) }
}

/// Reads the password out of a share link's fragment.
pub fn password_from_fragment(fragment: Option<&str>) -> (pwd: Option<String>)
    ensures
        match fragment {
            None => pwd is None,
            Some(f) => match fragment_password(f@) {
                None => pwd is None,
                Some(p) => pwd matches Some(s) && s@ == p,
            },
        },
{
    let f = match fragment {
        Some(f) => f,
        None => {
            return None;
        },
    };
    let n = f.unicode_len();
    if n < 2 || f.get_char(0) != '#' {
        return None;
    }
    let p = f.substring_char(1, n);
    assert(p@ =~= f@.drop_first());
    Some(p.to_string())
}

/// How the paste page shows a decrypted paste.
#[derive(Clone, Copy, Debug, PartialEq, Eq, Structural)]
pub enum PreviewKind {
    /// As text.
    Text,
    /// As an inline image.
    Image,
    /// In a video player.
    Video,
    /// In an audio player.
    Audio,
    /// In an embedded PDF viewer.
    Pdf,
    /// Not shown; offered for download only.
    Download,
}

/// The way a paste of the given kind and content type is shown.
pub open spec fn preview_spec(data_type: DataType, content_type: Option<Seq<char>>) -> PreviewKind {
    match data_type {
        DataType::Text => PreviewKind::Text,
        DataType::File => match content_type {
            None => PreviewKind::Download,
            Some(ct) => if !previewable_type(ct) {
                PreviewKind::Download
            } else if has_prefix(ct, "image/"@) {
                PreviewKind::Image
            } else if has_prefix(ct, "video/"@) {
                PreviewKind::Video
            } else if has_prefix(ct, "audio/"@) {
                PreviewKind::Audio
            } else if ct == "application/pdf"@ {
                PreviewKind::Pdf
            } else {
                PreviewKind::Text
            },
        },
    }
}

/// A file is shown by the kind its content type names: every `image/`
/// type as an image, every `video/` type in a video player, every `audio/`
/// type in an audio player, `application/pdf` in a PDF viewer, and a file
/// without a content type is offered for download only.
pub proof fn lemma_preview_by_type(ct: Seq<char>)
    ensures
        has_prefix(ct, "image/"@) ==> preview_spec(DataType::File, Some(ct)) == PreviewKind::Image,
        has_prefix(ct, "video/"@) ==> preview_spec(DataType::File, Some(ct)) == PreviewKind::Video,
        has_prefix(ct, "audio/"@) ==> preview_spec(DataType::File, Some(ct)) == PreviewKind::Audio,
        ct == "application/pdf"@ ==> preview_spec(DataType::File, Some(ct)) == PreviewKind::Pdf,
        preview_spec(DataType::File, None) == PreviewKind::Download,
        preview_spec(DataType::Text, Some(ct)) == PreviewKind::Text,
{
    reveal_strlit("image/");
    reveal_strlit("video/");
    reveal_strlit("audio/");
    reveal_strlit("application/pdf");
    reveal_strlit("text/");
    reveal_strlit("application/json");
    if ct.len() > 0 {
        if has_prefix(ct, "image/"@) {
            assert(ct[0] == ct.subrange(0, 6)[0]);
        }
        if has_prefix(ct, "video/"@) {
            assert(ct[0] == ct.subrange(0, 6)[0]);
        }
        if has_prefix(ct, "audio/"@) {
            assert(ct[0] == ct.subrange(0, 6)[0]);
        }
        if ct == "application/pdf"@ {
            assert(ct[0] == 'a' && ct[1] == 'p');
            if has_prefix(ct, "audio/"@) {
                assert(ct[1] == ct.subrange(0, 6)[1]);
            }
        }
    }
}

/// Chooses how the paste page shows a decrypted paste.
pub fn preview_kind(data_type: DataType, content_type: Option<&str>) -> (k: PreviewKind)
    ensures
        k == preview_spec(data_type, match content_type { Some(ct) => Some(ct@), None => None }),
        data_type == DataType::Text ==> k == PreviewKind::Text,
        data_type == DataType::File && content_type is None ==> k == PreviewKind::Download,
        data_type == DataType::File && (content_type matches Some(ct) && has_prefix(ct@, "image/"@))
            ==> k == PreviewKind::Image,
        data_type == DataType::File && (content_type matches Some(ct) && has_prefix(ct@, "video/"@))
            ==> k == PreviewKind::Video,
        data_type == DataType::File && (content_type matches Some(ct) && has_prefix(ct@, "audio/"@))
            ==> k == PreviewKind::Audio,
        data_type == DataType::File && (content_type matches Some(ct) && ct@ == "application/pdf"@)
            ==> k == PreviewKind::Pdf,
{
    proof {
        if let Some(ct) = content_type {
            lemma_preview_by_type(ct@);
        }
    }
    match data_type {
        DataType::Text => PreviewKind::Text,
        DataType::File => {
            if !is_previewable(content_type) {
                return PreviewKind::Download;
            }
            let ct = match content_type {
                Some(ct) => ct,
                None => {
                    return PreviewKind::Download;
                },
            };
            if crate::ids::starts_with(ct, "image/") {
                PreviewKind::Image
            } else if crate::ids::starts_with(ct, "video/") {
                PreviewKind::Video
            } else if crate::ids::starts_with(ct, "audio/") {
                PreviewKind::Audio
            } else if crate::ids::str_equal(ct, "application/pdf") {
                PreviewKind::Pdf
            } else {
                PreviewKind::Text
            }
        },
    }
}

/// The `data:` URL an inline preview is loaded from.
pub fn data_url(content_type: &str, bytes: &[u8]) -> (url: String)
    ensures
        url@ == "data:"@ + content_type@ + ";base64,"@ + base64_standard_encode(bytes@),
{
    let mut url = String::from_str("data:");
    url.append(content_type);
    url.append(";base64,");
    let encoded = encode_base64(bytes);
    url.append(encoded.as_str());
    url
}

/// What `u32::from_str` accepts: an optional `+`, then at least one ASCII
/// digit, with a value that fits in 32 bits.
pub open spec fn parse_u32_spec(s: Seq<char>) -> Option<u32> {
    match parse_u64_spec(s) {
        Some(v) => if v <= u32::MAX { Some(v as u32) } else { None },
        None => None,
    }
}

/// Parses a form field as `u32::from_str` does.
pub fn parse_u32(s: &str) -> (r: Option<u32>)
    ensures
        r == parse_u32_spec(s@),
{
    let n = s.unicode_len();
    proof {
        assert(s@.subrange(0, n as int) =~= s@);
    }
    match parse_u64(s, 0, n) {
        Some(v) => if v <= u32::MAX as u64 { Some(v as u32) } else { None },
        None => None,
    }
}

/// The time-to-live a new paste gets from the form's text: the number,
/// lowered to the longest time-to-live offered; none when the text is not a
/// number.
pub fn ttl_setting(ttl_text: &str) -> (ttl: Option<u32>)
    ensures
        ttl == match parse_u32_spec(ttl_text@) {
            Some(t) => Some(if t > MAX_TTL_SECONDS { MAX_TTL_SECONDS } else { t }),
            None => None,
        },
{
    match parse_u32(ttl_text) {
        Some(t) => Some(if t > MAX_TTL_SECONDS { MAX_TTL_SECONDS } else { t }),
        None => None,
    }
}

/// Why the paste form refuses to create a paste.
#[derive(Clone, Copy, Debug, PartialEq, Eq, Structural)]
pub enum FormError {
    /// The time-to-live is not a number.
    TtlInvalid,
    /// There is no text to paste.
    ContentEmpty,
    /// The chosen file is larger than a paste may be.
    TooLarge,
}

/// What the form creates a paste from: a chosen file of `file_size` bytes,
/// or else the text of `text_len` bytes.
pub open spec fn content_spec(file_size: Option<u64>, text_len: usize) -> Result<(u64, DataType), FormError> {
    match file_size {
        Some(size) => if size > MAX_PASTE_SIZE {
            Err(FormError::TooLarge)
        } else {
            Ok((size, DataType::File))
        },
        None => if text_len == 0 {
            Err(FormError::ContentEmpty)
        } else {
            Ok((text_len as u64, DataType::Text))
        },
    }
}

/// Checks what the form is about to encrypt and returns its size and kind.
pub fn check_content(file_size: Option<u64>, text_len: usize) -> (r: Result<(u64, DataType), FormError>)
    ensures
        r == content_spec(file_size, text_len),
{
    match file_size {
        Some(size) => if size > MAX_PASTE_SIZE as u64 {
            Err(FormError::TooLarge)
        } else {
            Ok((size, DataType::File))
        },
        None => if text_len == 0 {
            Err(FormError::ContentEmpty)
        } else {
            Ok((text_len as u64, DataType::Text))
        },
    }
}

/// The text the `base64` crate's URL-safe engine without padding encodes
/// `data` to.
pub open spec fn base64_url_encode(data: Seq<u8>) -> Seq<char> {
    base64_encode(data, true, false)
}

/// Trusted: `base64::engine::general_purpose::URL_SAFE_NO_PAD.encode`.
/// Claims the RFC 4648 encoding in the URL-safe alphabet without padding.
#[verifier::external_body]
fn encode_base64_url(data: &[u8]) -> (s: String)
    ensures
        s@ == base64_url_encode(data@),
{
    base64::engine::general_purpose::URL_SAFE_NO_PAD.encode(data)
}

/// A password for a paste created without one: sixteen bytes drawn from the
/// system's randomness, in URL-safe base64. A failure to draw is not
/// reported: the bytes then are whatever the buffer holds (zeros, unless the
/// draw wrote part of it).
pub fn generate_password() -> (pwd: String)
    ensures
        exists|b: Seq<u8>| b.len() == 16 && pwd@ == #[trigger] base64_url_encode(b),
{
    let mut buf = [0u8; 16];
    let _ = fill_random(&mut buf);
    let pwd = encode_base64_url(buf.as_slice());
    assert(buf@.len() == 16 && pwd@ == base64_url_encode(buf@));
    pwd
}

/// The link shown for a new paste: `ORIGIN/paste/ID`, followed by
/// `#PASSWORD` when the password was generated for the paste (a password
/// the user typed is not put in the link).
pub open spec fn share_link_spec(origin: Seq<char>, id: Seq<char>, generated: Option<Seq<char>>) -> Seq<char> {
    origin + "/paste/"@ + id + match generated {
        Some(p) => seq!['#'] + p,
        None => Seq::empty(),
    }
}

/// Builds the link shown for a new paste.
pub fn share_link(origin: &str, id: &str, generated_password: Option<&str>) -> (link: String)
    ensures
        link@ == share_link_spec(origin@, id@, match generated_password { Some(p) => Some(p@), None => None }),
{
    let mut link = String::from_str(origin);
    link.append("/paste/");
    link.append(id);
    match generated_password {
        Some(p) => {
            crate::text::push_char(&mut link, '#');
            link.append(p);
            assert(link@ =~= share_link_spec(origin@, id@, Some(p@)));
        },
        None => {
            assert(link@ =~= share_link_spec(origin@, id@, None));
        },
    }
    link
}

} // verus!
