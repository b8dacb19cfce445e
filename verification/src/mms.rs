//! Pictures in multimedia messages: which attachment is shown inline, and,
//! when a picture is saved, its bytes, the name it is saved under and the
//! names tried next to files already there.

use vstd::prelude::*;
use base64::Engine;
use crate::ffi::FfiMmsAttachment;
use crate::fs_provider::{extension_chars, file_name_chars, file_name_spec, last_dot};
use crate::preview::path_extension;
use crate::remote::{has_prefix, starts_with_chars};
use crate::state::opt_view;
use crate::text::{chars_of, decimal_string, dec, string_of, trim_chars, trim_spec};

verus! {

/// A picture shown inline in a conversation.
#[derive(Clone, Debug)]
pub struct MmsInlineImage {
    pub data_url: String,
    pub base64_data: String,
    pub content_type: String,
    pub filename: Option<String>,
}

/// Whether the attachment is a picture that came with its data.
pub open spec fn is_inline_picture(a: FfiMmsAttachment) -> bool {
    &&& has_prefix(a.content_type@, "image/"@)
    &&& a.data is Some
    &&& a.data->0@.len() > 0
}

/// Index of the first inline picture among the attachments.
pub open spec fn first_picture(atts: Seq<FfiMmsAttachment>) -> Option<int>
    decreases atts.len(),
{
    if atts.len() == 0 {
        None
    } else if is_inline_picture(atts[0]) {
        Some(0)
    } else {
        match first_picture(atts.drop_first()) {
            Some(i) => Some(i + 1),
            None => None,
        }
    }
}

/// The inline image made from a picture attachment: its data as a `data:`
/// URL, the data, the content type and the file name.
pub open spec fn inline_image_of(img: MmsInlineImage, a: FfiMmsAttachment) -> bool {
    &&& img.data_url@ == "data:"@ + a.content_type@ + ";base64,"@ + a.data->0@
    &&& img.base64_data@ == a.data->0@
    &&& img.content_type@ == a.content_type@
    &&& match a.filename {
        Some(f) => img.filename matches Some(g) && g@ == f@,
        None => img.filename is None,
    }
}

proof fn lemma_first_picture_step(atts: Seq<FfiMmsAttachment>, i: int)
    requires
        0 <= i < atts.len(),
        forall|k: int| 0 <= k < i ==> !is_inline_picture(#[trigger] atts[k]),
    ensures
        is_inline_picture(atts[i]) ==> first_picture(atts) == Some(i),
        !is_inline_picture(atts[i]) ==> first_picture(atts) == (match first_picture(
            atts.skip(i + 1),
        ) {
            Some(j) => Some(j + i + 1),
            None => None::<int>,
        }),
    decreases i,
{
    if i > 0 {
        let rest = atts.drop_first();
        assert forall|k: int| 0 <= k < i - 1 implies !is_inline_picture(#[trigger] rest[k]) by {
            assert(rest[k] == atts[k + 1]);
        }
        lemma_first_picture_step(rest, i - 1);
        assert(rest[i - 1] == atts[i]);
        assert(rest.skip(i) =~= atts.skip(i + 1));
        assert(!is_inline_picture(atts[0]));
    } else {
        assert(atts.drop_first() =~= atts.skip(1));
    }
}

/// The first attachment that is a picture with data, made ready to show.
pub fn attachment_preview_image(attachments: &[FfiMmsAttachment]) -> (r: Option<MmsInlineImage>)
    ensures
        match first_picture(attachments@) {
            Some(i) => r matches Some(img) && inline_image_of(img, attachments@[i]),
            None => r is None,
        },
{
    let prefix = chars_of("image/");
    let mut i: usize = 0;
    while i < attachments.len()
        invariant
            0 <= i <= attachments@.len(),
            prefix@ == "image/"@,
            forall|k: int| 0 <= k < i ==> !is_inline_picture(#[trigger] attachments@[k]),
        decreases attachments@.len() - i,
    {
        let a = &attachments[i];
        let ct = chars_of(a.content_type.as_str());
        let picture = starts_with_chars(ct.as_slice(), prefix.as_slice());
        if picture {
            if let Some(data) = &a.data {
                if data.as_str().is_empty() {
                } else {
                    proof {
                        lemma_first_picture_step(attachments@, i as int);
                    }
                    let mut url = String::from_str("data:");
                    url.append(a.content_type.as_str());
                    url.append(";base64,");
                    url.append(data.as_str());
                    let filename = match &a.filename {
                        Some(f) => Some(f.clone()),
                        None => None,
                    };
                    return Some(
                        MmsInlineImage {
                            data_url: url,
                            base64_data: data.clone(),
                            content_type: a.content_type.clone(),
                            filename,
                        },
                    );
                }
            }
        }
        i = i + 1;
    }
    proof {
        lemma_no_picture(attachments@);
    }
    None
}

proof fn lemma_no_picture(atts: Seq<FfiMmsAttachment>)
    requires
        forall|k: int| 0 <= k < atts.len() ==> !is_inline_picture(#[trigger] atts[k]),
    ensures
        first_picture(atts) is None,
    decreases atts.len(),
{
    if atts.len() > 0 {
        let rest = atts.drop_first();
        assert forall|k: int| 0 <= k < rest.len() implies !is_inline_picture(#[trigger] rest[k]) by {
            assert(rest[k] == atts[k + 1]);
        }
        lemma_no_picture(rest);
        assert(!is_inline_picture(atts[0]));
    }
}

/// The `counter`-th alternative name for a saved picture whose preferred
/// name has stem `stem` and extension `ext`: `stem-counter.ext`, or
/// `stem-counter` without an extension.
pub open spec fn numbered_name_spec(stem: Seq<char>, ext: Seq<char>, counter: u32) -> Seq<char> {
    if ext.len() == 0 {
        stem + "-"@ + dec(counter as nat)
    } else {
        stem + "-"@ + dec(counter as nat) + "."@ + ext
    }
}

/// The `counter`-th alternative name for a saved picture.
pub fn numbered_name(stem: &str, ext: &str, counter: u32) -> (r: String)
    ensures
        r@ == numbered_name_spec(stem@, ext@, counter),
{
    let mut r = String::from_str(stem);
    r.append("-");
    let n = decimal_string(counter as u64);
    r.append(n.as_str());
    if !ext.is_empty() {
        r.append(".");
        r.append(ext);
    }
    r
}

/// The extensions that the `mime_guess` table lists for a media type, in
/// its order; none for an unknown type.
pub uninterp spec fn extensions_of_mime(content_type: Seq<char>) -> Option<Seq<Seq<char>>>;

/// `mime_guess::get_mime_extensions_str(content_type)`, each extension as a
/// `String`. Its result is named `extensions_of_mime` of the media type (the
/// crate looks it up in a fixed table).
#[verifier::external_body]
fn mime_extensions(content_type: &str) -> (r: Option<Vec<String>>)
    ensures
        match r {
            Some(v) => extensions_of_mime(content_type@) == Some(v@.map_values(|e: String| e@)),
            None => extensions_of_mime(content_type@) is None,
        },
{
    match mime_guess::get_mime_extensions_str(content_type) {
        Some(exts) => {
            let mut v = Vec::new();
            for e in exts {
                v.push(e.to_string());
            }
            Some(v)
        },
        None => None,
    }
}

/// Why base64 text could not be decoded (the `base64` crate's
/// `DecodeError`): an invalid symbol and where it stood, an impossible
/// length, a last symbol with stray bits, or wrong padding.
#[derive(Clone, Copy, Debug, PartialEq, Eq, Structural)]
pub enum Base64Error {
    InvalidByte(usize, u8),
    InvalidLength(usize),
    InvalidLastSymbol(usize, u8),
    InvalidPadding,
}

/// The text of a decoding error, as the crate displays it.
pub open spec fn base64_error_text(e: Base64Error) -> Seq<char> {
    match e {
        Base64Error::InvalidByte(index, byte) => "Invalid symbol "@ + dec(byte as nat) + ", offset "@ + dec(
            index as nat,
        ) + "."@,
        Base64Error::InvalidLength(len) => "Invalid input length: "@ + dec(len as nat),
        Base64Error::InvalidLastSymbol(index, byte) => "Invalid last symbol "@ + dec(byte as nat) + ", offset "@
            + dec(index as nat) + "."@,
        Base64Error::InvalidPadding => "Invalid padding"@,
    }
}

/// The text of a decoding error.
pub fn base64_error_message(e: Base64Error) -> (s: String)
    ensures
        s@ == base64_error_text(e),
{
    match e {
        Base64Error::InvalidByte(index, byte) => {
            let mut s = String::from_str("Invalid symbol ");
            let b = decimal_string(byte as u64);
            s.append(b.as_str());
            s.append(", offset ");
            let i = decimal_string(index as u64);
            s.append(i.as_str());
            s.append(".");
            s
        },
        Base64Error::InvalidLength(len) => {
            let mut s = String::from_str("Invalid input length: ");
            let l = decimal_string(len as u64);
            s.append(l.as_str());
            s
        },
        Base64Error::InvalidLastSymbol(index, byte) => {
            let mut s = String::from_str("Invalid last symbol ");
            let b = decimal_string(byte as u64);
            s.append(b.as_str());
            s.append(", offset ");
            let i = decimal_string(index as u64);
            s.append(i.as_str());
            s.append(".");
            s
        },
        Base64Error::InvalidPadding => String::from_str("Invalid padding"),
    }
}

/// What decoding standard base64 text (with padding) gives: the bytes, or
/// why the text is not valid base64.
pub uninterp spec fn base64_decoding(text: Seq<char>) -> Result<Seq<u8>, Base64Error>;

/// `base64::engine::general_purpose::STANDARD.decode(text)`, its error
/// taken variant by variant into `Base64Error`. The bytes or the error are
/// named `base64_decoding` of the text.
#[verifier::external_body]
fn decode_base64(text: &str) -> (r: Result<Vec<u8>, Base64Error>)
    ensures
        match r {
            Ok(v) => base64_decoding(text@) == Ok::<Seq<u8>, Base64Error>(v@),
            Err(e) => base64_decoding(text@) == Err::<Seq<u8>, Base64Error>(e),
        },
{
    match base64::engine::general_purpose::STANDARD.decode(text) {
        Ok(v) => Ok(v),
        Err(base64::DecodeError::InvalidByte(i, b)) => Err(Base64Error::InvalidByte(i, b)),
        Err(base64::DecodeError::InvalidLength(l)) => Err(Base64Error::InvalidLength(l)),
        Err(base64::DecodeError::InvalidLastSymbol(i, b)) => Err(Base64Error::InvalidLastSymbol(i, b)),
        Err(base64::DecodeError::InvalidPadding) => Err(Base64Error::InvalidPadding),
    }
}

/// What a picture's payload decodes to: its bytes, or the message
/// "Invalid image payload: " and the decoding error.
pub open spec fn payload_bytes(text: Seq<char>) -> Result<Seq<u8>, Seq<char>> {
    match base64_decoding(text) {
        Ok(v) => Ok(v),
        Err(e) => Err("Invalid image payload: "@ + base64_error_text(e)),
    }
}

/// The extension a saved picture gets when its name has none: the first
/// that the media type lists, else `jpg`.
pub open spec fn fallback_extension_spec(content_type: Seq<char>) -> Seq<char> {
    match extensions_of_mime(content_type) {
        Some(es) => if es.len() > 0 {
            es[0]
        } else {
            "jpg"@
        },
        None => "jpg"@,
    }
}

/// The extension a saved picture of this media type gets when its name has
/// none.
pub fn mms_fallback_extension(content_type: &str) -> (e: String)
    ensures
        e@ == fallback_extension_spec(content_type@),
{
    match mime_extensions(content_type) {
        Some(v) => {
            if v.len() > 0 {
                let first = v[0].clone();
                assert(v@.map_values(|e: String| e@)[0] == v@[0]@);
                first
            } else {
                String::from_str("jpg")
            }
        },
        None => String::from_str("jpg"),
    }
}

/// The last component of an attachment's name, trimmed: none when it has
/// no name or only blanks; the trimmed name itself when it has no last
/// component.
pub open spec fn mms_image_leaf_spec(filename: Option<String>) -> Option<Seq<char>> {
    match filename {
        Some(f) => {
            let t = trim_spec(f@);
            if t.len() > 0 {
                Some(
                    match file_name_spec(t) {
                        Some(n) => n,
                        None => t,
                    },
                )
            } else {
                None
            }
        },
        None => None,
    }
}

/// The last component of the picture's own name, which is then made safe
/// for a file name before it is used.
pub fn mms_image_leaf(filename: &Option<String>) -> (r: Option<String>)
    ensures
        opt_view(r) == mms_image_leaf_spec(*filename),
{
    match filename {
        Some(f) => {
            let cs = chars_of(f.as_str());
            let t = trim_chars(cs.as_slice());
            if t.len() == 0 {
                return None;
            }
            match file_name_chars(t.as_slice()) {
                Some(n) => Some(string_of(n.as_slice())),
                None => Some(string_of(t.as_slice())),
            }
        },
        None => None,
    }
}

/// The name a picture is saved under. `safe_leaf` is the file-name-safe form
/// of its own name's last component: when it is neither empty nor
/// `unnamed` it is used, with the fallback extension added if it has none;
/// otherwise the name is `mms-image-` and the time in seconds.
pub open spec fn suggested_name_spec(content_type: Seq<char>, safe_leaf: Option<Seq<char>>, now_secs: u64) -> Seq<char> {
    let ext = fallback_extension_spec(content_type);
    match safe_leaf {
        Some(s) => if s.len() > 0 && s != "unnamed"@ {
            if path_extension(s) is Some {
                s
            } else {
                s + "."@ + ext
            }
        } else {
            "mms-image-"@ + dec(now_secs as nat) + "."@ + ext
        },
        None => "mms-image-"@ + dec(now_secs as nat) + "."@ + ext,
    }
}

fn timestamp_name(ext: &str, now_secs: u64) -> (r: String)
    ensures
        r@ == "mms-image-"@ + dec(now_secs as nat) + "."@ + ext@,
{
    let mut r = String::from_str("mms-image-");
    let n = decimal_string(now_secs);
    r.append(n.as_str());
    r.append(".");
    r.append(ext);
    r
}

/// The name a picture is saved under, from the file-name-safe form of its
/// own name (see `mms_image_leaf`) and the time in seconds.
pub fn suggested_mms_image_filename(image: &MmsInlineImage, safe_leaf: Option<String>, now_secs: u64) -> (r: String)
    ensures
        r@ == suggested_name_spec(image.content_type@, opt_view(safe_leaf), now_secs),
{
    let ext = mms_fallback_extension(image.content_type.as_str());
    match safe_leaf {
        Some(s) => {
            let unnamed = String::from_str("unnamed");
            if s.as_str().is_empty() || s == unnamed {
                return timestamp_name(ext.as_str(), now_secs);
            }
            let cs = chars_of(s.as_str());
            let has_ext = match file_name_chars(cs.as_slice()) {
                Some(n) => extension_chars(&n).is_some(),
                None => false,
            };
            if has_ext {
                s
            } else {
                let mut r = s;
                r.append(".");
                r.append(ext.as_str());
                r
            }
        },
        None => timestamp_name(ext.as_str(), now_secs),
    }
}

/// The stem of a file name (as `Path::file_stem`): what precedes its last
/// `.`, unless that dot is the first character or the name is `..`.
pub open spec fn stem_spec(name: Seq<char>) -> Seq<char> {
    if name == seq!['.', '.'] {
        name
    } else {
        match last_dot(name) {
            Some(i) => if i > 0 {
                name.take(i)
            } else {
                name
            },
            None => name,
        }
    }
}

/// The stem of a path's file name, if it has one.
pub open spec fn path_stem(p: Seq<char>) -> Option<Seq<char>> {
    match file_name_spec(p) {
        Some(n) => Some(stem_spec(n)),
        None => None,
    }
}

fn stem_chars(name: &Vec<char>) -> (r: Vec<char>)
    ensures
        r@ == stem_spec(name@),
{
    if name.len() == 2 && name[0] == '.' && name[1] == '.' {
        assert(name@ =~= seq!['.', '.']);
        return name.clone();
    }
    proof {
        if name@ == seq!['.', '.'] {
            assert(name@.len() == 2 && name@[0] == '.' && name@[1] == '.');
        }
    }
    let mut j = name.len();
    assert(name@.take(j as int) =~= name@);
    while j > 0 && name[j - 1] != '.'
        invariant
            0 <= j <= name@.len(),
            last_dot(name@) == last_dot(name@.take(j as int)),
        decreases j,
    {
        assert(name@.take(j as int).drop_last() =~= name@.take(j - 1));
        j = j - 1;
    }
    if j <= 1 {
        if j == 0 {
            assert(name@.take(0) =~= Seq::<char>::empty());
        } else {
            assert(name@.take(1).last() == '.');
        }
        return name.clone();
    }
    assert(name@.take(j as int).last() == '.');
    let s = &name[0..j - 1];
    assert(s@ =~= name@.take(j - 1));
    let mut v: Vec<char> = Vec::new();
    let mut i: usize = 0;
    while i < j - 1
        invariant
            0 <= i <= j - 1,
            j - 1 <= s@.len(),
            s@ == name@.take(j - 1),
            v@ == s@.take(i as int),
        decreases j - 1 - i,
    {
        v.push(s[i]);
        assert(s@.take(i + 1) =~= s@.take(i as int).push(s@[i as int]));
        i = i + 1;
    }
    assert(s@.take((j - 1) as int) =~= s@);
    v
}

/// What saving a picture needs besides the filesystem: its bytes, whether
/// the default download folder is used, the preferred name, and that name's
/// stem and extension for the alternatives tried next to existing files.
#[derive(Clone, Debug)]
pub struct MmsSavePlan {
    pub bytes: Vec<u8>,
    pub use_default_dir: bool,
    pub file_name: String,
    pub stem: String,
    pub extension: String,
}

/// The bytes of a picture's payload, or the reason it is not valid base64.
pub fn mms_image_bytes(image: &MmsInlineImage) -> (r: Result<Vec<u8>, String>)
    ensures
        match payload_bytes(image.base64_data@) {
            Ok(b) => r matches Ok(v) && v@ == b,
            Err(m) => r matches Err(e) && e@ == m,
        },
{
    match decode_base64(image.base64_data.as_str()) {
        Ok(v) => Ok(v),
        Err(e) => {
            let mut m = String::from_str("Invalid image payload: ");
            let t = base64_error_message(e);
            m.append(t.as_str());
            Err(m)
        },
    }
}

/// How a picture is saved: its decoded bytes (or the decoding error), the
/// default download folder when none is configured (blank counts as none),
/// and the suggested name with its stem (`mms-image` when it has none) and
/// extension (empty when it has none).
pub fn mms_save_plan(
    image: &MmsInlineImage,
    configured_download_directory: &str,
    safe_leaf: Option<String>,
    now_secs: u64,
) -> (r: Result<MmsSavePlan, String>)
    ensures
        match r {
            Ok(p) => {
                &&& payload_bytes(image.base64_data@) == Ok::<Seq<u8>, Seq<char>>(p.bytes@)
                &&& p.use_default_dir == (trim_spec(configured_download_directory@).len() == 0)
                &&& p.file_name@ == suggested_name_spec(image.content_type@, opt_view(safe_leaf), now_secs)
                &&& p.stem@ == (match path_stem(p.file_name@) {
                    Some(s) => s,
                    None => "mms-image"@,
                })
                &&& p.extension@ == (match path_extension(p.file_name@) {
                    Some(e) => e,
                    None => ""@,
                })
            },
            Err(m) => payload_bytes(image.base64_data@) == Err::<Seq<u8>, Seq<char>>(m@),
        },
{
    let bytes = match mms_image_bytes(image) {
        Ok(b) => b,
        Err(m) => return Err(m),
    };
    let dir = chars_of(configured_download_directory);
    let use_default_dir = trim_chars(dir.as_slice()).len() == 0;
    let file_name = suggested_mms_image_filename(image, safe_leaf, now_secs);
    let fcs = chars_of(file_name.as_str());
    proof {
        reveal_strlit("");
    }
    let (stem, extension) = match file_name_chars(fcs.as_slice()) {
        Some(n) => {
            let st = stem_chars(&n);
            let ex = match extension_chars(&n) {
                Some(e) => string_of(e.as_slice()),
                None => String::new(),
            };
            (string_of(st.as_slice()), ex)
        },
        None => (String::from_str("mms-image"), String::new()),
    };
    Ok(MmsSavePlan { bytes, use_default_dir, file_name, stem, extension })
}

} // verus!
