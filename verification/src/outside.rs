//! The calls this library makes into `im`, `uuid`, `chrono`, `base64`,
//! `tokio`, `symphonia` and the parts of `std` that `vstd` does not specify. Each contract here is believed, not
//! proved; the doc comment of each says what it claims.

use vstd::prelude::*;

use base64::Engine;

use crate::domain::song::Timestamp;
use crate::services::song_service::raw_tags;

verus! {

/// The persistent vector of `im`, carried opaquely; its contents are read
/// through `id_items`.
#[verifier::external_type_specification]
#[verifier::external_body]
#[verifier::reject_recursive_types(A)]
pub struct ExVector<A>(im::Vector<A>);

/// The song ids held by an `im::Vector<String>`, front to back.
pub uninterp spec fn id_items(v: im::Vector<String>) -> Seq<Seq<char>>;

/// `im::Vector::new`: a vector with no items.
#[verifier::external_body]
pub(crate) fn ids_new() -> (v: im::Vector<String>)
    ensures
        id_items(v) == Seq::<Seq<char>>::empty(),
{
    im::Vector::new()
}

/// `im::Vector::len`: the number of items.
#[verifier::external_body]
pub(crate) fn ids_len(v: &im::Vector<String>) -> (n: usize)
    ensures
        n == id_items(*v).len(),
{
    v.len()
}

/// `im::Vector::get` at an index in range, the item cloned: the item at `i`.
#[verifier::external_body]
pub(crate) fn ids_get(v: &im::Vector<String>, i: usize) -> (s: String)
    requires
        i < id_items(*v).len(),
    ensures
        s@ == id_items(*v)[i as int],
{
    v.get(i).unwrap().clone()
}

/// `im::Vector::push_back`: the same items with `s` appended at the back.
#[verifier::external_body]
pub(crate) fn ids_push_back(v: &mut im::Vector<String>, s: String)
    ensures
        id_items(*final(v)) == id_items(*old(v)).push(s@),
{
    v.push_back(s)
}

/// `im::Vector::clone`: a vector with the same items.
#[verifier::external_body]
pub(crate) fn ids_clone(v: &im::Vector<String>) -> (r: im::Vector<String>)
    ensures
        id_items(r) == id_items(*v),
{
    v.clone()
}

/// A lower-case hexadecimal digit, as `uuid` prints them.
pub open spec fn is_lower_hex(c: char) -> bool {
    ('0' <= c <= '9') || ('a' <= c <= 'f')
}

/// The hyphenated form of a UUID: 36 characters, `-` at 8, 13, 18 and 23,
/// lower-case hex digits elsewhere.
pub open spec fn is_uuid_text(s: Seq<char>) -> bool {
    &&& s.len() == 36
    &&& forall|i: int|
        0 <= i < 36 ==> if i == 8 || i == 13 || i == 18 || i == 23 {
            s[i] == '-'
        } else {
            is_lower_hex(#[trigger] s[i])
        }
}

/// `Uuid::new_v4().to_string()`: a fresh random UUID in the hyphenated form
/// (`Display` of `Uuid` writes lower-case hex, 8-4-4-4-12). Which digits come
/// is left open: they are random.
#[verifier::external_body]
pub(crate) fn new_uuid_hyphenated() -> (s: String)
    ensures
        is_uuid_text(s@),
{
    uuid::Uuid::new_v4().to_string()
}

/// `Uuid::new_v4().simple().to_string()`: a fresh random UUID as 32
/// lower-case hex digits with no hyphens. Which digits come is left open.
#[verifier::external_body]
pub(crate) fn new_uuid_simple() -> (s: String)
    ensures
        s@.len() == 32,
        forall|i: int| 0 <= i < 32 ==> is_lower_hex(#[trigger] s@[i]),
{
    uuid::Uuid::new_v4().simple().to_string()
}

/// `chrono::Utc::now()`, read as `timestamp()` and `timestamp_subsec_nanos()`.
/// The instant depends on the clock, so nothing is said of it but the range
/// that `timestamp_subsec_nanos` documents (up to 1,999,999,999 in a leap
/// second).
#[verifier::external_body]
pub(crate) fn utc_now() -> (t: Timestamp)
    ensures
        t.nanos < 2_000_000_000,
{
    let now = chrono::Utc::now();
    Timestamp { secs: now.timestamp(), nanos: now.timestamp_subsec_nanos() }
}

/// What `str::to_lowercase` gives for a string (Unicode full lower-case
/// mapping, context-sensitive for final sigma).
pub uninterp spec fn lowercase(s: Seq<char>) -> Seq<char>;

/// `str::to_lowercase`.
#[verifier::external_body]
pub(crate) fn to_lowercase(s: &str) -> (r: String)
    ensures
        r@ == lowercase(s@),
{
    s.to_lowercase()
}

} // verus!

verus! {

/// The sending half of a `tokio` one-shot channel, carried opaquely.
#[verifier::external_type_specification]
#[verifier::external_body]
#[verifier::reject_recursive_types(T)]
pub struct ExOneshotSender<T>(tokio::sync::oneshot::Sender<T>);

/// The receiving half of a `tokio` one-shot channel, carried opaquely.
#[verifier::external_type_specification]
#[verifier::external_body]
#[verifier::reject_recursive_types(T)]
pub struct ExOneshotReceiver<T>(tokio::sync::oneshot::Receiver<T>);

/// The error a one-shot receiver reports when its sender is dropped; declared
/// because the receiver's `Future` output names it.
#[verifier::external_type_specification]
#[verifier::external_body]
pub struct ExOneshotRecvError(tokio::sync::oneshot::error::RecvError);

/// `tokio::sync::oneshot::channel`: a fresh pair of connected halves. Nothing
/// is stated of them: they are opaque here.
#[verifier::external_body]
pub(crate) fn cancel_channel() -> (pair: (tokio::sync::oneshot::Sender<()>, tokio::sync::oneshot::Receiver<()>)) {
    tokio::sync::oneshot::channel()
}

/// What `Path::extension` gives for the path written `p`, as text (`None`
/// also when the extension is not valid Unicode, as `OsStr::to_str` has it).
pub uninterp spec fn path_extension(p: Seq<char>) -> Option<Seq<char>>;

/// `Path::new(p).extension()`, read through `OsStr::to_str`.
#[verifier::external_body]
pub(crate) fn extension_of(p: &str) -> (r: Option<String>)
    ensures
        match r {
            Some(e) => path_extension(p@) == Some(e@),
            None => path_extension(p@) is None,
        },
{
    std::path::Path::new(p).extension().and_then(|e| e.to_str()).map(|e| e.to_string())
}

/// What `Path::file_stem` gives for the path written `p`, as text (`None`
/// also when the stem is not valid Unicode, as `OsStr::to_str` has it).
pub uninterp spec fn path_stem(p: Seq<char>) -> Option<Seq<char>>;

/// `Path::new(p).file_stem()`, read through `OsStr::to_str`.
#[verifier::external_body]
pub(crate) fn stem_of(p: &str) -> (r: Option<String>)
    ensures
        match r {
            Some(e) => path_stem(p@) == Some(e@),
            None => path_stem(p@) is None,
        },
{
    std::path::Path::new(p).file_stem().and_then(|e| e.to_str()).map(|e| e.to_string())
}

} // verus!

verus! {

/// A JSON value of `serde_json`, carried opaquely as the data of a response.
#[verifier::external_type_specification]
#[verifier::external_body]
pub struct ExJsonValue(serde_json::Value);

} // verus!

verus! {

/// The digit of the standard base64 alphabet for a value in `0..64`:
/// `A`-`Z`, `a`-`z`, `0`-`9`, `+`, `/`.
pub open spec fn b64_digit(v: int) -> char {
    if v < 26 {
        (65 + v) as char
    } else if v < 52 {
        (97 + v - 26) as char
    } else if v < 62 {
        (48 + v - 52) as char
    } else if v == 62 {
        '+'
    } else {
        '/'
    }
}

/// Standard base64 with `=` padding: each group of three bytes becomes four
/// digits; a last group of one or two bytes is padded to four with `=`.
pub open spec fn base64_standard(s: Seq<u8>) -> Seq<char>
    decreases s.len(),
{
    if s.len() == 0 {
        Seq::empty()
    } else {
        let a = s[0] as int;
        let b = if s.len() > 1 { s[1] as int } else { 0 };
        let c = if s.len() > 2 { s[2] as int } else { 0 };
        let d0 = b64_digit(a / 4);
        let d1 = b64_digit((a % 4) * 16 + b / 16);
        let d2 = b64_digit((b % 16) * 4 + c / 64);
        let d3 = b64_digit(c % 64);
        if s.len() == 1 {
            seq![d0, d1, '=', '=']
        } else if s.len() == 2 {
            seq![d0, d1, d2, '=']
        } else {
            seq![d0, d1, d2, d3] + base64_standard(s.skip(3))
        }
    }
}

/// `base64::engine::general_purpose::STANDARD.encode`: the standard alphabet
/// with padding, as `base64_standard` writes it. Inputs long enough to
/// overflow the output length (where it panics) are left out.
#[verifier::external_body]
pub(crate) fn encode_base64(bytes: &[u8]) -> (r: String)
    requires
        bytes@.len() <= usize::MAX / 2,
    ensures
        r@ == base64_standard(bytes@),
{
    base64::engine::general_purpose::STANDARD.encode(bytes)
}

/// `std::str::from_utf8`, the text kept: the bytes decoded when they are
/// valid UTF-8, none otherwise.
#[verifier::external_body]
pub(crate) fn utf8_text(bytes: &[u8]) -> (r: Option<String>)
    ensures
        match r {
            Some(s) => vstd::utf8::valid_utf8(bytes@) && s@ == vstd::utf8::decode_utf8(bytes@),
            None => !vstd::utf8::valid_utf8(bytes@),
        },
{
    std::str::from_utf8(bytes).ok().map(|s| s.to_string())
}

} // verus!

verus! {

/// What `symphonia`'s default probe reads from an MP3 stream of these bytes
/// (hinted as "mp3", default options): none when no format reader accepts
/// them; else the sample rate and frame count of the first track's codec
/// parameters (none without a track), and the tags of the format reader's
/// current metadata revision and of the probe's current revision (empty where
/// there is none), each as its standard key's position in the declaration of
/// `StandardTagKey` and its value as text.
pub uninterp spec fn mp3_probe(bytes: Seq<u8>) -> Option<
    (Option<(Option<u32>, Option<u64>)>, Seq<(Option<u32>, Seq<char>)>, Seq<(Option<u32>, Seq<char>)>),
>;

/// `symphonia::default::get_probe().format(..)` over the bytes, read for the
/// first track's sample rate and frame count, as `mp3_probe` says.
#[verifier::external_body]
pub(crate) fn probe_track(bytes: &[u8]) -> (r: Option<Option<(Option<u32>, Option<u64>)>>)
    ensures
        match mp3_probe(bytes@) {
            Some(p) => r == Some(p.0),
            None => r is None,
        },
{
    let src = symphonia::core::io::MediaSourceStream::new(Box::new(std::io::Cursor::new(bytes.to_vec())), Default::default());
    let hint = symphonia::core::probe::Hint::new().with_extension("mp3").clone();
    let p = symphonia::default::get_probe().format(&hint, src, &Default::default(), &Default::default()).ok()?;
    Some(p.format.tracks().first().map(|t| (t.codec_params.sample_rate, t.codec_params.n_frames)))
}

/// `symphonia::default::get_probe().format(..)` over the bytes, read for the
/// tags of the format reader's current metadata revision, as `mp3_probe`
/// says.
#[verifier::external_body]
pub(crate) fn probe_format_tags(bytes: &[u8]) -> (r: Option<Vec<(Option<u32>, String)>>)
    ensures
        match mp3_probe(bytes@) {
            Some(p) => r matches Some(t) && raw_tags(t@) == p.1,
            None => r is None,
        },
{
    let src = symphonia::core::io::MediaSourceStream::new(Box::new(std::io::Cursor::new(bytes.to_vec())), Default::default());
    let hint = symphonia::core::probe::Hint::new().with_extension("mp3").clone();
    let mut p = symphonia::default::get_probe().format(&hint, src, &Default::default(), &Default::default()).ok()?;
    let tags = p.format.metadata().current().map(|r| r.tags().to_vec()).unwrap_or_default();
    Some(tags.iter().map(|t| (t.std_key.map(|k| k as u32), t.value.to_string())).collect())
}

/// `symphonia::default::get_probe().format(..)` over the bytes, read for the
/// tags of the probe's own current metadata revision, as `mp3_probe` says.
#[verifier::external_body]
pub(crate) fn probe_probe_tags(bytes: &[u8]) -> (r: Option<Vec<(Option<u32>, String)>>)
    ensures
        match mp3_probe(bytes@) {
            Some(p) => r matches Some(t) && raw_tags(t@) == p.2,
            None => r is None,
        },
{
    let src = symphonia::core::io::MediaSourceStream::new(Box::new(std::io::Cursor::new(bytes.to_vec())), Default::default());
    let hint = symphonia::core::probe::Hint::new().with_extension("mp3").clone();
    let mut p = symphonia::default::get_probe().format(&hint, src, &Default::default(), &Default::default()).ok()?;
    let tags = p.metadata.get().and_then(|m| m.current().map(|r| r.tags().to_vec())).unwrap_or_default();
    Some(tags.iter().map(|t| (t.std_key.map(|k| k as u32), t.value.to_string())).collect())
}

} // verus!
