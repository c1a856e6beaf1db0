//! Images from the command line: addresses, data URLs and files, in the form in
//! which a message carries them.

use vstd::prelude::*;
use vstd::utf8::encode_utf8;

use crate::paths::{extension, path_extension};
use crate::text::{
    decimal, holds, join3, lowered, opt_str_view, parse_usize, parsed_unsigned, str_contains,
    str_eq, str_lower, str_starts_with, str_strip_prefix, str_trim, trimmed, usize_text, views,
    without_prefix,
};

verus! {

pub const DEFAULT_MAX_VISION_INPUT_BYTES: usize = 67108864;

/// How many bytes all images together may have: a positive number of the
/// setting, or the default.
pub open spec fn vision_limit(setting: Option<Seq<char>>) -> nat {
    match setting {
        Some(text) => match parsed_unsigned(trimmed(text), usize::MAX as nat) {
            Some(n) => if n > 0 {
                n
            } else {
                DEFAULT_MAX_VISION_INPUT_BYTES as nat
            },
            None => DEFAULT_MAX_VISION_INPUT_BYTES as nat,
        },
        None => DEFAULT_MAX_VISION_INPUT_BYTES as nat,
    }
}

pub fn vision_input_limit(setting: Option<&str>) -> (r: usize)
    ensures
        r == vision_limit(opt_str_view(setting)),
{
    match setting {
        Some(text) => {
            let text = str_trim(text);
            match parse_usize(text.as_str()) {
                Some(n) => if n > 0 {
                    n
                } else {
                    DEFAULT_MAX_VISION_INPUT_BYTES
                },
                None => DEFAULT_MAX_VISION_INPUT_BYTES,
            }
        },
        None => DEFAULT_MAX_VISION_INPUT_BYTES,
    }
}

// ---------------------------------------------------------------------------
// Kinds of images
// ---------------------------------------------------------------------------

/// The kind of an image by its first bytes.
pub open spec fn signature_mime(bytes: Seq<u8>) -> Option<Seq<char>> {
    if seq![0x89u8, 0x50, 0x4e, 0x47, 0x0d, 0x0a, 0x1a, 0x0a].is_prefix_of(bytes) {
        Some("image/png"@)
    } else if seq![0xffu8, 0xd8, 0xff].is_prefix_of(bytes) {
        Some("image/jpeg"@)
    } else if seq![0x47u8, 0x49, 0x46, 0x38, 0x37, 0x61].is_prefix_of(bytes)
        || seq![0x47u8, 0x49, 0x46, 0x38, 0x39, 0x61].is_prefix_of(bytes) {
        Some("image/gif"@)
    } else if bytes.len() >= 12 && seq![0x52u8, 0x49, 0x46, 0x46].is_prefix_of(bytes)
        && bytes.subrange(8, 12) == seq![0x57u8, 0x45, 0x42, 0x50] {
        Some("image/webp"@)
    } else if seq![0x42u8, 0x4d].is_prefix_of(bytes) {
        Some("image/bmp"@)
    } else {
        None
    }
}

/// The kind of an image by the extension of its file.
pub open spec fn extension_mime(path: Seq<char>) -> Option<Seq<char>> {
    match extension(path) {
        Some(name) => {
            let name = lowered(name);
            if name == "png"@ {
                Some("image/png"@)
            } else if name == "jpg"@ || name == "jpeg"@ {
                Some("image/jpeg"@)
            } else if name == "gif"@ {
                Some("image/gif"@)
            } else if name == "webp"@ {
                Some("image/webp"@)
            } else if name == "bmp"@ {
                Some("image/bmp"@)
            } else {
                None
            }
        },
        None => None,
    }
}

pub open spec fn image_mime(path: Seq<char>, bytes: Seq<u8>) -> Option<Seq<char>> {
    match signature_mime(bytes) {
        Some(mime) => Some(mime),
        None => extension_mime(path),
    }
}

fn starts_with_bytes(bytes: &Vec<u8>, prefix: &Vec<u8>) -> (r: bool)
    ensures
        r == prefix@.is_prefix_of(bytes@),
{
    if prefix.len() > bytes.len() {
        return false;
    }
    let mut i: usize = 0;
    while i < prefix.len()
        invariant
            i <= prefix@.len() <= bytes@.len(),
            forall|j: int| 0 <= j < i ==> prefix@[j] == bytes@[j],
        decreases prefix@.len() - i,
    {
        if prefix[i] != bytes[i] {
            assert(bytes@.take(prefix@.len() as int)[i as int] != prefix@[i as int]);
            return false;
        }
        i = i + 1;
    }
    assert(prefix@ =~= bytes@.take(prefix@.len() as int));
    true
}

fn mime_by_signature(bytes: &Vec<u8>) -> (r: Option<&'static str>)
    ensures
        opt_str_view(r) == signature_mime(bytes@),
{
    let png: Vec<u8> = vec![0x89, 0x50, 0x4e, 0x47, 0x0d, 0x0a, 0x1a, 0x0a];
    assert(png@ =~= seq![0x89u8, 0x50, 0x4e, 0x47, 0x0d, 0x0a, 0x1a, 0x0a]);
    let jpeg: Vec<u8> = vec![0xff, 0xd8, 0xff];
    assert(jpeg@ =~= seq![0xffu8, 0xd8, 0xff]);
    let gif7: Vec<u8> = vec![0x47, 0x49, 0x46, 0x38, 0x37, 0x61];
    assert(gif7@ =~= seq![0x47u8, 0x49, 0x46, 0x38, 0x37, 0x61]);
    let gif9: Vec<u8> = vec![0x47, 0x49, 0x46, 0x38, 0x39, 0x61];
    assert(gif9@ =~= seq![0x47u8, 0x49, 0x46, 0x38, 0x39, 0x61]);
    let riff: Vec<u8> = vec![0x52, 0x49, 0x46, 0x46];
    assert(riff@ =~= seq![0x52u8, 0x49, 0x46, 0x46]);
    let bmp: Vec<u8> = vec![0x42, 0x4d];
    assert(bmp@ =~= seq![0x42u8, 0x4d]);
    let webp = bytes.len() >= 12 && bytes[8] == 0x57 && bytes[9] == 0x45 && bytes[10] == 0x42
        && bytes[11] == 0x50;
    proof {
        if bytes@.len() >= 12 {
            let name = bytes@.subrange(8, 12);
            assert(name[0] == bytes@[8] && name[1] == bytes@[9] && name[2] == bytes@[10] && name[3]
                == bytes@[11]);
            if webp {
                assert(name =~= seq![0x57u8, 0x45, 0x42, 0x50]);
            }
            assert(webp == (name == seq![0x57u8, 0x45, 0x42, 0x50]));
        }
    }
    if starts_with_bytes(bytes, &png) {
        Some("image/png")
    } else if starts_with_bytes(bytes, &jpeg) {
        Some("image/jpeg")
    } else if starts_with_bytes(bytes, &gif7) || starts_with_bytes(bytes, &gif9) {
        Some("image/gif")
    } else if webp && starts_with_bytes(bytes, &riff) {
        Some("image/webp")
    } else if starts_with_bytes(bytes, &bmp) {
        Some("image/bmp")
    } else {
        None
    }
}

fn mime_by_extension(path: &str) -> (r: Option<&'static str>)
    ensures
        opt_str_view(r) == extension_mime(path@),
{
    let name = match path_extension(path) {
        Some(name) => str_lower(name.as_str()),
        None => {
            return None;
        },
    };
    if str_eq(name.as_str(), "png") {
        Some("image/png")
    } else if str_eq(name.as_str(), "jpg") || str_eq(name.as_str(), "jpeg") {
        Some("image/jpeg")
    } else if str_eq(name.as_str(), "gif") {
        Some("image/gif")
    } else if str_eq(name.as_str(), "webp") {
        Some("image/webp")
    } else if str_eq(name.as_str(), "bmp") {
        Some("image/bmp")
    } else {
        None
    }
}

/// The kind of an image: by its first bytes, or else by the extension of its
/// file.
pub fn image_mime_type(path: &str, bytes: &Vec<u8>) -> (r: Result<&'static str, String>)
    ensures
        match r {
            Ok(mime) => image_mime(path@, bytes@) == Some(mime@),
            Err(message) => image_mime(path@, bytes@) is None && message@
                == "unsupported --image format for "@ + path@
                + "; use PNG, JPEG, GIF, WebP, or BMP"@,
        },
{
    let mime = match mime_by_signature(bytes) {
        Some(mime) => Some(mime),
        None => mime_by_extension(path),
    };
    match mime {
        Some(mime) => Ok(mime),
        None => Err(
            join3(
                "unsupported --image format for ",
                path,
                "; use PNG, JPEG, GIF, WebP, or BMP",
            ),
        ),
    }
}

// ---------------------------------------------------------------------------
// Base64
// ---------------------------------------------------------------------------

/// The character of six bits.
pub open spec fn sextet(n: int) -> char {
    if n < 26 {
        (65 + n) as char
    } else if n < 52 {
        (97 + n - 26) as char
    } else if n < 62 {
        (48 + n - 52) as char
    } else if n == 62 {
        '+'
    } else {
        '/'
    }
}

/// Bytes as text: three bytes are four characters, and the last group is filled
/// up with `=`.
pub open spec fn base64(bytes: Seq<u8>) -> Seq<char>
    decreases bytes.len(),
{
    if bytes.len() == 0 {
        Seq::empty()
    } else {
        let a = bytes[0] as int;
        let b = if bytes.len() > 1 {
            bytes[1] as int
        } else {
            0
        };
        let c = if bytes.len() > 2 {
            bytes[2] as int
        } else {
            0
        };
        let group = seq![
            sextet(a / 4),
            sextet(a % 4 * 16 + b / 16),
            if bytes.len() > 1 {
                sextet(b % 16 * 4 + c / 64)
            } else {
                '='
            },
            if bytes.len() > 2 {
                sextet(c % 64)
            } else {
                '='
            },
        ];
        if bytes.len() <= 3 {
            group
        } else {
            group + base64(bytes.skip(3))
        }
    }
}

/// `base64::Engine::encode` with the standard alphabet and padding: the text is
/// `base64` of the bytes. It panics where the text would be longer than memory
/// can hold, so the bytes are at most a quarter of what a length can say.
#[verifier::external_body]
fn encode_base64(bytes: &Vec<u8>) -> (r: String)
    requires
        bytes@.len() <= usize::MAX / 4,
    ensures
        r@ == base64(bytes@),
{
    base64::engine::Engine::encode(&base64::engine::general_purpose::STANDARD, bytes)
}

/// An image as a data URL.
pub open spec fn data_url(mime: Seq<char>, bytes: Seq<u8>) -> Seq<char> {
    "data:"@ + mime + ";base64,"@ + base64(bytes)
}

proof fn lemma_sextet(m: int, n: int)
    requires
        0 <= m < 64,
        0 <= n < 64,
    ensures
        sextet(m) == sextet(n) ==> m == n,
        sextet(m) != '=',
{
    assert(sextet(m) as int == if m < 26 {
        65 + m
    } else if m < 52 {
        71 + m
    } else if m < 62 {
        m - 4
    } else if m == 62 {
        43int
    } else {
        47int
    });
    assert(sextet(n) as int == if n < 26 {
        65 + n
    } else if n < 52 {
        71 + n
    } else if n < 62 {
        n - 4
    } else if n == 62 {
        43int
    } else {
        47int
    });
}

proof fn lemma_base64_keeps_bytes(a: Seq<u8>, b: Seq<u8>)
    requires
        base64(a) == base64(b),
    ensures
        a == b,
    decreases a.len(),
{
    let x = base64(a);
    let y = base64(b);
    if a.len() == 0 || b.len() == 0 {
        assert(a.len() > 0 ==> x.len() >= 4);
        assert(b.len() > 0 ==> y.len() >= 4);
        assert(a =~= b);
    } else {
        assert(x[0] == sextet(a[0] as int / 4) && y[0] == sextet(b[0] as int / 4));
        lemma_sextet(a[0] as int / 4, b[0] as int / 4);
        let a1 = if a.len() > 1 {
            a[1] as int
        } else {
            0
        };
        let b1 = if b.len() > 1 {
            b[1] as int
        } else {
            0
        };
        let a2 = if a.len() > 2 {
            a[2] as int
        } else {
            0
        };
        let b2 = if b.len() > 2 {
            b[2] as int
        } else {
            0
        };
        lemma_sextet(a[0] as int % 4 * 16 + a1 / 16, b[0] as int % 4 * 16 + b1 / 16);
        lemma_sextet(a1 % 16 * 4 + a2 / 64, b1 % 16 * 4 + b2 / 64);
        lemma_sextet(b1 % 16 * 4 + b2 / 64, a1 % 16 * 4 + a2 / 64);
        lemma_sextet(a2 % 64, b2 % 64);
        lemma_sextet(b2 % 64, a2 % 64);
        assert(x[1] == y[1] && x[2] == y[2] && x[3] == y[3]);
        assert(a[0] == b[0]);
        assert((a.len() > 1) == (b.len() > 1));
        assert((a.len() > 2) == (b.len() > 2));
        assert(a1 == b1 && a2 == b2);
        if a.len() <= 3 || b.len() <= 3 {
            assert(a.len() > 3 ==> x.len() >= 8) by {
                if a.len() > 3 {
                    assert(base64(a.skip(3)).len() >= 4);
                }
            }
            assert(b.len() > 3 ==> y.len() >= 8) by {
                if b.len() > 3 {
                    assert(base64(b.skip(3)).len() >= 4);
                }
            }
            assert(a =~= b);
        } else {
            assert(x.skip(4) =~= base64(a.skip(3)));
            assert(y.skip(4) =~= base64(b.skip(3)));
            lemma_base64_keeps_bytes(a.skip(3), b.skip(3));
            assert forall|i: int| 0 <= i < a.len() implies a[i] == b[i] by {
                if i >= 3 {
                    assert(a[i] == a.skip(3)[i - 3]);
                    assert(b[i] == b.skip(3)[i - 3]);
                }
            }
            assert(a.len() == a.skip(3).len() + 3);
            assert(a =~= b);
        }
    }
}

/// An image is carried whole: different bytes make different data URLs.
pub proof fn data_urls_keep_the_image(mime: Seq<char>, a: Seq<u8>, b: Seq<u8>)
    requires
        data_url(mime, a) == data_url(mime, b),
    ensures
        a == b,
{
    let n = ("data:"@ + mime + ";base64,"@).len() as int;
    assert(data_url(mime, a).skip(n) =~= base64(a));
    assert(data_url(mime, b).skip(n) =~= base64(b));
    lemma_base64_keeps_bytes(a, b);
}

// ---------------------------------------------------------------------------
// Taking images in
// ---------------------------------------------------------------------------

pub open spec fn is_web_address(value: Seq<char>) -> bool {
    "http://"@.is_prefix_of(value) || "https://"@.is_prefix_of(value)
}

pub fn str_is_web_address(value: &str) -> (r: bool)
    ensures
        r == is_web_address(value@),
{
    str_starts_with(value, "http://") || str_starts_with(value, "https://")
}

/// The path that a value stands for. On Windows a drive may follow the third
/// slash of a file address.
pub open spec fn image_path(value: Seq<char>, on_windows: bool) -> Seq<char> {
    match without_prefix(value, "file://"@) {
        None => value,
        Some(path) => match without_prefix(path, "/"@) {
            Some(rest) => if on_windows && encode_utf8(rest).len() > 1 && encode_utf8(rest)[1]
                == 0x3a {
                rest
            } else {
                path
            },
            None => path,
        },
    }
}

pub fn cli_image_path(value: &str, on_windows: bool) -> (r: String)
    ensures
        r@ == image_path(value@, on_windows),
{
    let path = match str_strip_prefix(value, "file://") {
        Some(path) => path,
        None => {
            return value.to_owned();
        },
    };
    if on_windows {
        if let Some(rest) = str_strip_prefix(path.as_str(), "/") {
            let bytes = rest.as_str().as_bytes();
            if bytes.len() > 1 && bytes[1] == 0x3a {
                return rest;
            }
        }
    }
    path
}

pub open spec fn too_many_bytes(limit: nat) -> Seq<char> {
    "vision image inputs exceed WERK_MAX_VISION_INPUT_BYTES ("@ + decimal(limit) + " bytes)"@
}

/// What a data URL may add up to: four thirds of the limit, rounded up.
pub open spec fn text_limit(limit: nat) -> nat {
    let four = if limit * 4 <= usize::MAX {
        limit * 4
    } else {
        usize::MAX as nat
    };
    ((four + 2) / 3) as nat
}

/// The images so far.
#[derive(Debug)]
pub struct ImageIntake {
    pub max_bytes: usize,
    pub total_bytes: usize,
    pub normalized: Vec<String>,
}

/// What a value asks for next.
#[derive(Debug)]
pub enum ImageStep {
    /// It was taken as it is.
    Taken,
    /// This file has to be read.
    Read(String),
}

pub ghost struct IntakeView {
    pub max_bytes: nat,
    pub total_bytes: nat,
    pub normalized: Seq<Seq<char>>,
}

pub ghost enum StepView {
    Taken(IntakeView),
    Read(Seq<char>),
    Refused(Seq<char>),
}

/// What becomes of a value. An address is taken; a data URL is taken where it is
/// one of an image and within the limit; anything else is a file.
pub open spec fn intake_step(state: IntakeView, value: Seq<char>, on_windows: bool) -> StepView {
    let value = trimmed(value);
    let added = IntakeView { normalized: state.normalized.push(value), ..state };
    if value.len() == 0 {
        StepView::Refused("--image value must not be empty"@)
    } else if is_web_address(value) {
        StepView::Taken(added)
    } else if "data:"@.is_prefix_of(value) {
        let total = state.total_bytes + encode_utf8(value).len();
        if !"data:image/"@.is_prefix_of(value) || !holds(value, ";base64,"@) {
            StepView::Refused("--image data URL must contain a base64-encoded image MIME type"@)
        } else if total > usize::MAX {
            StepView::Refused("vision input byte count overflowed"@)
        } else if total > text_limit(state.max_bytes) {
            StepView::Refused(too_many_bytes(state.max_bytes))
        } else {
            StepView::Taken(IntakeView { total_bytes: total, ..added })
        }
    } else {
        StepView::Read(image_path(value, on_windows))
    }
}

/// What becomes of the bytes of a file.
pub open spec fn intake_file(state: IntakeView, path: Seq<char>, bytes: Seq<u8>) -> StepView {
    let total = state.total_bytes + bytes.len();
    if total > usize::MAX {
        StepView::Refused("vision input byte count overflowed"@)
    } else if total > state.max_bytes {
        StepView::Refused(too_many_bytes(state.max_bytes))
    } else {
        match image_mime(path, bytes) {
            Some(mime) => StepView::Taken(
                IntakeView {
                    total_bytes: total,
                    normalized: state.normalized.push(data_url(mime, bytes)),
                    ..state
                },
            ),
            None => StepView::Refused(
                "unsupported --image format for "@ + path + "; use PNG, JPEG, GIF, WebP, or BMP"@,
            ),
        }
    }
}

impl ImageIntake {
    pub open spec fn view(&self) -> IntakeView {
        IntakeView {
            max_bytes: self.max_bytes as nat,
            total_bytes: self.total_bytes as nat,
            normalized: views(self.normalized@),
        }
    }

    pub fn new(max_bytes: usize) -> (r: Self)
        ensures
            r@ == (IntakeView {
                max_bytes: max_bytes as nat,
                total_bytes: 0,
                normalized: Seq::empty(),
            }),
    {
        let r = ImageIntake { max_bytes, total_bytes: 0, normalized: Vec::new() };
        assert(views(r.normalized@) =~= Seq::<Seq<char>>::empty());
        r
    }

    fn take(&mut self, value: String)
        ensures
            final(self)@ == (IntakeView {
                normalized: old(self)@.normalized.push(value@),
                ..old(self)@
            }),
    {
        let ghost before = self.normalized@;
        self.normalized.push(value);
        assert(views(self.normalized@) =~= views(before).push(value@));
    }

    fn refusal(&self) -> (r: String)
        ensures
            r@ == too_many_bytes(self.max_bytes as nat),
    {
        let limit = usize_text(self.max_bytes);
        join3(
            "vision image inputs exceed WERK_MAX_VISION_INPUT_BYTES (",
            limit.as_str(),
            " bytes)",
        )
    }

    /// Takes a value of `--image`, or says which file it names.
    pub fn offer(&mut self, value: &str, on_windows: bool) -> (r: Result<ImageStep, String>)
        ensures
            match r {
                Ok(ImageStep::Taken) => intake_step(old(self)@, value@, on_windows)
                    == StepView::Taken(final(self)@),
                Ok(ImageStep::Read(path)) => intake_step(old(self)@, value@, on_windows)
                    == StepView::Read(path@) && *final(self) == *old(self),
                Err(message) => intake_step(old(self)@, value@, on_windows) == StepView::Refused(
                    message@,
                ) && *final(self) == *old(self),
            },
    {
        let value = str_trim(value);
        if value.as_str().unicode_len() == 0 {
            return Err("--image value must not be empty".to_owned());
        }
        if str_is_web_address(value.as_str()) {
            self.take(value);
            return Ok(ImageStep::Taken);
        }
        if str_starts_with(value.as_str(), "data:") {
            if !str_starts_with(value.as_str(), "data:image/") || !str_contains(
                value.as_str(),
                ";base64,",
            ) {
                return Err(
                    "--image data URL must contain a base64-encoded image MIME type".to_owned(),
                );
            }
            let length: usize = value.as_str().as_bytes().len();
            let total: usize = match self.total_bytes.checked_add(length) {
                Some(total) => total,
                None => {
                    return Err("vision input byte count overflowed".to_owned());
                },
            };
            let four: usize = match self.max_bytes.checked_mul(4) {
                Some(four) => four,
                None => usize::MAX,
            };
            let limit: usize = if four % 3 == 0 {
                four / 3
            } else {
                four / 3 + 1
            };
            assert(limit == text_limit(self.max_bytes as nat));
            if total > limit {
                return Err(self.refusal());
            }
            self.total_bytes = total;
            self.take(value);
            return Ok(ImageStep::Taken);
        }
        Ok(ImageStep::Read(cli_image_path(value.as_str(), on_windows)))
    }

    /// Takes the bytes of a file.
    pub fn offer_file(&mut self, path: &str, bytes: &Vec<u8>) -> (r: Result<(), String>)
        requires
            bytes@.len() <= usize::MAX / 4,
        ensures
            match r {
                Ok(_) => intake_file(old(self)@, path@, bytes@) == StepView::Taken(final(self)@),
                Err(message) => intake_file(old(self)@, path@, bytes@) == StepView::Refused(
                    message@,
                ) && *final(self) == *old(self),
            },
    {
        let total: usize = match self.total_bytes.checked_add(bytes.len()) {
            Some(total) => total,
            None => {
                return Err("vision input byte count overflowed".to_owned());
            },
        };
        if total > self.max_bytes {
            return Err(self.refusal());
        }
        let mime = match image_mime_type(path, bytes) {
            Ok(mime) => mime,
            Err(message) => {
                return Err(message);
            },
        };
        let encoded = encode_base64(bytes);
        let mut url = join3("data:", mime, ";base64,");
        url.push_str(encoded.as_str());
        self.total_bytes = total;
        self.take(url);
        Ok(())
    }
}

/// Files never take more than the limit.
pub proof fn files_stay_within_the_limit(state: IntakeView, path: Seq<char>, bytes: Seq<u8>)
    ensures
        intake_file(state, path, bytes) matches StepView::Taken(next) ==> next.total_bytes
            <= next.max_bytes && next.max_bytes == state.max_bytes && next.normalized.len()
            == state.normalized.len() + 1,
{
}

/// A taken file is an image in the form that a data URL has to have.
pub proof fn taken_files_are_data_urls(state: IntakeView, path: Seq<char>, bytes: Seq<u8>)
    ensures
        intake_file(state, path, bytes) matches StepView::Taken(next) ==> "data:image/"@.is_prefix_of(
            next.normalized.last(),
        ) && holds(next.normalized.last(), ";base64,"@),
{
    if let StepView::Taken(next) = intake_file(state, path, bytes) {
        let mime = image_mime(path, bytes)->0;
        let url = data_url(mime, bytes);
        reveal_strlit("data:");
        reveal_strlit("data:image/");
        reveal_strlit("image/png");
        reveal_strlit("image/jpeg");
        reveal_strlit("image/gif");
        reveal_strlit("image/webp");
        reveal_strlit("image/bmp");
        let at = ("data:"@ + mime).len() as int;
        assert(url.subrange(at, at + ";base64,"@.len()) =~= ";base64,"@);
        assert(crate::text::occurs_at(url, ";base64,"@, at));
        assert("data:image/"@ =~= url.take("data:image/"@.len() as int));
        assert(next.normalized.last() == url);
    }
}

// ---------------------------------------------------------------------------
// What data addresses are
// ---------------------------------------------------------------------------

/// The 64 digits, in their order.
pub open spec fn digits() -> Seq<char> {
    "ABCDEFGHIJKLMNOPQRSTUVWXYZabcdefghijklmnopqrstuvwxyz0123456789+/"@
}

proof fn lemma_digit(n: int)
    requires
        0 <= n < 64,
    ensures
        digits().len() == 64,
        sextet(n) == digits()[n],
{
    reveal_strlit("ABCDEFGHIJKLMNOPQRSTUVWXYZabcdefghijklmnopqrstuvwxyz0123456789+/");
    assert(
        n == 0 || n == 1
        || n == 2
        || n == 3
        || n == 4
        || n == 5
        || n == 6
        || n == 7
        || n == 8
        || n == 9
        || n == 10
        || n == 11
        || n == 12
        || n == 13
        || n == 14
        || n == 15
        || n == 16
        || n == 17
        || n == 18
        || n == 19
        || n == 20
        || n == 21
        || n == 22
        || n == 23
        || n == 24
        || n == 25
        || n == 26
        || n == 27
        || n == 28
        || n == 29
        || n == 30
        || n == 31
        || n == 32
        || n == 33
        || n == 34
        || n == 35
        || n == 36
        || n == 37
        || n == 38
        || n == 39
        || n == 40
        || n == 41
        || n == 42
        || n == 43
        || n == 44
        || n == 45
        || n == 46
        || n == 47
        || n == 48
        || n == 49
        || n == 50
        || n == 51
        || n == 52
        || n == 53
        || n == 54
        || n == 55
        || n == 56
        || n == 57
        || n == 58
        || n == 59
        || n == 60
        || n == 61
        || n == 62
        || n == 63
    );
}

/// Three bytes are one number of 24 bits, written as four digits of six.
pub proof fn three_bytes_are_four_digits(bytes: Seq<u8>)
    requires
        bytes.len() >= 3,
    ensures
        ({
            let v = bytes[0] * 65536 + bytes[1] * 256 + bytes[2];
            &&& base64(bytes).take(4) == seq![
                digits()[v / 262144],
                digits()[v / 4096 % 64],
                digits()[v / 64 % 64],
                digits()[v % 64],
            ]
            &&& base64(bytes).skip(4) == base64(bytes.skip(3))
        }),
{
    let a = bytes[0] as int;
    let b = bytes[1] as int;
    let c = bytes[2] as int;
    let v = a * 65536 + b * 256 + c;
    lemma_twenty_four_bits(a, b, c);
    lemma_digit(a / 4);
    lemma_digit(a % 4 * 16 + b / 16);
    lemma_digit(b % 16 * 4 + c / 64);
    lemma_digit(c % 64);
    let group = seq![
        sextet(a / 4),
        sextet(a % 4 * 16 + b / 16),
        sextet(b % 16 * 4 + c / 64),
        sextet(c % 64),
    ];
    assert(group == seq![
        digits()[v / 262144],
        digits()[v / 4096 % 64],
        digits()[v / 64 % 64],
        digits()[v % 64],
    ]);
    lemma_whole_group(bytes, group);
}

proof fn lemma_whole_group(bytes: Seq<u8>, group: Seq<char>)
    requires
        bytes.len() >= 3,
        group == seq![
            sextet(bytes[0] as int / 4),
            sextet(bytes[0] as int % 4 * 16 + bytes[1] as int / 16),
            sextet(bytes[1] as int % 16 * 4 + bytes[2] as int / 64),
            sextet(bytes[2] as int % 64),
        ],
    ensures
        base64(bytes).take(4) == group,
        base64(bytes).skip(4) == base64(bytes.skip(3)),
{
    let rest = base64(bytes.skip(3));
    if bytes.len() == 3 {
        assert(base64(bytes) == group);
        assert(rest =~= Seq::empty());
    } else {
        assert(base64(bytes) == group + rest);
    }
    assert(base64(bytes) =~= group + rest);
    assert((group + rest).take(4) =~= group);
    assert((group + rest).skip(4) =~= rest);
}

proof fn lemma_twenty_four_bits(a: int, b: int, c: int)
    requires
        0 <= a < 256,
        0 <= b < 256,
        0 <= c < 256,
    ensures
        (a * 65536 + b * 256 + c) / 262144 == a / 4,
        (a * 65536 + b * 256 + c) / 4096 % 64 == a % 4 * 16 + b / 16,
        (a * 65536 + b * 256 + c) / 64 % 64 == b % 16 * 4 + c / 64,
        (a * 65536 + b * 256 + c) % 64 == c % 64,
{
    let v = a * 65536 + b * 256 + c;
    let q = a / 4;
    let r = a % 4;
    let s = b / 16;
    let t = b % 16;
    let u = c / 64;
    let w = c % 64;
    assert(a == 4 * q + r && b == 16 * s + t && c == 64 * u + w);
    assert(0 <= r < 4 && 0 <= s < 16 && 0 <= t < 16 && 0 <= u < 4 && 0 <= w < 64);
    lemma_quotient(v, 262144, q, 65536 * r + 4096 * s + 256 * t + c);
    lemma_quotient(v, 4096, 64 * q + 16 * r + s, 256 * t + c);
    lemma_quotient(64 * q + 16 * r + s, 64, q, 16 * r + s);
    lemma_quotient(v, 64, 4096 * q + 1024 * r + 64 * s + 4 * t + u, w);
    lemma_quotient(
        4096 * q + 1024 * r + 64 * s + 4 * t + u,
        64,
        64 * q + 16 * r + s,
        4 * t + u,
    );
}

proof fn lemma_quotient(v: int, d: int, q: int, r: int)
    requires
        0 <= r < d,
        v == d * q + r,
    ensures
        v / d == q,
        v % d == r,
{
    assert(d * q == q * d) by (nonlinear_arith);
    vstd::arithmetic::div_mod::lemma_fundamental_div_mod_converse(v, d, q, r);
}

proof fn lemma_sixteen_bits(a: int, b: int)
    requires
        0 <= a < 256,
        0 <= b < 256,
    ensures
        (a * 256 + b) / 1024 == a / 4,
        (a * 256 + b) / 16 % 64 == a % 4 * 16 + b / 16,
        (a * 256 + b) % 16 * 4 == b % 16 * 4,
{
    let v = a * 256 + b;
    let q = a / 4;
    let r = a % 4;
    let s = b / 16;
    let t = b % 16;
    assert(a == 4 * q + r && b == 16 * s + t);
    assert(0 <= r < 4 && 0 <= s < 16 && 0 <= t < 16);
    lemma_quotient(v, 1024, q, 256 * r + b);
    lemma_quotient(v, 16, 64 * q + 16 * r + s, t);
    lemma_quotient(64 * q + 16 * r + s, 64, q, 16 * r + s);
}

/// What is left over is filled up with equals signs.
pub proof fn last_bytes_are_padded(a: u8, b: u8)
    ensures
        base64(Seq::empty()).len() == 0,
        base64(seq![a]) == seq![digits()[a as int / 4], digits()[a as int % 4 * 16], '=', '='],
        ({
            let v = a * 256 + b;
            base64(seq![a, b]) == seq![
                digits()[v / 1024],
                digits()[v / 16 % 64],
                digits()[v % 16 * 4],
                '=',
            ]
        }),
{
    let one = seq![a];
    let two = seq![a, b];
    let v = a as int * 256 + b as int;
    assert(v / 1024 == a as int / 4 && v / 16 % 64 == a as int % 4 * 16 + b as int / 16 && v % 16
        * 4 == b as int % 16 * 4) by {
        lemma_sixteen_bits(a as int, b as int);
    }
    lemma_digit(a as int / 4);
    lemma_digit(a as int % 4 * 16);
    lemma_digit(a as int % 4 * 16 + b as int / 16);
    lemma_digit(b as int % 16 * 4);
    assert(one.len() == 1 && one[0] == a && two.len() == 2 && two[0] == a && two[1] == b);
    assert(base64(one) == seq![sextet(a as int / 4), sextet(a as int % 4 * 16), '=', '=']);
    assert(base64(two) == seq![
        sextet(a as int / 4),
        sextet(a as int % 4 * 16 + b as int / 16),
        sextet(b as int % 16 * 4),
        '=',
    ]);
}

/// An image is what its first bytes say, whatever its name; only where they say nothing
/// does the name tell.
pub proof fn images_are_what_they_begin_with(
    path: Seq<char>,
    other: Seq<char>,
    bytes: Seq<u8>,
    rest: Seq<u8>,
)
    ensures
        image_mime(path, bytes) != image_mime(other, bytes) ==> signature_mime(bytes) is None,
        image_mime(path, seq![0x89u8, 0x50, 0x4e, 0x47, 0x0d, 0x0a, 0x1a, 0x0a] + rest) == Some(
            "image/png"@,
        ),
        image_mime(path, seq![0xffu8, 0xd8, 0xff] + rest) == Some("image/jpeg"@),
        image_mime(path, seq![0x47u8, 0x49, 0x46, 0x38, 0x37, 0x61] + rest) == Some("image/gif"@),
        image_mime(path, seq![0x47u8, 0x49, 0x46, 0x38, 0x39, 0x61] + rest) == Some("image/gif"@),
        image_mime(path, seq![0x42u8, 0x4d] + rest) == Some("image/bmp"@),
        bytes.len() == 4 ==> image_mime(
            path,
            seq![0x52u8, 0x49, 0x46, 0x46] + bytes + seq![0x57u8, 0x45, 0x42, 0x50] + rest,
        ) == Some("image/webp"@),
        signature_mime(bytes) is None && extension(path) is None ==> image_mime(path, bytes)
            is None,
        signature_mime(bytes) is None && (extension(path) matches Some(name) && lowered(name)
            == "jpg"@) ==> image_mime(path, bytes) == Some("image/jpeg"@),
        signature_mime(bytes) is None && (extension(path) matches Some(name) && lowered(name)
            == "jpeg"@) ==> image_mime(path, bytes) == Some("image/jpeg"@),
        signature_mime(bytes) is None && (extension(path) matches Some(name) && lowered(name)
            == "png"@) ==> image_mime(path, bytes) == Some("image/png"@),
        signature_mime(bytes) is None && (extension(path) matches Some(name) && (lowered(name)
            == "gif"@ || lowered(name) == "webp"@ || lowered(name) == "bmp"@)) ==> image_mime(
            path,
            bytes,
        ) == Some("image/"@ + lowered(extension(path)->0)),
{
    let png = seq![0x89u8, 0x50, 0x4e, 0x47, 0x0d, 0x0a, 0x1a, 0x0a];
    let jpeg = seq![0xffu8, 0xd8, 0xff];
    let gif7 = seq![0x47u8, 0x49, 0x46, 0x38, 0x37, 0x61];
    let gif9 = seq![0x47u8, 0x49, 0x46, 0x38, 0x39, 0x61];
    let riff = seq![0x52u8, 0x49, 0x46, 0x46];
    let bmp = seq![0x42u8, 0x4d];
    assert forall|b: Seq<u8>| #[trigger] signature_mime(b) == signature_mime(b) implies (
    png.is_prefix_of(b) ==> b[0] == 0x89) && (jpeg.is_prefix_of(b) ==> b[0] == 0xff) && (
    gif7.is_prefix_of(b) ==> b[0] == 0x47 && b[4] == 0x37) && (gif9.is_prefix_of(b) ==> b[0] == 0x47
        && b[4] == 0x39) && (riff.is_prefix_of(b) ==> b[0] == 0x52) && (bmp.is_prefix_of(b) ==> b[0]
        == 0x42) by {
        if png.is_prefix_of(b) {
            assert(png[0] == b[0]);
        }
        if jpeg.is_prefix_of(b) {
            assert(jpeg[0] == b[0]);
        }
        if gif7.is_prefix_of(b) {
            assert(gif7[0] == b[0] && gif7[4] == b[4]);
        }
        if gif9.is_prefix_of(b) {
            assert(gif9[0] == b[0] && gif9[4] == b[4]);
        }
        if riff.is_prefix_of(b) {
            assert(riff[0] == b[0]);
        }
        if bmp.is_prefix_of(b) {
            assert(bmp[0] == b[0]);
        }
    }
    assert(png.is_prefix_of(png + rest));
    assert((jpeg + rest)[0] == 0xff);
    assert(jpeg.is_prefix_of(jpeg + rest));
    assert((gif7 + rest)[0] == 0x47);
    assert(gif7.is_prefix_of(gif7 + rest));
    assert((gif9 + rest)[0] == 0x47);
    assert(gif9.is_prefix_of(gif9 + rest));
    assert((bmp + rest)[0] == 0x42);
    assert(bmp.is_prefix_of(bmp + rest));
    if bytes.len() == 4 {
        let webp = riff + bytes + seq![0x57u8, 0x45, 0x42, 0x50] + rest;
        assert(webp[0] == 0x52);
        assert(riff.is_prefix_of(webp));
        assert(webp.subrange(8, 12) =~= seq![0x57u8, 0x45, 0x42, 0x50]);
    }
    reveal_strlit("png");
    reveal_strlit("jpg");
    reveal_strlit("jpeg");
    reveal_strlit("gif");
    reveal_strlit("webp");
    reveal_strlit("bmp");
    reveal_strlit("image/");
    reveal_strlit("image/gif");
    reveal_strlit("image/webp");
    reveal_strlit("image/bmp");
    assert("png"@[0] == 'p' && "jpg"@[0] == 'j' && "jpeg"@[0] == 'j' && "gif"@[0] == 'g'
        && "webp"@[0] == 'w' && "bmp"@[0] == 'b' && "jpg"@.len() == 3 && "jpeg"@.len() == 4);
    assert("image/"@ + "gif"@ =~= "image/gif"@);
    assert("image/"@ + "webp"@ =~= "image/webp"@);
    assert("image/"@ + "bmp"@ =~= "image/bmp"@);
}

/// Web addresses are taken as they stand and count for nothing; files are read; an
/// image that is written out counts by its text; and what is neither is refused.
pub proof fn images_are_taken_in(state: IntakeView, value: Seq<char>, on_windows: bool)
    requires
        trimmed(value) == value,
    ensures
        value.len() == 0 ==> intake_step(state, value, on_windows) is Refused,
        "http://"@.is_prefix_of(value) || "https://"@.is_prefix_of(value) ==> intake_step(
            state,
            value,
            on_windows,
        ) == StepView::Taken(IntakeView { normalized: state.normalized.push(value), ..state }),
        value.len() > 0 && !"http://"@.is_prefix_of(value) && !"https://"@.is_prefix_of(value)
            && !"data:"@.is_prefix_of(value) ==> intake_step(state, value, on_windows)
            == StepView::Read(image_path(value, on_windows)),
        (intake_step(state, value, on_windows) matches StepView::Taken(after) ==> {
            &&& after.normalized == state.normalized.push(value)
            &&& after.max_bytes == state.max_bytes
            &&& after.total_bytes == state.total_bytes || after.total_bytes == state.total_bytes
                + encode_utf8(value).len()
            &&& after.total_bytes != state.total_bytes ==> "data:image/"@.is_prefix_of(value)
                && holds(value, ";base64,"@)
        }),
{
    reveal_strlit("http://");
    reveal_strlit("https://");
    reveal_strlit("data:");
}

/// Encoded images may be a third longer than the bytes that they stand for.
pub proof fn written_images_may_be_longer(limit: nat)
    requires
        limit * 4 <= usize::MAX,
    ensures
        3 * text_limit(limit) >= 4 * limit,
        3 * text_limit(limit) < 4 * limit + 3,
{
}

/// What is set as the limit is the limit, unless it is no positive number.
pub proof fn limits_are_set(setting: Option<Seq<char>>, n: nat)
    ensures
        setting is None ==> vision_limit(setting) == 64 * 1024 * 1024,
        (setting matches Some(text) && parsed_unsigned(trimmed(text), usize::MAX as nat) is None)
            ==> vision_limit(setting) == 64 * 1024 * 1024,
        (setting matches Some(text) && parsed_unsigned(trimmed(text), usize::MAX as nat) == Some(
            0nat,
        )) ==> vision_limit(setting) == 64 * 1024 * 1024,
        n > 0 && (setting matches Some(text) && parsed_unsigned(trimmed(text), usize::MAX as nat)
            == Some(n)) ==> vision_limit(setting) == n,
{
}

/// A file address stands for its path; drive letters lose the slash before them where
/// there are any.
pub proof fn file_addresses_stand_for_paths(path: Seq<char>, on_windows: bool)
    ensures
        image_path("file://"@ + path, false) == path,
        path.len() > 0 && path[0] != '/' ==> image_path("file://"@ + path, on_windows) == path,
        !"file://"@.is_prefix_of(path) ==> image_path(path, on_windows) == path,
        image_path("file://"@ + path, true) == path || image_path("file://"@ + path, true)
            == path.skip(1),
{
    reveal_strlit("/");
    assert("file://"@.is_prefix_of("file://"@ + path));
    assert(("file://"@ + path).skip("file://"@.len() as int) =~= path);
    if "/"@.is_prefix_of(path) {
        assert(path[0] == "/"@[0]);
    }
}

} // verus!
