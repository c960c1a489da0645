//! The protocol between the assistant and its rendering worker: frames with a
//! length before them, and answers that are either images or an error.

use crate::numbers::{decimal, decimal_text};
use crate::text::{
    chars_of, lossy_text, res_text, slice_text, text_from_utf8, text_from_utf8_lossy, views,
};
use vstd::prelude::*;
use vstd::string::*;
use vstd::utf8::{decode_utf8, encode_utf8, valid_utf8};

verus! {

/// The longest request.
pub const MAX_REQUEST_FRAME_BYTES: usize = 524288;

/// The longest error.
pub const MAX_ERROR_FRAME_BYTES: usize = 65536;

/// How many images an answer holds at most.
pub const MAX_RESPONSE_IMAGES: usize = 1;

/// The longest name of a type of media.
pub const MAX_MIME_BYTES: usize = 64;

// ---------------------------------------------------------------------------
// Numbers and fields

/// A number as four bytes, the highest first.
#[verifier::opaque]
pub open spec fn be32(n: u32) -> Seq<u8> {
    seq![
        (n / 0x100_0000) as u8,
        (n / 0x1_0000 % 256) as u8,
        (n / 0x100 % 256) as u8,
        (n % 256) as u8,
    ]
}

/// The number that four bytes stand for.
pub open spec fn from_be32(b: Seq<u8>, at: int) -> u32 {
    (b[at] * 0x100_0000 + b[at + 1] * 0x1_0000 + b[at + 2] * 0x100 + b[at + 3]) as u32
}

/// The number that the bytes at `at` stand for, where they are there.
pub open spec fn number_at(b: Seq<u8>, at: int) -> Option<u32> {
    if 0 <= at && at + 4 <= b.len() {
        Some(from_be32(b, at))
    } else {
        None
    }
}

/// Bytes with their number before them.
pub open spec fn sized(bytes: Seq<u8>) -> Seq<u8> {
    be32(bytes.len() as u32) + bytes
}

proof fn lemma_be32_len(n: u32)
    ensures
        be32(n).len() == 4,
{
    reveal(be32);
}

/// A number read back is the number written.
pub proof fn law_number_reads_back(n: u32, before: Seq<u8>, after: Seq<u8>)
    ensures
        number_at(before + be32(n) + after, before.len() as int) == Some(n),
{
    reveal(be32);
    let b = before + be32(n) + after;
    let at = before.len() as int;
    assert(b[at] == (n / 0x100_0000) as u8);
    assert(b[at + 1] == (n / 0x1_0000 % 256) as u8);
    assert(b[at + 2] == (n / 0x100 % 256) as u8);
    assert(b[at + 3] == (n % 256) as u8);
    assert(n == n / 0x100_0000 * 0x100_0000 + n / 0x1_0000 % 256 * 0x1_0000 + n / 0x100 % 256 * 0x100
        + n % 256);
}

/// Writes a number.
pub fn write_u32_value(out: &mut Vec<u8>, value: u32)
    ensures
        final(out)@ == old(out)@ + be32(value),
{
    out.push((value / 0x100_0000) as u8);
    out.push((value / 0x1_0000 % 256) as u8);
    out.push((value / 0x100 % 256) as u8);
    out.push((value % 256) as u8);
    proof {
        reveal(be32);
    }
    assert(out@ =~= old(out)@ + be32(value));
}

/// Writes a count; one that does not fit is refused.
pub fn write_u32(out: &mut Vec<u8>, value: usize, label: &str) -> (r: Result<(), String>)
    ensures
        res_text(r) == (if value <= u32::MAX {
            Ok(())
        } else {
            Err(label@ + " does not fit in u32"@)
        }),
        final(out)@ == (if value <= u32::MAX {
            old(out)@ + be32(value as u32)
        } else {
            old(out)@
        }),
{
    if value as u64 > u32::MAX as u64 {
        let mut m: String = label.to_owned();
        m.append(" does not fit in u32");
        return Err(m);
    }
    write_u32_value(out, value as u32);
    Ok(())
}

fn append_bytes(out: &mut Vec<u8>, bytes: &[u8])
    ensures
        final(out)@ == old(out)@ + bytes@,
{
    let mut i: usize = 0;
    while i < bytes.len()
        invariant
            i <= bytes.len(),
            out@ =~= old(out)@ + bytes@.take(i as int),
        decreases bytes.len() - i,
    {
        out.push(bytes[i]);
        i += 1;
    }
    assert(bytes@.take(bytes.len() as int) =~= bytes@);
}

/// Why a field is not written.
pub open spec fn field_error(label: Seq<char>, limit: nat) -> Seq<char> {
    label + " exceeds the "@ + decimal(limit) + "-byte limit"@
}

/// Writes a field of at most `limit` bytes.
pub fn write_sized_bytes(out: &mut Vec<u8>, bytes: &[u8], limit: usize, label: &str) -> (r: Result<
    (),
    String,
>)
    requires
        limit <= u32::MAX,
    ensures
        res_text(r) == (if bytes@.len() <= limit {
            Ok(())
        } else {
            Err(field_error(label@, limit as nat))
        }),
        final(out)@ == (if bytes@.len() <= limit {
            old(out)@ + sized(bytes@)
        } else {
            old(out)@
        }),
{
    if bytes.len() > limit {
        let mut m: String = label.to_owned();
        m.append(" exceeds the ");
        let digits: String = decimal_text(limit as u64);
        m.append(&digits);
        m.append("-byte limit");
        return Err(m);
    }
    write_u32_value(out, bytes.len() as u32);
    append_bytes(out, bytes);
    assert(out@ =~= old(out)@ + sized(bytes@));
    Ok(())
}

/// Why something is not read.
pub enum ReadError {
    /// Bytes are missing still.
    Incomplete,
    /// What was read cannot be.
    Invalid(String),
}

/// The models of [`ReadError`].
pub enum ReadErrorModel {
    Incomplete,
    Invalid(Seq<char>),
}

impl View for ReadError {
    type V = ReadErrorModel;

    open spec fn view(&self) -> ReadErrorModel {
        match *self {
            ReadError::Incomplete => ReadErrorModel::Incomplete,
            ReadError::Invalid(m) => ReadErrorModel::Invalid(m@),
        }
    }
}

/// The number at `at`.
pub fn read_u32(b: &Vec<u8>, at: usize) -> (r: Option<u32>)
    ensures
        r == number_at(b@, at as int),
{
    if at > b.len() || b.len() - at < 4 {
        return None;
    }
    let n: u32 = (b[at] as u32) * 0x100_0000 + (b[at + 1] as u32) * 0x1_0000 + (b[at + 2] as u32)
        * 0x100 + (b[at + 3] as u32);
    Some(n)
}

/// The byte at `at`.
pub fn read_byte(b: &Vec<u8>, at: usize) -> (r: Option<u8>)
    ensures
        r == (if at < b.len() {
            Some(b@[at as int])
        } else {
            None
        }),
{
    if at < b.len() {
        Some(b[at])
    } else {
        None
    }
}

/// The field at `at`, and where it ends.
pub open spec fn field_at(b: Seq<u8>, at: int, limit: nat) -> Result<(Seq<u8>, int), ReadErrorModel> {
    match number_at(b, at) {
        None => Err(ReadErrorModel::Incomplete),
        Some(n) => if n > limit {
            Err(
                ReadErrorModel::Invalid(
                    "renderer response field exceeds the "@ + decimal(limit) + "-byte limit"@,
                ),
            )
        } else if at + 4 + n > b.len() {
            Err(ReadErrorModel::Incomplete)
        } else {
            Ok((b.subrange(at + 4, at + 4 + n), at + 4 + n))
        },
    }
}

fn copy_range(b: &Vec<u8>, lo: usize, hi: usize) -> (r: Vec<u8>)
    requires
        lo <= hi <= b.len(),
    ensures
        r@ == b@.subrange(lo as int, hi as int),
{
    let mut out: Vec<u8> = Vec::new();
    let mut i: usize = lo;
    while i < hi
        invariant
            lo <= i <= hi <= b.len(),
            out@ =~= b@.subrange(lo as int, i as int),
        decreases hi - i,
    {
        out.push(b[i]);
        i += 1;
    }
    out
}

/// The field at `at` of at most `limit` bytes, and where it ends.
pub fn read_sized_bytes(b: &Vec<u8>, at: usize, limit: usize) -> (r: Result<
    (Vec<u8>, usize),
    ReadError,
>)
    ensures
        (match r {
            Ok(x) => Ok((x.0@, x.1 as int)),
            Err(e) => Err(e@),
        }) == field_at(b@, at as int, limit as nat),
        r is Ok ==> r->Ok_0.1 <= b.len(),
{
    match read_u32(b, at) {
        None => Err(ReadError::Incomplete),
        Some(n) => {
            if n as u64 > limit as u64 {
                let mut m: String = "renderer response field exceeds the ".to_owned();
                let digits: String = decimal_text(limit as u64);
                m.append(&digits);
                m.append("-byte limit");
                return Err(ReadError::Invalid(m));
            }
            assert(at + 4 <= b.len());
            let start: usize = at + 4;
            if b.len() - start < n as usize {
                return Err(ReadError::Incomplete);
            }
            let end: usize = start + n as usize;
            Ok((copy_range(b, start, end), end))
        }
    }
}

proof fn lemma_field_reads_back(bytes: Seq<u8>, before: Seq<u8>, after: Seq<u8>, limit: nat)
    requires
        bytes.len() <= limit,
        bytes.len() <= u32::MAX,
    ensures
        field_at(before + sized(bytes) + after, before.len() as int, limit) == Ok::<
            (Seq<u8>, int),
            ReadErrorModel,
        >((bytes, (before.len() + 4 + bytes.len()) as int)),
{
    let b = before + sized(bytes) + after;
    let n = bytes.len() as u32;
    lemma_be32_len(n);
    law_number_reads_back(n, before, bytes + after);
    assert(b =~= before + be32(n) + (bytes + after));
    assert(b.subrange((before.len() + 4) as int, before.len() + 4 + n) =~= bytes);
}

// ---------------------------------------------------------------------------
// Requests

/// Why a request is not written.
pub open spec fn request_error() -> Seq<char> {
    "renderer request frame exceeds the "@ + decimal(MAX_REQUEST_FRAME_BYTES as nat)
        + "-byte limit"@
}

/// The frame of a request: its length, then its bytes; one over the limit is
/// refused.
pub fn write_frame(payload: &Vec<u8>) -> (r: Result<Vec<u8>, String>)
    ensures
        (match r {
            Ok(v) => Ok(v@),
            Err(e) => Err(e@),
        }) == (if payload.len() <= MAX_REQUEST_FRAME_BYTES {
            Ok(sized(payload@))
        } else {
            Err(request_error())
        }),
{
    if payload.len() > MAX_REQUEST_FRAME_BYTES {
        let mut m: String = "renderer request frame exceeds the ".to_owned();
        let digits: String = decimal_text(MAX_REQUEST_FRAME_BYTES as u64);
        m.append(&digits);
        m.append("-byte limit");
        return Err(m);
    }
    let mut out: Vec<u8> = Vec::new();
    write_u32_value(&mut out, payload.len() as u32);
    append_bytes(&mut out, payload.as_slice());
    assert(out@ =~= sized(payload@));
    Ok(out)
}

/// What a stream of frames begins with.
pub open spec fn frame_of(b: Seq<u8>, limit: nat) -> Result<Seq<u8>, ReadErrorModel> {
    match number_at(b, 0) {
        None => Err(ReadErrorModel::Incomplete),
        Some(n) => if n > limit {
            Err(
                ReadErrorModel::Invalid(
                    "renderer frame exceeds the "@ + decimal(limit) + "-byte limit"@,
                ),
            )
        } else if 4 + n > b.len() {
            Err(ReadErrorModel::Incomplete)
        } else {
            Ok(b.subrange(4, 4 + n))
        },
    }
}

/// The length of the frame whose first four bytes are given; one over the limit is
/// refused before anything of it is read.
pub fn frame_length(header: &Vec<u8>, limit: usize) -> (r: Result<usize, ReadError>)
    ensures
        match r {
            Ok(n) => number_at(header@, 0) == Some(n as u32) && n <= limit && n <= u32::MAX,
            Err(ReadError::Incomplete) => number_at(header@, 0) is None,
            Err(ReadError::Invalid(m)) => number_at(header@, 0) is Some && number_at(header@, 0)->0
                > limit && m@ == "renderer frame exceeds the "@ + decimal(limit as nat)
                + "-byte limit"@,
        },
{
    match read_u32(header, 0) {
        None => Err(ReadError::Incomplete),
        Some(n) => {
            if n as u64 > limit as u64 {
                let mut m: String = "renderer frame exceeds the ".to_owned();
                let digits: String = decimal_text(limit as u64);
                m.append(&digits);
                m.append("-byte limit");
                return Err(ReadError::Invalid(m));
            }
            Ok(n as usize)
        }
    }
}

/// What a stream of frames begins with: the bytes of one frame.
pub fn read_frame(b: &Vec<u8>, limit: usize) -> (r: Result<Vec<u8>, ReadError>)
    ensures
        (match r {
            Ok(v) => Ok(v@),
            Err(e) => Err(e@),
        }) == frame_of(b@, limit as nat),
{
    match frame_length(b, limit) {
        Err(e) => Err(e),
        Ok(n) => {
            if b.len() - 4 < n {
                return Err(ReadError::Incomplete);
            }
            Ok(copy_range(b, 4, 4 + n))
        }
    }
}

/// A request read back is the request written.
pub proof fn law_request_reads_back(payload: Seq<u8>, after: Seq<u8>)
    requires
        payload.len() <= MAX_REQUEST_FRAME_BYTES,
    ensures
        frame_of(sized(payload) + after, MAX_REQUEST_FRAME_BYTES as nat) == Ok::<
            Seq<u8>,
            ReadErrorModel,
        >(payload),
{
    let b = sized(payload) + after;
    lemma_be32_len(payload.len() as u32);
    law_number_reads_back(payload.len() as u32, Seq::empty(), payload + after);
    assert(b =~= Seq::<u8>::empty() + be32(payload.len() as u32) + (payload + after));
    assert(b.subrange(4, (4 + payload.len()) as int) =~= payload);
}

// ---------------------------------------------------------------------------
// Answers

/// An image that was rendered.
pub struct RenderedImage {
    pub mime: String,
    pub png: Vec<u8>,
    pub width: u32,
    pub height: u32,
}

/// What a [`RenderedImage`] holds, as values.
#[verifier::ext_equal]
pub struct RenderedImageModel {
    pub mime: Seq<char>,
    pub png: Seq<u8>,
    pub width: u32,
    pub height: u32,
}

impl View for RenderedImage {
    type V = RenderedImageModel;

    open spec fn view(&self) -> RenderedImageModel {
        RenderedImageModel {
            mime: self.mime@,
            png: self.png@,
            width: self.width,
            height: self.height,
        }
    }
}


/// How large the images of an answer may be. One page alone is never too much for an
/// answer.
pub struct PageLimits {
    max_width: u32,
    max_height: u32,
    max_pixels: u64,
    max_page_png: u32,
    max_total_png: u64,
}

/// What a [`PageLimits`] holds, as values.
pub struct PageLimitsModel {
    pub max_width: u32,
    pub max_height: u32,
    pub max_pixels: u64,
    pub max_page_png: u32,
    pub max_total_png: u64,
}

impl PageLimitsModel {
    /// Whether one page alone is not too much for an answer.
    pub open spec fn wf(self) -> bool {
        self.max_page_png <= self.max_total_png
    }
}

impl View for PageLimits {
    type V = PageLimitsModel;

    closed spec fn view(&self) -> PageLimitsModel {
        PageLimitsModel {
            max_width: self.max_width,
            max_height: self.max_height,
            max_pixels: self.max_pixels,
            max_page_png: self.max_page_png,
            max_total_png: self.max_total_png,
        }
    }
}

impl PageLimits {
    #[verifier::type_invariant]
    spec fn holds(self) -> bool {
        self@.wf()
    }

    /// The limits with these values; none where one page would be too much for an
    /// answer.
    pub fn new(
        max_width: u32,
        max_height: u32,
        max_pixels: u64,
        max_page_png: u32,
        max_total_png: u64,
    ) -> (r: Option<PageLimits>)
        ensures
            r is Some <==> max_page_png <= max_total_png,
            r is Some ==> r->0@ == (PageLimitsModel {
                max_width: max_width,
                max_height: max_height,
                max_pixels: max_pixels,
                max_page_png: max_page_png,
                max_total_png: max_total_png,
            }),
    {
        if max_page_png as u64 > max_total_png {
            return None;
        }
        Some(
            PageLimits {
                max_width: max_width,
                max_height: max_height,
                max_pixels: max_pixels,
                max_page_png: max_page_png,
                max_total_png: max_total_png,
            },
        )
    }
}

/// Whether a page is neither empty nor too large.
pub open spec fn page_fits(limits: PageLimitsModel, width: u32, height: u32) -> bool {
    0 < width <= limits.max_width && 0 < height <= limits.max_height && width * height
        <= limits.max_pixels
}

/// Whether a page is neither empty nor too large.
pub fn validate_page_dimensions(limits: &PageLimits, width: u32, height: u32) -> (r: Result<(), String>)
    ensures
        res_text(r) == (if page_fits(limits@, width, height) {
            Ok(())
        } else {
            Err("renderer page dimensions are outside their limits"@)
        }),
{
    assert(width * height <= 0xffff_ffff * 0xffff_ffff) by (nonlinear_arith)
        requires
            width <= 0xffff_ffff,
            height <= 0xffff_ffff,
    ;
    if width == 0 || height == 0 || width > limits.max_width || height > limits.max_height || (
    width as u64) * (height as u64) > limits.max_pixels {
        return Err("renderer page dimensions are outside their limits".to_owned());
    }
    Ok(())
}

/// Whether an image may be in an answer.
pub open spec fn image_fits(limits: PageLimitsModel, image: RenderedImageModel) -> bool {
    page_fits(limits, image.width, image.height) && image.png.len() <= limits.max_page_png
        && encode_utf8(image.mime).len() <= MAX_MIME_BYTES
}

/// The bytes of an image.
pub open spec fn image_bytes(image: RenderedImageModel) -> Seq<u8> {
    be32(image.width) + be32(image.height) + sized(encode_utf8(image.mime)) + sized(image.png)
}

/// The bytes of images.
pub open spec fn images_bytes(images: Seq<RenderedImageModel>) -> Seq<u8>
    decreases images.len(),
{
    if images.len() == 0 {
        seq![]
    } else {
        image_bytes(images[0]) + images_bytes(images.drop_first())
    }
}

/// The bytes of an answer that holds images.
pub open spec fn answer_bytes(images: Seq<RenderedImageModel>) -> Seq<u8> {
    seq![0u8] + be32(images.len() as u32) + images_bytes(images)
}

/// Why an image is not written.
pub open spec fn image_error(limits: PageLimitsModel, image: RenderedImageModel) -> Option<Seq<char>> {
    if !page_fits(limits, image.width, image.height) {
        Some("renderer page dimensions are outside their limits"@)
    } else if image.png.len() > limits.max_page_png {
        Some("renderer returned a PNG larger than its configured limit"@)
    } else if encode_utf8(image.mime).len() > MAX_MIME_BYTES {
        Some(field_error("renderer MIME type"@, MAX_MIME_BYTES as nat))
    } else {
        None
    }
}

/// The bytes of an answer, or why there are none: the first image that does not fit
/// decides.
pub open spec fn answer_result(limits: PageLimitsModel, images: Seq<RenderedImageModel>) -> Result<
    Seq<u8>,
    Seq<char>,
> {
    if images.len() > MAX_RESPONSE_IMAGES {
        Err("renderer returned more than 1 image"@)
    } else if images.len() == 1 && image_error(limits, images[0]) is Some {
        Err(image_error(limits, images[0])->0)
    } else {
        Ok(answer_bytes(images))
    }
}

fn write_image(out: &mut Vec<u8>, limits: &PageLimits, image: &RenderedImage) -> (r: Result<
    (),
    String,
>)
    ensures
        match r {
            Ok(_) => image_error(limits@, image@) is None && final(out)@ == old(out)@ + image_bytes(
                image@,
            ),
            Err(e) => image_error(limits@, image@) == Some(e@),
        },
{
    match validate_page_dimensions(limits, image.width, image.height) {
        Err(e) => {
            return Err(e);
        }
        Ok(_) => {}
    }
    if image.png.len() as u64 > limits.max_page_png as u64 {
        return Err("renderer returned a PNG larger than its configured limit".to_owned());
    }
    let ghost start = out@;
    write_u32_value(out, image.width);
    write_u32_value(out, image.height);
    let mime: &[u8] = image.mime.as_str().as_bytes();
    match write_sized_bytes(out, mime, MAX_MIME_BYTES, "renderer MIME type") {
        Err(e) => {
            return Err(e);
        }
        Ok(_) => {}
    }
    let limit: usize = limits.max_page_png as usize;
    match write_sized_bytes(out, image.png.as_slice(), limit, "renderer PNG payload") {
        Err(e) => {
            return Err(e);
        }
        Ok(_) => {}
    }
    assert(out@ =~= start + image_bytes(image@));
    Ok(())
}

/// The bytes of an answer that holds images: at most one, within its limits.
fn write_images(limits: &PageLimits, images: &Vec<RenderedImage>) -> (r: Result<
    Vec<u8>,
    String,
>)
    ensures
        (match r {
            Ok(v) => Ok(v@),
            Err(e) => Err(e@),
        }) == answer_result(limits@, views(images@)),
{
    if images.len() > MAX_RESPONSE_IMAGES {
        return Err("renderer returned more than 1 image".to_owned());
    }
    let ghost all = views(images@);
    let mut out: Vec<u8> = Vec::new();
    out.push(0);
    write_u32_value(&mut out, images.len() as u32);
    let ghost head = out@;
    assert(head =~= seq![0u8] + be32(images.len() as u32));
    if images.len() == 1 {
        assert(all[0] == images@[0]@);
        match write_image(&mut out, limits, &images[0]) {
            Err(e) => {
                return Err(e);
            }
            Ok(_) => {}
        }
        assert(all.drop_first() =~= seq![]);
        assert(images_bytes(all.drop_first()) =~= seq![]);
        assert(images_bytes(all) =~= image_bytes(all[0]));
    } else {
        assert(all =~= seq![]);
    }
    assert(out@ =~= answer_bytes(all));
    Ok(out)
}

/// How many bytes a character takes in UTF-8.
pub open spec fn utf8_width(c: char) -> nat {
    if c as u32 <= 0x7f {
        1
    } else if c as u32 <= 0x7ff {
        2
    } else if c as u32 <= 0xffff {
        3
    } else {
        4
    }
}

/// How many bytes the first `n` characters take in UTF-8.
pub open spec fn utf8_len(s: Seq<char>, n: nat) -> nat
    decreases n,
{
    if n == 0 {
        0
    } else {
        utf8_len(s, (n - 1) as nat) + utf8_width(s[n - 1])
    }
}

/// How many characters fit into `limit` bytes.
pub open spec fn fitting(s: Seq<char>, n: nat, limit: nat) -> nat
    decreases n,
{
    if n == 0 || utf8_len(s, n) <= limit {
        n
    } else {
        fitting(s, (n - 1) as nat, limit)
    }
}

/// A message cut to `limit` bytes, at the end of a character.
pub open spec fn cut_message(s: Seq<char>, limit: nat) -> Seq<char> {
    s.take(fitting(s, s.len(), limit) as int)
}

proof fn lemma_encode_len(s: Seq<char>)
    ensures
        encode_utf8(s).len() == utf8_len(s, s.len()),
    decreases s.len(),
{
    if s.len() > 0 {
        let t = s.drop_first();
        lemma_encode_len(t);
        lemma_utf8_len_shift(s, s.len());
        vstd::utf8::char_is_scalar(s[0]);
    }
}

proof fn lemma_utf8_len_shift(s: Seq<char>, n: nat)
    requires
        0 < n <= s.len(),
    ensures
        utf8_len(s, n) == utf8_width(s[0]) + utf8_len(s.drop_first(), (n - 1) as nat),
    decreases n,
{
    if n > 1 {
        lemma_utf8_len_shift(s, (n - 1) as nat);
        assert(s.drop_first()[n - 2] == s[n - 1]);
    } else {
        assert(utf8_len(s, 0) == 0);
        assert(utf8_len(s.drop_first(), 0) == 0);
    }
}

proof fn lemma_utf8_len_take(s: Seq<char>, n: nat, m: nat)
    requires
        n <= m <= s.len(),
    ensures
        utf8_len(s.take(m as int), n) == utf8_len(s, n),
    decreases n,
{
    if n > 0 {
        lemma_utf8_len_take(s, (n - 1) as nat, m);
        assert(s.take(m as int)[n - 1] == s[n - 1]);
    }
}

proof fn lemma_fitting(s: Seq<char>, n: nat, limit: nat)
    requires
        n <= s.len(),
    ensures
        fitting(s, n, limit) <= n,
        utf8_len(s, fitting(s, n, limit)) <= limit,
    decreases n,
{
    if n > 0 && utf8_len(s, n) > limit {
        lemma_fitting(s, (n - 1) as nat, limit);
    }
}

proof fn lemma_fitting_is_most(s: Seq<char>, n: nat, k: nat, limit: nat)
    requires
        k <= n <= s.len(),
        utf8_len(s, k) <= limit,
    ensures
        k <= fitting(s, n, limit),
    decreases n,
{
    if k < n {
        lemma_fitting_is_most(s, (n - 1) as nat, k, limit);
    }
}

/// A cut message is the longest beginning of the message that takes no more than the
/// limit; so a message that fits is not cut.
pub proof fn law_cut_message(s: Seq<char>, limit: nat)
    ensures
        cut_message(s, limit).len() <= s.len(),
        cut_message(s, limit) == s.take(cut_message(s, limit).len() as int),
        encode_utf8(cut_message(s, limit)).len() <= limit,
        forall|k: nat|
            k <= s.len() && encode_utf8(#[trigger] s.take(k as int)).len() <= limit ==> k
                <= cut_message(s, limit).len(),
        encode_utf8(s).len() <= limit ==> cut_message(s, limit) == s,
{
    assert forall|k: nat|
        k <= s.len() && encode_utf8(#[trigger] s.take(k as int)).len() <= limit implies k
        <= cut_message(s, limit).len() by {
        lemma_utf8_len_take(s, k, k);
        lemma_encode_len(s.take(k as int));
        lemma_fitting_is_most(s, s.len(), k, limit);
        lemma_fitting(s, s.len(), limit);
    }
    lemma_fitting(s, s.len(), limit);
    let n = fitting(s, s.len(), limit);
    lemma_utf8_len_take(s, n, n);
    lemma_encode_len(s.take(n as int));
    lemma_encode_len(s);
    assert(s.take(s.len() as int) =~= s);
}

fn width_of(c: char) -> (r: usize)
    ensures
        r == utf8_width(c),
{
    let n: u32 = c as u32;
    if n <= 0x7f {
        1
    } else if n <= 0x7ff {
        2
    } else if n <= 0xffff {
        3
    } else {
        4
    }
}

proof fn lemma_fitting_is(s: Seq<char>, n: nat, k: nat, limit: nat)
    requires
        k <= n <= s.len(),
        utf8_len(s, k) <= limit,
        k == n || utf8_len(s, (k + 1) as nat) > limit,
    ensures
        fitting(s, n, limit) == k,
    decreases n,
{
    if k < n {
        lemma_utf8_len_grows(s, (k + 1) as nat, n);
        lemma_fitting_is(s, (n - 1) as nat, k, limit);
    }
}

proof fn lemma_utf8_len_grows(s: Seq<char>, a: nat, b: nat)
    requires
        a <= b,
    ensures
        utf8_len(s, a) <= utf8_len(s, b),
    decreases b,
{
    if a < b {
        lemma_utf8_len_grows(s, a, (b - 1) as nat);
    }
}

/// A message cut to the longest error, at the end of a character.
pub fn bounded_error(message: &str) -> (r: String)
    ensures
        r@ == cut_message(message@, MAX_ERROR_FRAME_BYTES as nat),
{
    let v: Vec<char> = chars_of(message);
    let mut used: usize = 0;
    let mut k: usize = 0;
    while k < v.len() && used + width_of(v[k]) <= MAX_ERROR_FRAME_BYTES
        invariant
            k <= v.len(),
            used == utf8_len(v@, k as nat),
            used <= MAX_ERROR_FRAME_BYTES,
        decreases v.len() - k,
    {
        used += width_of(v[k]);
        k += 1;
    }
    proof {
        lemma_fitting_is(v@, v.len() as nat, k as nat, MAX_ERROR_FRAME_BYTES as nat);
    }
    let r: String = slice_text(&v, 0, k);
    assert(r@ =~= cut_message(message@, MAX_ERROR_FRAME_BYTES as nat));
    r
}

/// The bytes of an answer that holds an error.
pub open spec fn error_bytes(message: Seq<char>) -> Seq<u8> {
    seq![1u8] + sized(encode_utf8(cut_message(message, MAX_ERROR_FRAME_BYTES as nat)))
}

/// The bytes of an answer that holds an error, the message cut to the longest.
fn write_error(message: &str) -> (r: Vec<u8>)
    ensures
        r@ == error_bytes(message@),
{
    let cut: String = bounded_error(message);
    proof {
        law_cut_message(message@, MAX_ERROR_FRAME_BYTES as nat);
    }
    let mut out: Vec<u8> = Vec::new();
    out.push(1);
    let bytes: &[u8] = cut.as_str().as_bytes();
    write_u32_value(&mut out, bytes.len() as u32);
    append_bytes(&mut out, bytes);
    assert(out@ =~= error_bytes(message@));
    out
}

/// What an answer holds.
pub enum WorkerAnswer {
    /// Bytes are missing still.
    Incomplete,
    Images(Vec<RenderedImage>),
    /// The worker could not render.
    Render(String),
    /// The answer cannot be.
    Transport(String),
}

/// The models of [`WorkerAnswer`].
pub enum WorkerAnswerModel {
    Incomplete,
    Images(Seq<RenderedImageModel>),
    Render(Seq<char>),
    Transport(Seq<char>),
}

impl View for WorkerAnswer {
    type V = WorkerAnswerModel;

    open spec fn view(&self) -> WorkerAnswerModel {
        match *self {
            WorkerAnswer::Incomplete => WorkerAnswerModel::Incomplete,
            WorkerAnswer::Images(v) => WorkerAnswerModel::Images(views(v@)),
            WorkerAnswer::Render(m) => WorkerAnswerModel::Render(m@),
            WorkerAnswer::Transport(m) => WorkerAnswerModel::Transport(m@),
        }
    }
}

/// What stands for a field that could not be read.
pub open spec fn failed(e: ReadErrorModel) -> WorkerAnswerModel {
    match e {
        ReadErrorModel::Incomplete => WorkerAnswerModel::Incomplete,
        ReadErrorModel::Invalid(m) => WorkerAnswerModel::Transport(m),
    }
}

/// The image at `at` and where it ends, or why there is none.
pub open spec fn image_at(b: Seq<u8>, at: int, limits: PageLimitsModel) -> Result<
    (RenderedImageModel, int),
    WorkerAnswerModel,
> {
    match (number_at(b, at), number_at(b, at + 4)) {
        (Some(width), Some(height)) => if !page_fits(limits, width, height) {
            Err(
                WorkerAnswerModel::Transport(
                    "renderer page dimensions are outside their limits"@,
                ),
            )
        } else {
            match field_at(b, at + 8, MAX_MIME_BYTES as nat) {
                Err(e) => Err(failed(e)),
                Ok(mime) => if !valid_utf8(mime.0) {
                    Err(
                        WorkerAnswerModel::Transport(
                            "renderer returned a non-UTF-8 MIME type"@,
                        ),
                    )
                } else {
                    match field_at(b, mime.1, limits.max_page_png as nat) {
                        Err(e) => Err(failed(e)),
                        Ok(png) => if png.0.len() > limits.max_total_png {
                            Err(
                                WorkerAnswerModel::Transport(
                                    "renderer response exceeds the total PNG byte limit"@,
                                ),
                            )
                        } else {
                            Ok(
                                (
                                    RenderedImageModel {
                                        mime: decode_utf8(mime.0),
                                        png: png.0,
                                        width: width,
                                        height: height,
                                    },
                                    png.1,
                                ),
                            )
                        },
                    }
                },
            }
        },
        _ => Err(WorkerAnswerModel::Incomplete),
    }
}

/// What an answer holds.
pub open spec fn answer_of(b: Seq<u8>, limits: PageLimitsModel) -> WorkerAnswerModel {
    if b.len() == 0 {
        WorkerAnswerModel::Incomplete
    } else if b[0] == 0 {
        match number_at(b, 1) {
            None => WorkerAnswerModel::Incomplete,
            Some(count) => if count > MAX_RESPONSE_IMAGES {
                WorkerAnswerModel::Transport("renderer response contains too many images"@)
            } else if count == 0 {
                WorkerAnswerModel::Images(seq![])
            } else {
                match image_at(b, 5, limits) {
                    Err(e) => e,
                    Ok(x) => WorkerAnswerModel::Images(seq![x.0]),
                }
            },
        }
    } else if b[0] == 1 {
        match field_at(b, 1, MAX_ERROR_FRAME_BYTES as nat) {
            Err(e) => failed(e),
            Ok(m) => WorkerAnswerModel::Render(lossy_text(m.0)),
        }
    } else {
        WorkerAnswerModel::Transport(
            "renderer response has unknown status byte "@ + decimal(b[0] as nat),
        )
    }
}

fn fail(e: ReadError) -> (r: WorkerAnswer)
    ensures
        r@ == failed(e@),
{
    match e {
        ReadError::Incomplete => WorkerAnswer::Incomplete,
        ReadError::Invalid(m) => WorkerAnswer::Transport(m),
    }
}

fn read_image(b: &Vec<u8>, at: usize, limits: &PageLimits) -> (r: Result<RenderedImage, WorkerAnswer>)
    requires
        at <= b.len(),
    ensures
        match r {
            Ok(x) => image_at(b@, at as int, limits@) is Ok && image_at(
                b@,
                at as int,
                limits@,
            )->Ok_0.0 == x@,
            Err(e) => image_at(b@, at as int, limits@) == Err::<
                (RenderedImageModel, int),
                WorkerAnswerModel,
            >(e@),
        },
{
    let width: u32 = match read_u32(b, at) {
        Some(n) => n,
        None => {
            return Err(WorkerAnswer::Incomplete);
        }
    };
    let height: u32 = match read_u32(b, at + 4) {
        Some(n) => n,
        None => {
            return Err(WorkerAnswer::Incomplete);
        }
    };
    match validate_page_dimensions(limits, width, height) {
        Err(e) => {
            return Err(WorkerAnswer::Transport(e));
        }
        Ok(_) => {}
    }
    let (mime_bytes, next): (Vec<u8>, usize) = match read_sized_bytes(b, at + 8, MAX_MIME_BYTES) {
        Err(e) => {
            return Err(fail(e));
        }
        Ok(x) => x,
    };
    let mime: String = match text_from_utf8(mime_bytes) {
        Some(s) => s,
        None => {
            return Err(
                WorkerAnswer::Transport("renderer returned a non-UTF-8 MIME type".to_owned()),
            );
        }
    };
    let limit: usize = limits.max_page_png as usize;
    let (png, _): (Vec<u8>, usize) = match read_sized_bytes(b, next, limit) {
        Err(e) => {
            return Err(fail(e));
        }
        Ok(x) => x,
    };
    if png.len() as u64 > limits.max_total_png {
        return Err(
            WorkerAnswer::Transport(
                "renderer response exceeds the total PNG byte limit".to_owned(),
            ),
        );
    }
    Ok(RenderedImage { mime: mime, png: png, width: width, height: height })
}

/// What an answer holds, as far as its bytes are there.
pub fn read_worker_response(b: &Vec<u8>, limits: &PageLimits) -> (r: WorkerAnswer)
    ensures
        r@ == answer_of(b@, limits@),
{
    let status: u8 = match read_byte(b, 0) {
        Some(s) => s,
        None => {
            return WorkerAnswer::Incomplete;
        }
    };
    if status == 0 {
        match read_u32(b, 1) {
            None => WorkerAnswer::Incomplete,
            Some(count) => {
                if count > MAX_RESPONSE_IMAGES as u32 {
                    return WorkerAnswer::Transport(
                        "renderer response contains too many images".to_owned(),
                    );
                }
                let mut images: Vec<RenderedImage> = Vec::new();
                if count == 0 {
                    assert(views(images@) =~= seq![]);
                    return WorkerAnswer::Images(images);
                }
                match read_image(b, 5, limits) {
                    Err(e) => e,
                    Ok(x) => {
                        images.push(x);
                        assert(views(images@) =~= seq![x@]);
                        WorkerAnswer::Images(images)
                    }
                }
            }
        }
    } else if status == 1 {
        match read_sized_bytes(b, 1, MAX_ERROR_FRAME_BYTES) {
            Err(e) => fail(e),
            Ok(x) => WorkerAnswer::Render(text_from_utf8_lossy(&x.0)),
        }
    } else {
        let mut m: String = "renderer response has unknown status byte ".to_owned();
        let digits: String = decimal_text(status as u64);
        m.append(&digits);
        WorkerAnswer::Transport(m)
    }
}

proof fn lemma_image_reads_back(x: RenderedImageModel, h: Seq<u8>, limits: PageLimitsModel)
    requires
        image_fits(limits, x),
        x.png.len() <= limits.max_total_png,
    ensures
        image_at(h + image_bytes(x), h.len() as int, limits) is Ok,
        image_at(h + image_bytes(x), h.len() as int, limits)->Ok_0.0 == x,
{
    let b = h + image_bytes(x);
    let at = h.len() as int;
    let mime = encode_utf8(x.mime);
    let w = be32(x.width);
    let t = be32(x.height);
    let tail = sized(mime) + sized(x.png);
    lemma_be32_len(x.width);
    lemma_be32_len(x.height);
    lemma_be32_len(mime.len() as u32);
    assert(b =~= h + w + (t + tail));
    law_number_reads_back(x.width, h, t + tail);
    assert(number_at(b, at) == Some(x.width));
    assert(b =~= (h + w) + t + tail);
    law_number_reads_back(x.height, h + w, tail);
    assert(number_at(b, at + 4) == Some(x.height));
    let h2 = h + w + t;
    assert(b =~= h2 + sized(mime) + sized(x.png));
    lemma_field_reads_back(mime, h2, sized(x.png), MAX_MIME_BYTES as nat);
    assert(h2.len() == at + 8);
    let h3 = h2 + sized(mime);
    assert(h3.len() == at + 8 + 4 + mime.len());
    assert(b =~= h3 + sized(x.png) + Seq::<u8>::empty());
    lemma_field_reads_back(x.png, h3, Seq::empty(), limits.max_page_png as nat);
    vstd::utf8::encode_utf8_valid_utf8(x.mime);
    vstd::utf8::encode_utf8_decode_utf8(x.mime);
}

/// Images that fit are read back as they were written.
pub proof fn law_images_read_back(images: Seq<RenderedImageModel>, limits: PageLimitsModel)
    requires
        limits.wf(),
        images.len() <= MAX_RESPONSE_IMAGES,
        forall|i: int| 0 <= i < images.len() ==> image_fits(limits, #[trigger] images[i]),
    ensures
        answer_of(answer_bytes(images), limits) == WorkerAnswerModel::Images(images),
{
    let b = answer_bytes(images);
    let n = images.len() as u32;
    lemma_be32_len(n);
    law_number_reads_back(n, seq![0u8], images_bytes(images));
    assert(b =~= seq![0u8] + be32(n) + images_bytes(images));
    if images.len() == 0 {
        assert(images =~= seq![]);
    } else {
        let x = images[0];
        let h = seq![0u8] + be32(n);
        assert(images.drop_first() =~= seq![]);
        assert(images_bytes(images.drop_first()) =~= seq![]);
        assert(images_bytes(images) =~= image_bytes(x));
        assert(b =~= h + image_bytes(x));
        assert(image_fits(limits, x));
        lemma_image_reads_back(x, h, limits);
        assert(images =~= seq![x]);
    }
}

/// An error is read back as it was written, cut to the longest.
pub proof fn law_errors_read_back(message: Seq<char>, limits: PageLimitsModel)
    ensures
        answer_of(error_bytes(message), limits) == WorkerAnswerModel::Render(
            cut_message(message, MAX_ERROR_FRAME_BYTES as nat),
        ),
{
    let cut = cut_message(message, MAX_ERROR_FRAME_BYTES as nat);
    let bytes = encode_utf8(cut);
    law_cut_message(message, MAX_ERROR_FRAME_BYTES as nat);
    let b = error_bytes(message);
    lemma_be32_len(bytes.len() as u32);
    assert(b =~= seq![1u8] + sized(bytes) + Seq::<u8>::empty());
    lemma_field_reads_back(bytes, seq![1u8], Seq::empty(), MAX_ERROR_FRAME_BYTES as nat);
    vstd::utf8::encode_utf8_valid_utf8(cut);
    vstd::utf8::encode_utf8_decode_utf8(cut);
}

/// What a worker rendered, or why it could not.
pub open spec fn rendered(result: Result<Vec<RenderedImage>, String>) -> Result<
    Seq<RenderedImageModel>,
    Seq<char>,
> {
    match result {
        Ok(images) => Ok(views(images@)),
        Err(message) => Err(message@),
    }
}

/// The bytes of the answer to what a worker rendered, or why there are none.
pub open spec fn response_bytes(
    limits: PageLimitsModel,
    result: Result<Seq<RenderedImageModel>, Seq<char>>,
) -> Result<Seq<u8>, Seq<char>> {
    match result {
        Ok(images) => answer_result(limits, images),
        Err(message) => Ok(error_bytes(message)),
    }
}

/// What the other side reads of the answer to what a worker rendered.
pub open spec fn read_back(result: Result<Seq<RenderedImageModel>, Seq<char>>) -> WorkerAnswerModel {
    match result {
        Ok(images) => WorkerAnswerModel::Images(images),
        Err(message) => WorkerAnswerModel::Render(
            cut_message(message, MAX_ERROR_FRAME_BYTES as nat),
        ),
    }
}

/// Whatever a worker rendered, where an answer is written the other side reads what
/// was rendered: the images as they were, or the error, cut to the longest.
pub proof fn law_answers_read_back(
    limits: PageLimitsModel,
    result: Result<Seq<RenderedImageModel>, Seq<char>>,
)
    requires
        limits.wf(),
    ensures
        response_bytes(limits, result) matches Ok(bytes) ==> answer_of(bytes, limits) == read_back(
            result,
        ),
{
    match result {
        Ok(images) => {
            if answer_result(limits, images) is Ok {
                law_images_read_back(images, limits);
            }
        },
        Err(message) => {
            law_errors_read_back(message, limits);
        },
    }
}

/// The bytes of the answer to what a worker rendered: its images, at most one and
/// within the limits, or why it could not render. They are read back as what was
/// rendered, an error cut to the longest.
pub fn write_worker_response(
    limits: &PageLimits,
    result: &Result<Vec<RenderedImage>, String>,
) -> (r: Result<Vec<u8>, String>)
    ensures
        (match r {
            Ok(v) => Ok(v@),
            Err(e) => Err(e@),
        }) == response_bytes(limits@, rendered(*result)),
        r matches Ok(v) ==> answer_of(v@, limits@) == read_back(rendered(*result)),
{
    proof {
        use_type_invariant(limits);
        law_answers_read_back(limits@, rendered(*result));
    }
    match result {
        Ok(images) => write_images(limits, images),
        Err(message) => Ok(write_error(message)),
    }
}

// ---------------------------------------------------------------------------
// What stands where

/// A length is written with its highest byte first, and what it is the length of follows.
pub proof fn law_the_highest_byte_is_first(n: u32, payload: Seq<u8>)
    requires
        payload.len() <= u32::MAX,
    ensures
        be32(n).len() == 4,
        n < 256 ==> be32(n) == seq![0u8, 0u8, 0u8, n as u8],
        n == 0x100_0000 ==> be32(n) == seq![1u8, 0u8, 0u8, 0u8],
        sized(payload).len() == payload.len() + 4,
        sized(payload).take(4) == be32(payload.len() as u32),
        sized(payload).skip(4) == payload,
{
    reveal(be32);
    let head = be32(payload.len() as u32);
    assert(head.len() == 4);
    assert((head + payload).take(4) =~= head);
    assert((head + payload).skip(4) =~= payload);
}

/// An answer begins by saying what it is: pictures, and how many, or an error.
pub proof fn law_answers_say_what_they_are(
    images: Seq<RenderedImageModel>,
    message: Seq<char>,
    rest: Seq<u8>,
    status: u8,
    limits: PageLimitsModel,
)
    ensures
        answer_bytes(images)[0] == 0,
        error_bytes(message)[0] == 1,
        answer_of(seq![], limits) == WorkerAnswerModel::Incomplete,
        status > 1 ==> answer_of(seq![status] + rest, limits) is Transport,
        answer_of(seq![0u8, 0u8, 0u8, 0u8, 0u8], limits) == WorkerAnswerModel::Images(seq![]),
        answer_of(seq![0u8, 0u8, 0u8, 0u8, 2u8], limits) is Transport,
        answer_of(seq![0u8, 0u8, 0u8], limits) == WorkerAnswerModel::Incomplete,
{
    assert((seq![status] + rest)[0] == status);
}

/// One picture within the limits is answered, and one that is too large, or a second one, is
/// not.
pub proof fn law_pictures_that_are_answered(limits: PageLimitsModel, images: Seq<RenderedImageModel>)
    ensures
        images.len() == 0 ==> answer_result(limits, images) is Ok,
        images.len() == 1 ==> (answer_result(limits, images) is Ok <==> 0 < images[0].width
            <= limits.max_width && 0 < images[0].height <= limits.max_height && images[0].width
            * images[0].height <= limits.max_pixels && images[0].png.len() <= limits.max_page_png
            && encode_utf8(images[0].mime).len() <= 64),
        images.len() > 1 ==> answer_result(limits, images) is Err,
{
}

/// A page is drawn where it is within the limits.
pub proof fn law_pages_within_their_limits(
    limits: PageLimits,
    width: u32,
    height: u32,
    r: Result<(), String>,
)
    requires
        call_ensures(validate_page_dimensions, (&limits, width, height), r),
    ensures
        r is Ok <==> 0 < width <= limits@.max_width && 0 < height <= limits@.max_height && width
            * height <= limits@.max_pixels,
{
}

/// A frame that is too long is refused before it is read, and one that has not come whole is
/// waited for.
pub proof fn law_frames_are_waited_for(n: u32, part: Seq<u8>, limit: nat)
    ensures
        n > limit ==> frame_of(be32(n) + part, limit) is Err && frame_of(be32(n) + part, limit)
            != Err::<Seq<u8>, ReadErrorModel>(ReadErrorModel::Incomplete),
        n <= limit && part.len() < n ==> frame_of(be32(n) + part, limit) == Err::<
            Seq<u8>,
            ReadErrorModel,
        >(ReadErrorModel::Incomplete),
        n <= limit && part.len() == n ==> frame_of(be32(n) + part, limit) == Ok::<
            Seq<u8>,
            ReadErrorModel,
        >(part),
        part.len() < 4 ==> frame_of(part, limit) == Err::<Seq<u8>, ReadErrorModel>(
            ReadErrorModel::Incomplete,
        ),
{
    let b = be32(n) + part;
    law_number_reads_back(n, seq![], part);
    assert(Seq::<u8>::empty() + be32(n) + part =~= b);
    assert(be32(n).len() == 4) by {
        reveal(be32);
    }
    if part.len() == n {
        assert(b.len() == 4 + n);
        assert(b.subrange(4, 4 + n) =~= part);
    }
}

} // verus!
