//! Bounded PowerPoint preview: the resource budgets a package must meet
//! before it is rendered, the messages that name a violated budget, and the
//! byte ranges read from a rendered PDF.

use vstd::prelude::*;

use crate::error::{ApplicationError, is_invalid_request};
use crate::text::{
    ascii_lowercase, decimal, path_extension, path_extension_of, push_decimal, to_ascii_lowercase,
};

verus! {

/// Most bytes of a source package.
pub const MAX_PPTX_SOURCE_BYTES: u64 = 64 * 1024 * 1024;

/// Most bytes of all expanded ZIP entries.
pub const MAX_PPTX_EXPANDED_BYTES: u64 = 256 * 1024 * 1024;

/// Most ZIP entries.
pub const MAX_PPTX_ZIP_ENTRIES: usize = 4096;

/// Deepest XML element nesting.
pub const MAX_PPTX_XML_DEPTH: usize = 128;

/// Most slides.
pub const MAX_PPTX_SLIDES: usize = 1000;

/// Most bytes of XML text.
pub const MAX_PPTX_TEXT_BYTES: usize = 4 * 1024 * 1024;

/// Most media items.
pub const MAX_PPTX_MEDIA_ITEMS: usize = 128;

/// Most bytes of all media.
pub const MAX_PPTX_MEDIA_BYTES: usize = 64 * 1024 * 1024;

/// Most bytes of one media item.
pub const MAX_PPTX_SINGLE_MEDIA_BYTES: usize = 64 * 1024 * 1024;

/// Most decoded pixels of one image.
pub const MAX_PPTX_SINGLE_IMAGE_PIXELS: u64 = 16 * 1024 * 1024;

/// Most decoded pixels of all images.
pub const MAX_PPTX_TOTAL_IMAGE_PIXELS: u64 = 32 * 1024 * 1024;

/// Most previews open at once.
pub const MAX_PPTX_SESSIONS: usize = 8;

/// Bytes in one MiB.
pub const MIB: u64 = 1024 * 1024;

/// A limit as text: whole MiB when it is a multiple of one MiB, else bytes.
pub open spec fn limit_text(limit: u64) -> Seq<char> {
    if limit % MIB == 0 {
        decimal((limit / MIB) as nat) + " MiB"@
    } else {
        decimal(limit as nat) + " bytes"@
    }
}

/// The message of a violated byte budget.
pub open spec fn budget_message(resource: Seq<char>, limit: u64) -> Seq<char> {
    "PowerPoint preview cannot open this file because it exceeds the "@ + resource + " limit of "@
        + limit_text(limit) + ". Open it externally."@
}

/// The refusal of a package over a byte budget, naming the resource and its
/// limit in whole MiB when it is a multiple of one MiB.
pub fn budget_error(resource: &str, limit: u64) -> (r: ApplicationError)
    ensures
        is_invalid_request(r, budget_message(resource@, limit)),
{
    let mut m = String::from_str("PowerPoint preview cannot open this file because it exceeds the ");
    m.append(resource);
    m.append(" limit of ");
    if limit % MIB == 0 {
        push_decimal(&mut m, limit / MIB);
        m.append(" MiB");
    } else {
        push_decimal(&mut m, limit);
        m.append(" bytes");
    }
    m.append(". Open it externally.");
    assert(m@ =~= budget_message(resource@, limit));
    ApplicationError::InvalidRequest(m)
}

/// The message of a violated pixel budget.
pub open spec fn pixel_budget_message(resource: Seq<char>, limit: u64) -> Seq<char> {
    "PowerPoint preview exceeds the "@ + resource + " budget ("@ + decimal(limit as nat)
        + " pixels); open it in an external application"@
}

/// The refusal of a package over a decoded-pixel budget.
pub fn pixel_budget_error(resource: &str, limit: u64) -> (r: ApplicationError)
    ensures
        is_invalid_request(r, pixel_budget_message(resource@, limit)),
{
    let mut m = String::from_str("PowerPoint preview exceeds the ");
    m.append(resource);
    m.append(" budget (");
    push_decimal(&mut m, limit);
    m.append(" pixels); open it in an external application");
    ApplicationError::InvalidRequest(m)
}

/// The message of a violated count budget.
pub open spec fn count_budget_message(what: Seq<char>, limit: usize) -> Seq<char> {
    "PowerPoint preview exceeds the "@ + what + " budget ("@ + decimal(limit as nat)
        + "); open it in an external application"@
}

/// The refusal of a package over a count budget (entries, slides, media, depth).
pub fn count_budget_error(what: &str, limit: usize) -> (r: ApplicationError)
    ensures
        is_invalid_request(r, count_budget_message(what@, limit)),
{
    let mut m = String::from_str("PowerPoint preview exceeds the ");
    m.append(what);
    m.append(" budget (");
    push_decimal(&mut m, limit as u64);
    m.append("); open it in an external application");
    ApplicationError::InvalidRequest(m)
}

/// The message of a malformed package.
pub open spec fn malformed_message(detail: Seq<char>) -> Seq<char> {
    "PowerPoint preview is unavailable because the package is malformed: "@ + detail
}

/// The refusal of a malformed package, with the reader's diagnostic.
pub fn invalid_pptx(detail: &str) -> (r: ApplicationError)
    ensures
        is_invalid_request(r, malformed_message(detail@)),
{
    let mut m = String::from_str("PowerPoint preview is unavailable because the package is malformed: ");
    m.append(detail);
    ApplicationError::InvalidRequest(m)
}

/// Whether `s` begins with `p`.
pub open spec fn starts_with(s: Seq<char>, p: Seq<char>) -> bool {
    p.len() <= s.len() && s.take(p.len() as int) == p
}

/// Whether `s` ends with `p`.
pub open spec fn ends_with(s: Seq<char>, p: Seq<char>) -> bool {
    p.len() <= s.len() && s.skip(s.len() - p.len()) == p
}

/// Whether `s` begins with `p`.
pub fn text_starts_with(s: &str, p: &str) -> (r: bool)
    ensures
        r == starts_with(s@, p@),
{
    let n = s.unicode_len();
    let m = p.unicode_len();
    if m > n {
        return false;
    }
    let mut i: usize = 0;
    while i < m
        invariant
            n == s@.len(),
            m == p@.len(),
            m <= n,
            i <= m,
            forall|j: int| 0 <= j < i ==> s@[j] == p@[j],
        decreases m - i,
    {
        if s.get_char(i) != p.get_char(i) {
            assert(s@.take(m as int)[i as int] != p@[i as int]);
            return false;
        }
        i = i + 1;
    }
    assert(s@.take(m as int) =~= p@);
    true
}

/// Whether `s` ends with `p`.
pub fn text_ends_with(s: &str, p: &str) -> (r: bool)
    ensures
        r == ends_with(s@, p@),
{
    let n = s.unicode_len();
    let m = p.unicode_len();
    if m > n {
        return false;
    }
    let start = n - m;
    let mut i: usize = 0;
    while i < m
        invariant
            n == s@.len(),
            m == p@.len(),
            start == n - m,
            i <= m,
            forall|j: int| 0 <= j < i ==> s@[start + j] == p@[j],
        decreases m - i,
    {
        if s.get_char(start + i) != p.get_char(i) {
            assert(s@.skip(start as int)[i as int] != p@[i as int]);
            return false;
        }
        i = i + 1;
    }
    assert(s@.skip(start as int) =~= p@);
    true
}

/// Raster image formats whose decoded size is budgeted.
#[derive(Debug, Clone, Copy, PartialEq, Eq, Structural)]
pub enum RasterFormat {
    /// PNG.
    Png,
    /// JPEG.
    Jpeg,
    /// GIF.
    Gif,
    /// WebP.
    WebP,
}

/// The raster format of a part, by its extension in any ASCII case.
pub open spec fn raster_format_of(name: Seq<char>) -> Option<RasterFormat> {
    match path_extension(name) {
        None => None,
        Some(ext) => {
            let e = ascii_lowercase(ext);
            if e == "png"@ {
                Some(RasterFormat::Png)
            } else if e == "jpg"@ || e == "jpeg"@ {
                Some(RasterFormat::Jpeg)
            } else if e == "gif"@ {
                Some(RasterFormat::Gif)
            } else if e == "webp"@ {
                Some(RasterFormat::WebP)
            } else {
                None
            }
        },
    }
}

/// The raster format of a package part, by its extension in any ASCII case.
pub fn raster_image_format(name: &str) -> (r: Option<RasterFormat>)
    ensures
        r == raster_format_of(name@),
{
    let extension = match path_extension_of(name) {
        Some(e) => e,
        None => {
            return None;
        },
    };
    let e = to_ascii_lowercase(extension.as_str());
    if crate::text::same_text(e.as_str(), "png") {
        Some(RasterFormat::Png)
    } else if crate::text::same_text(e.as_str(), "jpg") || crate::text::same_text(e.as_str(), "jpeg") {
        Some(RasterFormat::Jpeg)
    } else if crate::text::same_text(e.as_str(), "gif") {
        Some(RasterFormat::Gif)
    } else if crate::text::same_text(e.as_str(), "webp") {
        Some(RasterFormat::WebP)
    } else {
        None
    }
}

/// Running totals of a package preflight.
#[derive(Debug, Clone, Copy, PartialEq, Eq, Structural)]
pub struct PreflightTally {
    /// Expanded bytes of the entries so far.
    pub expanded_bytes: u64,
    /// Slides so far.
    pub slide_count: usize,
    /// XML text bytes so far.
    pub text_bytes: usize,
    /// Media items so far.
    pub media_count: usize,
    /// Media bytes so far.
    pub media_bytes: u64,
    /// Decoded image pixels so far.
    pub image_pixels: u64,
}

/// Nothing counted yet.
pub open spec fn empty_tally() -> PreflightTally {
    PreflightTally {
        expanded_bytes: 0,
        slide_count: 0,
        text_bytes: 0,
        media_count: 0,
        media_bytes: 0,
        image_pixels: 0,
    }
}

/// A slide part: `ppt/slides/slide*.xml`.
pub open spec fn is_slide_part(name: Seq<char>) -> bool {
    starts_with(name, "ppt/slides/slide"@) && ends_with(name, ".xml"@)
}

/// A media part: a file under `ppt/media/`.
pub open spec fn is_media_part(name: Seq<char>, is_dir: bool) -> bool {
    starts_with(name, "ppt/media/"@) && !is_dir
}

/// An XML or relationships part, by its name in any ASCII case.
pub open spec fn is_text_part(name: Seq<char>) -> bool {
    ends_with(ascii_lowercase(name), ".xml"@) || ends_with(ascii_lowercase(name), ".rels"@)
}

/// The totals after counting an entry's sizes, or the message of the first
/// budget it breaks: expanded bytes, then slides, then (for media) the item
/// count, the item's own bytes and all media bytes.
pub open spec fn entry_tally(
    t: PreflightTally,
    size: u64,
    name: Seq<char>,
    is_dir: bool,
    max_expanded: u64,
) -> Result<PreflightTally, Seq<char>> {
    let expanded = t.expanded_bytes + size;
    let slide = is_slide_part(name);
    let slides = if slide { t.slide_count + 1 } else { t.slide_count as int };
    let media = is_media_part(name, is_dir);
    if expanded > max_expanded {
        Err(budget_message("expanded ZIP"@, max_expanded))
    } else if slide && slides > MAX_PPTX_SLIDES {
        Err(count_budget_message("slide-count"@, MAX_PPTX_SLIDES))
    } else if media && t.media_count + 1 > MAX_PPTX_MEDIA_ITEMS {
        Err(count_budget_message("media-count"@, MAX_PPTX_MEDIA_ITEMS))
    } else if media && size > MAX_PPTX_SINGLE_MEDIA_BYTES {
        Err(budget_message("per-media bytes"@, MAX_PPTX_SINGLE_MEDIA_BYTES as u64))
    } else if media && t.media_bytes + size > MAX_PPTX_MEDIA_BYTES {
        Err(budget_message("total media bytes"@, MAX_PPTX_MEDIA_BYTES as u64))
    } else {
        Ok(
            PreflightTally {
                expanded_bytes: expanded as u64,
                slide_count: slides as usize,
                media_count: if media { (t.media_count + 1) as usize } else { t.media_count },
                media_bytes: if media { (t.media_bytes + size) as u64 } else { t.media_bytes },
                ..t
            },
        )
    }
}

/// Counts one ZIP entry's sizes against the budgets, as `entry_tally` says,
/// and reports the raster format of a media image whose pixels must be
/// counted next.
pub fn account_entry(
    t: PreflightTally,
    size: u64,
    name: &str,
    is_dir: bool,
    max_expanded: u64,
) -> (r: Result<(PreflightTally, Option<RasterFormat>), ApplicationError>)
    ensures
        match entry_tally(t, size, name@, is_dir, max_expanded) {
            Ok(next) => r matches Ok((t2, format)) && t2 == next && format == if is_media_part(
                name@,
                is_dir,
            ) {
                raster_format_of(name@)
            } else {
                None
            },
            Err(message) => r matches Err(e) && is_invalid_request(e, message),
        },
{
    let expanded = match t.expanded_bytes.checked_add(size) {
        Some(v) => v,
        None => {
            return Err(budget_error("expanded ZIP", max_expanded));
        },
    };
    if expanded > max_expanded {
        return Err(budget_error("expanded ZIP", max_expanded));
    }
    let mut next = t;
    next.expanded_bytes = expanded;
    if text_starts_with(name, "ppt/slides/slide") && text_ends_with(name, ".xml") {
        if t.slide_count >= MAX_PPTX_SLIDES {
            return Err(count_budget_error("slide-count", MAX_PPTX_SLIDES));
        }
        next.slide_count = t.slide_count + 1;
    }
    let mut format = None;
    if text_starts_with(name, "ppt/media/") && !is_dir {
        if t.media_count >= MAX_PPTX_MEDIA_ITEMS {
            return Err(count_budget_error("media-count", MAX_PPTX_MEDIA_ITEMS));
        }
        next.media_count = t.media_count + 1;
        if size > MAX_PPTX_SINGLE_MEDIA_BYTES as u64 {
            return Err(budget_error("per-media bytes", MAX_PPTX_SINGLE_MEDIA_BYTES as u64));
        }
        let media = match t.media_bytes.checked_add(size) {
            Some(v) => v,
            None => {
                return Err(budget_error("total media bytes", MAX_PPTX_MEDIA_BYTES as u64));
            },
        };
        if media > MAX_PPTX_MEDIA_BYTES as u64 {
            return Err(budget_error("total media bytes", MAX_PPTX_MEDIA_BYTES as u64));
        }
        next.media_bytes = media;
        format = raster_image_format(name);
    }
    Ok((next, format))
}

/// The totals after counting a decoded image, or the message of the pixel
/// budget it breaks.
pub open spec fn image_tally(t: PreflightTally, width: u32, height: u32) -> Result<
    PreflightTally,
    Seq<char>,
> {
    let pixels = width * height;
    if pixels > MAX_PPTX_SINGLE_IMAGE_PIXELS {
        Err(pixel_budget_message("per-image decoded pixels"@, MAX_PPTX_SINGLE_IMAGE_PIXELS))
    } else if t.image_pixels + pixels > MAX_PPTX_TOTAL_IMAGE_PIXELS {
        Err(pixel_budget_message("total decoded image pixels"@, MAX_PPTX_TOTAL_IMAGE_PIXELS))
    } else {
        Ok(PreflightTally { image_pixels: (t.image_pixels + pixels) as u64, ..t })
    }
}

/// Counts the decoded pixels of one image against the budgets.
pub fn account_image(t: PreflightTally, width: u32, height: u32) -> (r: Result<
    PreflightTally,
    ApplicationError,
>)
    ensures
        match image_tally(t, width, height) {
            Ok(next) => r matches Ok(t2) && t2 == next,
            Err(message) => r matches Err(e) && is_invalid_request(e, message),
        },
{
    assert(width * height <= 0xffff_ffffu64 * 0xffff_ffffu64) by (nonlinear_arith)
        requires
            width <= 0xffff_ffffu64,
            height <= 0xffff_ffffu64,
    ;
    let pixels = (width as u64) * (height as u64);
    if pixels > MAX_PPTX_SINGLE_IMAGE_PIXELS {
        return Err(pixel_budget_error("per-image decoded pixels", MAX_PPTX_SINGLE_IMAGE_PIXELS));
    }
    let total = match t.image_pixels.checked_add(pixels) {
        Some(v) => v,
        None => {
            return Err(
                pixel_budget_error("total decoded image pixels", MAX_PPTX_TOTAL_IMAGE_PIXELS),
            );
        },
    };
    if total > MAX_PPTX_TOTAL_IMAGE_PIXELS {
        return Err(pixel_budget_error("total decoded image pixels", MAX_PPTX_TOTAL_IMAGE_PIXELS));
    }
    let mut next = t;
    next.image_pixels = total;
    Ok(next)
}

/// The totals after counting one part's XML text, or the message of the
/// text budget it breaks.
pub open spec fn text_tally(t: PreflightTally, bytes: usize) -> Result<PreflightTally, Seq<char>> {
    if t.text_bytes + bytes > MAX_PPTX_TEXT_BYTES {
        Err(budget_message("text"@, MAX_PPTX_TEXT_BYTES as u64))
    } else {
        Ok(PreflightTally { text_bytes: (t.text_bytes + bytes) as usize, ..t })
    }
}

/// Counts one part's XML text bytes against the text budget.
pub fn account_text(t: PreflightTally, bytes: usize) -> (r: Result<PreflightTally, ApplicationError>)
    ensures
        match text_tally(t, bytes) {
            Ok(next) => r matches Ok(t2) && t2 == next,
            Err(message) => r matches Err(e) && is_invalid_request(e, message),
        },
{
    let total = match t.text_bytes.checked_add(bytes) {
        Some(v) => v,
        None => {
            return Err(budget_error("text", MAX_PPTX_TEXT_BYTES as u64));
        },
    };
    if total > MAX_PPTX_TEXT_BYTES {
        return Err(budget_error("text", MAX_PPTX_TEXT_BYTES as u64));
    }
    let mut next = t;
    next.text_bytes = total;
    Ok(next)
}

/// One XML reader event, reduced to what the text budget reads.
#[derive(Debug, Clone, PartialEq, Eq)]
pub enum XmlEvent {
    /// A start tag.
    Start,
    /// An end tag.
    End,
    /// Character data of this many bytes.
    Text(usize),
    /// A document type declaration.
    DocType,
    /// The end of the document.
    Eof,
    /// Any other event.
    Other,
    /// The reader failed, with its diagnostic.
    Failed(String),
}

/// Where an XML scan stands after an event.
#[derive(Debug, Clone, Copy, PartialEq, Eq, Structural)]
pub enum XmlProgress {
    /// Keep reading at this depth, with this much text so far.
    Continue {
        /// Open elements.
        depth: usize,
        /// Text bytes so far.
        text_bytes: usize,
    },
    /// The document ended with this much text.
    Done {
        /// Text bytes of the document.
        text_bytes: usize,
    },
}

/// The scan rule of one event: a start tag may not nest deeper than
/// `MAX_PPTX_XML_DEPTH`; an end tag closes one level (never below zero);
/// text adds its bytes (only an overflow of the count is refused here); a
/// document type declaration and a reader failure make the package
/// malformed; the end of the document finishes the scan.
pub open spec fn xml_rule(depth: usize, text_bytes: usize, event: XmlEvent) -> Result<
    XmlProgress,
    Seq<char>,
> {
    match event {
        XmlEvent::Start => if depth + 1 > MAX_PPTX_XML_DEPTH {
            Err(count_budget_message("XML depth"@, MAX_PPTX_XML_DEPTH))
        } else {
            Ok(XmlProgress::Continue { depth: (depth + 1) as usize, text_bytes })
        },
        XmlEvent::End => Ok(
            XmlProgress::Continue {
                depth: if depth > 0 { (depth - 1) as usize } else { 0 },
                text_bytes,
            },
        ),
        XmlEvent::Text(n) => if text_bytes + n > usize::MAX {
            Err(budget_message("text"@, MAX_PPTX_TEXT_BYTES as u64))
        } else {
            Ok(XmlProgress::Continue { depth, text_bytes: (text_bytes + n) as usize })
        },
        XmlEvent::DocType => Err(malformed_message("DOCTYPE declarations are not allowed"@)),
        XmlEvent::Eof => Ok(XmlProgress::Done { text_bytes }),
        XmlEvent::Other => Ok(XmlProgress::Continue { depth, text_bytes }),
        XmlEvent::Failed(detail) => Err(malformed_message(detail@)),
    }
}

/// Applies the scan rule of one XML event.
pub fn xml_step(depth: usize, text_bytes: usize, event: XmlEvent) -> (r: Result<
    XmlProgress,
    ApplicationError,
>)
    ensures
        match xml_rule(depth, text_bytes, event) {
            Ok(p) => r == Ok::<XmlProgress, ApplicationError>(p),
            Err(message) => r matches Err(e) && is_invalid_request(e, message),
        },
{
    match event {
        XmlEvent::Start => {
            if depth >= MAX_PPTX_XML_DEPTH {
                return Err(count_budget_error("XML depth", MAX_PPTX_XML_DEPTH));
            }
            Ok(XmlProgress::Continue { depth: depth + 1, text_bytes })
        },
        XmlEvent::End => Ok(
            XmlProgress::Continue { depth: if depth > 0 { depth - 1 } else { 0 }, text_bytes },
        ),
        XmlEvent::Text(n) => match text_bytes.checked_add(n) {
            Some(total) => Ok(XmlProgress::Continue { depth, text_bytes: total }),
            None => Err(budget_error("text", MAX_PPTX_TEXT_BYTES as u64)),
        },
        XmlEvent::DocType => Err(invalid_pptx("DOCTYPE declarations are not allowed")),
        XmlEvent::Eof => Ok(XmlProgress::Done { text_bytes }),
        XmlEvent::Other => Ok(XmlProgress::Continue { depth, text_bytes }),
        XmlEvent::Failed(detail) => Err(invalid_pptx(detail.as_str())),
    }
}

/// The outcome of scanning a stream of XML events from the start: the
/// document's text bytes once it ends, the message of the first refused
/// event, or `None` while it has not ended.
pub open spec fn xml_scan(events: Seq<XmlEvent>) -> Option<Result<usize, Seq<char>>>
    decreases events.len(),
{
    xml_scan_from(0, 0, events)
}

/// The outcome of scanning events from a depth and text count.
pub open spec fn xml_scan_from(depth: usize, text_bytes: usize, events: Seq<XmlEvent>) -> Option<
    Result<usize, Seq<char>>,
>
    decreases events.len(),
{
    if events.len() == 0 {
        None
    } else {
        match xml_rule(depth, text_bytes, events[0]) {
            Err(message) => Some(Err(message)),
            Ok(XmlProgress::Done { text_bytes }) => Some(Ok(text_bytes)),
            Ok(XmlProgress::Continue { depth, text_bytes }) => xml_scan_from(
                depth,
                text_bytes,
                events.drop_first(),
            ),
        }
    }
}

/// The XML of one package entry, streamed from the archive by a
/// `quick_xml::Reader` over a `std::io::BufReader` over the entry. Its
/// reader is held out of view: the entry type it reads cannot be declared,
/// because its bound names `std::io::Read`.
#[verifier::external_body]
pub struct EntryXmlStream<'a, 'b> {
    reader: quick_xml::Reader<
        std::io::BufReader<zip::read::ZipFile<'a, std::io::Cursor<&'b [u8]>>>,
    >,
}

/// Names the event that `quick_xml::Reader::read_event_into` yields as the
/// `k`-th read (counting from zero) of a fresh reader over a
/// `std::io::BufReader` over entry `index` of the ZIP archive read from the
/// bytes `package`, reduced to what the text budget reads.
pub uninterp spec fn entry_xml_event(package: Seq<u8>, index: nat, k: nat) -> XmlEvent;

/// Names the package bytes and the entry index a reader streams.
pub uninterp spec fn entry_reader_source(stream: EntryXmlStream<'_, '_>) -> (Seq<u8>, nat);

/// Names how many events a reader has yielded so far.
pub uninterp spec fn entry_reader_events_read(stream: EntryXmlStream<'_, '_>) -> nat;

/// Calls `quick_xml::Reader::read_event_into` once with a fresh buffer and
/// reduces the event to what the text budget reads; a reader error becomes
/// its diagnostic text. The event is the next one of the entry it streams.
#[verifier::external_body]
fn next_xml_event(reader: &mut EntryXmlStream<'_, '_>) -> (r: XmlEvent)
    ensures
        r == entry_xml_event(
            entry_reader_source(*old(reader)).0,
            entry_reader_source(*old(reader)).1,
            entry_reader_events_read(*old(reader)),
        ),
        entry_reader_source(*final(reader)) == entry_reader_source(*old(reader)),
        entry_reader_events_read(*final(reader)) == entry_reader_events_read(*old(reader)) + 1,
{
    let mut buffer = Vec::new();
    match reader.reader.read_event_into(&mut buffer) {
        Ok(quick_xml::events::Event::Start(_)) => XmlEvent::Start,
        Ok(quick_xml::events::Event::End(_)) => XmlEvent::End,
        Ok(quick_xml::events::Event::Text(text)) => XmlEvent::Text(text.len()),
        Ok(quick_xml::events::Event::DocType(_)) => XmlEvent::DocType,
        Ok(quick_xml::events::Event::Eof) => XmlEvent::Eof,
        Ok(_) => XmlEvent::Other,
        Err(error) => XmlEvent::Failed(error.to_string()),
    }
}

/// The first `n` events a reader yields over entry `index` of `package`.
pub open spec fn entry_xml_events(package: Seq<u8>, index: nat, n: nat) -> Seq<XmlEvent> {
    Seq::new(n, |k: int| entry_xml_event(package, index, k as nat))
}

/// What scanning the XML of entry `index` of `package`, of declared size
/// `size`, gives: the outcome of scanning its first events, one more than
/// its declared bytes (each event but the last consumes input); a reader
/// that has not ended the document by then makes the package malformed.
pub open spec fn xml_part_outcome(package: Seq<u8>, index: nat, size: u64) -> Result<
    usize,
    Seq<char>,
> {
    match xml_scan(entry_xml_events(package, index, (size + 1) as nat)) {
        Some(outcome) => outcome,
        None => Err(malformed_message("the XML reader did not reach the end of the part"@)),
    }
}

/// Scans the XML a fresh reader streams from one entry of declared size
/// `size` and returns its text bytes, as `xml_part_outcome` says: every
/// event the reader yields is checked by `xml_step`. A cancelled scan stops
/// with `OperationCancelled`.
pub fn validate_xml<F: Fn() -> bool>(
    reader: &mut EntryXmlStream<'_, '_>,
    size: u64,
    cancelled: &F,
) -> (r: Result<usize, ApplicationError>)
    requires
        forall|| #[trigger] cancelled.requires(()),
        entry_reader_events_read(*old(reader)) == 0,
    ensures
        (forall|b: bool| cancelled.ensures((), b) ==> b) ==> r == Err::<usize, ApplicationError>(
            ApplicationError::OperationCancelled,
        ),
        match r {
            Ok(n) => xml_part_outcome(
                entry_reader_source(*old(reader)).0,
                entry_reader_source(*old(reader)).1,
                size,
            ) == Ok::<usize, Seq<char>>(n),
            Err(e) => (e == ApplicationError::OperationCancelled && cancelled.ensures((), true)) || (
            xml_part_outcome(
                entry_reader_source(*old(reader)).0,
                entry_reader_source(*old(reader)).1,
                size,
            ) matches Err(message) && is_invalid_request(e, message)),
        },
{
    let ghost package = entry_reader_source(*reader).0;
    let ghost index = entry_reader_source(*reader).1;
    let ghost all = entry_xml_events(package, index, (size + 1) as nat);
    let mut depth: usize = 0;
    let mut text_bytes: usize = 0;
    let ghost mut seen: Seq<XmlEvent> = seq![];
    let mut remaining: u64 = size;
    loop
        invariant
            forall|| #[trigger] cancelled.requires(()),
            remaining <= size,
            (forall|b: bool| cancelled.ensures((), b) ==> b) ==> remaining == size,
            entry_reader_source(*reader) == (package, index),
            entry_reader_source(*old(reader)) == (package, index),
            entry_reader_events_read(*reader) == size - remaining,
            all == entry_xml_events(package, index, (size + 1) as nat),
            seen == all.take(size - remaining),
            forall|tail: Seq<XmlEvent>| #[trigger] xml_scan(seen + tail) == xml_scan_from(
                depth,
                text_bytes,
                tail,
            ),
        decreases remaining,
    {
        if cancelled() {
            return Err(ApplicationError::OperationCancelled);
        }
        let ghost k = size - remaining;
        let event = next_xml_event(reader);
        let ghost e = event;
        proof {
            assert(e == all[k]);
            let rest = all.skip(k + 1);
            assert(all =~= seen + (seq![e] + rest));
            assert((seq![e] + rest).drop_first() =~= rest);
            assert((seq![e] + rest)[0] == e);
            assert(xml_scan(seen + (seq![e] + rest)) == xml_scan_from(depth, text_bytes, seq![e] + rest));
        }
        match xml_step(depth, text_bytes, event) {
            Err(error) => {
                return Err(error);
            },
            Ok(XmlProgress::Done { text_bytes: total }) => {
                return Ok(total);
            },
            Ok(XmlProgress::Continue { depth: d, text_bytes: t }) => {
                proof {
                    assert forall|tail: Seq<XmlEvent>| #[trigger] xml_scan(seen.push(e) + tail)
                        == xml_scan_from(d, t, tail) by {
                        assert(seen.push(e) + tail =~= seen + (seq![e] + tail));
                        assert((seq![e] + tail).drop_first() =~= tail);
                        assert((seq![e] + tail)[0] == e);
                    }
                    seen = seen.push(e);
                    assert(seen =~= all.take(k + 1));
                }
                depth = d;
                text_bytes = t;
            },
        }
        if remaining == 0 {
            proof {
                assert(seen + seq![] =~= all);
                assert(xml_scan(seen + seq![]) == xml_scan_from(depth, text_bytes, seq![]));
            }
            return Err(invalid_pptx("the XML reader did not reach the end of the part"));
        }
        remaining = remaining - 1;
    }
}

#[verifier::external_type_specification]
#[verifier::external_body]
#[verifier::reject_recursive_types(R)]
pub struct ExZipArchive<R>(zip::ZipArchive<R>);

#[verifier::external_type_specification]
#[verifier::external_body]
#[verifier::reject_recursive_types(T)]
pub struct ExCursor<T>(std::io::Cursor<T>);

/// What the preflight reads of one ZIP entry.
#[derive(Debug, Clone, PartialEq, Eq)]
pub struct ZipEntryInfo {
    /// Uncompressed size.
    pub size: u64,
    /// Entry name.
    pub name: String,
    /// Whether the entry is a directory.
    pub is_dir: bool,
}

/// Names what `zip::ZipArchive::new` reads from package bytes: the error
/// text when the archive cannot be opened, and otherwise, for each entry in
/// index order, what `by_index` gives (uncompressed size, name and directory
/// flag, or the error text) and what reading the entry to its end gives
/// (its uncompressed bytes, or the error text).
pub uninterp spec fn zip_opened(bytes: Seq<u8>) -> Result<
    Seq<(Result<(u64, Seq<char>, bool), Seq<char>>, Result<Seq<u8>, Seq<char>>)>,
    Seq<char>,
>;

/// Names what an opened archive holds: for each entry in index order, what
/// `by_index` gives and what reading the entry to its end gives.
pub uninterp spec fn zip_entries(archive: zip::ZipArchive<std::io::Cursor<&[u8]>>) -> Seq<
    (Result<(u64, Seq<char>, bool), Seq<char>>, Result<Seq<u8>, Seq<char>>),
>;

/// Names the package bytes an archive reads.
pub uninterp spec fn zip_archive_bytes(archive: zip::ZipArchive<std::io::Cursor<&[u8]>>) -> Seq<u8>;

/// Calls `zip::ZipArchive::new` over the package bytes; a failure becomes
/// its diagnostic text. The archive reads those bytes and holds the entries
/// they give.
#[verifier::external_body]
fn zip_archive_new(bytes: &[u8]) -> (r: Result<zip::ZipArchive<std::io::Cursor<&[u8]>>, String>)
    ensures
        match r {
            Ok(archive) => zip_opened(bytes@) == Ok::<_, Seq<char>>(zip_entries(archive))
                && zip_archive_bytes(archive) == bytes@,
            Err(m) => zip_opened(bytes@) == Err::<
                Seq<(Result<(u64, Seq<char>, bool), Seq<char>>, Result<Seq<u8>, Seq<char>>)>,
                Seq<char>,
            >(m@),
        },
{
    match zip::ZipArchive::new(std::io::Cursor::new(bytes)) {
        Ok(archive) => Ok(archive),
        Err(error) => Err(error.to_string()),
    }
}

/// Calls `zip::ZipArchive::len`: the number of entries.
#[verifier::external_body]
fn zip_len(archive: &zip::ZipArchive<std::io::Cursor<&[u8]>>) -> (r: usize)
    ensures
        r == zip_entries(*archive).len(),
{
    archive.len()
}

/// Calls `zip::ZipArchive::by_index` and reads the entry's `size`, `name`
/// and `is_dir`; a failure becomes its diagnostic text. Reading an entry
/// leaves what the archive holds unchanged.
#[verifier::external_body]
fn zip_entry_info(archive: &mut zip::ZipArchive<std::io::Cursor<&[u8]>>, index: usize) -> (r: Result<
    ZipEntryInfo,
    String,
>)
    requires
        index < zip_entries(*old(archive)).len(),
    ensures
        zip_entries(*final(archive)) == zip_entries(*old(archive)),
        zip_archive_bytes(*final(archive)) == zip_archive_bytes(*old(archive)),
        match r {
            Ok(info) => zip_entries(*old(archive))[index as int].0 == Ok::<_, Seq<char>>(
                (info.size, info.name@, info.is_dir),
            ),
            Err(m) => zip_entries(*old(archive))[index as int].0 == Err::<(u64, Seq<char>, bool), Seq<char>>(m@),
        },
{
    let entry = match archive.by_index(index) {
        Ok(entry) => entry,
        Err(error) => return Err(error.to_string()),
    };
    match entry.name() {
        Ok(name) => Ok(ZipEntryInfo { size: entry.size(), name: name.into_owned(), is_dir: entry.is_dir() }),
        Err(error) => Err(error.to_string()),
    }
}

/// Calls `zip::ZipArchive::by_index` and opens a `quick_xml::Reader` over a
/// `std::io::BufReader` over the entry, so that its XML is streamed; a
/// failure of `by_index` becomes its diagnostic text. The reader streams
/// entry `index` of the archive's bytes and has yielded nothing yet.
#[verifier::external_body]
fn entry_xml_reader<'a, 'b>(
    archive: &'a mut zip::ZipArchive<std::io::Cursor<&'b [u8]>>,
    index: usize,
) -> (r: Result<EntryXmlStream<'a, 'b>, String>)
    requires
        index < zip_entries(*old(archive)).len(),
    ensures
        zip_entries(*final(archive)) == zip_entries(*old(archive)),
        zip_archive_bytes(*final(archive)) == zip_archive_bytes(*old(archive)),
        match r {
            Ok(reader) => entry_reader_source(reader) == (zip_archive_bytes(*old(archive)), index as nat)
                && entry_reader_events_read(reader) == 0,
            Err(m) => zip_entries(*old(archive))[index as int].0 == Err::<(u64, Seq<char>, bool), Seq<char>>(m@),
        },
{
    match archive.by_index(index) {
        Ok(entry) => Ok(EntryXmlStream {
            reader: quick_xml::Reader::from_reader(std::io::BufReader::new(entry)),
        }),
        Err(error) => Err(error.to_string()),
    }
}

/// Calls `zip::ZipArchive::by_index` and `std::io::Read::read_to_end` on the
/// entry: its uncompressed bytes; a failure becomes its diagnostic text.
/// Reading an entry leaves what the archive holds unchanged.
#[verifier::external_body]
fn zip_entry_bytes(archive: &mut zip::ZipArchive<std::io::Cursor<&[u8]>>, index: usize) -> (r: Result<
    Vec<u8>,
    String,
>)
    requires
        index < zip_entries(*old(archive)).len(),
    ensures
        zip_entries(*final(archive)) == zip_entries(*old(archive)),
        zip_archive_bytes(*final(archive)) == zip_archive_bytes(*old(archive)),
        match r {
            Ok(data) => zip_entries(*old(archive))[index as int].1 == Ok::<_, Seq<char>>(data@),
            Err(m) => zip_entries(*old(archive))[index as int].1 == Err::<Seq<u8>, Seq<char>>(m@),
        },
{
    let mut entry = match archive.by_index(index) {
        Ok(entry) => entry,
        Err(error) => return Err(error.to_string()),
    };
    let mut data = Vec::new();
    match std::io::Read::read_to_end(&mut entry, &mut data) {
        Ok(_) => Ok(data),
        Err(error) => Err(error.to_string()),
    }
}

/// Names the width and height that `image::ImageReader::into_dimensions`
/// reads from an image's header in a given format, or its error text.
pub uninterp spec fn image_header_dimensions(data: Seq<u8>, format: RasterFormat) -> Result<
    (u32, u32),
    Seq<char>,
>;

/// Calls `image::ImageReader::with_format` and `into_dimensions`: the width
/// and height that the image's header declares; a failure becomes its
/// diagnostic text.
#[verifier::external_body]
fn image_dimensions(data: Vec<u8>, format: RasterFormat) -> (r: Result<(u32, u32), String>)
    ensures
        match r {
            Ok(dimensions) => image_header_dimensions(data@, format) == Ok::<_, Seq<char>>(dimensions),
            Err(m) => image_header_dimensions(data@, format) == Err::<(u32, u32), Seq<char>>(m@),
        },
{
    let format = match format {
        RasterFormat::Png => image::ImageFormat::Png,
        RasterFormat::Jpeg => image::ImageFormat::Jpeg,
        RasterFormat::Gif => image::ImageFormat::Gif,
        RasterFormat::WebP => image::ImageFormat::WebP,
    };
    match image::ImageReader::with_format(std::io::Cursor::new(data), format).into_dimensions() {
        Ok(dimensions) => Ok(dimensions),
        Err(error) => Err(error.to_string()),
    }
}

/// Every running total is within its budget.
pub open spec fn within_budgets(t: PreflightTally, max_expanded: u64) -> bool {
    &&& t.expanded_bytes <= max_expanded
    &&& t.slide_count <= MAX_PPTX_SLIDES
    &&& t.media_count <= MAX_PPTX_MEDIA_ITEMS
    &&& t.media_bytes <= MAX_PPTX_MEDIA_BYTES
    &&& t.image_pixels <= MAX_PPTX_TOTAL_IMAGE_PIXELS
}

/// Each accounting step that accepts an entry, an image or a part's text
/// keeps totals that were within their budgets within them; the text total
/// additionally stays within the text budget.
pub proof fn law_accepted_steps_stay_within_budgets(
    t: PreflightTally,
    size: u64,
    name: Seq<char>,
    is_dir: bool,
    max_expanded: u64,
    width: u32,
    height: u32,
    text: usize,
)
    requires
        within_budgets(t, max_expanded),
    ensures
        entry_tally(t, size, name, is_dir, max_expanded) matches Ok(n) ==> within_budgets(
            n,
            max_expanded,
        ),
        image_tally(t, width, height) matches Ok(n) ==> within_budgets(n, max_expanded),
        text_tally(t, text) matches Ok(n) ==> within_budgets(n, max_expanded) && n.text_bytes
            <= MAX_PPTX_TEXT_BYTES,
{
}

/// One package entry as the ZIP reader gives it: size, name and directory
/// flag (or the reader's diagnostic), and its uncompressed bytes (or the
/// reader's diagnostic).
pub type PackageEntry = (Result<(u64, Seq<char>, bool), Seq<char>>, Result<Seq<u8>, Seq<char>>);

/// The totals after checking one entry, or the message of its refusal: its
/// sizes as `entry_tally` says; then, for a media image, the dimensions its
/// header declares as `image_tally` says; then, for an XML or relationships
/// part, the text bytes that streaming its XML gives (`xml_part_outcome`
/// over entry `index` of `package`) as `text_tally` says. A reader
/// diagnostic on the way makes the package malformed.
pub open spec fn preflight_entry(
    package: Seq<u8>,
    index: nat,
    t: PreflightTally,
    entry: PackageEntry,
    max_expanded: u64,
) -> Result<PreflightTally, Seq<char>> {
    match entry.0 {
        Err(detail) => Err(malformed_message(detail)),
        Ok((size, name, is_dir)) => match entry_tally(t, size, name, is_dir, max_expanded) {
            Err(message) => Err(message),
            Ok(counted) => {
                let image = if is_media_part(name, is_dir) {
                    raster_format_of(name)
                } else {
                    None
                };
                let imaged = match image {
                    None => Ok(counted),
                    Some(format) => match entry.1 {
                        Err(detail) => Err(malformed_message(detail)),
                        Ok(data) => match image_header_dimensions(data, format) {
                            Err(detail) => Err(malformed_message(detail)),
                            Ok((width, height)) => image_tally(counted, width, height),
                        },
                    },
                };
                match imaged {
                    Err(message) => Err(message),
                    Ok(t2) => if is_text_part(name) {
                        match xml_part_outcome(package, index, size) {
                            Err(message) => Err(message),
                            Ok(n) => text_tally(t2, n),
                        }
                    } else {
                        Ok(t2)
                    },
                }
            },
        },
    }
}

/// The totals after checking the first `n` entries in order, or the
/// message of the first refusal.
pub open spec fn preflight_prefix(
    package: Seq<u8>,
    entries: Seq<PackageEntry>,
    n: nat,
    max_expanded: u64,
) -> Result<PreflightTally, Seq<char>>
    decreases n,
{
    if n == 0 {
        Ok(empty_tally())
    } else {
        match preflight_prefix(package, entries, (n - 1) as nat, max_expanded) {
            Err(message) => Err(message),
            Ok(t) => preflight_entry(package, (n - 1) as nat, t, entries[n - 1], max_expanded),
        }
    }
}

/// What a package check gives for the package `bytes`: the source-size
/// refusal; the malformed-package refusal when the bytes do not open as a
/// ZIP archive; the entry-count refusal; and otherwise, for a package with
/// entries, `OperationCancelled` when the cancellation test can only answer
/// yes (`must_cancel`); else the refusal of the first entry refused
/// (`preflight_prefix`), or success when none is, unless the check was
/// cancelled before an entry (`may_cancel`: the cancellation test can
/// answer yes).
pub open spec fn preflight_verdict(
    bytes: Seq<u8>,
    max_expanded: u64,
    may_cancel: bool,
    must_cancel: bool,
    r: Result<(), ApplicationError>,
) -> bool {
    if bytes.len() > MAX_PPTX_SOURCE_BYTES {
        r matches Err(e) && is_invalid_request(
            e,
            budget_message("source file size"@, MAX_PPTX_SOURCE_BYTES),
        )
    } else {
        match zip_opened(bytes) {
            Err(detail) => r matches Err(e) && is_invalid_request(e, malformed_message(detail)),
            Ok(entries) => if entries.len() > MAX_PPTX_ZIP_ENTRIES {
                r matches Err(e) && is_invalid_request(
                    e,
                    count_budget_message("ZIP entry-count"@, MAX_PPTX_ZIP_ENTRIES),
                )
            } else if entries.len() > 0 && must_cancel {
                r == Err::<(), ApplicationError>(ApplicationError::OperationCancelled)
            } else {
                (r == Err::<(), ApplicationError>(ApplicationError::OperationCancelled)
                    && may_cancel && entries.len() > 0) || match preflight_prefix(
                    bytes,
                    entries,
                    entries.len(),
                    max_expanded,
                ) {
                    Ok(_) => r is Ok,
                    Err(message) => r matches Err(e) && is_invalid_request(e, message),
                }
            },
        }
    }
}

/// A refusal among the first `n` entries is the verdict on any longer prefix.
proof fn lemma_refusal_persists(
    package: Seq<u8>,
    entries: Seq<PackageEntry>,
    n: nat,
    k: nat,
    max_expanded: u64,
)
    requires
        n <= k,
        preflight_prefix(package, entries, n, max_expanded) is Err,
    ensures
        preflight_prefix(package, entries, k, max_expanded) == preflight_prefix(
            package,
            entries,
            n,
            max_expanded,
        ),
    decreases k - n,
{
    if k > n {
        lemma_refusal_persists(package, entries, n, (k - 1) as nat, max_expanded);
    }
}

/// Checks entry `index` of an opened package from the totals so far, as
/// `preflight_entry` says. A cancelled check stops with `OperationCancelled`.
fn check_entry<F: Fn() -> bool>(
    archive: &mut zip::ZipArchive<std::io::Cursor<&[u8]>>,
    index: usize,
    tally: PreflightTally,
    cancelled: &F,
    max_expanded_bytes: u64,
) -> (r: Result<PreflightTally, ApplicationError>)
    requires
        forall|| #[trigger] cancelled.requires(()),
        index < zip_entries(*old(archive)).len(),
    ensures
        zip_entries(*final(archive)) == zip_entries(*old(archive)),
        zip_archive_bytes(*final(archive)) == zip_archive_bytes(*old(archive)),
        (forall|b: bool| cancelled.ensures((), b) ==> b) ==> r == Err::<
            PreflightTally,
            ApplicationError,
        >(ApplicationError::OperationCancelled),
        (r == Err::<PreflightTally, ApplicationError>(ApplicationError::OperationCancelled)
            && cancelled.ensures((), true)) || match preflight_entry(
            zip_archive_bytes(*old(archive)),
            index as nat,
            tally,
            zip_entries(*old(archive))[index as int],
            max_expanded_bytes,
        ) {
            Ok(t) => r == Ok::<PreflightTally, ApplicationError>(t),
            Err(message) => r matches Err(e) && is_invalid_request(e, message),
        },
{
    if cancelled() {
        return Err(ApplicationError::OperationCancelled);
    }
    let info = match zip_entry_info(archive, index) {
        Ok(info) => info,
        Err(detail) => {
            return Err(invalid_pptx(detail.as_str()));
        },
    };
    let (counted, format) = match account_entry(
        tally,
        info.size,
        info.name.as_str(),
        info.is_dir,
        max_expanded_bytes,
    ) {
        Ok(step) => step,
        Err(error) => {
            return Err(error);
        },
    };
    let mut next = counted;
    if let Some(format) = format {
        let data = match zip_entry_bytes(archive, index) {
            Ok(data) => data,
            Err(detail) => {
                return Err(invalid_pptx(detail.as_str()));
            },
        };
        let (width, height) = match image_dimensions(data, format) {
            Ok(dimensions) => dimensions,
            Err(detail) => {
                return Err(invalid_pptx(detail.as_str()));
            },
        };
        next = match account_image(counted, width, height) {
            Ok(imaged) => imaged,
            Err(error) => {
                return Err(error);
            },
        };
    }
    let lower = to_ascii_lowercase(info.name.as_str());
    if text_ends_with(lower.as_str(), ".xml") || text_ends_with(lower.as_str(), ".rels") {
        let mut reader = match entry_xml_reader(archive, index) {
            Ok(reader) => reader,
            Err(detail) => {
                return Err(invalid_pptx(detail.as_str()));
            },
        };
        let text = match validate_xml(&mut reader, info.size, cancelled) {
            Ok(text) => text,
            Err(error) => {
                return Err(error);
            },
        };
        next = match account_text(next, text) {
            Ok(counted_text) => counted_text,
            Err(error) => {
                return Err(error);
            },
        };
    }
    Ok(next)
}

/// Checks a package before rendering: the source size, that it opens as a
/// ZIP archive, the entry count, and then every entry in order as
/// `preflight_entry` says, stopping at the first refusal. A cancelled check
/// stops with `OperationCancelled`.
pub fn preflight_package_with_expanded_limit<F: Fn() -> bool>(
    bytes: &[u8],
    cancelled: &F,
    max_expanded_bytes: u64,
) -> (r: Result<(), ApplicationError>)
    requires
        forall|| #[trigger] cancelled.requires(()),
    ensures
        preflight_verdict(
            bytes@,
            max_expanded_bytes,
            cancelled.ensures((), true),
            forall|b: bool| cancelled.ensures((), b) ==> b,
            r,
        ),
{
    if bytes.len() as u64 > MAX_PPTX_SOURCE_BYTES {
        return Err(budget_error("source file size", MAX_PPTX_SOURCE_BYTES));
    }
    let mut archive = match zip_archive_new(bytes) {
        Ok(archive) => archive,
        Err(detail) => {
            return Err(invalid_pptx(detail.as_str()));
        },
    };
    let ghost entries = zip_entries(archive);
    let count = zip_len(&archive);
    if count > MAX_PPTX_ZIP_ENTRIES {
        return Err(count_budget_error("ZIP entry-count", MAX_PPTX_ZIP_ENTRIES));
    }
    let mut tally = PreflightTally {
        expanded_bytes: 0,
        slide_count: 0,
        text_bytes: 0,
        media_count: 0,
        media_bytes: 0,
        image_pixels: 0,
    };
    let mut index: usize = 0;
    while index < count
        invariant
            forall|| #[trigger] cancelled.requires(()),
            bytes@.len() <= MAX_PPTX_SOURCE_BYTES,
            zip_opened(bytes@) == Ok::<_, Seq<char>>(entries),
            zip_entries(archive) == entries,
            count == entries.len(),
            count <= MAX_PPTX_ZIP_ENTRIES,
            index <= count,
            zip_archive_bytes(archive) == bytes@,
            preflight_prefix(bytes@, entries, index as nat, max_expanded_bytes) == Ok::<_, Seq<char>>(
                tally,
            ),
            (forall|b: bool| cancelled.ensures((), b) ==> b) ==> index == 0,
        decreases count - index,
    {
        match check_entry(&mut archive, index, tally, cancelled, max_expanded_bytes) {
            Ok(next) => {
                tally = next;
            },
            Err(error) => {
                proof {
                    if error != ApplicationError::OperationCancelled {
                        lemma_refusal_persists(
                            bytes@,
                            entries,
                            (index + 1) as nat,
                            entries.len(),
                            max_expanded_bytes,
                        );
                    }
                }
                return Err(error);
            },
        }
        index = index + 1;
    }
    Ok(())
}

/// Checks a package before rendering under the standard expanded-size budget.
pub fn preflight_package<F: Fn() -> bool>(bytes: &[u8], cancelled: &F) -> (r: Result<
    (),
    ApplicationError,
>)
    requires
        forall|| #[trigger] cancelled.requires(()),
    ensures
        preflight_verdict(
            bytes@,
            MAX_PPTX_EXPANDED_BYTES,
            cancelled.ensures((), true),
            forall|b: bool| cancelled.ensures((), b) ==> b,
            r,
        ),
{
    preflight_package_with_expanded_limit(bytes, cancelled, MAX_PPTX_EXPANDED_BYTES)
}

/// The refusal of a preview beyond the open-session limit.
pub fn session_limit_error() -> (r: ApplicationError)
    ensures
        is_invalid_request(
            r,
            "at most "@ + decimal(MAX_PPTX_SESSIONS as nat)
                + " PowerPoint previews may be open; close another preview first"@,
        ),
{
    let mut m = String::from_str("at most ");
    push_decimal(&mut m, MAX_PPTX_SESSIONS as u64);
    m.append(" PowerPoint previews may be open; close another preview first");
    ApplicationError::InvalidRequest(m)
}

/// The refusal of a package that the renderer could not convert.
pub fn render_error(detail: &str) -> (r: ApplicationError)
    ensures
        is_invalid_request(
            r,
            "PowerPoint preview rendering failed: "@ + detail@
                + "; open it in an external application"@,
        ),
{
    let mut m = String::from_str("PowerPoint preview rendering failed: ");
    m.append(detail);
    m.append("; open it in an external application");
    ApplicationError::InvalidRequest(m)
}

/// The refusal of a preview whose source is not a regular file.
pub fn not_a_file_error() -> (r: ApplicationError)
    ensures
        is_invalid_request(r, "PowerPoint preview requires a regular file"@),
{
    ApplicationError::InvalidRequest(String::from_str("PowerPoint preview requires a regular file"))
}

/// Decimal rendering of a signed number.
pub open spec fn signed_decimal(n: int) -> Seq<char> {
    if n < 0 {
        "-"@ + decimal((-n) as nat)
    } else {
        decimal(n as nat)
    }
}

/// The revision of a source: its size, its modification time in
/// nanoseconds (zero when unknown), and its metadata revision, separated by
/// colons.
pub fn source_revision(size: u64, modified_nanos: Option<i64>, metadata_revision: &str) -> (r: String)
    ensures
        r@ == decimal(size as nat) + ":"@ + signed_decimal(
            match modified_nanos {
                Some(n) => n as int,
                None => 0,
            },
        ) + ":"@ + metadata_revision@,
{
    let mut r = String::new();
    push_decimal(&mut r, size);
    r.append(":");
    let nanos: i64 = match modified_nanos {
        Some(n) => n,
        None => 0,
    };
    if nanos < 0 {
        r.append("-");
        let magnitude: u64 = if nanos == i64::MIN {
            9223372036854775808u64
        } else {
            (-nanos) as u64
        };
        push_decimal(&mut r, magnitude);
    } else {
        push_decimal(&mut r, nanos as u64);
    }
    r.append(":");
    r.append(metadata_revision);
    r
}

/// A range read of a preview stops at the first change of its source: a
/// different revision is a revision conflict naming both.
pub fn check_revision(expected: &str, actual: &str) -> (r: Result<(), ApplicationError>)
    ensures
        r is Ok <==> expected@ == actual@,
        r matches Err(e) ==> (e matches ApplicationError::FileRevisionConflict {
            expected_revision,
            actual_revision,
        } && expected_revision@ == expected@ && actual_revision@ == actual@),
{
    if crate::text::same_text(expected, actual) {
        Ok(())
    } else {
        Err(
            ApplicationError::FileRevisionConflict {
                expected_revision: expected.to_owned(),
                actual_revision: actual.to_owned(),
            },
        )
    }
}

/// A requested range length must be between one byte and the transport's
/// range limit.
pub fn check_range_length(length: u64, max_range_length: u64) -> (r: Result<(), ApplicationError>)
    ensures
        r is Ok <==> (1 <= length <= max_range_length),
        r matches Err(e) ==> is_invalid_request(
            e,
            "length must be between 1 and "@ + decimal(max_range_length as nat) + " bytes"@,
        ),
{
    if length == 0 || length > max_range_length {
        let mut m = String::from_str("length must be between 1 and ");
        push_decimal(&mut m, max_range_length);
        m.append(" bytes");
        return Err(ApplicationError::InvalidRequest(m));
    }
    Ok(())
}

/// One range of a rendered PDF.
#[derive(Debug, Clone, PartialEq, Eq)]
pub struct PdfRange {
    /// Requested offset.
    pub offset: u64,
    /// Bytes returned.
    pub length: u64,
    /// Whether the range reaches the end of the PDF.
    pub eof: bool,
    /// The bytes.
    pub data: Vec<u8>,
    /// Set on the first range: a PDF is binary.
    pub probably_binary: Option<bool>,
}

/// The byte bounds of a requested range within a PDF of `pdf_len` bytes:
/// the offset and the offset plus the length, each capped at the end.
pub open spec fn range_bounds(pdf_len: nat, offset: u64, length: u64) -> (int, int) {
    let start = if offset < pdf_len { offset as int } else { pdf_len as int };
    let end = if offset + length < pdf_len { offset + length } else { pdf_len as int };
    (start, end)
}

/// Reads one range of a rendered PDF: the bytes between the capped bounds,
/// whether they reach its end, and the binary hint on the first range.
pub fn read_pdf_range(pdf: &Vec<u8>, offset: u64, length: u64) -> (r: PdfRange)
    ensures
        ({
            let (start, end) = range_bounds(pdf@.len(), offset, length);
            &&& r.offset == offset
            &&& r.data@ == pdf@.subrange(start, if end < start { start } else { end })
            &&& r.length == r.data@.len()
            &&& r.eof == (end == pdf@.len())
            &&& r.probably_binary == if offset == 0 { Some(true) } else { None }
        }),
{
    let len = pdf.len();
    let start: usize = if offset < len as u64 { offset as usize } else { len };
    let requested_end = offset.saturating_add(length);
    let end: usize = if requested_end < len as u64 { requested_end as usize } else { len };
    let upper = if end < start { start } else { end };
    let mut data: Vec<u8> = Vec::new();
    let mut i = start;
    while i < upper
        invariant
            start <= i <= upper,
            upper <= len,
            len == pdf@.len(),
            data@ == pdf@.subrange(start as int, i as int),
        decreases upper - i,
    {
        data.push(pdf[i]);
        i = i + 1;
        assert(data@ =~= pdf@.subrange(start as int, i as int));
    }
    let n = data.len() as u64;
    PdfRange {
        offset,
        length: n,
        eof: end == len,
        data,
        probably_binary: if offset == 0 { Some(true) } else { None },
    }
}

/* ------------------------------------------------------------------------ */
/*  Open preview sessions                                                   */
/* ------------------------------------------------------------------------ */

/// State of a preview's complete PDF.
#[derive(Debug, PartialEq, Eq)]
pub enum PdfState {
    /// Still being rendered.
    Rendering,
    /// Rendered.
    Ready(Vec<u8>),
    /// Rendering failed, or the preview was closed; the text says why.
    Failed(String),
}

/// One open preview.
#[derive(Debug)]
pub struct PptxSession {
    /// Revision of the source when the preview was opened.
    pub revision: String,
    /// State of the complete PDF.
    pub pdf: PdfState,
}

/// Index of the session `id` among `sessions`, if it is open.
pub open spec fn session_index(sessions: Seq<(u128, PptxSession)>, id: u128) -> Option<int> {
    if exists|i: int| 0 <= i < sessions.len() && sessions[i].0 == id {
        Some(choose|i: int| 0 <= i < sessions.len() && sessions[i].0 == id)
    } else {
        None
    }
}

/// Whether no session id occurs twice.
pub open spec fn session_ids_distinct(sessions: Seq<(u128, PptxSession)>) -> bool {
    forall|i: int, j: int|
        0 <= i < j < sessions.len() ==> #[trigger] sessions[i].0 != #[trigger] sessions[j].0
}

/// The open previews and the slots reserved by previews being opened.
pub struct PptxSessions {
    reserved: usize,
    sessions: Vec<(u128, PptxSession)>,
}

impl PptxSessions {
    /// Slots reserved by previews still being opened.
    pub closed spec fn spec_reserved(&self) -> nat {
        self.reserved as nat
    }

    /// Open previews.
    pub closed spec fn spec_sessions(&self) -> Seq<(u128, PptxSession)> {
        self.sessions@
    }

    /// Slots in use: reserved ones and open previews.
    pub open spec fn slots_in_use(&self) -> nat {
        self.spec_reserved() + self.spec_sessions().len()
    }

    /// At most the session limit of slots is in use, and ids are distinct.
    pub open spec fn well_formed(&self) -> bool {
        &&& self.slots_in_use() <= MAX_PPTX_SESSIONS
        &&& session_ids_distinct(self.spec_sessions())
    }

    /// No previews and no reservations.
    pub fn new() -> (r: Self)
        ensures
            r.well_formed(),
            r.spec_reserved() == 0,
            r.spec_sessions().len() == 0,
    {
        PptxSessions { reserved: 0, sessions: Vec::new() }
    }

    /// Reserves a slot for a preview being opened, refusing beyond the limit.
    pub fn reserve(&mut self) -> (r: Result<(), ApplicationError>)
        requires
            old(self).well_formed(),
        ensures
            final(self).well_formed(),
            final(self).spec_sessions() == old(self).spec_sessions(),
            old(self).slots_in_use() < MAX_PPTX_SESSIONS ==> r is Ok && final(self).spec_reserved()
                == old(self).spec_reserved() + 1,
            old(self).slots_in_use() >= MAX_PPTX_SESSIONS ==> final(self).spec_reserved() == old(self).spec_reserved() && (r matches Err(e) && is_invalid_request(
                e,
                "at most "@ + decimal(MAX_PPTX_SESSIONS as nat)
                    + " PowerPoint previews may be open; close another preview first"@,
            )),
    {
        if self.reserved + self.sessions.len() < MAX_PPTX_SESSIONS {
            self.reserved = self.reserved + 1;
            Ok(())
        } else {
            Err(session_limit_error())
        }
    }

    /// Gives back the slot of a preview that failed to open.
    pub fn release(&mut self)
        requires
            old(self).well_formed(),
            old(self).spec_reserved() > 0,
        ensures
            final(self).well_formed(),
            final(self).spec_reserved() == old(self).spec_reserved() - 1,
            final(self).spec_sessions() == old(self).spec_sessions(),
    {
        self.reserved = self.reserved - 1;
    }

    /// Whether the preview `id` is open.
    pub fn contains(&self, id: u128) -> (r: bool)
        ensures
            r == (session_index(self.spec_sessions(), id) is Some),
    {
        let mut i: usize = 0;
        while i < self.sessions.len()
            invariant
                i <= self.sessions.len(),
                forall|j: int| 0 <= j < i ==> #[trigger] self.sessions@[j].0 != id,
            decreases self.sessions.len() - i,
        {
            if self.sessions[i].0 == id {
                return true;
            }
            i = i + 1;
        }
        false
    }

    fn find(&self, id: u128) -> (r: Option<usize>)
        requires
            session_ids_distinct(self.sessions@),
        ensures
            match r {
                Some(i) => session_index(self.spec_sessions(), id) == Some(i as int),
                None => session_index(self.spec_sessions(), id) is None,
            },
    {
        let mut i: usize = 0;
        while i < self.sessions.len()
            invariant
                i <= self.sessions.len(),
                session_ids_distinct(self.sessions@),
                forall|j: int| 0 <= j < i ==> #[trigger] self.sessions@[j].0 != id,
            decreases self.sessions.len() - i,
        {
            if self.sessions[i].0 == id {
                proof {
                    let k = choose|k: int| 0 <= k < self.sessions@.len() && self.sessions@[k].0 == id;
                    if k < i {
                        assert(self.sessions@[k].0 != self.sessions@[i as int].0);
                    } else if k > i {
                        assert(self.sessions@[i as int].0 != self.sessions@[k].0);
                    }
                }
                return Some(i);
            }
            i = i + 1;
        }
        None
    }

    /// Turns a reserved slot into an open preview whose PDF is rendering.
    pub fn register(&mut self, id: u128, revision: String)
        requires
            old(self).well_formed(),
            old(self).spec_reserved() > 0,
            session_index(old(self).spec_sessions(), id) is None,
        ensures
            final(self).well_formed(),
            final(self).spec_reserved() == old(self).spec_reserved() - 1,
            final(self).spec_sessions() == old(self).spec_sessions().push(
                (id, PptxSession { revision, pdf: PdfState::Rendering }),
            ),
    {
        self.reserved = self.reserved - 1;
        let ghost before = self.sessions@;
        self.sessions.push((id, PptxSession { revision, pdf: PdfState::Rendering }));
        assert forall|i: int, j: int| 0 <= i < j < self.sessions@.len() implies #[trigger] self.sessions@[i].0
            != #[trigger] self.sessions@[j].0 by {
            if j == before.len() {
                assert(!(0 <= i < before.len() && before[i].0 == id));
            }
        }
    }

    /// Records the outcome of rendering the complete PDF, unless the
    /// preview was closed meanwhile.
    pub fn finish_rendering(&mut self, id: u128, outcome: PdfState)
        requires
            old(self).well_formed(),
        ensures
            final(self).well_formed(),
            final(self).spec_reserved() == old(self).spec_reserved(),
            match session_index(old(self).spec_sessions(), id) {
                Some(i) => final(self).spec_sessions() == old(self).spec_sessions().update(
                    i,
                    (id, PptxSession { revision: old(self).spec_sessions()[i].1.revision, pdf: outcome }),
                ),
                None => final(self).spec_sessions() == old(self).spec_sessions(),
            },
    {
        match self.find(id) {
            Some(i) => {
                let ghost before = self.sessions@;
                let revision = self.sessions[i].1.revision.clone();
                self.sessions.set(i, (id, PptxSession { revision, pdf: outcome }));
                assert forall|a: int, b: int| 0 <= a < b < self.sessions@.len() implies #[trigger] self.sessions@[a].0
                    != #[trigger] self.sessions@[b].0 by {
                    assert(before[a].0 != before[b].0);
                }
            },
            None => {},
        }
    }

    /// Closes a preview and frees its slot; an unknown preview is not found.
    pub fn close(&mut self, id: u128) -> (r: Result<(), ApplicationError>)
        requires
            old(self).well_formed(),
        ensures
            final(self).well_formed(),
            final(self).spec_reserved() == old(self).spec_reserved(),
            match session_index(old(self).spec_sessions(), id) {
                Some(i) => r is Ok && final(self).spec_sessions() == old(self).spec_sessions().remove(i),
                None => r == Err::<(), ApplicationError>(ApplicationError::NotFound) && final(self).spec_sessions() == old(self).spec_sessions(),
            },
    {
        match self.find(id) {
            Some(i) => {
                let ghost before = self.sessions@;
                self.sessions.remove(i);
                assert forall|a: int, b: int| 0 <= a < b < self.sessions@.len() implies #[trigger] self.sessions@[a].0
                    != #[trigger] self.sessions@[b].0 by {
                    let a0 = if a < i { a } else { a + 1 };
                    let b0 = if b < i { b } else { b + 1 };
                    assert(self.sessions@[a] == before[a0]);
                    assert(self.sessions@[b] == before[b0]);
                    assert(before[a0].0 != before[b0].0);
                }
                Ok(())
            },
            None => Err(ApplicationError::NotFound),
        }
    }

    /// The open preview `id`; an unknown preview is not found.
    pub fn session(&self, id: u128) -> (r: Result<&PptxSession, ApplicationError>)
        requires
            self.well_formed(),
        ensures
            match session_index(self.spec_sessions(), id) {
                Some(i) => r == Ok::<&PptxSession, ApplicationError>(&self.spec_sessions()[i].1),
                None => r == Err::<&PptxSession, ApplicationError>(ApplicationError::NotFound),
            },
    {
        match self.find(id) {
            Some(i) => Ok(&self.sessions[i].1),
            None => Err(ApplicationError::NotFound),
        }
    }
}

/// Closing an open preview frees its slot, so that another preview can
/// then be opened, and leaves it unknown to later reads.
pub proof fn law_closing_frees_a_slot(
    reserved: nat,
    sessions: Seq<(u128, PptxSession)>,
    id: u128,
)
    requires
        reserved + sessions.len() <= MAX_PPTX_SESSIONS,
        session_ids_distinct(sessions),
        session_index(sessions, id) is Some,
    ensures
        reserved + sessions.remove(session_index(sessions, id)->0).len() < MAX_PPTX_SESSIONS,
        session_index(sessions.remove(session_index(sessions, id)->0), id) is None,
{
    let i = session_index(sessions, id)->0;
    let rest = sessions.remove(i);
    if exists|k: int| 0 <= k < rest.len() && rest[k].0 == id {
        let k = choose|k: int| 0 <= k < rest.len() && rest[k].0 == id;
        let k0 = if k < i { k } else { k + 1 };
        assert(rest[k] == sessions[k0]);
        if k0 < i {
            assert(sessions[k0].0 != sessions[i].0);
        } else {
            assert(sessions[i].0 != sessions[k0].0);
        }
    }
}

} // verus!
