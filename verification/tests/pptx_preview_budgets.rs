use std::io::Write;

use fm_application::error::ApplicationError;
use fm_application::pptx_preview::{
    budget_error, check_range_length, check_revision, pixel_budget_error, preflight_package,
    preflight_package_with_expanded_limit, raster_image_format, read_pdf_range, source_revision,
    account_entry, account_image, account_text, PreflightTally, RasterFormat,
    MAX_PPTX_XML_DEPTH,
    MAX_PPTX_EXPANDED_BYTES, MAX_PPTX_MEDIA_BYTES, MAX_PPTX_SINGLE_MEDIA_BYTES,
    MAX_PPTX_SOURCE_BYTES, MAX_PPTX_ZIP_ENTRIES,
};

fn package(entries: &[(&str, &[u8])]) -> Vec<u8> {
    let mut bytes = std::io::Cursor::new(Vec::new());
    {
        let mut archive = zip::ZipWriter::new(&mut bytes);
        for (name, data) in entries {
            archive
                .start_file(
                    *name,
                    zip::write::SimpleFileOptions::default()
                        .compression_method(zip::CompressionMethod::Deflated),
                )
                .expect("start fixture entry");
            archive.write_all(data).expect("write fixture entry");
        }
        archive.finish().expect("finish fixture package");
    }
    bytes.into_inner()
}

fn presentation_package() -> Vec<u8> {
    package(&[
        (
            "[Content_Types].xml",
            br#"<Types xmlns="http://schemas.openxmlformats.org/package/2006/content-types"><Default Extension="xml" ContentType="application/xml"/></Types>"#,
        ),
        (
            "ppt/presentation.xml",
            br#"<p:presentation xmlns:p="http://schemas.openxmlformats.org/presentationml/2006/main"><p:sldIdLst/></p:presentation>"#,
        ),
        (
            "ppt/slides/slide1.xml",
            br#"<p:sld xmlns:a="http://schemas.openxmlformats.org/drawingml/2006/main" xmlns:p="http://schemas.openxmlformats.org/presentationml/2006/main"><a:t>Hello PPTX</a:t></p:sld>"#,
        ),
    ])
}

fn message(error: ApplicationError) -> String {
    match error {
        ApplicationError::InvalidRequest(message) => message,
        other => panic!("expected an invalid request, got {other:?}"),
    }
}

fn empty_tally() -> PreflightTally {
    PreflightTally {
        expanded_bytes: 0,
        slide_count: 0,
        text_bytes: 0,
        media_count: 0,
        media_bytes: 0,
        image_pixels: 0,
    }
}

#[test]
fn uses_practical_budgets_and_reports_size_limits_in_mib() {
    assert_eq!(MAX_PPTX_SOURCE_BYTES, 64 * 1024 * 1024);
    assert_eq!(MAX_PPTX_EXPANDED_BYTES, 256 * 1024 * 1024);
    assert_eq!(MAX_PPTX_MEDIA_BYTES, 64 * 1024 * 1024);
    assert_eq!(MAX_PPTX_SINGLE_MEDIA_BYTES, 64 * 1024 * 1024);
    let ApplicationError::InvalidRequest(message) =
        budget_error("source file size", MAX_PPTX_SOURCE_BYTES)
    else {
        panic!("budget error must be an invalid request");
    };
    assert_eq!(
        message,
        "PowerPoint preview cannot open this file because it exceeds the source file size limit of 64 MiB. Open it externally."
    );
}

#[test]
fn rejects_expanded_zip_and_entry_count_budget_overruns() {
    let expanded_limit = 1_024;
    let oversized = vec![b'x'; expanded_limit as usize + 1];
    let bytes = package(&[("ppt/presentation.xml", oversized.as_slice())]);
    let expanded_error = preflight_package_with_expanded_limit(&bytes, &|| false, expanded_limit)
        .expect_err("expanded package budget must be enforced");
    assert!(message(expanded_error).contains("expanded ZIP"));

    let names = (0..=MAX_PPTX_ZIP_ENTRIES)
        .map(|index| format!("custom/item-{index}.bin"))
        .collect::<Vec<_>>();
    let entries = names
        .iter()
        .map(|name| (name.as_str(), b"x".as_slice()))
        .collect::<Vec<_>>();
    let bytes = package(&entries);
    let count_error =
        preflight_package(&bytes, &|| false).expect_err("entry-count budget must be enforced");
    assert!(message(count_error).contains("entry-count"));
}

#[test]
fn rejects_raster_images_with_an_excessive_decoded_size() {
    let mut gif = b"GIF89a\x01\0\x01\0\x80\0\0\0\0\0\xff\xff\xff\
        \x21\xf9\x04\x01\0\0\0\0\x2c\0\0\0\0\x01\0\x01\0\0\
        \x02\x02\x44\x01\0\x3b"
        .to_vec();
    gif[6..10].copy_from_slice(&[0xff, 0xff, 0xff, 0xff]);
    let bytes = package(&[("ppt/media/image1.gif", &gif)]);

    let error = preflight_package(&bytes, &|| false)
        .expect_err("decoded image pixel budget must be enforced");

    let text = message(error);
    assert!(text.contains("decoded pixels"), "{text}");
}

#[test]
fn honours_cancellation_before_rendering() {
    let error = preflight_package(&presentation_package(), &|| true)
        .expect_err("cancelled conversion must stop");
    assert_eq!(error, ApplicationError::OperationCancelled);
}

#[test]
fn a_well_formed_presentation_passes_preflight() {
    assert_eq!(preflight_package(&presentation_package(), &|| false), Ok(()));
}

#[test]
fn a_document_type_declaration_makes_the_package_malformed() {
    let bytes = package(&[(
        "ppt/presentation.xml",
        b"<!DOCTYPE x [<!ENTITY a \"b\">]><p/>".as_slice(),
    )]);
    let text = message(preflight_package(&bytes, &|| false).unwrap_err());
    assert_eq!(
        text,
        "PowerPoint preview is unavailable because the package is malformed: DOCTYPE declarations are not allowed"
    );
}

#[test]
fn non_zip_bytes_are_malformed() {
    let text = message(preflight_package(b"not a zip", &|| false).unwrap_err());
    assert!(text.starts_with("PowerPoint preview is unavailable because the package is malformed: "));
}

#[test]
fn oversized_source_is_refused_before_parsing() {
    let bytes = vec![0u8; MAX_PPTX_SOURCE_BYTES as usize + 1];
    let text = message(preflight_package(&bytes, &|| false).unwrap_err());
    assert!(text.contains("source file size limit of 64 MiB"));
}

#[test]
fn limits_that_are_not_whole_mib_are_reported_in_bytes() {
    assert_eq!(
        message(budget_error("expanded ZIP", 1_024)),
        "PowerPoint preview cannot open this file because it exceeds the expanded ZIP limit of 1024 bytes. Open it externally."
    );
    assert_eq!(
        message(pixel_budget_error("per-image decoded pixels", 16_777_216)),
        "PowerPoint preview exceeds the per-image decoded pixels budget (16777216 pixels); open it in an external application"
    );
}

#[test]
fn raster_formats_follow_the_extension_in_any_case() {
    assert_eq!(raster_image_format("ppt/media/a.PNG"), Some(RasterFormat::Png));
    assert_eq!(raster_image_format("ppt/media/a.jpeg"), Some(RasterFormat::Jpeg));
    assert_eq!(raster_image_format("ppt/media/a.Jpg"), Some(RasterFormat::Jpeg));
    assert_eq!(raster_image_format("ppt/media/a.gif"), Some(RasterFormat::Gif));
    assert_eq!(raster_image_format("ppt/media/a.webp"), Some(RasterFormat::WebP));
    assert_eq!(raster_image_format("ppt/media/a.emf"), None);
    assert_eq!(raster_image_format("ppt/media/noextension"), None);
}

#[test]
fn entry_accounting_counts_slides_media_and_text() {
    let (tally, format) =
        account_entry(empty_tally(), 10, "ppt/slides/slide1.xml", false, 100).unwrap();
    assert_eq!(tally.slide_count, 1);
    assert_eq!(tally.expanded_bytes, 10);
    assert_eq!(format, None);
    let (tally, format) = account_entry(tally, 20, "ppt/media/image1.png", false, 100).unwrap();
    assert_eq!(tally.media_count, 1);
    assert_eq!(tally.media_bytes, 20);
    assert_eq!(format, Some(RasterFormat::Png));
    let tally = account_image(tally, 100, 100).unwrap();
    assert_eq!(tally.image_pixels, 10_000);
    let tally = account_text(tally, 7).unwrap();
    assert_eq!(tally.text_bytes, 7);
    assert!(message(account_entry(tally, 71, "x.bin", false, 100).unwrap_err())
        .contains("expanded ZIP limit of 100 bytes"));
    assert!(message(account_image(tally, 5_000, 5_000).unwrap_err()).contains("per-image"));
    assert!(message(account_text(tally, 4 * 1024 * 1024).unwrap_err()).contains("text limit of 4 MiB"));
}

#[test]
fn pdf_ranges_are_capped_at_the_end() {
    let pdf = b"%PDF-complete".to_vec();
    let first = read_pdf_range(&pdf, 0, 5);
    assert_eq!(first.data, b"%PDF-");
    assert_eq!(first.length, 5);
    assert!(!first.eof);
    assert_eq!(first.probably_binary, Some(true));
    let rest = read_pdf_range(&pdf, 5, 100);
    assert_eq!(rest.data, b"complete");
    assert!(rest.eof);
    assert_eq!(rest.probably_binary, None);
    let beyond = read_pdf_range(&pdf, 100, 5);
    assert!(beyond.data.is_empty());
    assert!(beyond.eof);
}

#[test]
fn range_lengths_and_revisions_are_checked() {
    assert!(check_range_length(0, 1024).is_err());
    assert!(check_range_length(1025, 1024).is_err());
    assert_eq!(check_range_length(1024, 1024), Ok(()));
    assert_eq!(
        message(check_range_length(0, 1024).unwrap_err()),
        "length must be between 1 and 1024 bytes"
    );
    assert_eq!(check_revision("1:2:3", "1:2:3"), Ok(()));
    assert!(matches!(
        check_revision("1:2:3", "1:2:4"),
        Err(ApplicationError::FileRevisionConflict { .. })
    ));
    assert_eq!(source_revision(12, Some(-5), "r7"), "12:-5:r7");
    assert_eq!(source_revision(12, None, "r7"), "12:0:r7");
}

#[test]
fn close_cancels_and_releases_the_session() {
    let mut sessions = fm_application::pptx_preview::PptxSessions::new();
    sessions.reserve().expect("a slot is free");
    sessions.register(1, "10:0:0".to_owned());
    assert!(sessions.contains(1));
    assert_eq!(sessions.close(1), Ok(()));
    assert!(!sessions.contains(1));
    assert!(matches!(
        sessions.session(1),
        Err(fm_application::error::ApplicationError::NotFound)
    ));
    assert_eq!(sessions.close(1), Err(fm_application::error::ApplicationError::NotFound));
}

#[test]
fn closing_releases_the_session_slot_before_background_rendering_finishes() {
    let mut sessions = fm_application::pptx_preview::PptxSessions::new();
    for id in 0..8u128 {
        sessions.reserve().expect("a slot is free");
        sessions.register(id, format!("{id}"));
    }
    match sessions.reserve() {
        Err(fm_application::error::ApplicationError::InvalidRequest(message)) => assert_eq!(
            message,
            "at most 8 PowerPoint previews may be open; close another preview first"
        ),
        other => panic!("a ninth preview must be refused: {other:?}"),
    }
    sessions.close(3).expect("open preview");
    sessions.reserve().expect("closing frees a slot while rendering is pending");
    sessions.finish_rendering(3, fm_application::pptx_preview::PdfState::Ready(vec![1, 2, 3]));
    assert!(!sessions.contains(3));
    sessions.finish_rendering(4, fm_application::pptx_preview::PdfState::Ready(vec![7]));
    let session = sessions.session(4).expect("open preview");
    assert_eq!(session.pdf, fm_application::pptx_preview::PdfState::Ready(vec![7]));
    assert_eq!(session.revision, "4");
    sessions.release();
}

fn single_part(xml: &[u8]) -> Vec<u8> {
    package(&[("ppt/presentation.xml", xml)])
}

#[test]
fn xml_scans_count_text_bytes_and_refuse_what_they_must() {
    assert_eq!(preflight_package(&single_part(b"<a>hello</a>"), &|| false), Ok(()));
    assert_eq!(preflight_package(&single_part(b"<a><b/>x</a>"), &|| false), Ok(()));
    let doctype = message(preflight_package(&single_part(b"<!DOCTYPE a><a/>"), &|| false).unwrap_err());
    assert!(doctype.contains("DOCTYPE declarations are not allowed"));
    let deep = "<a>".repeat(MAX_PPTX_XML_DEPTH + 1);
    let depth = message(preflight_package(&single_part(deep.as_bytes()), &|| false).unwrap_err());
    assert!(depth.contains("XML depth budget (128)"));
    assert_eq!(
        preflight_package(&single_part(b"<a/>"), &|| true),
        Err(ApplicationError::OperationCancelled)
    );
}

fn stored_part_with_a_wrong_checksum(xml: &[u8]) -> Vec<u8> {
    let mut bytes = std::io::Cursor::new(Vec::new());
    {
        let mut archive = zip::ZipWriter::new(&mut bytes);
        archive
            .start_file(
                "ppt/presentation.xml",
                zip::write::SimpleFileOptions::default()
                    .compression_method(zip::CompressionMethod::Stored),
            )
            .expect("start fixture entry");
        archive.write_all(xml).expect("write fixture entry");
        archive.finish().expect("finish fixture package");
    }
    let mut bytes = bytes.into_inner();
    let local = bytes.windows(4).position(|w| w == b"PK\x03\x04").expect("local header");
    bytes[local + 14] ^= 0xff;
    let central = bytes.windows(4).position(|w| w == b"PK\x01\x02").expect("central header");
    bytes[central + 16] ^= 0xff;
    bytes
}

#[test]
fn xml_parts_are_streamed_so_an_early_xml_fault_comes_before_a_checksum_fault() {
    let mut xml = b"<!DOCTYPE a><a>".to_vec();
    xml.extend(std::iter::repeat(b'x').take(64 * 1024));
    xml.extend_from_slice(b"</a>");
    let text = message(
        preflight_package(&stored_part_with_a_wrong_checksum(&xml), &|| false).unwrap_err(),
    );
    assert!(text.contains("DOCTYPE declarations are not allowed"), "{text}");
}

#[test]
fn a_checksum_fault_in_an_xml_part_is_reported_by_the_xml_reader() {
    let text = message(
        preflight_package(&stored_part_with_a_wrong_checksum(b"<a>hello</a>"), &|| false)
            .unwrap_err(),
    );
    assert!(text.contains("I/O error"), "{text}");
}

#[test]
fn a_package_without_entries_is_never_cancelled() {
    assert_eq!(preflight_package(&package(&[]), &|| true), Ok(()));
}

#[test]
fn a_cancelled_check_stops_before_the_first_entry_even_over_budget() {
    let bytes = package(&[("ppt/presentation.xml", &[b'x'; 1025])]);
    assert_eq!(
        preflight_package_with_expanded_limit(&bytes, &|| true, 1024),
        Err(ApplicationError::OperationCancelled)
    );
}
