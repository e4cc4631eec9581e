use print_agent::document::{check_signature, LoadError, LoadedDocument, Page, RenderPlan};
use print_agent::geometry::Size;
use print_agent::raster::{ChannelOrder, PixelLayout, RenderError, RowOrder};

const MINIMAL: &[u8] = b"%PDF-1.4\n%%EOF\n";

fn label_page() -> Page {
    Page { width: 288_000, height: 432_000 }
}

#[test]
fn pdf_signature_is_recognized() {
    assert!(check_signature(b"%PDF-1.7"));
    assert!(check_signature(b"%PDF-"));
}

#[test]
fn other_bytes_are_not_recognized() {
    assert!(!check_signature(b""));
    assert!(!check_signature(b"%PDF"));
    assert!(!check_signature(b"%pdf-1.4"));
    assert!(!check_signature(b" %PDF-1.4"));
    assert!(!check_signature(b"PK\x03\x04"));
    assert!(!check_signature(b"%PDF_1.4"));
}

#[test]
fn document_with_pages_is_loaded() {
    let pages = vec![label_page(), Page { width: 595_000, height: 842_000 }];
    let document = LoadedDocument::load(MINIMAL, Ok(pages)).ok().unwrap();
    assert_eq!(document.page_count(), 2);
    assert_eq!(document.page(0), Some(label_page()));
    assert_eq!(document.page(1), Some(Page { width: 595_000, height: 842_000 }));
    assert_eq!(document.page(2), None);
    assert_eq!(document.printed_page(), label_page());
}

#[test]
fn document_without_pages_is_refused() {
    let loaded = LoadedDocument::load(MINIMAL, Ok(Vec::new()));
    assert!(matches!(loaded, Err(LoadError::NoPages)));
}

#[test]
fn document_that_is_no_pdf_is_refused() {
    let loaded = LoadedDocument::load(b"GIF89a", Ok(vec![label_page()]));
    assert!(matches!(loaded, Err(LoadError::UnsupportedFormat)));
    let loaded = LoadedDocument::load(b"GIF89a", Err("bad header".to_string()));
    assert!(matches!(loaded, Err(LoadError::UnsupportedFormat)));
    let loaded = LoadedDocument::load(b"", Ok(Vec::new()));
    assert!(matches!(loaded, Err(LoadError::UnsupportedFormat)));
}

#[test]
fn document_that_the_parser_gave_up_on_is_refused() {
    let loaded = LoadedDocument::load(MINIMAL, Err("xref table missing".to_string()));
    match loaded {
        Err(LoadError::Malformed(detail)) => assert_eq!(detail, "xref table missing"),
        _ => panic!("expected a malformed document"),
    }
}

#[test]
fn load_errors_in_words() {
    assert_eq!(LoadError::UnsupportedFormat.message(), "not a PDF document");
    assert_eq!(LoadError::NoPages.message(), "document has no pages");
    assert_eq!(
        LoadError::Malformed("xref table missing".to_string()).message(),
        "malformed document: xref table missing"
    );
}

#[test]
fn page_size_is_its_width_and_height() {
    assert_eq!(label_page().size(), Size { width: 288_000, height: 432_000 });
}

#[test]
fn first_page_is_rendered_to_fit_the_target() {
    let pages = vec![Page { width: 595_000, height: 842_000 }, label_page()];
    let document = LoadedDocument::load(MINIMAL, Ok(pages)).ok().unwrap();
    let plan = document.render_plan();
    assert_eq!(plan, Ok(RenderPlan { page_index: 0, size: Size { width: 1200, height: 1698 } }));
}

#[test]
fn label_is_rendered_at_the_full_target() {
    let document = LoadedDocument::load(MINIMAL, Ok(vec![label_page()])).ok().unwrap();
    let plan = document.render_plan();
    assert_eq!(plan, Ok(RenderPlan { page_index: 0, size: Size { width: 1200, height: 1800 } }));
}

#[test]
fn page_without_area_has_no_render_plan() {
    let pages = vec![Page { width: 0, height: 842_000 }, label_page()];
    let document = LoadedDocument::load(MINIMAL, Ok(pages)).ok().unwrap();
    assert_eq!(document.render_plan(), Err(RenderError::EmptyPage));
}

#[test]
fn rendered_picture_is_taken_over_at_the_planned_size() {
    let plan = RenderPlan { page_index: 0, size: Size { width: 2, height: 1 } };
    let native = PixelLayout { channels: ChannelOrder::Bgr, rows: RowOrder::BottomUp, row_alignment: 4 };
    let buffer = plan.accept(&[3, 2, 1, 6, 5, 4, 0, 0], native).unwrap();
    assert_eq!(buffer.size(), Size { width: 2, height: 1 });
    assert_eq!(buffer.data(), &vec![1, 2, 3, 4, 5, 6]);
}

#[test]
fn rendered_picture_of_another_size_is_refused() {
    let plan = RenderPlan { page_index: 0, size: Size { width: 2, height: 1 } };
    let native = PixelLayout { channels: ChannelOrder::Rgb, rows: RowOrder::TopDown, row_alignment: 1 };
    assert!(matches!(plan.accept(&[0; 12], native), Err(RenderError::BadBuffer)));
    let empty = RenderPlan { page_index: 0, size: Size { width: 0, height: 1 } };
    assert!(matches!(empty.accept(&[], native), Err(RenderError::EmptyPage)));
}
