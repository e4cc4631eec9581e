use print_agent::document::LoadError;
use print_agent::error::PrintError;
use print_agent::fallback::NoBackendAvailable;
use print_agent::raster::RenderError;
use print_agent::session::{Command, DeviceError};

#[test]
fn render_errors_in_words() {
    assert_eq!(
        RenderError::BackendUnavailable("pdfium.dll".to_string()).message(),
        "rendering backend not available: pdfium.dll"
    );
    assert_eq!(
        RenderError::PageFailed("bad stream".to_string()).message(),
        "page could not be rendered: bad stream"
    );
    assert_eq!(RenderError::EmptyPage.message(), "page has no area");
    assert_eq!(RenderError::BadBuffer.message(), "pixel buffer does not match its size");
    assert_eq!(RenderError::TooLarge.message(), "picture does not fit into memory");
}

#[test]
fn print_errors_name_the_stage() {
    assert_eq!(
        PrintError::Decode("Invalid padding".to_string()).message(),
        "Failed to decode PDF: Invalid padding"
    );
    assert_eq!(
        PrintError::Load(LoadError::NoPages).message(),
        "Failed to load PDF: document has no pages"
    );
    assert_eq!(
        PrintError::Load(LoadError::UnsupportedFormat).message(),
        "Failed to load PDF: not a PDF document"
    );
    assert_eq!(
        PrintError::Render(RenderError::EmptyPage).message(),
        "Failed to render PDF: page has no area"
    );
    assert_eq!(
        PrintError::Device(DeviceError {
            command: Some(Command::SubmitRaster),
            printer: "Zebra".to_string(),
            detail: "out of memory".to_string(),
        })
        .message(),
        "Device error on printer 'Zebra' (submit raster): out of memory"
    );
    assert_eq!(
        PrintError::NoBackendAvailable(NoBackendAvailable {
            attempts: vec!["a.exe: not found".to_string(), "b.exe: exit 2".to_string()],
        })
        .message(),
        "No print backend available. Tried: a.exe: not found; b.exe: exit 2"
    );
}
