use print_agent::dispatch::{next_strategy, primary_strategy, Platform, Strategy};
use print_agent::document::LoadError;
use print_agent::error::PrintError;
use print_agent::fallback::NoBackendAvailable;
use print_agent::raster::RenderError;
use print_agent::session::{Command, DeviceError};

fn errors() -> Vec<PrintError> {
    vec![
        PrintError::Decode("x".to_string()),
        PrintError::Load(LoadError::NoPages),
        PrintError::Render(RenderError::BackendUnavailable("x".to_string())),
        PrintError::Render(RenderError::PageFailed("x".to_string())),
        PrintError::Render(RenderError::EmptyPage),
        PrintError::Device(DeviceError {
            command: Some(Command::Open),
            printer: "p".to_string(),
            detail: "d".to_string(),
        }),
        PrintError::NoBackendAvailable(NoBackendAvailable { attempts: Vec::new() }),
    ]
}

#[test]
fn every_platform_has_its_primary_strategy() {
    assert_eq!(primary_strategy(Platform::ShellPrint), Strategy::ShellCommand);
    assert_eq!(primary_strategy(Platform::DeviceContext), Strategy::DeviceSession);
}

#[test]
fn missing_rasterizer_sends_the_job_to_the_fallback_chain() {
    let error = PrintError::Render(RenderError::BackendUnavailable("pdfium".to_string()));
    assert_eq!(
        next_strategy(Platform::DeviceContext, Strategy::DeviceSession, &error),
        Some(Strategy::FallbackChain)
    );
    let error = PrintError::Render(RenderError::PageFailed("bad stream".to_string()));
    assert_eq!(
        next_strategy(Platform::DeviceContext, Strategy::DeviceSession, &error),
        Some(Strategy::FallbackChain)
    );
}

#[test]
fn other_failures_of_the_device_path_are_final() {
    for error in errors() {
        let next = next_strategy(Platform::DeviceContext, Strategy::DeviceSession, &error);
        let expected =
            if matches!(error, PrintError::Render(_)) { Some(Strategy::FallbackChain) } else { None };
        assert_eq!(next, expected, "after {:?}", error);
    }
}

#[test]
fn nothing_follows_the_fallback_chain() {
    for error in errors() {
        assert_eq!(next_strategy(Platform::DeviceContext, Strategy::FallbackChain, &error), None);
    }
}

#[test]
fn shell_print_platform_has_no_second_strategy() {
    let strategies = [Strategy::ShellCommand, Strategy::DeviceSession, Strategy::FallbackChain];
    for strategy in strategies {
        for error in errors() {
            assert_eq!(next_strategy(Platform::ShellPrint, strategy, &error), None);
        }
    }
}
