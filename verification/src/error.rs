//! What can go wrong with a print job, by the stage that failed.

use vstd::prelude::*;
use vstd::string::StringExecFns;
use crate::document::LoadError;
use crate::fallback::NoBackendAvailable;
use crate::raster::RenderError;
use crate::session::DeviceError;

verus! {

/// Why a print job failed. Every failure is final: nothing is retried.
#[derive(Clone, Debug, PartialEq, Eq)]
pub enum PrintError {
    /// The transport blob is not valid base64, or decodes to nothing; with
    /// the decoder's words.
    Decode(String),
    /// The document is not one that can be printed.
    Load(LoadError),
    /// The page could not be rasterized.
    Render(RenderError),
    /// The device refused the job.
    Device(DeviceError),
    /// Every candidate of the fallback chain was absent or failed.
    NoBackendAvailable(NoBackendAvailable),
}

impl RenderError {
    /// The text of [`RenderError::message`].
    pub open spec fn message_text(self) -> Seq<char> {
        match self {
            RenderError::BackendUnavailable(detail) => "rendering backend not available: "@
                + detail@,
            RenderError::PageFailed(detail) => "page could not be rendered: "@ + detail@,
            RenderError::EmptyPage => "page has no area"@,
            RenderError::BadBuffer => "pixel buffer does not match its size"@,
            RenderError::TooLarge => "picture does not fit into memory"@,
        }
    }

    /// The error in words.
    pub fn message(&self) -> (text: String)
        ensures
            text@ == self.message_text(),
    {
        match self {
            RenderError::BackendUnavailable(detail) => {
                let mut text = String::from_str("rendering backend not available: ");
                text.append(detail.as_str());
                text
            },
            RenderError::PageFailed(detail) => {
                let mut text = String::from_str("page could not be rendered: ");
                text.append(detail.as_str());
                text
            },
            RenderError::EmptyPage => String::from_str("page has no area"),
            RenderError::BadBuffer => String::from_str("pixel buffer does not match its size"),
            RenderError::TooLarge => String::from_str("picture does not fit into memory"),
        }
    }
}

impl PrintError {
    /// The text of [`PrintError::message`]: the stage that failed, and what
    /// is known of the failure.
    pub open spec fn message_text(self) -> Seq<char> {
        match self {
            PrintError::Decode(detail) => "Failed to decode PDF: "@ + detail@,
            PrintError::Load(error) => "Failed to load PDF: "@ + error.message_text(),
            PrintError::Render(error) => "Failed to render PDF: "@ + error.message_text(),
            PrintError::Device(error) => error.message_text(),
            PrintError::NoBackendAvailable(error) => error.message_text(),
        }
    }

    /// The error as one line for the caller.
    pub fn message(&self) -> (text: String)
        ensures
            text@ == self.message_text(),
    {
        match self {
            PrintError::Decode(detail) => {
                let mut text = String::from_str("Failed to decode PDF: ");
                text.append(detail.as_str());
                text
            },
            PrintError::Load(error) => {
                let mut text = String::from_str("Failed to load PDF: ");
                let detail = error.message();
                text.append(detail.as_str());
                text
            },
            PrintError::Render(error) => {
                let mut text = String::from_str("Failed to render PDF: ");
                let detail = error.message();
                text.append(detail.as_str());
                text
            },
            PrintError::Device(error) => error.message(),
            PrintError::NoBackendAvailable(error) => error.message(),
        }
    }
}

} // verus!
