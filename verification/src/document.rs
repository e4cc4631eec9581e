//! The document loader's side of the job: what a loaded document is, and
//! which documents are refused before anything is rendered.
//!
//! Reading the pages out of the document's bytes is the work of a parsing
//! backend. What it found is handed in here as plain values.

use vstd::prelude::*;
use vstd::string::StringExecFns;
use crate::geometry::Size;
use crate::raster::{
    raster_size, read_native, rendered_size, row_stride, PixelLayout, RasterBuffer, RasterView,
    RenderError, TARGET_HEIGHT, TARGET_WIDTH,
};

verus! {

/// A page of a document as the loader found it. Its size is in thousandths
/// of a document unit, so that the proportions of a page survive without
/// fractions.
#[derive(Clone, Copy, Debug, PartialEq, Eq, Structural)]
pub struct Page {
    pub width: u32,
    pub height: u32,
}

impl Page {
    pub open spec fn size_spec(self) -> Size {
        Size { width: self.width, height: self.height }
    }

    /// Width and height of the page.
    #[verifier::when_used_as_spec(size_spec)]
    pub fn size(self) -> (size: Size)
        ensures
            size == self.size_spec(),
    {
        Size { width: self.width, height: self.height }
    }
}

/// Why a document could not be loaded.
#[derive(Clone, Debug, PartialEq, Eq)]
pub enum LoadError {
    /// The bytes are not a PDF document.
    UnsupportedFormat,
    /// The document is damaged; the parser's words on it.
    Malformed(String),
    /// The document has no page.
    NoPages,
}

impl LoadError {
    /// The text of [`LoadError::message`].
    pub open spec fn message_text(self) -> Seq<char> {
        match self {
            LoadError::UnsupportedFormat => "not a PDF document"@,
            LoadError::Malformed(detail) => "malformed document: "@ + detail@,
            LoadError::NoPages => "document has no pages"@,
        }
    }

    /// The error in words.
    pub fn message(&self) -> (text: String)
        ensures
            text@ == self.message_text(),
    {
        match self {
            LoadError::UnsupportedFormat => String::from_str("not a PDF document"),
            LoadError::Malformed(detail) => {
                let mut text = String::from_str("malformed document: ");
                text.append(detail.as_str());
                text
            },
            LoadError::NoPages => String::from_str("document has no pages"),
        }
    }
}

/// The five bytes that every PDF document starts with: `%PDF-`.
pub open spec fn pdf_signature() -> Seq<u8> {
    seq![0x25u8, 0x50u8, 0x44u8, 0x46u8, 0x2Du8]
}

/// Whether the bytes start as a PDF document does.
pub open spec fn has_pdf_signature(bytes: Seq<u8>) -> bool {
    pdf_signature().is_prefix_of(bytes)
}

/// Looks whether the bytes start as a PDF document does.
pub fn check_signature(bytes: &[u8]) -> (recognized: bool)
    ensures
        recognized == has_pdf_signature(bytes@),
{
    if bytes.len() < 5 {
        return false;
    }
    let recognized = bytes[0] == 0x25 && bytes[1] == 0x50 && bytes[2] == 0x44 && bytes[3] == 0x46
        && bytes[4] == 0x2D;
    proof {
        let signature = pdf_signature();
        if recognized {
            assert(signature =~= bytes@.subrange(0, 5));
        } else {
            assert(signature[0] == 0x25 && signature[1] == 0x50 && signature[2] == 0x44
                && signature[3] == 0x46 && signature[4] == 0x2D);
            if signature.is_prefix_of(bytes@) {
                assert(forall|i: int| 0 <= i < 5 ==> signature[i] == bytes@[i]);
            }
        }
    }
    recognized
}

/// What the loader makes of a document's bytes and of what the parser found
/// in them: the pages, or why there are none to be had.
pub open spec fn loaded(bytes: Seq<u8>, parsed: Result<Vec<Page>, String>) -> Result<
    Seq<Page>,
    LoadError,
> {
    if !has_pdf_signature(bytes) {
        Err(LoadError::UnsupportedFormat)
    } else {
        match parsed {
            Err(detail) => Err(LoadError::Malformed(detail)),
            Ok(pages) => if pages@.len() == 0 {
                Err(LoadError::NoPages)
            } else {
                Ok(pages@)
            },
        }
    }
}

/// A document without pages is never loaded, whatever its bytes are: the
/// loader fails, so there is no loaded document to render from.
pub proof fn lemma_document_without_pages_is_refused(
    bytes: Seq<u8>,
    parsed: Result<Vec<Page>, String>,
)
    requires
        parsed matches Ok(pages) && pages@.len() == 0,
    ensures
        loaded(bytes, parsed) is Err,
        has_pdf_signature(bytes) ==> loaded(bytes, parsed) == Err::<Seq<Page>, LoadError>(
            LoadError::NoPages,
        ),
{
}

/// What to ask of the rendering backend: which page, and at which size in
/// pixels.
#[derive(Clone, Copy, Debug, PartialEq, Eq, Structural)]
pub struct RenderPlan {
    pub page_index: usize,
    pub size: Size,
}

impl RenderPlan {
    /// Takes over the picture that the rendering backend made for this plan,
    /// in the backend's own layout. The buffer has the size that the plan
    /// asked for; a picture of another length is refused.
    pub fn accept(&self, bytes: &[u8], layout: PixelLayout) -> (buffer: Result<
        RasterBuffer,
        RenderError,
    >)
        ensures
            buffer matches Ok(b) ==> b@ == (RasterView {
                width: self.size.width as int,
                height: self.size.height as int,
                data: read_native(bytes@, self.size.width as int, self.size.height as int, layout),
            }) && b@.well_formed(),
            buffer matches Err(e) ==> e == (if self.size.is_empty() {
                RenderError::EmptyPage
            } else {
                RenderError::BadBuffer
            }),
            buffer is Ok <==> !self.size.is_empty() && bytes@.len() == row_stride(
                self.size.width as int,
                layout.row_alignment as int,
            ) * self.size.height,
    {
        RasterBuffer::from_native(self.size.width, self.size.height, bytes, layout)
    }
}

/// A document that has been loaded. It has at least one page: a document
/// without pages is refused by the loader, so nothing is ever rendered from
/// one.
pub struct LoadedDocument {
    pages: Vec<Page>,
}

impl View for LoadedDocument {
    type V = Seq<Page>;

    closed spec fn view(&self) -> Seq<Page> {
        self.pages@
    }
}

impl LoadedDocument {
    #[verifier::type_invariant]
    spec fn consistent(self) -> bool {
        self.pages@.len() >= 1
    }

    /// Loads a document from its bytes and from what the parsing backend
    /// made of them. Bytes that are not a PDF document are refused as
    /// `UnsupportedFormat`, whatever the parser said; a document that the
    /// parser could not read, as `Malformed` with the parser's words; a
    /// document without pages, as `NoPages`.
    pub fn load(bytes: &[u8], parsed: Result<Vec<Page>, String>) -> (document: Result<
        LoadedDocument,
        LoadError,
    >)
        ensures
            document matches Ok(d) ==> loaded(bytes@, parsed) == Ok::<Seq<Page>, LoadError>(d@)
                && d@.len() >= 1,
            document matches Err(e) ==> loaded(bytes@, parsed) == Err::<Seq<Page>, LoadError>(e),
    {
        if !check_signature(bytes) {
            return Err(LoadError::UnsupportedFormat);
        }
        match parsed {
            Err(detail) => Err(LoadError::Malformed(detail)),
            Ok(pages) => {
                if pages.len() == 0 {
                    Err(LoadError::NoPages)
                } else {
                    Ok(LoadedDocument { pages })
                }
            },
        }
    }

    /// How many pages the document has: at least one.
    pub fn page_count(&self) -> (count: usize)
        ensures
            count == self@.len(),
            count >= 1,
    {
        proof {
            use_type_invariant(self);
        }
        self.pages.len()
    }

    /// The page at `index`, counted from zero.
    pub fn page(&self, index: usize) -> (page: Option<Page>)
        ensures
            page == (if index < self@.len() {
                Some(self@[index as int])
            } else {
                None
            }),
    {
        if index < self.pages.len() {
            Some(self.pages[index])
        } else {
            None
        }
    }

    /// The page that is printed: the first. A job prints one page, however
    /// many the document has.
    pub fn printed_page(&self) -> (page: Page)
        ensures
            self@.len() >= 1,
            page == self@[0],
    {
        proof {
            use_type_invariant(self);
        }
        self.pages[0]
    }

    /// What to ask of the rendering backend for this document: its first
    /// page, scaled to fit the target box of `TARGET_WIDTH` by
    /// `TARGET_HEIGHT` pixels.
    pub fn render_plan(&self) -> (plan: Result<RenderPlan, RenderError>)
        ensures
            self@.len() >= 1,
            plan matches Ok(p) ==> {
                &&& p.page_index == 0
                &&& Some(p.size) == rendered_size(self@[0].size(), target_box())
                &&& p.size.width <= TARGET_WIDTH
                &&& p.size.height <= TARGET_HEIGHT
                &&& !p.size.is_empty()
            },
            plan matches Err(e) ==> e == RenderError::EmptyPage && rendered_size(
                self@[0].size(),
                target_box(),
            ) is None,
    {
        let page = self.printed_page();
        match raster_size(page.size(), Size { width: TARGET_WIDTH, height: TARGET_HEIGHT }) {
            Ok(size) => Ok(RenderPlan { page_index: 0, size }),
            Err(error) => Err(error),
        }
    }
}

/// The box into which pages are rendered.
pub open spec fn target_box() -> Size {
    Size { width: TARGET_WIDTH, height: TARGET_HEIGHT }
}

} // verus!
