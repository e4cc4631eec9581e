//! The print job: the document as it arrives, encoded for transport, and
//! what the caller gets back when the job is done.

use vstd::prelude::*;
use vstd::string::StringExecFns;
use base64::DecodeError;
use base64::Engine;
use crate::error::PrintError;
use crate::session::DeviceError;
use crate::text::{chars_of, texts};

verus! {

/// The error type of the base64 crate's decoders.
#[verifier::external_type_specification]
#[verifier::external_body]
pub struct ExDecodeError(DecodeError);

/// What the base64 crate's standard engine (the standard alphabet, with
/// canonical padding required) decodes a text to; `None` where it refuses
/// the text.
pub uninterp spec fn standard_decoding(text: Seq<char>) -> Option<Seq<u8>>;

/// `Engine::decode` of the base64 crate, on its `STANDARD` engine: the
/// decoded bytes, or the crate's error where the text is not valid base64.
/// The result depends on the text alone; this wrapper gives it its name.
#[verifier::external_body]
fn decode_standard(text: &str) -> (decoded: Result<Vec<u8>, DecodeError>)
    ensures
        decoded matches Ok(bytes) ==> standard_decoding(text@) == Some(bytes@),
        decoded is Err ==> standard_decoding(text@) is None,
{
    base64::engine::general_purpose::STANDARD.decode(text)
}

/// What the caller of a finished job gets back. There is no result for a
/// job that failed: a failed job ends in a [`PrintError`].
#[derive(Clone, Debug, PartialEq, Eq)]
pub struct PrintResult {
    /// Always `true`.
    pub success: bool,
    /// Size of the document in whole kilobytes.
    pub size_kb: usize,
    /// How the job was printed, in words.
    pub message: String,
}

/// A label made fit for a file name: every space replaced by an underscore.
pub open spec fn sanitized(label: Seq<char>) -> Seq<char> {
    Seq::new(
        label.len(),
        |i: int|
            if label[i] == ' ' {
                '_'
            } else {
                label[i]
            },
    )
}

/// Makes a label fit for a file name: every space becomes an underscore,
/// everything else stays.
pub fn sanitize_label(label: &str) -> (name: String)
    ensures
        name@ == sanitized(label@),
{
    let chars = chars_of(label);
    let mut name = String::new();
    let mut i: usize = 0;
    while i < chars.len()
        invariant
            i <= chars.len(),
            chars@ == label@,
            name@ == sanitized(label@).take(i as int),
        decreases chars.len() - i,
    {
        let c = chars[i];
        if c == ' ' {
            name.push('_');
        } else {
            name.push(c);
        }
        i += 1;
        assert(name@ =~= sanitized(label@).take(i as int));
    }
    assert(sanitized(label@).take(i as int) =~= sanitized(label@));
    name
}

/// The words of the error for a document without a single byte.
pub open spec fn empty_document_detail() -> Seq<char> {
    "document is empty"@
}

/// The mathematical content of a [`PrintJob`].
pub struct JobView {
    pub document: Seq<u8>,
    pub printer_name: Seq<char>,
    pub job_label: Seq<char>,
}

/// What becomes of a request once its document is decoded: a job, where
/// the document has at least one byte.
pub open spec fn accepted(
    document: Seq<u8>,
    printer_name: Seq<char>,
    job_label: Seq<char>,
) -> Option<JobView> {
    if document.len() > 0 {
        Some(JobView { document, printer_name, job_label })
    } else {
        None
    }
}

/// One document to print on one printer. A job's document is never empty.
pub struct PrintJob {
    document: Vec<u8>,
    printer_name: String,
    job_label: String,
}

impl View for PrintJob {
    type V = JobView;

    closed spec fn view(&self) -> JobView {
        JobView {
            document: self.document@,
            printer_name: self.printer_name@,
            job_label: self.job_label@,
        }
    }
}

impl PrintJob {
    #[verifier::type_invariant]
    spec fn consistent(self) -> bool {
        self.document@.len() > 0
    }

    /// A job for a document that is decoded already. A document without a
    /// single byte is refused as a decode error.
    pub fn new(document: Vec<u8>, printer_name: String, job_label: String) -> (job: Result<
        PrintJob,
        PrintError,
    >)
        ensures
            job matches Ok(j) ==> Some(j@) == accepted(document@, printer_name@, job_label@),
            job matches Err(e) ==> accepted(document@, printer_name@, job_label@) is None && (
            e matches PrintError::Decode(detail) && detail@ == empty_document_detail()),
    {
        if document.len() == 0 {
            Err(PrintError::Decode(String::from_str("document is empty")))
        } else {
            Ok(PrintJob { document, printer_name, job_label })
        }
    }

    /// A job for a document as it arrives: encoded in base64, standard
    /// alphabet, padded. A text that is not valid base64, or that decodes to
    /// nothing, is refused as a decode error.
    pub fn from_encoded(encoded: &str, printer_name: String, job_label: String) -> (job: Result<
        PrintJob,
        PrintError,
    >)
        ensures
            job matches Ok(j) ==> (standard_decoding(encoded@) matches Some(document) && Some(j@)
                == accepted(document, printer_name@, job_label@)),
            job matches Err(e) ==> e is Decode && (standard_decoding(encoded@) matches Some(
                document,
            ) ==> (document.len() == 0 && e->Decode_0@ == empty_document_detail())),
    {
        match decode_standard(encoded) {
            Ok(document) => PrintJob::new(document, printer_name, job_label),
            Err(error) => Err(PrintError::Decode(error.to_string())),
        }
    }

    /// The document's bytes.
    pub fn document(&self) -> (document: &Vec<u8>)
        ensures
            document@ == self@.document,
            document@.len() > 0,
    {
        proof {
            use_type_invariant(self);
        }
        &self.document
    }

    /// The printer that the job is for.
    pub fn printer_name(&self) -> (name: &str)
        ensures
            name@ == self@.printer_name,
    {
        self.printer_name.as_str()
    }

    /// The label under which the job is shown in the queue.
    pub fn job_label(&self) -> (label: &str)
        ensures
            label@ == self@.job_label,
    {
        self.job_label.as_str()
    }

    /// Size of the document in whole kilobytes: its length divided by 1024,
    /// rounded down.
    pub fn size_kb(&self) -> (size: usize)
        ensures
            size == self@.document.len() / 1024,
    {
        self.document.len() / 1024
    }

    /// The name of the temporary file that holds the document where a print
    /// command wants a file: the label made fit for a file name, with the
    /// extension `.pdf`.
    pub fn spool_file_name(&self) -> (name: String)
        ensures
            name@ == sanitized(self@.job_label) + ".pdf"@,
    {
        let mut name = sanitize_label(self.job_label.as_str());
        name.append(".pdf");
        name
    }

    /// The arguments with which the `lp` command prints the document in the
    /// file at `document_path`: `-d` and the printer, `-t` and the label,
    /// and the path.
    pub fn shell_arguments(&self, document_path: &str) -> (arguments: Vec<String>)
        ensures
            texts(arguments@) == seq![
                "-d"@,
                self@.printer_name,
                "-t"@,
                self@.job_label,
                document_path@,
            ],
    {
        let mut arguments: Vec<String> = Vec::new();
        arguments.push(String::from_str("-d"));
        arguments.push(self.printer_name.clone());
        arguments.push(String::from_str("-t"));
        arguments.push(self.job_label.clone());
        arguments.push(String::from_str(document_path));
        assert(texts(arguments@) =~= seq![
            "-d"@,
            self@.printer_name,
            "-t"@,
            self@.job_label,
            document_path@,
        ]);
        arguments
    }

    /// The result of this job once it is printed, `via` saying by what
    /// means.
    pub fn printed(&self, via: &str) -> (result: PrintResult)
        ensures
            result.success,
            result.size_kb == self@.document.len() / 1024,
            result.message@ == "Printed via "@ + via@ + " to "@ + self@.printer_name,
    {
        let mut message = String::from_str("Printed via ");
        message.append(via);
        message.append(" to ");
        message.append(self.printer_name.as_str());
        PrintResult { success: true, size_kb: self.size_kb(), message }
    }

    /// What to tell the caller after the `lp` command has run: the result
    /// where it exited successfully, else a device error that names the
    /// printer and carries what the command wrote to its error stream.
    pub fn shell_outcome(&self, succeeded: bool, error_output: &str) -> (outcome: Result<
        PrintResult,
        PrintError,
    >)
        ensures
            succeeded ==> (outcome matches Ok(result) && result.success && result.size_kb
                == self@.document.len() / 1024 && result.message@ == "Printed via "@ + "lp"@
                + " to "@ + self@.printer_name),
            !succeeded ==> (outcome matches Err(PrintError::Device(error)) && error.command is None
                && error.printer@ == self@.printer_name && error.detail@ == error_output@),
    {
        if succeeded {
            Ok(self.printed("lp"))
        } else {
            Err(
                PrintError::Device(
                    DeviceError {
                        command: None,
                        printer: self.printer_name.clone(),
                        detail: String::from_str(error_output),
                    },
                ),
            )
        }
    }
}

} // verus!
