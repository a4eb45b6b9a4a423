//! Data exchanged with the LetterXpress service and print options.

use std::collections::HashMap;

use vstd::prelude::*;

use crate::documents::{base64, base64_encode, checksum, has_pdf_header, md5, pdf_header};
use crate::text::hex_chars;
use crate::text::same_text;

verus! {

/// Selects colour or black-and-white printing.
#[derive(Debug, Copy, Clone, PartialEq, Eq, Structural)]
pub enum ColorPrint {
    Color,
    BlackAndWhite,
}

/// Selects one-sided or two-sided printing.
#[derive(Debug, Copy, Clone, PartialEq, Eq, Structural)]
pub enum Mode {
    Simplex,
    Duplex,
}

/// Selects domestic or international delivery.
#[derive(Debug, Copy, Clone, PartialEq, Eq, Structural)]
pub enum Ship {
    National,
    International,
}

/// Separates shopping-cart test submissions from paid production.
#[derive(Debug, Copy, Clone, PartialEq, Eq, Structural)]
pub enum ApiMode {
    /// Uploads land in the account's shopping cart and are not printed.
    Test,
    /// Uploads immediately enter paid processing.
    Live,
}

/// The name of a processing mode on the wire and in receipts.
pub open spec fn mode_name(mode: ApiMode) -> Seq<char> {
    match mode {
        ApiMode::Test => seq!['t', 'e', 's', 't'],
        ApiMode::Live => seq!['l', 'i', 'v', 'e'],
    }
}

impl ApiMode {
    /// The name of the mode on the wire and in receipts.
    pub fn name(&self) -> (r: &'static str)
        ensures
            r@ == mode_name(*self),
    {
        match self {
            ApiMode::Test => {
                proof {
                    reveal_strlit("test");
                }
                "test"
            },
            ApiMode::Live => {
                proof {
                    reveal_strlit("live");
                }
                "live"
            },
        }
    }
}

/// The processing mode of an invocation: the command-line option wins over
/// the environment's name of a mode; without either, test mode. An unknown
/// name in the environment selects nothing.
pub fn resolve_mode(option: Option<ApiMode>, environment: Option<&str>) -> (r: Option<ApiMode>)
    ensures
        match option {
            Some(m) => r == Some(m),
            None => match environment {
                None => r == Some(ApiMode::Test),
                Some(name) => if name@ == mode_name(ApiMode::Test) {
                    r == Some(ApiMode::Test)
                } else if name@ == mode_name(ApiMode::Live) {
                    r == Some(ApiMode::Live)
                } else {
                    r is None
                },
            },
        },
{
    match option {
        Some(m) => Some(m),
        None => match environment {
            None => Some(ApiMode::Test),
            Some(name) => {
                if same_text(name, ApiMode::Test.name()) {
                    Some(ApiMode::Test)
                } else if same_text(name, ApiMode::Live.name()) {
                    Some(ApiMode::Live)
                } else {
                    None
                }
            },
        },
    }
}

// Substructures used in request and response structs
/// Account status reported by the service.
#[derive(Debug, Default, Clone)]
pub struct SubAuth {
    pub id: String,
    pub user: String,
    pub status: String,
}

/// Account balance reported by the service.
#[derive(Debug, Default, Clone)]
pub struct SubBalance {
    pub value: String,
    pub currency: String,
}

/// An invoice reported by the service.
#[derive(Debug, Default, Clone)]
pub struct SubInvoice {
    pub iid: String,
    pub invoicedate: String,
    pub pdf_data: Option<String>,
    pub bin_pdf_data: Option<Vec<u8>>,
    pub sum: String,
    pub vat: String,
}

/// A print job reported by the service.
#[derive(Debug, Default, Clone)]
pub struct SubJobArgs {
    pub jid: String,
    pub address: String,
    pub parent: Option<String>,
    pub status: String,
    pub mode: String,
    pub color: String,
    pub cover: String,
    pub shipping: String,
    pub pages: String,
    pub cost: String,
    pub cost_vat: String,
    pub date: String,
    pub dispatchdate: Option<String>,
    pub sentdate: Option<String>,
}

/// An uploaded document with its print options.
#[derive(Debug, Default, Clone)]
pub struct SubLetterData {
    pub base64_file: String,
    pub base64_checksum: String,
    pub address: String,
    pub specification: SubSpecification,
}

/// Account credentials.
#[derive(Default, Clone)]
pub struct SubNameAndKey {
    pub username: String,
    pub apikey: String,
}

/// Print options of a document.
#[derive(Debug, Default, Clone)]
pub struct SubSpecification {
    pub color: i32,
    pub mode: String,
    pub ship: String,
}

/// An authenticated upload request.
#[derive(Default, Clone)]
pub struct RequestLetter {
    pub auth: SubNameAndKey,
    pub letter: SubLetterData,
}

/// A service response listing account data.
#[derive(Debug, Default, Clone)]
pub struct Response {
    pub auth: Option<SubAuth>,
    pub balance: Option<SubBalance>,
    pub invoice: Option<SubInvoice>,
    pub invoices: Option<HashMap<String, SubInvoice>>,
    pub jobs: Option<HashMap<String, SubJobArgs>>,
    pub status: i32,
    pub message: String,
}

/// Authenticates a request and selects its processing mode.
#[derive(Clone)]
pub struct Auth {
    pub username: String,
    pub apikey: String,
    pub mode: ApiMode,
}

/// The body of every request: credentials and, for uploads and quotes, the
/// endpoint payload.
#[derive(Clone)]
pub struct Request<L> {
    pub auth: Auth,
    pub letter: Option<L>,
}

/// Print options of a document.
#[derive(Debug, Copy, Clone, PartialEq, Eq, Structural)]
pub struct Specification {
    pub color: ColorPrint,
    pub mode: Mode,
    pub ship: Ship,
}

impl Default for Specification {
    /// Black-and-white, one-sided, domestic delivery.
    fn default() -> (s: Self)
        ensures
            s == (Specification { color: ColorPrint::BlackAndWhite, mode: Mode::Simplex, ship: Ship::National }),
    {
        Specification { color: ColorPrint::BlackAndWhite, mode: Mode::Simplex, ship: Ship::National }
    }
}

/// Asks for the price of a document without uploading it.
#[derive(Debug, Copy, Clone)]
pub struct Quote {
    pub specification: Specification,
}

/// An upload: the document in Base64 with its name, print options and an
/// optional reference for the provider.
#[derive(Debug, Clone)]
pub struct Letter {
    /// The document in standard Base64, as ASCII bytes.
    pub base64_file: Vec<u8>,
    /// The lowercase hexadecimal MD5 digest of `base64_file`.
    pub base64_file_checksum: String,
    /// The file name the document had.
    pub filename_original: String,
    /// How the document is printed and sent.
    pub specification: Specification,
    /// A correlation reference shown by the provider.
    pub notice: Option<String>,
}

/// Why a document cannot be uploaded.
#[derive(Debug, Copy, Clone, PartialEq, Eq, Structural)]
pub enum LetterError {
    /// The document does not start with the PDF header.
    MissingPdfHeader,
}

impl Letter {
    /// Prepares a PDF for upload; a document without the PDF header is refused.
    pub fn from_pdf(pdf: &[u8], filename_original: String, specification: Specification, notice: Option<
        String,
    >) -> (r: Result<Letter, LetterError>)
        ensures
            r is Ok <==> (pdf@.len() >= 5 && pdf@.take(5) == pdf_header()),
            r matches Err(e) ==> e == LetterError::MissingPdfHeader,
            r matches Ok(letter) ==> {
                &&& letter.base64_file@ == base64(pdf@)
                &&& letter.base64_file_checksum@ == hex_chars(md5(base64(pdf@)))
                &&& letter.filename_original == filename_original
                &&& letter.specification == specification
                &&& letter.notice == notice
            },
    {
        if !has_pdf_header(pdf) {
            return Err(LetterError::MissingPdfHeader);
        }
        let base64_file = base64_encode(pdf);
        let base64_file_checksum = checksum(base64_file.as_slice());
        Ok(Letter { base64_file, base64_file_checksum, filename_original, specification, notice })
    }
}

/// The service envelope around endpoint data.
#[derive(Debug, Clone)]
pub struct Envelope<T> {
    /// The service status code, which may reject a request that HTTP accepted.
    pub status: u16,
    /// The endpoint data; absent for acknowledgements such as cancellations.
    pub data: Option<T>,
}

} // verus!
