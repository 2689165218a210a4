//! Construction of the multipart MIME document for one outgoing message:
//! a plain-text body and, when present, one base64-encoded attachment,
//! joined by a fixed boundary marker. `mime_doc_m` states the exact text.

use vstd::prelude::*;
use vstd::string::StringExecFns;

verus! {

/// What the standard-alphabet base64 encoding of the bytes is.
pub uninterp spec fn b64_of(bytes: Seq<u8>) -> Seq<char>;

/// What MIME type the path's extension suggests.
pub uninterp spec fn mime_of_path(path: Seq<char>) -> Seq<char>;

/// What the final component of the path is.
pub uninterp spec fn file_name_of(path: Seq<char>) -> Seq<char>;

/// Relies on base64's `Engine::encode` with the `BASE64_STANDARD` engine:
/// the encoding depends on the bytes alone.
#[verifier::external_body]
fn base64_encode(bytes: &Vec<u8>) -> (r: String)
    ensures
        r@ == b64_of(bytes@),
{
    base64::Engine::encode(&base64::prelude::BASE64_STANDARD, bytes)
}

/// Relies on `mime_guess::from_path` and `MimeGuess::first_or_octet_stream`:
/// the MIME type inferred from the path's extension,
/// `application/octet-stream` when none is known; it depends on the path
/// text alone.
#[verifier::external_body]
fn guess_mime_type(path: &str) -> (r: String)
    ensures
        r@ == mime_of_path(path@),
{
    mime_guess::from_path(path).first_or_octet_stream().to_string()
}

/// Relies on `std::path::Path::file_name` (vstd gives it no
/// specification): the final component of the path, lossily decoded,
/// empty when there is none; it depends on the path text alone.
#[verifier::external_body]
fn path_file_name(path: &str) -> (r: String)
    ensures
        r@ == file_name_of(path@),
{
    match std::path::Path::new(path).file_name() {
        Some(n) => n.to_string_lossy().into_owned(),
        None => String::new(),
    }
}

/// An attachment: the path it was read from, and its bytes. The caller
/// reads the file; this crate only shapes the document.
pub struct Attachment {
    pub path: String,
    pub content: Vec<u8>,
}

/// The exact text of the MIME document: headers, body part, the optional
/// attachment part, and the closing boundary.
pub open spec fn mime_doc_m(
    to: Seq<char>,
    subject: Seq<char>,
    body: Seq<char>,
    att: Option<(Seq<char>, Seq<u8>)>,
) -> Seq<char> {
    let head = ("To: ")@ + to + ("\r\nSubject: ")@ + subject + (
    "\r\nContent-Type: multipart/mixed; boundary=\"boundary_marker\"\r\n\r\n")@ + (
    "--boundary_marker\r\nContent-Type: text/plain; charset=\"UTF-8\"\r\n\r\n")@ + body + (
    "\r\n\r\n")@;
    let att_part = match att {
        None => Seq::<char>::empty(),
        Some((path, content)) => ("--boundary_marker\r\nContent-Type: ")@ + mime_of_path(path) + (
        "; name=\"")@ + file_name_of(path) + (
        "\"\r\nContent-Transfer-Encoding: base64\r\nContent-Disposition: attachment; filename=\"")@
            + file_name_of(path) + ("\"\r\n\r\n")@ + b64_of(content) + ("\r\n\r\n")@,
    };
    head + att_part + ("--boundary_marker--\r\n")@
}

/// Build the MIME document for one message, as `mime_doc_m` states.
pub fn build_mime_message(
    to: &str,
    subject: &str,
    body: &str,
    attachment: Option<&Attachment>,
) -> (r: String)
    ensures
        r@ == mime_doc_m(
            to@,
            subject@,
            body@,
            match attachment {
                Some(a) => Some((a.path@, a.content@)),
                None => None,
            },
        ),
{
    let mut m = String::new();
    m.append("To: ");
    m.append(to);
    m.append("\r\nSubject: ");
    m.append(subject);
    m.append("\r\nContent-Type: multipart/mixed; boundary=\"boundary_marker\"\r\n\r\n");
    m.append("--boundary_marker\r\nContent-Type: text/plain; charset=\"UTF-8\"\r\n\r\n");
    m.append(body);
    m.append("\r\n\r\n");
    match attachment {
        Some(a) => {
            let mime_type = guess_mime_type(a.path.as_str());
            let fname = path_file_name(a.path.as_str());
            let encoded = base64_encode(&a.content);
            m.append("--boundary_marker\r\nContent-Type: ");
            m.append(mime_type.as_str());
            m.append("; name=\"");
            m.append(fname.as_str());
            m.append(
                "\"\r\nContent-Transfer-Encoding: base64\r\nContent-Disposition: attachment; filename=\"",
            );
            m.append(fname.as_str());
            m.append("\"\r\n\r\n");
            m.append(encoded.as_str());
            m.append("\r\n\r\n");
        },
        None => {},
    }
    m.append("--boundary_marker--\r\n");
    proof {
        assert(m@ =~= mime_doc_m(
            to@,
            subject@,
            body@,
            match attachment {
                Some(a) => Some((a.path@, a.content@)),
                None => None,
            },
        ));
    }
    m
}

} // verus!
