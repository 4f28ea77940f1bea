//! What stands between a document's Markdown segment and the renderer:
//! the conversion to HTML, the payload handed to the renderer, and the name
//! of the output artifact.

use vstd::prelude::*;
use vstd::std_specs::iter::IteratorSpec;
use vstd::string::*;
use vstd::utf8::encode_utf8;

verus! {

/// The HTML that `markdown::to_html` makes of a Markdown text.
pub uninterp spec fn markdown_html(markdown: Seq<char>) -> Seq<char>;

/// Whether byte `b` is written percent-encoded in the query part of a URL:
/// the C0 controls, space, `"`, `#`, `<`, `>`, DEL, and every byte that is
/// not ASCII.
pub open spec fn is_query_escaped(b: u8) -> bool {
    b <= 0x20 || b == 0x22 || b == 0x23 || b == 0x3C || b == 0x3E || b >= 0x7F
}

/// The sixteen hexadecimal digits, in upper case.
pub open spec fn upper_hex_digits() -> Seq<char> {
    seq!['0', '1', '2', '3', '4', '5', '6', '7', '8', '9', 'A', 'B', 'C', 'D', 'E', 'F']
}

/// The percent-encoding of byte `b`: `%` and its two hexadecimal digits.
pub open spec fn percent_encoded(b: u8) -> Seq<char> {
    seq!['%', upper_hex_digits()[b as int / 16], upper_hex_digits()[b as int % 16]]
}

/// What the query part of a URL holds for byte `b`.
pub open spec fn query_escaped_byte(b: u8) -> Seq<char> {
    if is_query_escaped(b) {
        percent_encoded(b)
    } else {
        seq![b as char]
    }
}

/// What the query part of a URL holds for `bytes`, byte after byte.
pub open spec fn query_escaped_bytes(bytes: Seq<u8>) -> Seq<char>
    decreases bytes.len(),
{
    if bytes.len() == 0 {
        Seq::empty()
    } else {
        query_escaped_bytes(bytes.drop_last()) + query_escaped_byte(bytes.last())
    }
}

/// The percent-encoding of `text` for the query part of a URL: that of the
/// bytes of its UTF-8 encoding.
pub open spec fn query_escaped(text: Seq<char>) -> Seq<char> {
    query_escaped_bytes(encode_utf8(text))
}

/// Calls `markdown::to_html`, which compiles CommonMark to HTML and depends
/// on the text alone. The contract gives the result the name
/// `markdown_html`.
#[verifier::external_body]
pub(crate) fn to_html(markdown: &str) -> (html: String)
    ensures
        html@ == markdown_html(markdown@),
{
    markdown::to_html(markdown)
}

/// Calls `url_escape::encode_query_to_string` on an empty buffer and hands
/// back the buffer. The contract says what the crate documents: the UTF-8
/// bytes of the text are written in order, those of the query
/// percent-encode set and those that are not ASCII as `%` and two upper-case
/// hexadecimal digits, the others as they are.
#[verifier::external_body]
fn escape_query(text: &str) -> (escaped: String)
    ensures
        escaped@ == query_escaped(text@),
{
    let mut escaped = String::new();
    url_escape::encode_query_to_string(text, &mut escaped);
    escaped
}

/// The scheme and media type that open the renderer's payload.
pub open spec fn data_uri_prefix() -> Seq<char> {
    "data:text/html;charset=utf-8,"@
}

/// The payload for the renderer: a data URI that holds the HTML,
/// percent-encoded.
pub open spec fn data_uri(html: Seq<char>) -> Seq<char> {
    data_uri_prefix() + query_escaped(html)
}

/// Builds the data URI by which the HTML is handed to the renderer.
pub fn html_data_uri(html: &str) -> (uri: String)
    ensures
        uri@ == data_uri(html@),
{
    let escaped = escape_query(html);
    let mut uri = String::from_str("data:text/html;charset=utf-8,");
    uri.append(escaped.as_str());
    uri
}

/// The suffix of a Markdown source file.
pub open spec fn source_suffix() -> Seq<char> {
    seq!['.', 'm', 'd']
}

/// The suffix of an output artifact.
pub open spec fn output_suffix() -> Seq<char> {
    seq!['.', 'p', 'd', 'f']
}

/// Whether `name` ends in the source suffix.
pub open spec fn has_source_suffix(name: Seq<char>) -> bool {
    name.len() >= 3 && name.subrange(name.len() - 3, name.len() as int) == source_suffix()
}

/// `name` without the source suffix, where it ends in one. The suffix is
/// taken off once: `a.md.md` gives `a.md`.
pub open spec fn strip_source_suffix(name: Seq<char>) -> Seq<char> {
    if has_source_suffix(name) {
        name.take(name.len() - 3)
    } else {
        name
    }
}

/// The index just after the last `/` of `path`, or 0 where it has none.
pub open spec fn stem_start(path: Seq<char>) -> int
    decreases path.len(),
{
    if path.len() == 0 {
        0
    } else if path.last() == '/' {
        path.len() as int
    } else {
        stem_start(path.drop_last())
    }
}

/// The part of `path` after its last `/`; all of it where it has none.
pub open spec fn file_stem(path: Seq<char>) -> Seq<char> {
    path.subrange(stem_start(path), path.len() as int)
}

/// The name of the artifact for a path that has no source suffix: the part
/// after its last `/`, followed by `.pdf`.
pub open spec fn artifact_name(path: Seq<char>) -> Seq<char> {
    file_stem(path) + output_suffix()
}

/// The name of the output artifact of the document `identifier`: the
/// identifier without its source suffix and without its directories,
/// followed by `.pdf`.
pub open spec fn output_name(identifier: Seq<char>) -> Seq<char> {
    artifact_name(strip_source_suffix(identifier))
}

/// Takes the source suffix `.md` off an identifier that ends in it, once.
pub fn strip_md_suffix(identifier: &str) -> (stripped: &str)
    ensures
        stripped@ == strip_source_suffix(identifier@),
{
    let length = identifier.unicode_len();
    if length >= 3 && identifier.get_char(length - 3) == '.' && identifier.get_char(length - 2)
        == 'm' && identifier.get_char(length - 1) == 'd' {
        assert(identifier@.subrange(length - 3, length as int) =~= source_suffix());
        identifier.substring_char(0, length - 3)
    } else {
        proof {
            if length >= 3 {
                let tail = identifier@.subrange(length - 3, length as int);
                assert(tail[0] == identifier@[length - 3]);
                assert(tail[1] == identifier@[length - 2]);
                assert(tail[2] == identifier@[length - 1]);
                assert(source_suffix()[0] == '.' && source_suffix()[1] == 'm'
                    && source_suffix()[2] == 'd');
            }
        }
        identifier
    }
}

/// Names the artifact for a path that has no source suffix: drops the
/// directories and appends `.pdf`. Nothing is stripped: `x/a.md` gives
/// `a.md.pdf`.
pub fn pdf_file_name(path: &str) -> (name: String)
    ensures
        name@ == artifact_name(path@),
{
    broadcast use vstd::string::group_string_axioms;

    let length = path.unicode_len();
    let mut start: usize = 0;
    let mut i: usize = 0;
    let mut it = path.chars();
    let ghost mut seen: Seq<char> = Seq::empty();
    loop
        invariant
            it.obeys_prophetic_iter_laws(),
            it.decrease() is Some,
            path@ == seen + it.remaining(),
            path@.len() == length,
            i == seen.len(),
            start == stem_start(seen),
            start <= i,
        ensures
            start == stem_start(path@),
            start <= length == path@.len(),
        decreases it.decrease()->0,
    {
        match it.next() {
            None => {
                assert(path@ =~= seen);
                break ;
            },
            Some(c) => {
                proof {
                    assert(seen.push(c).drop_last() =~= seen);
                    seen = seen.push(c);
                }
                i = i + 1;
                if c == '/' {
                    start = i;
                }
            },
        }
    }
    let stem = path.substring_char(start, length);
    let mut name = String::from_str(stem);
    proof {
        reveal_strlit(".pdf");
    }
    name.append(".pdf");
    name
}

/// Derives the name of the output artifact from a document's identifier.
///
/// The source suffix is taken off once and the directories are dropped:
/// `source_mds/file_02.md` gives `file_02.pdf`, `a.md.md` gives `a.md.pdf`.
pub fn derive_output_name(identifier: &str) -> (name: String)
    ensures
        name@ == output_name(identifier@),
{
    pdf_file_name(strip_md_suffix(identifier))
}

/// The bytes that a renderer reported, as a model.
pub open spec fn pdf_reported(pdf: Option<Vec<u8>>) -> Option<Seq<u8>> {
    match pdf {
        Some(pdf) => Some(pdf@),
        None => None,
    }
}

/// `pdf` is what `render` may report for `html` and the data URI `payload`.
pub open spec fn render_gives<P: Fn(&str, &str) -> Option<Vec<u8>>>(
    render: P,
    html: Seq<char>,
    payload: Seq<char>,
    pdf: Option<Seq<u8>>,
) -> bool {
    exists|asked: &str, handed: &str, reported: Option<Vec<u8>>|
        asked@ == html && handed@ == payload && pdf_reported(reported) == pdf
            && #[trigger] call_ensures(render, (asked, handed), reported)
}

/// `written` is what `write` may report for the PDF `pdf` under the name
/// `output_name`.
pub open spec fn write_gives<W: Fn(&str, &Vec<u8>) -> bool>(
    write: W,
    output_name: Seq<char>,
    pdf: Seq<u8>,
    written: bool,
) -> bool {
    exists|name: &str, bytes: &Vec<u8>|
        name@ == output_name && bytes@ == pdf && #[trigger] call_ensures(
            write,
            (name, bytes),
            written,
        )
}

/// The stage at which no artifact came of a document's HTML.
#[derive(Debug, Clone, Copy, PartialEq, Eq, Structural)]
pub enum PdfError {
    /// The renderer gave no PDF.
    Render,
    /// The PDF could not be written.
    Write,
}

/// How `generate_pdf` ends where the renderer reports `pdf` and the writer,
/// if it is reached, `written`.
pub open spec fn generated(pdf: Option<Seq<u8>>, written: bool) -> Result<(), PdfError> {
    if pdf is None {
        Err(PdfError::Render)
    } else if !written {
        Err(PdfError::Write)
    } else {
        Ok(())
    }
}

/// Generates the PDF of one document from its HTML: hands the HTML and its
/// data URI to `render`, and what `render` gives to `write`, under the part
/// of `filename_path` after its last `/`, followed by `.pdf`.
///
/// `filename_path` is the document's path with its source suffix already
/// taken off; nothing is stripped from it here.
///
/// Returns an error where the renderer gives no PDF, or where the writer
/// reports that it was not written.
pub fn generate_pdf<P, W>(generated_html: String, filename_path: &str, render: P, write: W) -> (done:
    Result<(), PdfError>) where
    P: Fn(&str, &str) -> Option<Vec<u8>>,
    W: Fn(&str, &Vec<u8>) -> bool,

    requires
        forall|html: &str, payload: &str| call_requires(render, (html, payload)),
        forall|name: &str, pdf: &Vec<u8>| call_requires(write, (name, pdf)),
    ensures
        exists|pdf: Option<Seq<u8>>, written: bool|
            {
                &&& #[trigger] generated(pdf, written) == done
                &&& render_gives(render, generated_html@, data_uri(generated_html@), pdf)
                &&& pdf matches Some(bytes) ==> write_gives(
                    write,
                    artifact_name(filename_path@),
                    bytes,
                    written,
                )
            },
{
    let payload = html_data_uri(generated_html.as_str());
    let rendered = render(generated_html.as_str(), payload.as_str());
    match rendered {
        None => {
            assert(generated(None, false) == Err::<(), PdfError>(PdfError::Render));
            Err(PdfError::Render)
        },
        Some(pdf) => {
            let name = pdf_file_name(filename_path);
            let written = write(name.as_str(), &pdf);
            assert(generated(Some(pdf@), written) == if written {
                Ok::<(), PdfError>(())
            } else {
                Err::<(), PdfError>(PdfError::Write)
            });
            if written {
                Ok(())
            } else {
                Err(PdfError::Write)
            }
        },
    }
}

} // verus!
