//! Page content handling: MIME types and the sniff filter, UTF-8
//! decoding, and link extraction from HTML.

use vstd::prelude::*;
use vstd::string::{StrSliceExecFns, StringSliceAdditionalSpecFns};
use vstd::utf8::{decode_utf8, valid_utf8};

verus! {

/// Lower-case an ASCII letter; leave every other byte alone.
pub open spec fn ascii_lower(b: u8) -> u8 {
    if 65 <= b <= 90 {
        (b + 32) as u8
    } else {
        b
    }
}

/// `s` lower-cased byte by byte.
pub open spec fn lower_seq(s: Seq<u8>) -> Seq<u8> {
    s.map_values(|b: u8| ascii_lower(b))
}

/// MIME types compare ASCII case-insensitively.
pub open spec fn mime_eq(a: Seq<u8>, b: Seq<u8>) -> bool {
    lower_seq(a) == lower_seq(b)
}

/// Compare two MIME type strings, ASCII case-insensitively.
pub fn mime_eq_bytes(a: &[u8], b: &[u8]) -> (r: bool)
    ensures
        r == mime_eq(a@, b@),
{
    if a.len() != b.len() {
        proof {
            assert(lower_seq(a@).len() != lower_seq(b@).len());
        }
        return false;
    }
    let mut i: usize = 0;
    while i < a.len()
        invariant
            a@.len() == b@.len(),
            i <= a@.len(),
            forall|j: int| 0 <= j < i ==> ascii_lower(a@[j]) == ascii_lower(b@[j]),
        decreases a.len() - i,
    {
        let x = a[i];
        let y = b[i];
        let lx = if 65 <= x && x <= 90 {
            x + 32
        } else {
            x
        };
        let ly = if 65 <= y && y <= 90 {
            y + 32
        } else {
            y
        };
        if lx != ly {
            proof {
                assert(lower_seq(a@)[i as int] != lower_seq(b@)[i as int]);
            }
            return false;
        }
        i = i + 1;
    }
    proof {
        assert(lower_seq(a@) =~= lower_seq(b@));
    }
    true
}

/// A MIME type, kept as its textual form, e.g. `text/html`.
pub struct MimeType {
    pub bytes: Vec<u8>,
}

impl View for MimeType {
    type V = Seq<u8>;

    open spec fn view(&self) -> Seq<u8> {
        self.bytes@
    }
}

impl DeepView for MimeType {
    type V = Seq<u8>;

    open spec fn deep_view(&self) -> Seq<u8> {
        self.bytes@
    }
}

impl MimeType {
    /// A MIME type written as text, e.g. `text/html`.
    pub fn new(s: &str) -> (m: MimeType)
        ensures
            m@ == s.spec_bytes(),
    {
        MimeType { bytes: s.as_bytes_vec() }
    }
}

/// Whether a body passes the content-type filter: an empty allow-list
/// admits everything, a failed sniff admits, and otherwise the sniffed
/// type must be in the allow-list.
pub open spec fn mime_admitted(sniff: Option<Seq<u8>>, allowed: Seq<Seq<u8>>) -> bool {
    allowed.len() == 0 || match sniff {
        None => true,
        Some(m) => exists|i: int| 0 <= i < allowed.len() && mime_eq(allowed[i], m),
    }
}

/// Decide the content-type filter for a sniffed type.
pub fn content_admitted(sniff: &Option<Vec<u8>>, allowed: &Vec<MimeType>) -> (r: bool)
    ensures
        r == mime_admitted(sniff.deep_view(), allowed.deep_view()),
{
    if allowed.len() == 0 {
        return true;
    }
    match sniff {
        None => true,
        Some(m) => {
            proof {
                assert(m.deep_view() =~= m@);
            }
            let mut i: usize = 0;
            while i < allowed.len()
                invariant
                    i <= allowed@.len(),
                    *sniff == Some(*m),
                    m.deep_view() == m@,
                    forall|j: int|
                        0 <= j < i ==> !mime_eq(#[trigger] allowed.deep_view()[j], m@),
                decreases allowed.len() - i,
            {
                if mime_eq_bytes(allowed[i].bytes.as_slice(), m.as_slice()) {
                    proof {
                        assert(allowed.deep_view()[i as int] == allowed@[i as int].deep_view());
                        assert(mime_eq(allowed.deep_view()[i as int], m.deep_view()));
                        assert(exists|j: int|
                            0 <= j < allowed.deep_view().len() && mime_eq(
                                #[trigger] allowed.deep_view()[j],
                                m.deep_view(),
                            ));
                    }
                    return true;
                }
                i = i + 1;
            }
            false
        },
    }
}

/// What `infer::get` sniffs from the leading bytes of a body.
pub uninterp spec fn sniffed_mime_of(b: Seq<u8>) -> Option<Seq<u8>>;

/// Relies on `infer::get`: matches well-known magic-byte patterns, a
/// function of the buffer alone; `None` when no known type matches.
#[verifier::external_body]
pub(crate) fn sniff_mime(body: &[u8]) -> (r: Option<Vec<u8>>)
    ensures
        r matches Some(m) ==> sniffed_mime_of(body@) == Some(m@),
        r is None ==> sniffed_mime_of(body@) is None,
{
    infer::get(body).map(|t| t.mime_type().as_bytes().to_vec())
}

/// Relies on `String::from_utf8`: succeeds exactly on valid UTF-8 and
/// decodes it.
#[verifier::external_body]
pub(crate) fn decode_utf8_bytes(b: &[u8]) -> (r: Option<String>)
    ensures
        r matches Some(s) ==> valid_utf8(b@) && s@ == decode_utf8(b@),
        r is None ==> !valid_utf8(b@),
{
    String::from_utf8(b.to_vec()).ok()
}

/// The `href` attributes of the `a` elements of an HTML document, in
/// document order, duplicates kept.
pub uninterp spec fn extracted_hrefs_of(content: Seq<char>) -> Seq<Seq<char>>;

/// Relies on `scraper::Html::parse_document` and its `a` selector: a
/// best-effort parse of the text, a function of the text alone.
#[verifier::external_body]
pub(crate) fn extract_links(content: &str) -> (r: Vec<String>)
    ensures
        r.deep_view() == extracted_hrefs_of(content@),
{
    let document = scraper::Html::parse_document(content);
    let selector = scraper::Selector::parse("a").unwrap();
    document.select(&selector).filter_map(
        |element| element.value().attr("href").map(|href| href.to_string()),
    ).collect()
}

} // verus!
