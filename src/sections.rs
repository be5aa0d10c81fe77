use vstd::prelude::*;

verus! {

/// A piece of a node's text, as a byte range, and whether it is a link.
#[derive(Clone, Copy, Debug, PartialEq, Eq, Structural, Hash)]
pub struct TextSection {
    pub start: usize,
    pub end: usize,
    pub is_link: bool,
}

/// The number of bytes that the UTF-8 encoding of `c` takes.
pub open spec fn char_utf8_len(c: char) -> nat {
    if (c as u32) < 0x80 {
        1
    } else if (c as u32) < 0x800 {
        2
    } else if (c as u32) < 0x10000 {
        3
    } else {
        4
    }
}

/// The number of bytes that the UTF-8 encoding of `s` takes.
pub open spec fn utf8_len(s: Seq<char>) -> nat
    decreases s.len(),
{
    if s.len() == 0 {
        0
    } else {
        utf8_len(s.drop_last()) + char_utf8_len(s.last())
    }
}

/// The byte ranges of the URLs that linkify finds in a text.
pub uninterp spec fn url_spans_of(text: Seq<char>) -> Seq<(usize, usize)>;

/// Relies on linkify's `LinkFinder`, restricted to `LinkKind::Url`: the start and
/// end byte offsets of each link it yields, in the order yielded.
#[verifier::external_body]
fn find_url_spans(text: &str) -> (r: Vec<(usize, usize)>)
    ensures
        r@ == url_spans_of(text@),
{
    let mut finder = linkify::LinkFinder::new();
    finder.kinds(&[linkify::LinkKind::Url]);
    finder.links(text).map(|l| (l.start(), l.end())).collect()
}

/// Relies on `str::len`: the length of the string in bytes.
#[verifier::external_body]
fn byte_len(text: &str) -> (r: usize)
    ensures
        r == utf8_len(text@),
{
    text.len()
}

/// The sections from the `k`-th link on, when the text before byte `idx` is already
/// covered: plain text up to each link, the link itself, and plain text after the
/// last link up to `len`.
pub open spec fn sections_from(links: Seq<(usize, usize)>, len: int, k: int, idx: int) -> Seq<TextSection>
    decreases links.len() - k,
{
    if k < 0 || k >= links.len() {
        if idx < len {
            seq![TextSection { start: idx as usize, end: len as usize, is_link: false }]
        } else {
            Seq::empty()
        }
    } else {
        let (s, e) = links[k];
        let before = if s > idx {
            seq![TextSection { start: idx as usize, end: s, is_link: false }]
        } else {
            Seq::empty()
        };
        before + seq![TextSection { start: s, end: e, is_link: true }] + sections_from(links, len, k + 1, e as int)
    }
}

/// How a text of `len` bytes with the given links splits into sections: the whole
/// text as one plain section where there is no link.
pub open spec fn text_sections(links: Seq<(usize, usize)>, len: int) -> Seq<TextSection> {
    if links.len() == 0 {
        seq![TextSection { start: 0, end: len as usize, is_link: false }]
    } else {
        sections_from(links, len, 0, 0)
    }
}

/// Splits a text of `len` bytes into plain and link sections around the given links.
pub fn split_sections(links: &Vec<(usize, usize)>, len: usize) -> (r: Vec<TextSection>)
    ensures
        r@ == text_sections(links@, len as int),
{
    let mut out: Vec<TextSection> = Vec::new();
    if links.len() == 0 {
        out.push(TextSection { start: 0, end: len, is_link: false });
        assert(out@ =~= text_sections(links@, len as int));
        return out;
    }
    let mut idx: usize = 0;
    let mut k: usize = 0;
    while k < links.len()
        invariant
            0 <= k <= links.len(),
            links.len() > 0,
            out@ + sections_from(links@, len as int, k as int, idx as int) == sections_from(
                links@,
                len as int,
                0,
                0,
            ),
        decreases links.len() - k,
    {
        let (s, e) = links[k];
        let ghost rest = sections_from(links@, len as int, k + 1, e as int);
        let ghost before = if s > idx {
            seq![TextSection { start: idx, end: s, is_link: false }]
        } else {
            Seq::empty()
        };
        let ghost old_out = out@;
        if s > idx {
            out.push(TextSection { start: idx, end: s, is_link: false });
        }
        out.push(TextSection { start: s, end: e, is_link: true });
        assert(out@ =~= old_out + before + seq![TextSection { start: s, end: e, is_link: true }]);
        assert(old_out + (before + seq![TextSection { start: s, end: e, is_link: true }] + rest) =~= out@
            + rest);
        idx = e;
        k += 1;
    }
    if idx < len {
        let ghost old_out = out@;
        out.push(TextSection { start: idx, end: len, is_link: false });
        assert(out@ =~= old_out + sections_from(links@, len as int, k as int, idx as int));
    } else {
        assert(out@ =~= out@ + sections_from(links@, len as int, k as int, idx as int));
    }
    out
}

/// Splits a node's text into plain and link sections, the links being the URLs
/// that linkify finds.
pub fn get_sections(text: &str) -> (r: Vec<TextSection>)
    ensures
        r@ == text_sections(url_spans_of(text@), utf8_len(text@) as int),
{
    let links = find_url_spans(text);
    let len = byte_len(text);
    split_sections(&links, len)
}

} // verus!
