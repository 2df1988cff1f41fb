//! Placeholders of a URL template: where they stand and what they are called.
//!
//! A placeholder is an opening brace, one or more word characters and a closing
//! brace. The search for them is left to the `regex` crate; what is made of its
//! matches is proved here.

use vstd::prelude::*;
use vstd::string::*;
use vstd::utf8::*;

verus! {

/// The regular expression that a placeholder matches.
pub const PLACEHOLDER_PATTERN: &'static str = r"\{\w+\}";

/// The matches that `regex::Regex::find_iter` yields for the regular expression
/// `pattern` in `haystack`, in the order in which it yields them, each as the
/// pair of the byte offsets of its start and of its end in the UTF-8 encoding
/// of `haystack`.
pub uninterp spec fn regex_find_iter(pattern: Seq<char>, haystack: Seq<char>) -> Seq<(usize, usize)>;

/// Each span lies within `bytes`, starts and ends between two characters, and
/// ends before the next one starts.
pub open spec fn successive_spans(bytes: Seq<u8>, spans: Seq<(usize, usize)>) -> bool {
    &&& forall|k: int|
        #![trigger spans[k]]
        0 <= k < spans.len() ==> {
            &&& spans[k].0 <= spans[k].1 <= bytes.len()
            &&& is_char_boundary(bytes, spans[k].0 as int)
            &&& is_char_boundary(bytes, spans[k].1 as int)
        }
    &&& forall|k: int|
        #![trigger spans[k]]
        0 <= k < spans.len() - 1 ==> spans[k].1 <= spans[k + 1].0
}

/// Each span starts with an opening brace, ends with a closing brace and holds
/// at least one byte between the two.
pub open spec fn brace_delimited(bytes: Seq<u8>, spans: Seq<(usize, usize)>) -> bool {
    forall|k: int|
        #![trigger spans[k]]
        0 <= k < spans.len() ==> {
            &&& spans[k].0 + 3 <= spans[k].1
            &&& bytes[spans[k].0 as int] == 0x7b
            &&& bytes[spans[k].1 - 1] == 0x7d
        }
}

/// Where the placeholders of `template` stand, from left to right.
pub open spec fn placeholder_spans(template: Seq<char>) -> Seq<(usize, usize)> {
    regex_find_iter(PLACEHOLDER_PATTERN@, template)
}

/// The text that `template` holds from byte `from` up to byte `to` of its
/// UTF-8 encoding.
pub open spec fn text_between(template: Seq<char>, from: int, to: int) -> Seq<char> {
    decode_utf8(encode_utf8(template).subrange(from, to))
}

/// The text that `span` holds between its two delimiters.
pub open spec fn name_at(template: Seq<char>, span: (usize, usize)) -> Seq<char> {
    text_between(template, span.0 + 1, span.1 - 1)
}

/// The names that `spans` hold, in the order of the spans.
pub open spec fn names_at(template: Seq<char>, spans: Seq<(usize, usize)>) -> Seq<Seq<char>> {
    Seq::new(spans.len(), |k: int| name_at(template, spans[k]))
}

/// The names of the placeholders of `template`, from left to right. A name that
/// occurs twice is listed twice.
pub open spec fn placeholder_names(template: Seq<char>) -> Seq<Seq<char>> {
    names_at(template, placeholder_spans(template))
}

/// Calls `regex::Regex::new` on `pattern` and `regex::Regex::find_iter` on
/// `haystack`, and hands out `regex::Match::start` and `regex::Match::end` of
/// each match.
///
/// Believed and not proved: the result is a function of the two texts; the
/// offsets are those that the crate documents (start before end, both between
/// two characters of the haystack, the matches one after another without
/// overlap); and a match of the placeholder pattern begins with `{`, ends with
/// `}` and holds at least one character between them. Compilation of any other
/// pattern may fail, so only the placeholder pattern is admitted.
#[verifier::external_body]
pub(crate) fn find_matches(pattern: &str, haystack: &str) -> (spans: Vec<(usize, usize)>)
    requires
        pattern@ == PLACEHOLDER_PATTERN@,
    ensures
        spans@ == regex_find_iter(pattern@, haystack@),
        successive_spans(haystack.spec_bytes(), spans@),
        brace_delimited(haystack.spec_bytes(), spans@),
{
    let re = regex::Regex::new(pattern).unwrap();
    re.find_iter(haystack).map(|m| (m.start(), m.end())).collect()
}

/// Behind a first character of one byte a new character begins.
proof fn lemma_boundary_after_first_ascii(bytes: Seq<u8>)
    requires
        valid_utf8(bytes),
        bytes.len() > 0,
        bytes[0] <= 0x7f,
    ensures
        is_char_boundary(bytes, 1),
{
    reveal_with_fuel(valid_utf8, 2);
    reveal_with_fuel(is_char_boundary, 2);
    assert(length_of_first_scalar(bytes) == 1);
    assert(valid_utf8(pop_first_scalar(bytes)));
    assert(is_char_boundary(pop_first_scalar(bytes), 0));
}

/// Behind a character of one byte a new character begins.
proof fn lemma_boundary_after_ascii(bytes: Seq<u8>, at: int)
    requires
        valid_utf8(bytes),
        0 <= at < bytes.len(),
        is_char_boundary(bytes, at),
        bytes[at] <= 0x7f,
    ensures
        is_char_boundary(bytes, at + 1),
{
    if at + 1 == bytes.len() {
        is_char_boundary_start_end_of_seq(bytes);
    } else {
        let rest = bytes.subrange(at, bytes.len() as int);
        valid_utf8_split(bytes, at);
        lemma_boundary_after_first_ascii(rest);
        is_char_boundary_iff_not_is_continuation_byte(rest, 1);
        assert(rest[1] == bytes[at + 1]);
        is_char_boundary_iff_not_is_continuation_byte(bytes, at + 1);
    }
}

/// A place between two characters of a text is one in each part of the text
/// that ends between two characters behind it.
pub proof fn lemma_boundary_in_prefix(bytes: Seq<u8>, from: int, to: int)
    requires
        valid_utf8(bytes),
        0 <= from <= to <= bytes.len(),
        is_char_boundary(bytes, from),
        is_char_boundary(bytes, to),
    ensures
        valid_utf8(bytes.subrange(0, to)),
        is_char_boundary(bytes.subrange(0, to), from),
{
    let head = bytes.subrange(0, to);
    valid_utf8_split(bytes, to);
    if from == to {
        is_char_boundary_start_end_of_seq(head);
    } else {
        is_char_boundary_iff_not_is_continuation_byte(bytes, from);
        assert(head[from] == bytes[from]);
        is_char_boundary_iff_not_is_continuation_byte(head, from);
    }
}

/// The part of `text` between two places that each lie between two characters.
pub(crate) fn slice<'a>(text: &'a str, from: usize, to: usize) -> (part: &'a str)
    requires
        from <= to <= text.spec_bytes().len(),
        is_char_boundary(text.spec_bytes(), from as int),
        is_char_boundary(text.spec_bytes(), to as int),
    ensures
        part@ == text_between(text@, from as int, to as int),
{
    proof {
        encode_utf8_valid_utf8(text@);
        lemma_boundary_in_prefix(text.spec_bytes(), from as int, to as int);
    }
    let (head, _) = text.split_at(to);
    let (_, part) = head.split_at(from);
    proof {
        assert(part.spec_bytes() =~= text.spec_bytes().subrange(from as int, to as int));
        encode_utf8_decode_utf8(part@);
    }
    part
}

/// Cuts the name out of each span of `template`.
pub fn names_of_spans(template: &str, spans: &Vec<(usize, usize)>) -> (names: Vec<String>)
    requires
        successive_spans(template.spec_bytes(), spans@),
        brace_delimited(template.spec_bytes(), spans@),
    ensures
        names.len() == spans.len(),
        names.deep_view() == names_at(template@, spans@),
{
    let mut names: Vec<String> = Vec::new();
    let mut k: usize = 0;
    while k < spans.len()
        invariant
            k <= spans.len(),
            successive_spans(template.spec_bytes(), spans@),
            brace_delimited(template.spec_bytes(), spans@),
            names.len() == k,
            forall|j: int| 0 <= j < k ==> (#[trigger] names[j])@ == name_at(template@, spans[j]),
        decreases spans.len() - k,
    {
        let name = name_of_span(template, spans, k);
        names.push(name.to_owned());
        k += 1;
    }
    proof {
        assert(names.deep_view() =~= names_at(template@, spans@));
    }
    names
}

/// Cuts the name out of the span of `template` at `index`.
fn name_of_span<'a>(template: &'a str, spans: &Vec<(usize, usize)>, index: usize) -> (name: &'a str)
    requires
        successive_spans(template.spec_bytes(), spans@),
        brace_delimited(template.spec_bytes(), spans@),
        index < spans.len(),
    ensures
        name@ == name_at(template@, spans[index as int]),
{
    let (start, end) = spans[index];
    proof {
        let bytes = template.spec_bytes();
        assert(spans@[index as int] == (start, end));
        encode_utf8_valid_utf8(template@);
        lemma_boundary_after_ascii(bytes, start as int);
        is_char_boundary_iff_not_is_continuation_byte(bytes, end - 1);
    }
    slice(template, start + 1, end - 1)
}

/// Extracts the names of the placeholders of `template`, from left to right.
/// Every text is accepted; one without placeholders gives no name.
pub fn extract_placeholders(template: &str) -> (names: Vec<String>)
    ensures
        names.deep_view() == placeholder_names(template@),
        names.len() == placeholder_spans(template@).len(),
        successive_spans(template.spec_bytes(), placeholder_spans(template@)),
        brace_delimited(template.spec_bytes(), placeholder_spans(template@)),
{
    let spans = find_matches(PLACEHOLDER_PATTERN, template);
    names_of_spans(template, &spans)
}

} // verus!
