//! What becomes of a URL template when its placeholders are replaced.
//!
//! The generated resolver replaces each placeholder by the text of the field
//! that is bound to the placeholder's name. The functions here say what that
//! gives, and compute it.

use vstd::prelude::*;
use vstd::string::*;
use vstd::utf8::*;

use crate::placeholder::{
    find_matches, lemma_boundary_in_prefix, names_of_spans, placeholder_names, placeholder_spans,
    slice, successive_spans, text_between, PLACEHOLDER_PATTERN,
};

verus! {

/// The text of `template` that stands before the span at `index` and behind the
/// span before it; for `index` the number of spans, the text behind the last
/// span.
pub open spec fn gap_before(template: Seq<char>, spans: Seq<(usize, usize)>, index: int) -> Seq<
    char,
> {
    let from = if index <= 0 {
        0
    } else {
        spans[index - 1].1 as int
    };
    let to = if index >= spans.len() {
        encode_utf8(template).len() as int
    } else {
        spans[index].0 as int
    };
    text_between(template, from, to)
}

/// Whether `text` holds a brace.
pub open spec fn has_brace(text: Seq<char>) -> bool {
    exists|i: int| 0 <= i < text.len() && (#[trigger] text[i] == '{' || text[i] == '}')
}

/// Whether `template` holds a brace outside `spans`: in the text before a span
/// or behind the last one.
pub open spec fn has_brace_outside(template: Seq<char>, spans: Seq<(usize, usize)>) -> bool {
    exists|k: int| 0 <= k <= spans.len() && has_brace(#[trigger] gap_before(template, spans, k))
}

/// Whether `template` holds a brace that belongs to none of its placeholders.
pub open spec fn has_stray_brace(template: Seq<char>) -> bool {
    has_brace_outside(template, placeholder_spans(template))
}

/// The text of `template` up to the end of the span at `count - 1`, with each
/// span up to there replaced by the text at its index in `texts`.
pub open spec fn filled_up_to(
    template: Seq<char>,
    spans: Seq<(usize, usize)>,
    texts: Seq<Seq<char>>,
    count: int,
) -> Seq<char>
    decreases count,
{
    if count <= 0 {
        Seq::empty()
    } else {
        filled_up_to(template, spans, texts, count - 1) + gap_before(template, spans, count - 1)
            + texts[count - 1]
    }
}

/// `template` with each span replaced by the text at its index in `texts`.
pub open spec fn filled(template: Seq<char>, spans: Seq<(usize, usize)>, texts: Seq<Seq<char>>) -> Seq<
    char,
> {
    filled_up_to(template, spans, texts, spans.len() as int) + gap_before(
        template,
        spans,
        spans.len() as int,
    )
}

/// `template` with its placeholders replaced, from left to right, by `values`
/// in their order.
pub open spec fn substituted_in_order(template: Seq<char>, values: Seq<Seq<char>>) -> Seq<char> {
    filled(template, placeholder_spans(template), values)
}

/// The text that each span holds, delimiters included.
pub open spec fn span_texts(template: Seq<char>, spans: Seq<(usize, usize)>) -> Seq<Seq<char>> {
    Seq::new(spans.len(), |k: int| text_between(template, spans[k].0 as int, spans[k].1 as int))
}

/// Two parts of a text that meet between two characters make up the part from
/// the start of the first to the end of the second.
pub proof fn lemma_text_between_meets(template: Seq<char>, from: int, middle: int, to: int)
    requires
        0 <= from <= middle <= to <= encode_utf8(template).len(),
        is_char_boundary(encode_utf8(template), from),
        is_char_boundary(encode_utf8(template), middle),
        is_char_boundary(encode_utf8(template), to),
    ensures
        text_between(template, from, middle) + text_between(template, middle, to) == text_between(
            template,
            from,
            to,
        ),
{
    let bytes = encode_utf8(template);
    let head = bytes.subrange(0, to);
    let part = bytes.subrange(from, to);
    encode_utf8_valid_utf8(template);
    lemma_boundary_in_prefix(bytes, from, to);
    valid_utf8_split(head, from);
    assert(head.subrange(from, head.len() as int) =~= part);
    if middle == from {
    } else if middle == to {
        is_char_boundary_start_end_of_seq(part);
    } else {
        is_char_boundary_iff_not_is_continuation_byte(bytes, middle);
        assert(part[middle - from] == bytes[middle]);
        is_char_boundary_iff_not_is_continuation_byte(part, middle - from);
    }
    decode_utf8_split(part, middle - from);
    assert(part.subrange(0, middle - from) =~= bytes.subrange(from, middle));
    assert(part.subrange(middle - from, part.len() as int) =~= bytes.subrange(middle, to));
}

/// With each of the first `count` spans replaced by its own text, the text up
/// to the end of the last of them is what it was.
proof fn lemma_own_text_restores_prefix(template: Seq<char>, spans: Seq<(usize, usize)>, count: int)
    requires
        successive_spans(encode_utf8(template), spans),
        0 <= count <= spans.len(),
    ensures
        filled_up_to(template, spans, span_texts(template, spans), count) == text_between(
            template,
            0,
            if count == 0 {
                0
            } else {
                spans[count - 1].1 as int
            },
        ),
    decreases count,
{
    let bytes = encode_utf8(template);
    encode_utf8_valid_utf8(template);
    if count == 0 {
        assert(bytes.subrange(0, 0) =~= Seq::<u8>::empty());
        assert(text_between(template, 0, 0) =~= Seq::<char>::empty());
    } else {
        lemma_own_text_restores_prefix(template, spans, count - 1);
        let from = if count == 1 {
            0
        } else {
            spans[count - 2].1 as int
        };
        let (start, end) = spans[count - 1];
        if count > 1 {
            assert(spans[count - 2].1 <= spans[count - 2 + 1].0);
        }
        lemma_text_between_meets(template, 0, from, start as int);
        lemma_text_between_meets(template, 0, start as int, end as int);
    }
}

/// A template in which each span is replaced by its own text is the template.
pub proof fn lemma_own_text_restores_template(template: Seq<char>, spans: Seq<(usize, usize)>)
    requires
        successive_spans(encode_utf8(template), spans),
    ensures
        filled(template, spans, span_texts(template, spans)) == template,
{
    let bytes = encode_utf8(template);
    let count = spans.len() as int;
    encode_utf8_valid_utf8(template);
    is_char_boundary_start_end_of_seq(bytes);
    lemma_own_text_restores_prefix(template, spans, count);
    let from = if count == 0 {
        0
    } else {
        spans[count - 1].1 as int
    };
    lemma_text_between_meets(template, 0, from, bytes.len() as int);
    assert(bytes.subrange(0, bytes.len() as int) =~= bytes);
    encode_utf8_decode_utf8(template);
}

/// Whether `index` is the first place at which `bindings` holds `name`.
pub open spec fn binds_at(bindings: Seq<Seq<char>>, name: Seq<char>, index: int) -> bool {
    &&& 0 <= index < bindings.len()
    &&& bindings[index] == name
    &&& forall|j: int| 0 <= j < index ==> bindings[j] != name
}

/// The first place at which `bindings` holds `name`, if there is one.
pub open spec fn binding_index(bindings: Seq<Seq<char>>, name: Seq<char>) -> Option<int> {
    if exists|i: int| binds_at(bindings, name, i) {
        Some(choose|i: int| binds_at(bindings, name, i))
    } else {
        None
    }
}

/// Whether each of `names` is among `others`.
pub open spec fn all_among(names: Seq<Seq<char>>, others: Seq<Seq<char>>) -> bool {
    forall|k: int| 0 <= k < names.len() ==> binding_index(others, #[trigger] names[k]) is Some
}

/// Whether a pattern that binds `bindings` goes with a template whose
/// placeholders have the names `names`: no name is bound twice, each
/// placeholder's name is bound, and each binding is the name of a placeholder.
pub open spec fn well_bound(bindings: Seq<Seq<char>>, names: Seq<Seq<char>>) -> bool {
    &&& bindings.no_duplicates()
    &&& all_among(names, bindings)
    &&& all_among(bindings, names)
}

/// For each of `names`, the value at the place at which `bindings` holds it.
pub open spec fn bound_values(
    bindings: Seq<Seq<char>>,
    values: Seq<Seq<char>>,
    names: Seq<Seq<char>>,
) -> Seq<Seq<char>> {
    Seq::new(names.len(), |k: int| values[binding_index(bindings, names[k]).unwrap()])
}

/// `template` with each placeholder replaced by the value that stands in
/// `values` where the placeholder's name stands in `bindings`. There is no
/// such text where the values are not as many as the bindings, or where the
/// bindings do not go with the placeholders of the template.
pub open spec fn substituted(
    template: Seq<char>,
    bindings: Seq<Seq<char>>,
    values: Seq<Seq<char>>,
) -> Option<Seq<char>> {
    let names = placeholder_names(template);
    if bindings.len() == values.len() && well_bound(bindings, names) {
        Some(filled(template, placeholder_spans(template), bound_values(bindings, values, names)))
    } else {
        None
    }
}

/// No two places hold the first occurrence of one name.
pub proof fn lemma_binds_at_unique(bindings: Seq<Seq<char>>, name: Seq<char>, i: int, j: int)
    requires
        binds_at(bindings, name, i),
        binds_at(bindings, name, j),
    ensures
        i == j,
{
}

/// Each of `bindings` is bound: at its own place, or at an earlier one that
/// holds the same name.
pub proof fn lemma_member_is_bound(bindings: Seq<Seq<char>>, index: int)
    requires
        0 <= index < bindings.len(),
    ensures
        binding_index(bindings, bindings[index]) matches Some(first) && 0 <= first <= index
            && bindings[first] == bindings[index],
    decreases index,
{
    let name = bindings[index];
    if exists|j: int| 0 <= j < index && bindings[j] == name {
        let j = choose|j: int| 0 <= j < index && bindings[j] == name;
        lemma_member_is_bound(bindings, j);
    } else {
        assert(binds_at(bindings, name, index));
    }
    let first = choose|i: int| binds_at(bindings, name, i);
    if first > index {
        assert(bindings[index] != name);
    }
}

/// Where no name occurs twice, each of `bindings` is bound at its own place.
pub proof fn lemma_distinct_member_is_bound_in_place(bindings: Seq<Seq<char>>, index: int)
    requires
        0 <= index < bindings.len(),
        bindings.no_duplicates(),
    ensures
        binding_index(bindings, bindings[index]) == Some(index),
{
    lemma_member_is_bound(bindings, index);
}

/// The names of a template's placeholders, taken as the bindings, leave no
/// placeholder unbound and no binding unused.
pub proof fn lemma_own_names_cover(names: Seq<Seq<char>>)
    ensures
        all_among(names, names),
{
    assert forall|k: int| 0 <= k < names.len() implies binding_index(names, #[trigger] names[k])
        is Some by {
        lemma_member_is_bound(names, k);
    }
}

/// Where no two placeholders of `template` have the same name, substitution by
/// name, with the placeholders' own names as the bindings, replaces the
/// placeholders from left to right by the values in their order.
pub proof fn lemma_distinct_names_substitute_in_order(template: Seq<char>, values: Seq<Seq<char>>)
    requires
        values.len() == placeholder_names(template).len(),
        placeholder_names(template).no_duplicates(),
    ensures
        substituted(template, placeholder_names(template), values) == Some(
            substituted_in_order(template, values),
        ),
{
    let names = placeholder_names(template);
    lemma_own_names_cover(names);
    assert forall|k: int| 0 <= k < names.len() implies binding_index(names, #[trigger] names[k])
        == Some(k) by {
        lemma_distinct_member_is_bound_in_place(names, k);
    }
    assert(bound_values(names, values, names) =~= values);
}

/// Whether no name occurs twice in `names`.
pub fn is_distinct(names: &Vec<String>) -> (distinct: bool)
    ensures
        distinct == names.deep_view().no_duplicates(),
{
    let ghost all = names.deep_view();
    let mut k: usize = 0;
    while k < names.len()
        invariant
            k <= names.len(),
            all == names.deep_view(),
            forall|i: int, j: int| 0 <= i < j < k ==> all[i] != all[j],
        decreases names.len() - k,
    {
        assert(all[k as int] == names[k as int]@);
        proof {
            lemma_member_is_bound(all, k as int);
        }
        match find_binding(names, &names[k]) {
            Some(first) => {
                if first != k {
                    assert(all[first as int] == all[k as int]);
                    return false;
                }
                assert(binds_at(all, all[k as int], k as int));
            },
            None => {
                return false;
            },
        }
        k += 1;
    }
    true
}

/// Whether each of `names` is among `others`.
pub fn each_among(names: &Vec<String>, others: &Vec<String>) -> (among: bool)
    ensures
        among == all_among(names.deep_view(), others.deep_view()),
{
    let mut k: usize = 0;
    while k < names.len()
        invariant
            k <= names.len(),
            forall|j: int|
                0 <= j < k ==> binding_index(others.deep_view(), #[trigger] names.deep_view()[j])
                    is Some,
        decreases names.len() - k,
    {
        assert(names.deep_view()[k as int] == names[k as int]@);
        if find_binding(others, &names[k]).is_none() {
            return false;
        }
        k += 1;
    }
    true
}

/// Looks `name` up in `bindings`.
pub fn find_binding(bindings: &Vec<String>, name: &String) -> (found: Option<usize>)
    ensures
        match found {
            Some(index) => binding_index(bindings.deep_view(), name@) == Some(index as int),
            None => binding_index(bindings.deep_view(), name@) is None,
        },
{
    let mut i: usize = 0;
    while i < bindings.len()
        invariant
            i <= bindings.len(),
            forall|j: int| 0 <= j < i ==> bindings.deep_view()[j] != name@,
        decreases bindings.len() - i,
    {
        assert(bindings.deep_view()[i as int] == bindings[i as int]@);
        if bindings[i] == *name {
            proof {
                let ghost all = bindings.deep_view();
                assert(binds_at(all, name@, i as int));
                let chosen = choose|c: int| binds_at(all, name@, c);
                lemma_binds_at_unique(all, name@, i as int, chosen);
            }
            return Some(i);
        }
        i += 1;
    }
    None
}

/// Whether `text` holds a brace.
pub fn holds_brace(text: &str) -> (found: bool)
    ensures
        found == has_brace(text@),
{
    let count = text.unicode_len();
    let mut i: usize = 0;
    while i < count
        invariant
            i <= count,
            count == text@.len(),
            forall|j: int| 0 <= j < i ==> text@[j] != '{' && text@[j] != '}',
        decreases count - i,
    {
        let c = text.get_char(i);
        if c == '{' || c == '}' {
            return true;
        }
        i += 1;
    }
    false
}

/// Cuts `template` at `spans`: the text before each span, and the text behind
/// the last one.
pub fn gaps_of_spans(template: &str, spans: &Vec<(usize, usize)>) -> (gaps: Vec<String>)
    requires
        successive_spans(template.spec_bytes(), spans@),
    ensures
        gaps.len() == spans.len() + 1,
        forall|k: int|
            0 <= k <= spans.len() ==> (#[trigger] gaps[k])@ == gap_before(template@, spans@, k),
{
    let mut gaps: Vec<String> = Vec::new();
    let mut from: usize = 0;
    let mut k: usize = 0;
    proof {
        encode_utf8_valid_utf8(template@);
        is_char_boundary_start_end_of_seq(template.spec_bytes());
    }
    while k < spans.len()
        invariant
            k <= spans.len(),
            successive_spans(template.spec_bytes(), spans@),
            from == if k == 0 {
                0
            } else {
                spans[k - 1].1
            },
            from <= template.spec_bytes().len(),
            is_char_boundary(template.spec_bytes(), from as int),
            gaps.len() == k,
            forall|j: int| 0 <= j < k ==> (#[trigger] gaps[j])@ == gap_before(template@, spans@, j),
        decreases spans.len() - k,
    {
        let (start, end) = spans[k];
        proof {
            assert(spans@[k as int] == (start, end));
            if k > 0 {
                assert(spans@[k - 1].1 <= spans@[k - 1 + 1].0);
            }
        }
        gaps.push(slice(template, from, start).to_owned());
        from = end;
        k += 1;
    }
    proof {
        encode_utf8_valid_utf8(template@);
        is_char_boundary_start_end_of_seq(template.spec_bytes());
    }
    gaps.push(slice(template, from, template.as_bytes().len()).to_owned());
    gaps
}

/// Whether `template` holds a brace outside `spans`.
pub fn holds_brace_outside(template: &str, spans: &Vec<(usize, usize)>) -> (found: bool)
    requires
        successive_spans(template.spec_bytes(), spans@),
    ensures
        found == has_brace_outside(template@, spans@),
{
    let gaps = gaps_of_spans(template, spans);
    let mut k: usize = 0;
    while k < gaps.len()
        invariant
            k <= gaps.len(),
            gaps.len() == spans.len() + 1,
            forall|j: int|
                0 <= j <= spans.len() ==> (#[trigger] gaps[j])@ == gap_before(
                    template@,
                    spans@,
                    j,
                ),
            forall|j: int|
                0 <= j < k ==> !has_brace(#[trigger] gap_before(template@, spans@, j)),
        decreases gaps.len() - k,
    {
        if holds_brace(gaps[k].as_str()) {
            return true;
        }
        k += 1;
    }
    false
}

/// Replaces each span of `template` by the text at its index in `texts`.
pub fn fill_spans(template: &str, spans: &Vec<(usize, usize)>, texts: &Vec<String>) -> (text: String)
    requires
        successive_spans(template.spec_bytes(), spans@),
        texts.len() == spans.len(),
    ensures
        text@ == filled(template@, spans@, texts.deep_view()),
{
    let mut text = String::new();
    let mut from: usize = 0;
    let mut k: usize = 0;
    proof {
        encode_utf8_valid_utf8(template@);
        is_char_boundary_start_end_of_seq(template.spec_bytes());
    }
    while k < spans.len()
        invariant
            k <= spans.len(),
            successive_spans(template.spec_bytes(), spans@),
            texts.len() == spans.len(),
            from == if k == 0 {
                0
            } else {
                spans[k - 1].1
            },
            from <= template.spec_bytes().len(),
            is_char_boundary(template.spec_bytes(), from as int),
            text@ == filled_up_to(template@, spans@, texts.deep_view(), k as int),
        decreases spans.len() - k,
    {
        let (start, end) = spans[k];
        proof {
            assert(spans@[k as int] == (start, end));
            if k > 0 {
                assert(spans@[k - 1].1 <= spans@[k - 1 + 1].0);
            }
            assert(texts.deep_view()[k as int] == texts[k as int]@);
        }
        let gap = slice(template, from, start);
        text.append(gap);
        text.append(texts[k].as_str());
        from = end;
        k += 1;
    }
    proof {
        encode_utf8_valid_utf8(template@);
        is_char_boundary_start_end_of_seq(template.spec_bytes());
    }
    let rest = slice(template, from, template.as_bytes().len());
    text.append(rest);
    text
}

/// Picks for each of `names` the value that stands where `bindings` holds the
/// name; `None` where one of the names is not among the bindings.
pub fn values_of_names(bindings: &Vec<String>, values: &Vec<String>, names: &Vec<String>) -> (picked:
    Option<Vec<String>>)
    requires
        bindings.len() == values.len(),
    ensures
        match picked {
            Some(texts) => all_among(names.deep_view(), bindings.deep_view())
                && texts.len() == names.len() && texts.deep_view() == bound_values(
                bindings.deep_view(),
                values.deep_view(),
                names.deep_view(),
            ),
            None => !all_among(names.deep_view(), bindings.deep_view()),
        },
{
    let mut texts: Vec<String> = Vec::new();
    let mut k: usize = 0;
    while k < names.len()
        invariant
            k <= names.len(),
            bindings.len() == values.len(),
            texts.len() == k,
            forall|j: int|
                0 <= j < k ==> binding_index(
                    bindings.deep_view(),
                    #[trigger] names.deep_view()[j],
                ) is Some,
            forall|j: int|
                0 <= j < k ==> (#[trigger] texts[j])@ == values.deep_view()[binding_index(
                    bindings.deep_view(),
                    names.deep_view()[j],
                ).unwrap()],
        decreases names.len() - k,
    {
        assert(names.deep_view()[k as int] == names[k as int]@);
        match find_binding(bindings, &names[k]) {
            None => {
                return None;
            },
            Some(index) => {
                proof {
                    let chosen = binding_index(bindings.deep_view(), names[k as int]@).unwrap();
                    assert(binds_at(bindings.deep_view(), names[k as int]@, chosen));
                    assert(values.deep_view()[index as int] == values[index as int]@);
                }
                texts.push(values[index].clone());
            },
        }
        k += 1;
    }
    proof {
        assert(texts.deep_view() =~= bound_values(
            bindings.deep_view(),
            values.deep_view(),
            names.deep_view(),
        ));
    }
    Some(texts)
}

/// Replaces each placeholder of `template` by the value that stands in
/// `values` where the placeholder's name stands in `bindings`.
pub fn substitute(template: &str, bindings: &Vec<String>, values: &Vec<String>) -> (text: Option<
    String,
>)
    ensures
        match text {
            Some(url) => substituted(template@, bindings.deep_view(), values.deep_view()) == Some(
                url@,
            ),
            None => substituted(template@, bindings.deep_view(), values.deep_view()) is None,
        },
{
    if bindings.len() != values.len() {
        return None;
    }
    let spans = find_matches(PLACEHOLDER_PATTERN, template);
    let names = names_of_spans(template, &spans);
    if !is_distinct(bindings) || !each_among(bindings, &names) {
        return None;
    }
    match values_of_names(bindings, values, &names) {
        None => None,
        Some(texts) => Some(fill_spans(template, &spans, &texts)),
    }
}

} // verus!
