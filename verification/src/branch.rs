//! One branch of the generated resolver: the pattern that matches a variant and
//! the pair of method and URL that the branch evaluates to.

use vstd::prelude::*;
use vstd::string::*;

use crate::literal::{quoted, string_literal};
use crate::placeholder::{
    brace_delimited, find_matches, name_at, names_at, names_of_spans, placeholder_spans,
    successive_spans, PLACEHOLDER_PATTERN,
};
use crate::substitution::{
    binding_index, bound_values, filled, filled_up_to, gap_before, gaps_of_spans,
    has_stray_brace, holds_brace_outside, substitute, substituted,
};

verus! {

/// The branch of the resolver for one variant.
#[derive(Clone, Debug, PartialEq, Eq)]
pub struct DispatchBranch {
    /// The name of the enumeration.
    pub enum_name: String,
    /// The name of the variant that the branch matches.
    pub variant: String,
    /// `None` for a variant without data; else the names to which the fields
    /// of the variant are bound, in the order of the fields.
    pub bindings: Option<Vec<String>>,
    /// The name of the HTTP method.
    pub method: String,
    /// The string literal of the URL template as it is written.
    pub url_literal: String,
    /// The URL template that the literal denotes.
    pub url_template: String,
}

/// A `DispatchBranch` with its texts as sequences of characters.
pub struct DispatchBranchView {
    pub enum_name: Seq<char>,
    pub variant: Seq<char>,
    pub bindings: Option<Seq<Seq<char>>>,
    pub method: Seq<char>,
    pub url_literal: Seq<char>,
    pub url_template: Seq<char>,
}

impl DeepView for DispatchBranch {
    type V = DispatchBranchView;

    open spec fn deep_view(&self) -> DispatchBranchView {
        DispatchBranchView {
            enum_name: self.enum_name@,
            variant: self.variant@,
            bindings: self.bindings.deep_view(),
            method: self.method@,
            url_literal: self.url_literal@,
            url_template: self.url_template@,
        }
    }
}

impl View for DispatchBranch {
    type V = DispatchBranchView;

    #[verifier::inline]
    open spec fn view(&self) -> DispatchBranchView {
        self.deep_view()
    }
}

/// `parts` one after another, with `separator` between each two.
pub open spec fn joined(parts: Seq<Seq<char>>, separator: Seq<char>) -> Seq<char>
    decreases parts.len(),
{
    if parts.len() == 0 {
        Seq::empty()
    } else if parts.len() == 1 {
        parts[0]
    } else {
        joined(parts.drop_last(), separator) + separator + parts.last()
    }
}

/// For each name the named argument that hands the binding of that name to
/// `format!`.
pub open spec fn named_arguments(names: Seq<Seq<char>>) -> Seq<Seq<char>> {
    Seq::new(names.len(), |k: int| names[k] + " = "@ + names[k])
}

/// The operands that put the text of `template` together up to the end of the
/// span at `count - 1`: in turn the text before a span, as a string literal,
/// and the binding with the name that the span holds.
pub open spec fn concatenation_parts(
    template: Seq<char>,
    spans: Seq<(usize, usize)>,
    count: int,
) -> Seq<Seq<char>>
    decreases count,
{
    if count <= 0 {
        Seq::empty()
    } else {
        concatenation_parts(template, spans, count - 1).push(
            quoted(gap_before(template, spans, count - 1)) + ".to_string()"@,
        ).push(name_at(template, spans[count - 1]) + ".to_string()"@)
    }
}

/// The expression that puts the text of `template` together with, in the place
/// of each span, the text of the binding with the name that the span holds.
/// Every character outside the spans stands in a string literal of its own
/// part, so none of them is read as anything but itself.
pub open spec fn concatenation(template: Seq<char>, spans: Seq<(usize, usize)>) -> Seq<char> {
    "["@ + joined(
        concatenation_parts(template, spans, spans.len() as int).push(
            quoted(gap_before(template, spans, spans.len() as int)) + ".to_string()"@,
        ),
        ", "@,
    ) + "].concat()"@
}

/// One operand of a concatenation: a text that stands for itself, or the name
/// of a binding that stands for the text of its field.
pub enum UrlPart {
    Text(Seq<char>),
    Binding(Seq<char>),
}

impl UrlPart {
    /// The source text of the operand.
    pub open spec fn rendered(self) -> Seq<char> {
        match self {
            UrlPart::Text(text) => quoted(text) + ".to_string()"@,
            UrlPart::Binding(name) => name + ".to_string()"@,
        }
    }

    /// The text that the operand gives where the fields bound to `bindings`
    /// have the texts `values`.
    pub open spec fn value(self, bindings: Seq<Seq<char>>, values: Seq<Seq<char>>) -> Seq<char> {
        match self {
            UrlPart::Text(text) => text,
            UrlPart::Binding(name) => values[binding_index(bindings, name).unwrap()],
        }
    }
}

/// The operands of the concatenation for `template` up to the end of the span
/// at `count - 1`.
pub open spec fn url_parts(template: Seq<char>, spans: Seq<(usize, usize)>, count: int) -> Seq<
    UrlPart,
>
    decreases count,
{
    if count <= 0 {
        Seq::empty()
    } else {
        url_parts(template, spans, count - 1).push(
            UrlPart::Text(gap_before(template, spans, count - 1)),
        ).push(UrlPart::Binding(name_at(template, spans[count - 1])))
    }
}

/// The operands of the concatenation for `template`: those up to the end of the
/// last span, and the text behind it.
pub open spec fn all_url_parts(template: Seq<char>, spans: Seq<(usize, usize)>) -> Seq<UrlPart> {
    url_parts(template, spans, spans.len() as int).push(
        UrlPart::Text(gap_before(template, spans, spans.len() as int)),
    )
}

/// The texts that `parts` give, one after another.
pub open spec fn parts_value(
    parts: Seq<UrlPart>,
    bindings: Seq<Seq<char>>,
    values: Seq<Seq<char>>,
) -> Seq<char>
    decreases parts.len(),
{
    if parts.len() == 0 {
        Seq::empty()
    } else {
        parts_value(parts.drop_last(), bindings, values) + parts.last().value(bindings, values)
    }
}

/// The operands that `concatenation_parts` writes are those of `url_parts`.
pub proof fn lemma_concatenation_renders_url_parts(
    template: Seq<char>,
    spans: Seq<(usize, usize)>,
    count: int,
)
    requires
        0 <= count <= spans.len(),
    ensures
        concatenation_parts(template, spans, count).len() == url_parts(template, spans, count).len(),
        forall|i: int|
            0 <= i < url_parts(template, spans, count).len() ==> concatenation_parts(
                template,
                spans,
                count,
            )[i] == (#[trigger] url_parts(template, spans, count)[i]).rendered(),
    decreases count,
{
    if count > 0 {
        lemma_concatenation_renders_url_parts(template, spans, count - 1);
    }
}

/// The operands of the concatenation for `template` give, one after another,
/// the template with each span replaced by the value bound to the name that the
/// span holds: the text outside the spans is kept as it is.
pub proof fn lemma_url_parts_give_filled_template(
    template: Seq<char>,
    spans: Seq<(usize, usize)>,
    bindings: Seq<Seq<char>>,
    values: Seq<Seq<char>>,
)
    ensures
        parts_value(all_url_parts(template, spans), bindings, values) == filled(
            template,
            spans,
            bound_values(bindings, values, names_at(template, spans)),
        ),
{
    let count = spans.len() as int;
    let parts = url_parts(template, spans, count);
    let last = UrlPart::Text(gap_before(template, spans, count));
    lemma_url_parts_give_filled_prefix(template, spans, bindings, values, count);
    assert(parts.push(last).drop_last() =~= parts);
}

/// Where a branch with bindings has a URL on the fields `values`, the operands
/// of the concatenation for its template give that URL.
pub proof fn lemma_concatenation_gives_resolved_url(
    branch: DispatchBranchView,
    values: Seq<Seq<char>>,
)
    requires
        branch.bindings is Some,
        branch.resolved(values) is Some,
    ensures
        parts_value(
            all_url_parts(branch.url_template, placeholder_spans(branch.url_template)),
            branch.bindings.unwrap(),
            values,
        ) == branch.resolved(values).unwrap().1,
{
    lemma_url_parts_give_filled_template(
        branch.url_template,
        placeholder_spans(branch.url_template),
        branch.bindings.unwrap(),
        values,
    );
}

/// The operands up to the end of the span at `count - 1` give the template up
/// to there, with each span replaced.
proof fn lemma_url_parts_give_filled_prefix(
    template: Seq<char>,
    spans: Seq<(usize, usize)>,
    bindings: Seq<Seq<char>>,
    values: Seq<Seq<char>>,
    count: int,
)
    requires
        0 <= count <= spans.len(),
    ensures
        parts_value(url_parts(template, spans, count), bindings, values) == filled_up_to(
            template,
            spans,
            bound_values(bindings, values, names_at(template, spans)),
            count,
        ),
    decreases count,
{
    if count > 0 {
        lemma_url_parts_give_filled_prefix(template, spans, bindings, values, count - 1);
        let before = url_parts(template, spans, count - 1);
        let gap = UrlPart::Text(gap_before(template, spans, count - 1));
        let name = UrlPart::Binding(name_at(template, spans[count - 1]));
        let texts = bound_values(bindings, values, names_at(template, spans));
        assert(before.push(gap).push(name).drop_last() =~= before.push(gap));
        assert(before.push(gap).drop_last() =~= before);
        assert(parts_value(before.push(gap), bindings, values) == parts_value(
            before,
            bindings,
            values,
        ) + gap.value(bindings, values));
        assert(parts_value(before.push(gap).push(name), bindings, values) == parts_value(
            before.push(gap),
            bindings,
            values,
        ) + name.value(bindings, values));
        assert(names_at(template, spans)[count - 1] == name_at(template, spans[count - 1]));
        assert(name.value(bindings, values) == texts[count - 1]);
    }
}

impl DispatchBranchView {
    /// The pattern of the branch.
    pub open spec fn pattern(self) -> Seq<char> {
        match self.bindings {
            None => self.enum_name + "::"@ + self.variant,
            Some(names) => self.enum_name + "::"@ + self.variant + "("@ + joined(names, ", "@)
                + ")"@,
        }
    }

    /// The expression that gives the URL. A branch without bindings gives the
    /// literal as it is. One with bindings hands the literal to `format!`,
    /// with each binding under its own name, where the template holds no brace
    /// but those of its placeholders. Where it holds another one, which
    /// `format!` would not take for itself, the URL is put together from the
    /// parts of the template and the bindings, so that the text outside the
    /// placeholders is kept.
    pub open spec fn url_expression(self) -> Seq<char> {
        match self.bindings {
            None => self.url_literal + ".to_string()"@,
            Some(names) => if has_stray_brace(self.url_template) {
                concatenation(self.url_template, placeholder_spans(self.url_template))
            } else {
                "format!("@ + self.url_literal + ", "@ + joined(named_arguments(names), ", "@)
                    + ")"@
            },
        }
    }

    /// The source text of the branch.
    pub open spec fn rendered(self) -> Seq<char> {
        self.pattern() + " => (Method::"@ + self.method + ", "@ + self.url_expression() + ")"@
    }

    /// The method and the URL that the branch evaluates to on a value of its
    /// variant whose fields have the texts `fields`. A branch without bindings
    /// gives the template as it is. One with bindings gives the template with
    /// each placeholder replaced by the text of the field that is bound to the
    /// placeholder's name. There is no result where the fields are not as many
    /// as the pattern takes, or where the bindings do not go with the
    /// placeholders of the template.
    pub open spec fn resolved(self, fields: Seq<Seq<char>>) -> Option<(Seq<char>, Seq<char>)> {
        match self.bindings {
            None => if fields.len() == 0 {
                Some((self.method, self.url_template))
            } else {
                None
            },
            Some(names) => match substituted(self.url_template, names, fields) {
                Some(url) => Some((self.method, url)),
                None => None,
            },
        }
    }
}

/// Writes `parts` one after another, with `separator` between each two.
pub fn join(parts: &Vec<String>, separator: &str) -> (text: String)
    ensures
        text@ == joined(parts.deep_view(), separator@),
{
    let mut text = String::new();
    let mut k: usize = 0;
    while k < parts.len()
        invariant
            k <= parts.len(),
            text@ == joined(parts.deep_view().take(k as int), separator@),
        decreases parts.len() - k,
    {
        proof {
            let before = parts.deep_view().take(k as int);
            let after = parts.deep_view().take(k + 1);
            assert(after.drop_last() =~= before);
            assert(after.last() == parts[k as int]@);
        }
        if k > 0 {
            text.append(separator);
        }
        text.append(parts[k].as_str());
        k += 1;
    }
    proof {
        assert(parts.deep_view().take(parts.len() as int) =~= parts.deep_view());
    }
    text
}

/// Writes for each name the named argument that hands its binding to
/// `format!`.
pub fn name_arguments(names: &Vec<String>) -> (arguments: Vec<String>)
    ensures
        arguments.deep_view() == named_arguments(names.deep_view()),
{
    let mut arguments: Vec<String> = Vec::new();
    let mut k: usize = 0;
    while k < names.len()
        invariant
            k <= names.len(),
            arguments.len() == k,
            forall|j: int|
                0 <= j < k ==> (#[trigger] arguments[j])@ == names[j]@ + " = "@ + names[j]@,
        decreases names.len() - k,
    {
        let mut argument = names[k].clone();
        argument.append(" = ");
        argument.append(names[k].as_str());
        arguments.push(argument);
        k += 1;
    }
    proof {
        assert(arguments.deep_view() =~= named_arguments(names.deep_view()));
    }
    arguments
}

/// Writes the expression that puts the text of `template` together with, in the
/// place of each span, the text of the binding with the name that the span
/// holds.
pub fn concatenate(template: &str, spans: &Vec<(usize, usize)>) -> (text: String)
    requires
        successive_spans(template.spec_bytes(), spans@),
        brace_delimited(template.spec_bytes(), spans@),
    ensures
        text@ == concatenation(template@, spans@),
{
    let gaps = gaps_of_spans(template, spans);
    let names = names_of_spans(template, spans);
    let mut parts: Vec<String> = Vec::new();
    let mut k: usize = 0;
    assert(parts.deep_view() =~= concatenation_parts(template@, spans@, 0));
    while k < spans.len()
        invariant
            k <= spans.len(),
            gaps.len() == spans.len() + 1,
            names.len() == spans.len(),
            forall|j: int|
                0 <= j <= spans.len() ==> (#[trigger] gaps[j])@ == gap_before(
                    template@,
                    spans@,
                    j,
                ),
            names.deep_view() == names_at(template@, spans@),
            parts.deep_view() == concatenation_parts(template@, spans@, k as int),
        decreases spans.len() - k,
    {
        let ghost before = parts.deep_view();
        let mut gap = string_literal(gaps[k].as_str());
        gap.append(".to_string()");
        let mut name = names[k].clone();
        name.append(".to_string()");
        proof {
            assert(names.deep_view()[k as int] == names[k as int]@);
        }
        let ghost gap_text = gap@;
        let ghost name_text = name@;
        parts.push(gap);
        parts.push(name);
        proof {
            assert(parts.deep_view() =~= before.push(gap_text).push(name_text));
        }
        k += 1;
    }
    let ghost before = parts.deep_view();
    let mut last = string_literal(gaps[k].as_str());
    last.append(".to_string()");
    let ghost last_text = last@;
    parts.push(last);
    proof {
        assert(parts.deep_view() =~= before.push(last_text));
    }
    let mut text = String::from_str("[");
    text.append(join(&parts, ", ").as_str());
    text.append("].concat()");
    text
}

impl DispatchBranch {
    /// Writes the pattern of the branch.
    pub fn pattern(&self) -> (text: String)
        ensures
            text@ == self@.pattern(),
    {
        let mut text = self.enum_name.clone();
        text.append("::");
        text.append(self.variant.as_str());
        match &self.bindings {
            None => {},
            Some(names) => {
                text.append("(");
                text.append(join(names, ", ").as_str());
                text.append(")");
            },
        }
        text
    }

    /// Writes the expression that gives the URL.
    pub fn url_expression(&self) -> (text: String)
        ensures
            text@ == self@.url_expression(),
    {
        match &self.bindings {
            None => {
                let mut text = self.url_literal.clone();
                text.append(".to_string()");
                text
            },
            Some(names) => {
                let spans = find_matches(PLACEHOLDER_PATTERN, self.url_template.as_str());
                if holds_brace_outside(self.url_template.as_str(), &spans) {
                    concatenate(self.url_template.as_str(), &spans)
                } else {
                    let mut text = String::from_str("format!(");
                    text.append(self.url_literal.as_str());
                    text.append(", ");
                    text.append(join(&name_arguments(names), ", ").as_str());
                    text.append(")");
                    text
                }
            },
        }
    }

    /// Writes the source text of the branch.
    pub fn render(&self) -> (text: String)
        ensures
            text@ == self@.rendered(),
    {
        let mut text = self.pattern();
        text.append(" => (Method::");
        text.append(self.method.as_str());
        text.append(", ");
        text.append(self.url_expression().as_str());
        text.append(")");
        text
    }

    /// Evaluates the branch on a value of its variant whose fields have the
    /// texts `fields`: the name of the method, and the URL.
    pub fn resolve(&self, fields: &Vec<String>) -> (pair: Option<(String, String)>)
        ensures
            match pair {
                Some((method, url)) => self@.resolved(fields.deep_view()) == Some((method@, url@)),
                None => self@.resolved(fields.deep_view()) is None,
            },
    {
        match &self.bindings {
            None => {
                if fields.len() == 0 {
                    Some((self.method.clone(), self.url_template.clone()))
                } else {
                    None
                }
            },
            Some(names) => match substitute(self.url_template.as_str(), names, fields) {
                Some(url) => Some((self.method.clone(), url)),
                None => None,
            },
        }
    }
}

} // verus!
