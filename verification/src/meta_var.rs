//! Meta-variables: deciding whether one token of a query is a capture.
//!
//! A token is read against a sigil character. Leading sigils introduce a
//! capture, the text after them names it. Everything here is a function of
//! the token and the sigil alone.
use vstd::prelude::*;
use vstd::string::StringExecFns;

verus! {

/// What one token of a query stands for.
#[derive(Debug, PartialEq, Eq)]
pub enum MetaVariable {
    /// Exactly one node; what it binds is thrown away.
    Wildcard,
    /// Exactly one node, bound under the name.
    Named(String),
    /// Zero or more consecutive sibling nodes, bound in order under the name.
    NamedMulti(String),
    /// Ordinary source text.
    NotCapture,
}

/// The mathematical value of a [`MetaVariable`].
pub ghost enum MetaVariableView {
    Wildcard,
    Named(Seq<char>),
    NamedMulti(Seq<char>),
    NotCapture,
}

impl View for MetaVariable {
    type V = MetaVariableView;

    open spec fn view(&self) -> MetaVariableView {
        match self {
            MetaVariable::Wildcard => MetaVariableView::Wildcard,
            MetaVariable::Named(name) => MetaVariableView::Named(name@),
            MetaVariable::NamedMulti(name) => MetaVariableView::NamedMulti(name@),
            MetaVariable::NotCapture => MetaVariableView::NotCapture,
        }
    }
}

/// The token starts with sigils but is no well-formed capture.
#[derive(Debug, Clone, Copy, PartialEq, Eq, Structural)]
pub struct InvalidMetaVariableSyntax;

/// The sigil of a language that does not choose its own.
pub const DEFAULT_SIGIL: char = '$';

/// `'a'..='z'`.
pub open spec fn is_lowercase(c: char) -> bool {
    'a' <= c && c <= 'z'
}

/// A character that may start a capture name: `'A'..='Z'` or `'_'`.
pub open spec fn is_name_start(c: char) -> bool {
    ('A' <= c && c <= 'Z') || c == '_'
}

/// A character that may occur in a capture name: `'A'..='Z'`, `'0'..='9'` or `'_'`.
pub open spec fn is_name_char(c: char) -> bool {
    is_name_start(c) || ('0' <= c && c <= '9')
}

/// How many times `sigil` is repeated in `token` from position `from` on.
pub open spec fn sigil_run(token: Seq<char>, sigil: char, from: int) -> nat
    decreases token.len() - from,
{
    if 0 <= from < token.len() && token[from] == sigil {
        1 + sigil_run(token, sigil, from + 1)
    } else {
        0
    }
}

/// The number of sigils that `token` starts with.
pub open spec fn sigil_count(token: Seq<char>, sigil: char) -> nat {
    sigil_run(token, sigil, 0)
}

/// Some character of `text` is a lowercase letter.
pub open spec fn has_lowercase(text: Seq<char>) -> bool {
    exists|i: int| 0 <= i < text.len() && is_lowercase(#[trigger] text[i])
}

/// `text` is an identifier of uppercase letters, digits and underscores.
pub open spec fn is_valid_name(text: Seq<char>) -> bool {
    &&& text.len() > 0
    &&& is_name_start(text[0])
    &&& forall|i: int| 0 <= i < text.len() ==> is_name_char(#[trigger] text[i])
}

/// `text` is the anonymous placeholder: underscores and nothing else.
pub open spec fn is_placeholder(text: Seq<char>) -> bool {
    &&& text.len() > 0
    &&& forall|i: int| 0 <= i < text.len() ==> #[trigger] text[i] == '_'
}

/// The meaning of `token` under `sigil`.
///
/// A token without a leading sigil is text. So is one whose remainder, after
/// the sigils, holds a lowercase letter: this is settled before anything is
/// rejected. Otherwise one sigil introduces a single-node capture and three a
/// multi-node capture, any other count is rejected, and the remainder has to
/// be a name. With one sigil the placeholder is the wildcard.
pub open spec fn classify(token: Seq<char>, sigil: char) -> Result<
    MetaVariableView,
    InvalidMetaVariableSyntax,
> {
    let count = sigil_count(token, sigil);
    let rest = token.skip(count as int);
    if count == 0 || has_lowercase(rest) {
        Ok(MetaVariableView::NotCapture)
    } else if (count != 1 && count != 3) || !is_valid_name(rest) {
        Err(InvalidMetaVariableSyntax)
    } else if count == 3 {
        Ok(MetaVariableView::NamedMulti(rest))
    } else if is_placeholder(rest) {
        Ok(MetaVariableView::Wildcard)
    } else {
        Ok(MetaVariableView::Named(rest))
    }
}

/// The view of what [`extract_meta_var`] returns.
pub open spec fn outcome_view(
    outcome: Result<MetaVariable, InvalidMetaVariableSyntax>,
) -> Result<MetaVariableView, InvalidMetaVariableSyntax> {
    match outcome {
        Ok(var) => Ok(var@),
        Err(e) => Err(e),
    }
}

/// A run of `count` sigils that ends at `count` is the whole leading run.
pub proof fn lemma_sigil_count(token: Seq<char>, sigil: char, count: int)
    requires
        0 <= count <= token.len(),
        forall|i: int| 0 <= i < count ==> token[i] == sigil,
        count < token.len() ==> token[count] != sigil,
    ensures
        sigil_count(token, sigil) == count,
{
    lemma_sigil_run(token, sigil, 0, count);
}

/// The run from `from` on, where sigils fill the positions up to `count`.
proof fn lemma_sigil_run(token: Seq<char>, sigil: char, from: int, count: int)
    requires
        0 <= from <= count <= token.len(),
        forall|i: int| from <= i < count ==> token[i] == sigil,
        count < token.len() ==> token[count] != sigil,
    ensures
        sigil_run(token, sigil, from) == count - from,
    decreases count - from,
{
    if from < count {
        lemma_sigil_run(token, sigil, from + 1, count);
    }
}

/// Whether `c` is a lowercase letter.
fn lowercase(c: char) -> (b: bool)
    ensures
        b == is_lowercase(c),
{
    'a' <= c && c <= 'z'
}

/// Whether `c` may start a name.
fn name_start(c: char) -> (b: bool)
    ensures
        b == is_name_start(c),
{
    ('A' <= c && c <= 'Z') || c == '_'
}

/// Whether `c` may occur in a name.
fn name_char(c: char) -> (b: bool)
    ensures
        b == is_name_char(c),
{
    name_start(c) || ('0' <= c && c <= '9')
}

/// Reads `src` as one token against `meta_char`.
pub fn extract_meta_var(src: &str, meta_char: char) -> (outcome: Result<
    MetaVariable,
    InvalidMetaVariableSyntax,
>)
    ensures
        outcome_view(outcome) == classify(src@, meta_char),
{
    let len = src.unicode_len();
    let mut count: usize = 0;
    while count < len && src.get_char(count) == meta_char
        invariant
            len == src@.len(),
            count <= len,
            forall|i: int| 0 <= i < count ==> src@[i] == meta_char,
        decreases len - count,
    {
        count = count + 1;
    }
    proof {
        lemma_sigil_count(src@, meta_char, count as int);
    }
    if count == 0 {
        return Ok(MetaVariable::NotCapture);
    }
    let rest = src.substring_char(count, len);
    let rest_len = len - count;
    let mut lower = false;
    let mut name = rest_len > 0;
    let mut underscores = rest_len > 0;
    let mut i: usize = 0;
    while i < rest_len
        invariant
            rest@ == src@.skip(count as int),
            rest_len == rest@.len(),
            i <= rest_len,
            lower <==> exists|k: int| 0 <= k < i && is_lowercase(#[trigger] rest@[k]),
            name <==> rest_len > 0 && (i > 0 ==> is_name_start(rest@[0])) && forall|k: int|
                0 <= k < i ==> is_name_char(#[trigger] rest@[k]),
            underscores <==> rest_len > 0 && forall|k: int|
                0 <= k < i ==> #[trigger] rest@[k] == '_',
        decreases rest_len - i,
    {
        let c = rest.get_char(i);
        if lowercase(c) {
            lower = true;
        }
        if !name_char(c) || (i == 0 && !name_start(c)) {
            name = false;
        }
        if c != '_' {
            underscores = false;
        }
        i = i + 1;
    }
    if lower {
        Ok(MetaVariable::NotCapture)
    } else if (count != 1 && count != 3) || !name {
        Err(InvalidMetaVariableSyntax)
    } else if count == 3 {
        Ok(MetaVariable::NamedMulti(String::from_str(rest)))
    } else if underscores {
        Ok(MetaVariable::Wildcard)
    } else {
        Ok(MetaVariable::Named(String::from_str(rest)))
    }
}

/// The number of sigils decides the kind of capture, whatever the sigil is.
///
/// Take any token whose remainder after the sigils holds no lowercase
/// letter. With a count other than one or three it is rejected. Where the
/// remainder is a name, one sigil gives a single-node capture and three give
/// a multi-node capture under that name.
pub proof fn lemma_sigil_count_decides(token: Seq<char>, sigil: char)
    requires
        sigil_count(token, sigil) >= 1,
        !has_lowercase(token.skip(sigil_count(token, sigil) as int)),
    ensures
        sigil_count(token, sigil) != 1 && sigil_count(token, sigil) != 3 ==> classify(
            token,
            sigil,
        ) is Err,
        sigil_count(token, sigil) == 1 && is_valid_name(token.skip(1)) ==> classify(token, sigil)
            == Ok::<MetaVariableView, InvalidMetaVariableSyntax>(
            if is_placeholder(token.skip(1)) {
                MetaVariableView::Wildcard
            } else {
                MetaVariableView::Named(token.skip(1))
            },
        ),
        sigil_count(token, sigil) == 3 && is_valid_name(token.skip(3)) ==> classify(token, sigil)
            == Ok::<MetaVariableView, InvalidMetaVariableSyntax>(
            MetaVariableView::NamedMulti(token.skip(3)),
        ),
{
}

/// Case decides between text and capture.
///
/// One sigil followed by an identifier that holds a lowercase letter is
/// text; followed by a name that is not the placeholder it is the capture of
/// that name. The identifier must not itself start with the sigil.
pub proof fn lemma_case_decides(ident: Seq<char>, sigil: char)
    requires
        ident.len() > 0,
        ident[0] != sigil,
    ensures
        has_lowercase(ident) ==> classify(seq![sigil] + ident, sigil) == Ok::<
            MetaVariableView,
            InvalidMetaVariableSyntax,
        >(MetaVariableView::NotCapture),
        is_valid_name(ident) && !is_placeholder(ident) ==> classify(seq![sigil] + ident, sigil)
            == Ok::<MetaVariableView, InvalidMetaVariableSyntax>(MetaVariableView::Named(ident)),
{
    let token = seq![sigil] + ident;
    lemma_sigil_count(token, sigil, 1);
    assert(token.skip(1) =~= ident);
    if is_valid_name(ident) {
        assert forall|i: int| 0 <= i < ident.len() implies !is_lowercase(#[trigger] ident[i]) by {
            assert(is_name_char(ident[i]));
        }
    }
}

/// A token that does not start with the sigil is text.
pub proof fn lemma_plain_token_is_text(token: Seq<char>, sigil: char)
    requires
        token.len() == 0 || token[0] != sigil,
    ensures
        classify(token, sigil) == Ok::<MetaVariableView, InvalidMetaVariableSyntax>(
            MetaVariableView::NotCapture,
        ),
{
}

} // verus!
