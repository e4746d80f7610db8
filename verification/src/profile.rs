//! Language profiles: a grammar together with the conventions that queries
//! in that language follow.
use crate::grammar::{parse_tree, parsed_tree, tree_view};
use crate::meta_var::{
    classify, extract_meta_var, outcome_view, InvalidMetaVariableSyntax, MetaVariable,
    DEFAULT_SIGIL,
};
use crate::pattern::{
    normalize_tree, normalized, pattern_outcome_view, Pattern, PatternError, PatternErrorView,
    PatternView,
};
use crate::syntax::{contains_kind, SyntaxTree};
use tree_sitter::Language as TSLanguage;
use vstd::prelude::*;
use vstd::string::StringExecFns;

verus! {

/// What a language settles besides its grammar.
#[derive(Debug, PartialEq, Eq)]
pub struct Rules {
    /// The language's name.
    pub name: String,
    /// The character that introduces a capture.
    pub sigil: char,
    /// The node kinds that are skipped when trees are walked.
    pub trivia: Vec<u16>,
    /// The kinds of wrapper nodes, the preferred one first.
    pub unwrap_order: Vec<u16>,
}

/// The mathematical value of [`Rules`].
pub ghost struct RulesView {
    pub name: Seq<char>,
    pub sigil: char,
    pub trivia: Seq<u16>,
    pub unwrap_order: Seq<u16>,
}

impl View for Rules {
    type V = RulesView;

    open spec fn view(&self) -> RulesView {
        RulesView {
            name: self.name@,
            sigil: self.sigil,
            trivia: self.trivia@,
            unwrap_order: self.unwrap_order@,
        }
    }
}

/// The rules of a language that settles nothing itself: the default sigil,
/// no trivia, no wrappers.
pub open spec fn plain_rules(name: Seq<char>) -> RulesView {
    RulesView { name, sigil: DEFAULT_SIGIL, trivia: Seq::empty(), unwrap_order: Seq::empty() }
}

impl Rules {
    /// The rules of a language that settles nothing itself.
    pub fn new(name: &str) -> (rules: Rules)
        ensures
            rules@ == plain_rules(name@),
    {
        Rules {
            name: String::from_str(name),
            sigil: DEFAULT_SIGIL,
            trivia: Vec::new(),
            unwrap_order: Vec::new(),
        }
    }

    /// The same rules with another sigil.
    pub fn with_sigil(self, sigil: char) -> (rules: Rules)
        ensures
            rules@ == (RulesView { sigil, ..self@ }),
    {
        Rules { name: self.name, sigil, trivia: self.trivia, unwrap_order: self.unwrap_order }
    }

    /// The same rules with other trivia kinds.
    pub fn with_trivia(self, trivia: Vec<u16>) -> (rules: Rules)
        ensures
            rules@ == (RulesView { trivia: trivia@, ..self@ }),
    {
        Rules { name: self.name, sigil: self.sigil, trivia, unwrap_order: self.unwrap_order }
    }

    /// The same rules with another priority order of wrapper kinds.
    pub fn with_unwrap_order(self, unwrap_order: Vec<u16>) -> (rules: Rules)
        ensures
            rules@ == (RulesView { unwrap_order: unwrap_order@, ..self@ }),
    {
        Rules { name: self.name, sigil: self.sigil, trivia: self.trivia, unwrap_order }
    }
}

/// A language as the matching engine sees it: its grammar and its rules.
pub struct Profile {
    grammar: TSLanguage,
    rules: Rules,
}

/// The mathematical value of a [`Profile`].
pub ghost struct ProfileView {
    pub grammar: TSLanguage,
    pub rules: RulesView,
}

impl View for Profile {
    type V = ProfileView;

    closed spec fn view(&self) -> ProfileView {
        ProfileView { grammar: self.grammar, rules: self.rules@ }
    }
}

/// The pattern that a profile makes of the fragment `text`: the parse by
/// the profile's grammar, normalized by its rules. Where the grammar gives
/// no tree, the parse fails at the start of the fragment.
pub open spec fn profile_normalized(profile: ProfileView, text: Seq<char>) -> Result<
    PatternView,
    PatternErrorView,
> {
    match parsed_tree(profile.grammar, text) {
        None => Err(PatternErrorView::PatternParse { offset: 0 }),
        Some(nodes) => normalized(
            profile.rules.name,
            nodes,
            text,
            profile.rules.sigil,
            profile.rules.trivia,
            profile.rules.unwrap_order,
        ),
    }
}

impl Profile {
    /// The profile of the language with this grammar and these rules.
    pub fn new(grammar: TSLanguage, rules: Rules) -> (profile: Profile)
        ensures
            profile@ == (ProfileView { grammar, rules: rules@ }),
    {
        Profile { grammar, rules }
    }

    /// The language's name.
    pub fn name(&self) -> (name: &str)
        ensures
            name@ == self@.rules.name,
    {
        self.rules.name.as_str()
    }

    /// The character that introduces a capture.
    pub fn sigil(&self) -> (sigil: char)
        ensures
            sigil == self@.rules.sigil,
    {
        self.rules.sigil
    }

    /// The node kinds to skip when walking trees of this language.
    pub fn trivia_filter(&self) -> (kinds: &Vec<u16>)
        ensures
            kinds@ == self@.rules.trivia,
    {
        &self.rules.trivia
    }

    /// The kinds of wrapper nodes, the preferred one first.
    pub fn unwrap_order(&self) -> (kinds: &Vec<u16>)
        ensures
            kinds@ == self@.rules.unwrap_order,
    {
        &self.rules.unwrap_order
    }

    /// The grammar.
    pub fn grammar(&self) -> (grammar: &TSLanguage)
        ensures
            *grammar == self@.grammar,
    {
        &self.grammar
    }

    /// Whether nodes of this kind are skipped.
    pub fn is_trivia(&self, kind: u16) -> (skipped: bool)
        ensures
            skipped == self@.rules.trivia.contains(kind),
    {
        contains_kind(&self.rules.trivia, kind)
    }

    /// Reads one token against the language's sigil.
    pub fn extract_meta_var(&self, token: &str) -> (outcome: Result<
        MetaVariable,
        InvalidMetaVariableSyntax,
    >)
        ensures
            outcome_view(outcome) == classify(token@, self@.rules.sigil),
    {
        extract_meta_var(token, self.rules.sigil)
    }

    /// Parses `source` with the language's grammar.
    pub fn parse(&self, source: &str) -> (tree: Option<SyntaxTree>)
        ensures
            tree_view(tree) == parsed_tree(self@.grammar, source@),
    {
        parse_tree(&self.grammar, source)
    }

    /// Normalizes a parse `tree` of the fragment `text` by the language's
    /// rules.
    pub fn pattern_of(&self, tree: SyntaxTree, text: &str) -> (outcome: Result<
        Pattern,
        PatternError,
    >)
        ensures
            pattern_outcome_view(outcome) == normalized(
                self@.rules.name,
                tree@,
                text@,
                self@.rules.sigil,
                self@.rules.trivia,
                self@.rules.unwrap_order,
            ),
    {
        normalize_tree(
            self.rules.name.as_str(),
            tree,
            text,
            self.rules.sigil,
            &self.rules.trivia,
            &self.rules.unwrap_order,
        )
    }

    /// Makes a pattern of the fragment `query`.
    ///
    /// The result is a function of the profile and the fragment: the same
    /// fragment gives the same pattern, or the same error, every time.
    pub fn normalize(&self, query: &str) -> (outcome: Result<Pattern, PatternError>)
        ensures
            pattern_outcome_view(outcome) == profile_normalized(self@, query@),
    {
        match self.parse(query) {
            None => Err(PatternError::PatternParse { offset: 0 }),
            Some(tree) => self.pattern_of(tree, query),
        }
    }
}

} // verus!
