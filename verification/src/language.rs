//! Languages: the trait that binds a grammar to its rules, and the
//! languages that come with the library.
use crate::grammar::{
    c_language, go_language, html_language, javascript_language, kotlin_language, lua_language,
    parse_tree, parsed_tree, python_language, rust_language, swift_language, tree_view,
    tsx_language, typescript_language,
};
use crate::meta_var::{
    classify, extract_meta_var, outcome_view, InvalidMetaVariableSyntax, MetaVariable,
};
use crate::pattern::{pattern_outcome_view, Pattern, PatternError};
use crate::profile::{plain_rules, profile_normalized, Profile, ProfileView, Rules, RulesView};
use crate::registry::Registry;
use crate::syntax::SyntaxTree;
use tree_sitter::Language as TSLanguage;
use vstd::prelude::*;
use vstd::string::StringExecFns;

verus! {

/// A language: a grammar and the rules that queries in it follow.
///
/// An implementation supplies the grammar and states its rules; the rest
/// follows from these. Nothing is known of the grammar that
/// `get_ts_language` hands out, so what is made with it is stated for
/// whichever grammar came back.
pub trait Language: Sized + Copy + Clone + 'static {
    /// The grammar that parses the language.
    fn get_ts_language() -> TSLanguage;

    /// The language's rules.
    spec fn rules() -> RulesView;

    /// The language's rules.
    fn describe() -> (rules: Rules)
        ensures
            rules@ == Self::rules(),
    ;

    /// The node kinds that are skipped when trees of the language are walked.
    fn skippable_kind_ids() -> (kinds: Vec<u16>)
        ensures
            kinds@ == Self::rules().trivia,
    {
        Self::describe().trivia
    }

    /// The character that introduces a capture.
    fn meta_var_char() -> (sigil: char)
        ensures
            sigil == Self::rules().sigil,
    {
        Self::describe().sigil
    }

    /// The language's profile.
    fn profile() -> (profile: Profile)
        ensures
            profile@.rules == Self::rules(),
    {
        Profile::new(Self::get_ts_language(), Self::describe())
    }

    /// Parses `source` with the language's grammar.
    fn new(source: &str) -> (tree: Option<SyntaxTree>)
        ensures
            exists|grammar: TSLanguage| tree_view(tree) == #[trigger] parsed_tree(grammar, source@),
    {
        let grammar = Self::get_ts_language();
        let tree = parse_tree(&grammar, source);
        assert(tree_view(tree) == parsed_tree(grammar, source@));
        tree
    }

    /// Reads one token against the language's sigil.
    fn extract_meta_var(source: &str) -> (outcome: Result<MetaVariable, InvalidMetaVariableSyntax>)
        ensures
            outcome_view(outcome) == classify(source@, Self::rules().sigil),
    {
        extract_meta_var(source, Self::meta_var_char())
    }

    /// Makes a pattern of the fragment `query`.
    fn build_pattern(query: &str) -> (outcome: Result<Pattern, PatternError>)
        ensures
            exists|grammar: TSLanguage|
                pattern_outcome_view(outcome) == #[trigger] profile_normalized(
                    ProfileView { grammar, rules: Self::rules() },
                    query@,
                ),
    {
        let profile = Self::profile();
        let outcome = profile.normalize(query);
        assert(pattern_outcome_view(outcome) == profile_normalized(
            ProfileView { grammar: profile@.grammar, rules: Self::rules() },
            query@,
        ));
        outcome
    }
}

/// The rules of a language in which a bare expression parses as a
/// statement of kind `wrapper` around it.
pub open spec fn statement_rules(name: Seq<char>, wrapper: u16) -> RulesView {
    RulesView { unwrap_order: seq![wrapper], ..plain_rules(name) }
}

/// Plain rules with one wrapper kind.
fn rules_with_statement(name: &str, wrapper: u16) -> (rules: Rules)
    ensures
        rules@ == statement_rules(name@, wrapper),
{
    let mut order: Vec<u16> = Vec::new();
    order.push(wrapper);
    assert(order@ =~= seq![wrapper]);
    Rules::new(name).with_unwrap_order(order)
}

/// The kind of an expression statement in the C grammar.
pub const C_EXPRESSION_STATEMENT: u16 = 262;

/// The kind of an expression statement in the Go grammar.
pub const GO_EXPRESSION_STATEMENT: u16 = 140;

/// The kind of an expression statement in the JavaScript grammar.
pub const JAVASCRIPT_EXPRESSION_STATEMENT: u16 = 152;

/// The kind of an expression statement in the Python grammar.
pub const PYTHON_EXPRESSION_STATEMENT: u16 = 122;

/// The kind of an expression statement in the Rust grammar.
pub const RUST_EXPRESSION_STATEMENT: u16 = 156;

/// The kind of an expression statement in the TSX grammar.
pub const TSX_EXPRESSION_STATEMENT: u16 = 190;

/// The kind of an expression statement in the TypeScript grammar.
pub const TYPESCRIPT_EXPRESSION_STATEMENT: u16 = 182;

/// C.
#[derive(Clone, Copy)]
pub struct C;

impl Language for C {
    fn get_ts_language() -> TSLanguage {
        c_language()
    }

    open spec fn rules() -> RulesView {
        statement_rules("c"@, C_EXPRESSION_STATEMENT)
    }

    fn describe() -> (rules: Rules) {
        rules_with_statement("c", C_EXPRESSION_STATEMENT)
    }
}

/// Go.
#[derive(Clone, Copy)]
pub struct Go;

impl Language for Go {
    fn get_ts_language() -> TSLanguage {
        go_language()
    }

    open spec fn rules() -> RulesView {
        statement_rules("go"@, GO_EXPRESSION_STATEMENT)
    }

    fn describe() -> (rules: Rules) {
        rules_with_statement("go", GO_EXPRESSION_STATEMENT)
    }
}

/// HTML.
#[derive(Clone, Copy)]
pub struct Html;

impl Language for Html {
    fn get_ts_language() -> TSLanguage {
        html_language()
    }

    open spec fn rules() -> RulesView {
        plain_rules("html"@)
    }

    fn describe() -> (rules: Rules) {
        Rules::new("html")
    }
}

/// JavaScript.
#[derive(Clone, Copy)]
pub struct Javascript;

impl Language for Javascript {
    fn get_ts_language() -> TSLanguage {
        javascript_language()
    }

    open spec fn rules() -> RulesView {
        statement_rules("javascript"@, JAVASCRIPT_EXPRESSION_STATEMENT)
    }

    fn describe() -> (rules: Rules) {
        rules_with_statement("javascript", JAVASCRIPT_EXPRESSION_STATEMENT)
    }
}

/// Kotlin.
#[derive(Clone, Copy)]
pub struct Kotlin;

impl Language for Kotlin {
    fn get_ts_language() -> TSLanguage {
        kotlin_language()
    }

    open spec fn rules() -> RulesView {
        plain_rules("kotlin"@)
    }

    fn describe() -> (rules: Rules) {
        Rules::new("kotlin")
    }
}

/// Lua.
#[derive(Clone, Copy)]
pub struct Lua;

impl Language for Lua {
    fn get_ts_language() -> TSLanguage {
        lua_language()
    }

    open spec fn rules() -> RulesView {
        plain_rules("lua"@)
    }

    fn describe() -> (rules: Rules) {
        Rules::new("lua")
    }
}

/// Python.
#[derive(Clone, Copy)]
pub struct Python;

impl Language for Python {
    fn get_ts_language() -> TSLanguage {
        python_language()
    }

    open spec fn rules() -> RulesView {
        statement_rules("python"@, PYTHON_EXPRESSION_STATEMENT)
    }

    fn describe() -> (rules: Rules) {
        rules_with_statement("python", PYTHON_EXPRESSION_STATEMENT)
    }
}

/// Rust.
#[derive(Clone, Copy)]
pub struct Rust;

impl Language for Rust {
    fn get_ts_language() -> TSLanguage {
        rust_language()
    }

    open spec fn rules() -> RulesView {
        statement_rules("rust"@, RUST_EXPRESSION_STATEMENT)
    }

    fn describe() -> (rules: Rules) {
        rules_with_statement("rust", RUST_EXPRESSION_STATEMENT)
    }
}

/// Swift.
#[derive(Clone, Copy)]
pub struct Swift;

impl Language for Swift {
    fn get_ts_language() -> TSLanguage {
        swift_language()
    }

    open spec fn rules() -> RulesView {
        plain_rules("swift"@)
    }

    fn describe() -> (rules: Rules) {
        Rules::new("swift")
    }
}

/// TSX.
#[derive(Clone, Copy)]
pub struct Tsx;

impl Language for Tsx {
    fn get_ts_language() -> TSLanguage {
        tsx_language()
    }

    open spec fn rules() -> RulesView {
        statement_rules("tsx"@, TSX_EXPRESSION_STATEMENT)
    }

    fn describe() -> (rules: Rules) {
        rules_with_statement("tsx", TSX_EXPRESSION_STATEMENT)
    }
}

/// TypeScript.
#[derive(Clone, Copy)]
pub struct TypeScript;

impl Language for TypeScript {
    fn get_ts_language() -> TSLanguage {
        typescript_language()
    }

    open spec fn rules() -> RulesView {
        statement_rules("typescript"@, TYPESCRIPT_EXPRESSION_STATEMENT)
    }

    fn describe() -> (rules: Rules) {
        rules_with_statement("typescript", TYPESCRIPT_EXPRESSION_STATEMENT)
    }
}

/// The names under which the languages of this library are registered.
pub open spec fn builtin_names() -> Seq<Seq<char>> {
    seq![
        "c"@,
        "go"@,
        "html"@,
        "javascript"@,
        "kotlin"@,
        "lua"@,
        "python"@,
        "rust"@,
        "swift"@,
        "tsx"@,
        "typescript"@,
    ]
}

/// Registers the language `L` under its name, unless the name is taken.
pub fn enroll<L: Language>(registry: &mut Registry) -> (added: bool)
    ensures
        added == !old(registry)@.contains_key(L::rules().name),
        final(registry)@.dom() == old(registry)@.dom().insert(L::rules().name),
        added ==> final(registry)@[L::rules().name].rules == L::rules(),
        forall|id: Seq<char>|
            old(registry)@.contains_key(id) ==> #[trigger] final(registry)@[id] == old(
                registry,
            )@[id],
{
    let profile = L::profile();
    let name = String::from_str(profile.name());
    let ghost before = registry@;
    let outcome = registry.register(name.as_str(), profile);
    proof {
        if before.contains_key(name@) {
            assert(before.dom().insert(name@) =~= before.dom());
        } else {
            assert(registry@.dom() =~= before.dom().insert(name@));
        }
    }
    outcome.is_ok()
}

/// A registry that holds the languages of this library and no others, each
/// under its name and with its rules.
pub fn builtin_registry() -> (registry: Registry)
    ensures
        registry@.dom() == builtin_names().to_set(),
        registry@["c"@].rules == C::rules(),
        registry@["go"@].rules == Go::rules(),
        registry@["html"@].rules == Html::rules(),
        registry@["javascript"@].rules == Javascript::rules(),
        registry@["kotlin"@].rules == Kotlin::rules(),
        registry@["lua"@].rules == Lua::rules(),
        registry@["python"@].rules == Python::rules(),
        registry@["rust"@].rules == Rust::rules(),
        registry@["swift"@].rules == Swift::rules(),
        registry@["tsx"@].rules == Tsx::rules(),
        registry@["typescript"@].rules == TypeScript::rules(),
{
    proof {
        reveal_strlit("c");
        reveal_strlit("go");
        reveal_strlit("html");
        reveal_strlit("javascript");
        reveal_strlit("kotlin");
        reveal_strlit("lua");
        reveal_strlit("python");
        reveal_strlit("rust");
        reveal_strlit("swift");
        reveal_strlit("tsx");
        reveal_strlit("typescript");
        assert("c"@.len() == 1 && "go"@.len() == 2 && "html"@.len() == 4);
        assert("javascript"@.len() == 10 && "kotlin"@.len() == 6 && "lua"@.len() == 3);
        assert("python"@.len() == 6 && "rust"@.len() == 4 && "swift"@.len() == 5);
        assert("tsx"@.len() == 3 && "typescript"@.len() == 10);
        assert("javascript"@[0] != "typescript"@[0]);
        assert("kotlin"@[0] != "python"@[0]);
        assert("html"@[0] != "rust"@[0]);
        assert("lua"@[0] != "tsx"@[0]);
    }
    let mut registry = Registry::new();
    enroll::<C>(&mut registry);
    enroll::<Go>(&mut registry);
    enroll::<Html>(&mut registry);
    enroll::<Javascript>(&mut registry);
    enroll::<Kotlin>(&mut registry);
    enroll::<Lua>(&mut registry);
    enroll::<Python>(&mut registry);
    enroll::<Rust>(&mut registry);
    enroll::<Swift>(&mut registry);
    enroll::<Tsx>(&mut registry);
    enroll::<TypeScript>(&mut registry);
    proof {
        let names = builtin_names();
        assert forall|id: Seq<char>| registry@.dom().contains(id) <==> names.to_set().contains(
            id,
        ) by {
            if names.to_set().contains(id) {
                let i = choose|i: int| 0 <= i < names.len() && names[i] == id;
                assert(names[i] == id);
            }
            assert(names[0] == "c"@);
            assert(names[1] == "go"@);
            assert(names[2] == "html"@);
            assert(names[3] == "javascript"@);
            assert(names[4] == "kotlin"@);
            assert(names[5] == "lua"@);
            assert(names[6] == "python"@);
            assert(names[7] == "rust"@);
            assert(names[8] == "swift"@);
            assert(names[9] == "tsx"@);
            assert(names[10] == "typescript"@);
        }
        assert(registry@.dom() =~= names.to_set());
    }
    registry
}

} // verus!
