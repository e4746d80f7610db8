use lang_profile::language::{builtin_registry, enroll, Javascript, Language, Lua, Python};
use lang_profile::meta_var::MetaVariable;
use lang_profile::profile::{Profile, Rules};
use lang_profile::registry::{Registry, RegistryError};

fn profile(name: &str) -> Profile {
    Profile::new(Lua::get_ts_language(), Rules::new(name))
}

#[test]
fn new_registry_is_empty() {
    let registry = Registry::new();
    assert_eq!(registry.len(), 0);
    assert!(!registry.contains("lua"));
    assert!(matches!(registry.lookup("lua"), Err(RegistryError::UnsupportedLanguage)));
}

#[test]
fn registered_profile_is_found() {
    let mut registry = Registry::new();
    assert_eq!(registry.register("lua", profile("Lua 5.4")), Ok(()));
    assert_eq!(registry.len(), 1);
    assert!(registry.contains("lua"));
    let found = registry.lookup("lua").ok().unwrap();
    assert_eq!(found.name(), "Lua 5.4");
    assert_eq!(found.sigil(), '$');
}

#[test]
fn second_registration_is_refused() {
    let mut registry = Registry::new();
    assert_eq!(registry.register("x", profile("first")), Ok(()));
    assert_eq!(registry.register("x", profile("second")), Err(RegistryError::DuplicateLanguage));
    assert_eq!(registry.len(), 1);
    assert_eq!(registry.lookup("x").ok().unwrap().name(), "first");
}

#[test]
fn unknown_language_is_unsupported() {
    let mut registry = Registry::new();
    registry.register("x", profile("x")).unwrap();
    assert!(matches!(registry.lookup("y"), Err(RegistryError::UnsupportedLanguage)));
    assert!(matches!(registry.lookup(""), Err(RegistryError::UnsupportedLanguage)));
    assert!(matches!(registry.lookup("X"), Err(RegistryError::UnsupportedLanguage)));
}

#[test]
fn profiles_keep_their_own_identifiers() {
    let mut registry = Registry::new();
    registry.register("a", profile("one")).unwrap();
    registry.register("b", Profile::new(Lua::get_ts_language(), Rules::new("two").with_sigil('#'))).unwrap();
    registry.register("", profile("three")).unwrap();
    assert_eq!(registry.len(), 3);
    assert_eq!(registry.lookup("a").ok().unwrap().name(), "one");
    assert_eq!(registry.lookup("b").ok().unwrap().name(), "two");
    assert_eq!(registry.lookup("b").ok().unwrap().sigil(), '#');
    assert_eq!(registry.lookup("").ok().unwrap().name(), "three");
}

#[test]
fn enrolling_registers_under_the_languages_name() {
    let mut registry = Registry::new();
    assert!(enroll::<Python>(&mut registry));
    assert!(!enroll::<Python>(&mut registry));
    assert!(enroll::<Lua>(&mut registry));
    assert_eq!(registry.len(), 2);
    assert_eq!(registry.lookup("python").ok().unwrap().name(), "python");
    assert_eq!(registry.lookup("lua").ok().unwrap().unwrap_order(), &Vec::<u16>::new());
}

#[test]
fn builtin_registry_holds_every_language() {
    let registry = builtin_registry();
    assert_eq!(registry.len(), 11);
    for name in ["c", "go", "html", "javascript", "kotlin", "lua", "python", "rust", "swift", "tsx", "typescript"] {
        let found = registry.lookup(name).ok().unwrap();
        assert_eq!(found.name(), name);
        assert_eq!(found.sigil(), '$');
        assert!(found.trivia_filter().is_empty());
    }
    assert!(matches!(registry.lookup("php"), Err(RegistryError::UnsupportedLanguage)));
    assert_eq!(registry.lookup("javascript").ok().unwrap().unwrap_order(), &Javascript::describe().unwrap_order);
}

#[test]
fn looked_up_profile_makes_patterns() {
    let registry = builtin_registry();
    let javascript = registry.lookup("javascript").ok().unwrap();
    let pattern = javascript.normalize("$A").ok().unwrap();
    assert_eq!(pattern.root_nodes(), &vec![2]);
    assert_eq!(pattern.capture(2), Some(&MetaVariable::Named("A".to_string())));
    assert_eq!(pattern.language(), "javascript");
}
