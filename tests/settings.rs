use std::path::PathBuf;

use modiom::config::Config;
use modiom::manifest::{
    DetailedModDependency, Game, Identifier, ModDependencies, ModDependency, ModioManifest,
};

#[test]
fn config_hosts() {
    let mut config = Config::new(PathBuf::from("/work"), PathBuf::from("/home/u/.modio"));
    assert_eq!(config.host(), "https://api.mod.io/v1");
    assert_eq!(config.cwd(), &PathBuf::from("/work"));
    assert_eq!(config.home(), &PathBuf::from("/home/u/.modio"));
    assert!(config.configure(true).is_ok());
    assert_eq!(config.host(), "https://api.test.mod.io/v1");
    assert!(config.configure(false).is_ok());
    assert_eq!(config.host(), "https://api.mod.io/v1");
}

#[test]
fn dependency_accessors() {
    let simple = ModDependency::Simple(Identifier::NameId(String::from("mod2")));
    assert_eq!(simple.id(), &Identifier::NameId(String::from("mod2")));
    assert_eq!(simple.file(), None);
    assert_eq!(simple.version(), None);

    let detailed = ModDependency::Detailed(DetailedModDependency {
        id: Identifier::Id(3),
        with_dependencies: Some(true),
        file: Some(17),
        version: Some(String::from("1.2")),
    });
    assert_eq!(detailed.id(), &Identifier::Id(3));
    assert_eq!(detailed.file(), Some(17));
    assert_eq!(detailed.version(), Some(&String::from("1.2")));
}

#[test]
fn integer_identifiers_keep_low_bits() {
    assert_eq!(Identifier::from_signed(1), Identifier::Id(1));
    assert_eq!(Identifier::from_signed(-1), Identifier::Id(u32::MAX));
    assert_eq!(Identifier::from_unsigned((1u64 << 32) + 5), Identifier::Id(5));
}

#[test]
fn manifest_needs_a_mod() {
    let game = || Game {
        id: Identifier::NameId(String::from("gameone")),
        with_dependencies: None,
    };
    let none = ModioManifest { game: game(), mods: None };
    assert!(!none.has_mods());
    let empty = ModioManifest { game: game(), mods: Some(ModDependencies::new()) };
    assert!(!empty.has_mods());
    let mut mods = ModDependencies::new();
    mods.insert(String::from("mod1"), ModDependency::Simple(Identifier::Id(1)));
    let some = ModioManifest { game: game(), mods: Some(mods) };
    assert!(some.has_mods());
}
