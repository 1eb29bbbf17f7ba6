//! The contents of a `Modio.toml` manifest: a game and the mods to install.
use vstd::prelude::*;

use std::collections::BTreeMap;

verus! {

/// The mods of a manifest, by the name under which they are listed.
pub type ModDependencies = BTreeMap<String, ModDependency>;

/// A manifest: the game, and the mods wanted for it.
#[derive(Debug, PartialEq, Eq)]
pub struct ModioManifest {
    pub game: Game,
    pub mods: Option<ModDependencies>,
}

/// A game or a mod, by numeric id or by name-id.
#[derive(Debug, PartialEq, Eq)]
pub enum Identifier {
    Id(u32),
    NameId(String),
}

#[derive(Debug, PartialEq, Eq)]
pub struct Game {
    pub id: Identifier,
    pub with_dependencies: Option<bool>,
}

/// A wanted mod: just its identifier, or a table with more detail.
#[derive(Debug, PartialEq, Eq)]
pub enum ModDependency {
    Simple(Identifier),
    Detailed(DetailedModDependency),
}

#[derive(Debug, PartialEq, Eq)]
pub struct DetailedModDependency {
    pub id: Identifier,
    pub with_dependencies: Option<bool>,
    pub file: Option<u32>,
    pub version: Option<String>,
}

impl ModioManifest {
    /// The manifest names at least one mod.
    pub fn has_mods(&self) -> (r: bool)
        ensures
            r == match self.mods {
                Some(m) => !m@.is_empty(),
                None => false,
            },
    {
        match &self.mods {
            Some(m) => !m.is_empty(),
            None => false,
        }
    }
}

impl Identifier {
    /// The identifier that a signed integer in a manifest gives: its low 32
    /// bits, as a numeric id.
    pub fn from_signed(v: i64) -> (r: Identifier)
        ensures
            r == Identifier::Id((v % 0x1_0000_0000) as u32),
    {
        if v >= 0 {
            Identifier::Id((v % 0x1_0000_0000) as u32)
        } else {
            let a: u64 = (-(v + 1)) as u64;
            let low = a % 0x1_0000_0000;
            proof {
                let q = a as int / 0x1_0000_0000;
                vstd::arithmetic::div_mod::lemma_fundamental_div_mod(a as int, 0x1_0000_0000);
                vstd::arithmetic::div_mod::lemma_fundamental_div_mod_converse(
                    v as int,
                    0x1_0000_0000,
                    -q - 1,
                    0xFFFF_FFFF - low,
                );
            }
            Identifier::Id((0xFFFF_FFFF - low) as u32)
        }
    }

    /// The identifier that an unsigned integer in a manifest gives: its low
    /// 32 bits, as a numeric id.
    pub fn from_unsigned(v: u64) -> (r: Identifier)
        ensures
            r == Identifier::Id((v % 0x1_0000_0000) as u32),
    {
        Identifier::Id((v % 0x1_0000_0000) as u32)
    }
}

impl ModDependency {
    /// The identifier of the mod, in either form.
    pub fn id(&self) -> (r: &Identifier)
        ensures
            *r == match self {
                ModDependency::Simple(id) => *id,
                ModDependency::Detailed(m) => m.id,
            },
    {
        match self {
            ModDependency::Simple(id) => id,
            ModDependency::Detailed(m) => &m.id,
        }
    }

    /// The file asked for, which only the detailed form can name.
    pub fn file(&self) -> (r: Option<u32>)
        ensures
            r == match self {
                ModDependency::Simple(_) => None,
                ModDependency::Detailed(m) => m.file,
            },
    {
        match self {
            ModDependency::Simple(_) => None,
            ModDependency::Detailed(m) => m.file,
        }
    }

    /// The version asked for, which only the detailed form can name.
    pub fn version(&self) -> (r: Option<&String>)
        ensures
            match self {
                ModDependency::Simple(_) => r is None,
                ModDependency::Detailed(m) => match m.version {
                    Some(v) => r is Some && *r->0 == v,
                    None => r is None,
                },
            },
    {
        match self {
            ModDependency::Simple(_) => None,
            ModDependency::Detailed(m) => m.version.as_ref(),
        }
    }
}

} // verus!
