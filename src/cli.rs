//! The options of the `cargo member` subcommands, as plain values.
use vstd::prelude::*;

use crate::path::same_text;

verus! {

/// Coloring of the output.
#[derive(Clone, Copy, Debug, PartialEq, Eq, Structural)]
pub enum ColorChoice {
    Auto,
    Always,
    Never,
}

/// The names that select each coloring on the command line.
pub open spec fn color_name(c: ColorChoice) -> Seq<char> {
    match c {
        ColorChoice::Auto => seq!['a', 'u', 't', 'o'],
        ColorChoice::Always => seq!['a', 'l', 'w', 'a', 'y', 's'],
        ColorChoice::Never => seq!['n', 'e', 'v', 'e', 'r'],
    }
}

impl ColorChoice {
    /// The name of this coloring.
    pub fn as_str(&self) -> (r: &'static str)
        ensures
            r@ == color_name(*self),
    {
        match self {
            ColorChoice::Auto => {
                proof {
                    reveal_strlit("auto");
                }
                "auto"
            },
            ColorChoice::Always => {
                proof {
                    reveal_strlit("always");
                }
                "always"
            },
            ColorChoice::Never => {
                proof {
                    reveal_strlit("never");
                }
                "never"
            },
        }
    }

    /// The coloring named `s`, if any.
    pub fn parse(s: &str) -> (r: Option<ColorChoice>)
        ensures
            r matches Some(c) ==> color_name(c) == s@,
            r is None ==> forall|c: ColorChoice| color_name(c) != s@,
    {
        let cs = [ColorChoice::Auto, ColorChoice::Always, ColorChoice::Never];
        let mut i: usize = 0;
        while i < 3
            invariant
                i <= 3,
                cs@ == seq![ColorChoice::Auto, ColorChoice::Always, ColorChoice::Never],
                forall|j: int| 0 <= j < i ==> color_name(cs@[j]) != s@,
            decreases 3 - i,
        {
            if same_text(cs[i].as_str(), s) {
                return Some(cs[i]);
            }
            i = i + 1;
        }
        assert forall|c: ColorChoice| color_name(c) != s@ by {
            match c {
                ColorChoice::Auto => assert(color_name(cs@[0]) != s@),
                ColorChoice::Always => assert(color_name(cs@[1]) != s@),
                ColorChoice::Never => assert(color_name(cs@[2]) != s@),
            }
        }
        None
    }
}

/// The `cargo` command with its one subcommand.
#[derive(Debug)]
pub enum Cargo {
    Member(CargoMember),
}

/// The subcommands of `cargo member`.
#[derive(Debug)]
pub enum CargoMember {
    /// Add a package to `workspace.members`
    Include(CargoMemberInclude),
    /// Move a package from `workspace.members` to `workspace.exclude`
    Exclude(CargoMemberExclude),
    /// Remove a package from both of `workspace.{members, exclude}`
    Deactivate(CargoMemberDeactivate),
    /// Add a package and deactivate or exclude the others
    Focus(CargoMemberFocus),
    /// Create a new workspace member with `cargo new`
    New(CargoMemberNew),
    /// Copy a workspace member
    Cp(CargoMemberCp),
    /// Remove a workspace member
    Rm(CargoMemberRm),
    /// Move a workspace member
    Mv(CargoMemberMv),
}

/// The coloring chosen on any subcommand.
pub open spec fn color_of(m: &CargoMember) -> ColorChoice {
    match m {
        CargoMember::Include(o) => o.color,
        CargoMember::Exclude(o) => o.color,
        CargoMember::Deactivate(o) => o.color,
        CargoMember::Focus(o) => o.color,
        CargoMember::New(o) => o.color,
        CargoMember::Cp(o) => o.color,
        CargoMember::Rm(o) => o.color,
        CargoMember::Mv(o) => o.color,
    }
}

impl CargoMember {
    /// The `--color` option of the subcommand.
    pub fn color(&self) -> (r: ColorChoice)
        ensures
            r == color_of(self),
    {
        match self {
            CargoMember::Include(o) => o.color,
            CargoMember::Exclude(o) => o.color,
            CargoMember::Deactivate(o) => o.color,
            CargoMember::Focus(o) => o.color,
            CargoMember::New(o) => o.color,
            CargoMember::Cp(o) => o.color,
            CargoMember::Rm(o) => o.color,
            CargoMember::Mv(o) => o.color,
        }
    }
}

/// Options of `include`.
#[derive(Debug)]
pub struct CargoMemberInclude {
    pub manifest_path: Option<String>,
    pub color: ColorChoice,
    pub offline: bool,
    /// Allow non package paths
    pub force: bool,
    pub dry_run: bool,
    /// Paths to add
    pub paths: Vec<String>,
}

/// Options of `exclude`.
#[derive(Debug)]
pub struct CargoMemberExclude {
    /// Package ID specifications
    pub package: Vec<String>,
    pub manifest_path: Option<String>,
    pub color: ColorChoice,
    pub offline: bool,
    pub dry_run: bool,
    pub paths: Vec<String>,
}

/// Options of `deactivate`.
#[derive(Debug)]
pub struct CargoMemberDeactivate {
    pub package: Vec<String>,
    pub manifest_path: Option<String>,
    pub color: ColorChoice,
    pub offline: bool,
    pub dry_run: bool,
    pub paths: Vec<String>,
}

/// Options of `focus`.
#[derive(Debug)]
pub struct CargoMemberFocus {
    /// Put the other packages into `workspace.exclude`
    pub exclude: bool,
    pub dry_run: bool,
    pub manifest_path: Option<String>,
    pub color: ColorChoice,
    pub offline: bool,
    pub path: String,
}

/// Options of `new`.
#[derive(Debug)]
pub struct CargoMemberNew {
    pub manifest_path: Option<String>,
    pub registry: Option<String>,
    pub vcs: Option<String>,
    pub lib: bool,
    pub name: Option<String>,
    pub color: ColorChoice,
    pub offline: bool,
    pub dry_run: bool,
    pub path: String,
}

/// Options of `cp`.
#[derive(Debug)]
pub struct CargoMemberCp {
    pub manifest_path: Option<String>,
    pub color: ColorChoice,
    pub offline: bool,
    pub dry_run: bool,
    /// Keep the `package.name` of the copy
    pub no_rename: bool,
    /// Package ID specification of the source
    pub src: String,
    /// Destination directory
    pub dst: String,
}

/// Options of `rm`.
#[derive(Debug)]
pub struct CargoMemberRm {
    pub package: Vec<String>,
    pub manifest_path: Option<String>,
    pub color: ColorChoice,
    pub offline: bool,
    pub force: bool,
    pub dry_run: bool,
    pub paths: Vec<String>,
}

/// Options of `mv`.
#[derive(Debug)]
pub struct CargoMemberMv {
    pub manifest_path: Option<String>,
    pub color: ColorChoice,
    pub offline: bool,
    pub dry_run: bool,
    pub no_rename: bool,
    pub src: String,
    pub dst: String,
}

} // verus!
