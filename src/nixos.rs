//! Editing NixOS's `configuration.nix` so that it imports the module this
//! tool installs.

use vstd::prelude::*;
use crate::text::{contains_seq, contains_str, lines, lines_of, push_all, unlines, views};

verus! {

/// Why the import could not be added.
#[derive(Clone, Copy, Debug, PartialEq, Eq, Structural)]
pub enum NixosError {
    /// No line mentions `imports`.
    NoImportsSection,
    /// No `[` on or after the `imports` line.
    NoImportsBracket,
}

impl NixosError {
    pub fn message(&self) -> (r: &'static str)
        ensures
            r@ == match self {
                NixosError::NoImportsSection => "Could not find `imports` section in /etc/nixos/configuration.nix"@,
                NixosError::NoImportsBracket => "Could not find opening `[` for imports section in /etc/nixos/configuration.nix"@,
            },
    {
        match self {
            NixosError::NoImportsSection => "Could not find `imports` section in /etc/nixos/configuration.nix",
            NixosError::NoImportsBracket => "Could not find opening `[` for imports section in /etc/nixos/configuration.nix",
        }
    }
}

/// The line that imports the module.
pub open spec fn import_line() -> Seq<char> {
    "      ./shipit.nix"@
}

/// The index of the first line at or after `from` that contains `pat`.
pub open spec fn first_line_with(ls: Seq<Seq<char>>, pat: Seq<char>, from: int) -> Option<int>
    decreases ls.len() - from,
{
    if from < 0 || from >= ls.len() {
        None
    } else if contains_seq(ls[from], pat) {
        Some(from)
    } else {
        first_line_with(ls, pat, from + 1)
    }
}

/// What `inject_shipit_import` gives for a configuration text.
pub open spec fn inject_spec(config: Seq<char>) -> Result<Seq<char>, NixosError> {
    let ls = lines_of(config);
    match first_line_with(ls, "imports"@, 0) {
        None => Err(NixosError::NoImportsSection),
        Some(i) => match first_line_with(ls, "["@, i) {
            None => Err(NixosError::NoImportsBracket),
            Some(b) => Ok(unlines(ls.insert(b + 1, import_line()))),
        },
    }
}

fn find_line_with(ls: &Vec<String>, pat: &str, from: usize) -> (r: Option<usize>)
    requires
        from <= ls@.len(),
    ensures
        match r {
            Some(i) => first_line_with(views(ls@), pat@, from as int) == Some(i as int) && i < ls@.len(),
            None => first_line_with(views(ls@), pat@, from as int) is None,
        },
{
    let mut i = from;
    while i < ls.len()
        invariant
            from <= i <= ls@.len(),
            first_line_with(views(ls@), pat@, from as int) == first_line_with(views(ls@), pat@, i as int),
        decreases ls@.len() - i,
    {
        if contains_str(ls[i].as_str(), pat) {
            return Some(i);
        }
        i = i + 1;
    }
    None
}

/// Adds `./shipit.nix` to the imports of a NixOS configuration: a line
/// inserted after the first `[` at or below the first line that mentions
/// `imports`; the lines are joined again, each ending in a line feed.
pub fn inject_shipit_import(config: &str) -> (r: Result<String, NixosError>)
    ensures
        match r {
            Ok(out) => inject_spec(config@) == Ok::<Seq<char>, NixosError>(out@),
            Err(e) => inject_spec(config@) == Err::<Seq<char>, NixosError>(e),
        },
{
    let mut ls = lines(config);
    let i = match find_line_with(&ls, "imports", 0) {
        Some(i) => i,
        None => return Err(NixosError::NoImportsSection),
    };
    let b = match find_line_with(&ls, "[", i) {
        Some(b) => b,
        None => return Err(NixosError::NoImportsBracket),
    };
    let ghost old_ls = ls@;
    let nl = ls.len();
    assert(b < nl);
    ls.insert(b + 1, String::from_str("      ./shipit.nix"));
    proof {
        assert(views(ls@) =~= views(old_ls).insert(b + 1, import_line()));
    }
    let mut out = String::new();
    let mut k: usize = 0;
    while k < ls.len()
        invariant
            k <= ls@.len(),
            out@ == unlines(views(ls@).subrange(0, k as int)),
        decreases ls@.len() - k,
    {
        assert(views(ls@).subrange(0, k + 1).drop_last() =~= views(ls@).subrange(0, k as int));
        push_all(&mut out, ls[k].as_str());
        out.push('\n');
        k = k + 1;
    }
    assert(views(ls@).subrange(0, ls@.len() as int) =~= views(ls@));
    Ok(out)
}

} // verus!
