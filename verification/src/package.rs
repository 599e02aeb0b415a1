//! Portable screen packages: where imported packages go, how embedded
//! assets are named inside the archive, and how their paths are made usable
//! again after import.
use vstd::prelude::*;
use crate::persistence::{
    file_name_of, is_absolute_path, joined_path, path_file_name, path_is_absolute, path_join, split_file_name,
    stem_and_extension,
};
use crate::text::{chars_of, is_alphanumeric, push_char, unicode_alphanumeric};

verus! {

/// A character kept in a package folder name; others become '_'.
pub open spec fn safe_char(c: char) -> char {
    if unicode_alphanumeric(c) || c == '-' || c == '_' {
        c
    } else {
        '_'
    }
}

/// The folder name for a package: each character kept when it is a letter,
/// digit, '-' or '_', replaced by '_' otherwise; "imported" for an empty
/// name.
pub open spec fn safe_name_of(name: Seq<char>) -> Seq<char> {
    if name.len() == 0 {
        "imported"@
    } else {
        name.map_values(|c: char| safe_char(c))
    }
}

/// A package folder name has one character for each character of the
/// package name: letters, digits, '-' and '_' are kept and every other
/// character becomes '_'. An empty name gives "imported".
pub proof fn law_safe_names_keep_letters_digits_and_dashes(name: Seq<char>)
    ensures
        name.len() == 0 ==> safe_name_of(name) == "imported"@,
        name.len() > 0 ==> safe_name_of(name).len() == name.len(),
        forall|i: int|
            0 <= i < name.len() && (unicode_alphanumeric(#[trigger] name[i]) || name[i] == '-' || name[i] == '_')
                ==> safe_name_of(name)[i] == name[i],
        forall|i: int|
            0 <= i < name.len() && !(unicode_alphanumeric(#[trigger] name[i]) || name[i] == '-' || name[i] == '_')
                ==> safe_name_of(name)[i] == '_',
{
}

/// The folder name for a package (see `safe_name_of`).
pub fn safe_name(name: &str) -> (clean: String)
    ensures
        clean@ == safe_name_of(name@),
        clean@.len() > 0,
        forall|i: int| 0 <= i < clean@.len() ==> {
            let c = #[trigger] clean@[i];
            c != '/' && c != '\\' && c != '.' && c != ':'
        },
{
    let chars = chars_of(name);
    if chars.len() == 0 {
        proof {
            reveal_strlit("imported");
        }
        return String::from_str("imported");
    }
    let mut clean = String::new();
    let mut i: usize = 0;
    while i < chars.len()
        invariant
            chars@ == name@,
            i <= chars.len(),
            clean@ == chars@.take(i as int).map_values(|c: char| safe_char(c)),
            forall|j: int| 0 <= j < clean@.len() ==> {
                let c = #[trigger] clean@[j];
                c != '/' && c != '\\' && c != '.' && c != ':'
            },
        decreases chars.len() - i,
    {
        let c = chars[i];
        let kept = if is_alphanumeric(c) || c == '-' || c == '_' {
            c
        } else {
            '_'
        };
        push_char(&mut clean, kept);
        assert(chars@.take(i + 1).map_values(|c: char| safe_char(c)) =~= chars@.take(i as int).map_values(
            |c: char| safe_char(c),
        ).push(safe_char(c)));
        i += 1;
    }
    assert(chars@.take(chars.len() as int) =~= chars@);
    clean
}

/// The folder a package is unpacked into: `packages/<safe name>` in the data
/// directory.
pub fn package_destination(data_dir: &str, name: &str) -> (dir: String)
    ensures
        dir@ == joined_path(joined_path(data_dir@, "packages"@), safe_name_of(name@)),
{
    let packages = path_join(data_dir, "packages");
    let clean = safe_name(name);
    path_join(packages.as_str(), clean.as_str())
}

/// The extension of a path's file name, if it has one.
pub open spec fn extension_of(path: Seq<char>) -> Option<Seq<char>> {
    match file_name_of(path) {
        Some(name) => stem_and_extension(name).1,
        None => None,
    }
}

/// Where an asset is stored inside a package: "assets/<name>.<extension>",
/// the extension taken from the source file, "bin" when it has none.
pub open spec fn asset_path_of(name: Seq<char>, source: Seq<char>) -> Seq<char> {
    "assets/"@ + name + "."@ + match extension_of(source) {
        Some(e) => e,
        None => "bin"@,
    }
}

/// Where an asset is stored inside a package (see `asset_path_of`).
pub fn asset_archive_path(name: &str, source: &str) -> (path: String)
    ensures
        path@ == asset_path_of(name@, source@),
{
    let extension = match path_file_name(source) {
        Some(file) => split_file_name(file.as_str()).1,
        None => None,
    };
    let mut path = String::from_str("assets/");
    path.append(name);
    path.append(".");
    match extension {
        Some(e) => path.append(e.as_str()),
        None => path.append("bin"),
    }
    path
}

/// An asset path after import: relative paths are taken from the package
/// folder, absolute ones and absent ones stay.
pub open spec fn resolved_asset(root: Seq<char>, value: Option<Seq<char>>) -> Option<Seq<char>> {
    match value {
        Some(p) => if is_absolute_path(p) {
            Some(p)
        } else {
            Some(joined_path(root, p))
        },
        None => None,
    }
}

/// Makes an imported asset path usable (see `resolved_asset`).
pub fn resolve_asset(root: &str, value: &mut Option<String>)
    ensures
        crate::scene::string_opt_view(*final(value)) == resolved_asset(root@, crate::scene::string_opt_view(*old(value))),
{
    let resolved = match value {
        Some(p) => if path_is_absolute(p.as_str()) {
            None
        } else {
            Some(path_join(root, p.as_str()))
        },
        None => None,
    };
    if let Some(r) = resolved {
        *value = Some(r);
    }
}

} // verus!
