//! Where configuration, screens and the active-screen marker live, and which
//! screen names are acceptable.
//!
//! Paths are strings; joining and taking the parent follow `std::path`, whose
//! rules (those of the platform the library is built for) are named rather
//! than restated.
use vstd::prelude::*;
use crate::text::{
    chars_of, is_alphanumeric, is_blank, push_char, str_eq_ignore_ascii_case, str_is_blank, string_from_chars,
    string_from_range, trim,
    trim_str, unicode_alphanumeric,
};

verus! {

/// What `Path::new(base).join(name)` gives, as a string.
pub uninterp spec fn joined_path(base: Seq<char>, name: Seq<char>) -> Seq<char>;

/// What `Path::new(path).parent()` gives, as a string.
pub uninterp spec fn parent_path(path: Seq<char>) -> Option<Seq<char>>;

/// What `Path::new(path).file_name()` gives, as a string.
pub uninterp spec fn file_name_of(path: Seq<char>) -> Option<Seq<char>>;

/// What `Path::new(path).is_absolute()` gives.
pub uninterp spec fn is_absolute_path(path: Seq<char>) -> bool;

/// A character that ends a path component on some platform: '/', '\\', or
/// the ':' of a drive prefix.
pub open spec fn is_separator(c: char) -> bool {
    c == '/' || c == '\\' || c == ':'
}

/// A single ordinary path component: non-empty, without separators, and
/// neither "." nor "..".
pub open spec fn is_plain_component(name: Seq<char>) -> bool {
    &&& name.len() > 0
    &&& forall|i: int| 0 <= i < name.len() ==> !is_separator(#[trigger] name[i])
    &&& name != seq!['.']
    &&& name != seq!['.', '.']
}

/// The text after the last separator of a path.
pub open spec fn last_component(path: Seq<char>) -> Seq<char>
    decreases path.len(),
{
    if path.len() == 0 {
        path
    } else if is_separator(path.last()) {
        Seq::empty()
    } else {
        last_component(path.drop_last()).push(path.last())
    }
}

/// A path whose last component is an ordinary name (so it has no trailing
/// separator and does not end in "." or "..").
pub open spec fn ends_in_plain_component(path: Seq<char>) -> bool {
    is_plain_component(last_component(path))
}

/// Whether a path starts with two separators, as Windows UNC shares
/// (`\\server\share`) and device or verbatim paths (`\\.\COM3`,
/// `\\?\C:\x`) do.
pub open spec fn starts_with_two_separators(path: Seq<char>) -> bool {
    &&& path.len() >= 2
    &&& (path[0] == '/' || path[0] == '\\')
    &&& (path[1] == '/' || path[1] == '\\')
}

/// `Path::join`: `name` appended to `base` as a path component. When `name`
/// is a single ordinary component, the joined path ends in it, and taking
/// the parent of the joined path gives `base` back, provided `base` is
/// empty or itself ends in an ordinary component, and does not start with
/// two separators (`join` adds one separator; `parent` drops the last
/// component and that separator). Left unsaid: bases that start with two
/// separators, where on Windows a share or device root such as
/// `\\server\share` comes back from `parent` with its root separator.
#[verifier::external_body]
pub(crate) fn path_join(base: &str, name: &str) -> (joined: String)
    ensures
        joined@ == joined_path(base@, name@),
        is_plain_component(name@) ==> ends_in_plain_component(joined@),
        is_plain_component(name@) && (base@.len() == 0 || ends_in_plain_component(base@))
            && !starts_with_two_separators(base@) ==> parent_path(joined@) == Some(base@),
{
    std::path::Path::new(base).join(name).to_string_lossy().into_owned()
}

/// `Path::parent`: the path without its last component, if it has one.
#[verifier::external_body]
pub(crate) fn path_parent(path: &str) -> (parent: Option<String>)
    ensures
        match parent {
            Some(p) => parent_path(path@) == Some(p@),
            None => parent_path(path@) is None,
        },
{
    std::path::Path::new(path).parent().map(|p| p.to_string_lossy().into_owned())
}

/// `Path::file_name`: the last component, unless it is "..".
#[verifier::external_body]
pub(crate) fn path_file_name(path: &str) -> (name: Option<String>)
    ensures
        match name {
            Some(n) => file_name_of(path@) == Some(n@),
            None => file_name_of(path@) is None,
        },
{
    std::path::Path::new(path).file_name().map(|n| n.to_string_lossy().into_owned())
}

/// `Path::is_absolute`.
#[verifier::external_body]
pub(crate) fn path_is_absolute(path: &str) -> (absolute: bool)
    ensures
        absolute == is_absolute_path(path@),
{
    std::path::Path::new(path).is_absolute()
}

/// The directory of a path, or "." when it has none.
pub open spec fn directory_of(path: Seq<char>) -> Seq<char> {
    match parent_path(path) {
        Some(p) => p,
        None => seq!['.'],
    }
}

fn directory(path: &str) -> (dir: String)
    ensures
        dir@ == directory_of(path@),
{
    match path_parent(path) {
        Some(p) => p,
        None => {
            let mut dot = String::new();
            push_char(&mut dot, '.');
            dot
        },
    }
}

/// Whether a folder is one that joining and taking the parent give back
/// unchanged: empty, or ending in an ordinary name, and not starting with
/// two separators (a Windows share or device path).
pub open spec fn is_named_folder(dir: Seq<char>) -> bool {
    &&& dir.len() == 0 || ends_in_plain_component(dir)
    &&& !starts_with_two_separators(dir)
}

/// The configuration file inside the data directory; the data directory is
/// its parent.
pub fn default_config_path(data_dir: &str) -> (path: String)
    ensures
        path@ == joined_path(data_dir@, "config.yaml"@),
        is_named_folder(data_dir@) ==> parent_path(path@) == Some(data_dir@),
{
    proof {
        reveal_strlit("config.yaml");
    }
    path_join(data_dir, "config.yaml")
}

/// The file that remembers which saved screen is shown, next to the
/// configuration: its parent is the configuration's folder.
pub fn active_screen_path(config_path: &str) -> (path: String)
    ensures
        path@ == joined_path(directory_of(config_path@), "active-screen.txt"@),
        is_named_folder(directory_of(config_path@)) ==> parent_path(path@) == Some(directory_of(config_path@)),
{
    proof {
        reveal_strlit("active-screen.txt");
    }
    let dir = directory(config_path);
    path_join(dir.as_str(), "active-screen.txt")
}

/// The folder of saved screens for a configuration file: "screens" in the
/// configuration's folder.
pub open spec fn screens_folder(config_path: Seq<char>) -> Seq<char> {
    joined_path(directory_of(config_path), "screens"@)
}

/// The directory of saved screens, next to the configuration: its parent is
/// the configuration's folder (that of the active-screen file too), and it
/// ends in the name "screens".
pub fn profiles_dir(config_path: &str) -> (path: String)
    ensures
        path@ == screens_folder(config_path@),
        ends_in_plain_component(path@),
        is_named_folder(directory_of(config_path@)) ==> parent_path(path@) == Some(directory_of(config_path@)),
{
    proof {
        reveal_strlit("screens");
        assert("screens"@.len() == 7);
        assert(is_plain_component("screens"@));
    }
    let dir = directory(config_path);
    path_join(dir.as_str(), "screens")
}

/// A screen name was refused.
#[derive(Clone, Copy, Debug, PartialEq, Eq, Structural)]
pub enum ProfileError {
    /// Empty, longer than 80 bytes, or holding a character other than
    /// letters, digits, space, '-' and '_'.
    InvalidName,
}

/// A character allowed in a screen name.
pub open spec fn is_name_char(c: char) -> bool {
    unicode_alphanumeric(c) || c == ' ' || c == '-' || c == '_'
}

/// The UTF-8 length of a string, as `str::len` reports it.
pub open spec fn byte_len(s: Seq<char>) -> usize {
    vstd::utf8::encode_utf8(s).len() as usize
}

/// Whether a (trimmed) screen name is acceptable: non-empty, at most 80 bytes
/// of UTF-8, and made of allowed characters only.
pub open spec fn is_valid_screen_name(clean: Seq<char>) -> bool {
    &&& clean.len() > 0
    &&& byte_len(clean) <= 80
    &&& forall|i: int| 0 <= i < clean.len() ==> is_name_char(#[trigger] clean[i])
}

/// Checks a screen name; returns it trimmed. An accepted name never holds a
/// path separator, a dot or a colon, so its file stays in the screens directory.
pub fn validate_screen_name(name: &str) -> (clean: Result<String, ProfileError>)
    ensures
        is_valid_screen_name(trim(name@)) <==> clean is Ok,
        clean matches Ok(c) ==> c@ == trim(name@),
        clean matches Ok(c) ==> forall|i: int| 0 <= i < c@.len() ==> {
            let ch = #[trigger] c@[i];
            ch != '/' && ch != '\\' && ch != '.' && ch != ':'
        },
{
    let clean = trim_str(name);
    let chars = chars_of(clean.as_str());
    if chars.len() == 0 || clean.as_str().len() > 80 {
        return Err(ProfileError::InvalidName);
    }
    assert(byte_len(clean@) <= 80);
    let mut i: usize = 0;
    while i < chars.len()
        invariant
            chars@ == clean@,
            clean@ == trim(name@),
            chars.len() > 0,
            byte_len(clean@) <= 80,
            i <= chars.len(),
            forall|j: int| 0 <= j < i ==> is_name_char(#[trigger] chars@[j]),
            forall|j: int| 0 <= j < i ==> {
                let ch = #[trigger] chars@[j];
                ch != '/' && ch != '\\' && ch != '.' && ch != ':'
            },
        decreases chars.len() - i,
    {
        let c = chars[i];
        if !(is_alphanumeric(c) || c == ' ' || c == '-' || c == '_') {
            assert(!is_name_char(chars@[i as int]));
            return Err(ProfileError::InvalidName);
        }
        i += 1;
    }
    Ok(clean)
}

/// The file of a saved screen: `<name>.yaml` in the screens directory (which
/// is its parent, unless that directory is a Windows share or device path),
/// the name trimmed and checked first.
pub fn profile_path(config_path: &str, name: &str) -> (path: Result<String, ProfileError>)
    ensures
        is_valid_screen_name(trim(name@)) <==> path is Ok,
        path matches Ok(p) ==> p@ == joined_path(screens_folder(config_path@), trim(name@) + ".yaml"@),
        !starts_with_two_separators(screens_folder(config_path@)) ==> (path matches Ok(p) ==> parent_path(p@)
            == Some(screens_folder(config_path@))),
{
    let clean = validate_screen_name(name)?;
    let dir = profiles_dir(config_path);
    let ghost stem = clean@;
    let mut file = clean;
    file.append(".yaml");
    proof {
        reveal_strlit(".yaml");
        assert(file@ == stem + seq!['.', 'y', 'a', 'm', 'l']);
        assert forall|i: int| 0 <= i < file@.len() implies !is_separator(#[trigger] file@[i]) by {
            if i < stem.len() {
                assert(file@[i] == stem[i]);
            }
        }
        assert(file@.len() > 2);
        assert(is_plain_component(file@));
    }
    Ok(path_join(dir.as_str(), file.as_str()))
}

} // verus!

verus! {

/// What `save_active_screen` records: the trimmed name, or nothing (the
/// marker is removed) when the name is absent or blank.
pub open spec fn active_screen_record_spec(name: Option<Seq<char>>) -> Option<Seq<char>> {
    match name {
        Some(n) => if is_blank(n) {
            None
        } else {
            Some(trim(n))
        },
        None => None,
    }
}

/// The name to write to the active-screen marker, if any.
pub fn active_screen_record(name: Option<&str>) -> (record: Option<String>)
    ensures
        crate::scene::string_opt_view(record) == active_screen_record_spec(match name {
            Some(n) => Some(n@),
            None => None,
        }),
{
    match name {
        Some(n) => {
            if str_is_blank(n) {
                None
            } else {
                Some(trim_str(n))
            }
        },
        None => None,
    }
}

/// Reads the active-screen marker: its trimmed contents name a screen when
/// they are non-empty and a valid screen name; the screen's file is returned
/// with the name (the caller checks that the file exists).
pub fn active_screen_candidate(config_path: &str, contents: &str) -> (candidate: Option<(String, String)>)
    ensures
        candidate is Some <==> (trim(contents@).len() > 0 && is_valid_screen_name(trim(trim(contents@)))),
        candidate matches Some((name, path)) ==> {
            &&& name@ == trim(contents@)
            &&& path@ == joined_path(screens_folder(config_path@), trim(trim(contents@)) + ".yaml"@)
        },
{
    let name = trim_str(contents);
    if name.unicode_len() == 0 {
        return None;
    }
    match profile_path(config_path, name.as_str()) {
        Ok(path) => Some((name, path)),
        Err(_) => None,
    }
}

/// Position of the last '.' in `s`.
pub open spec fn last_dot(s: Seq<char>) -> Option<int>
    decreases s.len(),
{
    if s.len() == 0 {
        None
    } else if s.last() == '.' {
        Some(s.len() - 1)
    } else {
        last_dot(s.drop_last())
    }
}

/// `Path::file_stem` and `Path::extension` of a file name: split at the last
/// dot, except that a name whose only dot leads it (".yaml") and ".." have
/// no extension.
pub open spec fn stem_and_extension(name: Seq<char>) -> (Seq<char>, Option<Seq<char>>) {
    if name == seq!['.', '.'] {
        (name, None)
    } else {
        match last_dot(name) {
            Some(k) => if k == 0 {
                (name, None)
            } else {
                (name.subrange(0, k), Some(name.subrange(k + 1, name.len() as int)))
            },
            None => (name, None),
        }
    }
}

proof fn lemma_last_dot(s: Seq<char>, k: int)
    requires
        -1 <= k < s.len(),
        forall|j: int| k < j < s.len() ==> s[j] != '.',
        k >= 0 ==> s[k] == '.',
    ensures
        last_dot(s) == (if k >= 0 { Some(k) } else { None::<int> }),
    decreases s.len(),
{
    if s.len() > 0 && s.last() != '.' {
        lemma_last_dot(s.drop_last(), k);
    }
}

proof fn lemma_last_dot_is_last(s: Seq<char>)
    ensures
        last_dot(s) matches Some(k) ==> 0 <= k < s.len() && s[k] == '.' && forall|j: int|
            k < j < s.len() ==> #[trigger] s[j] != '.',
        last_dot(s) is None ==> forall|j: int| 0 <= j < s.len() ==> #[trigger] s[j] != '.',
    decreases s.len(),
{
    if s.len() > 0 {
        lemma_last_dot_is_last(s.drop_last());
        assert forall|j: int| 0 <= j < s.len() - 1 implies s[j] == s.drop_last()[j] by {}
    }
}

/// A file name with an extension is its stem, a dot and the extension; the
/// stem is not empty and the extension holds no dot (the split is at the
/// last dot). A name without an extension is its own stem and has no dot
/// after its first character, unless it is "..".
pub proof fn law_file_name_splits_at_its_last_dot(name: Seq<char>)
    ensures
        stem_and_extension(name).1 matches Some(e) ==> {
            &&& stem_and_extension(name).0 + seq!['.'] + e == name
            &&& stem_and_extension(name).0.len() > 0
            &&& forall|i: int| 0 <= i < e.len() ==> #[trigger] e[i] != '.'
        },
        stem_and_extension(name).1 is None ==> stem_and_extension(name).0 == name && (name == seq!['.', '.']
            || forall|j: int| 0 < j < name.len() ==> #[trigger] name[j] != '.'),
{
    lemma_last_dot_is_last(name);
    if let Some(e) = stem_and_extension(name).1 {
        let k = last_dot(name)->0;
        assert(stem_and_extension(name).0 + seq!['.'] + e =~= name);
        assert forall|i: int| 0 <= i < e.len() implies #[trigger] e[i] != '.' by {
            assert(e[i] == name[k + 1 + i]);
        }
    }
}

/// Splits a file name into stem and extension as `std::path` does.
pub fn split_file_name(name: &str) -> (parts: (String, Option<String>))
    ensures
        (parts.0@, crate::scene::string_opt_view(parts.1)) == stem_and_extension(name@),
{
    let chars = chars_of(name);
    let n = chars.len();
    if n == 2 && chars[0] == '.' && chars[1] == '.' {
        assert(name@ =~= seq!['.', '.']);
        return (string_from_chars(&chars), None);
    }
    let mut k = n;
    while k > 0 && chars[k - 1] != '.'
        invariant
            k <= n == chars@.len(),
            forall|j: int| k <= j < n ==> chars@[j] != '.',
        decreases k,
    {
        k -= 1;
    }
    proof {
        lemma_last_dot(chars@, k - 1);
        if n == 2 && chars@[0] == '.' && chars@[1] == '.' {
        } else {
            assert(name@ != seq!['.', '.']) by {
                if name@ == seq!['.', '.'] {
                    assert(chars@[0] == '.' && chars@[1] == '.');
                }
            }
        }
    }
    if k <= 1 {
        (string_from_chars(&chars), None)
    } else {
        (string_from_range(&chars, 0, k - 1), Some(string_from_range(&chars, k, n)))
    }
}

} // verus!

verus! {

/// The screen a file name stands for: the stem of a ".yaml" file (extension
/// compared without regard to ASCII case).
pub open spec fn profile_stem(file_name: Seq<char>) -> Option<Seq<char>> {
    let (stem, extension) = stem_and_extension(file_name);
    match extension {
        Some(e) => if crate::text::eq_ignore_ascii_case(e, seq!['y', 'a', 'm', 'l']) {
            Some(stem)
        } else {
            None
        },
        None => None,
    }
}

/// A file stands for a saved screen exactly when its name is a non-empty
/// stem, a dot and an extension without dots that reads "yaml" in any ASCII
/// case; the screen is the stem.
pub proof fn law_yaml_files_are_screens(file_name: Seq<char>, stem: Seq<char>, extension: Seq<char>)
    requires
        file_name == stem + seq!['.'] + extension,
        stem.len() > 0,
        forall|i: int| 0 <= i < extension.len() ==> #[trigger] extension[i] != '.',
    ensures
        profile_stem(file_name) == (if crate::text::ascii_lowercase(extension) == seq!['y', 'a', 'm', 'l'] {
            Some(stem)
        } else {
            None::<Seq<char>>
        }),
{
    let k = stem.len() as int;
    assert(file_name[k] == '.');
    assert forall|j: int| k < j < file_name.len() implies file_name[j] != '.' by {
        assert(file_name[j] == extension[j - k - 1]);
    }
    lemma_last_dot(file_name, k);
    if file_name == seq!['.', '.'] {
        assert(file_name.len() == 2);
        assert(extension.len() == 0);
        assert(crate::text::ascii_lowercase(extension).len() == 0);
    }
    assert(file_name.subrange(0, k) =~= stem);
    assert(file_name.subrange(k + 1, file_name.len() as int) =~= extension);
    assert(crate::text::ascii_lowercase(seq!['y', 'a', 'm', 'l']) =~= seq!['y', 'a', 'm', 'l']);
}

/// The screens among a directory's file names, in directory order.
pub open spec fn profile_stems(file_names: Seq<Seq<char>>) -> Seq<Seq<char>>
    decreases file_names.len(),
{
    if file_names.len() == 0 {
        Seq::empty()
    } else {
        let rest = profile_stems(file_names.drop_last());
        match profile_stem(file_names.last()) {
            Some(s) => rest.push(s),
            None => rest,
        }
    }
}

} // verus!

verus! {

/// The saved screens among a directory's file names: the stems of the
/// ".yaml" files, sorted case-insensitively (by lower-cased name, equal names
/// keeping directory order).
pub fn list_profile_names(file_names: &Vec<String>) -> (names: Vec<String>)
    ensures
        crate::sorting::stably_sorted(
            profile_stems(crate::sorting::texts(file_names@)),
            crate::sorting::lowercase_keys(profile_stems(crate::sorting::texts(file_names@))),
            crate::sorting::texts(names@),
        ),
{
    let ghost all = crate::sorting::texts(file_names@);
    let mut stems: Vec<String> = Vec::new();
    let mut i: usize = 0;
    while i < file_names.len()
        invariant
            all == crate::sorting::texts(file_names@),
            i <= file_names.len(),
            crate::sorting::texts(stems@) == profile_stems(all.take(i as int)),
        decreases file_names.len() - i,
    {
        let (stem, extension) = split_file_name(file_names[i].as_str());
        proof {
            assert(all.take(i + 1).drop_last() =~= all.take(i as int));
            assert(all.take(i + 1).last() == file_names@[i as int]@);
            reveal_strlit("yaml");
        }
        let ghost name = file_names@[i as int]@;
        assert(profile_stems(all.take(i + 1)) == {
            let rest = profile_stems(all.take(i as int));
            match profile_stem(name) {
                Some(s) => rest.push(s),
                None => rest,
            }
        });
        match extension {
            Some(e) => {
                assert("yaml"@ =~= seq!['y', 'a', 'm', 'l']);
                if str_eq_ignore_ascii_case(e.as_str(), "yaml") {
                    assert(profile_stem(name) == Some(stem@));
                    let ghost before = stems@;
                    stems.push(stem);
                    assert(crate::sorting::texts(stems@) =~= crate::sorting::texts(before).push(stems@.last()@));
                } else {
                    assert(profile_stem(name) is None);
                }
            },
            None => {
                assert(profile_stem(name) is None);
            },
        }
        i += 1;
    }
    assert(all.take(file_names.len() as int) =~= all);
    crate::sorting::sort_by_lowercase(stems)
}

} // verus!
