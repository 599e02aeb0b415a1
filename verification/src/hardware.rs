//! Finding the LibreHardwareMonitor library that supplies temperatures, fan
//! speeds and GPU readings.
use vstd::prelude::*;
use crate::text::chars_of;

verus! {

/// Where the library is looked for when no configured path exists: the
/// LibreHardwareMonitor and FanControl installations, 64-bit first.
pub open spec fn standard_locations() -> Seq<Seq<char>> {
    seq![
        "C:\\Program Files\\LibreHardwareMonitor\\LibreHardwareMonitorLib.dll"@,
        "C:\\Program Files (x86)\\LibreHardwareMonitor\\LibreHardwareMonitorLib.dll"@,
        "C:\\Program Files\\FanControl\\LibreHardwareMonitorLib.dll"@,
        "C:\\Program Files (x86)\\FanControl\\LibreHardwareMonitorLib.dll"@,
    ]
}

/// The places to look, in order: the configured path (if any), then the
/// standard locations.
pub open spec fn search_paths_of(configured: Option<Seq<char>>) -> Seq<Seq<char>> {
    match configured {
        Some(c) => seq![c] + standard_locations(),
        None => standard_locations(),
    }
}

/// The places to look for the library, in order.
pub fn lhm_search_paths(configured: Option<&str>) -> (paths: Vec<String>)
    ensures
        crate::sorting::texts(paths@) == search_paths_of(
            match configured {
                Some(c) => Some(c@),
                None => None,
            },
        ),
{
    let mut paths: Vec<String> = Vec::new();
    if let Some(c) = configured {
        paths.push(String::from_str(c));
    }
    paths.push(String::from_str("C:\\Program Files\\LibreHardwareMonitor\\LibreHardwareMonitorLib.dll"));
    paths.push(String::from_str("C:\\Program Files (x86)\\LibreHardwareMonitor\\LibreHardwareMonitorLib.dll"));
    paths.push(String::from_str("C:\\Program Files\\FanControl\\LibreHardwareMonitorLib.dll"));
    paths.push(String::from_str("C:\\Program Files (x86)\\FanControl\\LibreHardwareMonitorLib.dll"));
    assert(crate::sorting::texts(paths@) =~= search_paths_of(
        match configured {
            Some(c) => Some(c@),
            None => None,
        },
    ));
    paths
}

/// Position of the first place marked as existing.
pub open spec fn first_existing(exists: Seq<bool>) -> Option<int>
    decreases exists.len(),
{
    if exists.len() == 0 {
        None
    } else if exists[0] {
        Some(0)
    } else {
        match first_existing(exists.drop_first()) {
            Some(i) => Some(i + 1),
            None => None,
        }
    }
}

proof fn lemma_first_existing(exists: Seq<bool>, k: int)
    requires
        0 <= k <= exists.len(),
        forall|j: int| 0 <= j < k ==> !exists[j],
        k < exists.len() ==> exists[k],
    ensures
        first_existing(exists) == (if k < exists.len() { Some(k) } else { None::<int> }),
    decreases k,
{
    if k > 0 {
        assert forall|j: int| 0 <= j < k - 1 implies !exists.drop_first()[j] by {
            assert(exists.drop_first()[j] == exists[j + 1]);
        }
        lemma_first_existing(exists.drop_first(), k - 1);
    }
}

/// The place chosen is the first that exists: it exists and no place before
/// it does; when none is chosen, none exists.
pub proof fn law_first_existing_place_is_chosen(exists: Seq<bool>)
    ensures
        first_existing(exists) matches Some(i) ==> 0 <= i < exists.len() && exists[i] && forall|j: int|
            0 <= j < i ==> !#[trigger] exists[j],
        first_existing(exists) is None ==> forall|j: int| 0 <= j < exists.len() ==> !#[trigger] exists[j],
    decreases exists.len(),
{
    if exists.len() > 0 {
        let rest = exists.drop_first();
        law_first_existing_place_is_chosen(rest);
        assert forall|j: int| 0 < j < exists.len() implies exists[j] == rest[j - 1] by {}
        if !exists[0] {
            if let Some(i) = first_existing(rest) {
                assert forall|j: int| 0 <= j < i + 1 implies !#[trigger] exists[j] by {
                    if j > 0 {
                        assert(rest[j - 1] == exists[j]);
                    }
                }
            } else {
                assert forall|j: int| 0 <= j < exists.len() implies !#[trigger] exists[j] by {
                    if j > 0 {
                        assert(rest[j - 1] == exists[j]);
                    }
                }
            }
        }
    }
}

/// The configured path, when there is one, is looked at before the standard
/// locations, which keep their order after it.
pub proof fn law_configured_path_is_tried_first(configured: Seq<char>)
    ensures
        search_paths_of(Some(configured))[0] == configured,
        search_paths_of(Some(configured)).drop_first() == standard_locations(),
        search_paths_of(None) == standard_locations(),
{
    assert(search_paths_of(Some(configured)).drop_first() =~= standard_locations());
}

/// The library to load: the first of the search paths that exists
/// (`exists[i]` tells whether `paths[i]` is there).
pub fn resolve_lhm_path(paths: &Vec<String>, exists: &Vec<bool>) -> (found: Option<String>)
    requires
        exists@.len() == paths@.len(),
    ensures
        match first_existing(exists@) {
            Some(i) => found matches Some(p) && p@ == paths@[i]@,
            None => found is None,
        },
{
    let mut i: usize = 0;
    while i < exists.len()
        invariant
            i <= exists.len(),
            exists@.len() == paths@.len(),
            forall|j: int| 0 <= j < i ==> !exists@[j],
        decreases exists.len() - i,
    {
        if exists[i] {
            proof {
                lemma_first_existing(exists@, i as int);
            }
            return Some(paths[i].clone());
        }
        i += 1;
    }
    proof {
        lemma_first_existing(exists@, i as int);
    }
    None
}

} // verus!

verus! {

/// A line without the '\r' of a "\r\n" ending.
pub open spec fn strip_cr(line: Seq<char>) -> Seq<char> {
    if line.len() > 0 && line.last() == '\r' {
        line.drop_last()
    } else {
        line
    }
}

/// The lines of a text as `str::lines` yields them: split at each '\n', the
/// '\r' of a "\r\n" ending removed, no empty last line after a final '\n'.
pub open spec fn lines_of(text: Seq<char>) -> Seq<Seq<char>>
    decreases text.len(),
{
    if text.len() == 0 {
        Seq::empty()
    } else {
        match crate::text::first_index_of(text, '\n') {
            Some(i) => if 0 <= i < text.len() {
                seq![strip_cr(text.subrange(0, i))] + lines_of(text.subrange(i + 1, text.len() as int))
            } else {
                Seq::empty()
            },
            None => seq![text],
        }
    }
}

/// Whether a line holds a JSON object: after leading white space it opens
/// with '{'.
pub open spec fn opens_object(line: Seq<char>) -> bool {
    let t = crate::text::trim_start(line);
    t.len() > 0 && t[0] == '{'
}

/// Position of the last line that holds a JSON object.
pub open spec fn last_object_line(lines: Seq<Seq<char>>) -> Option<int>
    decreases lines.len(),
{
    if lines.len() == 0 {
        None
    } else if opens_object(lines.last()) {
        Some(lines.len() - 1)
    } else {
        last_object_line(lines.drop_last())
    }
}

/// The line chosen is the last that holds a JSON object: later lines hold
/// none; when none is chosen, no line holds one.
pub proof fn law_last_object_line_is_chosen(lines: Seq<Seq<char>>)
    ensures
        last_object_line(lines) matches Some(i) ==> 0 <= i < lines.len() && opens_object(lines[i]) && forall|j: int|
            i < j < lines.len() ==> !opens_object(#[trigger] lines[j]),
        last_object_line(lines) is None ==> forall|j: int| 0 <= j < lines.len() ==> !opens_object(#[trigger] lines[j]),
    decreases lines.len(),
{
    if lines.len() > 0 {
        let earlier = lines.drop_last();
        law_last_object_line_is_chosen(earlier);
        assert forall|j: int| 0 <= j < earlier.len() implies lines[j] == earlier[j] by {}
    }
}

proof fn lemma_first_newline(s: Seq<char>, k: int)
    requires
        0 <= k <= s.len(),
        forall|j: int| 0 <= j < k ==> s[j] != '\n',
        k < s.len() ==> s[k] == '\n',
    ensures
        crate::text::first_index_of(s, '\n') == (if k < s.len() { Some(k) } else { None::<int> }),
    decreases k,
{
    if k > 0 {
        assert forall|j: int| 0 <= j < k - 1 implies s.drop_first()[j] != '\n' by {
            assert(s.drop_first()[j] == s[j + 1]);
        }
        lemma_first_newline(s.drop_first(), k - 1);
    }
}

/// The lines of a text (`str::lines`).
pub fn split_lines(text: &str) -> (lines: Vec<String>)
    ensures
        crate::sorting::texts(lines@) == lines_of(text@),
{
    let chars = chars_of(text);
    let n = chars.len();
    let mut lines: Vec<String> = Vec::new();
    let mut start: usize = 0;
    assert(chars@.subrange(0, n as int) =~= text@);
    assert(crate::sorting::texts(lines@) + lines_of(text@) =~= lines_of(text@));
    while start < n
        invariant
            chars@ == text@,
            n == chars.len(),
            start <= n,
            crate::sorting::texts(lines@) + lines_of(chars@.subrange(start as int, n as int)) == lines_of(text@),
        decreases n - start,
    {
        let ghost rest = chars@.subrange(start as int, n as int);
        let mut end = start;
        while end < n && chars[end] != '\n'
            invariant
                start <= end <= n == chars.len(),
                forall|j: int| start <= j < end ==> chars@[j] != '\n',
            decreases n - end,
        {
            end += 1;
        }
        proof {
            assert forall|j: int| 0 <= j < end - start implies rest[j] != '\n' by {
                assert(rest[j] == chars@[start + j]);
            }
            if end < n {
                assert(rest[end - start] == chars@[end as int]);
            }
            lemma_first_newline(rest, end - start);
        }
        let stop = if end < n && end > start && chars[end - 1] == '\r' { end - 1 } else { end };
        let line = crate::text::string_from_range(&chars, start, stop);
        let ghost before = lines@;
        proof {
            let piece = rest.subrange(0, end - start);
            assert(piece == chars@.subrange(start as int, end as int));
            if end > start {
                assert(piece.last() == chars@[end - 1]);
                assert(piece.drop_last() == chars@.subrange(start as int, end - 1));
            }
            if end < n {
                assert(strip_cr(piece) == line@);
            } else {
                assert(piece == line@);
            }
        }
        lines.push(line);
        assert(crate::sorting::texts(lines@) == crate::sorting::texts(before).push(line@));
        if end < n {
            proof {
                assert(rest.subrange(end - start + 1, rest.len() as int) == chars@.subrange(end + 1, n as int));
                assert(lines_of(rest) == seq![line@] + lines_of(chars@.subrange(end + 1, n as int)));
                assert(crate::sorting::texts(before) + seq![line@] + lines_of(chars@.subrange(end + 1, n as int))
                    == crate::sorting::texts(lines@) + lines_of(chars@.subrange(end + 1, n as int)));
            }
            start = end + 1;
        } else {
            proof {
                assert(lines_of(rest) == seq![line@]);
                assert(chars@.subrange(n as int, n as int).len() == 0);
                assert(crate::sorting::texts(before) + seq![line@] == crate::sorting::texts(lines@));
                assert(lines_of(chars@.subrange(n as int, n as int)) == Seq::<Seq<char>>::empty());
                assert(crate::sorting::texts(lines@) + Seq::<Seq<char>>::empty() == crate::sorting::texts(lines@));
            }
            start = n;
        }
    }
    proof {
        assert(chars@.subrange(n as int, n as int).len() == 0);
        assert(crate::sorting::texts(lines@) + Seq::<Seq<char>>::empty() == crate::sorting::texts(lines@));
    }
    lines
}

} // verus!

verus! {

proof fn lemma_last_object_line(lines: Seq<Seq<char>>, k: int)
    requires
        0 <= k <= lines.len(),
        forall|j: int| k <= j < lines.len() ==> !opens_object(#[trigger] lines[j]),
    ensures
        last_object_line(lines) == last_object_line(lines.subrange(0, k)),
    decreases lines.len() - k,
{
    if k < lines.len() {
        assert(lines.drop_last().subrange(0, k) == lines.subrange(0, k));
        lemma_last_object_line(lines.drop_last(), k);
    } else {
        assert(lines.subrange(0, k) == lines);
    }
}

/// The last line of the bridge's output that holds a JSON object (the
/// readings; earlier lines may be diagnostics).
pub fn last_json_line(output: &str) -> (line: Option<String>)
    ensures
        match last_object_line(lines_of(output@)) {
            Some(i) => line matches Some(l) && l@ == lines_of(output@)[i],
            None => line is None,
        },
{
    let lines = split_lines(output);
    let ghost all = lines_of(output@);
    let mut k = lines.len();
    while k > 0
        invariant
            crate::sorting::texts(lines@) == all,
            all == lines_of(output@),
            k <= lines.len(),
            forall|j: int| k <= j < lines@.len() ==> !opens_object(#[trigger] all[j]),
        decreases k,
    {
        let chars = chars_of(lines[k - 1].as_str());
        let mut start: usize = 0;
        while start < chars.len() && crate::text::char_is_whitespace(chars[start])
            invariant
                start <= chars.len(),
                forall|j: int| 0 <= j < start ==> crate::text::is_whitespace(#[trigger] chars@[j]),
            decreases chars.len() - start,
        {
            start += 1;
        }
        assert(all[k - 1] == lines@[k - 1]@);
        proof {
            crate::text::lemma_trim_start_skip(chars@, start as int);
            let rest = chars@.subrange(start as int, chars@.len() as int);
            if rest.len() > 0 {
                assert(rest[0] == chars@[start as int]);
            }
            assert(crate::text::trim_start(rest) == rest);
        }
        if start < chars.len() && chars[start] == '{' {
            proof {
                assert(chars@ == all[k - 1]);
                assert(opens_object(all[k - 1]));
                lemma_last_object_line(all, k as int);
                let sub = all.subrange(0, k as int);
                assert(sub.last() == all[k - 1]);
                assert(last_object_line(sub) == Some(k - 1));
            }
            return Some(lines[k - 1].clone());
        }
        k -= 1;
    }
    proof {
        lemma_last_object_line(all, 0);
    }
    None
}

} // verus!
