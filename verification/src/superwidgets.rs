//! Superwidgets: drawable components described by a manifest in their own
//! folder under the data directory.
use vstd::prelude::*;
use crate::persistence::{
    ends_in_plain_component, is_named_folder, is_plain_component, joined_path, parent_path, path_join,
};
use crate::sorting::{apply_order, stable_order};
use crate::text::{chars_of, str_equal, to_lowercase, unicode_lowercase};

verus! {

/// What a superwidget's `manifest.yaml` declares.
pub struct Manifest {
    pub id: String,
    pub name: String,
    pub description: String,
    pub template: String,
    pub runtime: String,
    pub entry: Option<String>,
    pub width: u32,
    pub height: u32,
    pub sensors: Vec<String>,
}

impl Manifest {
    /// Whether the component is a WebAssembly module rather than a built-in
    /// template.
    pub fn is_wasm(&self) -> (wasm: bool)
        ensures
            wasm == (self.runtime@ == "wasm"@),
    {
        str_equal(self.runtime.as_str(), "wasm")
    }

    /// The module file inside the component's folder: the declared entry, or
    /// "widget.wasm".
    pub fn entry_file(&self) -> (file: String)
        ensures
            file@ == match self.entry {
                Some(e) => e@,
                None => "widget.wasm"@,
            },
    {
        match &self.entry {
            Some(e) => e.clone(),
            None => String::from_str("widget.wasm"),
        }
    }
}

/// The folder that holds the superwidgets: in the data directory, beside
/// the configuration file (whose parent is the data directory too).
pub fn directory(data_dir: &str) -> (dir: String)
    ensures
        dir@ == joined_path(data_dir@, "superwidgets"@),
        ends_in_plain_component(dir@),
        is_named_folder(data_dir@) ==> parent_path(dir@) == Some(data_dir@),
{
    proof {
        reveal_strlit("superwidgets");
        assert("superwidgets"@.len() == 12);
        assert(is_plain_component("superwidgets"@));
    }
    path_join(data_dir, "superwidgets")
}

/// The folder of one superwidget.
pub fn component_dir(data_dir: &str, id: &str) -> (dir: String)
    ensures
        dir@ == joined_path(joined_path(data_dir@, "superwidgets"@), id@),
{
    let base = directory(data_dir);
    path_join(base.as_str(), id)
}

/// Position of the first manifest with the given id.
pub open spec fn first_with_id(manifests: Seq<Manifest>, id: Seq<char>) -> Option<int>
    decreases manifests.len(),
{
    if manifests.len() == 0 {
        None
    } else if manifests[0].id@ == id {
        Some(0)
    } else {
        match first_with_id(manifests.drop_first(), id) {
            Some(i) => Some(i + 1),
            None => None,
        }
    }
}

proof fn lemma_first_with_id(manifests: Seq<Manifest>, id: Seq<char>, k: int)
    requires
        0 <= k <= manifests.len(),
        forall|j: int| 0 <= j < k ==> (#[trigger] manifests[j]).id@ != id,
        k < manifests.len() ==> manifests[k].id@ == id,
    ensures
        first_with_id(manifests, id) == (if k < manifests.len() { Some(k) } else { None::<int> }),
    decreases k,
{
    if k > 0 {
        assert forall|j: int| 0 <= j < k - 1 implies (#[trigger] manifests.drop_first()[j]).id@ != id by {
            assert(manifests.drop_first()[j] == manifests[j + 1]);
        }
        lemma_first_with_id(manifests.drop_first(), id, k - 1);
    }
}

/// The manifest found for an id is the first one with that id; when none
/// is found, no manifest has it.
pub proof fn law_first_manifest_with_the_id_is_found(manifests: Seq<Manifest>, id: Seq<char>)
    ensures
        first_with_id(manifests, id) matches Some(i) ==> 0 <= i < manifests.len() && manifests[i].id@ == id
            && forall|j: int| 0 <= j < i ==> (#[trigger] manifests[j]).id@ != id,
        first_with_id(manifests, id) is None ==> forall|j: int|
            0 <= j < manifests.len() ==> (#[trigger] manifests[j]).id@ != id,
    decreases manifests.len(),
{
    if manifests.len() > 0 {
        let rest = manifests.drop_first();
        law_first_manifest_with_the_id_is_found(rest, id);
        assert forall|j: int| 0 < j < manifests.len() implies manifests[j] == rest[j - 1] by {}
        if manifests[0].id@ != id {
            assert forall|j: int|
                0 <= j < manifests.len() && (first_with_id(rest, id) matches Some(i) ==> j < i + 1) implies (
            #[trigger] manifests[j]).id@ != id by {
                if j > 0 {
                    assert(manifests[j] == rest[j - 1]);
                }
            }
        }
    }
}

/// The first manifest with the given id, taken out of the list.
pub fn find(manifests: Vec<Manifest>, id: &str) -> (found: Option<Manifest>)
    ensures
        match first_with_id(manifests@, id@) {
            Some(i) => found == Some(manifests@[i]),
            None => found is None,
        },
{
    let mut i: usize = 0;
    while i < manifests.len()
        invariant
            i <= manifests.len(),
            forall|j: int| 0 <= j < i ==> (#[trigger] manifests@[j]).id@ != id@,
        decreases manifests.len() - i,
    {
        if str_equal(manifests[i].id.as_str(), id) {
            proof {
                lemma_first_with_id(manifests@, id@, i as int);
            }
            let mut rest = manifests;
            return Some(rest.remove(i));
        }
        i += 1;
    }
    proof {
        lemma_first_with_id(manifests@, id@, i as int);
    }
    None
}

/// The lower-cased names by which manifests are listed.
pub open spec fn name_keys(manifests: Seq<Manifest>) -> Seq<Seq<char>> {
    manifests.map_values(|m: Manifest| unicode_lowercase(m.name@))
}

/// Lists manifests by name, case-insensitively; equal names keep their
/// order.
pub fn sort_manifests(manifests: Vec<Manifest>) -> (sorted: Vec<Manifest>)
    ensures
        crate::sorting::stably_sorted(manifests@, name_keys(manifests@), sorted@),
{
    let mut keys: Vec<Vec<char>> = Vec::new();
    let mut i: usize = 0;
    while i < manifests.len()
        invariant
            i <= manifests.len(),
            keys@.len() == i,
            forall|j: int| 0 <= j < i ==> (#[trigger] keys@[j])@ == unicode_lowercase(manifests@[j].name@),
        decreases manifests.len() - i,
    {
        let lowered = to_lowercase(manifests[i].name.as_str());
        keys.push(chars_of(lowered.as_str()));
        i += 1;
    }
    let ghost ks = name_keys(manifests@);
    assert(keys@.map_values(|k: Vec<char>| k@) =~= ks);
    let order = stable_order(&keys);
    proof {
        crate::sorting::lemma_stable_order_is_arrangement(ks, order@);
    }
    let sorted = apply_order(manifests, &order);
    assert(crate::sorting::is_stable_order(ks, order@));
    sorted
}

} // verus!
