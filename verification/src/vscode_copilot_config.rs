//! Which VS Code Copilot providers are enabled, and where that list is kept.
//!
//! The application reads and writes the file; here are its location, its
//! parsing and the changes to the list.

use vstd::prelude::*;

use crate::json::{
    json_get, json_text_string_list, json_text_value, parse_json, parse_json_string_list,
    JsonValue,
};
use crate::paths::{join_path, joined_path};
use crate::text::{owned, str_eq, trim, trimmed};

verus! {

/// File that holds the enabled provider ids.
pub const ENABLED_PROVIDERS_FILE: &'static str = "enabled-providers.json";

/// The views of a list of strings.
pub open spec fn string_views(v: Seq<String>) -> Seq<Seq<char>> {
    v.map_values(|s: String| s@)
}

/// The directory of the VS Code Copilot settings: the configured override,
/// else `~/.cc-switch/vscode-copilot`.
pub open spec fn spec_copilot_dir(override_dir: Option<Seq<char>>, home_dir: Seq<char>) -> Seq<char> {
    match override_dir {
        Some(d) => d,
        None => joined_path(joined_path(home_dir, ".cc-switch"@), "vscode-copilot"@),
    }
}

/// The directory of the VS Code Copilot settings, given the override that the
/// settings name (if any) and the home directory.
pub fn get_vscode_copilot_dir(override_dir: Option<String>, home_dir: &str) -> (r: String)
    ensures
        r@ == spec_copilot_dir(
            match override_dir {
                Some(d) => Some(d@),
                None => None,
            },
            home_dir@,
        ),
{
    if let Some(dir) = override_dir {
        return dir;
    }
    let base = join_path(home_dir, ".cc-switch");
    join_path(base.as_str(), "vscode-copilot")
}

/// The path of the file of enabled provider ids.
pub fn get_enabled_providers_path(override_dir: Option<String>, home_dir: &str) -> (r: String)
    ensures
        r@ == joined_path(
            spec_copilot_dir(
                match override_dir {
                    Some(d) => Some(d@),
                    None => None,
                },
                home_dir@,
            ),
            ENABLED_PROVIDERS_FILE@,
        ),
{
    let dir = get_vscode_copilot_dir(override_dir, home_dir);
    join_path(dir.as_str(), ENABLED_PROVIDERS_FILE)
}

/// The ids kept from a JSON array: its strings, trimmed, without empty ones.
pub open spec fn kept_ids(items: Seq<JsonValue>) -> Seq<Seq<char>>
    decreases items.len(),
{
    if items.len() == 0 {
        Seq::empty()
    } else {
        let rest = kept_ids(items.drop_last());
        match items.last() {
            JsonValue::String(s) => if trimmed(s@).len() > 0 {
                rest.push(trimmed(s@))
            } else {
                rest
            },
            _ => rest,
        }
    }
}

/// The ids that an object of the form `{"enabledProviderIds": [...]}` lists;
/// none for anything else.
pub open spec fn enabled_ids_of(v: JsonValue) -> Seq<Seq<char>> {
    match json_get(v, "enabledProviderIds"@) {
        Some(JsonValue::Array(items)) => kept_ids(items@),
        _ => Seq::empty(),
    }
}

/// The ids listed under `enabledProviderIds`: the string items, trimmed, the
/// empty ones dropped.
pub fn parse_enabled_ids(value: &JsonValue) -> (r: Vec<String>)
    ensures
        string_views(r@) == enabled_ids_of(*value),
{
    let mut out: Vec<String> = Vec::new();
    match value.get("enabledProviderIds") {
        Some(JsonValue::Array(items)) => {
            let mut i: usize = 0;
            while i < items.len()
                invariant
                    i <= items@.len(),
                    string_views(out@) == kept_ids(items@.take(i as int)),
                decreases items.len() - i,
            {
                assert(items@.take(i + 1).drop_last() =~= items@.take(i as int));
                match &items[i] {
                    JsonValue::String(s) => {
                        let t = trim(s.as_str());
                        if !t.is_empty() {
                            let ghost before = out@;
                            out.push(owned(t));
                            assert(string_views(out@) =~= string_views(before).push(trimmed(s@)));
                        }
                    },
                    _ => {},
                }
                i = i + 1;
            }
            assert(items@.take(items@.len() as int) =~= items@);
        },
        _ => {
            assert(string_views(out@) =~= Seq::<Seq<char>>::empty());
        },
    }
    out
}

/// What the text of the file gives: a JSON array of strings as it is, else the
/// ids of an `enabledProviderIds` object; `None` when the text is not JSON.
pub open spec fn spec_enabled_ids_from_text(content: Seq<char>) -> Option<Seq<Seq<char>>> {
    match json_text_string_list(content) {
        Some(l) => Some(l),
        None => match json_text_value(content) {
            Some(v) => Some(enabled_ids_of(v)),
            None => None,
        },
    }
}

/// Reads the enabled ids from the text of the file: a JSON array of strings,
/// or an object with an `enabledProviderIds` array. The error is the JSON
/// parser's message.
pub fn parse_enabled_provider_ids(content: &str) -> (r: Result<Vec<String>, String>)
    ensures
        match spec_enabled_ids_from_text(content@) {
            Some(l) => r matches Ok(v) && string_views(v@) == l,
            None => r is Err,
        },
{
    if let Some(list) = parse_json_string_list(content) {
        return Ok(list);
    }
    match parse_json(content) {
        Ok(value) => Ok(parse_enabled_ids(&value)),
        Err(e) => Err(e),
    }
}

/// The list after `id` has been enabled: unchanged when it already holds `id`,
/// else `id` appended at the end.
pub open spec fn spec_added_ids(ids: Seq<Seq<char>>, id: Seq<char>) -> Seq<Seq<char>> {
    if ids.contains(id) {
        ids
    } else {
        ids.push(id)
    }
}

/// The list after `id` has been disabled: every occurrence removed.
pub open spec fn spec_removed_ids(ids: Seq<Seq<char>>, id: Seq<char>) -> Seq<Seq<char>>
    decreases ids.len(),
{
    if ids.len() == 0 {
        ids
    } else if ids.last() == id {
        spec_removed_ids(ids.drop_last(), id)
    } else {
        spec_removed_ids(ids.drop_last(), id).push(ids.last())
    }
}

/// The list that was read (`None` when there was no file), or the empty list.
pub open spec fn ids_or_empty(ids: Option<Vec<String>>) -> Seq<Seq<char>> {
    match ids {
        Some(v) => string_views(v@),
        None => Seq::empty(),
    }
}

/// Enables `id` in the list read from the file (`None` when there was no
/// file): it is appended unless already present. The result is to be written.
pub fn add_enabled_provider_id(ids: Option<Vec<String>>, id: &str) -> (r: Vec<String>)
    ensures
        string_views(r@) == spec_added_ids(ids_or_empty(ids), id@),
{
    let mut ids = match ids {
        Some(v) => v,
        None => Vec::new(),
    };
    let ghost start = string_views(ids@);
    let mut found = false;
    let mut i: usize = 0;
    while i < ids.len()
        invariant
            0 <= i <= ids.len(),
            start == string_views(ids@),
            found <==> exists|j: int| 0 <= j < i && ids@[j]@ == id@,
        decreases ids.len() - i,
    {
        if str_eq(ids[i].as_str(), id) {
            found = true;
        }
        i = i + 1;
    }
    if !found {
        ids.push(owned(id));
        proof {
            assert(!start.contains(id@));
        }
        assert(string_views(ids@) =~= start.push(id@));
    } else {
        let ghost j = choose|j: int| 0 <= j < i && ids@[j]@ == id@;
        assert(start[j] == id@);
    }
    ids
}

/// Disables `id` in the list read from the file: every occurrence is removed.
/// Without a file there is nothing to change (`None`: nothing is written).
pub fn remove_enabled_provider_id(ids: Option<Vec<String>>, id: &str) -> (r: Option<Vec<String>>)
    ensures
        match ids {
            Some(v) => r matches Some(w) && string_views(w@) == spec_removed_ids(string_views(v@), id@),
            None => r is None,
        },
{
    let existing = match ids {
        Some(v) => v,
        None => {
            return None;
        },
    };
    let ghost es = string_views(existing@);
    let ghost n = es.len();
    let mut rest = existing;
    let mut kept: Vec<String> = Vec::new();
    while rest.len() > 0
        invariant
            rest@.len() <= n,
            n == es.len(),
            forall|k: int| #![auto] 0 <= k < rest@.len() ==> rest@[k]@ == es[n - rest@.len() + k],
            string_views(kept@) == spec_removed_ids(es.take(n - rest@.len()), id@),
        decreases rest.len(),
    {
        let ghost before = n - rest@.len();
        let item = rest.remove(0);
        assert(es.take(before + 1).drop_last() =~= es.take(before));
        assert(es.take(before + 1).last() == item@);
        if !str_eq(item.as_str(), id) {
            let ghost prev = string_views(kept@);
            kept.push(item);
            assert(string_views(kept@) =~= prev.push(es[before]));
        }
    }
    assert(es.take(n as int) =~= es);
    Some(kept)
}

/// Enabling an id makes it present, keeps every id that was there, in order,
/// and enabling it again changes nothing.
pub proof fn law_add_enabled_id(ids: Seq<Seq<char>>, id: Seq<char>)
    ensures
        spec_added_ids(ids, id).contains(id),
        spec_added_ids(ids, id).take(ids.len() as int) == ids,
        spec_added_ids(spec_added_ids(ids, id), id) == spec_added_ids(ids, id),
{
    if !ids.contains(id) {
        assert(ids.push(id)[ids.len() as int] == id);
        assert(ids.push(id).take(ids.len() as int) =~= ids);
    } else {
        assert(ids.take(ids.len() as int) =~= ids);
    }
}

proof fn lemma_removed_ids(ids: Seq<Seq<char>>, id: Seq<char>)
    ensures
        !spec_removed_ids(ids, id).contains(id),
        forall|x: Seq<char>| x != id && ids.contains(x) ==> spec_removed_ids(ids, id).contains(x),
        forall|x: Seq<char>| spec_removed_ids(ids, id).contains(x) ==> ids.contains(x),
        spec_removed_ids(spec_removed_ids(ids, id), id) == spec_removed_ids(ids, id),
    decreases ids.len(),
{
    if ids.len() > 0 {
        let init = ids.drop_last();
        let x = ids.last();
        lemma_removed_ids(init, id);
        assert(ids =~= init.push(x));
        let r = spec_removed_ids(init, id);
        assert forall|y: Seq<char>| y != id && ids.contains(y) implies spec_removed_ids(ids, id).contains(y) by {
            crate::keyed::lemma_contains_push(init, x, y);
            if x != id {
                crate::keyed::lemma_contains_push(r, x, y);
            }
        }
        assert forall|y: Seq<char>| spec_removed_ids(ids, id).contains(y) implies ids.contains(y) by {
            crate::keyed::lemma_contains_push(init, x, y);
            if x != id {
                crate::keyed::lemma_contains_push(r, x, y);
            }
        }
        if x != id {
            crate::keyed::lemma_contains_push(r, x, id);
            assert(r.push(x).drop_last() =~= r);
        }
    } else {
        assert forall|y: Seq<char>| !spec_removed_ids(ids, id).contains(y) by {}
    }
}

/// Disabling an id removes every occurrence of it and nothing else; disabling
/// it twice is the same as once; and disabling an id right after enabling it
/// leaves the list as disabling alone would.
pub proof fn law_remove_enabled_id(ids: Seq<Seq<char>>, id: Seq<char>, other: Seq<char>)
    requires
        other != id,
    ensures
        !spec_removed_ids(ids, id).contains(id),
        spec_removed_ids(ids, id).contains(other) == ids.contains(other),
        spec_removed_ids(spec_removed_ids(ids, id), id) == spec_removed_ids(ids, id),
        spec_removed_ids(spec_added_ids(ids, id), id) == spec_removed_ids(ids, id),
{
    lemma_removed_ids(ids, id);
    if !ids.contains(id) {
        assert(ids.push(id).drop_last() =~= ids);
    }
}

} // verus!
