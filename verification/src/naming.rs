//! The names under which snapshots are kept.

use vstd::prelude::*;
use vstd::string::StringExecFns;

use crate::decimal::{decimal, number_of, parse_u32, push_decimal};
use crate::pattern::{captures, groups_view, regex_captures, regex_replace, replace_first, text_view};
use crate::storage::Error;
use crate::text::chars_of;

verus! {

/// A text without its steps to the parent directory: every `../`, found from
/// the left and without overlap, is taken out.
pub open spec fn without_parent_steps(text: Seq<char>) -> Seq<char>
    decreases text.len(),
{
    if text.len() == 0 {
        text
    } else if text.len() >= 3 && text[0] == '.' && text[1] == '.' && text[2] == '/' {
        without_parent_steps(text.skip(3))
    } else {
        seq![text[0]] + without_parent_steps(text.skip(1))
    }
}

/// Takes the steps to the parent directory out of a file name.
pub fn sanitize(filename: &str) -> (sanitized: String)
    ensures
        sanitized@ == without_parent_steps(filename@),
{
    let chars = chars_of(filename);
    let mut sanitized = String::new();
    let mut i: usize = 0;
    assert(chars@.skip(0) =~= chars@);
    while i < chars.len()
        invariant
            i <= chars.len(),
            chars@ == filename@,
            sanitized@ + without_parent_steps(chars@.skip(i as int)) == without_parent_steps(
                chars@,
            ),
        decreases chars.len() - i,
    {
        let ghost rest = chars@.skip(i as int);
        assert(rest[0] == chars@[i as int]);
        if chars.len() - i >= 3 && chars[i] == '.' && chars[i + 1] == '.' && chars[i + 2] == '/' {
            assert(rest[1] == chars@[i as int + 1] && rest[2] == chars@[i as int + 2]);
            assert(rest.skip(3) =~= chars@.skip(i as int + 3));
            i += 3;
        } else {
            proof {
                if rest.len() >= 3 {
                    assert(rest[1] == chars@[i as int + 1] && rest[2] == chars@[i as int + 2]);
                }
                assert(rest.skip(1) =~= chars@.skip(i as int + 1));
                assert(sanitized@.push(chars@[i as int]) + without_parent_steps(rest.skip(1))
                    =~= sanitized@ + (seq![rest[0]] + without_parent_steps(rest.skip(1))));
            }
            sanitized.push(chars[i]);
            i += 1;
        }
    }
    assert(without_parent_steps(chars@.skip(i as int)) =~= Seq::<char>::empty());
    assert(sanitized@ + Seq::<char>::empty() =~= sanitized@);
    sanitized
}

/// Where the snapshot called `name` is kept, below the data directory.
pub open spec fn location_of(name: Seq<char>) -> Seq<char> {
    "data/lang/"@ + name + ".lg.json"@
}

/// Where the snapshot called `sanitized` is kept, below the data directory.
pub fn location(sanitized: &str) -> (place: String)
    ensures
        place@ == location_of(sanitized@),
{
    String::from_str("data/lang/").concat(sanitized).concat(".lg.json")
}

/// Where a snapshot is saved under `filename`. A name of which nothing is
/// left once it is sanitized is refused.
pub fn save_location(filename: &str) -> (place: Result<String, Error>)
    ensures
        match place {
            Ok(text) => without_parent_steps(filename@).len() > 0 && text@ == location_of(
                without_parent_steps(filename@),
            ),
            Err(Error::EmptyName) => without_parent_steps(filename@).len() == 0,
            Err(_) => false,
        },
{
    let sanitized = sanitize(filename);
    if sanitized.as_str().is_empty() {
        return Err(Error::EmptyName);
    }
    Ok(location(sanitized.as_str()))
}

/// Where the snapshot to load or to delete under `filename` is kept.
pub fn load_location(filename: &str) -> (place: String)
    ensures
        place@ == location_of(without_parent_steps(filename@)),
{
    let sanitized = sanitize(filename);
    location(sanitized.as_str())
}

/// Where the snapshot to merge under `filename` is kept. A blank name is
/// refused.
pub fn merge_location(filename: &str) -> (place: Result<String, Error>)
    ensures
        match place {
            Ok(text) => filename@.len() > 0 && text@ == location_of(
                without_parent_steps(filename@),
            ),
            Err(Error::MergeEmpty) => filename@.len() == 0,
            Err(_) => false,
        },
{
    if filename.is_empty() {
        return Err(Error::MergeEmpty);
    }
    Ok(load_location(filename))
}

/// The name under which a project is saved by itself: its own name, or for
/// a nameless project `autosave_` and the time stamp of the program's start.
pub fn autosave_name(project_name: &str, started: &str) -> (name: String)
    ensures
        name@ == if project_name@.len() == 0 {
            "autosave_"@ + started@
        } else {
            project_name@
        },
{
    if project_name.is_empty() {
        String::from_str("autosave_").concat(started)
    } else {
        String::from_str(project_name)
    }
}

/// The name of a snapshot, given the stem of its file and what became of the
/// stem when its ending `.lg` was replaced by nothing: the latter, or the
/// stem itself where there is none.
pub fn stem_name(stem: &str, replaced: Option<String>) -> (name: String)
    ensures
        name@ == match text_view(replaced) {
            Some(text) => text,
            None => stem@,
        },
{
    match replaced {
        Some(text) => text,
        None => String::from_str(stem),
    }
}

/// The name of the snapshot that is kept in a file with the stem `stem`: the
/// stem without its ending `.lg`.
pub fn language_group_name(stem: &str) -> (name: String)
    ensures
        name@ == match regex_replace("\\.lg$"@, stem@, ""@) {
            Some(text) => text,
            None => stem@,
        },
{
    stem_name(stem, replace_first("\\.lg$", stem, ""))
}

/// The name that a project bears after an epoch, given its name and what
/// the search for a counter at its end found. Without a match the name gets
/// the ending `_epoch`. With one, the name is what stood before the counter
/// and the counter advanced by one. Nothing where a match does not hold a
/// counter that can be advanced.
pub open spec fn next_name(name: Seq<char>, groups: Option<Seq<Option<Seq<char>>>>) -> Option<
    Seq<char>,
> {
    match groups {
        None => Some(name + "_epoch"@),
        Some(list) => if list.len() == 3 && list[1] is Some && list[2] is Some {
            match number_of(list[2]->Some_0) {
                Some(n) => if n < u32::MAX {
                    Some(list[1]->Some_0 + decimal(n + 1))
                } else {
                    None
                },
                None => None,
            }
        } else {
            None
        },
    }
}

/// The name that a project bears after an epoch, given its name and what
/// the search for a counter at its end found.
pub fn next_epoch_name(name: &str, groups: &Option<Vec<Option<String>>>) -> (next: Option<String>)
    ensures
        text_view(next) == next_name(name@, groups_view(*groups)),
{
    match groups {
        None => Some(String::from_str(name).concat("_epoch")),
        Some(list) => {
            if list.len() != 3 {
                return None;
            }
            match (&list[1], &list[2]) {
                (Some(head), Some(counter)) => {
                    match parse_u32(counter.as_str()) {
                        Some(n) => {
                            if n < u32::MAX {
                                let mut next = head.clone();
                                push_decimal(&mut next, n as u64 + 1);
                                Some(next)
                            } else {
                                None
                            }
                        },
                        None => None,
                    }
                },
                _ => None,
            }
        },
    }
}

/// The name that a project called `name` bears after an epoch: a counter at
/// the end of the name is advanced, and a name without one gets the ending
/// `_epoch`. Where the counter cannot be advanced the name stays.
pub fn epoch_name(name: &str) -> (next: String)
    ensures
        next@ == match next_name(name@, regex_captures("(.*)([0-9]+)$"@, name@)) {
            Some(text) => text,
            None => name@,
        },
{
    let groups = captures("(.*)([0-9]+)$", name);
    match next_epoch_name(name, &groups) {
        Some(next) => next,
        None => String::from_str(name),
    }
}

} // verus!
