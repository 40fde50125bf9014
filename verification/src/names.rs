//! File names that are proposed for exports and saved copies.

use crate::text;
use vstd::prelude::*;
use vstd::string::*;

verus! {

/// The last place of `wanted` in `text`.
pub open spec fn last_place(text: Seq<char>, wanted: char) -> Option<int>
    decreases text.len(),
{
    if text.len() == 0 {
        None
    } else if text.last() == wanted {
        Some(text.len() - 1)
    } else {
        last_place(text.drop_last(), wanted)
    }
}

/// A path without the slashes, and the names that stand for the directory itself, that it ends
/// with.
pub open spec fn without_trailing_parts(path: Seq<char>) -> Seq<char>
    decreases path.len(),
{
    if path.len() > 0 && path.last() == '/' {
        without_trailing_parts(path.drop_last())
    } else if path.len() > 1 && path.last() == '.' && path[path.len() - 2] == '/' {
        without_trailing_parts(path.drop_last())
    } else {
        path
    }
}

/// The last component of a path, where it names a file.
pub open spec fn file_name(path: Seq<char>) -> Option<Seq<char>> {
    let kept = without_trailing_parts(path);
    let name = match last_place(kept, '/') {
        Some(slash) => kept.skip(slash + 1),
        None => kept,
    };
    if name.len() == 0 || name == seq!['.'] || name == seq!['.', '.'] {
        None
    } else {
        Some(name)
    }
}

/// A file name without its extension. A name that starts with its only dot has none.
pub open spec fn stem(name: Seq<char>) -> Seq<char> {
    match last_place(name, '.') {
        Some(dot) if dot > 0 => name.take(dot),
        _ => name,
    }
}

/// What stands behind the last dot of a file name.
pub open spec fn extension(name: Seq<char>) -> Option<Seq<char>> {
    match last_place(name, '.') {
        Some(dot) if dot > 0 => Some(name.skip(dot + 1)),
        _ => None,
    }
}

/// The name of the file at `path` with `suffix` between its stem and its extension, or
/// `fallback` and the suffix where the path names no file. Paths are those of macOS and other
/// Unix systems, parted by slashes alone: backslashes and drive letters, which part paths on
/// Windows, count as characters of a name, so there the name of the file alone is handed in.
pub open spec fn suffixed_name(path: Seq<char>, fallback: Seq<char>, suffix: Seq<char>) -> Seq<char> {
    match file_name(path) {
        Some(name) => match extension(name) {
            Some(behind) => stem(name) + suffix + seq!['.'] + behind,
            None => stem(name) + suffix,
        },
        None => fallback + suffix,
    }
}

/// The last place found lies in the text and holds the wanted character.
proof fn lemma_last_place(text: Seq<char>, wanted: char)
    ensures
        last_place(text, wanted) matches Some(at) ==> 0 <= at < text.len() && text[at] == wanted,
    decreases text.len(),
{
    if text.len() > 0 && text.last() != wanted {
        lemma_last_place(text.drop_last(), wanted);
    }
}

fn find_last(chars: &Vec<char>, end: usize, wanted: char) -> (found: Option<usize>)
    requires
        end <= chars@.len(),
    ensures
        match found {
            Some(at) => last_place(chars@.take(end as int), wanted) == Some(at as int) && at < end,
            None => last_place(chars@.take(end as int), wanted) == None::<int>,
        },
{
    let mut at: usize = end;
    while at > 0
        invariant
            at <= end <= chars@.len(),
            last_place(chars@.take(end as int), wanted) == last_place(chars@.take(at as int), wanted),
        decreases at,
    {
        assert(chars@.take(at as int).last() == chars@[at - 1]);
        assert(chars@.take(at as int).drop_last() =~= chars@.take(at - 1));
        if chars[at - 1] == wanted {
            return Some(at - 1);
        }
        at = at - 1;
    }
    None
}

/// The first and the last place, not included, of the file name in a path.
fn file_name_bounds(chars: &Vec<char>) -> (bounds: Option<(usize, usize)>)
    ensures
        match bounds {
            Some((start, end)) => start <= end <= chars@.len() && file_name(chars@) == Some(
                chars@.subrange(start as int, end as int),
            ),
            None => file_name(chars@) == None::<Seq<char>>,
        },
{
    let mut end: usize = chars.len();
    proof {
        assert(chars@.take(end as int) =~= chars@);
    }
    while end > 0 && (chars[end - 1] == '/' || (end > 1 && chars[end - 1] == '.' && chars[end - 2] == '/'))
        invariant
            end <= chars@.len(),
            without_trailing_parts(chars@) == without_trailing_parts(chars@.take(end as int)),
        decreases end,
    {
        proof {
            assert(chars@.take(end as int).drop_last() =~= chars@.take(end - 1));
        }
        end = end - 1;
    }
    let ghost kept = chars@.take(end as int);
    assert(without_trailing_parts(chars@) == kept);
    let start: usize = match find_last(chars, end, '/') {
        Some(slash) => slash + 1,
        None => 0,
    };
    let ghost name = chars@.subrange(start as int, end as int);
    proof {
        assert(kept.skip(start as int) =~= name);
        assert(kept.skip(0) =~= kept);
    }
    let single = end - start == 1 && chars[start] == '.';
    let parent = end - start == 2 && chars[start] == '.' && chars[start + 1] == '.';
    proof {
        assert(single <==> name =~= seq!['.']) by {
            if name =~= seq!['.'] {
                assert(name[0] == '.');
            }
        }
        assert(parent <==> name =~= seq!['.', '.']) by {
            if name =~= seq!['.', '.'] {
                assert(name[0] == '.' && name[1] == '.');
            }
        }
    }
    if start == end || single || parent {
        None
    } else {
        Some((start, end))
    }
}

fn suffixed(path: &str, fallback: &str, suffix: &str) -> (name: String)
    ensures
        name@ == suffixed_name(path@, fallback@, suffix@),
{
    let chars = text::chars_of(path);
    match file_name_bounds(&chars) {
        None => fallback.to_owned().concat(suffix),
        Some((start, end)) => {
            let whole = text::text_of(&chars, start, end);
            let letters = text::chars_of(whole.as_str());
            proof {
                lemma_last_place(letters@, '.');
                assert(letters@.take(letters@.len() as int) =~= letters@);
            }
            let dot = find_last(&letters, letters.len(), '.');
            match dot {
                Some(at) if at > 0 => {
                    let mut name = text::text_of(&letters, 0, at).concat(suffix);
                    name.push('.');
                    let behind = text::text_of(&letters, at + 1, letters.len());
                    proof {
                        assert(letters@.subrange(0, at as int) =~= letters@.take(at as int));
                        assert(behind@ =~= letters@.skip(at + 1));
                        assert(stem(letters@) + suffix@ + seq!['.'] =~= name@);
                    }
                    name.concat(behind.as_str())
                },
                _ => whole.concat(suffix),
            }
        },
    }
}

/// The name proposed for an export of the rows of the file at `source` that a filter keeps.
pub fn filtered_export_file_name(source: &str) -> (name: String)
    ensures
        name@ == suffixed_name(source@, "export"@, "-filtered"@),
{
    suffixed(source, "export", "-filtered")
}

/// The name proposed for an edited copy of the file at `source`.
pub fn save_as_file_name(source: &str) -> (name: String)
    ensures
        name@ == suffixed_name(source@, "edited"@, "-edited"@),
{
    suffixed(source, "edited", "-edited")
}

/// A stem, a dot and the extension make up the name that they come from.
pub proof fn lemma_name_parts(name: Seq<char>)
    ensures
        match extension(name) {
            Some(behind) => stem(name) + seq!['.'] + behind == name,
            None => stem(name) == name,
        },
{
    lemma_last_place(name, '.');
    match extension(name) {
        Some(behind) => {
            assert(stem(name) + seq!['.'] + behind =~= name);
        },
        None => {},
    }
}

} // verus!
