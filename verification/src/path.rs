//! The search list, and finding a command along it.
//!
//! A command typed as a bare name is looked for in the directories of the
//! search list, in order. A directory is searched through the names of its
//! immediate entries, which the caller supplies; one that cannot be listed is
//! passed over. A command is in a directory where an entry has exactly its
//! name, and the first directory that has it wins.

use vstd::prelude::*;
use vstd::string::*;

use crate::error::Error;

verus! {

/// The character that parts the directories in the value of `PATH`.
pub const LIST_SEPARATOR: char = ':';

/// The character that parts the components of a path.
pub const PATH_SEPARATOR: char = '/';

/// What a directory holds: the names of its immediate entries, or `None`
/// where it cannot be listed.
pub type Listing = Option<Vec<String>>;

/// A [`Listing`] as contracts see it.
pub type ListingView = Option<Seq<Seq<char>>>;

/// The pieces of `s` between the occurrences of `sep`. There is one piece
/// more than there are occurrences, so a piece may be empty, and a text
/// without `sep` is its own single piece.
pub open spec fn split(s: Seq<char>, sep: char) -> Seq<Seq<char>>
    decreases s.len(),
{
    if s.len() == 0 {
        seq![Seq::empty()]
    } else {
        let before = split(s.drop_last(), sep);
        if s.last() == sep {
            before.push(Seq::empty())
        } else {
            before.drop_last().push(before.last().push(s.last()))
        }
    }
}

/// The search list that a value of `PATH` stands for: none without a value,
/// else the pieces of the value between its colons.
pub open spec fn search_list(value: Option<Seq<char>>) -> Seq<Seq<char>> {
    match value {
        Some(text) => split(text, LIST_SEPARATOR),
        None => Seq::empty(),
    }
}

/// The value of an optional text.
pub open spec fn text_of(value: Option<&str>) -> Option<Seq<char>> {
    match value {
        Some(text) => Some(text@),
        None => None,
    }
}

/// The path of the entry `name` of the directory `dir`.
pub open spec fn join(dir: Seq<char>, name: Seq<char>) -> Seq<char> {
    if dir.len() == 0 || dir.last() == PATH_SEPARATOR {
        dir + name
    } else {
        dir.push(PATH_SEPARATOR) + name
    }
}

/// Whether `listing` shows an entry named exactly `name`. A directory that
/// could not be listed shows nothing.
pub open spec fn shows(listing: ListingView, name: Seq<char>) -> bool {
    listing matches Some(entries) && entries.contains(name)
}

/// The path under which `name` is found in `dir`, given what `dir` holds.
pub open spec fn found_in(dir: Seq<char>, listing: ListingView, name: Seq<char>) -> Option<
    Seq<char>,
> {
    if shows(listing, name) {
        Some(join(dir, name))
    } else {
        None
    }
}

/// Whether the directory at position `i` of the search list has the command.
/// A directory for which no listing was supplied counts as unreadable.
pub open spec fn hit(listings: Seq<ListingView>, name: Seq<char>, i: int) -> bool {
    0 <= i < listings.len() && shows(listings[i], name)
}

/// The path of `name` in the first directory from position `from` on that
/// has it, if any has.
pub open spec fn resolve_from(
    name: Seq<char>,
    dirs: Seq<Seq<char>>,
    listings: Seq<ListingView>,
    from: int,
) -> Option<Seq<char>>
    decreases dirs.len() - from,
{
    if from < 0 || from >= dirs.len() {
        None
    } else if hit(listings, name, from) {
        Some(join(dirs[from], name))
    } else {
        resolve_from(name, dirs, listings, from + 1)
    }
}

/// The path of `name` in the first directory of the search list that has it,
/// if any has.
pub open spec fn resolve(
    name: Seq<char>,
    dirs: Seq<Seq<char>>,
    listings: Seq<ListingView>,
) -> Option<Seq<char>> {
    resolve_from(name, dirs, listings, 0)
}

/// Reads a search list from the value of `PATH`, if it has one.
pub fn search_path(value: Option<&str>) -> (dirs: Vec<String>)
    ensures
        dirs.deep_view() == search_list(text_of(value)),
{
    let mut dirs: Vec<String> = Vec::new();
    let text = match value {
        Some(text) => text,
        None => {
            assert(dirs.deep_view() =~= Seq::<Seq<char>>::empty());
            return dirs;
        },
    };
    let len = text.unicode_len();
    let mut start: usize = 0;
    let mut at: usize = 0;
    assert(text@.take(0) =~= Seq::<char>::empty());
    assert(dirs.deep_view().push(text@.subrange(0, 0)) =~= seq![Seq::<char>::empty()]);
    for c in it: text.chars()
        invariant
            it.seq() == text@,
            len == text@.len(),
            at == it.index(),
            start <= at,
            split(text@.take(at as int), LIST_SEPARATOR) == dirs.deep_view().push(
                text@.subrange(start as int, at as int),
            ),
    {
        let ghost done = dirs.deep_view();
        let ghost piece = text@.subrange(start as int, at as int);
        assert(text@.take(at + 1).drop_last() =~= text@.take(at as int));
        assert(done.push(piece).drop_last() =~= done);
        if c == LIST_SEPARATOR {
            dirs.push(text.substring_char(start, at).to_owned());
            start = at + 1;
            assert(dirs.deep_view() =~= done.push(piece));
            assert(text@.subrange(start as int, at + 1) =~= Seq::<char>::empty());
        } else {
            assert(text@.subrange(start as int, at + 1) =~= piece.push(c));
        }
        at = at + 1;
    }
    assert(text@.take(len as int) =~= text@);
    let ghost done = dirs.deep_view();
    dirs.push(text.substring_char(start, len).to_owned());
    assert(dirs.deep_view() =~= done.push(text@.subrange(start as int, len as int)));
    dirs
}

/// Makes the path of the entry `name` of the directory `dir`.
pub fn join_path(dir: &str, name: &str) -> (path: String)
    ensures
        path@ == join(dir@, name@),
{
    let len = dir.unicode_len();
    if len == 0 || dir.get_char(len - 1) == PATH_SEPARATOR {
        dir.to_owned().concat(name)
    } else {
        assert(dir@.push(PATH_SEPARATOR) =~= dir@ + "/"@) by {
            reveal_strlit("/");
        }
        dir.to_owned().concat("/").concat(name)
    }
}

/// Tells whether an entry of `entries` is named exactly `name`.
pub fn has_entry(entries: &Vec<String>, name: &String) -> (found: bool)
    ensures
        found == entries.deep_view().contains(name@),
{
    let mut i: usize = 0;
    while i < entries.len()
        invariant
            i <= entries.len(),
            forall|k: int| 0 <= k < i ==> entries.deep_view()[k] != name@,
        decreases entries.len() - i,
    {
        if entries[i] == *name {
            assert(entries.deep_view()[i as int] == name@);
            return true;
        }
        i = i + 1;
    }
    false
}

/// Looks for `name` in one directory, given what the directory holds
/// (`None` where it could not be listed).
pub fn find_in_directory(dir: &String, listing: &Listing, name: &String) -> (path:
    Option<String>)
    ensures
        path.deep_view() == found_in(dir@, listing.deep_view(), name@),
{
    match listing {
        Some(entries) => {
            if has_entry(entries, name) {
                Some(join_path(dir.as_str(), name.as_str()))
            } else {
                None
            }
        },
        None => None,
    }
}

/// Looks for `command` along the search list `paths`, given for each
/// directory what it holds: `listings[i]` belongs to `paths[i]`.
///
/// The result is the path of the command in the first directory that has an
/// entry of exactly that name, or `NotFound` where none has.
pub fn lookup_path(command: &String, paths: &Vec<String>, listings: &Vec<Listing>) -> (result:
    Result<String, Error>)
    ensures
        match result {
            Ok(path) => resolve(command@, paths.deep_view(), listings.deep_view()) == Some(path@),
            Err(e) => e == Error::NotFound && resolve(
                command@,
                paths.deep_view(),
                listings.deep_view(),
            ) is None,
        },
{
    let mut i: usize = 0;
    while i < paths.len() && i < listings.len()
        invariant
            i <= paths.len(),
            resolve(command@, paths.deep_view(), listings.deep_view()) == resolve_from(
                command@,
                paths.deep_view(),
                listings.deep_view(),
                i as int,
            ),
        decreases paths.len() - i,
    {
        match find_in_directory(&paths[i], &listings[i], command) {
            Some(path) => {
                return Ok(path);
            },
            None => {},
        }
        i = i + 1;
    }
    proof {
        lemma_unlisted_rest(command@, paths.deep_view(), listings.deep_view(), i as int);
    }
    Err(Error::NotFound)
}

/// Past the last listing supplied nothing is found.
proof fn lemma_unlisted_rest(
    name: Seq<char>,
    dirs: Seq<Seq<char>>,
    listings: Seq<ListingView>,
    from: int,
)
    requires
        0 <= from,
        from >= listings.len() || from >= dirs.len(),
    ensures
        resolve_from(name, dirs, listings, from) is None,
    decreases dirs.len() - from,
{
    if from < dirs.len() {
        lemma_unlisted_rest(name, dirs, listings, from + 1);
    }
}

} // verus!
