//! Collecting the options of a whole directory of source files.
//!
//! The directory is given as it was found: whether it exists, and each
//! entry below it with the components of its path, whether it is a regular
//! file, and its text where it was read. Which entries count, what each
//! gives, and how the records of all are merged is decided here.

use vstd::prelude::*;
use vstd::string::StringExecFns;
use crate::error::{ErrorView, NixDocError};
use crate::parser::{emitted, visit_node, Scope};
use crate::record::{
    distinct_names, first_wins, keep_first, last_wins, lemma_first_wins, records_of, OptionDoc,
    OptionRecord,
};
use crate::replacements::Replacements;
use crate::strings::{
    chars_of, copy_range, find_last, join, join_strings, lemma_find_back_from, push_text,
    rfind_in, same_chars, same_text, texts_of,
};
use crate::syntax::{parse_source, tree_of_source};

verus! {

/// An entry found below the root directory.
pub struct FileEntry {
    /// The components of the path of the entry, those of the root first.
    pub components: Vec<String>,
    /// Whether the entry is a regular file.
    pub is_file: bool,
    /// The text of the file. `None` where it was not read or could not be.
    pub content: Option<String>,
}

/// A directory whose entries are left out.
pub struct ExcludeDir {
    /// Whether the path was given from the root of the file system.
    pub absolute: bool,
    /// The components of the path as it was given.
    pub components: Vec<String>,
}

/// A directory of source files as it was found.
pub struct SourceDir {
    /// The path of the directory as it was given.
    pub path: String,
    /// The components of that path.
    pub components: Vec<String>,
    /// Whether the directory exists.
    pub exists: bool,
    /// The entries found below the directory, in the order of the walk.
    pub entries: Vec<FileEntry>,
}

/// Whether `path` lies under `base`: whether the components of `base` are
/// the first components of `path`.
pub open spec fn is_under(path: Seq<Seq<char>>, base: Seq<Seq<char>>) -> bool {
    base.len() <= path.len() && path.take(base.len() as int) =~= base
}

/// `components` without those that are a single dot.
pub open spec fn without_dots(components: Seq<Seq<char>>) -> Seq<Seq<char>>
    decreases components.len(),
{
    if components.len() == 0 {
        Seq::empty()
    } else if components.last() == "."@ {
        without_dots(components.drop_last())
    } else {
        without_dots(components.drop_last()).push(components.last())
    }
}

/// The path that an excluded directory stands for: the path itself where it
/// is absolute, and else the path below `root`, single dots left out.
pub open spec fn resolved_exclude(
    root: Seq<Seq<char>>,
    absolute: bool,
    components: Seq<Seq<char>>,
) -> Seq<Seq<char>> {
    if absolute {
        components
    } else {
        root + without_dots(components)
    }
}

/// What a sequence of paths holds.
pub open spec fn path_texts(paths: Seq<Vec<String>>) -> Seq<Seq<Seq<char>>> {
    paths.map_values(|path: Vec<String>| texts_of(path@))
}

/// The paths that the excluded directories stand for, one for one.
pub open spec fn resolved_excludes(root: Seq<Seq<char>>, dirs: Seq<ExcludeDir>) -> Seq<
    Seq<Seq<char>>,
> {
    dirs.map_values(
        |dir: ExcludeDir| resolved_exclude(root, dir.absolute, texts_of(dir.components@)),
    )
}

/// Whether `path` lies under one of `excludes`.
pub open spec fn is_excluded(path: Seq<Seq<char>>, excludes: Seq<Seq<Seq<char>>>) -> bool {
    exists|k: int| 0 <= k < excludes.len() && is_under(path, #[trigger] excludes[k])
}

/// The name of the entry at `path`: its last component.
pub open spec fn file_name_of(path: Seq<Seq<char>>) -> Seq<char> {
    if path.len() > 0 {
        path.last()
    } else {
        Seq::empty()
    }
}

/// Whether an entry of this name is hidden: whether the name begins with a
/// dot.
pub open spec fn is_hidden_name(name: Seq<char>) -> bool {
    name.len() > 0 && name[0] == '.'
}

/// The extension of a file name: what follows its last dot, where that dot
/// is not the first character.
pub open spec fn extension_of(name: Seq<char>) -> Option<Seq<char>> {
    match find_last(name, "."@) {
        Some(at) => if at > 0 && name != ".."@ {
            Some(name.skip(at + 1))
        } else {
            None
        },
        None => None,
    }
}

/// Whether an entry is read for options: it lies under no excluded path, it
/// is not hidden, it is a regular file, and its name has the extension.
pub open spec fn is_processed(
    path: Seq<Seq<char>>,
    is_file: bool,
    excludes: Seq<Seq<Seq<char>>>,
    extension: Seq<char>,
) -> bool {
    &&& !is_excluded(path, excludes)
    &&& !is_hidden_name(file_name_of(path))
    &&& is_file
    &&& extension_of(file_name_of(path)) == Some(extension)
}

/// The path of an entry as the records show it: its components after those
/// of the root, joined by `/`. An entry that does not lie under the root is
/// shown with all its components.
pub open spec fn relative_to(path: Seq<Seq<char>>, root: Seq<Seq<char>>) -> Seq<char> {
    if is_under(path, root) {
        join(path.skip(root.len() as int), "/"@)
    } else {
        join(path, "/"@)
    }
}

/// The records of one file: those that the walk over its syntax tree comes
/// to, the last of each name. A text that has no tree gives none.
pub open spec fn file_records(
    content: Seq<char>,
    file_path: Seq<char>,
    table: Map<Seq<char>, Seq<char>>,
) -> Seq<OptionRecord> {
    match tree_of_source(content) {
        Some(tree) => last_wins(
            emitted(tree, Scope { file_path, table, source: content }, Seq::empty()),
        ),
        None => Seq::empty(),
    }
}

/// What one entry gives to the collection: the records of its text where it
/// is read for options and has a text, and nothing else.
pub open spec fn contribution(
    entry: FileEntry,
    root: Seq<Seq<char>>,
    excludes: Seq<Seq<Seq<char>>>,
    extension: Seq<char>,
    table: Map<Seq<char>, Seq<char>>,
) -> Seq<OptionRecord> {
    if is_processed(texts_of(entry.components@), entry.is_file, excludes, extension)
        && entry.content is Some {
        file_records(
            entry.content->0@,
            relative_to(texts_of(entry.components@), root),
            table,
        )
    } else {
        Seq::empty()
    }
}

/// What all of `entries` give, one after another.
pub open spec fn gathered(
    entries: Seq<FileEntry>,
    root: Seq<Seq<char>>,
    excludes: Seq<Seq<Seq<char>>>,
    extension: Seq<char>,
    table: Map<Seq<char>, Seq<char>>,
) -> Seq<OptionRecord>
    decreases entries.len(),
{
    if entries.len() == 0 {
        Seq::empty()
    } else {
        gathered(entries.drop_last(), root, excludes, extension, table) + contribution(
            entries.last(),
            root,
            excludes,
            extension,
            table,
        )
    }
}

/// An entry that is hidden, or that lies under an excluded path, gives
/// nothing to the collection, whatever its text declares.
pub proof fn lemma_hidden_and_excluded_give_nothing(
    entry: FileEntry,
    root: Seq<Seq<char>>,
    excludes: Seq<Seq<Seq<char>>>,
    extension: Seq<char>,
    table: Map<Seq<char>, Seq<char>>,
)
    requires
        is_hidden_name(file_name_of(texts_of(entry.components@))) || is_excluded(
            texts_of(entry.components@),
            excludes,
        ),
    ensures
        contribution(entry, root, excludes, extension, table) == Seq::<OptionRecord>::empty(),
{
}

/// What a directory gives does not depend on the entries that give nothing:
/// with such an entry put in at any place, the same records are gathered.
pub proof fn lemma_gathered_skips_silent_entry(
    entries: Seq<FileEntry>,
    at: int,
    entry: FileEntry,
    root: Seq<Seq<char>>,
    excludes: Seq<Seq<Seq<char>>>,
    extension: Seq<char>,
    table: Map<Seq<char>, Seq<char>>,
)
    requires
        0 <= at <= entries.len(),
        contribution(entry, root, excludes, extension, table) == Seq::<OptionRecord>::empty(),
    ensures
        gathered(entries.insert(at, entry), root, excludes, extension, table) == gathered(
            entries,
            root,
            excludes,
            extension,
            table,
        ),
    decreases entries.len() - at,
{
    let more = entries.insert(at, entry);
    if at == entries.len() {
        assert(more.drop_last() =~= entries);
        assert(more.last() == entry);
        assert(gathered(entries, root, excludes, extension, table) + Seq::<OptionRecord>::empty()
            =~= gathered(entries, root, excludes, extension, table));
    } else {
        lemma_gathered_skips_silent_entry(
            entries.drop_last(),
            at,
            entry,
            root,
            excludes,
            extension,
            table,
        );
        assert(more.drop_last() =~= entries.drop_last().insert(at, entry));
        assert(more.last() == entries.last());
    }
}

/// The message for a root directory that does not exist.
pub open spec fn missing_root(path: Seq<char>) -> Seq<char> {
    "Directory does not exist: "@ + path
}

/// Whether the first `count` components of `path` and `base` are the same.
fn same_components(path: &Vec<String>, base: &Vec<String>, count: usize) -> (same: bool)
    requires
        count <= path.len(),
        count <= base.len(),
    ensures
        same == (texts_of(path@).take(count as int) =~= texts_of(base@).take(count as int)),
{
    let mut i: usize = 0;
    while i < count
        invariant
            i <= count <= path.len(),
            count <= base.len(),
            forall|j: int| 0 <= j < i ==> path@[j]@ == base@[j]@,
        decreases count - i,
    {
        if !same_text(path[i].as_str(), base[i].as_str()) {
            assert(texts_of(path@).take(count as int)[i as int] != texts_of(base@).take(
                count as int,
            )[i as int]);
            return false;
        }
        i += 1;
    }
    true
}

/// Whether `path` lies under `base`.
pub fn starts_with_path(path: &Vec<String>, base: &Vec<String>) -> (under: bool)
    ensures
        under == is_under(texts_of(path@), texts_of(base@)),
{
    if base.len() > path.len() {
        return false;
    }
    same_components(path, base, base.len())
}

/// The path that an excluded directory stands for.
pub fn resolve_exclude_path(root: &Vec<String>, dir: &ExcludeDir) -> (path: Vec<String>)
    ensures
        texts_of(path@) == resolved_exclude(
            texts_of(root@),
            dir.absolute,
            texts_of(dir.components@),
        ),
{
    let mut path: Vec<String> = Vec::new();
    if !dir.absolute {
        let mut i: usize = 0;
        while i < root.len()
            invariant
                i <= root.len(),
                texts_of(path@) == texts_of(root@).take(i as int),
            decreases root.len() - i,
        {
            push_text(&mut path, root[i].clone());
            i += 1;
        }
    }
    let ghost head = texts_of(path@);
    let ghost given = texts_of(dir.components@);
    let mut i: usize = 0;
    while i < dir.components.len()
        invariant
            i <= dir.components.len(),
            given == texts_of(dir.components@),
            dir.absolute ==> texts_of(path@) == given.take(i as int),
            !dir.absolute ==> texts_of(path@) == head + without_dots(given.take(i as int)),
        decreases dir.components.len() - i,
    {
        proof {
            assert(given.take(i + 1).drop_last() =~= given.take(i as int));
        }
        if dir.absolute || !same_text(dir.components[i].as_str(), ".") {
            push_text(&mut path, dir.components[i].clone());
        }
        i += 1;
    }
    assert(given.take(dir.components.len() as int) =~= given);
    path
}

/// The paths that the excluded directories stand for.
pub fn resolve_exclude_paths(root: &Vec<String>, dirs: &Vec<ExcludeDir>) -> (paths: Vec<
    Vec<String>,
>)
    ensures
        path_texts(paths@) == resolved_excludes(texts_of(root@), dirs@),
{
    let mut paths: Vec<Vec<String>> = Vec::new();
    let mut i: usize = 0;
    while i < dirs.len()
        invariant
            i <= dirs.len(),
            paths@.len() == i,
            forall|j: int|
                0 <= j < i ==> texts_of((#[trigger] paths@[j])@) == resolved_exclude(
                    texts_of(root@),
                    dirs@[j].absolute,
                    texts_of(dirs@[j].components@),
                ),
        decreases dirs.len() - i,
    {
        paths.push(resolve_exclude_path(root, &dirs[i]));
        i += 1;
    }
    paths
}

/// Whether the file name has the extension.
fn has_extension(name: &str, extension: &str) -> (has: bool)
    ensures
        has == (extension_of(name@) == Some(extension@)),
{
    let chars = chars_of(name);
    let dot = chars_of(".");
    proof {
        reveal_strlit(".");
        reveal_strlit("..");
        lemma_find_back_from(chars@, dot@, chars@.len() - dot@.len());
    }
    match rfind_in(&chars, &dot) {
        Some(at) => {
            let end: usize = chars.len();
            if at > 0 && !same_text(name, "..") {
                let found = copy_range(&chars, at + 1, end);
                let wanted = chars_of(extension);
                same_chars(&found, &wanted)
            } else {
                false
            }
        },
        None => false,
    }
}

/// Whether an entry is hidden: whether its name begins with a dot.
pub fn is_hidden(entry: &FileEntry) -> (hidden: bool)
    ensures
        hidden == is_hidden_name(file_name_of(texts_of(entry.components@))),
{
    if entry.components.len() == 0 {
        return false;
    }
    let name = &entry.components[entry.components.len() - 1];
    let chars = chars_of(name.as_str());
    chars.len() > 0 && chars[0] == '.'
}

/// Whether an entry is read for options: whether it lies under none of
/// `exclude_paths`, is not hidden, is a regular file, and has the extension.
pub fn should_process_file(
    entry: &FileEntry,
    exclude_paths: &Vec<Vec<String>>,
    extension: &str,
) -> (process: bool)
    ensures
        process == is_processed(
            texts_of(entry.components@),
            entry.is_file,
            path_texts(exclude_paths@),
            extension@,
        ),
{
    let ghost path = texts_of(entry.components@);
    let ghost excludes = path_texts(exclude_paths@);
    let mut i: usize = 0;
    while i < exclude_paths.len()
        invariant
            i <= exclude_paths.len(),
            path == texts_of(entry.components@),
            excludes == path_texts(exclude_paths@),
            forall|k: int| 0 <= k < i ==> !is_under(path, #[trigger] excludes[k]),
        decreases exclude_paths.len() - i,
    {
        if starts_with_path(&entry.components, &exclude_paths[i]) {
            assert(is_under(path, excludes[i as int]));
            return false;
        }
        i += 1;
    }
    if entry.components.len() == 0 {
        proof {
            reveal_strlit(".");
            lemma_find_back_from(Seq::<char>::empty(), "."@, -1);
        }
        return false;
    }
    let name = &entry.components[entry.components.len() - 1];
    if is_hidden(entry) {
        return false;
    }
    entry.is_file && has_extension(name.as_str(), extension)
}

/// The path of an entry as the records show it.
pub fn relative_path(components: &Vec<String>, root: &Vec<String>) -> (path: String)
    ensures
        path@ == relative_to(texts_of(components@), texts_of(root@)),
{
    if starts_with_path(components, root) {
        let mut rest: Vec<String> = Vec::new();
        let mut i: usize = root.len();
        while i < components.len()
            invariant
                root.len() <= i <= components.len(),
                texts_of(rest@) == texts_of(components@).subrange(root.len() as int, i as int),
            decreases components.len() - i,
        {
            push_text(&mut rest, components[i].clone());
            i += 1;
        }
        assert(texts_of(components@).subrange(root.len() as int, components.len() as int)
            =~= texts_of(components@).skip(root.len() as int));
        join_strings(&rest, "/")
    } else {
        join_strings(components, "/")
    }
}

/// Reads the options that the text of one file declares. `relative_path` is
/// the path that the records show.
pub fn process_nix_file(
    content: &str,
    relative_path: &str,
    replacements: &Replacements,
) -> (options: Vec<OptionDoc>)
    ensures
        records_of(options@) == file_records(content@, relative_path@, replacements@),
{
    match parse_source(content) {
        Some(root) => {
            proof {
                reveal_strlit("");
                assert(""@ =~= Seq::<char>::empty());
            }
            visit_node(&root, relative_path, "", replacements, content)
        },
        None => Vec::new(),
    }
}

/// Collects the options that the files of a directory declare.
///
/// A directory that does not exist is an error. Each entry that is read for
/// options gives the records of its text; an entry without a text gives
/// none. Of the records of one name, the first in the order of the entries
/// is kept.
pub fn collect_options(
    dir: &SourceDir,
    exclude_dirs: &Vec<ExcludeDir>,
    replacements: &Replacements,
    extension: &str,
) -> (collected: Result<Vec<OptionDoc>, NixDocError>)
    ensures
        match collected {
            Ok(options) => dir.exists && records_of(options@) == first_wins(
                gathered(
                    dir.entries@,
                    texts_of(dir.components@),
                    resolved_excludes(texts_of(dir.components@), exclude_dirs@),
                    extension@,
                    replacements@,
                ),
            ),
            Err(error) => !dir.exists && error@ == ErrorView::InvalidPath(missing_root(dir.path@)),
        },
        collected matches Ok(options) ==> distinct_names(records_of(options@)),
{
    if !dir.exists {
        let mut message = String::from_str("Directory does not exist: ");
        message.append(dir.path.as_str());
        return Err(NixDocError::InvalidPath(message));
    }
    let exclude_paths = resolve_exclude_paths(&dir.components, exclude_dirs);
    let ghost root = texts_of(dir.components@);
    let ghost excludes = path_texts(exclude_paths@);
    let mut all: Vec<OptionDoc> = Vec::new();
    let mut i: usize = 0;
    while i < dir.entries.len()
        invariant
            i <= dir.entries.len(),
            root == texts_of(dir.components@),
            excludes == path_texts(exclude_paths@),
            records_of(all@) == gathered(
                dir.entries@.take(i as int),
                root,
                excludes,
                extension@,
                replacements@,
            ),
        decreases dir.entries.len() - i,
    {
        proof {
            assert(dir.entries@.take(i + 1).drop_last() =~= dir.entries@.take(i as int));
        }
        let entry = &dir.entries[i];
        if should_process_file(entry, &exclude_paths, extension) {
            match &entry.content {
                Some(content) => {
                    let path = relative_path(&entry.components, &dir.components);
                    let mut found = process_nix_file(content.as_str(), path.as_str(), replacements);
                    all.append(&mut found);
                },
                None => {},
            }
        }
        i += 1;
    }
    assert(dir.entries@.take(dir.entries.len() as int) =~= dir.entries@);
    proof {
        lemma_first_wins(records_of(all@));
    }
    Ok(keep_first(all))
}

} // verus!
