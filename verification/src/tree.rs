//! The file tree materializer: a commit's tree as a hierarchy of typed
//! entries, each level sorted with directories first, then by name without
//! regard to case.

use crate::model::{opt_view, FileTreeItem, QueryError};
use crate::session::{find_commit, open, read_id, store_failure};
use crate::diff::is_id_failure;
use crate::store::{
    blob_size, commit_tree, entry_count, find_blob, find_tree, is_hex_id, read_entry,
    tree_entries, EntryKind,
};
use crate::text::{
    chars_of, find_last_dot, last_dot, last_segment, lex_before, lex_le, lowercase, lowercase_of,
    text_of,
};
use vstd::prelude::*;
use vstd::seq_lib::*;
use vstd::slice::*;
use vstd::string::*;

verus! {

/// How many levels a walk may descend. No path is that deep: the bound is
/// there for the walk to be seen to end.
pub const MAX_DEPTH: usize = usize::MAX;

/// What a tree entry names.
pub enum EntryContent {
    /// A directory, with its entries.
    Directory(Vec<FileTreeItem>),
    /// A file, with its size in bytes.
    File(usize),
    /// Anything else, which the hierarchy leaves out.
    Other,
}

/// The tag of a file by its extension in lowercase; `file` for one that the
/// table does not know.
pub open spec fn type_tag(ext: Seq<char>) -> Seq<char> {
    if ext == "js"@ || ext == "jsx"@ {
        "javascript"@
    } else if ext == "ts"@ || ext == "tsx"@ {
        "typescript"@
    } else if ext == "py"@ {
        "python"@
    } else if ext == "rs"@ {
        "rust"@
    } else if ext == "java"@ {
        "java"@
    } else if ext == "go"@ {
        "go"@
    } else if ext == "c"@ || ext == "h"@ {
        "c"@
    } else if ext == "cpp"@ || ext == "cc"@ || ext == "cxx"@ || ext == "hpp"@ {
        "cpp"@
    } else if ext == "css"@ || ext == "scss"@ || ext == "sass"@ {
        "css"@
    } else if ext == "html"@ || ext == "htm"@ {
        "html"@
    } else if ext == "json"@ {
        "json"@
    } else if ext == "yaml"@ || ext == "yml"@ {
        "yaml"@
    } else if ext == "md"@ || ext == "markdown"@ {
        "markdown"@
    } else if ext == "sh"@ || ext == "bash"@ || ext == "zsh"@ {
        "shell"@
    } else if ext == "sql"@ {
        "sql"@
    } else if ext == "xml"@ {
        "xml"@
    } else if ext == "toml"@ {
        "toml"@
    } else if ext == "ini"@ || ext == "cfg"@ || ext == "conf"@ {
        "config"@
    } else if ext == "dockerfile"@ {
        "docker"@
    } else if ext == "gitignore"@ {
        "git"@
    } else if ext == "txt"@ {
        "text"@
    } else {
        "file"@
    }
}

/// The extension of a file name, as the table reads it: what follows the
/// last full stop, in lowercase. A name without a full stop has none.
pub open spec fn extension_of(name: Seq<char>) -> Option<Seq<char>> {
    if last_dot(name) == 0 {
        None
    } else {
        Some(lowercase_of(last_segment(name)))
    }
}

/// The tag of a file by its name: that of its extension, `file` where it
/// has none.
pub open spec fn file_type_tag(name: Seq<char>) -> Seq<char> {
    match extension_of(name) {
        Some(ext) => type_tag(ext),
        None => "file"@,
    }
}

/// The name of an entry, `unknown` where the store has none that is valid
/// text.
pub open spec fn entry_name(name: Option<String>) -> Seq<char> {
    match name {
        Some(n) => n@,
        None => "unknown"@,
    }
}

/// The path of an entry under a directory's path; under the root, which has
/// the empty path, the entry's name.
pub open spec fn joined(base: Seq<char>, name: Seq<char>) -> Seq<char> {
    if base.len() == 0 {
        name
    } else {
        base + seq!['/'] + name
    }
}

/// The name by which an entry is sorted.
pub open spec fn sort_name(item: FileTreeItem) -> Seq<char> {
    lowercase_of(item.name@)
}

/// `a` may stand before `b`: a directory before a file; among directories,
/// and among files, the one whose lowercase name is not the greater.
pub open spec fn in_order(a: FileTreeItem, b: FileTreeItem) -> bool {
    if a.is_directory != b.is_directory {
        a.is_directory
    } else {
        lex_le(sort_name(a), sort_name(b))
    }
}

/// A level is sorted when each entry may stand before all that follow it.
pub open spec fn level_sorted(items: Seq<FileTreeItem>) -> bool {
    forall|i: int, j: int| 0 <= i < j < items.len() ==> in_order(items[i], items[j])
}

/// Where an entry goes into a sorted level: behind the last entry that may
/// stand before it.
pub open spec fn insert_point(sorted: Seq<FileTreeItem>, item: FileTreeItem) -> int
    decreases sorted.len(),
{
    if sorted.len() == 0 {
        0
    } else if in_order(sorted.last(), item) {
        sorted.len() as int
    } else {
        insert_point(sorted.drop_last(), item)
    }
}

/// The entries of a level in sorted order; entries that the order does not
/// tell apart keep the order in which they came.
pub open spec fn ordered(items: Seq<FileTreeItem>) -> Seq<FileTreeItem>
    decreases items.len(),
{
    if items.len() == 0 {
        items
    } else {
        let rest = ordered(items.drop_last());
        rest.insert(insert_point(rest, items.last()), items.last())
    }
}

/// What holds of an entry, and of all below it: a directory has its entries,
/// sorted, no size, and the tag `folder`; a file has a size, no entries, and
/// the tag of its extension.
pub open spec fn item_well_formed(item: FileTreeItem) -> bool
    decreases item,
{
    if item.is_directory {
        &&& item.size is None
        &&& item.file_type@ == "folder"@
        &&& item.children matches Some(entries) && level_sorted(entries@) && forall|i: int|
            0 <= i < entries@.len() ==> item_well_formed(#[trigger] entries[i])
    } else {
        &&& item.children is None
        &&& item.size is Some
        &&& item.file_type@ == file_type_tag(item.name@)
    }
}

/// What holds of a hierarchy: every level is sorted and every entry well
/// formed.
pub open spec fn tree_well_formed(items: Seq<FileTreeItem>) -> bool {
    &&& level_sorted(items)
    &&& forall|i: int| 0 <= i < items.len() ==> item_well_formed(#[trigger] items[i])
}

/// An entry stands under the directory with the path `base`: its path is
/// its name under that path, and its own entries stand under its path, and
/// so on downwards.
pub open spec fn item_placed(item: FileTreeItem, base: Seq<char>) -> bool
    decreases item,
{
    &&& item.path@ == joined(base, item.name@)
    &&& item.children matches Some(entries) ==> forall|i: int|
        0 <= i < entries@.len() ==> item_placed(#[trigger] entries[i], item.path@)
}

/// Every entry of a level stands under the directory with the path `base`.
pub open spec fn tree_placed(items: Seq<FileTreeItem>, base: Seq<char>) -> bool {
    forall|i: int| 0 <= i < items.len() ==> item_placed(#[trigger] items[i], base)
}

/// An entry of a tree as plain values: its name, where that is valid text,
/// and its kind.
pub type PlainEntry = (Option<Seq<char>>, EntryKind);

/// A tree entry as the store holds it, read into plain values, with all
/// that lies below it.
pub struct TreeNode {
    /// The entry's name, where it is valid text.
    pub name: Option<String>,
    pub kind: EntryKind,
    /// The size in bytes of what the entry names, where that is a blob.
    pub size: usize,
    /// The entries of the tree that the entry names, where it names one.
    pub children: Vec<TreeNode>,
}

/// The items that are there, in their order.
pub open spec fn present(raw: Seq<Option<FileTreeItem>>) -> Seq<FileTreeItem>
    decreases raw.len(),
{
    if raw.len() == 0 {
        Seq::empty()
    } else {
        let front = present(raw.drop_last());
        match raw.last() {
            Some(item) => front.push(item),
            None => front,
        }
    }
}

/// What a node becomes under the directory with the path `base`. A node
/// that names a tree becomes a directory whose entries are what the node's
/// own entries become under the directory's path, in sorted order; a node
/// that names a blob becomes a file with the blob's size and the tag of its
/// name; any other node becomes nothing.
pub open spec fn renders(item: Option<FileTreeItem>, node: TreeNode, base: Seq<char>) -> bool
    decreases node,
{
    match node.kind {
        EntryKind::Tree => item matches Some(it) && {
            &&& it.name@ == entry_name(node.name)
            &&& it.path@ == joined(base, entry_name(node.name))
            &&& it.is_directory
            &&& it.size is None
            &&& it.file_type@ == "folder"@
            &&& it.children matches Some(entries) && exists|raw: Seq<Option<FileTreeItem>>|
                {
                    &&& raw.len() == node.children@.len()
                    &&& forall|i: int|
                        0 <= i < raw.len() ==> renders(
                            #[trigger] raw[i],
                            node.children[i],
                            it.path@,
                        )
                    &&& entries@ == ordered(present(raw))
                }
        },
        EntryKind::Blob => item matches Some(it) && {
            &&& it.name@ == entry_name(node.name)
            &&& it.path@ == joined(base, entry_name(node.name))
            &&& !it.is_directory
            &&& it.children is None
            &&& it.size == Some(node.size as u64)
            &&& it.file_type@ == file_type_tag(entry_name(node.name))
        },
        _ => item is None,
    }
}

/// `raw` holds what each node of a level becomes under `base`, one for one.
pub open spec fn renders_each(
    raw: Seq<Option<FileTreeItem>>,
    nodes: Seq<TreeNode>,
    base: Seq<char>,
) -> bool {
    &&& raw.len() == nodes.len()
    &&& forall|i: int| 0 <= i < raw.len() ==> renders(#[trigger] raw[i], nodes[i], base)
}

/// The items are the hierarchy of a level of nodes under `base`: what each
/// node becomes, none left out and none added, in sorted order, and so on
/// downwards.
pub open spec fn level_renders(items: Seq<FileTreeItem>, nodes: Seq<TreeNode>, base: Seq<char>) -> bool {
    exists|raw: Seq<Option<FileTreeItem>>| #[trigger]
        renders_each(raw, nodes, base) && items == ordered(present(raw))
}

/// The nodes are those of the entries of a tree at hand, one for one: each
/// has its entry's name and kind.
pub open spec fn nodes_of(nodes: Seq<TreeNode>, entries: Seq<PlainEntry>) -> bool {
    &&& nodes.len() == entries.len()
    &&& forall|i: int|
        0 <= i < nodes.len() ==> (opt_view((#[trigger] nodes[i]).name), nodes[i].kind) == entries[i]
}

/// The entry that a tree entry becomes: `None` for what is neither a
/// directory nor a file.
pub open spec fn is_item_of(
    item: Option<FileTreeItem>,
    base: Seq<char>,
    name: Option<String>,
    content: EntryContent,
) -> bool {
    match content {
        EntryContent::Directory(entries) => item matches Some(it) && {
            &&& it.name@ == entry_name(name)
            &&& it.path@ == joined(base, entry_name(name))
            &&& it.is_directory
            &&& it.children == Some(entries)
            &&& it.size is None
            &&& it.file_type@ == "folder"@
        },
        EntryContent::File(size) => item matches Some(it) && {
            &&& it.name@ == entry_name(name)
            &&& it.path@ == joined(base, entry_name(name))
            &&& !it.is_directory
            &&& it.children is None
            &&& it.size == Some(size as u64)
            &&& it.file_type@ == file_type_tag(entry_name(name))
        },
        EntryContent::Other => item is None,
    }
}

/// The order is total: of two entries, one may stand before the other.
pub proof fn lemma_lex_total(a: Seq<char>, b: Seq<char>)
    ensures
        lex_le(a, b) || lex_le(b, a),
    decreases a.len(),
{
    if a.len() > 0 && b.len() > 0 {
        if a[0] == b[0] {
            lemma_lex_total(a.drop_first(), b.drop_first());
        } else {
            vstd::utf8::char_u32_cast(a[0], a[0] as u32);
            vstd::utf8::char_u32_cast(b[0], b[0] as u32);
        }
    }
}

/// The order is transitive.
pub proof fn lemma_lex_transitive(a: Seq<char>, b: Seq<char>, c: Seq<char>)
    requires
        lex_le(a, b),
        lex_le(b, c),
    ensures
        lex_le(a, c),
    decreases a.len(),
{
    if a.len() > 0 && b.len() > 0 && c.len() > 0 && a[0] == b[0] && b[0] == c[0] {
        lemma_lex_transitive(a.drop_first(), b.drop_first(), c.drop_first());
    }
}

/// Of two entries, one may stand before the other.
pub proof fn lemma_in_order_total(a: FileTreeItem, b: FileTreeItem)
    ensures
        in_order(a, b) || in_order(b, a),
{
    lemma_lex_total(sort_name(a), sort_name(b));
}

/// Where `a` may stand before `b` and `b` before `c`, `a` may stand before
/// `c`.
pub proof fn lemma_in_order_transitive(a: FileTreeItem, b: FileTreeItem, c: FileTreeItem)
    requires
        in_order(a, b),
        in_order(b, c),
    ensures
        in_order(a, c),
{
    if a.is_directory == b.is_directory && b.is_directory == c.is_directory {
        lemma_lex_transitive(sort_name(a), sort_name(b), sort_name(c));
    }
}

/// In a sorted level, every entry before the insert point may stand before
/// the new one, and none from the insert point on may.
pub proof fn lemma_insert_point(sorted: Seq<FileTreeItem>, item: FileTreeItem)
    requires
        level_sorted(sorted),
    ensures
        0 <= insert_point(sorted, item) <= sorted.len(),
        forall|j: int| 0 <= j < insert_point(sorted, item) ==> in_order(#[trigger] sorted[j], item),
        forall|j: int|
            insert_point(sorted, item) <= j < sorted.len() ==> !in_order(#[trigger] sorted[j], item),
    decreases sorted.len(),
{
    if sorted.len() > 0 {
        if in_order(sorted.last(), item) {
            assert forall|j: int| 0 <= j < sorted.len() implies in_order(
                #[trigger] sorted[j],
                item,
            ) by {
                if j < sorted.len() - 1 {
                    lemma_in_order_transitive(sorted[j], sorted.last(), item);
                }
            }
        } else {
            let front = sorted.drop_last();
            assert forall|i: int, j: int| 0 <= i < j < front.len() implies in_order(
                front[i],
                front[j],
            ) by {
                assert(front[i] == sorted[i] && front[j] == sorted[j]);
            }
            lemma_insert_point(front, item);
            assert forall|j: int| insert_point(sorted, item) <= j < sorted.len() implies !in_order(
                #[trigger] sorted[j],
                item,
            ) by {
                if j < sorted.len() - 1 {
                    assert(sorted[j] == front[j]);
                }
            }
            assert forall|j: int| 0 <= j < insert_point(sorted, item) implies in_order(
                #[trigger] sorted[j],
                item,
            ) by {
                assert(sorted[j] == front[j]);
            }
        }
    }
}

/// A sorted level with an entry put in at its insert point is sorted.
pub proof fn lemma_insert_keeps_sorted(sorted: Seq<FileTreeItem>, item: FileTreeItem)
    requires
        level_sorted(sorted),
    ensures
        level_sorted(sorted.insert(insert_point(sorted, item), item)),
{
    lemma_insert_point(sorted, item);
    let p = insert_point(sorted, item);
    let out = sorted.insert(p, item);
    assert forall|i: int, j: int| 0 <= i < j < out.len() implies in_order(out[i], out[j]) by {
        if j < p {
            assert(out[i] == sorted[i] && out[j] == sorted[j]);
        } else if j == p {
            assert(out[i] == sorted[i]);
        } else if i == p {
            assert(out[j] == sorted[j - 1]);
            lemma_in_order_total(item, sorted[j - 1]);
        } else if i < p {
            assert(out[i] == sorted[i] && out[j] == sorted[j - 1]);
        } else {
            assert(out[i] == sorted[i - 1] && out[j] == sorted[j - 1]);
        }
    }
}

/// The sorted order of a level is sorted, and holds the level's entries, each
/// as often as the level does.
pub proof fn lemma_ordered_is_sorted(items: Seq<FileTreeItem>)
    ensures
        level_sorted(ordered(items)),
        ordered(items).len() == items.len(),
        ordered(items).to_multiset() == items.to_multiset(),
    decreases items.len(),
{
    broadcast use group_to_multiset_ensures;

    if items.len() == 0 {
    } else {
        let front = items.drop_last();
        lemma_ordered_is_sorted(front);
        let rest = ordered(front);
        lemma_insert_point(rest, items.last());
        lemma_insert_keeps_sorted(rest, items.last());
        let p = insert_point(rest, items.last());
        let out = rest.insert(p, items.last());
        assert(out.remove(p) == rest);
        assert(out[p] == items.last());
        assert(out.to_multiset().remove(items.last()) == rest.to_multiset());
        assert(front.push(items.last()) == items);
        assert(items.to_multiset() == front.to_multiset().insert(items.last()));
        assert(out.to_multiset().count(items.last()) > 0) by {
            assert(out.contains(items.last()));
        }
        assert(out.to_multiset() =~= rest.to_multiset().insert(items.last()));
    }
}

/// Whether a text equals a literal.
fn text_is(s: &String, literal: &str) -> (r: bool)
    ensures
        r == (s@ == literal@),
{
    *s == String::from_str(literal)
}

/// The tag of a file by its extension in lowercase.
pub fn tag_of_extension(ext: &String) -> (r: String)
    ensures
        r@ == type_tag(ext@),
{
    let tag = if text_is(ext, "js") || text_is(ext, "jsx") {
        "javascript"
    } else if text_is(ext, "ts") || text_is(ext, "tsx") {
        "typescript"
    } else if text_is(ext, "py") {
        "python"
    } else if text_is(ext, "rs") {
        "rust"
    } else if text_is(ext, "java") {
        "java"
    } else if text_is(ext, "go") {
        "go"
    } else if text_is(ext, "c") || text_is(ext, "h") {
        "c"
    } else if text_is(ext, "cpp") || text_is(ext, "cc") || text_is(ext, "cxx") || text_is(
        ext,
        "hpp",
    ) {
        "cpp"
    } else if text_is(ext, "css") || text_is(ext, "scss") || text_is(ext, "sass") {
        "css"
    } else if text_is(ext, "html") || text_is(ext, "htm") {
        "html"
    } else if text_is(ext, "json") {
        "json"
    } else if text_is(ext, "yaml") || text_is(ext, "yml") {
        "yaml"
    } else if text_is(ext, "md") || text_is(ext, "markdown") {
        "markdown"
    } else if text_is(ext, "sh") || text_is(ext, "bash") || text_is(ext, "zsh") {
        "shell"
    } else if text_is(ext, "sql") {
        "sql"
    } else if text_is(ext, "xml") {
        "xml"
    } else if text_is(ext, "toml") {
        "toml"
    } else if text_is(ext, "ini") || text_is(ext, "cfg") || text_is(ext, "conf") {
        "config"
    } else if text_is(ext, "dockerfile") {
        "docker"
    } else if text_is(ext, "gitignore") {
        "git"
    } else if text_is(ext, "txt") {
        "text"
    } else {
        "file"
    };
    String::from_str(tag)
}

/// The tag of a file by its name.
pub fn get_file_type(name: &str) -> (r: String)
    ensures
        r@ == file_type_tag(name@),
{
    let chars = chars_of(name);
    let dot = find_last_dot(&chars);
    if dot == 0 {
        return String::from_str("file");
    }
    let segment = text_of(slice_subrange(chars.as_slice(), dot, chars.len()));
    let ext = lowercase(segment.as_str());
    tag_of_extension(&ext)
}

/// The path of an entry under a directory's path.
pub fn join_path(base: &str, name: &str) -> (r: String)
    ensures
        r@ == joined(base@, name@),
{
    if base.unicode_len() == 0 {
        String::from_str(name)
    } else {
        proof {
            reveal_strlit("/");
            assert("/"@ == seq!['/']);
        }
        String::from_str(base).concat("/").concat(name)
    }
}

/// The entry that a tree entry becomes under a directory's path.
pub fn make_item(base: &str, name: Option<String>, content: EntryContent) -> (r: Option<FileTreeItem>)
    ensures
        is_item_of(r, base@, name, content),
{
    let name = match name {
        Some(n) => n,
        None => String::from_str("unknown"),
    };
    match content {
        EntryContent::Directory(entries) => Some(
            FileTreeItem {
                path: join_path(base, name.as_str()),
                name,
                is_directory: true,
                children: Some(entries),
                size: None,
                file_type: String::from_str("folder"),
            },
        ),
        EntryContent::File(size) => Some(
            FileTreeItem {
                path: join_path(base, name.as_str()),
                file_type: get_file_type(name.as_str()),
                name,
                is_directory: false,
                children: None,
                size: Some(size as u64),
            },
        ),
        EntryContent::Other => None,
    }
}

/// Whether an entry with the first key may stand before one with the second.
fn key_in_order(a_directory: bool, a_name: &Vec<char>, b_directory: bool, b_name: &Vec<char>) -> (r:
    bool)
    ensures
        r == if a_directory != b_directory {
            a_directory
        } else {
            lex_le(a_name@, b_name@)
        },
{
    if a_directory != b_directory {
        a_directory
    } else {
        lex_before(a_name, b_name)
    }
}

/// The entries of a level in sorted order: directories first, then by name
/// without regard to case; entries that this does not tell apart keep the
/// order in which they came.
pub fn sort_level(items: Vec<FileTreeItem>) -> (r: Vec<FileTreeItem>)
    ensures
        r@ == ordered(items@),
        level_sorted(r@),
        r@.len() == items@.len(),
        r@.to_multiset() == items@.to_multiset(),
{
    let ghost given = items@;
    let mut input = items;
    let mut out: Vec<FileTreeItem> = Vec::new();
    let mut names: Vec<Vec<char>> = Vec::new();
    let ghost mut taken: int = 0;
    while input.len() > 0
        invariant
            0 <= taken,
            taken + input@.len() == given.len(),
            input@ == given.skip(taken),
            out@ == ordered(given.take(taken)),
            names@.len() == out@.len(),
            forall|k: int| 0 <= k < out@.len() ==> (#[trigger] names@[k])@ == sort_name(out@[k]),
        decreases input@.len(),
    {
        let item = input.remove(0);
        let lower = lowercase(item.name.as_str());
        let name = chars_of(lower.as_str());
        proof {
            assert(given.take(taken + 1).drop_last() == given.take(taken));
            assert(given.take(taken + 1).last() == item);
            assert(given.skip(taken).remove(0) == given.skip(taken + 1));
            assert(out@.take(out@.len() as int) == out@);
        }
        let mut at: usize = out.len();
        while at > 0 && !key_in_order(
            out[at - 1].is_directory,
            &names[at - 1],
            item.is_directory,
            &name,
        )
            invariant
                at <= out@.len(),
                names@.len() == out@.len(),
                name@ == sort_name(item),
                forall|k: int| 0 <= k < out@.len() ==> (#[trigger] names@[k])@ == sort_name(out@[k]),
                insert_point(out@, item) == insert_point(out@.take(at as int), item),
            decreases at,
        {
            proof {
                assert(out@.take(at as int).drop_last() == out@.take(at - 1));
            }
            at -= 1;
        }
        proof {
            assert(at == insert_point(out@, item)) by {
                if at > 0 {
                    assert(out@.take(at as int).last() == out@[at - 1]);
                }
            }
        }
        out.insert(at, item);
        names.insert(at, name);
        proof {
            taken = taken + 1;
        }
    }
    proof {
        assert(given.take(given.len() as int) == given);
        lemma_ordered_is_sorted(given);
    }
    out
}

/// The failures of a query for a file tree.
pub open spec fn is_tree_failure(e: QueryError) -> bool {
    ||| e is RepositoryNotFound
    ||| e is InvalidCommitId
    ||| e is CommitNotFound
    ||| e is Store
}

/// The hierarchy of a level of nodes under the directory with the path
/// `base`: one item for each node that names a tree or a blob, none for any
/// other, in sorted order; a directory holds the hierarchy of its node's
/// entries under its own path.
pub fn render_level(nodes: &Vec<TreeNode>, base: &str) -> (r: Vec<FileTreeItem>)
    ensures
        level_renders(r@, nodes@, base@),
        tree_well_formed(r@),
        tree_placed(r@, base@),
    decreases nodes,
{
    let mut items: Vec<FileTreeItem> = Vec::new();
    let ghost mut raw: Seq<Option<FileTreeItem>> = Seq::empty();
    let mut i: usize = 0;
    while i < nodes.len()
        invariant
            i <= nodes.len(),
            raw.len() == i,
            forall|k: int| 0 <= k < i ==> renders(#[trigger] raw[k], nodes@[k], base@),
            items@ == present(raw),
            forall|k: int| 0 <= k < items@.len() ==> item_well_formed(#[trigger] items@[k]),
            tree_placed(items@, base@),
        decreases nodes.len() - i,
    {
        let node = &nodes[i];
        let name = match &node.name {
            Some(n) => Some(n.clone()),
            None => None,
        };
        let content = match node.kind {
            EntryKind::Tree => {
                let own = match &node.name {
                    Some(n) => n.clone(),
                    None => String::from_str("unknown"),
                };
                let path = join_path(base, own.as_str());
                EntryContent::Directory(render_level(&node.children, path.as_str()))
            },
            EntryKind::Blob => EntryContent::File(node.size),
            _ => EntryContent::Other,
        };
        let made = make_item(base, name, content);
        proof {
            assert(renders(made, *node, base@));
            assert(raw.push(made).drop_last() == raw);
            raw = raw.push(made);
        }
        match made {
            Some(item) => {
                items.push(item);
            },
            None => {},
        }
        i += 1;
    }
    let sorted = sort_level(items);
    proof {
        assert(renders_each(raw, nodes@, base@));
        assert forall|k: int| 0 <= k < sorted@.len() implies item_well_formed(
            #[trigger] sorted@[k],
        ) && item_placed(sorted@[k], base@) by {
            sorted@.to_multiset_ensures();
            items@.to_multiset_ensures();
            assert(sorted@.contains(sorted@[k]));
            assert(sorted@.to_multiset().count(sorted@[k]) > 0);
            assert(items@.contains(sorted@[k]));
        }
    }
    sorted
}

/// The entries of a tree at hand with all that lies below them, as plain
/// values: one node for each entry, in the tree's order, with the entry's
/// name and kind; for a blob its size, for a tree its own entries. The walk
/// descends at most `depth` levels.
pub(crate) fn read_tree(repo: &git2::Repository, tree: &git2::Tree<'_>, depth: usize) -> (r: Result<
    Vec<TreeNode>,
    QueryError,
>)
    ensures
        r is Ok ==> nodes_of(r->Ok_0@, tree_entries(*tree)),
        r is Err ==> r->Err_0 is Store,
    decreases depth,
{
    let count = entry_count(tree);
    let mut nodes: Vec<TreeNode> = Vec::new();
    let mut at: usize = 0;
    while at < count
        invariant
            at <= count,
            count == tree_entries(*tree).len(),
            nodes@.len() == at,
            forall|i: int|
                0 <= i < at ==> (opt_view((#[trigger] nodes@[i]).name), nodes@[i].kind)
                    == tree_entries(*tree)[i],
        decreases count - at,
    {
        let entry = match read_entry(tree, at) {
            Some(entry) => entry,
            None => {
                return Err(QueryError::Store { message: String::from_str("the tree ends early") });
            },
        };
        let mut size: usize = 0;
        let mut children: Vec<TreeNode> = Vec::new();
        match entry.kind {
            EntryKind::Tree => {
                if depth == 0 {
                    return Err(
                        QueryError::Store { message: String::from_str("the tree is too deep") },
                    );
                }
                let subtree = match find_tree(repo, &entry.id) {
                    Ok(subtree) => subtree,
                    Err(e) => {
                        return Err(store_failure(&e));
                    },
                };
                children = read_tree(repo, &subtree, depth - 1)?;
            },
            EntryKind::Blob => {
                match find_blob(repo, &entry.id) {
                    Ok(blob) => {
                        size = blob_size(&blob);
                    },
                    Err(e) => {
                        return Err(store_failure(&e));
                    },
                }
            },
            _ => {},
        }
        nodes.push(TreeNode { name: entry.name, kind: entry.kind, size, children });
        at += 1;
    }
    Ok(nodes)
}

/// The hierarchy below a tree whose path is `base`, descending at most
/// `depth` levels: the hierarchy of the nodes that the tree's entries are
/// read into.
pub(crate) fn build_tree(
    repo: &git2::Repository,
    tree: &git2::Tree<'_>,
    base: &str,
    depth: usize,
) -> (r: Result<Vec<FileTreeItem>, QueryError>)
    ensures
        r is Ok ==> exists|nodes: Seq<TreeNode>| #[trigger]
            nodes_of(nodes, tree_entries(*tree)) && level_renders(r->Ok_0@, nodes, base@),
        r is Ok ==> tree_well_formed(r->Ok_0@),
        r is Ok ==> tree_placed(r->Ok_0@, base@),
        r is Err ==> r->Err_0 is Store,
{
    let nodes = read_tree(repo, tree, depth)?;
    Ok(render_level(&nodes, base))
}

/// The file tree of a commit: every directory with its entries, every file
/// with its size and the tag of its extension, each level sorted, and every
/// path relative to the root of the tree.
pub fn get_commit_file_tree(path: String, commit_id: String) -> (r: Result<
    Vec<FileTreeItem>,
    QueryError,
>)
    ensures
        !is_hex_id(commit_id@) ==> r is Err && is_id_failure(r->Err_0),
        r is Err && r->Err_0 is InvalidCommitId ==> !is_hex_id(commit_id@),
        r is Ok ==> exists|nodes: Seq<TreeNode>| #[trigger]
            level_renders(r->Ok_0@, nodes, Seq::empty()),
        r is Ok ==> tree_well_formed(r->Ok_0@),
        r is Ok ==> tree_placed(r->Ok_0@, Seq::empty()),
        r is Err ==> is_tree_failure(r->Err_0),
{
    let repo = open(path.as_str())?;
    let oid = read_id(commit_id.as_str())?;
    let _ = find_commit(&repo, &oid)?;
    let tree = match commit_tree(&repo, &oid) {
        Ok(tree) => tree,
        Err(e) => {
            return Err(store_failure(&e));
        },
    };
    proof {
        reveal_strlit("");
        assert(""@ == Seq::<char>::empty());
    }
    build_tree(&repo, &tree, "", MAX_DEPTH)
}

} // verus!
