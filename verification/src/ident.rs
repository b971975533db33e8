//! Names derived from an asset's path: the bare file name, the extension and
//! the symbol under which the asset is exported.

use vstd::prelude::*;
use vstd::string::*;

verus! {

/// The index of the last occurrence of `c` in `s`, or `-1` where `s` does not hold `c`.
pub open spec fn last_index_of(s: Seq<char>, c: char) -> int
    decreases s.len(),
{
    if s.len() == 0 {
        -1
    } else if s.last() == c {
        s.len() - 1
    } else {
        last_index_of(s.drop_last(), c)
    }
}

/// Where the file name starts in `path`: behind the last `/`, or at the front.
pub open spec fn name_start(path: Seq<char>) -> int {
    last_index_of(path, '/') + 1
}

/// `path` holds a period, so that it has an extension.
pub open spec fn has_period(path: Seq<char>) -> bool {
    last_index_of(path, '.') >= 0
}

/// `path` names an asset: its last period does not stand before its last `/`,
/// so that a bare file name lies between the two.
pub open spec fn is_asset_path(path: Seq<char>) -> bool {
    name_start(path) <= last_index_of(path, '.')
}

/// The bare file name: what stands behind the last `/` and before the last period.
pub open spec fn basename(path: Seq<char>) -> Seq<char> {
    path.subrange(name_start(path), last_index_of(path, '.'))
}

/// The extension: what stands behind the last period.
pub open spec fn extension(path: Seq<char>) -> Seq<char> {
    path.subrange(last_index_of(path, '.') + 1, path.len() as int)
}

/// The symbol of the asset at `path`: `generated_`, the bare file name, `_`, the extension.
pub open spec fn symbol_name(path: Seq<char>) -> Seq<char> {
    "generated_"@ + basename(path) + "_"@ + extension(path)
}

/// `last_index_of` gives an index of `c` behind which `c` does not occur again,
/// and `-1` exactly where `c` does not occur at all.
pub proof fn lemma_last_index_of(s: Seq<char>, c: char)
    ensures
        -1 <= last_index_of(s, c) < s.len(),
        last_index_of(s, c) >= 0 ==> s[last_index_of(s, c)] == c,
        forall|j: int| last_index_of(s, c) < j < s.len() ==> s[j] != c,
        last_index_of(s, c) >= 0 <==> s.contains(c),
    decreases s.len(),
{
    if s.len() > 0 && s.last() != c {
        let front = s.drop_last();
        lemma_last_index_of(front, c);
        assert forall|j: int| last_index_of(s, c) < j < s.len() implies s[j] != c by {
            if j < front.len() {
                assert(front[j] == s[j]);
            }
        }
        if last_index_of(s, c) >= 0 {
            assert(s[last_index_of(s, c)] == front[last_index_of(front, c)]);
        }
        if s.contains(c) {
            let i = choose|i: int| 0 <= i < s.len() && s[i] == c;
            assert(front[i] == c);
        }
    }
}

/// An index of `c` behind which `c` does not occur again is the one that
/// `last_index_of` gives.
pub proof fn lemma_last_index_is(s: Seq<char>, c: char, i: int)
    requires
        0 <= i < s.len(),
        s[i] == c,
        forall|j: int| i < j < s.len() ==> s[j] != c,
    ensures
        last_index_of(s, c) == i,
{
    lemma_last_index_of(s, c);
    let k = last_index_of(s, c);
    if k < i {
        assert(s[i] != c);
    }
}

/// A path that names an asset holds a period.
pub proof fn lemma_asset_path_has_period(path: Seq<char>)
    requires
        is_asset_path(path),
    ensures
        has_period(path),
{
    lemma_last_index_of(path, '/');
}

/// A path that names an asset is its directory part, its bare file name, a
/// period and its extension. The directory part is empty or ends in `/`, the
/// bare file name holds no `/`, and the extension holds neither `/` nor a
/// period.
pub proof fn lemma_parts_of_asset_path(path: Seq<char>)
    requires
        is_asset_path(path),
    ensures
        path == path.take(name_start(path)) + basename(path) + "."@ + extension(path),
        name_start(path) == 0 || path.take(name_start(path)).last() == '/',
        !basename(path).contains('/'),
        !extension(path).contains('/'),
        !extension(path).contains('.'),
{
    reveal_strlit(".");
    lemma_last_index_of(path, '/');
    lemma_last_index_of(path, '.');
    let start = name_start(path);
    let dot = last_index_of(path, '.');
    assert(path =~= path.take(start) + basename(path) + "."@ + extension(path));
    if basename(path).contains('/') {
        let i = choose|i: int| 0 <= i < basename(path).len() && basename(path)[i] == '/';
        assert(path[start + i] == '/');
    }
    if extension(path).contains('/') {
        let i = choose|i: int| 0 <= i < extension(path).len() && extension(path)[i] == '/';
        assert(path[dot + 1 + i] == '/');
    }
    if extension(path).contains('.') {
        let i = choose|i: int| 0 <= i < extension(path).len() && extension(path)[i] == '.';
        assert(path[dot + 1 + i] == '.');
    }
}

/// A path put together from a directory part that is empty or ends in `/`, a
/// bare file name without `/`, a period and an extension without `/` and
/// without a period is taken apart into the same name and extension, and its
/// symbol is `generated_`, the name, `_` and the extension.
pub proof fn lemma_symbol_name_of_parts(dir: Seq<char>, name: Seq<char>, ext: Seq<char>)
    requires
        dir.len() == 0 || dir.last() == '/',
        !name.contains('/'),
        !ext.contains('/'),
        !ext.contains('.'),
    ensures
        is_asset_path(dir + name + "."@ + ext),
        basename(dir + name + "."@ + ext) == name,
        extension(dir + name + "."@ + ext) == ext,
        symbol_name(dir + name + "."@ + ext) == "generated_"@ + name + "_"@ + ext,
{
    reveal_strlit(".");
    let path = dir + name + "."@ + ext;
    let dot: int = (dir.len() + name.len()) as int;
    assert(path[dot] == '.');
    assert forall|j: int| dot < j < path.len() implies path[j] != '.' && path[j] != '/' by {
        assert(path[j] == ext[j - dot - 1]);
    }
    lemma_last_index_is(path, '.', dot);
    if dir.len() > 0 {
        let slash: int = (dir.len() - 1) as int;
        assert(path[slash] == '/');
        assert forall|j: int| slash < j < path.len() implies path[j] != '/' by {
            if j < dot {
                assert(path[j] == name[j - dir.len()]);
            }
        }
        lemma_last_index_is(path, '/', slash);
    } else {
        lemma_last_index_of(path, '/');
        if last_index_of(path, '/') >= 0 {
            let k = last_index_of(path, '/');
            if k < dot {
                assert(path[k] == name[k]);
            }
        }
    }
    assert(basename(path) =~= name);
    assert(extension(path) =~= ext);
}

/// Finds the last occurrence of `c` in `s`, counted in characters.
fn find_last(s: &str, c: char) -> (r: Option<usize>)
    ensures
        s@.len() <= usize::MAX,
        match r {
            Some(i) => i as int == last_index_of(s@, c) && i < s@.len(),
            None => last_index_of(s@, c) == -1,
        },
{
    let len: usize = s.unicode_len();
    let mut found: Option<usize> = None;
    let mut n: usize = 0;
    for x in it: s.chars()
        invariant
            n == it.index(),
            it.seq() == s@,
            len == s@.len(),
            match found {
                Some(i) => i as int == last_index_of(s@.take(n as int), c),
                None => last_index_of(s@.take(n as int), c) == -1,
            },
    {
        assert(s@.take(n + 1).drop_last() =~= s@.take(n as int));
        if x == c {
            found = Some(n);
        }
        n = n + 1;
    }
    assert(s@.take(n as int) =~= s@);
    proof {
        lemma_last_index_of(s@, c);
    }
    found
}

/// Says whether `path` holds a period, as `get_extension_from_filename` asks.
pub fn has_extension(path: &str) -> (b: bool)
    ensures
        b == has_period(path@),
{
    find_last(path, '.').is_some()
}

/// Says whether `path` names an asset, as the functions that derive a bare
/// file name or a symbol from it ask.
pub fn names_asset(path: &str) -> (b: bool)
    ensures
        b == is_asset_path(path@),
        b ==> has_period(path@),
{
    let start: usize = match find_last(path, '/') {
        Some(i) => i + 1,
        None => 0,
    };
    match find_last(path, '.') {
        Some(dot) => start <= dot,
        None => false,
    }
}

/// The bare file name as a part of `path`.
fn bare_name(path: &str) -> (name: &str)
    requires
        is_asset_path(path@),
    ensures
        name@ == basename(path@),
{
    let start: usize = match find_last(path, '/') {
        Some(i) => i + 1,
        None => 0,
    };
    match find_last(path, '.') {
        Some(dot) => path.substring_char(start, dot),
        None => path,
    }
}

/// The bare file name of `file_path`, without its directories and its extension.
pub fn get_file_name_no_folder(file_path: &String) -> (name: String)
    requires
        is_asset_path(file_path@),
    ensures
        name@ == basename(file_path@),
{
    bare_name(file_path.as_str()).to_owned()
}

/// The extension of `filename`: what follows its last period.
pub fn get_extension_from_filename(filename: &str) -> (ext: &str)
    requires
        has_period(filename@),
    ensures
        ext@ == extension(filename@),
{
    let len: usize = filename.unicode_len();
    match find_last(filename, '.') {
        Some(dot) => filename.substring_char(dot + 1, len),
        None => filename,
    }
}

/// The symbol under which the asset at `file_path` is exported.
pub fn create_variable_name(file_path: &str) -> (symbol: String)
    requires
        is_asset_path(file_path@),
    ensures
        symbol@ == symbol_name(file_path@),
{
    proof {
        lemma_asset_path_has_period(file_path@);
    }
    let mut symbol = String::from_str("generated_");
    symbol.append(bare_name(file_path));
    symbol.append("_");
    symbol.append(get_extension_from_filename(file_path));
    symbol
}

} // verus!
