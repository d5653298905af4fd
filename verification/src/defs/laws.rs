use vstd::prelude::*;

use crate::defs::db::{
    crate_index, crate_root_dir, file_index, lemma_crate_index_at, lemma_crate_index_none,
    lemma_file_index_at, lemma_file_index_none, syntax_of, unique_crates, unique_files,
    with_crate_root, with_file_syntax, ItemView,
};
use crate::defs::db::{DefsDatabase, MacroPlugin, PluginResultView};
use crate::defs::db::ItemKind;
use crate::defs::ids::{
    FileView, ItemIdView, ModuleFileView, ModuleItemView, ModuleView, SubmoduleView, VirtualSubmoduleView,
};
use crate::defs::data::unique_keys;
use crate::defs::items::{
    all_named, insert_all, lemma_map_insert_unique, map_get, module_item_of, module_items_spec,
    module_submodules_spec, named_entries, submodule_of,
};
use crate::defs::db::crate_ids;
use crate::defs::items::module_files_of;
use crate::defs::modules::{
    append_all, crates_file_pairs, file_module_mapping, files_with_module, map_append,
    lemma_submodule_measure, module_file_pairs, module_measure, modules_under,
    modules_under_children, submodules_or_empty,
};
use crate::defs::spec::{
    entries_of_kind, file_children, file_diagnostics, files_diagnostics, item_diagnostics, files_from, files_items_of_kind, generated_file, item_files,
    items_of, items_of_kind, level_children, map_insert, module_data_spec, module_files_spec,
    module_main_file_spec, ModuleDataView,
};

verus! {

/// Setting the root directory of a crate keeps each crate once.
proof fn lemma_with_crate_root_unique(roots: Seq<(u64, Seq<Seq<char>>)>, c: u64, d: Seq<Seq<char>>)
    requires
        unique_crates(roots),
    ensures
        unique_crates(with_crate_root(roots, c, d)),
{
    let r = with_crate_root(roots, c, d);
    match crate_index(roots, c) {
        Some(i) => {
            assert forall|a: int, b: int|
                #![trigger r[a], r[b]]
                0 <= a < r.len() && 0 <= b < r.len() && r[a].0 == r[b].0 implies a == b by {
                assert(r[a].0 == roots[a].0);
                assert(r[b].0 == roots[b].0);
            }
        },
        None => {
            assert forall|a: int, b: int|
                #![trigger r[a], r[b]]
                0 <= a < r.len() && 0 <= b < r.len() && r[a].0 == r[b].0 implies a == b by {
                if a < roots.len() {
                    assert(r[a] == roots[a]);
                }
                if b < roots.len() {
                    assert(r[b] == roots[b]);
                }
            }
        },
    }
}

/// A read gives back what a write wrote: once the root directory of crate `c` is set to
/// `d`, the root directory of `c` is `d`, and that of every other crate is what it was.
pub proof fn law_crate_root_read_after_write(
    roots: Seq<(u64, Seq<Seq<char>>)>,
    c: u64,
    d: Seq<Seq<char>>,
    other: u64,
)
    requires
        unique_crates(roots),
    ensures
        crate_root_dir(with_crate_root(roots, c, d), c) == Some(d),
        other != c ==> crate_root_dir(with_crate_root(roots, c, d), other) == crate_root_dir(
            roots,
            other,
        ),
{
    let r = with_crate_root(roots, c, d);
    lemma_with_crate_root_unique(roots, c, d);
    let i = match crate_index(roots, c) {
        Some(i) => i,
        None => roots.len() as int,
    };
    assert(r[i] == (c, d));
    lemma_crate_index_at(r, c, i);
    if other != c {
        match crate_index(roots, other) {
            Some(j) => {
                assert(r[j] == roots[j]);
                lemma_crate_index_at(r, other, j);
            },
            None => {
                assert forall|k: int| 0 <= k < r.len() implies (#[trigger] r[k]).0 != other by {
                    if k != i {
                        assert(r[k] == roots[k]);
                    }
                }
                lemma_crate_index_none(r, other);
            },
        }
    }
}

/// Setting the parsed items of a file keeps each file once.
proof fn lemma_with_file_syntax_unique(
    syntax: Seq<(FileView, Seq<ItemView>)>,
    f: FileView,
    items: Seq<ItemView>,
)
    requires
        unique_files(syntax),
    ensures
        unique_files(with_file_syntax(syntax, f, items)),
{
    let r = with_file_syntax(syntax, f, items);
    match file_index(syntax, f) {
        Some(i) => {
            assert forall|a: int, b: int|
                #![trigger r[a], r[b]]
                0 <= a < r.len() && 0 <= b < r.len() && r[a].0 == r[b].0 implies a == b by {
                assert(r[a].0 == syntax[a].0);
                assert(r[b].0 == syntax[b].0);
            }
        },
        None => {
            assert forall|a: int, b: int|
                #![trigger r[a], r[b]]
                0 <= a < r.len() && 0 <= b < r.len() && r[a].0 == r[b].0 implies a == b by {
                if a < syntax.len() {
                    assert(r[a] == syntax[a]);
                }
                if b < syntax.len() {
                    assert(r[b] == syntax[b]);
                }
            }
        },
    }
}

/// A read gives back what a write wrote: once the parsed items of file `f` are set to
/// `items`, the parsed items of `f` are `items`, and those of every other file are what
/// they were.
pub proof fn law_file_syntax_read_after_write(
    syntax: Seq<(FileView, Seq<ItemView>)>,
    f: FileView,
    items: Seq<ItemView>,
    other: FileView,
)
    requires
        unique_files(syntax),
    ensures
        syntax_of(with_file_syntax(syntax, f, items), f) == Some(items),
        other != f ==> syntax_of(with_file_syntax(syntax, f, items), other) == syntax_of(
            syntax,
            other,
        ),
{
    let r = with_file_syntax(syntax, f, items);
    lemma_with_file_syntax_unique(syntax, f, items);
    let i = match file_index(syntax, f) {
        Some(i) => i,
        None => syntax.len() as int,
    };
    assert(r[i] == (f, items));
    lemma_file_index_at(r, f, i);
    if other != f {
        match file_index(syntax, other) {
            Some(j) => {
                assert(r[j] == syntax[j]);
                lemma_file_index_at(r, other, j);
            },
            None => {
                assert forall|k: int| 0 <= k < r.len() implies (#[trigger] r[k]).0 != other by {
                    if k != i {
                        assert(r[k] == syntax[k]);
                    }
                }
                lemma_file_index_none(r, other);
            },
        }
    }
}

/// `x` is a file that a plugin generated from an item of `f`.
pub open spec fn child_of(x: FileView, f: FileView) -> bool {
    x matches FileView::Virtual(Some(p), _, _) && *p == f
}

/// `x` is a file that a plugin generated from an item of one of the files `s`.
pub open spec fn parent_among(x: FileView, s: Seq<FileView>) -> bool {
    x matches FileView::Virtual(Some(p), _, _) && s.contains(*p)
}

/// The files that plugins generate for an item of `f` are children of `f`.
proof fn lemma_item_files_children<P: MacroPlugin>(plugins: Seq<P>, f: FileView, item: ItemView)
    ensures
        forall|j: int|
            0 <= j < item_files(plugins, f, item).len() ==> child_of(
                #[trigger] item_files(plugins, f, item)[j],
                f,
            ),
    decreases plugins.len(),
{
    if plugins.len() > 0 {
        lemma_item_files_children(plugins.drop_last(), f, item);
        let a = item_files(plugins.drop_last(), f, item);
        let b = generated_file(f, plugins.last().generated(item));
        assert forall|j: int| 0 <= j < (a + b).len() implies child_of(#[trigger] (a + b)[j], f) by {
            if j < a.len() {
                assert((a + b)[j] == a[j]);
            } else {
                assert((a + b)[j] == b[j - a.len()]);
            }
        }
    }
}

/// The files that plugins generate for the items of `f` are children of `f`.
proof fn lemma_file_children_children<P: MacroPlugin>(plugins: Seq<P>, f: FileView, items: Seq<ItemView>)
    ensures
        forall|j: int|
            0 <= j < file_children(plugins, f, items).len() ==> child_of(
                #[trigger] file_children(plugins, f, items)[j],
                f,
            ),
    decreases items.len(),
{
    if items.len() > 0 {
        lemma_file_children_children(plugins, f, items.drop_last());
        lemma_item_files_children(plugins, f, items.last());
        let a = file_children(plugins, f, items.drop_last());
        let b = item_files(plugins, f, items.last());
        assert forall|j: int| 0 <= j < (a + b).len() implies child_of(#[trigger] (a + b)[j], f) by {
            if j < a.len() {
                assert((a + b)[j] == a[j]);
            } else {
                assert((a + b)[j] == b[j - a.len()]);
            }
        }
    }
}

/// The files that plugins generate from the files `level` have their parents in `level`.
proof fn lemma_level_children_parents<P: MacroPlugin>(db: &DefsDatabase<P>, level: Seq<FileView>)
    ensures
        forall|j: int|
            0 <= j < level_children(db, level).len() ==> parent_among(
                #[trigger] level_children(db, level)[j],
                level,
            ),
    decreases level.len(),
{
    if level.len() > 0 {
        let init = level.drop_last();
        let f = level.last();
        lemma_level_children_parents(db, init);
        lemma_file_children_children(db.plugins(), f, items_of(db, f));
        let a = level_children(db, init);
        let b = file_children(db.plugins(), f, items_of(db, f));
        assert forall|j: int| 0 <= j < (a + b).len() implies parent_among(#[trigger] (a + b)[j], level) by {
            if j < a.len() {
                assert((a + b)[j] == a[j]);
                assert(parent_among(a[j], init));
                let p = a[j]->Virtual_0->0;
                let k = choose|k: int| 0 <= k < init.len() && init[k] == *p;
                assert(level[k] == init[k]);
            } else {
                assert((a + b)[j] == b[j - a.len()]);
                assert(child_of(b[j - a.len()], f));
                assert(level[level.len() - 1] == f);
            }
        }
    }
}

/// The files reached from `level` start with `level`, and each of the others was
/// generated from a file that comes before it.
proof fn lemma_files_from_shape<P: MacroPlugin>(db: &DefsDatabase<P>, level: Seq<FileView>, fuel: nat)
    requires
        files_from(db, level, fuel) is Some,
    ensures
        ({
            let fs = files_from(db, level, fuel)->0;
            &&& level.len() <= fs.len()
            &&& forall|i: int| 0 <= i < level.len() ==> fs[i] == level[i]
            &&& forall|i: int| level.len() <= i < fs.len() ==> parent_among(#[trigger] fs[i], fs.take(i))
        }),
    decreases fuel,
{
    if level.len() > 0 {
        let children = level_children(db, level);
        lemma_level_children_parents(db, level);
        lemma_files_from_shape(db, children, (fuel - 1) as nat);
        let rest = files_from(db, children, (fuel - 1) as nat)->0;
        let fs = level + rest;
        assert(files_from(db, level, fuel)->0 == fs);
        assert forall|i: int| level.len() <= i < fs.len() implies parent_among(#[trigger] fs[i], fs.take(i)) by {
            let j = i - level.len();
            assert(fs[i] == rest[j]);
            if j < children.len() {
                assert(rest[j] == children[j]);
                assert(parent_among(children[j], level));
                let p = children[j]->Virtual_0->0;
                let k = choose|k: int| 0 <= k < level.len() && level[k] == *p;
                assert(fs.take(i)[k] == level[k]);
            } else {
                assert(parent_among(rest[j], rest.take(j)));
                let p = rest[j]->Virtual_0->0;
                let k = choose|k: int| 0 <= k < j && rest.take(j)[k] == *p;
                assert(fs.take(i)[level.len() + k] == rest[k]);
            }
        }
    }
}

/// The main file of a module is the first of its files, and each of its other files was
/// generated by a plugin from an item of a file that comes before it.
pub proof fn law_module_files_start_with_main<P: MacroPlugin>(db: &DefsDatabase<P>, m: crate::defs::ids::ModuleView)
    requires
        module_data_spec(db, m) is Some,
    ensures
        ({
            let files = module_data_spec(db, m)->0.files;
            &&& 1 <= files.len()
            &&& files[0] == module_main_file_spec(db, m)->0
            &&& forall|i: int| 1 <= i < files.len() ==> parent_among(#[trigger] files[i], files.take(i))
        }),
{
    let main = module_main_file_spec(db, m)->0;
    lemma_files_from_shape(db, seq![main], crate::defs::spec::max_depth(db.syntax()) + 1);
    assert(module_files_spec(db, m) == files_from(db, seq![main], crate::defs::spec::max_depth(db.syntax()) + 1));
}

/// The entry `e` of the items of kind `kind` of module `m`, whose files are `files`, is
/// declared in one of them: its identifier names `m` and the position of a file, and its
/// item, of kind `kind` and at the pointer of the identifier, is a parsed item of that
/// file.
pub open spec fn declared_in<P: MacroPlugin>(
    db: &DefsDatabase<P>,
    m: ModuleView,
    files: Seq<FileView>,
    kind: ItemKind,
    e: (ItemIdView, ItemView),
) -> bool {
    &&& e.0.module_file.module == m
    &&& e.0.module_file.index < files.len()
    &&& e.1.kind == kind
    &&& e.1.ptr == e.0.ptr
    &&& items_of(db, files[e.0.module_file.index as int]).contains(e.1)
}

/// Each entry of an ordered map after an insertion is an entry it had or the one
/// inserted.
proof fn lemma_map_insert_entry<K, V>(s: Seq<(K, V)>, k: K, v: V, a: int)
    requires
        0 <= a < map_insert(s, k, v).len(),
    ensures
        a < s.len() ==> map_insert(s, k, v)[a].0 == s[a].0,
        map_insert(s, k, v)[a] == s[a] || map_insert(s, k, v)[a] == (k, v),
        map_insert(s, k, v).len() >= s.len(),
{
}

/// After an insertion, an ordered map holds the pair inserted.
proof fn lemma_map_insert_holds<K, V>(s: Seq<(K, V)>, k: K, v: V)
    ensures
        map_insert(s, k, v).contains((k, v)),
{
    let r = map_insert(s, k, v);
    if exists|j: int| 0 <= j < s.len() && (#[trigger] s[j]).0 == k {
        let j = choose|j: int| 0 <= j < s.len() && (#[trigger] s[j]).0 == k;
        assert(r == s.update(j, (s[j].0, v)));
        assert(r[j] == (k, v));
    } else {
        assert(r == s.push((k, v)));
        assert(r[s.len() as int] == (k, v));
    }
}

/// An insertion at another key keeps each pair that an ordered map holds.
proof fn lemma_map_insert_keeps<K, V>(s: Seq<(K, V)>, k: K, v: V, e: (K, V))
    requires
        s.contains(e),
        e.0 != k,
    ensures
        map_insert(s, k, v).contains(e),
{
    let a = choose|a: int| 0 <= a < s.len() && s[a] == e;
    lemma_map_insert_entry(s, k, v, a);
    assert(map_insert(s, k, v)[a] == e);
}

/// Where every entry of `acc` is declared in `files`, so is every entry that the items
/// `items`, all parsed items of the file at `mf`, add.
proof fn lemma_items_of_kind_declared<P: MacroPlugin>(
    db: &DefsDatabase<P>,
    m: ModuleView,
    files: Seq<FileView>,
    acc: Seq<(ItemIdView, ItemView)>,
    mf: ModuleFileView,
    items: Seq<ItemView>,
    kind: ItemKind,
)
    requires
        mf.module == m,
        mf.index < files.len(),
        forall|x: ItemView| items.contains(x) ==> items_of(db, files[mf.index as int]).contains(x),
        forall|a: int| 0 <= a < acc.len() ==> declared_in(db, m, files, kind, #[trigger] acc[a]),
    ensures
        ({
            let r = items_of_kind(acc, mf, items, kind);
            forall|a: int| 0 <= a < r.len() ==> declared_in(db, m, files, kind, #[trigger] r[a])
        }),
    decreases items.len(),
{
    if items.len() > 0 {
        let init = items.drop_last();
        assert forall|x: ItemView| init.contains(x) implies items_of(db, files[mf.index as int]).contains(x) by {
            let k = choose|k: int| 0 <= k < init.len() && init[k] == x;
            assert(items[k] == x);
            assert(items.contains(x));
        }
        lemma_items_of_kind_declared(db, m, files, acc, mf, init, kind);
        let before = items_of_kind(acc, mf, init, kind);
        let item = items.last();
        assert(items.contains(item)) by {
            assert(items[items.len() - 1] == item);
        }
        if item.kind == kind {
            let k = ItemIdView { module_file: mf, ptr: item.ptr };
            let r = map_insert(before, k, item);
            assert(declared_in(db, m, files, kind, (k, item)));
            assert forall|a: int| 0 <= a < r.len() implies declared_in(db, m, files, kind, #[trigger] r[a]) by {
                lemma_map_insert_entry(before, k, item, a);
            }
        }
    }
}

/// Every entry of the items of kind `kind` of the files `files` of module `m` is declared
/// in one of them.
proof fn lemma_files_items_declared<P: MacroPlugin>(
    db: &DefsDatabase<P>,
    m: ModuleView,
    files: Seq<FileView>,
    kind: ItemKind,
)
    ensures
        ({
            let r = files_items_of_kind(db, m, files, kind);
            forall|a: int| 0 <= a < r.len() ==> declared_in(db, m, files, kind, #[trigger] r[a])
        }),
    decreases files.len(),
{
    if files.len() > 0 {
        let init = files.drop_last();
        lemma_files_items_declared(db, m, init, kind);
        let acc = files_items_of_kind(db, m, init, kind);
        assert forall|a: int| 0 <= a < acc.len() implies declared_in(db, m, files, kind, #[trigger] acc[a]) by {
            assert(declared_in(db, m, init, kind, acc[a]));
            assert(files[acc[a].0.module_file.index as int] == init[acc[a].0.module_file.index as int]);
        }
        let mf = ModuleFileView { module: m, index: (files.len() - 1) as nat };
        lemma_items_of_kind_declared(db, m, files, acc, mf, items_of(db, files.last()), kind);
    }
}

/// Every item of a module is declared in one of its files: its identifier names the
/// module and the position of one of the module's files, and the item, of the kind under
/// which it is kept, is a parsed item of that file at the pointer that its identifier
/// holds.
pub proof fn law_items_declared_in_module_files<P: MacroPlugin>(
    db: &DefsDatabase<P>,
    m: ModuleView,
    kind: ItemKind,
)
    requires
        module_data_spec(db, m) is Some,
    ensures
        ({
            let d = module_data_spec(db, m)->0;
            forall|j: int|
                0 <= j < entries_of_kind(d, kind).len() ==> declared_in(
                    db,
                    m,
                    d.files,
                    kind,
                    #[trigger] entries_of_kind(d, kind)[j],
                )
        }),
{
    let d = module_data_spec(db, m)->0;
    lemma_files_items_declared(db, m, d.files, kind);
    assert(entries_of_kind(d, kind) == files_items_of_kind(db, m, d.files, kind));
}

/// `x` is a submodule of module `m`, whose files are `files`: either one declared by a
/// `mod` item of one of them (its parent is `m`, and the file at its position holds a
/// `mod` item of its name at its pointer), or a virtual one (its parent is `m`, and its
/// file is one of `m`'s files after the main one, which a plugin generated from an item
/// of a file before it).
pub open spec fn submodule_declared<P: MacroPlugin>(
    db: &DefsDatabase<P>,
    m: ModuleView,
    files: Seq<FileView>,
    x: ModuleView,
) -> bool {
    match x {
        ModuleView::Submodule(sv) => {
            &&& *sv.parent == m
            &&& sv.index < files.len()
            &&& items_of(db, files[sv.index as int]).contains(
                ItemView { kind: ItemKind::Module, name: sv.name, ptr: sv.ptr },
            )
        },
        ModuleView::VirtualSubmodule(vs) => {
            &&& *vs.parent == m
            &&& exists|i: int|
                1 <= i < files.len() && #[trigger] files[i] == vs.file && parent_among(
                    files[i],
                    files.take(i),
                )
        },
        ModuleView::CrateRoot(_) => false,
    }
}

/// Every submodule of a module is declared by a `mod` item of one of the module's files,
/// or is a virtual submodule holding a file that its plugins generated.
pub proof fn law_submodules_declared<P: MacroPlugin>(db: &DefsDatabase<P>, m: ModuleView)
    requires
        module_submodules_spec(db, m) is Some,
    ensures
        ({
            let s = module_submodules_spec(db, m)->0;
            let files = module_data_spec(db, m)->0.files;
            forall|j: int| 0 <= j < s.len() ==> submodule_declared(db, m, files, #[trigger] s[j])
        }),
{
    let d = module_data_spec(db, m)->0;
    let s = module_submodules_spec(db, m)->0;
    let explicit = d.submodules.map_values(
        |e: (ItemIdView, ItemView)| ModuleView::Submodule(submodule_of(e)),
    );
    let virt = crate::defs::items::virtual_submodules_of(m, d.files);
    assert(s == explicit + virt);
    law_items_declared_in_module_files(db, m, ItemKind::Module);
    law_module_files_start_with_main(db, m);
    assert forall|j: int| 0 <= j < s.len() implies submodule_declared(db, m, d.files, #[trigger] s[j]) by {
        if j < explicit.len() {
            let e = d.submodules[j];
            assert(s[j] == explicit[j]);
            assert(entries_of_kind(d, ItemKind::Module)[j] == e);
            assert(declared_in(db, m, d.files, ItemKind::Module, e));
            assert(s[j] == ModuleView::Submodule(submodule_of(e)));
            assert(e.1 == ItemView { kind: ItemKind::Module, name: e.1.name, ptr: e.0.ptr });
        } else {
            let i = j - explicit.len() + 1;
            assert(s[j] == virt[j - explicit.len()]);
            assert(d.files[i] == s[j]->VirtualSubmodule_0.file);
            assert(parent_among(d.files[i], d.files.take(i)));
        }
    }
}

/// The value of the last pair of `s` whose key is `k`, if there is one.
pub open spec fn last_value<K, V>(s: Seq<(K, V)>, k: K) -> Option<V>
    decreases s.len(),
{
    if s.len() == 0 {
        None
    } else if s.last().0 == k {
        Some(s.last().1)
    } else {
        last_value(s.drop_last(), k)
    }
}

/// Where the keys of `s` are unique, the key `k` at position `j` has the value there.
proof fn lemma_map_get_at<K, V>(s: Seq<(K, V)>, k: K, j: int)
    requires
        unique_keys(s),
        0 <= j < s.len(),
        s[j].0 == k,
    ensures
        map_get(s, k) == Some(s[j].1),
{
    let c = choose|c: int| 0 <= c < s.len() && (#[trigger] s[c]).0 == k;
    assert(s[c].0 == s[j].0);
}

/// After an insertion into an ordered map with unique keys, the inserted key has the
/// inserted value and every other key the value it had.
proof fn lemma_map_get_insert<K, V>(s: Seq<(K, V)>, k: K, v: V, q: K)
    requires
        unique_keys(s),
    ensures
        map_get(map_insert(s, k, v), q) == (if q == k {
            Some(v)
        } else {
            map_get(s, q)
        }),
{
    let r = map_insert(s, k, v);
    lemma_map_insert_unique(s, k, v);
    let i = if exists|j: int| 0 <= j < s.len() && (#[trigger] s[j]).0 == k {
        choose|j: int| 0 <= j < s.len() && (#[trigger] s[j]).0 == k
    } else {
        s.len() as int
    };
    assert(r[i] == (k, v)) by {
        if i < s.len() {
            assert(r == s.update(i, (s[i].0, v)));
        } else {
            assert(r == s.push((k, v)));
        }
    }
    if q == k {
        lemma_map_get_at(r, k, i);
    } else {
        assert forall|a: int| 0 <= a < r.len() && a != i implies #[trigger] r[a] == s[a] by {
            if i < s.len() {
                assert(r == s.update(i, (s[i].0, v)));
            } else {
                assert(r == s.push((k, v)));
            }
        }
        if exists|j: int| 0 <= j < s.len() && (#[trigger] s[j]).0 == q {
            let j = choose|j: int| 0 <= j < s.len() && (#[trigger] s[j]).0 == q;
            assert(j != i);
            assert(r[j] == s[j]);
            lemma_map_get_at(r, q, j);
            lemma_map_get_at(s, q, j);
        } else {
            assert forall|a: int| 0 <= a < r.len() implies (#[trigger] r[a]).0 != q by {
                if a != i {
                    assert(r[a] == s[a]);
                }
            }
        }
    }
}

/// Inserting the pairs of `s` in turn into an ordered map with unique keys gives each key
/// the value of its last pair in `s`, and leaves the others as they were.
proof fn lemma_insert_all_get<K, V>(acc: Seq<(K, V)>, s: Seq<(K, V)>, q: K)
    requires
        unique_keys(acc),
    ensures
        unique_keys(insert_all(acc, s)),
        map_get(insert_all(acc, s), q) == (match last_value(s, q) {
            Some(v) => Some(v),
            None => map_get(acc, q),
        }),
    decreases s.len(),
{
    if s.len() > 0 {
        lemma_insert_all_get(acc, s.drop_last(), q);
        let before = insert_all(acc, s.drop_last());
        lemma_map_insert_unique(before, s.last().0, s.last().1);
        lemma_map_get_insert(before, s.last().0, s.last().1, q);
    }
}

/// Looking an item of a module up by name gives the last item of that name that the
/// module declares, taking its submodules, uses, free functions, extern functions,
/// extern types, structs, enums, traits and impls in this order; nothing where it
/// declares no item of that name.
pub proof fn law_item_by_name<P: MacroPlugin>(db: &DefsDatabase<P>, m: ModuleView, name: Seq<char>)
    requires
        module_data_spec(db, m) is Some,
    ensures
        module_items_spec(db, m) is Some,
        map_get(module_items_spec(db, m)->0, name) == last_value(all_named(module_data_spec(db, m)->0), name),
{
    let e = Seq::<(Seq<char>, crate::defs::ids::ModuleItemView)>::empty();
    lemma_insert_all_get(e, all_named(module_data_spec(db, m)->0), name);
}

/// The modules of the pairs of `pairs` whose file is `f`, in order.
pub open spec fn modules_of_file(pairs: Seq<(FileView, ModuleView)>, f: FileView) -> Seq<ModuleView>
    decreases pairs.len(),
{
    if pairs.len() == 0 {
        seq![]
    } else if pairs.last().0 == f {
        modules_of_file(pairs.drop_last(), f).push(pairs.last().1)
    } else {
        modules_of_file(pairs.drop_last(), f)
    }
}

/// `ms` added after the modules `o`, where `ms` is not empty; `o` otherwise.
pub open spec fn extend_modules(o: Option<Seq<ModuleView>>, ms: Seq<ModuleView>) -> Option<Seq<ModuleView>> {
    if ms.len() == 0 {
        o
    } else {
        match o {
            Some(x) => Some(x + ms),
            None => Some(ms),
        }
    }
}

/// After a module is added to the modules of a file in an ordered map with unique keys,
/// the keys stay unique, that file has its modules followed by the module, and every
/// other file has the modules it had.
proof fn lemma_map_get_append(s: Seq<(FileView, Seq<ModuleView>)>, f: FileView, m: ModuleView, q: FileView)
    requires
        unique_keys(s),
    ensures
        unique_keys(map_append(s, f, m)),
        map_get(map_append(s, f, m), q) == (if q == f {
            extend_modules(map_get(s, f), seq![m])
        } else {
            map_get(s, q)
        }),
{
    let r = map_append(s, f, m);
    let found = exists|j: int| 0 <= j < s.len() && (#[trigger] s[j]).0 == f;
    let i = if found {
        choose|j: int| 0 <= j < s.len() && (#[trigger] s[j]).0 == f
    } else {
        s.len() as int
    };
    assert(r.len() == (if found { s.len() } else { s.len() + 1 }));
    assert forall|a: int| 0 <= a < r.len() && a != i implies #[trigger] r[a] == s[a] by {
        if found {
            assert(r == s.update(i, (s[i].0, s[i].1.push(m))));
        } else {
            assert(r == s.push((f, seq![m])));
        }
    }
    assert(r[i].0 == f) by {
        if found {
            assert(r == s.update(i, (s[i].0, s[i].1.push(m))));
        } else {
            assert(r == s.push((f, seq![m])));
        }
    }
    assert forall|a: int, b: int|
        #![trigger r[a], r[b]]
        0 <= a < r.len() && 0 <= b < r.len() && r[a].0 == r[b].0 implies a == b by {
        if a != i && b != i {
            assert(r[a] == s[a]);
            assert(r[b] == s[b]);
        } else if a != i {
            assert(r[a] == s[a]);
            if found {
                assert(s[i].0 == f);
            }
        } else if b != i {
            assert(r[b] == s[b]);
            if found {
                assert(s[i].0 == f);
            }
        }
    }
    if q == f {
        lemma_map_get_at(r, f, i);
        if found {
            assert(r == s.update(i, (s[i].0, s[i].1.push(m))));
            lemma_map_get_at(s, f, i);
            assert(s[i].1.push(m) =~= s[i].1 + seq![m]);
        } else {
            assert(r == s.push((f, seq![m])));
        }
    } else {
        if exists|j: int| 0 <= j < s.len() && (#[trigger] s[j]).0 == q {
            let j = choose|j: int| 0 <= j < s.len() && (#[trigger] s[j]).0 == q;
            assert(j != i);
            assert(r[j] == s[j]);
            lemma_map_get_at(r, q, j);
            lemma_map_get_at(s, q, j);
        } else {
            assert forall|a: int| 0 <= a < r.len() implies (#[trigger] r[a]).0 != q by {
                if a != i {
                    assert(r[a] == s[a]);
                }
            }
        }
    }
}

/// Adding the pairs of `pairs` in turn to an ordered map with unique keys adds to the
/// modules of each file those of its pairs, in order.
proof fn lemma_append_all_get(acc: Seq<(FileView, Seq<ModuleView>)>, pairs: Seq<(FileView, ModuleView)>, q: FileView)
    requires
        unique_keys(acc),
    ensures
        unique_keys(append_all(acc, pairs)),
        map_get(append_all(acc, pairs), q) == extend_modules(map_get(acc, q), modules_of_file(pairs, q)),
    decreases pairs.len(),
{
    if pairs.len() > 0 {
        let init = pairs.drop_last();
        let (f, m) = pairs.last();
        lemma_append_all_get(acc, init, q);
        lemma_append_all_get(acc, init, f);
        let before = append_all(acc, init);
        lemma_map_get_append(before, f, m, q);
        if q == f {
            let o = map_get(acc, q);
            let ms = modules_of_file(init, q);
            if ms.len() == 0 {
                assert(ms.push(m) =~= seq![m]);
            }
            match o {
                Some(x) => {
                    assert(x + ms.push(m) =~= (x + ms) + seq![m]);
                },
                None => {
                    assert(ms.push(m) =~= ms + seq![m]);
                },
            }
        }
    }
}

/// The modules of a file are, in order, the modules whose files include it, taking the
/// crates in turn and the modules of each in depth-first order; a file of no module has
/// none.
pub proof fn law_file_modules<P: MacroPlugin>(db: &DefsDatabase<P>, f: FileView)
    ensures
        ({
            let ms = modules_of_file(crates_file_pairs(db, crate_ids(db.crate_roots())), f);
            map_get(file_module_mapping(db), f) == (if ms.len() == 0 {
                None
            } else {
                Some(ms)
            })
        }),
{
    let e = Seq::<(FileView, Seq<ModuleView>)>::empty();
    lemma_append_all_get(e, crates_file_pairs(db, crate_ids(db.crate_roots())), f);
}

/// An element of a concatenation is an element of one of its parts.
proof fn lemma_concat_contains<A>(a: Seq<A>, b: Seq<A>, x: A)
    ensures
        (a + b).contains(x) <==> a.contains(x) || b.contains(x),
{
    if (a + b).contains(x) {
        let i = choose|i: int| 0 <= i < (a + b).len() && (a + b)[i] == x;
        if i < a.len() {
            assert(a[i] == x);
        } else {
            assert(b[i - a.len()] == x);
        }
    }
    if a.contains(x) {
        let i = choose|i: int| 0 <= i < a.len() && a[i] == x;
        assert((a + b)[i] == x);
    }
    if b.contains(x) {
        let i = choose|i: int| 0 <= i < b.len() && b[i] == x;
        assert((a + b)[a.len() + i] == x);
    }
}

/// A module is among the modules of file `f` in `pairs` exactly when `pairs` pairs `f`
/// with it.
proof fn lemma_modules_of_file_contains(pairs: Seq<(FileView, ModuleView)>, f: FileView, m: ModuleView)
    ensures
        modules_of_file(pairs, f).contains(m) <==> pairs.contains((f, m)),
    decreases pairs.len(),
{
    if pairs.len() > 0 {
        let init = pairs.drop_last();
        lemma_modules_of_file_contains(init, f, m);
        assert(pairs == init + seq![pairs.last()]);
        lemma_concat_contains(init, seq![pairs.last()], (f, m));
        let r = modules_of_file(init, f);
        if pairs.last().0 == f {
            assert(r.push(pairs.last().1) == r + seq![pairs.last().1]);
            lemma_concat_contains(r, seq![pairs.last().1], m);
            assert(seq![pairs.last().1].contains(m) ==> seq![pairs.last().1][0] == m);
            assert(pairs.last().1 == m ==> seq![pairs.last().1][0] == m);
            assert(seq![pairs.last()].contains((f, m)) ==> seq![pairs.last()][0] == (f, m));
            assert(pairs.last() == (f, m) ==> seq![pairs.last()][0] == (f, m));
        } else {
            assert(seq![pairs.last()].contains((f, m)) ==> seq![pairs.last()][0] == (f, m));
        }
    }
}

/// The module `m` has the file `f`.
pub open spec fn module_has_file<P: MacroPlugin>(db: &DefsDatabase<P>, m: ModuleView, f: FileView) -> bool {
    module_files_of(db, m) matches Some(files) && files.contains(f)
}

/// The pairs of the files of the modules `ms` pair `f` with `m` exactly when `m` is one of
/// `ms` and has the file `f`.
proof fn lemma_module_file_pairs_contains<P: MacroPlugin>(
    db: &DefsDatabase<P>,
    ms: Seq<ModuleView>,
    f: FileView,
    m: ModuleView,
)
    ensures
        module_file_pairs(db, ms).contains((f, m)) <==> ms.contains(m) && module_has_file(db, m, f),
    decreases ms.len(),
{
    if ms.len() > 0 {
        let init = ms.drop_last();
        let last = ms.last();
        lemma_module_file_pairs_contains(db, init, f, m);
        lemma_concat_contains(module_file_pairs(db, init), files_with_module(db, last), (f, m));
        assert(ms == init + seq![last]);
        lemma_concat_contains(init, seq![last], m);
        assert(seq![last].contains(m) <==> last == m) by {
            if seq![last].contains(m) {
                assert(seq![last][0] == m);
            }
            if last == m {
                assert(seq![last][0] == m);
            }
        }
        let fw = files_with_module(db, last);
        match module_data_spec(db, last) {
            Some(d) => {
                assert(fw.contains((f, m)) <==> last == m && d.files.contains(f)) by {
                    if fw.contains((f, m)) {
                        let i = choose|i: int| 0 <= i < fw.len() && fw[i] == (f, m);
                        assert(d.files[i] == f);
                    }
                    if last == m && d.files.contains(f) {
                        let i = choose|i: int| 0 <= i < d.files.len() && d.files[i] == f;
                        assert(fw[i] == (f, m));
                    }
                }
            },
            None => {
                assert(!fw.contains((f, m)));
            },
        }
    }
}

/// The module `m` is a module of one of the crates `cs`.
pub open spec fn module_of_crates<P: MacroPlugin>(db: &DefsDatabase<P>, cs: Seq<u64>, m: ModuleView) -> bool {
    exists|c: u64| #[trigger] cs.contains(c) && modules_under(db, ModuleView::CrateRoot(c)).contains(m)
}

/// The pairs of the files of the modules of the crates `cs` pair `f` with `m` exactly when
/// `m` is a module of one of them and has the file `f`.
proof fn lemma_crates_file_pairs_contains<P: MacroPlugin>(
    db: &DefsDatabase<P>,
    cs: Seq<u64>,
    f: FileView,
    m: ModuleView,
)
    ensures
        crates_file_pairs(db, cs).contains((f, m)) <==> module_of_crates(db, cs, m) && module_has_file(db, m, f),
    decreases cs.len(),
{
    if cs.len() > 0 {
        let init = cs.drop_last();
        let last = cs.last();
        let under = modules_under(db, ModuleView::CrateRoot(last));
        lemma_crates_file_pairs_contains(db, init, f, m);
        lemma_concat_contains(crates_file_pairs(db, init), module_file_pairs(db, under), (f, m));
        lemma_module_file_pairs_contains(db, under, f, m);
        assert(cs == init + seq![last]);
        assert forall|c: u64| #[trigger] cs.contains(c) <==> init.contains(c) || c == last by {
            lemma_concat_contains(init, seq![last], c);
            if seq![last].contains(c) {
                assert(seq![last][0] == c);
            }
            if c == last {
                assert(seq![last][0] == c);
            }
        }
        if module_of_crates(db, cs, m) {
            let c = choose|c: u64| #[trigger] cs.contains(c) && modules_under(db, ModuleView::CrateRoot(c)).contains(m);
            if c != last {
                assert(init.contains(c));
                assert(module_of_crates(db, init, m));
            }
        }
        if module_of_crates(db, init, m) {
            let c = choose|c: u64| #[trigger] init.contains(c) && modules_under(db, ModuleView::CrateRoot(c)).contains(m);
            assert(cs.contains(c));
        }
        if under.contains(m) {
            assert(cs.contains(last));
        }
    }
}

/// A file belongs to a module exactly when the module is a module of one of the crates
/// of the database and the file is one of the module's files.
pub proof fn law_file_module_membership<P: MacroPlugin>(db: &DefsDatabase<P>, f: FileView, m: ModuleView)
    ensures
        modules_of_file(crates_file_pairs(db, crate_ids(db.crate_roots())), f).contains(m) <==> module_of_crates(
            db,
            crate_ids(db.crate_roots()),
            m,
        ) && module_has_file(db, m, f),
{
    let cs = crate_ids(db.crate_roots());
    lemma_modules_of_file_contains(crates_file_pairs(db, cs), f, m);
    lemma_crates_file_pairs_contains(db, cs, f, m);
}

/// A module is at or below one of the first `n` submodules of `m` exactly when it is
/// among the modules that `modules_under_children` lists for them.
proof fn lemma_children_contains<P: MacroPlugin>(db: &DefsDatabase<P>, m: ModuleView, n: nat, x: ModuleView)
    requires
        n <= submodules_or_empty(db, m).len(),
    ensures
        modules_under_children(db, m, n).contains(x) <==> exists|i: int|
            0 <= i < n && #[trigger] modules_under(db, submodules_or_empty(db, m)[i]).contains(x),
    decreases n,
{
    if n > 0 {
        let subs = submodules_or_empty(db, m);
        lemma_children_contains(db, m, (n - 1) as nat, x);
        let a = modules_under_children(db, m, (n - 1) as nat);
        let b = modules_under(db, subs[n - 1]);
        assert(modules_under_children(db, m, n) == a + b);
        lemma_concat_contains(a, b, x);
        if exists|i: int| 0 <= i < n && #[trigger] modules_under(db, subs[i]).contains(x) {
            let i = choose|i: int| 0 <= i < n && #[trigger] modules_under(db, subs[i]).contains(x);
            if i < n - 1 {
                assert(a.contains(x));
            }
        }
    }
}

/// Every module at or below a module at or below `r` is itself at or below `r`.
proof fn lemma_modules_under_closed<P: MacroPlugin>(db: &DefsDatabase<P>, r: ModuleView, m: ModuleView, x: ModuleView)
    requires
        modules_under(db, r).contains(m),
        modules_under(db, m).contains(x),
    ensures
        modules_under(db, r).contains(x),
    decreases module_measure(db, r),
{
    let subs = submodules_or_empty(db, r);
    let n = subs.len();
    let children = modules_under_children(db, r, n);
    assert(modules_under(db, r) == seq![r] + children);
    lemma_concat_contains(seq![r], children, m);
    lemma_concat_contains(seq![r], children, x);
    if m != r {
        assert(!seq![r].contains(m)) by {
            if seq![r].contains(m) {
                assert(seq![r][0] == m);
            }
        }
        lemma_children_contains(db, r, n, m);
        let i = choose|i: int| 0 <= i < n && #[trigger] modules_under(db, subs[i]).contains(m);
        lemma_submodule_measure(db, r, i);
        lemma_modules_under_closed(db, subs[i], m, x);
        lemma_children_contains(db, r, n, x);
    }
}

/// The modules of a crate start with its root module and hold, with each module, each of
/// its submodules.
pub proof fn law_crate_modules_closed<P: MacroPlugin>(db: &DefsDatabase<P>, c: u64, m: ModuleView, j: int)
    requires
        modules_under(db, ModuleView::CrateRoot(c)).contains(m),
        module_submodules_spec(db, m) is Some,
        0 <= j < module_submodules_spec(db, m)->0.len(),
    ensures
        modules_under(db, ModuleView::CrateRoot(c))[0] == ModuleView::CrateRoot(c),
        modules_under(db, ModuleView::CrateRoot(c)).contains(module_submodules_spec(db, m)->0[j]),
{
    let root = ModuleView::CrateRoot(c);
    let subs = submodules_or_empty(db, m);
    let s = subs[j];
    let n = subs.len();
    assert(modules_under(db, s) == seq![s] + modules_under_children(db, s, submodules_or_empty(db, s).len()));
    assert(modules_under(db, s)[0] == s);
    assert(modules_under(db, s).contains(s));
    lemma_children_contains(db, m, n, s);
    assert(modules_under_children(db, m, n).contains(s));
    let children = modules_under_children(db, m, n);
    assert(modules_under(db, m) == seq![m] + children);
    lemma_concat_contains(seq![m], children, s);
    lemma_modules_under_closed(db, root, m, s);
    assert(modules_under(db, root) == seq![root] + modules_under_children(db, root, submodules_or_empty(db, root).len()));
}

/// The diagnostics that plugins report on an item of the module file `mf` are on `mf`.
proof fn lemma_item_diagnostics_file<P: MacroPlugin>(plugins: Seq<P>, mf: ModuleFileView, item: ItemView)
    ensures
        forall|j: int|
            0 <= j < item_diagnostics(plugins, mf, item).len() ==> (#[trigger] item_diagnostics(
                plugins,
                mf,
                item,
            )[j]).0 == mf,
    decreases plugins.len(),
{
    if plugins.len() > 0 {
        lemma_item_diagnostics_file(plugins.drop_last(), mf, item);
        let a = item_diagnostics(plugins.drop_last(), mf, item);
        let b = plugins.last().generated(item).diagnostics.map_values(
            |d: crate::defs::db::DiagnosticView| (mf, d),
        );
        assert forall|j: int| 0 <= j < (a + b).len() implies (#[trigger] (a + b)[j]).0 == mf by {
            if j < a.len() {
                assert((a + b)[j] == a[j]);
            } else {
                assert((a + b)[j] == b[j - a.len()]);
            }
        }
    }
}

/// The diagnostics that plugins report on the items of the module file `mf` are on `mf`.
proof fn lemma_file_diagnostics_file<P: MacroPlugin>(plugins: Seq<P>, mf: ModuleFileView, items: Seq<ItemView>)
    ensures
        forall|j: int|
            0 <= j < file_diagnostics(plugins, mf, items).len() ==> (#[trigger] file_diagnostics(
                plugins,
                mf,
                items,
            )[j]).0 == mf,
    decreases items.len(),
{
    if items.len() > 0 {
        lemma_file_diagnostics_file(plugins, mf, items.drop_last());
        lemma_item_diagnostics_file(plugins, mf, items.last());
        let a = file_diagnostics(plugins, mf, items.drop_last());
        let b = item_diagnostics(plugins, mf, items.last());
        assert forall|j: int| 0 <= j < (a + b).len() implies (#[trigger] (a + b)[j]).0 == mf by {
            if j < a.len() {
                assert((a + b)[j] == a[j]);
            } else {
                assert((a + b)[j] == b[j - a.len()]);
            }
        }
    }
}

/// The diagnostics of the files `files` of module `m` are each on a file of `m` at a
/// position below `files.len()`.
proof fn lemma_files_diagnostics_in_range<P: MacroPlugin>(db: &DefsDatabase<P>, m: ModuleView, files: Seq<FileView>)
    ensures
        forall|j: int|
            0 <= j < files_diagnostics(db, m, files).len() ==> {
                let mf = (#[trigger] files_diagnostics(db, m, files)[j]).0;
                mf.module == m && mf.index < files.len()
            },
    decreases files.len(),
{
    if files.len() > 0 {
        let mf = ModuleFileView { module: m, index: (files.len() - 1) as nat };
        lemma_files_diagnostics_in_range(db, m, files.drop_last());
        lemma_file_diagnostics_file(db.plugins(), mf, items_of(db, files.last()));
        let a = files_diagnostics(db, m, files.drop_last());
        let b = file_diagnostics(db.plugins(), mf, items_of(db, files.last()));
        assert forall|j: int| 0 <= j < (a + b).len() implies ({
            let x = (#[trigger] (a + b)[j]).0;
            x.module == m && x.index < files.len()
        }) by {
            if j < a.len() {
                assert((a + b)[j] == a[j]);
            } else {
                assert((a + b)[j] == b[j - a.len()]);
            }
        }
    }
}

/// Every plugin diagnostic of a module is on one of its files: it names the module and a
/// position among the module's files, so that the file at that position can be read.
pub proof fn law_diagnostics_in_module_files<P: MacroPlugin>(db: &DefsDatabase<P>, m: ModuleView)
    requires
        module_data_spec(db, m) is Some,
    ensures
        ({
            let d = module_data_spec(db, m)->0;
            forall|j: int|
                0 <= j < d.plugin_diagnostics.len() ==> {
                    let mf = (#[trigger] d.plugin_diagnostics[j]).0;
                    mf.module == m && mf.index < d.files.len()
                }
        }),
{
    let d = module_data_spec(db, m)->0;
    lemma_files_diagnostics_in_range(db, m, d.files);
}

/// The items of a file at `mf` keep each entry of `acc` whose key is not on `mf`.
proof fn lemma_items_of_kind_keeps(
    acc: Seq<(ItemIdView, ItemView)>,
    mf: ModuleFileView,
    items: Seq<ItemView>,
    kind: ItemKind,
    e: (ItemIdView, ItemView),
)
    requires
        acc.contains(e),
        e.0.module_file != mf,
    ensures
        items_of_kind(acc, mf, items, kind).contains(e),
    decreases items.len(),
{
    if items.len() > 0 {
        lemma_items_of_kind_keeps(acc, mf, items.drop_last(), kind, e);
        let item = items.last();
        if item.kind == kind {
            lemma_map_insert_keeps(
                items_of_kind(acc, mf, items.drop_last(), kind),
                ItemIdView { module_file: mf, ptr: item.ptr },
                item,
                e,
            );
        }
    }
}

/// Among items with distinct pointers, the item at `t`, of kind `kind`, lands at its
/// pointer on `mf`.
proof fn lemma_items_of_kind_holds(
    acc: Seq<(ItemIdView, ItemView)>,
    mf: ModuleFileView,
    items: Seq<ItemView>,
    kind: ItemKind,
    t: int,
)
    requires
        crate::defs::db::distinct_ptrs(items),
        0 <= t < items.len(),
        items[t].kind == kind,
    ensures
        items_of_kind(acc, mf, items, kind).contains(
            (ItemIdView { module_file: mf, ptr: items[t].ptr }, items[t]),
        ),
    decreases items.len(),
{
    let init = items.drop_last();
    let before = items_of_kind(acc, mf, init, kind);
    let k = ItemIdView { module_file: mf, ptr: items[t].ptr };
    if t == items.len() - 1 {
        lemma_map_insert_holds(before, k, items[t]);
    } else {
        assert(crate::defs::db::distinct_ptrs(init)) by {
            assert forall|a: int, b: int|
                #![trigger init[a], init[b]]
                0 <= a < init.len() && 0 <= b < init.len() && init[a].ptr == init[b].ptr implies a == b by {
                assert(init[a] == items[a] && init[b] == items[b]);
            }
        }
        assert(init[t] == items[t]);
        lemma_items_of_kind_holds(acc, mf, init, kind, t);
        let last = items.last();
        if last.kind == kind {
            assert(items[items.len() - 1] == last);
            assert(last.ptr != items[t].ptr);
            lemma_map_insert_keeps(before, ItemIdView { module_file: mf, ptr: last.ptr }, last, (k, items[t]));
        }
    }
}

/// Among the files `files` of module `m`, each item of the file at position `i`, of kind
/// `kind`, lands at its pointer on that file, where the items of that file have distinct
/// pointers.
proof fn lemma_files_items_hold<P: MacroPlugin>(
    db: &DefsDatabase<P>,
    m: ModuleView,
    files: Seq<FileView>,
    kind: ItemKind,
    i: int,
    t: int,
)
    requires
        0 <= i < files.len(),
        crate::defs::db::distinct_ptrs(items_of(db, files[i])),
        0 <= t < items_of(db, files[i]).len(),
        items_of(db, files[i])[t].kind == kind,
    ensures
        files_items_of_kind(db, m, files, kind).contains(
            (
                ItemIdView { module_file: ModuleFileView { module: m, index: i as nat }, ptr: items_of(db, files[i])[t].ptr },
                items_of(db, files[i])[t],
            ),
        ),
    decreases files.len(),
{
    let init = files.drop_last();
    let last_mf = ModuleFileView { module: m, index: (files.len() - 1) as nat };
    let acc = files_items_of_kind(db, m, init, kind);
    if i == files.len() - 1 {
        lemma_items_of_kind_holds(acc, last_mf, items_of(db, files.last()), kind, t);
    } else {
        assert(init[i] == files[i]);
        lemma_files_items_hold(db, m, init, kind, i, t);
        let it = items_of(db, files[i])[t];
        lemma_items_of_kind_keeps(
            acc,
            last_mf,
            items_of(db, files.last()),
            kind,
            (ItemIdView { module_file: ModuleFileView { module: m, index: i as nat }, ptr: it.ptr }, it),
        );
    }
}

/// Each parsed item of each file of a module lands in the item map of its kind, at the
/// identifier of its file's position and its pointer. With
/// `law_items_declared_in_module_files`, the maps of a module hold exactly its files'
/// parsed items, each once.
pub proof fn law_items_complete<P: MacroPlugin>(db: &DefsDatabase<P>, m: ModuleView, i: int, t: int)
    requires
        db.wf(),
        module_data_spec(db, m) is Some,
        0 <= i < module_data_spec(db, m)->0.files.len(),
        0 <= t < items_of(db, module_data_spec(db, m)->0.files[i]).len(),
    ensures
        ({
            let d = module_data_spec(db, m)->0;
            let it = items_of(db, d.files[i])[t];
            entries_of_kind(d, it.kind).contains(
                (ItemIdView { module_file: ModuleFileView { module: m, index: i as nat }, ptr: it.ptr }, it),
            )
        }),
{
    let d = module_data_spec(db, m)->0;
    let f = d.files[i];
    db.lemma_parsed_distinct(f);
    let it = items_of(db, f)[t];
    lemma_files_items_hold(db, m, d.files, it.kind, i, t);
    assert(entries_of_kind(d, it.kind) == files_items_of_kind(db, m, d.files, it.kind));
}

/// The item map `entries` of module `m`, whose files are `files`, holds an item named `n`
/// at the identifier `id`, declared in one of those files with the kind `kind`.
pub open spec fn entry_named<P: MacroPlugin>(
    db: &DefsDatabase<P>,
    m: ModuleView,
    files: Seq<FileView>,
    entries: Seq<(ItemIdView, ItemView)>,
    kind: ItemKind,
    n: Seq<char>,
    id: ItemIdView,
) -> bool {
    exists|it: ItemView|
        #[trigger] entries.contains((id, it)) && it.name == n && declared_in(db, m, files, kind, (id, it))
}

/// The module item `x`, found under the name `n` in module `m` with data `d`, is an item
/// named `n` of the kind that its variant says, declared in a file of `m` at the
/// identifier it carries: a `Trait` is a trait of `d.traits`, an `ExternType` an extern
/// type of `d.extern_types`, and so on for each kind, and a `Submodule` a `mod` item of
/// `d.submodules` whose parent is `m`.
pub open spec fn named_item_declared<P: MacroPlugin>(
    db: &DefsDatabase<P>,
    m: ModuleView,
    d: ModuleDataView,
    n: Seq<char>,
    x: ModuleItemView,
) -> bool {
    match x {
        ModuleItemView::Submodule(sv) => {
            &&& *sv.parent == m
            &&& sv.name == n
            &&& entry_named(
                db,
                m,
                d.files,
                d.submodules,
                ItemKind::Module,
                n,
                ItemIdView { module_file: ModuleFileView { module: m, index: sv.index }, ptr: sv.ptr },
            )
        },
        ModuleItemView::Use(id) => entry_named(db, m, d.files, d.uses, ItemKind::Use, n, id),
        ModuleItemView::FreeFunction(id) => entry_named(
            db,
            m,
            d.files,
            d.free_functions,
            ItemKind::FreeFunction,
            n,
            id,
        ),
        ModuleItemView::ExternFunction(id) => entry_named(
            db,
            m,
            d.files,
            d.extern_functions,
            ItemKind::ExternFunction,
            n,
            id,
        ),
        ModuleItemView::ExternType(id) => entry_named(
            db,
            m,
            d.files,
            d.extern_types,
            ItemKind::ExternType,
            n,
            id,
        ),
        ModuleItemView::Struct(id) => entry_named(db, m, d.files, d.structs, ItemKind::Struct, n, id),
        ModuleItemView::Enum(id) => entry_named(db, m, d.files, d.enums, ItemKind::Enum, n, id),
        ModuleItemView::Trait(id) => entry_named(db, m, d.files, d.traits, ItemKind::Trait, n, id),
        ModuleItemView::Impl(id) => entry_named(db, m, d.files, d.impls, ItemKind::Impl, n, id),
    }
}

/// The value of the last pair of `s` with key `k` is the value of a pair of `s`.
proof fn lemma_last_value_contains<K, V>(s: Seq<(K, V)>, k: K)
    requires
        last_value(s, k) is Some,
    ensures
        s.contains((k, last_value(s, k)->0)),
    decreases s.len(),
{
    if s.last().0 == k {
        assert(s[s.len() - 1] == (k, last_value(s, k)->0));
    } else {
        lemma_last_value_contains(s.drop_last(), k);
        let j = choose|j: int| 0 <= j < s.drop_last().len() && s.drop_last()[j] == (k, last_value(s, k)->0);
        assert(s[j] == s.drop_last()[j]);
    }
}

/// A pair named `n` among the named items of kind `kind` of a module is such an item.
proof fn lemma_named_part<P: MacroPlugin>(
    db: &DefsDatabase<P>,
    m: ModuleView,
    kind: ItemKind,
    n: Seq<char>,
    x: ModuleItemView,
)
    requires
        module_data_spec(db, m) is Some,
        named_entries(kind, entries_of_kind(module_data_spec(db, m)->0, kind)).contains((n, x)),
    ensures
        named_item_declared(db, m, module_data_spec(db, m)->0, n, x),
{
    let d = module_data_spec(db, m)->0;
    let entries = entries_of_kind(d, kind);
    let ne = named_entries(kind, entries);
    let j = choose|j: int| 0 <= j < ne.len() && ne[j] == (n, x);
    let e = entries[j];
    assert(ne[j] == (e.1.name, module_item_of(kind, e)));
    law_items_declared_in_module_files(db, m, kind);
    assert(declared_in(db, m, d.files, kind, entries[j]));
    assert(entries[j] == (e.0, e.1));
    assert(entries.contains((e.0, e.1)));
    assert(e.1.name == n);
    match kind {
        ItemKind::Module => {
            assert(x == ModuleItemView::Submodule(submodule_of(e)));
            assert(e.0 == ItemIdView {
                module_file: ModuleFileView { module: m, index: e.0.module_file.index },
                ptr: e.0.ptr,
            });
        },
        _ => {},
    }
}

/// What looking an item of a module up by name finds is an item of that name and of the
/// kind its variant says: a trait is found as a `Trait` of the trait's identifier, an
/// extern type as an `ExternType`, and so on, declared in one of the module's files.
pub proof fn law_item_by_name_kind<P: MacroPlugin>(db: &DefsDatabase<P>, m: ModuleView, n: Seq<char>)
    requires
        module_data_spec(db, m) is Some,
        map_get(module_items_spec(db, m)->0, n) is Some,
    ensures
        named_item_declared(
            db,
            m,
            module_data_spec(db, m)->0,
            n,
            map_get(module_items_spec(db, m)->0, n)->0,
        ),
{
    let d = module_data_spec(db, m)->0;
    law_item_by_name(db, m, n);
    let x = map_get(module_items_spec(db, m)->0, n)->0;
    let s = all_named(d);
    lemma_last_value_contains(s, n);
    let n1 = named_entries(ItemKind::Module, d.submodules);
    let n2 = named_entries(ItemKind::Use, d.uses);
    let n3 = named_entries(ItemKind::FreeFunction, d.free_functions);
    let n4 = named_entries(ItemKind::ExternFunction, d.extern_functions);
    let n5 = named_entries(ItemKind::ExternType, d.extern_types);
    let n6 = named_entries(ItemKind::Struct, d.structs);
    let n7 = named_entries(ItemKind::Enum, d.enums);
    let n8 = named_entries(ItemKind::Trait, d.traits);
    let n9 = named_entries(ItemKind::Impl, d.impls);
    let p = (n, x);
    assert(s == n1 + n2 + n3 + n4 + n5 + n6 + n7 + n8 + n9);
    lemma_concat_contains(n1 + n2 + n3 + n4 + n5 + n6 + n7 + n8, n9, p);
    lemma_concat_contains(n1 + n2 + n3 + n4 + n5 + n6 + n7, n8, p);
    lemma_concat_contains(n1 + n2 + n3 + n4 + n5 + n6, n7, p);
    lemma_concat_contains(n1 + n2 + n3 + n4 + n5, n6, p);
    lemma_concat_contains(n1 + n2 + n3 + n4, n5, p);
    lemma_concat_contains(n1 + n2 + n3, n4, p);
    lemma_concat_contains(n1 + n2, n3, p);
    lemma_concat_contains(n1, n2, p);
    if n1.contains(p) {
        lemma_named_part(db, m, ItemKind::Module, n, x);
    } else if n2.contains(p) {
        lemma_named_part(db, m, ItemKind::Use, n, x);
    } else if n3.contains(p) {
        lemma_named_part(db, m, ItemKind::FreeFunction, n, x);
    } else if n4.contains(p) {
        lemma_named_part(db, m, ItemKind::ExternFunction, n, x);
    } else if n5.contains(p) {
        lemma_named_part(db, m, ItemKind::ExternType, n, x);
    } else if n6.contains(p) {
        lemma_named_part(db, m, ItemKind::Struct, n, x);
    } else if n7.contains(p) {
        lemma_named_part(db, m, ItemKind::Enum, n, x);
    } else if n8.contains(p) {
        lemma_named_part(db, m, ItemKind::Trait, n, x);
    } else {
        lemma_named_part(db, m, ItemKind::Impl, n, x);
    }
}

/// The submodules of a module are exactly its `mod` items, in order, then its virtual
/// submodules: the `j`-th is the submodule of the module named as its `j`-th `mod` item,
/// declared in that item's file and at its pointer; after them come one virtual
/// submodule for each file of the module after the main one, holding that file.
pub proof fn law_submodules_exact<P: MacroPlugin>(db: &DefsDatabase<P>, m: ModuleView)
    requires
        module_data_spec(db, m) is Some,
    ensures
        ({
            let d = module_data_spec(db, m)->0;
            let s = module_submodules_spec(db, m)->0;
            &&& module_submodules_spec(db, m) is Some
            &&& s.len() == d.submodules.len() + d.files.len() - 1
            &&& forall|j: int|
                0 <= j < d.submodules.len() ==> s[j] == ModuleView::Submodule(
                    SubmoduleView {
                        parent: Box::new(m),
                        index: (#[trigger] d.submodules[j]).0.module_file.index,
                        ptr: d.submodules[j].0.ptr,
                        name: d.submodules[j].1.name,
                    },
                )
            &&& forall|j: int|
                1 <= j < d.files.len() ==> s[d.submodules.len() + j - 1] == ModuleView::VirtualSubmodule(
                    VirtualSubmoduleView { parent: Box::new(m), file: #[trigger] d.files[j] },
                )
        }),
{
    let d = module_data_spec(db, m)->0;
    let s = module_submodules_spec(db, m)->0;
    law_module_files_start_with_main(db, m);
    law_items_declared_in_module_files(db, m, ItemKind::Module);
    let explicit = d.submodules.map_values(
        |e: (ItemIdView, ItemView)| ModuleView::Submodule(submodule_of(e)),
    );
    let virt = crate::defs::items::virtual_submodules_of(m, d.files);
    assert(s == explicit + virt);
    assert forall|j: int| 0 <= j < d.submodules.len() implies s[j] == ModuleView::Submodule(
        SubmoduleView {
            parent: Box::new(m),
            index: (#[trigger] d.submodules[j]).0.module_file.index,
            ptr: d.submodules[j].0.ptr,
            name: d.submodules[j].1.name,
        },
    ) by {
        assert(entries_of_kind(d, ItemKind::Module)[j] == d.submodules[j]);
        assert(declared_in(db, m, d.files, ItemKind::Module, d.submodules[j]));
        assert(s[j] == explicit[j]);
    }
    assert forall|j: int| 1 <= j < d.files.len() implies s[d.submodules.len() + j - 1]
        == ModuleView::VirtualSubmodule(VirtualSubmoduleView { parent: Box::new(m), file: #[trigger] d.files[j] }) by {
        assert(s[d.submodules.len() + j - 1] == virt[j - 1]);
    }
}

/// Each `mod` item parsed in a file of a module gives a submodule of the module: the one
/// named as the item, declared at that file's position and the item's pointer.
pub proof fn law_mod_items_are_submodules<P: MacroPlugin>(db: &DefsDatabase<P>, m: ModuleView, i: int, t: int)
    requires
        db.wf(),
        module_data_spec(db, m) is Some,
        0 <= i < module_data_spec(db, m)->0.files.len(),
        0 <= t < items_of(db, module_data_spec(db, m)->0.files[i]).len(),
        items_of(db, module_data_spec(db, m)->0.files[i])[t].kind == ItemKind::Module,
    ensures
        ({
            let it = items_of(db, module_data_spec(db, m)->0.files[i])[t];
            module_submodules_spec(db, m)->0.contains(
                ModuleView::Submodule(
                    SubmoduleView { parent: Box::new(m), index: i as nat, ptr: it.ptr, name: it.name },
                ),
            )
        }),
{
    let d = module_data_spec(db, m)->0;
    let it = items_of(db, d.files[i])[t];
    let key = ItemIdView { module_file: ModuleFileView { module: m, index: i as nat }, ptr: it.ptr };
    law_items_complete(db, m, i, t);
    assert(entries_of_kind(d, ItemKind::Module) == d.submodules);
    let j = choose|j: int| 0 <= j < d.submodules.len() && d.submodules[j] == (key, it);
    law_submodules_exact(db, m);
    let s = module_submodules_spec(db, m)->0;
    assert(d.submodules[j] == (key, it));
    assert(s[j] == ModuleView::Submodule(
        SubmoduleView { parent: Box::new(m), index: i as nat, ptr: it.ptr, name: it.name },
    ));
}

} // verus!
