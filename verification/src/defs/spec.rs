use vstd::prelude::*;

use crate::defs::db::{
    crate_root_dir, syntax_of, DefsDatabase, DiagnosticView, ItemKind, ItemView, MacroPlugin,
    PluginResultView,
};
use crate::defs::ids::{FileView, ItemIdView, ModuleFileView, ModuleView};

verus! {

/// The path of the directory of module `m`, if it has one: the root directory of a
/// crate, and for a submodule the directory of its parent followed by its name.
pub open spec fn module_dir_spec<P: MacroPlugin>(db: &DefsDatabase<P>, m: ModuleView) -> Option<
    Seq<Seq<char>>,
>
    decreases m,
{
    match m {
        ModuleView::CrateRoot(c) => crate_root_dir(db.crate_roots(), c),
        ModuleView::Submodule(s) => match module_dir_spec(db, *s.parent) {
            Some(d) => Some(d.push(s.name)),
            None => None,
        },
        ModuleView::VirtualSubmodule(_) => None,
    }
}

/// The main file of module `m`, if it has one: `lib.cairo` in the root directory of a
/// crate, `<name>.cairo` in the directory of a submodule's parent, and the file of a
/// virtual submodule.
pub open spec fn module_main_file_spec<P: MacroPlugin>(db: &DefsDatabase<P>, m: ModuleView) -> Option<FileView> {
    match m {
        ModuleView::CrateRoot(c) => match crate_root_dir(db.crate_roots(), c) {
            Some(d) => Some(FileView::OnDisk(d.push("lib.cairo"@))),
            None => None,
        },
        ModuleView::Submodule(s) => match module_dir_spec(db, *s.parent) {
            Some(d) => Some(FileView::OnDisk(d.push(s.name + ".cairo"@))),
            None => None,
        },
        ModuleView::VirtualSubmodule(v) => Some(v.file),
    }
}

/// How many generations of plugins lie between `f` and a file on disk.
pub open spec fn file_depth(f: FileView) -> nat
    decreases f,
{
    match f {
        FileView::Virtual(Some(p), _, _) => file_depth(*p) + 1,
        _ => 0,
    }
}

/// The greatest depth of a parsed file.
pub open spec fn max_depth(syntax: Seq<(FileView, Seq<ItemView>)>) -> nat
    decreases syntax.len(),
{
    if syntax.len() == 0 {
        0
    } else {
        let rest = max_depth(syntax.drop_last());
        let d = file_depth(syntax.last().0);
        if d > rest {
            d
        } else {
            rest
        }
    }
}

/// The file that a plugin result adds, generated from an item of file `f`, if any.
pub open spec fn generated_file(f: FileView, r: PluginResultView) -> Seq<FileView> {
    match r.code {
        Some((name, content)) => seq![FileView::Virtual(Some(Box::new(f)), name, content)],
        None => seq![],
    }
}

/// The files that `plugins` generate, in order, for `item` of file `f`.
pub open spec fn item_files<P: MacroPlugin>(plugins: Seq<P>, f: FileView, item: ItemView) -> Seq<
    FileView,
>
    decreases plugins.len(),
{
    if plugins.len() == 0 {
        seq![]
    } else {
        item_files(plugins.drop_last(), f, item) + generated_file(f, plugins.last().generated(item))
    }
}

/// The files that `plugins` generate, in order, for the items `items` of file `f`.
pub open spec fn file_children<P: MacroPlugin>(
    plugins: Seq<P>,
    f: FileView,
    items: Seq<ItemView>,
) -> Seq<FileView>
    decreases items.len(),
{
    if items.len() == 0 {
        seq![]
    } else {
        file_children(plugins, f, items.drop_last()) + item_files(plugins, f, items.last())
    }
}

/// The parsed items of a file, or none if it was not parsed.
pub open spec fn items_of<P: MacroPlugin>(db: &DefsDatabase<P>, f: FileView) -> Seq<ItemView> {
    match syntax_of(db.syntax(), f) {
        Some(items) => items,
        None => seq![],
    }
}

/// The files that the plugins of `db` generate from the files `level`, in order.
pub open spec fn level_children<P: MacroPlugin>(db: &DefsDatabase<P>, level: Seq<FileView>) -> Seq<
    FileView,
>
    decreases level.len(),
{
    if level.len() == 0 {
        seq![]
    } else {
        level_children(db, level.drop_last()) + file_children(
            db.plugins(),
            level.last(),
            items_of(db, level.last()),
        )
    }
}

/// Every file of `files` was parsed.
pub open spec fn all_parsed<P: MacroPlugin>(db: &DefsDatabase<P>, files: Seq<FileView>) -> bool {
    forall|i: int| 0 <= i < files.len() ==> (#[trigger] syntax_of(db.syntax(), files[i])) is Some
}

/// The files reached from the files `level`, level by level: the files themselves, then
/// those generated from them, and so on, or none if one of them was not parsed. `fuel`
/// bounds the number of levels; a parsed file lies at most `max_depth` levels below a
/// file on disk.
pub open spec fn files_from<P: MacroPlugin>(
    db: &DefsDatabase<P>,
    level: Seq<FileView>,
    fuel: nat,
) -> Option<Seq<FileView>>
    decreases fuel,
{
    if level.len() == 0 {
        Some(seq![])
    } else if !all_parsed(db, level) {
        None
    } else if fuel == 0 {
        None
    } else {
        match files_from(db, level_children(db, level), (fuel - 1) as nat) {
            Some(rest) => Some(level + rest),
            None => None,
        }
    }
}

/// The files of module `m`, in the order in which they are processed: its main file,
/// then the files that plugins generate from it, and so on; none if the module has no
/// main file or one of these files was not parsed.
pub open spec fn module_files_spec<P: MacroPlugin>(db: &DefsDatabase<P>, m: ModuleView) -> Option<
    Seq<FileView>,
> {
    match module_main_file_spec(db, m) {
        Some(main) => files_from(db, seq![main], max_depth(db.syntax()) + 1),
        None => None,
    }
}

/// The diagnostics that `plugins` report, in order, for `item` of the module file `mf`.
pub open spec fn item_diagnostics<P: MacroPlugin>(
    plugins: Seq<P>,
    mf: ModuleFileView,
    item: ItemView,
) -> Seq<(ModuleFileView, DiagnosticView)>
    decreases plugins.len(),
{
    if plugins.len() == 0 {
        seq![]
    } else {
        item_diagnostics(plugins.drop_last(), mf, item) + plugins.last().generated(
            item,
        ).diagnostics.map_values(|d: DiagnosticView| (mf, d))
    }
}

/// The diagnostics that `plugins` report, in order, for the items `items` of the module
/// file `mf`.
pub open spec fn file_diagnostics<P: MacroPlugin>(
    plugins: Seq<P>,
    mf: ModuleFileView,
    items: Seq<ItemView>,
) -> Seq<(ModuleFileView, DiagnosticView)>
    decreases items.len(),
{
    if items.len() == 0 {
        seq![]
    } else {
        file_diagnostics(plugins, mf, items.drop_last()) + item_diagnostics(
            plugins,
            mf,
            items.last(),
        )
    }
}

/// The diagnostics that the plugins of `db` report, in order, for the items of the files
/// `files` of module `m`.
pub open spec fn files_diagnostics<P: MacroPlugin>(
    db: &DefsDatabase<P>,
    m: ModuleView,
    files: Seq<FileView>,
) -> Seq<(ModuleFileView, DiagnosticView)>
    decreases files.len(),
{
    if files.len() == 0 {
        seq![]
    } else {
        files_diagnostics(db, m, files.drop_last()) + file_diagnostics(
            db.plugins(),
            ModuleFileView { module: m, index: (files.len() - 1) as nat },
            items_of(db, files.last()),
        )
    }
}

/// `s`, an ordered map, with `v` at key `k`: the value of `k` replaced where `k` is a
/// key, and the pair added at the end where it is not.
pub open spec fn map_insert<K, V>(s: Seq<(K, V)>, k: K, v: V) -> Seq<(K, V)> {
    if exists|j: int| 0 <= j < s.len() && (#[trigger] s[j]).0 == k {
        let j = choose|j: int| 0 <= j < s.len() && (#[trigger] s[j]).0 == k;
        s.update(j, (s[j].0, v))
    } else {
        s.push((k, v))
    }
}

/// The entries that the items `items` of the module file `mf` of kind `kind` give to an
/// ordered map that holds `acc`.
pub open spec fn items_of_kind(
    acc: Seq<(ItemIdView, ItemView)>,
    mf: ModuleFileView,
    items: Seq<ItemView>,
    kind: ItemKind,
) -> Seq<(ItemIdView, ItemView)>
    decreases items.len(),
{
    if items.len() == 0 {
        acc
    } else {
        let before = items_of_kind(acc, mf, items.drop_last(), kind);
        let item = items.last();
        if item.kind == kind {
            map_insert(before, ItemIdView { module_file: mf, ptr: item.ptr }, item)
        } else {
            before
        }
    }
}

/// The ordered map from item identifier to item of the items of kind `kind` in the files
/// `files` of module `m`.
pub open spec fn files_items_of_kind<P: MacroPlugin>(
    db: &DefsDatabase<P>,
    m: ModuleView,
    files: Seq<FileView>,
    kind: ItemKind,
) -> Seq<(ItemIdView, ItemView)>
    decreases files.len(),
{
    if files.len() == 0 {
        seq![]
    } else {
        items_of_kind(
            files_items_of_kind(db, m, files.drop_last(), kind),
            ModuleFileView { module: m, index: (files.len() - 1) as nat },
            items_of(db, files.last()),
            kind,
        )
    }
}

/// What the data of a module denotes: the items of each kind by identifier, the files
/// of the module and the diagnostics of the plugins.
pub struct ModuleDataView {
    pub submodules: Seq<(ItemIdView, ItemView)>,
    pub uses: Seq<(ItemIdView, ItemView)>,
    pub free_functions: Seq<(ItemIdView, ItemView)>,
    pub extern_functions: Seq<(ItemIdView, ItemView)>,
    pub extern_types: Seq<(ItemIdView, ItemView)>,
    pub structs: Seq<(ItemIdView, ItemView)>,
    pub enums: Seq<(ItemIdView, ItemView)>,
    pub traits: Seq<(ItemIdView, ItemView)>,
    pub impls: Seq<(ItemIdView, ItemView)>,
    pub files: Seq<FileView>,
    pub plugin_diagnostics: Seq<(ModuleFileView, DiagnosticView)>,
}

/// The items of kind `kind` of the data `d`.
pub open spec fn entries_of_kind(d: ModuleDataView, kind: ItemKind) -> Seq<(ItemIdView, ItemView)> {
    match kind {
        ItemKind::Module => d.submodules,
        ItemKind::Use => d.uses,
        ItemKind::FreeFunction => d.free_functions,
        ItemKind::ExternFunction => d.extern_functions,
        ItemKind::ExternType => d.extern_types,
        ItemKind::Struct => d.structs,
        ItemKind::Enum => d.enums,
        ItemKind::Trait => d.traits,
        ItemKind::Impl => d.impls,
    }
}

/// The data of the module `m` whose files are `files`.
pub open spec fn data_of_files<P: MacroPlugin>(
    db: &DefsDatabase<P>,
    m: ModuleView,
    files: Seq<FileView>,
) -> ModuleDataView {
    ModuleDataView {
        submodules: files_items_of_kind(db, m, files, ItemKind::Module),
        uses: files_items_of_kind(db, m, files, ItemKind::Use),
        free_functions: files_items_of_kind(db, m, files, ItemKind::FreeFunction),
        extern_functions: files_items_of_kind(db, m, files, ItemKind::ExternFunction),
        extern_types: files_items_of_kind(db, m, files, ItemKind::ExternType),
        structs: files_items_of_kind(db, m, files, ItemKind::Struct),
        enums: files_items_of_kind(db, m, files, ItemKind::Enum),
        traits: files_items_of_kind(db, m, files, ItemKind::Trait),
        impls: files_items_of_kind(db, m, files, ItemKind::Impl),
        files: files,
        plugin_diagnostics: files_diagnostics(db, m, files),
    }
}

/// The data of module `m`, if its files were all parsed.
pub open spec fn module_data_spec<P: MacroPlugin>(db: &DefsDatabase<P>, m: ModuleView) -> Option<
    ModuleDataView,
> {
    match module_files_spec(db, m) {
        Some(files) => Some(data_of_files(db, m, files)),
        None => None,
    }
}

} // verus!
