use vstd::prelude::*;

use crate::defs::data::{data_wf, diagnostics_view, files_view, with_entries, ModuleData};
use crate::defs::db::{DefsDatabase, DiagnosticView, MacroPlugin, SyntaxItem};
use crate::defs::ids::{
    Directory, FileId, FileIndex, ItemId, ItemIdView, ModuleFileId, ModuleFileView, ModuleId,
    VirtualFile,
};
use crate::defs::db::{items_view, ItemKind};
use crate::defs::ids::FileView;
use crate::defs::spec::{
    all_parsed, data_of_files, entries_of_kind, file_children, file_depth, file_diagnostics,
    files_diagnostics, files_from, files_items_of_kind, generated_file, item_diagnostics,
    item_files, items_of, items_of_kind, level_children, map_insert, max_depth, module_data_spec,
    module_dir_spec, module_files_spec, module_main_file_spec, ModuleDataView,
};

verus! {

/// The name `name` followed by `.cairo`.
fn cairo_file_name(name: &String) -> (r: String)
    ensures
        r@ == name@ + ".cairo"@,
{
    name.clone().concat(".cairo")
}

/// The directory of module `module_id`, if it has one.
pub fn module_dir<P: MacroPlugin>(db: &DefsDatabase<P>, module_id: &ModuleId) -> (r: Option<Directory>)
    requires
        db.wf(),
    ensures
        match r {
            Some(d) => module_dir_spec(db, module_id@) == Some(d@),
            None => module_dir_spec(db, module_id@) is None,
        },
    decreases module_id,
{
    match module_id {
        ModuleId::CrateRoot(crate_id) => db.crate_root_dir(*crate_id),
        ModuleId::Submodule(submodule_id) => {
            match module_dir(db, &submodule_id.parent.0) {
                Some(dir) => Some(dir.subdir(submodule_id.name.clone())),
                None => None,
            }
        },
        ModuleId::VirtualSubmodule(_) => None,
    }
}

/// The main file of module `module_id`, if it has one.
pub fn module_main_file<P: MacroPlugin>(db: &DefsDatabase<P>, module_id: &ModuleId) -> (r: Option<FileId>)
    requires
        db.wf(),
    ensures
        match r {
            Some(f) => module_main_file_spec(db, module_id@) == Some(f@),
            None => module_main_file_spec(db, module_id@) is None,
        },
{
    match module_id {
        ModuleId::CrateRoot(crate_id) => {
            match db.crate_root_dir(*crate_id) {
                Some(dir) => Some(dir.file("lib.cairo".to_owned())),
                None => None,
            }
        },
        ModuleId::Submodule(submodule_id) => {
            match module_dir(db, &submodule_id.parent.0) {
                Some(dir) => Some(dir.file(cairo_file_name(&submodule_id.name))),
                None => None,
            }
        },
        ModuleId::VirtualSubmodule(virtual_submodule_id) => Some(virtual_submodule_id.file.duplicate()),
    }
}

/// `d` with the diagnostics `diagnostics` in place of its own.
pub open spec fn with_diagnostics(d: ModuleDataView, diagnostics: Seq<(ModuleFileView, DiagnosticView)>) -> ModuleDataView {
    ModuleDataView { plugin_diagnostics: diagnostics, ..d }
}

/// What processing `item` of the file at position `index` of module `m` does to the
/// data `d`: the diagnostics of the plugins on the item are added, and the item is put
/// in the ordered map of its kind.
pub open spec fn data_after_item<P: MacroPlugin>(
    plugins: Seq<P>,
    d: ModuleDataView,
    mf: ModuleFileView,
    item: crate::defs::db::ItemView,
) -> ModuleDataView {
    let inserted = with_entries(
        d,
        item.kind,
        map_insert(entries_of_kind(d, item.kind), ItemIdView { module_file: mf, ptr: item.ptr }, item),
    );
    with_diagnostics(inserted, d.plugin_diagnostics + item_diagnostics(plugins, mf, item))
}

/// Processes `item` of the file `parent`, at position `index` of module `module_id`: runs
/// each plugin on it, adding the diagnostics to `res` and the generated files to
/// `files`, and puts the item in `res`.
pub fn process_item<P: MacroPlugin>(
    db: &DefsDatabase<P>,
    module_id: &ModuleId,
    index: usize,
    parent: &FileId,
    item: &SyntaxItem,
    files: &mut Vec<FileId>,
    res: &mut ModuleData,
)
    requires
        data_wf(old(res)@, module_id@),
    ensures
        files_view(final(files)@) == files_view(old(files)@) + item_files(db.plugins(), parent@, item@),
        final(res)@ == data_after_item(
            db.plugins(),
            old(res)@,
            ModuleFileView { module: module_id@, index: index as nat },
            item@,
        ),
        data_wf(final(res)@, module_id@),
{
    let ghost plugins = db.plugins();
    let ghost mf = ModuleFileView { module: module_id@, index: index as nat };
    let ghost files0 = files_view(files@);
    let ghost diags0 = diagnostics_view(res.plugin_diagnostics@);
    let ghost res0 = res@;
    let n = db.num_plugins();
    let mut k: usize = 0;
    while k < n
        invariant
            n == plugins.len(),
            plugins == db.plugins(),
            k <= n,
            files_view(files@) == files0 + item_files(plugins.take(k as int), parent@, item@),
            diagnostics_view(res.plugin_diagnostics@) == diags0 + item_diagnostics(
                plugins.take(k as int),
                mf,
                item@,
            ),
            res@ == with_diagnostics(res0, diagnostics_view(res.plugin_diagnostics@)),
            mf == (ModuleFileView { module: module_id@, index: index as nat }),
        decreases n - k,
    {
        let result = db.plugin(k).generate_code(item);
        let ghost gen = plugins[k as int].generated(item@);
        let ghost diags_before = diagnostics_view(res.plugin_diagnostics@);
        let mut t: usize = 0;
        while t < result.diagnostics.len()
            invariant
                t <= result.diagnostics@.len(),
                result@ == gen,
                diagnostics_view(res.plugin_diagnostics@) == diags_before + gen.diagnostics.take(
                    t as int,
                ).map_values(|d: DiagnosticView| (mf, d)),
                res@ == with_diagnostics(res0, diagnostics_view(res.plugin_diagnostics@)),
                mf == (ModuleFileView { module: module_id@, index: index as nat }),
            decreases result.diagnostics@.len() - t,
        {
            let entry = (ModuleFileId(module_id.duplicate(), FileIndex(index)), result.diagnostics[t].duplicate());
            let ghost before = res.plugin_diagnostics@;
            res.plugin_diagnostics.push(entry);
            assert(diagnostics_view(res.plugin_diagnostics@) =~= diagnostics_view(before).push(
                (mf, gen.diagnostics[t as int]),
            ));
            assert(gen.diagnostics.take(t + 1).map_values(|d: DiagnosticView| (mf, d))
                =~= gen.diagnostics.take(t as int).map_values(|d: DiagnosticView| (mf, d)).push(
                (mf, gen.diagnostics[t as int]),
            ));
            t = t + 1;
        }
        assert(gen.diagnostics.take(t as int) =~= gen.diagnostics);
        let ghost files_before = files_view(files@);
        match result.code {
            Some((name, content)) => {
                let f = FileId::Virtual(
                    VirtualFile { parent: Some(Box::new(parent.duplicate())), name, content },
                );
                assert(seq![f@] == generated_file(parent@, gen));
                files.push(f);
                assert(files_view(files@) =~= files_before + generated_file(parent@, gen));
            },
            None => {
                assert(files_view(files@) =~= files_before + generated_file(parent@, gen));
            },
        }
        proof {
            assert(plugins.take(k + 1).drop_last() =~= plugins.take(k as int));
            assert(plugins.take(k + 1).last() == plugins[k as int]);
        }
        k = k + 1;
    }
    assert(plugins.take(n as int) =~= plugins);
    let id = ItemId {
        module_file: ModuleFileId(module_id.duplicate(), FileIndex(index)),
        stable_ptr: item.stable_ptr,
    };
    assert(data_wf(res@, module_id@)) by {
        assert forall|kind| #[trigger] entries_of_kind(res@, kind) == entries_of_kind(res0, kind) by {}
    }
    res.insert_item(id, item.duplicate());
}

/// Processes the items `items` of the file `parent`, at position `index` of module
/// `module_id`, in order (see `process_item`).
pub fn process_file<P: MacroPlugin>(
    db: &DefsDatabase<P>,
    module_id: &ModuleId,
    index: usize,
    parent: &FileId,
    items: &Vec<SyntaxItem>,
    files: &mut Vec<FileId>,
    res: &mut ModuleData,
)
    requires
        data_wf(old(res)@, module_id@),
    ensures
        files_view(final(files)@) == files_view(old(files)@) + file_children(
            db.plugins(),
            parent@,
            items_view(items@),
        ),
        forall|kind: ItemKind|
            #[trigger] entries_of_kind(final(res)@, kind) == items_of_kind(
                entries_of_kind(old(res)@, kind),
                ModuleFileView { module: module_id@, index: index as nat },
                items_view(items@),
                kind,
            ),
        final(res)@.plugin_diagnostics == old(res)@.plugin_diagnostics + file_diagnostics(
            db.plugins(),
            ModuleFileView { module: module_id@, index: index as nat },
            items_view(items@),
        ),
        final(res)@.files == old(res)@.files,
        data_wf(final(res)@, module_id@),
{
    let ghost plugins = db.plugins();
    let ghost mf = ModuleFileView { module: module_id@, index: index as nat };
    let ghost iv = items_view(items@);
    let ghost files0 = files_view(files@);
    let ghost res0 = res@;
    let mut j: usize = 0;
    while j < items.len()
        invariant
            j <= items@.len(),
            iv == items_view(items@),
            plugins == db.plugins(),
            mf == (ModuleFileView { module: module_id@, index: index as nat }),
            files_view(files@) == files0 + file_children(plugins, parent@, iv.take(j as int)),
            forall|kind: ItemKind|
                #[trigger] entries_of_kind(res@, kind) == items_of_kind(
                    entries_of_kind(res0, kind),
                    mf,
                    iv.take(j as int),
                    kind,
                ),
            res@.plugin_diagnostics == res0.plugin_diagnostics + file_diagnostics(
                plugins,
                mf,
                iv.take(j as int),
            ),
            res@.files == res0.files,
            data_wf(res@, module_id@),
        decreases items@.len() - j,
    {
        let ghost before = res@;
        let ghost files_before = files_view(files@);
        process_item(db, module_id, index, parent, &items[j], files, res);
        proof {
            assert(iv.take(j + 1).drop_last() =~= iv.take(j as int));
            assert(iv.take(j + 1).last() == items@[j as int]@);
            assert(files_view(files@) =~= files0 + file_children(plugins, parent@, iv.take(j + 1)));
            assert forall|kind: ItemKind|
                #[trigger] entries_of_kind(res@, kind) == items_of_kind(
                    entries_of_kind(res0, kind),
                    mf,
                    iv.take(j + 1),
                    kind,
                ) by {
                assert(entries_of_kind(before, kind) == items_of_kind(
                    entries_of_kind(res0, kind),
                    mf,
                    iv.take(j as int),
                    kind,
                ));
            }
            assert(res@.plugin_diagnostics =~= res0.plugin_diagnostics + file_diagnostics(
                plugins,
                mf,
                iv.take(j + 1),
            ));
        }
        j = j + 1;
    }
    assert(iv.take(j as int) =~= iv);
}

/// Each entry of the parsed files lies at most `max_depth` below a file on disk.
pub proof fn lemma_max_depth_ge(syntax: Seq<(FileView, Seq<crate::defs::db::ItemView>)>, i: int)
    requires
        0 <= i < syntax.len(),
    ensures
        file_depth(syntax[i].0) <= max_depth(syntax),
    decreases syntax.len(),
{
    if i < syntax.len() - 1 {
        lemma_max_depth_ge(syntax.drop_last(), i);
        assert(syntax.drop_last()[i] == syntax[i]);
    }
}

/// A parsed file lies at most `max_depth` below a file on disk.
pub proof fn lemma_parsed_depth(syntax: Seq<(FileView, Seq<crate::defs::db::ItemView>)>, f: FileView)
    requires
        crate::defs::db::syntax_of(syntax, f) is Some,
    ensures
        file_depth(f) <= max_depth(syntax),
{
    let i = crate::defs::db::file_index(syntax, f)->0;
    lemma_max_depth_ge(syntax, i);
}

/// The files that plugins generate for an item of `f` lie one level below `f`.
pub proof fn lemma_item_files_depth<P: MacroPlugin>(plugins: Seq<P>, f: FileView, item: crate::defs::db::ItemView)
    ensures
        forall|j: int|
            0 <= j < item_files(plugins, f, item).len() ==> file_depth(
                #[trigger] item_files(plugins, f, item)[j],
            ) == file_depth(f) + 1,
    decreases plugins.len(),
{
    if plugins.len() > 0 {
        lemma_item_files_depth(plugins.drop_last(), f, item);
        let a = item_files(plugins.drop_last(), f, item);
        let b = generated_file(f, plugins.last().generated(item));
        assert forall|j: int| 0 <= j < (a + b).len() implies file_depth(#[trigger] (a + b)[j]) == file_depth(f) + 1 by {
            if j < a.len() {
                assert((a + b)[j] == a[j]);
            } else {
                assert((a + b)[j] == b[j - a.len()]);
            }
        }
    }
}

/// The files that plugins generate for the items of `f` lie one level below `f`.
pub proof fn lemma_file_children_depth<P: MacroPlugin>(plugins: Seq<P>, f: FileView, items: Seq<crate::defs::db::ItemView>)
    ensures
        forall|j: int|
            0 <= j < file_children(plugins, f, items).len() ==> file_depth(
                #[trigger] file_children(plugins, f, items)[j],
            ) == file_depth(f) + 1,
    decreases items.len(),
{
    if items.len() > 0 {
        lemma_file_children_depth(plugins, f, items.drop_last());
        lemma_item_files_depth(plugins, f, items.last());
        let a = file_children(plugins, f, items.drop_last());
        let b = item_files(plugins, f, items.last());
        assert forall|j: int| 0 <= j < (a + b).len() implies file_depth(#[trigger] (a + b)[j]) == file_depth(f) + 1 by {
            if j < a.len() {
                assert((a + b)[j] == a[j]);
            } else {
                assert((a + b)[j] == b[j - a.len()]);
            }
        }
    }
}

/// `rest` preceded by `prefix`, where there is a `rest`.
pub open spec fn prepend(prefix: Seq<FileView>, rest: Option<Seq<FileView>>) -> Option<Seq<FileView>> {
    match rest {
        Some(r) => Some(prefix + r),
        None => None,
    }
}

/// The data of module `module_id`: the items of each kind in its files, its files and
/// the diagnostics of the plugins on its items, or none if the module has no main file
/// or one of its files was not parsed. The files are processed in order, starting from
/// the main file; each item of each is given to each plugin, and a file that a plugin
/// generates is added at the end.
pub fn module_data<P: MacroPlugin>(db: &DefsDatabase<P>, module_id: &ModuleId) -> (r: Option<ModuleData>)
    requires
        db.wf(),
    ensures
        match r {
            Some(d) => module_data_spec(db, module_id@) == Some(d@) && data_wf(d@, module_id@),
            None => module_data_spec(db, module_id@) is None,
        },
{
    let main = match module_main_file(db, module_id) {
        Some(f) => f,
        None => {
            return None;
        },
    };
    let ghost m = module_id@;
    let ghost fuel0: nat = max_depth(db.syntax()) + 1;
    let ghost d0 = file_depth(main@);
    let ghost whole = files_from(db, seq![main@], fuel0);
    let mut res = ModuleData::empty();
    let mut files: Vec<FileId> = Vec::new();
    files.push(main);
    proof {
        assert(files_view(files@) =~= seq![main_view(db, m)]);
        assert(files_view(files@).take(0) =~= Seq::<FileView>::empty());
        assert(files_view(files@).subrange(0, 1) =~= files_view(files@));
        assert(files_view(files@).subrange(1, 1) =~= Seq::<FileView>::empty());
        assert(files_view(files@).subrange(0, 0) =~= Seq::<FileView>::empty());
        assert(forall|kind: ItemKind| #[trigger] entries_of_kind(res@, kind) =~= seq![]);
        assert(res@.plugin_diagnostics =~= seq![]);
        assert(data_wf(res@, m));
    }
    let mut i: usize = 0;
    let mut level_end: usize = 1;
    let ghost mut level_start: int = 0;
    let ghost mut d: nat = 0;
    while i < files.len()
        invariant
            db.wf(),
            m == module_id@,
            fuel0 == max_depth(db.syntax()) + 1,
            whole == files_from(db, seq![main_view(db, m)], fuel0),
            module_main_file_spec(db, m) == Some(main_view(db, m)),
            d0 == file_depth(main_view(db, m)),
            0 <= level_start < level_end <= files@.len(),
            level_start <= i <= level_end,
            whole == prepend(
                files_view(files@).take(level_start),
                files_from(db, files_view(files@).subrange(level_start, level_end as int), (fuel0 - d) as nat),
            ),
            files_view(files@).subrange(level_end as int, files@.len() as int) == level_children(
                db,
                files_view(files@).subrange(level_start, i as int),
            ),
            all_parsed(db, files_view(files@).subrange(level_start, i as int)),
            forall|j: int| level_start <= j < level_end ==> file_depth(#[trigger] files_view(files@)[j]) == d0 + d,
            forall|j: int| level_end <= j < files@.len() ==> file_depth(#[trigger] files_view(files@)[j]) == d0 + d + 1,
            d <= fuel0,
            i > level_start ==> d < fuel0,
            forall|kind: ItemKind|
                #[trigger] entries_of_kind(res@, kind) == files_items_of_kind(
                    db,
                    m,
                    files_view(files@).take(i as int),
                    kind,
                ),
            res@.plugin_diagnostics == files_diagnostics(db, m, files_view(files@).take(i as int)),
            res@.files == Seq::<FileView>::empty(),
            data_wf(res@, m),
        decreases fuel0 - d, level_end - i,
    {
        let ghost fv = files_view(files@);
        if i == level_end {
            proof {
                let cur = fv.subrange(level_start, level_end as int);
                assert(cur.len() > 0);
                assert(fv.take(level_start) + cur =~= fv.take(level_end as int));
                assert(fv.subrange(level_start, i as int) == cur);
                assert(fv.subrange(level_end as int, fv.len() as int) =~= fv.subrange(
                    level_end as int,
                    fv.len() as int,
                ));
                assert(files_from(db, cur, (fuel0 - d) as nat) == prepend(
                    cur,
                    files_from(db, level_children(db, cur), (fuel0 - d - 1) as nat),
                ));
                assert(fv.subrange(i as int, i as int) =~= Seq::<FileView>::empty());
                assert forall|j: int| i <= j < fv.len() implies file_depth(#[trigger] fv[j]) == d0 + d + 1 by {}
                level_start = i as int;
                d = d + 1;
            }
            level_end = files.len();
        }
        let ghost fv = files_view(files@);
        let parent = files[i].duplicate();
        let items = match db.file_syntax(&parent) {
            Some(items) => items,
            None => {
                proof {
                    let cur = fv.subrange(level_start, level_end as int);
                    assert(cur[i - level_start] == parent@);
                    assert(!all_parsed(db, cur));
                }
                return None;
            },
        };
        proof {
            lemma_parsed_depth(db.syntax(), parent@);
            assert(file_depth(fv[i as int]) == d0 + d);
            lemma_file_children_depth(db.plugins(), parent@, items_view(items@));
        }
        let ghost res_before = res@;
        process_file(db, module_id, i, &parent, items, &mut files, &mut res);
        proof {
            let fv2 = files_view(files@);
            let kids = file_children(db.plugins(), parent@, items_view(items@));
            assert(fv2 == fv + kids);
            assert(fv2.take(i as int) =~= fv.take(i as int));
            assert(fv2[i as int] == parent@);
            assert(fv2.take(i + 1) =~= fv.take(i as int).push(parent@));
            assert(fv2.take(i + 1).drop_last() =~= fv.take(i as int));
            assert(items_of(db, parent@) == items_view(items@));
            assert(fv2.subrange(level_start, i + 1) =~= fv.subrange(level_start, i as int).push(parent@));
            assert(fv2.subrange(level_start, i + 1).drop_last() =~= fv.subrange(level_start, i as int));
            assert(fv2.subrange(level_start, i + 1).last() == parent@);
            assert(level_children(db, fv2.subrange(level_start, i + 1)) == level_children(
                db,
                fv.subrange(level_start, i as int),
            ) + kids);
            assert(fv2.subrange(level_start, level_end as int) =~= fv.subrange(level_start, level_end as int));
            assert(fv2.take(level_start) =~= fv.take(level_start));
            assert(fv2.subrange(level_end as int, fv2.len() as int) =~= fv.subrange(
                level_end as int,
                fv.len() as int,
            ) + kids);
            assert(all_parsed(db, fv2.subrange(level_start, i + 1))) by {
                assert forall|j: int| 0 <= j < fv2.subrange(level_start, i + 1).len() implies (#[trigger] crate::defs::db::syntax_of(db.syntax(), fv2.subrange(level_start, i + 1)[j])) is Some by {
                    if j < i - level_start {
                        assert(fv2.subrange(level_start, i + 1)[j] == fv.subrange(level_start, i as int)[j]);
                    }
                }
            }
            assert forall|j: int| level_start <= j < level_end implies file_depth(#[trigger] fv2[j]) == d0 + d by {
                assert(fv2[j] == fv[j]);
            }
            assert forall|j: int| level_end <= j < fv2.len() implies file_depth(#[trigger] fv2[j]) == d0 + d + 1 by {
                if j < fv.len() {
                    assert(fv2[j] == fv[j]);
                } else {
                    assert(fv2[j] == kids[j - fv.len()]);
                }
            }
            assert forall|kind: ItemKind| #[trigger] entries_of_kind(res@, kind) == files_items_of_kind(db, m, fv2.take(i + 1), kind) by {
                assert(entries_of_kind(res_before, kind) == files_items_of_kind(db, m, fv.take(i as int), kind));
            }
            assert(res@.plugin_diagnostics =~= files_diagnostics(db, m, fv2.take(i + 1)));
        }
        i = i + 1;
    }
    proof {
        let fv = files_view(files@);
        let cur = fv.subrange(level_start, level_end as int);
        assert(i == level_end);
        assert(fv.subrange(level_end as int, fv.len() as int) =~= Seq::<FileView>::empty());
        assert(files_from(db, Seq::<FileView>::empty(), (fuel0 - d - 1) as nat) == Some(Seq::<FileView>::empty()));
        assert(files_from(db, cur, (fuel0 - d) as nat) == Some(cur + Seq::<FileView>::empty()));
        assert(fv.take(level_start) + (cur + Seq::<FileView>::empty()) =~= fv);
        assert(fv.take(i as int) =~= fv);
        assert(module_files_spec(db, m) == Some(fv));
    }
    let ghost res_pre = res@;
    let ghost fv_final = files_view(files@);
    res.files = files;
    proof {
        let fv = res@.files;
        assert(fv == fv_final);
        assert(fv.take(i as int) =~= fv);
        let spec_data = data_of_files(db, m, fv);
        assert forall|kind: ItemKind| #[trigger] entries_of_kind(res@, kind) == entries_of_kind(spec_data, kind) by {
            assert(entries_of_kind(res@, kind) == entries_of_kind(res_pre, kind));
            assert(entries_of_kind(res_pre, kind) == files_items_of_kind(db, m, fv.take(i as int), kind));
        }
        assert(entries_of_kind(res@, ItemKind::Module) == entries_of_kind(spec_data, ItemKind::Module));
        assert(entries_of_kind(res@, ItemKind::Use) == entries_of_kind(spec_data, ItemKind::Use));
        assert(entries_of_kind(res@, ItemKind::FreeFunction) == entries_of_kind(spec_data, ItemKind::FreeFunction));
        assert(entries_of_kind(res@, ItemKind::ExternFunction) == entries_of_kind(spec_data, ItemKind::ExternFunction));
        assert(entries_of_kind(res@, ItemKind::ExternType) == entries_of_kind(spec_data, ItemKind::ExternType));
        assert(entries_of_kind(res@, ItemKind::Struct) == entries_of_kind(spec_data, ItemKind::Struct));
        assert(entries_of_kind(res@, ItemKind::Enum) == entries_of_kind(spec_data, ItemKind::Enum));
        assert(entries_of_kind(res@, ItemKind::Trait) == entries_of_kind(spec_data, ItemKind::Trait));
        assert(entries_of_kind(res@, ItemKind::Impl) == entries_of_kind(spec_data, ItemKind::Impl));
        assert(res@ == spec_data);
        assert forall|kind: ItemKind| crate::defs::data::item_map_wf(#[trigger] entries_of_kind(res@, kind), m) by {
            assert(entries_of_kind(res@, kind) == entries_of_kind(res_pre, kind));
        }
    }
    Some(res)
}

/// The main file of module `m`, where it has one.
pub open spec fn main_view<P: MacroPlugin>(db: &DefsDatabase<P>, m: crate::defs::ids::ModuleView) -> FileView {
    module_main_file_spec(db, m)->0
}

} // verus!
