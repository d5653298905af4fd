use vstd::prelude::*;

use crate::defs::data::{data_wf, files_view, keys_in_module};
use crate::defs::db::{
    crate_ids, file_index, syntax_of, DefsDatabase, ItemKind, ItemView, MacroPlugin,
};
use crate::defs::ids::{
    CrateId, FileId, FileView, ItemIdView, ModuleFileView, ModuleId, ModuleView, VirtualSubmoduleView,
};
use crate::defs::items::{module_submodules, module_submodules_spec, submodule_of, virtual_submodules_of};
use crate::defs::laws::parent_among;
use crate::defs::queries::lemma_parsed_depth;
use crate::defs::queries::module_data;
use crate::defs::spec::{
    all_parsed, file_depth, files_from, files_items_of_kind, items_of, items_of_kind, map_insert,
    module_data_spec, module_dir_spec, module_files_spec, module_main_file_spec,
};

verus! {

/// The number of path components of a file on disk (0 for a generated file).
pub open spec fn path_len(f: FileView) -> nat {
    match f {
        FileView::OnDisk(p) => p.len(),
        _ => 0,
    }
}

/// The greatest number of path components of a parsed file.
pub open spec fn max_path_len(syntax: Seq<(FileView, Seq<ItemView>)>) -> nat
    decreases syntax.len(),
{
    if syntax.len() == 0 {
        0
    } else {
        let rest = max_path_len(syntax.drop_last());
        let l = path_len(syntax.last().0);
        if l > rest {
            l
        } else {
            rest
        }
    }
}

/// Each parsed file has at most `max_path_len` path components.
pub proof fn lemma_path_len(syntax: Seq<(FileView, Seq<ItemView>)>, i: int)
    requires
        0 <= i < syntax.len(),
    ensures
        path_len(syntax[i].0) <= max_path_len(syntax),
    decreases syntax.len(),
{
    if i < syntax.len() - 1 {
        lemma_path_len(syntax.drop_last(), i);
        assert(syntax.drop_last()[i] == syntax[i]);
    }
}

/// A measure of how deep below the parsed files a module lies: each submodule of a
/// module with data measures less than the module. A module with a directory measures
/// by the length of its directory, above every virtual submodule, which measures by the
/// depth of its file.
pub open spec fn module_measure<P: MacroPlugin>(db: &DefsDatabase<P>, m: ModuleView) -> nat {
    let k = max_path_len(db.syntax());
    let v = max_depth_fuel(db);
    match m {
        ModuleView::VirtualSubmodule(vs) => if file_depth(vs.file) < v {
            (v - file_depth(vs.file)) as nat
        } else {
            0
        },
        _ => match module_dir_spec(db, m) {
            Some(p) => if p.len() <= k + 1 {
                (v * (k + 3 - p.len())) as nat
            } else {
                0
            },
            None => 0,
        },
    }
}

/// Each file of a module after the first lies deeper below a file on disk than the
/// first.
proof fn lemma_files_deeper(files: Seq<FileView>, i: int)
    requires
        1 <= i < files.len(),
        forall|j: int| 1 <= j < files.len() ==> parent_among(#[trigger] files[j], files.take(j)),
    ensures
        file_depth(files[i]) > file_depth(files[0]),
    decreases i,
{
    assert(parent_among(files[i], files.take(i)));
    let p = *files[i]->Virtual_0->0;
    let k = choose|k: int| 0 <= k < files.take(i).len() && files.take(i)[k] == p;
    assert(files[k] == p);
    if k >= 1 {
        lemma_files_deeper(files, k);
    }
}

/// The keys of the items of kind `kind` of the files of module `m` are items of `m`.
pub proof fn lemma_items_of_kind_keys(
    acc: Seq<(ItemIdView, ItemView)>,
    mf: ModuleFileView,
    items: Seq<ItemView>,
    kind: ItemKind,
)
    requires
        keys_in_module(acc, mf.module),
    ensures
        keys_in_module(items_of_kind(acc, mf, items, kind), mf.module),
    decreases items.len(),
{
    if items.len() > 0 {
        lemma_items_of_kind_keys(acc, mf, items.drop_last(), kind);
        let before = items_of_kind(acc, mf, items.drop_last(), kind);
        let item = items.last();
        if item.kind == kind {
            let k = ItemIdView { module_file: mf, ptr: item.ptr };
            let r = map_insert(before, k, item);
            assert forall|a: int| 0 <= a < r.len() implies (#[trigger] r[a]).0.module_file.module
                == mf.module by {
                if exists|j: int| 0 <= j < before.len() && (#[trigger] before[j]).0 == k {
                    assert(r[a].0 == before[a].0);
                } else if a < before.len() {
                    assert(r[a] == before[a]);
                }
            }
        }
    }
}

/// The keys of the items of kind `kind` of the files `files` of module `m` are items of
/// `m`.
pub proof fn lemma_files_items_keys<P: MacroPlugin>(
    db: &DefsDatabase<P>,
    m: ModuleView,
    files: Seq<FileView>,
    kind: ItemKind,
)
    ensures
        keys_in_module(files_items_of_kind(db, m, files, kind), m),
    decreases files.len(),
{
    if files.len() > 0 {
        lemma_files_items_keys(db, m, files.drop_last(), kind);
        lemma_items_of_kind_keys(
            files_items_of_kind(db, m, files.drop_last(), kind),
            ModuleFileView { module: m, index: (files.len() - 1) as nat },
            items_of(db, files.last()),
            kind,
        );
    }
}

/// The submodules of `m`, or none where it has no data.
pub open spec fn submodules_or_empty<P: MacroPlugin>(db: &DefsDatabase<P>, m: ModuleView) -> Seq<ModuleView> {
    match module_submodules_spec(db, m) {
        Some(s) => s,
        None => seq![],
    }
}

/// A submodule of `m` measures less than `m`.
#[verifier::spinoff_prover]
#[verifier::rlimit(50)]
pub proof fn lemma_submodule_measure<P: MacroPlugin>(db: &DefsDatabase<P>, m: ModuleView, i: int)
    requires
        0 <= i < submodules_or_empty(db, m).len(),
    ensures
        module_measure(db, submodules_or_empty(db, m)[i]) < module_measure(db, m),
{
    let d = module_data_spec(db, m)->0;
    let files = module_files_spec(db, m)->0;
    let main = module_main_file_spec(db, m)->0;
    let fuel = max_depth_fuel(db);
    let subs = submodules_or_empty(db, m);
    let explicit = d.submodules.map_values(
        |e: (ItemIdView, ItemView)| ModuleView::Submodule(submodule_of(e)),
    );
    assert(subs == explicit + virtual_submodules_of(m, d.files));
    assert(files_from(db, seq![main], fuel) == Some(files));
    assert(all_parsed(db, seq![main]));
    assert(syntax_of(db.syntax(), seq![main][0]) is Some);
    lemma_parsed_depth(db.syntax(), main);
    let idx = file_index(db.syntax(), main)->0;
    lemma_path_len(db.syntax(), idx);
    let k = max_path_len(db.syntax());
    let v = fuel;
    assert(db.syntax()[idx].0 == main);
    assert(path_len(main) <= k);
    let c = subs[i];
    if i < explicit.len() {
        lemma_files_items_keys(db, m, files, ItemKind::Module);
        let e = d.submodules[i];
        assert(e.0.module_file.module == m);
        assert(c == explicit[i]);
        assert(c == ModuleView::Submodule(submodule_of(e)));
        let child_dir = module_dir_spec(db, c);
        assert(child_dir == match module_dir_spec(db, m) {
            Some(dd) => Some(dd.push(e.1.name)),
            None => None,
        });
        match m {
            ModuleView::CrateRoot(cr) => {
                let root = module_dir_spec(db, m)->0;
                let l = root.len() as int;
                assert(main == FileView::OnDisk(root.push("lib.cairo"@)));
                assert(l + 1 <= k);
                assert(child_dir == Some(root.push(e.1.name)));
                assert(v * (k + 3 - l) == v * (k + 3 - (l + 1)) + v) by (nonlinear_arith);
                assert(module_measure(db, c) < module_measure(db, m));
            },
            ModuleView::Submodule(sm) => {
                let pd = module_dir_spec(db, *sm.parent)->0;
                let l = pd.len() + 1;
                assert(main == FileView::OnDisk(pd.push(sm.name + ".cairo"@)));
                assert(pd.len() + 1 <= k);
                assert(module_dir_spec(db, m) == Some(pd.push(sm.name)));
                assert(v * (k + 3 - l) == v * (k + 3 - (l + 1)) + v) by (nonlinear_arith);
                assert(module_measure(db, c) < module_measure(db, m));
            },
            ModuleView::VirtualSubmodule(vs) => {
                assert(main == vs.file);
                assert(child_dir is None);
                assert(module_measure(db, c) < module_measure(db, m));
            },
        }
    } else {
        let j = i - explicit.len();
        assert(files.len() > 0);
        assert(c == virtual_submodules_of(m, files)[j]);
        assert(c == ModuleView::VirtualSubmodule(VirtualSubmoduleView { parent: Box::new(m), file: files[j + 1] }));
        match m {
            ModuleView::VirtualSubmodule(vs) => {
                assert(main == vs.file);
                crate::defs::laws::law_module_files_start_with_main(db, m);
                lemma_files_deeper(files, j + 1);
                assert(module_measure(db, c) < module_measure(db, m));
            },
            ModuleView::CrateRoot(cr) => {
                let root = module_dir_spec(db, m)->0;
                let l = root.len() as int;
                assert(main == FileView::OnDisk(root.push("lib.cairo"@)));
                assert(l + 1 <= k);
                assert(v * (k + 3 - l) >= v) by (nonlinear_arith)
                    requires
                        k + 3 - l >= 1,
                        v >= 0,
                ;
                crate::defs::laws::law_module_files_start_with_main(db, m);
                assert(parent_among(files[j + 1], files.take(j + 1)));
                assert(file_depth(files[j + 1]) >= 1);
                assert(module_measure(db, c) < module_measure(db, m));
            },
            ModuleView::Submodule(sm) => {
                let pd = module_dir_spec(db, *sm.parent)->0;
                let l = pd.len() + 1;
                assert(main == FileView::OnDisk(pd.push(sm.name + ".cairo"@)));
                assert(pd.len() + 1 <= k);
                assert(module_dir_spec(db, m) == Some(pd.push(sm.name)));
                assert(v * (k + 3 - l) >= v) by (nonlinear_arith)
                    requires
                        k + 3 - l >= 1,
                        v >= 0,
                ;
                crate::defs::laws::law_module_files_start_with_main(db, m);
                assert(parent_among(files[j + 1], files.take(j + 1)));
                assert(file_depth(files[j + 1]) >= 1);
                assert(module_measure(db, c) < module_measure(db, m));
            },
        }
    }
    assert(module_measure(db, c) < module_measure(db, m));
}

/// The fuel with which the files of a module are computed.
pub open spec fn max_depth_fuel<P: MacroPlugin>(db: &DefsDatabase<P>) -> nat {
    crate::defs::spec::max_depth(db.syntax()) + 1
}

/// The modules at and below `m`, in depth-first order: `m`, then for each of its
/// submodules in turn, the modules at and below it.
pub open spec fn modules_under<P: MacroPlugin>(db: &DefsDatabase<P>, m: ModuleView) -> Seq<ModuleView>
    decreases module_measure(db, m), 1nat, 0nat,
{
    seq![m] + modules_under_children(db, m, submodules_or_empty(db, m).len())
}

/// The modules at and below each of the first `n` submodules of `m`, in order.
pub open spec fn modules_under_children<P: MacroPlugin>(db: &DefsDatabase<P>, m: ModuleView, n: nat) -> Seq<
    ModuleView,
>
    decreases module_measure(db, m), 0nat, n,
{
    if n == 0 || n > submodules_or_empty(db, m).len() {
        seq![]
    } else {
        proof {
            lemma_submodule_measure(db, m, n - 1);
        }
        modules_under_children(db, m, (n - 1) as nat) + modules_under(
            db,
            submodules_or_empty(db, m)[n - 1],
        )
    }
}

/// The views of a sequence of modules.
pub open spec fn modules_view(s: Seq<ModuleId>) -> Seq<ModuleView> {
    s.map_values(|m: ModuleId| m@)
}

/// Adds to `modules` the modules at and below `module_id`, in depth-first order.
pub fn collect_modules_under<P: MacroPlugin>(
    db: &DefsDatabase<P>,
    modules: &mut Vec<ModuleId>,
    module_id: &ModuleId,
)
    requires
        db.wf(),
    ensures
        modules_view(final(modules)@) == modules_view(old(modules)@) + modules_under(db, module_id@),
    decreases module_measure(db, module_id@),
{
    let ghost m = module_id@;
    let ghost before = modules_view(modules@);
    modules.push(module_id.duplicate());
    assert(modules_view(modules@) =~= before + seq![m]);
    match module_submodules(db, module_id) {
        Some(submodules) => {
            let ghost subs = submodules_or_empty(db, m);
            assert(submodules@.map_values(|x: ModuleId| x@) == subs);
            let mut i: usize = 0;
            while i < submodules.len()
                invariant
                    db.wf(),
                    m == module_id@,
                    subs == submodules_or_empty(db, m),
                    submodules@.map_values(|x: ModuleId| x@) == subs,
                    i <= submodules@.len(),
                    modules_view(modules@) == before + seq![m] + modules_under_children(db, m, i as nat),
                decreases submodules@.len() - i,
            {
                proof {
                    lemma_submodule_measure(db, m, i as int);
                    assert(submodules@[i as int]@ == subs[i as int]);
                }
                let ghost mid = modules_view(modules@);
                collect_modules_under(db, modules, &submodules[i]);
                proof {
                    assert(modules_under_children(db, m, (i + 1) as nat) == modules_under_children(
                        db,
                        m,
                        i as nat,
                    ) + modules_under(db, subs[i as int]));
                    assert(modules_view(modules@) =~= before + seq![m] + modules_under_children(
                        db,
                        m,
                        (i + 1) as nat,
                    ));
                }
                i = i + 1;
            }
            assert(modules_view(modules@) =~= before + modules_under(db, m));
        },
        None => {
            assert(modules_under_children(db, m, 0) =~= Seq::<ModuleView>::empty());
            assert(modules_view(modules@) =~= before + modules_under(db, m));
        },
    }
}

/// The modules of crate `crate_id`: its root module and all the modules below it, in
/// depth-first order.
pub fn crate_modules<P: MacroPlugin>(db: &DefsDatabase<P>, crate_id: CrateId) -> (r: Vec<ModuleId>)
    requires
        db.wf(),
    ensures
        modules_view(r@) == modules_under(db, ModuleView::CrateRoot(crate_id.0)),
{
    let mut modules: Vec<ModuleId> = Vec::new();
    assert(modules_view(modules@) =~= Seq::<ModuleView>::empty());
    collect_modules_under(db, &mut modules, &ModuleId::CrateRoot(crate_id));
    assert(modules_view(modules@) =~= modules_under(db, ModuleView::CrateRoot(crate_id.0)));
    modules
}

/// Each file of each module of `ms` with its module, in order.
pub open spec fn module_file_pairs<P: MacroPlugin>(db: &DefsDatabase<P>, ms: Seq<ModuleView>) -> Seq<
    (FileView, ModuleView),
>
    decreases ms.len(),
{
    if ms.len() == 0 {
        seq![]
    } else {
        module_file_pairs(db, ms.drop_last()) + files_with_module(db, ms.last())
    }
}

/// Each file of module `m` with `m`, in order (none where `m` has no data).
pub open spec fn files_with_module<P: MacroPlugin>(db: &DefsDatabase<P>, m: ModuleView) -> Seq<
    (FileView, ModuleView),
> {
    match module_data_spec(db, m) {
        Some(d) => d.files.map_values(|f: FileView| (f, m)),
        None => seq![],
    }
}

/// Each file of each module of each crate of `cs` with its module, in order.
pub open spec fn crates_file_pairs<P: MacroPlugin>(db: &DefsDatabase<P>, cs: Seq<u64>) -> Seq<
    (FileView, ModuleView),
>
    decreases cs.len(),
{
    if cs.len() == 0 {
        seq![]
    } else {
        crates_file_pairs(db, cs.drop_last()) + module_file_pairs(
            db,
            modules_under(db, ModuleView::CrateRoot(cs.last())),
        )
    }
}

/// The ordered map `s` from file to modules with `m` added to the modules of `f`: at
/// the end of its list where `f` is a key, as a new entry at the end otherwise.
pub open spec fn map_append(s: Seq<(FileView, Seq<ModuleView>)>, f: FileView, m: ModuleView) -> Seq<
    (FileView, Seq<ModuleView>),
> {
    if exists|j: int| 0 <= j < s.len() && (#[trigger] s[j]).0 == f {
        let j = choose|j: int| 0 <= j < s.len() && (#[trigger] s[j]).0 == f;
        s.update(j, (s[j].0, s[j].1.push(m)))
    } else {
        s.push((f, seq![m]))
    }
}

/// The ordered map `acc` with each pair of `pairs` added in turn.
pub open spec fn append_all(acc: Seq<(FileView, Seq<ModuleView>)>, pairs: Seq<(FileView, ModuleView)>) -> Seq<
    (FileView, Seq<ModuleView>),
>
    decreases pairs.len(),
{
    if pairs.len() == 0 {
        acc
    } else {
        map_append(append_all(acc, pairs.drop_last()), pairs.last().0, pairs.last().1)
    }
}

/// Adding the pairs of `a + b` adds those of `a`, then those of `b`.
pub proof fn lemma_append_all_concat(
    acc: Seq<(FileView, Seq<ModuleView>)>,
    a: Seq<(FileView, ModuleView)>,
    b: Seq<(FileView, ModuleView)>,
)
    ensures
        append_all(acc, a + b) == append_all(append_all(acc, a), b),
    decreases b.len(),
{
    if b.len() == 0 {
        assert(a + b =~= a);
    } else {
        lemma_append_all_concat(acc, a, b.drop_last());
        assert((a + b).drop_last() =~= a + b.drop_last());
        assert((a + b).last() == b.last());
    }
}

/// The modules of each file: for each crate in turn, for each of its modules in
/// depth-first order, each file of the module gets the module added to its list.
pub open spec fn file_module_mapping<P: MacroPlugin>(db: &DefsDatabase<P>) -> Seq<
    (FileView, Seq<ModuleView>),
> {
    append_all(Seq::empty(), crates_file_pairs(db, crate_ids(db.crate_roots())))
}

/// The views of the entries of an ordered map from file to modules.
pub open spec fn mapping_view(s: Seq<(FileId, Vec<ModuleId>)>) -> Seq<(FileView, Seq<ModuleView>)> {
    s.map_values(|e: (FileId, Vec<ModuleId>)| (e.0@, modules_view(e.1@)))
}

/// A copy of each module, in order.
pub fn duplicate_modules(s: &Vec<ModuleId>) -> (r: Vec<ModuleId>)
    ensures
        modules_view(r@) == modules_view(s@),
{
    let mut r: Vec<ModuleId> = Vec::new();
    let mut i: usize = 0;
    while i < s.len()
        invariant
            i <= s@.len(),
            r@.len() == i,
            forall|j: int| 0 <= j < i ==> (#[trigger] r@[j])@ == s@[j]@,
        decreases s@.len() - i,
    {
        r.push(s[i].duplicate());
        i = i + 1;
    }
    assert(modules_view(r@) =~= modules_view(s@));
    r
}

/// Adds `module_id` to the modules of `file` in `mapping`.
fn map_append_module(mapping: &mut Vec<(FileId, Vec<ModuleId>)>, file: FileId, module_id: ModuleId)
    requires
        crate::defs::data::unique_keys(mapping_view(old(mapping)@)),
    ensures
        mapping_view(final(mapping)@) == map_append(mapping_view(old(mapping)@), file@, module_id@),
        crate::defs::data::unique_keys(mapping_view(final(mapping)@)),
{
    let ghost s = mapping_view(mapping@);
    let ghost f = file@;
    let ghost m = module_id@;
    let mut j: usize = 0;
    while j < mapping.len()
        invariant
            j <= mapping@.len(),
            s == mapping_view(mapping@),
            s == mapping_view(old(mapping)@),
            crate::defs::data::unique_keys(s),
            f == file@,
            m == module_id@,
            forall|a: int| 0 <= a < j ==> (#[trigger] s[a]).0 != f,
        decreases mapping@.len() - j,
    {
        if mapping[j].0.same(&file) {
            proof {
                let c = choose|c: int| 0 <= c < s.len() && (#[trigger] s[c]).0 == f;
                assert(s[c].0 == s[j as int].0);
                assert(c == j as int);
            }
            let mut mods = duplicate_modules(&mapping[j].1);
            let key = mapping[j].0.duplicate();
            let ghost mods_before = modules_view(mods@);
            mods.push(module_id);
            assert(modules_view(mods@) =~= mods_before.push(m));
            let ghost old_mapping = mapping@;
            mapping.set(j, (key, mods));
            assert(mapping@ == old_mapping.update(j as int, mapping@[j as int]));
            assert(mapping_view(mapping@) =~= s.update(j as int, (s[j as int].0, s[j as int].1.push(m))));
            assert forall|a: int, b: int|
                #![trigger mapping_view(mapping@)[a], mapping_view(mapping@)[b]]
                0 <= a < mapping_view(mapping@).len() && 0 <= b < mapping_view(mapping@).len()
                    && mapping_view(mapping@)[a].0 == mapping_view(mapping@)[b].0 implies a == b by {
                assert(mapping_view(mapping@)[a].0 == s[a].0);
                assert(mapping_view(mapping@)[b].0 == s[b].0);
            }
            return;
        }
        j = j + 1;
    }
    let mut mods: Vec<ModuleId> = Vec::new();
    mods.push(module_id);
    assert(modules_view(mods@) =~= seq![m]);
    mapping.push((file, mods));
    assert(mapping_view(mapping@) =~= s.push((f, seq![m])));
    assert forall|a: int, b: int|
        #![trigger mapping_view(mapping@)[a], mapping_view(mapping@)[b]]
        0 <= a < mapping_view(mapping@).len() && 0 <= b < mapping_view(mapping@).len()
            && mapping_view(mapping@)[a].0 == mapping_view(mapping@)[b].0 implies a == b by {
        if a < s.len() {
            assert(mapping_view(mapping@)[a] == s[a]);
        }
        if b < s.len() {
            assert(mapping_view(mapping@)[b] == s[b]);
        }
    }
}

/// The modules that each file belongs to, as an ordered map from file to modules (see
/// `file_module_mapping`).
pub fn priv_file_to_module_mapping<P: MacroPlugin>(db: &DefsDatabase<P>) -> (r: Vec<(FileId, Vec<ModuleId>)>)
    requires
        db.wf(),
    ensures
        mapping_view(r@) == file_module_mapping(db),
        crate::defs::data::unique_keys(mapping_view(r@)),
{
    let mut mapping: Vec<(FileId, Vec<ModuleId>)> = Vec::new();
    let crates = db.crates();
    let ghost cids = crate_ids(db.crate_roots());
    assert(crates@.map_values(|c: CrateId| c.0) == cids);
    assert(mapping_view(mapping@) =~= Seq::<(FileView, Seq<ModuleView>)>::empty());
    let mut ci: usize = 0;
    while ci < crates.len()
        invariant
            db.wf(),
            ci <= crates@.len(),
            crates@.map_values(|c: CrateId| c.0) == cids,
            mapping_view(mapping@) == append_all(Seq::empty(), crates_file_pairs(db, cids.take(ci as int))),
            crate::defs::data::unique_keys(mapping_view(mapping@)),
        decreases crates@.len() - ci,
    {
        let modules = crate_modules(db, crates[ci]);
        let ghost ms = modules_view(modules@);
        let ghost base = mapping_view(mapping@);
        proof {
            assert(crates@[ci as int].0 == cids[ci as int]);
        }
        let mut mi: usize = 0;
        while mi < modules.len()
            invariant
                db.wf(),
                mi <= modules@.len(),
                ms == modules_view(modules@),
                mapping_view(mapping@) == append_all(base, module_file_pairs(db, ms.take(mi as int))),
                crate::defs::data::unique_keys(mapping_view(mapping@)),
            decreases modules@.len() - mi,
        {
            let ghost before = mapping_view(mapping@);
            proof {
                assert(ms[mi as int] == modules@[mi as int]@);
            }
            match module_data(db, &modules[mi]) {
                Some(data) => {
                    let ghost fw = files_with_module(db, ms[mi as int]);
                    let mut fi: usize = 0;
                    while fi < data.files.len()
                        invariant
                            fi <= data.files@.len(),
                            fw == files_view(data.files@).map_values(|f: FileView| (f, ms[mi as int])),
                            ms[mi as int] == modules@[mi as int]@,
                            mi < modules@.len(),
                            mapping_view(mapping@) == append_all(before, fw.take(fi as int)),
                            crate::defs::data::unique_keys(mapping_view(mapping@)),
                        decreases data.files@.len() - fi,
                    {
                        map_append_module(&mut mapping, data.files[fi].duplicate(), modules[mi].duplicate());
                        assert(fw.take(fi + 1).drop_last() =~= fw.take(fi as int));
                        assert(fw.take(fi + 1).last() == (data.files@[fi as int]@, ms[mi as int]));
                        fi = fi + 1;
                    }
                    assert(fw.take(fi as int) =~= fw);
                },
                None => {
                    assert(append_all(before, Seq::<(FileView, ModuleView)>::empty()) == before);
                },
            }
            proof {
                assert(ms.take(mi + 1).drop_last() =~= ms.take(mi as int));
                assert(ms.take(mi + 1).last() == ms[mi as int]);
                lemma_append_all_concat(
                    base,
                    module_file_pairs(db, ms.take(mi as int)),
                    files_with_module(db, ms[mi as int]),
                );
            }
            mi = mi + 1;
        }
        proof {
            assert(ms.take(mi as int) =~= ms);
            assert(cids.take(ci + 1).drop_last() =~= cids.take(ci as int));
            assert(cids.take(ci + 1).last() == cids[ci as int]);
            lemma_append_all_concat(
                Seq::empty(),
                crates_file_pairs(db, cids.take(ci as int)),
                module_file_pairs(db, ms),
            );
        }
        ci = ci + 1;
    }
    assert(cids.take(ci as int) =~= cids);
    mapping
}

/// The modules that `file` belongs to, if it belongs to any.
pub fn file_modules<P: MacroPlugin>(db: &DefsDatabase<P>, file: &FileId) -> (r: Option<Vec<ModuleId>>)
    requires
        db.wf(),
    ensures
        match r {
            Some(ms) => crate::defs::items::map_get(file_module_mapping(db), file@) == Some(
                modules_view(ms@),
            ),
            None => crate::defs::items::map_get(file_module_mapping(db), file@) is None,
        },
{
    let mapping = priv_file_to_module_mapping(db);
    let ghost s = mapping_view(mapping@);
    let mut j: usize = 0;
    while j < mapping.len()
        invariant
            j <= mapping@.len(),
            s == mapping_view(mapping@),
            s == file_module_mapping(db),
            crate::defs::data::unique_keys(s),
            forall|a: int| 0 <= a < j ==> (#[trigger] s[a]).0 != file@,
        decreases mapping@.len() - j,
    {
        if mapping[j].0.same(file) {
            proof {
                let c = choose|c: int| 0 <= c < s.len() && (#[trigger] s[c]).0 == file@;
                assert(s[c].0 == s[j as int].0);
                assert(c == j as int);
            }
            return Some(duplicate_modules(&mapping[j].1));
        }
        j = j + 1;
    }
    None
}

} // verus!
