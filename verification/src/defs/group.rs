use vstd::prelude::*;

use crate::defs::data::{files_view, unique_keys, ModuleData};
use crate::defs::db::{DefsDatabase, MacroPlugin};
use crate::defs::ids::{
    CrateId, Directory, FileId, ModuleFileId, ModuleFileView, ModuleId, ModuleItemId, ModuleView,
};
use crate::defs::items::{
    map_get, module_files_of, module_items_spec, module_submodules_spec, ModuleItems,
};
use crate::defs::modules::{file_module_mapping, mapping_view, modules_under, modules_view};
use crate::defs::spec::{module_data_spec, module_dir_spec, module_main_file_spec};

verus! {

/// The queries of the definitions database: from modules to their files, directories,
/// data, submodules and items, and from files to the modules they belong to.
pub trait DefsGroup {
    /// The inputs of the database are consistent.
    spec fn valid(&self) -> bool;

    /// The position of `mf` lies among the files of its module, where it has files.
    spec fn file_in_range(&self, mf: ModuleFileView) -> bool;

    /// The main file of the module. A module may have more files, generated by plugins.
    fn module_main_file(&self, module_id: ModuleId) -> Option<FileId>
        requires
            self.valid(),
    ;

    /// All the files of the module: its main file and those generated by plugins.
    fn module_files(&self, module_id: ModuleId) -> Option<Vec<FileId>>
        requires
            self.valid(),
    ;

    /// The file of a module at a position.
    fn module_file(&self, module_file_id: ModuleFileId) -> Option<FileId>
        requires
            self.valid(),
            self.file_in_range(module_file_id@),
    ;

    /// The directory of the module.
    fn module_dir(&self, module_id: ModuleId) -> Option<Directory>
        requires
            self.valid(),
    ;

    /// The modules of the crate.
    fn crate_modules(&self, crate_id: CrateId) -> Vec<ModuleId>
        requires
            self.valid(),
    ;

    /// The modules of each file of each module of each crate.
    fn priv_file_to_module_mapping(&self) -> Vec<(FileId, Vec<ModuleId>)>
        requires
            self.valid(),
    ;

    /// The modules that the file belongs to.
    fn file_modules(&self, file_id: FileId) -> Option<Vec<ModuleId>>
        requires
            self.valid(),
    ;

    /// The items, files and plugin diagnostics of the module.
    fn module_data(&self, module_id: ModuleId) -> Option<ModuleData>
        requires
            self.valid(),
    ;

    /// The submodules of the module: both explicit ones, declared by `mod` items of its
    /// files, and virtual ones, generated by macro plugins.
    fn module_submodules(&self, module_id: ModuleId) -> Option<Vec<ModuleId>>
        requires
            self.valid(),
    ;

    /// The items of the module by name.
    fn module_items(&self, module_id: ModuleId) -> Option<ModuleItems>
        requires
            self.valid(),
    ;

    /// The item of the module with the name.
    fn module_item_by_name(&self, module_id: ModuleId, name: String) -> Option<ModuleItemId>
        requires
            self.valid(),
    ;
}

impl<P: MacroPlugin> DefsGroup for DefsDatabase<P> {
    open spec fn valid(&self) -> bool {
        self.wf()
    }

    open spec fn file_in_range(&self, mf: ModuleFileView) -> bool {
        module_files_of(self, mf.module) matches Some(files) ==> mf.index < files.len()
    }

    fn module_main_file(&self, module_id: ModuleId) -> (r: Option<FileId>)
        ensures
            match r {
                Some(f) => module_main_file_spec(self, module_id@) == Some(f@),
                None => module_main_file_spec(self, module_id@) is None,
            },
    {
        crate::defs::queries::module_main_file(self, &module_id)
    }

    fn module_files(&self, module_id: ModuleId) -> (r: Option<Vec<FileId>>)
        ensures
            match r {
                Some(files) => module_files_of(self, module_id@) == Some(files_view(files@)),
                None => module_files_of(self, module_id@) is None,
            },
    {
        crate::defs::items::module_files(self, &module_id)
    }

    fn module_file(&self, module_file_id: ModuleFileId) -> (r: Option<FileId>)
        ensures
            match r {
                Some(f) => module_files_of(self, module_file_id.0@) matches Some(files) && f@
                    == files[module_file_id.1.0 as int],
                None => module_files_of(self, module_file_id.0@) is None,
            },
    {
        crate::defs::items::module_file(self, &module_file_id)
    }

    fn module_dir(&self, module_id: ModuleId) -> (r: Option<Directory>)
        ensures
            match r {
                Some(d) => module_dir_spec(self, module_id@) == Some(d@),
                None => module_dir_spec(self, module_id@) is None,
            },
    {
        crate::defs::queries::module_dir(self, &module_id)
    }

    fn crate_modules(&self, crate_id: CrateId) -> (r: Vec<ModuleId>)
        ensures
            modules_view(r@) == modules_under(self, ModuleView::CrateRoot(crate_id.0)),
    {
        crate::defs::modules::crate_modules(self, crate_id)
    }

    fn priv_file_to_module_mapping(&self) -> (r: Vec<(FileId, Vec<ModuleId>)>)
        ensures
            mapping_view(r@) == file_module_mapping(self),
            unique_keys(mapping_view(r@)),
    {
        crate::defs::modules::priv_file_to_module_mapping(self)
    }

    fn file_modules(&self, file_id: FileId) -> (r: Option<Vec<ModuleId>>)
        ensures
            match r {
                Some(ms) => map_get(file_module_mapping(self), file_id@) == Some(modules_view(ms@)),
                None => map_get(file_module_mapping(self), file_id@) is None,
            },
    {
        crate::defs::modules::file_modules(self, &file_id)
    }

    fn module_data(&self, module_id: ModuleId) -> (r: Option<ModuleData>)
        ensures
            match r {
                Some(d) => module_data_spec(self, module_id@) == Some(d@),
                None => module_data_spec(self, module_id@) is None,
            },
    {
        crate::defs::queries::module_data(self, &module_id)
    }

    fn module_submodules(&self, module_id: ModuleId) -> (r: Option<Vec<ModuleId>>)
        ensures
            match r {
                Some(s) => module_submodules_spec(self, module_id@) == Some(modules_view(s@)),
                None => module_submodules_spec(self, module_id@) is None,
            },
    {
        let r = crate::defs::items::module_submodules(self, &module_id);
        proof {
            if r is Some {
                assert(modules_view(r->0@) =~= r->0@.map_values(|x: ModuleId| x@));
            }
        }
        r
    }

    fn module_items(&self, module_id: ModuleId) -> (r: Option<ModuleItems>)
        ensures
            match r {
                Some(items) => module_items_spec(self, module_id@) == Some(items@),
                None => module_items_spec(self, module_id@) is None,
            },
    {
        crate::defs::items::module_items(self, &module_id)
    }

    fn module_item_by_name(&self, module_id: ModuleId, name: String) -> (r: Option<ModuleItemId>)
        ensures
            match module_items_spec(self, module_id@) {
                Some(items) => match r {
                    Some(id) => map_get(items, name@) == Some(id@),
                    None => map_get(items, name@) is None,
                },
                None => r is None,
            },
    {
        crate::defs::items::module_item_by_name(self, &module_id, name)
    }
}

} // verus!
