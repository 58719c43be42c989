//! Files offered as a resource.
use crate::comparable::Id;
use crate::gen_module::{FileInfo, GenModuleBuilder, ModuleView, with_date, with_entry, with_files, with_string};
use crate::modules::generate::Generate;
use crate::modules::unknown::CourseModule;
use crate::text::int_text;
use vstd::prelude::*;

verus! {

pub struct Root {
    pub resources: Vec<Resource>,
}

pub struct Resource {
    pub coursemodule: i64,
    pub name: String,
    pub intro: String,
    pub contentfiles: Vec<FileInfo>,
    pub revision: i64,
    pub timemodified: i64,
}

impl Id for Resource {
    open spec fn spec_id(&self) -> i64 {
        self.coursemodule
    }

    fn get_id(&self) -> (r: i64) {
        self.coursemodule
    }
}

impl Generate for Resource {
    open spec fn generated(&self, v: ModuleView, _course_module: CourseModule) -> ModuleView {
        with_files(with_date(with_entry(with_string(v, "Bescheibung"@, self.intro@), "Revision"@, int_text(self.revision as int)), "Änderungsdatum"@, self.timemodified), self.contentfiles@)
    }

    fn gen(self, builder: &mut GenModuleBuilder, _course_module: CourseModule) -> (r: &mut GenModuleBuilder) {
        builder
            .string("Bescheibung", self.intro)
            .num("Revision", self.revision)
            .date("Änderungsdatum", self.timemodified)
            .files(self.contentfiles)
    }
}

} // verus!
