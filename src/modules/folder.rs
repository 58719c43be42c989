//! Folders of files.
use crate::comparable::Id;
use crate::gen_module::{GenModuleBuilder, ModuleView, with_contents, with_date, with_entry, with_string};
use crate::modules::generate::Generate;
use crate::modules::unknown::CourseModule;
use crate::text::int_text;
use vstd::prelude::*;

verus! {

pub struct Root {
    pub folders: Vec<Folder>,
}

pub struct Folder {
    pub coursemodule: i64,
    pub name: String,
    pub intro: String,
    pub revision: i64,
    pub timemodified: i64,
}

impl Id for Folder {
    open spec fn spec_id(&self) -> i64 {
        self.coursemodule
    }

    fn get_id(&self) -> (r: i64) {
        self.coursemodule
    }
}

impl Generate for Folder {
    open spec fn generated(&self, v: ModuleView, course_module: CourseModule) -> ModuleView {
        with_contents(with_date(with_entry(with_string(v, "Bescheibung"@, self.intro@), "Revision"@, int_text(self.revision as int)), "Änderungsdatum"@, self.timemodified), course_module.contents@)
    }

    fn gen(self, builder: &mut GenModuleBuilder, course_module: CourseModule) -> (r: &mut GenModuleBuilder) {
        builder
            .string("Bescheibung", self.intro)
            .num("Revision", self.revision)
            .date("Änderungsdatum", self.timemodified)
            .contents(course_module.contents)
    }
}

} // verus!
