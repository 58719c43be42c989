//! Links to outside addresses.
use crate::comparable::Id;
use crate::gen_module::{GenModuleBuilder, ModuleView, with_date, with_string};
use crate::modules::generate::Generate;
use crate::modules::unknown::CourseModule;
use vstd::prelude::*;

verus! {

pub struct Root {
    pub urls: Vec<Url>,
}

pub struct Url {
    pub coursemodule: i64,
    pub name: String,
    pub intro: String,
    pub externalurl: String,
    pub timemodified: i64,
}

impl Id for Url {
    open spec fn spec_id(&self) -> i64 {
        self.coursemodule
    }

    fn get_id(&self) -> (r: i64) {
        self.coursemodule
    }
}

impl Generate for Url {
    open spec fn generated(&self, v: ModuleView, _course_module: CourseModule) -> ModuleView {
        with_date(with_string(with_string(v, "Bescheibung"@, self.intro@), "Link"@, self.externalurl@), "Änderungsdatum"@, self.timemodified)
    }

    fn gen(self, builder: &mut GenModuleBuilder, _course_module: CourseModule) -> (r: &mut GenModuleBuilder) {
        builder
            .string("Bescheibung", self.intro)
            .string("Link", self.externalurl)
            .date("Änderungsdatum", self.timemodified)
    }
}

} // verus!
