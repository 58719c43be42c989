//! Forums and their number of discussions.
use crate::comparable::Id;
use crate::gen_module::{GenModuleBuilder, ModuleView, with_date, with_entry, with_string};
use crate::modules::generate::Generate;
use crate::modules::unknown::CourseModule;
use crate::text::int_text;
use vstd::prelude::*;

verus! {

pub type Root = Vec<Forum>;

pub struct Forum {
    pub name: String,
    pub intro: String,
    pub timemodified: i64,
    pub cmid: i64,
    pub numdiscussions: i64,
}

impl Id for Forum {
    open spec fn spec_id(&self) -> i64 {
        self.cmid
    }

    fn get_id(&self) -> (r: i64) {
        self.cmid
    }
}

impl Generate for Forum {
    open spec fn generated(&self, v: ModuleView, _course_module: CourseModule) -> ModuleView {
        with_date(with_entry(with_string(v, "Bescheibung"@, self.intro@), "Anzahl an Disskusionen"@, int_text(self.numdiscussions as int)), "Änderungsdatum"@, self.timemodified)
    }

    fn gen(self, builder: &mut GenModuleBuilder, _course_module: CourseModule) -> (r: &mut GenModuleBuilder) {
        builder
            .string("Bescheibung", self.intro)
            .num("Anzahl an Disskusionen", self.numdiscussions)
            .date("Änderungsdatum", self.timemodified)
    }
}

} // verus!
