//! Glossaries and their display format.
use crate::comparable::Id;
use crate::gen_module::{GenModuleBuilder, ModuleView, with_date, with_string};
use crate::modules::generate::Generate;
use crate::modules::unknown::CourseModule;
use vstd::prelude::*;

verus! {

pub struct Root {
    pub glossaries: Vec<Glossary>,
}

pub struct Glossary {
    pub coursemodule: i64,
    pub name: String,
    pub intro: String,
    pub displayformat: String,
    pub timecreated: i64,
    pub timemodified: i64,
}

impl Id for Glossary {
    open spec fn spec_id(&self) -> i64 {
        self.coursemodule
    }

    fn get_id(&self) -> (r: i64) {
        self.coursemodule
    }
}

impl Generate for Glossary {
    open spec fn generated(&self, v: ModuleView, _course_module: CourseModule) -> ModuleView {
        with_date(with_string(with_string(v, "Bescheibung"@, self.intro@), "Format"@, self.displayformat@), "Änderungsdatum"@, self.timemodified)
    }

    fn gen(self, builder: &mut GenModuleBuilder, _course_module: CourseModule) -> (r: &mut GenModuleBuilder) {
        builder
            .string("Bescheibung", self.intro)
            .string("Format", self.displayformat)
            .date("Änderungsdatum", self.timemodified)
    }
}

} // verus!
