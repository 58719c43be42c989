//! Polls and whether answers may change or be several.
use crate::comparable::Id;
use crate::gen_module::{GenModuleBuilder, ModuleView, flag_text, with_entry, with_string};
use crate::modules::generate::Generate;
use crate::modules::unknown::CourseModule;
use vstd::prelude::*;

verus! {

pub struct Root {
    pub choices: Vec<Choice>,
}

pub struct Choice {
    pub coursemodule: i64,
    pub name: String,
    pub intro: String,
    pub allowupdate: bool,
    pub allowmultiple: bool,
}

impl Id for Choice {
    open spec fn spec_id(&self) -> i64 {
        self.coursemodule
    }

    fn get_id(&self) -> (r: i64) {
        self.coursemodule
    }
}

impl Generate for Choice {
    open spec fn generated(&self, v: ModuleView, _course_module: CourseModule) -> ModuleView {
        with_entry(with_entry(with_string(v, "Bescheibung"@, self.intro@), "Änderbar"@, flag_text(self.allowupdate)), "Mehrfachauswahl"@, flag_text(self.allowmultiple))
    }

    fn gen(self, builder: &mut GenModuleBuilder, _course_module: CourseModule) -> (r: &mut GenModuleBuilder) {
        builder
            .string("Bescheibung", self.intro)
            .bool("Änderbar", self.allowupdate)
            .bool("Mehrfachauswahl", self.allowmultiple)
    }
}

} // verus!
