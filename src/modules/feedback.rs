//! Feedback forms.
use crate::comparable::Id;
use crate::gen_module::{GenModuleBuilder, ModuleView, with_string};
use crate::modules::generate::Generate;
use crate::modules::unknown::CourseModule;
use vstd::prelude::*;

verus! {

pub struct Root {
    pub feedbacks: Vec<Feedback>,
}

pub struct Feedback {
    pub name: String,
    pub intro: String,
    pub coursemodule: i64,
}

impl Id for Feedback {
    open spec fn spec_id(&self) -> i64 {
        self.coursemodule
    }

    fn get_id(&self) -> (r: i64) {
        self.coursemodule
    }
}

impl Generate for Feedback {
    open spec fn generated(&self, v: ModuleView, _course_module: CourseModule) -> ModuleView {
        with_string(v, "Bescheibung"@, self.intro@)
    }

    fn gen(self, builder: &mut GenModuleBuilder, _course_module: CourseModule) -> (r: &mut GenModuleBuilder) {
        builder
            .string("Bescheibung", self.intro)
    }
}

} // verus!
