//! Chat rooms and their start time.
use crate::comparable::Id;
use crate::gen_module::{GenModuleBuilder, ModuleView, with_entry, with_string};
use crate::modules::generate::Generate;
use crate::modules::unknown::CourseModule;
use crate::text::int_text;
use vstd::prelude::*;

verus! {

pub struct Root {
    pub chats: Vec<Chat>,
}

pub struct Chat {
    pub coursemodule: i64,
    pub name: String,
    pub intro: String,
    pub chattime: i64,
}

impl Id for Chat {
    open spec fn spec_id(&self) -> i64 {
        self.coursemodule
    }

    fn get_id(&self) -> (r: i64) {
        self.coursemodule
    }
}

impl Generate for Chat {
    open spec fn generated(&self, v: ModuleView, _course_module: CourseModule) -> ModuleView {
        with_entry(with_string(v, "Bescheibung"@, self.intro@), "Startzeit"@, int_text(self.chattime as int))
    }

    fn gen(self, builder: &mut GenModuleBuilder, _course_module: CourseModule) -> (r: &mut GenModuleBuilder) {
        builder
            .string("Bescheibung", self.intro)
            .num("Startzeit", self.chattime)
    }
}

} // verus!
