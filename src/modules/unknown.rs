//! Course modules as the course contents list them, and modules of kinds
//! without records of their own.
use crate::comparable::Id;
use crate::gen_module::{with_contents, with_string, Content, GenModule, GenModuleBuilder, ModuleView};
use crate::modules::generate::{copy_link, start_view};
use vstd::prelude::*;

verus! {

/// A module as listed in a section of a course.
pub struct CourseModule {
    pub id: i64,
    pub url: Option<String>,
    pub name: String,
    pub modicon: String,
    pub modname: String,
    pub dates: Vec<Date>,
    pub contents: Vec<Content>,
    pub description: Option<String>,
}

/// A labelled date of a module.
pub struct Date {
    pub label: String,
    pub timestamp: i64,
}

/// The unit for a module of a kind without records: its type name and its
/// contents.
pub open spec fn unknown_view(cm: CourseModule) -> ModuleView {
    with_contents(with_string(start_view(cm), "Type"@, cm.modname@), cm.contents@)
}

impl Id for CourseModule {
    open spec fn spec_id(&self) -> i64 {
        self.id
    }

    fn get_id(&self) -> (r: i64) {
        self.id
    }
}

impl CourseModule {
    /// One unit for each module, in order.
    pub fn process(course_modules: Vec<CourseModule>) -> (r: Vec<GenModule>)
        ensures
            r@.map_values(|m: GenModule| m@) == course_modules@.map_values(|cm: CourseModule| unknown_view(cm)),
    {
        let ghost cms = course_modules@;
        let mut res: Vec<GenModule> = Vec::new();
        for module in iter: course_modules
            invariant
                iter.seq() == cms,
                res@.map_values(|m: GenModule| m@) == cms.subrange(0, iter.index() as int).map_values(
                    |cm: CourseModule| unknown_view(cm),
                ),
        {
            let ghost before = res@;
            let ghost cm = module;
            let mut builder = GenModuleBuilder::new(module.id, module.modicon, module.name, copy_link(&module.url));
            builder.string("Type", module.modname).contents(module.contents);
            let m = builder.build();
            res.push(m);
            assert(res@ == before.push(m));
            assert(res@.map_values(|m: GenModule| m@) =~= before.map_values(|m: GenModule| m@).push(m@));
            assert(cms.subrange(0, iter.index() + 1).map_values(|cm: CourseModule| unknown_view(cm))
                =~= cms.subrange(0, iter.index() as int).map_values(|cm: CourseModule| unknown_view(cm)).push(
                unknown_view(cm)));
        }
        assert(cms.subrange(0, cms.len() as int) == cms);
        res
    }
}

} // verus!
