//! Quizzes: opening times, time limit, attempts and number of questions.
use crate::comparable::Id;
use crate::gen_module::{GenModuleBuilder, ModuleView, with_date, with_entry, with_string};
use crate::modules::generate::Generate;
use crate::modules::unknown::CourseModule;
use crate::text::int_text;
use vstd::prelude::*;

verus! {

pub struct Root {
    pub quizzes: Vec<Quiz>,
}

pub struct Quiz {
    pub coursemodule: i64,
    pub name: String,
    pub intro: String,
    pub timeopen: i64,
    pub timeclose: i64,
    pub timelimit: i64,
    pub attempts: i64,
    pub sumgrades: i64,
}

impl Id for Quiz {
    open spec fn spec_id(&self) -> i64 {
        self.coursemodule
    }

    fn get_id(&self) -> (r: i64) {
        self.coursemodule
    }
}

impl Generate for Quiz {
    open spec fn generated(&self, v: ModuleView, _course_module: CourseModule) -> ModuleView {
        with_entry(with_entry(with_entry(with_date(with_date(with_string(v, "Bescheibung"@, self.intro@), "Ã–ffnungsdatum"@, self.timeopen), "Schlussdatum"@, self.timeclose), "Zeitspanne in Sekunden"@, int_text(self.timelimit as int)), "Versuche"@, int_text(self.attempts as int)), "Fragenanzahl"@, int_text(self.sumgrades as int))
    }

    fn gen(self, builder: &mut GenModuleBuilder, _course_module: CourseModule) -> (r: &mut GenModuleBuilder) {
        builder
            .string("Bescheibung", self.intro)
            .date("Ã–ffnungsdatum", self.timeopen)
            .date("Schlussdatum", self.timeclose)
            .num("Zeitspanne in Sekunden", self.timelimit)
            .num("Versuche", self.attempts)
            .num("Fragenanzahl", self.sumgrades)
    }
}

} // verus!
