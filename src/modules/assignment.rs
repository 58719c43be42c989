//! Assignments: dates of submission and grading, and attached files.
use crate::comparable::Id;
use crate::gen_module::{FileInfo, GenModuleBuilder, ModuleView, with_date, with_files, with_string};
use crate::modules::generate::Generate;
use crate::modules::unknown::CourseModule;
use vstd::prelude::*;

verus! {

pub struct Root {
    pub courses: Vec<Course>,
}

pub struct Course {
    pub assignments: Vec<Assignment>,
}

pub struct Assignment {
    pub cmid: i64,
    pub name: String,
    pub duedate: i64,
    pub allowsubmissionsfromdate: i64,
    pub timemodified: i64,
    pub cutoffdate: i64,
    pub gradingduedate: i64,
    pub intro: String,
    pub introattachments: Vec<FileInfo>,
}

/// A setting of an assignment plugin.
pub struct Config {
    pub plugin: String,
    pub subtype: String,
    pub name: String,
    pub value: String,
}

impl Id for Assignment {
    open spec fn spec_id(&self) -> i64 {
        self.cmid
    }

    fn get_id(&self) -> (r: i64) {
        self.cmid
    }
}

impl Generate for Assignment {
    open spec fn generated(&self, v: ModuleView, _course_module: CourseModule) -> ModuleView {
        with_files(with_date(with_date(with_date(with_date(with_date(with_string(v, "Bescheibung"@, self.intro@), "Abgabebeginn"@, self.allowsubmissionsfromdate), "Abgabedatum"@, self.duedate), "Letzte Abgabemöglichkeit"@, self.cutoffdate), "Bewertungstermin"@, self.gradingduedate), "Änderungsdatum"@, self.timemodified), self.introattachments@)
    }

    fn gen(self, builder: &mut GenModuleBuilder, _course_module: CourseModule) -> (r: &mut GenModuleBuilder) {
        builder
            .string("Bescheibung", self.intro)
            .date("Abgabebeginn", self.allowsubmissionsfromdate)
            .date("Abgabedatum", self.duedate)
            .date("Letzte Abgabemöglichkeit", self.cutoffdate)
            .date("Bewertungstermin", self.gradingduedate)
            .date("Änderungsdatum", self.timemodified)
            .files(self.introattachments)
    }
}

} // verus!
