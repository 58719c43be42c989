//! Turning the module records of one kind into content units.
use crate::comparable::{merge, pairing, Id};
use crate::gen_module::{opt_text, GenModule, GenModuleBuilder, ModuleView};
use crate::modules::unknown::CourseModule;
use crate::text::same_text;
use vstd::prelude::*;

verus! {

/// A module record of one kind, matched to its course module by identity,
/// that fills a content unit with its entries.
pub trait Generate: Id + Sized {
    /// The unit `v` after this record added its entries.
    spec fn generated(&self, v: ModuleView, course_module: CourseModule) -> ModuleView;

    fn gen(self, builder: &mut GenModuleBuilder, course_module: CourseModule) -> (r: &mut GenModuleBuilder)
        ensures
            r.0@ == self.generated(old(builder).0@, course_module),
            *final(builder) == *final(r),
    ;
}

/// The empty unit for a course module: its icon, name, link and id.
pub open spec fn start_view(cm: CourseModule) -> ModuleView {
    ModuleView {
        entries: Seq::empty(),
        files: Seq::empty(),
        mod_icon_url: cm.modicon@,
        name: cm.name@,
        link: opt_text(cm.url),
        id: cm.id,
    }
}

pub(crate) fn copy_link(o: &Option<String>) -> (r: Option<String>)
    ensures
        opt_text(r) == opt_text(*o),
{
    match o {
        Some(s) => Some(s.clone()),
        None => None,
    }
}

/// Pairs the course modules with the records of their kind by identity and
/// builds one unit from each pair; unmatched ones give none.
pub fn process_modules<T: Generate>(course_modules: Vec<CourseModule>, mapped_modules: Vec<T>) -> (r: Vec<GenModule>)
    ensures
        r@.map_values(|m: GenModule| m@) == pairing(course_modules@, mapped_modules@).2.map_values(
            |p: (CourseModule, T)| p.1.generated(start_view(p.0), p.0),
        ),
{
    let ghost pairs0 = pairing(course_modules@, mapped_modules@).2;
    let pairs = merge(course_modules, mapped_modules);
    let mut res: Vec<GenModule> = Vec::new();
    for pair in iter: pairs
        invariant
            iter.seq() == pairs0,
            res@.map_values(|m: GenModule| m@) == pairs0.subrange(0, iter.index() as int).map_values(
                |p: (CourseModule, T)| p.1.generated(start_view(p.0), p.0),
            ),
    {
        let ghost before = res@;
        let ghost p = pair;
        let (course_module, mapped_module) = pair;
        let mut builder = GenModuleBuilder::new(
            course_module.id,
            course_module.modicon.clone(),
            course_module.name.clone(),
            copy_link(&course_module.url),
        );
        mapped_module.gen(&mut builder, course_module);
        let m = builder.build();
        res.push(m);
        assert(res@ == before.push(m));
        assert(res@.map_values(|m: GenModule| m@) =~= before.map_values(|m: GenModule| m@).push(m@));
        assert(pairs0.subrange(0, iter.index() + 1).map_values(
            |p: (CourseModule, T)| p.1.generated(start_view(p.0), p.0),
        ) =~= pairs0.subrange(0, iter.index() as int).map_values(
            |p: (CourseModule, T)| p.1.generated(start_view(p.0), p.0),
        ).push(p.1.generated(start_view(p.0), p.0)));
    }
    assert(pairs0.subrange(0, pairs0.len() as int) == pairs0);
    res
}

/// The kinds of modules that have records of their own.
pub enum ModuleKind {
    Assign,
    Bigbluebuttonbn,
    Chat,
    Choice,
    Feedback,
    Folder,
    Forum,
    Glossary,
    Label,
    Page,
    Quiz,
    Resource,
    Url,
    Unknown,
}

/// The kind of a module, by its type name.
pub open spec fn kind_of(name: Seq<char>) -> ModuleKind {
    if name == "assign"@ {
        ModuleKind::Assign
    } else if name == "bigbluebuttonbn"@ {
        ModuleKind::Bigbluebuttonbn
    } else if name == "chat"@ {
        ModuleKind::Chat
    } else if name == "choice"@ || name == "questionnaire"@ {
        ModuleKind::Choice
    } else if name == "feedback"@ {
        ModuleKind::Feedback
    } else if name == "folder"@ {
        ModuleKind::Folder
    } else if name == "forum"@ {
        ModuleKind::Forum
    } else if name == "glossary"@ {
        ModuleKind::Glossary
    } else if name == "label"@ {
        ModuleKind::Label
    } else if name == "page"@ {
        ModuleKind::Page
    } else if name == "quiz"@ {
        ModuleKind::Quiz
    } else if name == "resource"@ {
        ModuleKind::Resource
    } else if name == "url"@ {
        ModuleKind::Url
    } else {
        ModuleKind::Unknown
    }
}

pub fn match_type(name: &str) -> (r: ModuleKind)
    ensures
        r == kind_of(name@),
{
    if same_text(name, "assign") {
        ModuleKind::Assign
    } else if same_text(name, "bigbluebuttonbn") {
        ModuleKind::Bigbluebuttonbn
    } else if same_text(name, "chat") {
        ModuleKind::Chat
    } else if same_text(name, "choice") || same_text(name, "questionnaire") {
        ModuleKind::Choice
    } else if same_text(name, "feedback") {
        ModuleKind::Feedback
    } else if same_text(name, "folder") {
        ModuleKind::Folder
    } else if same_text(name, "forum") {
        ModuleKind::Forum
    } else if same_text(name, "glossary") {
        ModuleKind::Glossary
    } else if same_text(name, "label") {
        ModuleKind::Label
    } else if same_text(name, "page") {
        ModuleKind::Page
    } else if same_text(name, "quiz") {
        ModuleKind::Quiz
    } else if same_text(name, "resource") {
        ModuleKind::Resource
    } else if same_text(name, "url") {
        ModuleKind::Url
    } else {
        ModuleKind::Unknown
    }
}

} // verus!
