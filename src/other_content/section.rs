//! Sections of a course and the modules they list.
use crate::entry_map::{index_of, lemma_index_of};
use crate::gen_module::{with_string, GenModule, GenModuleBuilder, ModuleView};
use crate::modules::unknown::CourseModule;
use crate::text::{owned, same_text};
use vstd::prelude::*;

verus! {

/// The contents of a course: its sections.
pub type Course = Vec<Section>;

pub struct Section {
    pub section_info: SectionInfo,
    pub modules: Vec<CourseModule>,
}

pub struct SectionInfo {
    pub id: i64,
    pub name: String,
    pub summary: String,
}

/// Sections have no module id of their own; theirs is scaled by this factor so
/// that it does not meet the id of a module.
pub const SECTION_ID_FACTOR: i64 = 10000;

/// The unit for a section: its scaled id, a fixed icon, its name and its
/// summary as plain text.
pub open spec fn section_view(s: SectionInfo) -> ModuleView {
    with_string(
        ModuleView {
            entries: Seq::empty(),
            files: Seq::empty(),
            mod_icon_url: section_icon()@,
            name: s.name@,
            link: None,
            id: (s.id * SECTION_ID_FACTOR) as i64,
        },
        "Zusammenfassung"@,
        s.summary@,
    )
}

/// Icon of a section.
pub open spec fn section_icon() -> &'static str {
    "https://cdn.discordapp.com/attachments/1092233307867070554/1095647451739865108/section.png"
}

impl SectionInfo {
    pub fn process(self) -> (r: GenModule)
        requires
            i64::MIN <= self.id * SECTION_ID_FACTOR <= i64::MAX,
        ensures
            r@ == section_view(self),
    {
        let image_link = owned(
            "https://cdn.discordapp.com/attachments/1092233307867070554/1095647451739865108/section.png",
        );
        let mut builder = GenModuleBuilder::new(self.id * SECTION_ID_FACTOR, image_link, self.name, None);
        builder.string("Zusammenfassung", self.summary);
        builder.build()
    }
}

/// Groups after adding module `m` to the group of its type, or to a new group
/// at the end.
pub open spec fn group_in(g: Seq<(Seq<char>, Seq<CourseModule>)>, m: CourseModule) -> Seq<(Seq<char>, Seq<CourseModule>)> {
    match index_of(g, m.modname@) {
        Some(i) => g.update(i, (g[i].0, g[i].1.push(m))),
        None => g.push((m.modname@, seq![m])),
    }
}

/// The modules of `ms` grouped by type, groups in order of first appearance,
/// modules in their order.
pub open spec fn grouped(ms: Seq<CourseModule>) -> Seq<(Seq<char>, Seq<CourseModule>)>
    decreases ms.len(),
{
    if ms.len() == 0 {
        Seq::empty()
    } else {
        group_in(grouped(ms.drop_last()), ms.last())
    }
}

/// All modules of the sections, in order.
pub open spec fn all_modules(sections: Seq<Section>) -> Seq<CourseModule>
    decreases sections.len(),
{
    if sections.len() == 0 {
        Seq::empty()
    } else {
        all_modules(sections.drop_last()) + sections.last().modules@
    }
}

pub open spec fn groups_view(g: Seq<(String, Vec<CourseModule>)>) -> Seq<(Seq<char>, Seq<CourseModule>)> {
    g.map_values(|p: (String, Vec<CourseModule>)| (p.0@, p.1@))
}

fn add_to_group(groups: &mut Vec<(String, Vec<CourseModule>)>, module: CourseModule)
    ensures
        groups_view(final(groups)@) == group_in(groups_view(old(groups)@), module),
{
    let ghost gv = groups_view(groups@);
    proof {
        lemma_index_of(gv, module.modname@);
    }
    let mut i: usize = 0;
    while i < groups.len()
        invariant
            i <= groups@.len(),
            gv == groups_view(groups@),
            groups@ == old(groups)@,
            forall|m: int| 0 <= m < i ==> gv[m].0 != module.modname@,
        decreases groups@.len() - i,
    {
        if same_text(groups[i].0.as_str(), module.modname.as_str()) {
            assert(gv[i as int].0 == module.modname@);
            proof {
                lemma_index_of(gv, module.modname@);
            }
            assert(index_of(gv, module.modname@) == Some(i as int));
            let (key, mut list) = groups.remove(i);
            let ghost old_list = list@;
            list.push(module);
            groups.insert(i, (key, list));
            assert(groups_view(groups@) =~= gv.update(i as int, (gv[i as int].0, gv[i as int].1.push(module))));
            return;
        }
        i = i + 1;
    }
    let ghost before = groups@;
    let name = module.modname.clone();
    let entry = (name, vec![module]);
    groups.push(entry);
    assert(groups@ == before.push(entry));
    assert(entry.1@ =~= seq![module]);
    assert(groups_view(groups@) =~= gv.push((module.modname@, seq![module])));
}

/// Splits the contents of a course into the sections and the modules of each
/// type.
pub fn group_modules(course: Vec<Section>) -> (r: (Vec<SectionInfo>, Vec<(String, Vec<CourseModule>)>))
    ensures
        r.0@ == course@.map_values(|s: Section| s.section_info),
        groups_view(r.1@) == grouped(all_modules(course@)),
{
    let ghost secs = course@;
    let mut sections: Vec<SectionInfo> = Vec::new();
    let mut groups: Vec<(String, Vec<CourseModule>)> = Vec::new();
    for section in iter: course
        invariant
            iter.seq() == secs,
            sections@ == secs.subrange(0, iter.index() as int).map_values(|s: Section| s.section_info),
            groups_view(groups@) == grouped(all_modules(secs.subrange(0, iter.index() as int))),
    {
        let ghost done = all_modules(secs.subrange(0, iter.index() as int));
        assert(secs.subrange(0, iter.index() + 1).drop_last() == secs.subrange(0, iter.index() as int));
        assert(secs.subrange(0, iter.index() + 1).last() == section);
        let ghost before = sections@;
        let ghost ms = section.modules@;
        sections.push(section.section_info);
        assert(sections@ =~= secs.subrange(0, iter.index() + 1).map_values(|s: Section| s.section_info));
        for module in it: section.modules
            invariant
                it.seq() == ms,
                groups_view(groups@) == grouped(done + ms.subrange(0, it.index() as int)),
        {
            assert((done + ms.subrange(0, it.index() + 1)).drop_last() == done + ms.subrange(0, it.index() as int));
            assert((done + ms.subrange(0, it.index() + 1)).last() == module);
            add_to_group(&mut groups, module);
        }
        assert(ms.subrange(0, ms.len() as int) == ms);
    }
    assert(secs.subrange(0, secs.len() as int) == secs);
    (sections, groups)
}

} // verus!
