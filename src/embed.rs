//! Notifications: how a new, removed or changed content unit is shown to a
//! subscriber group.
use crate::comparable::{
    compare, diff_module_entries, entry_changes, lemma_diff_of_equal_maps, pairing, Change,
    ModuleEntry,
};
use crate::entry_map::{
    change_entries, change_map_get_index, change_map_len, insert_all, keys_unique, text_entries,
    text_map_get_index, text_map_len,
};
use crate::gen_module::{opt_text, GenModule, ModuleView};
use crate::text::{owned, push_char, push_text};
use indexmap::IndexMap;
use vstd::prelude::*;
use vstd::string::StrSliceExecFns;

verus! {

/// Longest single entry, in characters; the rest of a longer one is cut off.
pub const ENTRY_LIMIT: usize = 1500;

/// Longest description, in characters, that an entry may fill up to.
pub const DESCRIPTION_LIMIT: usize = 4000;

/// Colour of a notification for a new unit.
pub const ADDED_COLOR: u32 = 0x00FF00;

/// Colour of a notification for a removed unit.
pub const REMOVED_COLOR: u32 = 0xFF0000;

/// Colour of a notification for a changed unit.
pub const CHANGED_COLOR: u32 = 0x0000FF;

/// A content unit shown as a message: a title, a description made of entries,
/// and attached files.
pub struct MoodleEmbed {
    pub mod_icon_url: String,
    pub files: Vec<(String, Vec<u8>)>,
    pub color: u32,
    pub description: String,
    pub name: String,
    pub link: Option<String>,
}

/// A notification as plain values.
pub struct EmbedView {
    pub mod_icon_url: Seq<char>,
    pub files: Seq<(Seq<char>, Seq<u8>)>,
    pub color: u32,
    pub description: Seq<char>,
    pub name: Seq<char>,
    pub link: Option<Seq<char>>,
}

impl View for MoodleEmbed {
    type V = EmbedView;

    open spec fn view(&self) -> EmbedView {
        EmbedView {
            mod_icon_url: self.mod_icon_url@,
            files: self.files@.map_values(|f: (String, Vec<u8>)| (f.0@, f.1@)),
            color: self.color,
            description: self.description@,
            name: self.name@,
            link: opt_text(self.link),
        }
    }
}

/// The part of an entry that is kept.
pub open spec fn capped(e: Seq<char>) -> Seq<char> {
    if e.len() <= ENTRY_LIMIT {
        e
    } else {
        e.subrange(0, ENTRY_LIMIT as int)
    }
}

/// Whether `e` still fits into a description `desc`.
pub open spec fn entry_fits(desc: Seq<char>, e: Seq<char>) -> bool {
    desc.len() + capped(e).len() <= DESCRIPTION_LIMIT
}

/// The description after adding the entry `e`, on a line of its own, if it fits.
pub open spec fn push_entry(desc: Seq<char>, e: Seq<char>) -> Seq<char> {
    if !entry_fits(desc, e) {
        desc
    } else if desc.len() == 0 {
        capped(e)
    } else {
        desc.push('\n') + capped(e)
    }
}

/// The description after adding each of `es` in turn.
pub open spec fn push_entries(desc: Seq<char>, es: Seq<Seq<char>>) -> Seq<char>
    decreases es.len(),
{
    if es.len() == 0 {
        desc
    } else {
        push_entry(push_entries(desc, es.drop_last()), es.last())
    }
}

/// An empty notification for a unit with the given title parts.
pub open spec fn blank(color: u32, m: ModuleView) -> EmbedView {
    EmbedView {
        mod_icon_url: m.mod_icon_url,
        files: Seq::empty(),
        color,
        description: Seq::empty(),
        name: m.name,
        link: m.link,
    }
}

pub open spec fn bold_entry(k: Seq<char>, v: Seq<char>) -> Seq<char> {
    seq!['*', '*'] + k + seq![':', '*', '*', ' '] + v
}

/// The entries of a unit, each as `**key:** value`.
pub open spec fn entry_lines(entries: Seq<(Seq<char>, Seq<char>)>) -> Seq<Seq<char>> {
    entries.map_values(|p: (Seq<char>, Seq<char>)| bold_entry(p.0, p.1))
}

pub open spec fn file_line(k: Seq<char>) -> Seq<char> {
    seq!['_', '_', 'F', 'i', 'l', 'e', ':', '_', '_', ' '] + k
}

pub open spec fn removed_file_line(k: Seq<char>) -> Seq<char> {
    seq![
        '_', '_', 'R', 'e', 'm', 'o', 'v', 'e', 'd', ' ', 'f', 'i', 'l', 'e', ':', '_', '_', ' ',
    ] + k
}

pub open spec fn large_file_line(k: Seq<char>) -> Seq<char> {
    seq!['_', '_', 'A', 'd', 'd', 'e', 'd', ' ', 'l', 'a', 'r', 'g', 'e', ' ', 'f', 'i', 'l', 'e', ':', '_', '_', ' ']
        + k
}

/// How one changed entry reads.
pub open spec fn change_line(k: Seq<char>, c: Change) -> Seq<char> {
    match c {
        Change::Added(v) => seq!['🟢', ' '] + bold_entry(k, v),
        Change::Removed(v) => seq!['🔴', ' '] + bold_entry(k, v),
        Change::Changed(o, n) => seq!['🔵', '*', '*'] + k + seq!['*', '*', '\n', '_', '_', 'F', 'r', 'o', 'm', ':', '_', '_', ' ']
            + o + seq!['\n', '_', '_', 'T', 'o', ':', '_', '_', ' '] + n,
    }
}

pub open spec fn change_lines(cs: Seq<(Seq<char>, Change)>) -> Seq<Seq<char>> {
    cs.map_values(|p: (Seq<char>, Change)| change_line(p.0, p.1))
}

/// Lines for changed files: a file that is gone or replaced is named as removed.
pub open spec fn file_change_lines(cs: Seq<(Seq<char>, Change)>) -> Seq<Seq<char>>
    decreases cs.len(),
{
    if cs.len() == 0 {
        Seq::empty()
    } else {
        let prev = file_change_lines(cs.drop_last());
        match cs.last().1 {
            Change::Added(_) => prev,
            _ => prev.push(removed_file_line(cs.last().0)),
        }
    }
}

/// Files to fetch for changed files: the new and the replaced ones.
pub open spec fn file_change_fetches(cs: Seq<(Seq<char>, Change)>) -> Seq<(Seq<char>, Seq<char>)>
    decreases cs.len(),
{
    if cs.len() == 0 {
        Seq::empty()
    } else {
        let prev = file_change_fetches(cs.drop_last());
        match cs.last().1 {
            Change::Added(f) => prev.push((cs.last().0, f)),
            Change::Changed(_, f) => prev.push((cs.last().0, f)),
            Change::Removed(_) => prev,
        }
    }
}

/// The notification for a removed unit.
pub open spec fn removed_view(m: ModuleView) -> EmbedView {
    EmbedView {
        description: push_entries(
            push_entries(Seq::empty(), entry_lines(m.entries)),
            m.files.map_values(|p: (Seq<char>, Seq<char>)| file_line(p.0)),
        ),
        ..blank(REMOVED_COLOR, m)
    }
}

/// The notification for a new unit, before its files are fetched.
pub open spec fn added_view(m: ModuleView) -> EmbedView {
    EmbedView {
        description: push_entries(Seq::empty(), entry_lines(m.entries)),
        ..blank(ADDED_COLOR, m)
    }
}

/// The changes of the entries of two versions of a unit.
pub open spec fn entry_diff(o: ModuleView, n: ModuleView) -> Seq<(Seq<char>, Change)> {
    insert_all(Seq::empty(), entry_changes(o.entries, n.entries))
}

/// The changes of the files of two versions of a unit.
pub open spec fn file_diff(o: ModuleView, n: ModuleView) -> Seq<(Seq<char>, Change)> {
    insert_all(Seq::empty(), entry_changes(o.files, n.files))
}

/// Whether anything of a unit changed between two versions.
pub open spec fn unit_changed(o: ModuleView, n: ModuleView) -> bool {
    entry_diff(o, n).len() > 0 || file_diff(o, n).len() > 0
}

/// The notification for a changed unit, before its files are fetched.
pub open spec fn changed_view(o: ModuleView, n: ModuleView) -> EmbedView {
    EmbedView {
        description: push_entries(
            push_entries(Seq::empty(), change_lines(entry_diff(o, n))),
            file_change_lines(file_diff(o, n)),
        ),
        ..blank(CHANGED_COLOR, n)
    }
}

pub open spec fn pairs_view(v: Vec<(String, String)>) -> Seq<(Seq<char>, Seq<char>)> {
    v@.map_values(|p: (String, String)| (p.0@, p.1@))
}

impl MoodleEmbed {
    pub fn new(color: u32, mod_icon_url: String, name: String, link: Option<String>) -> (r: MoodleEmbed)
        ensures
            r@ == (EmbedView {
                mod_icon_url: mod_icon_url@,
                files: Seq::empty(),
                color,
                description: Seq::empty(),
                name: name@,
                link: opt_text(link),
            }),
    {
        let r = MoodleEmbed {
            mod_icon_url,
            files: vec![],
            color,
            description: String::new(),
            name,
            link,
        };
        assert(r@.files =~= Seq::empty());
        r
    }

    /// Number of characters of the description.
    pub fn len(&self) -> (r: usize)
        ensures
            r == self.description@.len(),
    {
        self.description.as_str().unicode_len()
    }

    /// Adds an entry on a line of its own, cut to its first 1500 characters,
    /// unless that would take the description over 4000 characters. Tells
    /// whether it was added.
    pub fn add_entry(&mut self, string: String) -> (r: bool)
        ensures
            r == entry_fits(old(self).description@, string@),
            final(self)@ == (EmbedView { description: push_entry(old(self).description@, string@), ..old(self)@ }),
    {
        let n = string.as_str().unicode_len();
        let slice: &str = if n > ENTRY_LIMIT {
            string.as_str().substring_char(0, ENTRY_LIMIT)
        } else {
            string.as_str()
        };
        let k: usize = if n > ENTRY_LIMIT { ENTRY_LIMIT } else { n };
        assert(slice@ == capped(string@));
        let d = self.len();
        if k > DESCRIPTION_LIMIT || d > DESCRIPTION_LIMIT - k {
            return false;
        }
        if d != 0 {
            push_char(&mut self.description, '\n');
        }
        push_text(&mut self.description, slice);
        true
    }

    /// Adds each entry of `entries` as `**key:** value`, in order.
    pub fn add_raw_entries(&mut self, entries: IndexMap<String, String>)
        ensures
            final(self)@ == (EmbedView {
                description: push_entries(old(self).description@, entry_lines(text_entries(entries))),
                ..old(self)@
            }),
    {
        let ghost es = text_entries(entries);
        let ghost start = self.description@;
        let n = text_map_len(&entries);
        let mut i: usize = 0;
        while i < n
            invariant
                n == es.len(),
                i <= n,
                es == text_entries(entries),
                self@ == (EmbedView { description: push_entries(start, entry_lines(es.subrange(0, i as int))), ..old(self)@ }),
            decreases n - i,
        {
            let (key, val) = text_map_get_index(&entries, i);
            let line = bold_entry_text(key.as_str(), val.as_str());
            assert(entry_lines(es.subrange(0, i + 1)).drop_last() == entry_lines(es.subrange(0, i as int)));
            self.add_entry(line);
            i = i + 1;
        }
        assert(es.subrange(0, n as int) == es);
    }

    /// The notification for a unit that is gone: its entries, then the names of
    /// its files.
    pub fn removed(module: GenModule) -> (r: MoodleEmbed)
        ensures
            r@ == removed_view(module@),
    {
        let ghost m = module@;
        let mut embed = MoodleEmbed::new(REMOVED_COLOR, module.mod_icon_url, module.name, module.link);
        embed.add_raw_entries(module.entries);
        let ghost fs = m.files;
        let ghost after = embed.description@;
        let n = text_map_len(&module.files);
        let mut i: usize = 0;
        while i < n
            invariant
                n == fs.len(),
                i <= n,
                fs == text_entries(module.files),
                embed@ == (EmbedView {
                    description: push_entries(after, fs.subrange(0, i as int).map_values(|p: (Seq<char>, Seq<char>)| file_line(p.0))),
                    ..blank(REMOVED_COLOR, m)
                }),
            decreases n - i,
        {
            let (key, _) = text_map_get_index(&module.files, i);
            let mut line = owned("__File:__ ");
            push_text(&mut line, key.as_str());
            proof {
                reveal_strlit("__File:__ ");
                assert("__File:__ "@ =~= seq!['_', '_', 'F', 'i', 'l', 'e', ':', '_', '_', ' ']);
            }
            assert(fs.subrange(0, i + 1).map_values(|p: (Seq<char>, Seq<char>)| file_line(p.0)).drop_last()
                == fs.subrange(0, i as int).map_values(|p: (Seq<char>, Seq<char>)| file_line(p.0)));
            embed.add_entry(line);
            i = i + 1;
        }
        assert(fs.subrange(0, n as int) == fs);
        embed
    }

    /// The notification for a new unit, and the files to fetch for it, by name
    /// and link.
    pub fn added(module: GenModule) -> (r: (MoodleEmbed, Vec<(String, String)>))
        ensures
            r.0@ == added_view(module@),
            pairs_view(r.1) == module@.files,
    {
        let ghost m = module@;
        let mut embed = MoodleEmbed::new(ADDED_COLOR, module.mod_icon_url, module.name, module.link);
        embed.add_raw_entries(module.entries);
        let fetches = text_pairs(&module.files);
        (embed, fetches)
    }

    /// The notification for a unit seen before and now, and the files to fetch
    /// for it; nothing when neither its entries nor its files changed.
    pub fn changed(module_old: GenModule, module_new: GenModule) -> (r: Option<(MoodleEmbed, Vec<(String, String)>)>)
        ensures
            match r {
                None => !unit_changed(module_old@, module_new@),
                Some(p) => unit_changed(module_old@, module_new@) && p.0@ == changed_view(
                    module_old@,
                    module_new@,
                ) && pairs_view(p.1) == file_change_fetches(file_diff(module_old@, module_new@)),
            },
    {
        let ghost o = module_old@;
        let ghost nw = module_new@;
        let description = diff_module_entries(module_old.entries, module_new.entries);
        let file_changes = diff_module_entries(module_old.files, module_new.files);
        let dn = change_map_len(&description);
        let fnum = change_map_len(&file_changes);
        if dn == 0 && fnum == 0 {
            return None;
        }
        let mut embed = MoodleEmbed::new(CHANGED_COLOR, module_new.mod_icon_url, module_new.name, module_new.link);
        let ghost ds = change_entries(description);
        let mut i: usize = 0;
        while i < dn
            invariant
                dn == ds.len(),
                i <= dn,
                ds == change_entries(description),
                ds == entry_diff(o, nw),
                embed@ == (EmbedView {
                    description: push_entries(Seq::empty(), change_lines(ds.subrange(0, i as int))),
                    ..blank(CHANGED_COLOR, nw)
                }),
            decreases dn - i,
        {
            let (key, val) = change_map_get_index(&description, i);
            let line = change_line_text(key.as_str(), val);
            assert(change_lines(ds.subrange(0, i + 1)).drop_last() == change_lines(ds.subrange(0, i as int)));
            embed.add_entry(line);
            i = i + 1;
        }
        assert(ds.subrange(0, dn as int) == ds);
        let ghost fs = change_entries(file_changes);
        let ghost after = embed.description@;
        let mut fetches: Vec<(String, String)> = Vec::new();
        let mut j: usize = 0;
        while j < fnum
            invariant
                fnum == fs.len(),
                j <= fnum,
                fs == change_entries(file_changes),
                fs == file_diff(o, nw),
                pairs_view(fetches) == file_change_fetches(fs.subrange(0, j as int)),
                embed@ == (EmbedView {
                    description: push_entries(after, file_change_lines(fs.subrange(0, j as int))),
                    ..blank(CHANGED_COLOR, nw)
                }),
            decreases fnum - j,
        {
            let (name, val) = change_map_get_index(&file_changes, j);
            assert(fs.subrange(0, j + 1).drop_last() == fs.subrange(0, j as int));
            assert(fs.subrange(0, j + 1).last() == fs[j as int]);
            proof {
                reveal_strlit("__Removed file:__ ");
                assert("__Removed file:__ "@ =~= removed_file_line(Seq::empty()));
            }
            let ghost cur = fs.subrange(0, j + 1);
            let ghost prev = fs.subrange(0, j as int);
            match val {
                ModuleEntry::Added(file) => {
                    assert(file_change_lines(cur) == file_change_lines(prev));
                    fetches.push((name.clone(), file.clone()));
                    assert(pairs_view(fetches) =~= file_change_fetches(fs.subrange(0, j + 1)));
                },
                ModuleEntry::Removed(_) => {
                    let mut line = owned("__Removed file:__ ");
                    push_text(&mut line, name.as_str());
                    assert(line@ =~= removed_file_line(name@));
                    assert(file_change_lines(cur) == file_change_lines(prev).push(line@));
                    assert(file_change_fetches(cur) == file_change_fetches(prev));
                    embed.add_entry(line);
                    assert(file_change_lines(cur).drop_last() == file_change_lines(prev));
                },
                ModuleEntry::Changed(_, file) => {
                    let mut line = owned("__Removed file:__ ");
                    push_text(&mut line, name.as_str());
                    assert(line@ =~= removed_file_line(name@));
                    assert(file_change_lines(cur) == file_change_lines(prev).push(line@));
                    embed.add_entry(line);
                    assert(file_change_lines(cur).drop_last() == file_change_lines(prev));
                    fetches.push((name.clone(), file.clone()));
                    assert(pairs_view(fetches) =~= file_change_fetches(fs.subrange(0, j + 1)));
                },
            }
            j = j + 1;
        }
        assert(fs.subrange(0, fnum as int) == fs);
        Some((embed, fetches))
    }

    /// Records the outcome of fetching the file `name`: its bytes are attached;
    /// a file that could not be had (too large, or failed) is named instead.
    pub fn add_downloaded(&mut self, name: String, file: Option<Vec<u8>>)
        ensures
            match file {
                Some(bytes) => final(self)@ == (EmbedView { files: old(self)@.files.push((name@, bytes@)), ..old(self)@ }),
                None => final(self)@ == (EmbedView {
                    description: push_entry(old(self).description@, large_file_line(name@)),
                    ..old(self)@
                }),
            },
    {
        match file {
            Some(bytes) => {
                let ghost before = self.files@;
                self.files.push((name, bytes));
                assert(self.files@.map_values(|f: (String, Vec<u8>)| (f.0@, f.1@)) =~= before.map_values(
                    |f: (String, Vec<u8>)| (f.0@, f.1@),
                ).push((name@, bytes@)));
            },
            None => {
                let mut line = owned("__Added large file:__ ");
                push_text(&mut line, name.as_str());
                proof {
                    reveal_strlit("__Added large file:__ ");
                    assert("__Added large file:__ "@ =~= large_file_line(Seq::empty()));
                }
                assert(line@ =~= large_file_line(name@));
                self.add_entry(line);
            },
        }
    }
}

fn bold_entry_text(k: &str, v: &str) -> (r: String)
    ensures
        r@ == bold_entry(k@, v@),
{
    let mut line = owned("**");
    push_text(&mut line, k);
    push_text(&mut line, ":** ");
    push_text(&mut line, v);
    proof {
        reveal_strlit("**");
        reveal_strlit(":** ");
        assert("**"@ =~= seq!['*', '*']);
        assert(":** "@ =~= seq![':', '*', '*', ' ']);
    }
    line
}

fn change_line_text(k: &str, e: &ModuleEntry) -> (r: String)
    ensures
        r@ == change_line(k@, e@),
{
    match e {
        ModuleEntry::Added(v) => {
            let mut line = owned("🟢 ");
            let rest = bold_entry_text(k, v.as_str());
            push_text(&mut line, rest.as_str());
            proof {
                reveal_strlit("🟢 ");
                assert("🟢 "@ =~= seq!['🟢', ' ']);
            }
            line
        },
        ModuleEntry::Removed(v) => {
            let mut line = owned("🔴 ");
            let rest = bold_entry_text(k, v.as_str());
            push_text(&mut line, rest.as_str());
            proof {
                reveal_strlit("🔴 ");
                assert("🔴 "@ =~= seq!['🔴', ' ']);
            }
            line
        },
        ModuleEntry::Changed(o, n) => {
            let mut line = owned("🔵**");
            push_text(&mut line, k);
            push_text(&mut line, "**\n__From:__ ");
            push_text(&mut line, o.as_str());
            push_text(&mut line, "\n__To:__ ");
            push_text(&mut line, n.as_str());
            proof {
                reveal_strlit("🔵**");
                reveal_strlit("**\n__From:__ ");
                reveal_strlit("\n__To:__ ");
                assert("🔵**"@ =~= seq!['🔵', '*', '*']);
                assert("**\n__From:__ "@ =~= seq!['*', '*', '\n', '_', '_', 'F', 'r', 'o', 'm', ':', '_', '_', ' ']);
                assert("\n__To:__ "@ =~= seq!['\n', '_', '_', 'T', 'o', ':', '_', '_', ' ']);
            }
            line
        },
    }
}

/// The pairs of a text map as a list, in order.
fn text_pairs(m: &IndexMap<String, String>) -> (r: Vec<(String, String)>)
    ensures
        pairs_view(r) == text_entries(*m),
{
    let ghost es = text_entries(*m);
    let n = text_map_len(m);
    let mut out: Vec<(String, String)> = Vec::new();
    let mut i: usize = 0;
    while i < n
        invariant
            n == es.len(),
            i <= n,
            es == text_entries(*m),
            pairs_view(out) == es.subrange(0, i as int),
        decreases n - i,
    {
        let (k, v) = text_map_get_index(m, i);
        let ghost before = out@;
        let kc = k.clone();
        let vc = v.clone();
        out.push((kc, vc));
        assert(out@ == before.push((kc, vc)));
        assert(pairs_view(out) =~= before.map_values(|p: (String, String)| (p.0@, p.1@)).push((k@, v@)));
        assert(es.subrange(0, i + 1) =~= es.subrange(0, i as int).push(es[i as int]));
        i = i + 1;
    }
    assert(es.subrange(0, n as int) == es);
    out
}

/// A notification and the files still to fetch for it, as plain values.
pub open spec fn pending_view(p: (MoodleEmbed, Vec<(String, String)>)) -> (EmbedView, Seq<(Seq<char>, Seq<char>)>) {
    (p.0@, pairs_view(p.1))
}

/// Notifications for matched pairs of units: one for each pair that changed, in
/// order.
pub open spec fn changed_notes(c: Seq<(GenModule, GenModule)>) -> Seq<(EmbedView, Seq<(Seq<char>, Seq<char>)>)>
    decreases c.len(),
{
    if c.len() == 0 {
        Seq::empty()
    } else {
        let prev = changed_notes(c.drop_last());
        let (o, n) = c.last();
        if unit_changed(o@, n@) {
            prev.push((changed_view(o@, n@), file_change_fetches(file_diff(o@, n@))))
        } else {
            prev
        }
    }
}

/// All notifications for a course seen as `old` before and as `new` now: the
/// removed units, the new ones, then the changed ones.
pub open spec fn course_notes(old: Seq<GenModule>, new: Seq<GenModule>) -> Seq<(EmbedView, Seq<(Seq<char>, Seq<char>)>)> {
    let p = pairing(old, new);
    p.0.map_values(|m: GenModule| (removed_view(m@), Seq::<(Seq<char>, Seq<char>)>::empty()))
        + p.1.map_values(|m: GenModule| (added_view(m@), m@.files))
        + changed_notes(p.2)
}

/// The notifications for a course whose units were `old_course` at the last
/// observation and are `new_course` now, each with the files still to fetch.
pub fn get_changes(old_course: Vec<GenModule>, new_course: Vec<GenModule>) -> (r: Vec<(MoodleEmbed, Vec<(String, String)>)>)
    ensures
        r@.map_values(|p: (MoodleEmbed, Vec<(String, String)>)| pending_view(p)) == course_notes(old_course@, new_course@),
{
    let ghost p = pairing(old_course@, new_course@);
    let mapped_modules = compare(old_course, new_course);
    let mut embeds: Vec<(MoodleEmbed, Vec<(String, String)>)> = Vec::new();
    for module in iter: mapped_modules.a
        invariant
            iter.seq() == p.0,
            embeds@.map_values(|q: (MoodleEmbed, Vec<(String, String)>)| pending_view(q))
                == p.0.subrange(0, iter.index() as int).map_values(|m: GenModule| (removed_view(m@), Seq::<(Seq<char>, Seq<char>)>::empty())),
    {
        let ghost before = embeds@;
        let embed = MoodleEmbed::removed(module);
        let none: Vec<(String, String)> = Vec::new();
        assert(pairs_view(none) =~= Seq::<(Seq<char>, Seq<char>)>::empty());
        embeds.push((embed, none));
        assert(embeds@ == before.push((embed, none)));
        assert(embeds@.map_values(|q: (MoodleEmbed, Vec<(String, String)>)| pending_view(q)) =~= before.map_values(|q: (MoodleEmbed, Vec<(String, String)>)| pending_view(q)).push(pending_view((embed, none))));
        assert(p.0.subrange(0, iter.index() + 1).map_values(|m: GenModule| (removed_view(m@), Seq::<(Seq<char>, Seq<char>)>::empty())) =~= p.0.subrange(0, iter.index() as int).map_values(|m: GenModule| (removed_view(m@), Seq::<(Seq<char>, Seq<char>)>::empty())).push((removed_view(p.0[iter.index() as int]@), Seq::<(Seq<char>, Seq<char>)>::empty())));
    }
    let ghost head = embeds@.map_values(|q: (MoodleEmbed, Vec<(String, String)>)| pending_view(q));
    assert(p.0.subrange(0, p.0.len() as int) == p.0);
    for module in iter: mapped_modules.b
        invariant
            iter.seq() == p.1,
            embeds@.map_values(|q: (MoodleEmbed, Vec<(String, String)>)| pending_view(q))
                == head + p.1.subrange(0, iter.index() as int).map_values(|m: GenModule| (added_view(m@), m@.files)),
    {
        let ghost before = embeds@;
        let pending = MoodleEmbed::added(module);
        embeds.push(pending);
        assert(embeds@ == before.push(pending));
        assert(embeds@.map_values(|q: (MoodleEmbed, Vec<(String, String)>)| pending_view(q)) =~= before.map_values(|q: (MoodleEmbed, Vec<(String, String)>)| pending_view(q)).push(pending_view(pending)));
        assert(p.1.subrange(0, iter.index() + 1).map_values(|m: GenModule| (added_view(m@), m@.files)) =~= p.1.subrange(0, iter.index() as int).map_values(|m: GenModule| (added_view(m@), m@.files)).push((added_view(p.1[iter.index() as int]@), p.1[iter.index() as int]@.files)));
    }
    let ghost mid = embeds@.map_values(|q: (MoodleEmbed, Vec<(String, String)>)| pending_view(q));
    assert(p.1.subrange(0, p.1.len() as int) == p.1);
    for pair in iter: mapped_modules.common
        invariant
            iter.seq() == p.2,
            embeds@.map_values(|q: (MoodleEmbed, Vec<(String, String)>)| pending_view(q))
                == mid + changed_notes(p.2.subrange(0, iter.index() as int)),
    {
        let ghost before = embeds@;
        let ghost cur = p.2.subrange(0, iter.index() + 1);
        assert(cur.drop_last() == p.2.subrange(0, iter.index() as int));
        assert(cur.last() == pair);
        let (old_module, new_module) = pair;
        if let Some(pending) = MoodleEmbed::changed(old_module, new_module) {
            embeds.push(pending);
            assert(embeds@ == before.push(pending));
            assert(embeds@.map_values(|q: (MoodleEmbed, Vec<(String, String)>)| pending_view(q)) =~= before.map_values(|q: (MoodleEmbed, Vec<(String, String)>)| pending_view(q)).push(pending_view(pending)));
        }
    }
    assert(p.2.subrange(0, p.2.len() as int) == p.2);
    embeds
}

/// A unit whose entries and files are the same in both versions gives no
/// notification.
pub proof fn lemma_unchanged_unit_suppressed(o: ModuleView, n: ModuleView)
    requires
        keys_unique(o.entries),
        keys_unique(o.files),
        n.entries == o.entries,
        n.files == o.files,
    ensures
        !unit_changed(o, n),
{
    lemma_diff_of_equal_maps(o.entries);
    lemma_diff_of_equal_maps(o.files);
}

} // verus!
