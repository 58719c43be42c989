//! Content units: a module of a course reduced to named text entries and named
//! file links, and the builder that fills them.
use crate::comparable::Id;
use crate::entry_map::{
    insert_pair, text_entries, text_map_insert, text_map_new,
};
use crate::text::{
    i64_text, int_text, owned, plain_text, push_text, remove_html, remove_revision, same_text,
    without_revision,
};
use indexmap::IndexMap;
use vstd::prelude::*;

verus! {

/// One content unit of a course, as observed at one time.
#[derive(Debug)]
pub struct GenModule {
    pub entries: IndexMap<String, String>,
    pub files: IndexMap<String, String>,
    pub mod_icon_url: String,
    pub name: String,
    pub link: Option<String>,
    pub id: i64,
}

/// A content unit as plain values.
pub struct ModuleView {
    pub entries: Seq<(Seq<char>, Seq<char>)>,
    pub files: Seq<(Seq<char>, Seq<char>)>,
    pub mod_icon_url: Seq<char>,
    pub name: Seq<char>,
    pub link: Option<Seq<char>>,
    pub id: i64,
}

pub open spec fn opt_text(o: Option<String>) -> Option<Seq<char>> {
    match o {
        Some(s) => Some(s@),
        None => None,
    }
}

impl View for GenModule {
    type V = ModuleView;

    open spec fn view(&self) -> ModuleView {
        ModuleView {
            entries: text_entries(self.entries),
            files: text_entries(self.files),
            mod_icon_url: self.mod_icon_url@,
            name: self.name@,
            link: opt_text(self.link),
            id: self.id,
        }
    }
}

impl Id for GenModule {
    open spec fn spec_id(&self) -> i64 {
        self.id
    }

    fn get_id(&self) -> (r: i64) {
        self.id
    }
}

/// A file attached to a module: its name and its link.
#[derive(Debug, Clone, Default)]
pub struct FileInfo {
    pub filename: String,
    pub fileurl: String,
}

/// An item of a module's contents: a file, or another kind whose link is kept
/// as a text entry.
#[derive(Debug, Clone, Default)]
pub struct Content {
    pub type_field: String,
    pub filename: String,
    pub filesize: i64,
    pub fileurl: String,
    pub timecreated: Option<i64>,
    pub timemodified: i64,
    pub mimetype: Option<String>,
    pub author: Option<String>,
}

/// Text of a date entry: a chat timestamp tag in full format.
pub open spec fn date_text(date: int) -> Seq<char> {
    seq!['<', 't', ':'] + int_text(date) + seq![':', 'F', '>']
}

/// Text of a yes/no entry.
pub open spec fn flag_text(b: bool) -> Seq<char> {
    if b {
        seq!['J', 'a']
    } else {
        seq!['N', 'e', 'i', 'n']
    }
}

/// `v` with the text entry `name` set to `value`.
pub open spec fn with_entry(v: ModuleView, name: Seq<char>, value: Seq<char>) -> ModuleView {
    ModuleView { entries: insert_pair(v.entries, name, value), ..v }
}

/// `v` with the file `name` linked to `url`, its revision number removed.
pub open spec fn with_file(v: ModuleView, name: Seq<char>, url: Seq<char>) -> ModuleView {
    ModuleView { files: insert_pair(v.files, name, without_revision(url)), ..v }
}

/// A date entry, left out when the date is zero.
pub open spec fn with_date(v: ModuleView, name: Seq<char>, date: i64) -> ModuleView {
    if date != 0 {
        with_entry(v, name, date_text(date as int))
    } else {
        v
    }
}

/// A text entry as plain text, left out when the text is empty.
pub open spec fn with_string(v: ModuleView, name: Seq<char>, s: Seq<char>) -> ModuleView {
    if s.len() != 0 {
        with_entry(v, name, plain_text(s))
    } else {
        v
    }
}

/// All files of `fs`, in order.
pub open spec fn with_files(v: ModuleView, fs: Seq<FileInfo>) -> ModuleView
    decreases fs.len(),
{
    if fs.len() == 0 {
        v
    } else {
        with_file(with_files(v, fs.drop_last()), fs.last().filename@, fs.last().fileurl@)
    }
}

/// The text `file`.
pub open spec fn file_kind() -> Seq<char> {
    seq!['f', 'i', 'l', 'e']
}

/// One content item: a file goes to the files, anything else to the entries
/// with its link as the value.
pub open spec fn with_content(v: ModuleView, c: Content) -> ModuleView {
    if c.type_field@ == file_kind() {
        with_file(v, c.filename@, c.fileurl@)
    } else {
        with_entry(v, c.filename@, c.fileurl@)
    }
}

/// All content items of `cs`, in order.
pub open spec fn with_contents(v: ModuleView, cs: Seq<Content>) -> ModuleView
    decreases cs.len(),
{
    if cs.len() == 0 {
        v
    } else {
        with_content(with_contents(v, cs.drop_last()), cs.last())
    }
}

/// Builds a content unit entry by entry.
pub struct GenModuleBuilder(pub GenModule);

impl GenModuleBuilder {
    pub fn new(id: i64, mod_icon_url: String, name: String, link: Option<String>) -> (r: GenModuleBuilder)
        ensures
            r.0@ == (ModuleView {
                entries: Seq::empty(),
                files: Seq::empty(),
                mod_icon_url: mod_icon_url@,
                name: name@,
                link: opt_text(link),
                id,
            }),
    {
        let module = GenModule {
            entries: text_map_new(),
            files: text_map_new(),
            mod_icon_url,
            link,
            name,
            id,
        };
        GenModuleBuilder(module)
    }

    pub fn build(self) -> (r: GenModule)
        ensures
            r@ == self.0@,
    {
        self.0
    }

    pub fn num(&mut self, name: &str, num: i64) -> (r: &mut Self)
        ensures
            r.0@ == with_entry(old(self).0@, name@, int_text(num as int)),
            *final(self) == *final(r),
    {
        text_map_insert(&mut self.0.entries, owned(name), i64_text(num));
        self
    }

    pub fn date(&mut self, name: &str, date: i64) -> (r: &mut Self)
        ensures
            r.0@ == with_date(old(self).0@, name@, date),
            *final(self) == *final(r),
    {
        if date != 0 {
            let mut text = owned("<t:");
            let digits = i64_text(date);
            push_text(&mut text, digits.as_str());
            push_text(&mut text, ":F>");
            proof {
                reveal_strlit("<t:");
                reveal_strlit(":F>");
                assert("<t:"@ =~= seq!['<', 't', ':']);
                assert(":F>"@ =~= seq![':', 'F', '>']);
            }
            text_map_insert(&mut self.0.entries, owned(name), text);
        }
        self
    }

    pub fn date_option(&mut self, name: &str, date: Option<i64>) -> (r: &mut Self)
        ensures
            r.0@ == match date {
                Some(d) => with_date(old(self).0@, name@, d),
                None => old(self).0@,
            },
            *final(self) == *final(r),
    {
        if let Some(date) = date {
            self.date(name, date);
        }
        self
    }

    pub fn string(&mut self, name: &str, string: String) -> (r: &mut Self)
        ensures
            r.0@ == with_string(old(self).0@, name@, string@),
            *final(self) == *final(r),
    {
        if !string.as_str().is_empty() {
            let text = remove_html(string.as_str());
            text_map_insert(&mut self.0.entries, owned(name), text);
        }
        self
    }

    pub fn string_option(&mut self, name: &str, string: Option<String>) -> (r: &mut Self)
        ensures
            r.0@ == match string {
                Some(s) => with_string(old(self).0@, name@, s@),
                None => old(self).0@,
            },
            *final(self) == *final(r),
    {
        if let Some(string) = string {
            self.string(name, string);
        }
        self
    }

    pub fn bool(&mut self, name: &str, bool: bool) -> (r: &mut Self)
        ensures
            r.0@ == with_entry(old(self).0@, name@, flag_text(bool)),
            *final(self) == *final(r),
    {
        proof {
            reveal_strlit("Ja");
            reveal_strlit("Nein");
            assert("Ja"@ =~= flag_text(true));
            assert("Nein"@ =~= flag_text(false));
        }
        if bool {
            text_map_insert(&mut self.0.entries, owned(name), owned("Ja"));
        } else {
            text_map_insert(&mut self.0.entries, owned(name), owned("Nein"));
        }
        self
    }

    pub fn files(&mut self, files: Vec<FileInfo>) -> (r: &mut Self)
        ensures
            r.0@ == with_files(old(self).0@, files@),
            *final(self) == *final(r),
    {
        let ghost start = self.0@;
        let ghost fs = files@;
        for file in iter: files
            invariant
                iter.seq() == fs,
                self.0@ == with_files(start, fs.subrange(0, iter.index() as int)),
        {
            assert(fs.subrange(0, iter.index() + 1).drop_last() == fs.subrange(0, iter.index() as int));
            self.file(file);
        }
        assert(fs.subrange(0, fs.len() as int) == fs);
        self
    }

    pub fn file(&mut self, file: FileInfo) -> (r: &mut Self)
        ensures
            r.0@ == with_file(old(self).0@, file.filename@, file.fileurl@),
            *final(self) == *final(r),
    {
        let file_url = remove_revision(file.fileurl.as_str());
        text_map_insert(&mut self.0.files, file.filename, file_url);
        self
    }

    pub fn contents(&mut self, contents: Vec<Content>) -> (r: &mut Self)
        ensures
            r.0@ == with_contents(old(self).0@, contents@),
            *final(self) == *final(r),
    {
        let ghost start = self.0@;
        let ghost cs = contents@;
        for content in iter: contents
            invariant
                iter.seq() == cs,
                self.0@ == with_contents(start, cs.subrange(0, iter.index() as int)),
        {
            assert(cs.subrange(0, iter.index() + 1).drop_last() == cs.subrange(0, iter.index() as int));
            self.content(content);
        }
        assert(cs.subrange(0, cs.len() as int) == cs);
        self
    }

    pub fn content(&mut self, content: Content) -> (r: &mut Self)
        ensures
            r.0@ == with_content(old(self).0@, content),
            *final(self) == *final(r),
    {
        proof {
            reveal_strlit("file");
            assert("file"@ =~= file_kind());
        }
        if same_text(content.type_field.as_str(), "file") {
            let file_url = remove_revision(content.fileurl.as_str());
            text_map_insert(&mut self.0.files, content.filename, file_url);
        } else {
            text_map_insert(&mut self.0.entries, content.filename, content.fileurl);
        }
        self
    }
}

} // verus!
