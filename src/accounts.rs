//! The registry of one tenant: its accounts, the courses they reach, which
//! channels subscribe to each course, and the choice of the next course to scan.
use crate::entry_map::{
    course_entries, course_map_get, course_map_get_index, course_map_insert, course_map_len,
    course_map_new, index_of, insert_pair, keys_unique, lemma_index_of, lemma_index_of_at_most, lemma_lookup_insert,
    lemma_lookup_push, lookup,
};
use crate::moodle::Moodle;
use crate::text::{owned, same_text};
use indexmap::IndexMap;
use std::collections::HashSet;
use vstd::prelude::*;

verus! {

broadcast use vstd::std_specs::hash::group_hash_axioms;

/// One course of the registry: its remote id, the account that reaches it, and
/// the channels subscribed to it.
pub struct CourseMapping {
    pub course_id: i64,
    pub account: String,
    pub channels: HashSet<u64>,
}

/// A course row as plain values.
pub struct CourseView {
    pub course_id: i64,
    pub account: Seq<char>,
    pub channels: Set<u64>,
}

impl View for CourseMapping {
    type V = CourseView;

    open spec fn view(&self) -> CourseView {
        CourseView { course_id: self.course_id, account: self.account@, channels: self.channels@ }
    }
}

/// Relies on `HashSet::clone`: a set with the same members.
#[verifier::external_body]
fn copy_channels(s: &HashSet<u64>) -> (r: HashSet<u64>)
    ensures
        r@ == s@,
{
    s.clone()
}

impl CourseMapping {
    fn duplicate(&self) -> (r: CourseMapping)
        ensures
            r@ == self@,
    {
        CourseMapping {
            course_id: self.course_id,
            account: self.account.clone(),
            channels: copy_channels(&self.channels),
        }
    }
}

/// The rows of a mapping, in order, with the given rows left out; a kept row
/// is inserted into what was kept before it.
pub open spec fn retain_rows(
    rows: Seq<(Seq<char>, CourseView)>,
    keep: spec_fn(Seq<char>, CourseView) -> bool,
) -> Seq<(Seq<char>, CourseView)>
    decreases rows.len(),
{
    if rows.len() == 0 {
        Seq::empty()
    } else {
        let p = retain_rows(rows.drop_last(), keep);
        let (k, v) = rows.last();
        if keep(k, v) {
            insert_pair(p, k, v)
        } else {
            p
        }
    }
}

/// Keeps a row whose course is named in `fresh`.
pub open spec fn listed_in(fresh: Seq<(Seq<char>, i64, Seq<char>)>) -> spec_fn(Seq<char>, CourseView) -> bool {
    |k: Seq<char>, v: CourseView| in_fresh(fresh, k)
}

/// Keeps a row that another account than `name` reaches.
pub open spec fn not_owned_by(name: Seq<char>) -> spec_fn(Seq<char>, CourseView) -> bool {
    |k: Seq<char>, v: CourseView| v.account != name
}

/// Some course of `fresh` is named `k`.
pub open spec fn in_fresh(fresh: Seq<(Seq<char>, i64, Seq<char>)>, k: Seq<char>) -> bool {
    exists|i: int| 0 <= i < fresh.len() && (#[trigger] fresh[i]).0 == k
}

/// A fresh course list as plain values: name, remote id, account.
pub open spec fn fresh_view(fresh: Vec<(String, i64, String)>) -> Seq<(Seq<char>, i64, Seq<char>)> {
    fresh@.map_values(|t: (String, i64, String)| (t.0@, t.1, t.2@))
}

/// `rows` with a row, without subscribers, for each course of `fresh` that it
/// lacks, in the order of `fresh`.
pub open spec fn added_rows(
    rows: Seq<(Seq<char>, CourseView)>,
    fresh: Seq<(Seq<char>, i64, Seq<char>)>,
) -> Seq<(Seq<char>, CourseView)>
    decreases fresh.len(),
{
    if fresh.len() == 0 {
        rows
    } else {
        let p = added_rows(rows, fresh.drop_last());
        let (k, id, acc) = fresh.last();
        if lookup(p, k) is None {
            insert_pair(p, k, CourseView { course_id: id, account: acc, channels: Set::empty() })
        } else {
            p
        }
    }
}

/// The rows after a resync with the course list `fresh`: an empty list changes
/// nothing; otherwise courses missing from it go, courses new in it come.
pub open spec fn synced(
    rows: Seq<(Seq<char>, CourseView)>,
    fresh: Seq<(Seq<char>, i64, Seq<char>)>,
) -> Seq<(Seq<char>, CourseView)> {
    if fresh.len() == 0 {
        rows
    } else {
        added_rows(retain_rows(rows, listed_in(fresh)), fresh)
    }
}

/// A lookup among retained rows: a row is found if it was there and is kept.
pub proof fn lemma_lookup_retain(
    rows: Seq<(Seq<char>, CourseView)>,
    keep: spec_fn(Seq<char>, CourseView) -> bool,
    q: Seq<char>,
)
    requires
        keys_unique(rows),
    ensures
        lookup(retain_rows(rows, keep), q) == match lookup(rows, q) {
            Some(v) => if keep(q, v) {
                Some(v)
            } else {
                None
            },
            None => None,
        },
    decreases rows.len(),
{
    if rows.len() > 0 {
        let p0 = rows.drop_last();
        let (k, v) = rows.last();
        assert(keys_unique(p0)) by {
            assert forall|i: int, j: int| 0 <= i < j < p0.len() implies p0[i].0 != p0[j].0 by {
                assert(p0[i] == rows[i] && p0[j] == rows[j]);
            }
        }
        lemma_lookup_retain(p0, keep, q);
        lemma_index_of(p0, k);
        assert forall|m: int| 0 <= m < p0.len() implies p0[m].0 != k by {
            assert(p0[m] == rows[m]);
            assert(rows[rows.len() - 1].0 == k);
        }
        assert(p0.push((k, v)) == rows);
        lemma_lookup_push(p0, k, v, q);
        lemma_lookup_insert(retain_rows(p0, keep), k, v, q);
    }
}

/// Courses of the rows to which channel `ch` subscribes, in order.
pub open spec fn active_names(rows: Seq<(Seq<char>, CourseView)>, ch: u64) -> Seq<Seq<char>>
    decreases rows.len(),
{
    if rows.len() == 0 {
        Seq::empty()
    } else {
        let p = active_names(rows.drop_last(), ch);
        if rows.last().1.channels.contains(ch) {
            p.push(rows.last().0)
        } else {
            p
        }
    }
}

/// A row after a channel's new selection: it joins a selected course, and
/// leaves an offered one that was not selected.
pub open spec fn toggled(
    k: Seq<char>,
    v: CourseView,
    ch: u64,
    selection: Seq<Seq<char>>,
    options: Seq<Seq<char>>,
) -> CourseView {
    if selection.contains(k) {
        CourseView { channels: v.channels.insert(ch), ..v }
    } else if options.contains(k) {
        CourseView { channels: v.channels.remove(ch), ..v }
    } else {
        v
    }
}

/// The rows after setting the first `i` rows to their toggled value, each by
/// an insertion under its key.
pub open spec fn toggle_prefix(
    rows: Seq<(Seq<char>, CourseView)>,
    i: nat,
    ch: u64,
    selection: Seq<Seq<char>>,
    options: Seq<Seq<char>>,
) -> Seq<(Seq<char>, CourseView)>
    decreases i,
{
    if i == 0 || i > rows.len() {
        rows
    } else {
        let s = toggle_prefix(rows, (i - 1) as nat, ch, selection, options);
        let (k, v) = rows[i - 1];
        insert_pair(s, k, toggled(k, v, ch, selection, options))
    }
}

pub open spec fn names_view(v: Seq<String>) -> Seq<Seq<char>> {
    v.map_values(|s: String| s@)
}

/// The accounts as plain values: name and access data.
pub open spec fn accounts_view(accounts: Seq<(String, Moodle)>) -> Seq<(Seq<char>, Moodle)> {
    accounts.map_values(|p: (String, Moodle)| (p.0@, p.1))
}

/// The account registered under `name`.
pub open spec fn account_named(accounts: Seq<(String, Moodle)>, name: Seq<char>) -> Option<Moodle> {
    lookup(accounts_view(accounts), name)
}

/// `s` without its pairs under key `k`.
pub open spec fn without_key<V>(s: Seq<(Seq<char>, V)>, k: Seq<char>) -> Seq<(Seq<char>, V)>
    decreases s.len(),
{
    if s.len() == 0 {
        s
    } else if s.last().0 == k {
        without_key(s.drop_last(), k)
    } else {
        without_key(s.drop_last(), k).push(s.last())
    }
}

/// Each active course as its name, remote id, account and subscribers, for the
/// courses that channel `ch` subscribes to and whose account is registered.
pub open spec fn update_info(
    rows: Seq<(Seq<char>, CourseView)>,
    accounts: Seq<(String, Moodle)>,
    ch: u64,
) -> Seq<(Seq<char>, i64, Moodle, Set<u64>)>
    decreases rows.len(),
{
    if rows.len() == 0 {
        Seq::empty()
    } else {
        let p = update_info(rows.drop_last(), accounts, ch);
        let (k, v) = rows.last();
        if v.channels.contains(ch) && account_named(accounts, v.account) is Some {
            p.push((k, v.course_id, account_named(accounts, v.account)->0, v.channels))
        } else {
            p
        }
    }
}

/// Position, counted from `start` and going round, of the first row with a
/// subscriber, looking at the offsets from `k` on.
pub open spec fn first_subscribed(rows: Seq<(Seq<char>, CourseView)>, start: int, k: int) -> Option<int>
    decreases rows.len() - k,
{
    if k < 0 || k >= rows.len() {
        None
    } else if !rows[(start + k) % (rows.len() as int)].1.channels.is_empty() {
        Some(k)
    } else {
        first_subscribed(rows, start, k + 1)
    }
}

/// The row that a scan from cursor `cursor` selects: the first row, from the
/// cursor on and going round once, that has a subscriber.
pub open spec fn pick(rows: Seq<(Seq<char>, CourseView)>, cursor: int) -> Option<int> {
    let n = rows.len() as int;
    if n == 0 {
        None
    } else {
        match first_subscribed(rows, cursor % n, 0) {
            Some(k) => Some((cursor % n + k) % n),
            None => None,
        }
    }
}

/// The cursor after a scan: just past the selected row, or back at its start.
pub open spec fn next_cursor(rows: Seq<(Seq<char>, CourseView)>, cursor: int) -> int {
    let n = rows.len() as int;
    if n == 0 {
        cursor
    } else {
        match pick(rows, cursor) {
            Some(p) => p + 1,
            None => cursor % n,
        }
    }
}

/// The accounts and course subscriptions of one tenant.
pub struct AccountList {
    pub guild: u64,
    pub accounts: Vec<(String, Moodle)>,
    pub mapping: IndexMap<String, CourseMapping>,
}

impl AccountList {
    pub open spec fn rows(&self) -> Seq<(Seq<char>, CourseView)> {
        course_entries(self.mapping)
    }

    pub fn new(guild_id: u64) -> (r: AccountList)
        ensures
            r.guild == guild_id,
            r.accounts@.len() == 0,
            r.rows().len() == 0,
    {
        AccountList { guild: guild_id, accounts: Vec::new(), mapping: course_map_new() }
    }

    /// The account registered under `name`, if any.
    pub fn find_account(&self, name: &str) -> (r: Option<&Moodle>)
        ensures
            match r {
                Some(m) => account_named(self.accounts@, name@) == Some(*m),
                None => account_named(self.accounts@, name@) is None,
            },
    {
        let ghost av = accounts_view(self.accounts@);
        proof {
            lemma_index_of(av, name@);
        }
        let mut i: usize = 0;
        while i < self.accounts.len()
            invariant
                i <= self.accounts@.len(),
                av == accounts_view(self.accounts@),
                forall|m: int| 0 <= m < i ==> av[m].0 != name@,
            decreases self.accounts@.len() - i,
        {
            if same_text(self.accounts[i].0.as_str(), name) {
                assert(av[i as int].0 == name@);
                proof {
                    lemma_index_of(av, name@);
                }
                assert(index_of(av, name@) == Some(i as int));
                return Some(&self.accounts[i].1);
            }
            i = i + 1;
        }
        None
    }

    /// Selects the next course to scan: the first one, from the cursor on and
    /// going round at most once, that a channel subscribes to. The cursor then
    /// stands just past it; with no such course nothing is selected and the
    /// cursor stays where the scan began.
    pub fn next_valid_course(&self, index: &mut usize) -> (r: Option<(&String, i64, &Moodle, &HashSet<u64>)>)
        ensures
            *final(index) == next_cursor(self.rows(), *old(index) as int),
            match pick(self.rows(), *old(index) as int) {
                None => r is None,
                Some(p) => match account_named(self.accounts@, self.rows()[p].1.account) {
                    None => r is None,
                    Some(acc) => r matches Some(x) && x.0@ == self.rows()[p].0 && x.1 == self.rows()[p].1.course_id
                        && *x.2 == acc && x.3@ == self.rows()[p].1.channels,
                },
            },
    {
        let n = course_map_len(&self.mapping);
        if n == 0 {
            return None;
        }
        let ghost rows = self.rows();
        let ghost cursor = *index as int;
        *index = *index % n;
        let start = *index;
        assert(start as int == cursor % (n as int));
        assert((start as int) % (n as int) == start as int) by (nonlinear_arith)
            requires 0 <= start < n;
        let mut k: usize = 0;
        while k < n
            invariant
                n == rows.len(),
                rows == self.rows(),
                start < n,
                start as int == cursor % (n as int),
                cursor == *old(index) as int,
                *index == start,
                k <= n,
                first_subscribed(rows, start as int, 0) == first_subscribed(rows, start as int, k as int),
            decreases n - k,
        {
            let pos: usize = if k < n - start { start + k } else { k - (n - start) };
            assert(pos == (start + k) % (n as int)) by {
                if k < n - start {
                    assert((start + k) % (n as int) == start + k) by (nonlinear_arith)
                        requires start + k < n;
                } else {
                    assert((start + k) % (n as int) == start + k - n) by (nonlinear_arith)
                        requires n <= start + k < 2 * n;
                }
            }
            let (name, row) = course_map_get_index(&self.mapping, pos);
            if !row.channels.is_empty() {
                assert(rows[pos as int] == (name@, row@));
                assert(first_subscribed(rows, start as int, k as int) == Some(k as int));
                assert(rows.len() as int == n as int);
                assert(first_subscribed(rows, cursor % (n as int), 0) == Some(k as int));
                assert((cursor % (n as int) + k) % (n as int) == pos as int);
                assert(pick(rows, cursor) == Some(pos as int));
                assert(next_cursor(rows, cursor) == pos + 1);
                *index = pos + 1;
                return match self.find_account(row.account.as_str()) {
                    Some(acc) => Some((name, row.course_id, acc, &row.channels)),
                    None => None,
                };
            }
            k = k + 1;
        }
        None
    }

    /// Resyncs the courses with `fresh`, the course list (name, remote id,
    /// account) just fetched from all accounts. Courses missing from it are
    /// dropped, new ones are added without subscribers, and the others keep
    /// their subscribers. An empty list, as after a failed fetch, changes nothing.
    pub fn sync_courses(&mut self, fresh: Vec<(String, i64, String)>)
        ensures
            final(self).rows() == synced(old(self).rows(), fresh_view(fresh)),
            final(self).accounts == old(self).accounts,
            final(self).guild == old(self).guild,
    {
        let ghost fv = fresh_view(fresh);
        let ghost rows = self.rows();
        if fresh.len() == 0 {
            return;
        }
        let n = course_map_len(&self.mapping);
        let mut kept = course_map_new();
        let mut i: usize = 0;
        while i < n
            invariant
                n == rows.len(),
                i <= n,
                rows == self.rows(),
                fv == fresh_view(fresh),
                course_entries(kept) == retain_rows(rows.subrange(0, i as int), listed_in(fv)),
            decreases n - i,
        {
            let (name, row) = course_map_get_index(&self.mapping, i);
            assert(rows.subrange(0, i + 1).drop_last() == rows.subrange(0, i as int));
            assert(rows.subrange(0, i + 1).last() == rows[i as int]);
            if names_course(&fresh, name.as_str()) {
                course_map_insert(&mut kept, name.clone(), row.duplicate());
            }
            i = i + 1;
        }
        assert(rows.subrange(0, n as int) == rows);
        let ghost base = course_entries(kept);
        let mut j: usize = 0;
        while j < fresh.len()
            invariant
                j <= fresh@.len(),
                fv == fresh_view(fresh),
                course_entries(kept) == added_rows(base, fv.subrange(0, j as int)),
            decreases fresh@.len() - j,
        {
            let course = &fresh[j];
            assert(fv.subrange(0, j + 1).drop_last() == fv.subrange(0, j as int));
            assert(fv.subrange(0, j + 1).last() == (course.0@, course.1, course.2@));
            if course_map_get(&kept, course.0.as_str()).is_none() {
                let row = CourseMapping {
                    course_id: course.1,
                    account: course.2.clone(),
                    channels: HashSet::new(),
                };
                course_map_insert(&mut kept, course.0.clone(), row);
            }
            j = j + 1;
        }
        assert(fv.subrange(0, fresh@.len() as int) == fv);
        self.mapping = kept;
    }

    /// Resyncs the courses with `fresh` (see `sync_courses`), then lists every
    /// course with whether channel `channel_id` subscribes to it.
    pub fn get_course_map_for_channel(&mut self, channel_id: u64, fresh: Vec<(String, i64, String)>) -> (r: Vec<(String, bool)>)
        ensures
            final(self).rows() == synced(old(self).rows(), fresh_view(fresh)),
            final(self).accounts == old(self).accounts,
            final(self).guild == old(self).guild,
            r@.map_values(|x: (String, bool)| (x.0@, x.1)) == final(self).rows().map_values(
                |p: (Seq<char>, CourseView)| (p.0, p.1.channels.contains(channel_id)),
            ),
    {
        self.sync_courses(fresh);
        let ghost rows = self.rows();
        let n = course_map_len(&self.mapping);
        let mut out: Vec<(String, bool)> = Vec::new();
        let mut i: usize = 0;
        while i < n
            invariant
                n == rows.len(),
                i <= n,
                rows == self.rows(),
                out@.map_values(|x: (String, bool)| (x.0@, x.1)) == rows.subrange(0, i as int).map_values(
                    |p: (Seq<char>, CourseView)| (p.0, p.1.channels.contains(channel_id)),
                ),
            decreases n - i,
        {
            let (name, row) = course_map_get_index(&self.mapping, i);
            let active = row.channels.contains(&channel_id);
            let ghost before = out@;
            let entry = (name.clone(), active);
            out.push(entry);
            assert(out@ == before.push(entry));
            assert(out@.map_values(|x: (String, bool)| (x.0@, x.1)) =~= before.map_values(|x: (String, bool)| (x.0@, x.1)).push((name@, active)));
            assert(rows.subrange(0, i + 1).map_values(
                |p: (Seq<char>, CourseView)| (p.0, p.1.channels.contains(channel_id)),
            ) =~= rows.subrange(0, i as int).map_values(
                |p: (Seq<char>, CourseView)| (p.0, p.1.channels.contains(channel_id)),
            ).push((rows[i as int].0, rows[i as int].1.channels.contains(channel_id))));
            i = i + 1;
        }
        assert(rows.subrange(0, n as int) == rows);
        out
    }

    /// Sets the subscriptions of channel `channel_id`: it subscribes to each
    /// course in `selection`, and leaves each course in `options`, the list it
    /// chose from, that it did not select. Other courses are left alone.
    pub fn set_course_map_for_channel(&mut self, channel_id: u64, selection: &Vec<String>, options: &Vec<String>)
        ensures
            final(self).rows() == toggle_prefix(
                old(self).rows(),
                old(self).rows().len(),
                channel_id,
                names_view(selection@),
                names_view(options@),
            ),
            final(self).accounts == old(self).accounts,
            final(self).guild == old(self).guild,
    {
        let ghost rows = self.rows();
        let ghost sel = names_view(selection@);
        let ghost opts = names_view(options@);
        let n = course_map_len(&self.mapping);
        let mut i: usize = 0;
        while i < n
            invariant
                n == rows.len(),
                i <= n,
                sel == names_view(selection@),
                opts == names_view(options@),
                self.rows() == toggle_prefix(rows, i as nat, channel_id, sel, opts),
                self.rows().len() == n,
                forall|j: int| i <= j < n ==> self.rows()[j] == rows[j],
                self.accounts == old(self).accounts,
                self.guild == old(self).guild,
            decreases n - i,
        {
            let ghost cur = self.rows();
            let (name, row) = course_map_get_index(&self.mapping, i);
            let mut updated = row.duplicate();
            let key = name.clone();
            if contains_name(selection, name.as_str()) {
                updated.channels.insert(channel_id);
            } else if contains_name(options, name.as_str()) {
                updated.channels.remove(&channel_id);
            }
            assert(updated@ == toggled(rows[i as int].0, rows[i as int].1, channel_id, sel, opts));
            course_map_insert(&mut self.mapping, key, updated);
            proof {
                lemma_index_of_at_most(cur, i as int);
            }
            i = i + 1;
        }
    }

    /// Registers `account` under `name`, in place of any account of that name.
    pub fn add_account(&mut self, account: Moodle, name: &str)
        ensures
            accounts_view(final(self).accounts@) == insert_pair(accounts_view(old(self).accounts@), name@, account),
            final(self).mapping == old(self).mapping,
            final(self).guild == old(self).guild,
    {
        let ghost av = accounts_view(self.accounts@);
        proof {
            lemma_index_of(av, name@);
        }
        let mut i: usize = 0;
        while i < self.accounts.len()
            invariant
                i <= self.accounts@.len(),
                av == accounts_view(self.accounts@),
                forall|m: int| 0 <= m < i ==> av[m].0 != name@,
                self.accounts == old(self).accounts,
                self.mapping == old(self).mapping,
                self.guild == old(self).guild,
            decreases self.accounts@.len() - i,
        {
            if same_text(self.accounts[i].0.as_str(), name) {
                assert(av[i as int].0 == name@);
                proof {
                    lemma_index_of(av, name@);
                }
                assert(index_of(av, name@) == Some(i as int));
                let entry = (owned(name), account);
                self.accounts.set(i, entry);
                assert(accounts_view(self.accounts@) =~= av.update(i as int, (name@, account)));
                return;
            }
            i = i + 1;
        }
        let ghost before = self.accounts@;
        let entry = (owned(name), account);
        self.accounts.push(entry);
        assert(self.accounts@ == before.push(entry));
        assert(accounts_view(self.accounts@) =~= av.push((name@, account)));
    }

    /// Names of the registered accounts.
    pub fn get_accounts(&self) -> (r: Vec<String>)
        ensures
            names_view(r@) == accounts_view(self.accounts@).map_values(|p: (Seq<char>, Moodle)| p.0),
    {
        let ghost av = accounts_view(self.accounts@);
        let mut out: Vec<String> = Vec::new();
        let mut i: usize = 0;
        while i < self.accounts.len()
            invariant
                i <= self.accounts@.len(),
                av == accounts_view(self.accounts@),
                names_view(out@) == av.subrange(0, i as int).map_values(|p: (Seq<char>, Moodle)| p.0),
            decreases self.accounts@.len() - i,
        {
            let ghost before = out@;
            let name = self.accounts[i].0.clone();
            out.push(name);
            assert(out@ == before.push(name));
            assert(names_view(out@) =~= names_view(before).push(name@));
            assert(av.subrange(0, i + 1).map_values(|p: (Seq<char>, Moodle)| p.0) =~= av.subrange(0, i as int).map_values(|p: (Seq<char>, Moodle)| p.0).push(av[i as int].0));
            i = i + 1;
        }
        assert(av.subrange(0, self.accounts@.len() as int) == av);
        out
    }

    /// Removes the account `name` and every course that it reaches.
    pub fn remove_account(&mut self, name: &str)
        ensures
            accounts_view(final(self).accounts@) == without_key(accounts_view(old(self).accounts@), name@),
            final(self).rows() == retain_rows(old(self).rows(), not_owned_by(name@)),
            final(self).guild == old(self).guild,
    {
        let ghost av = accounts_view(self.accounts@);
        let mut old_accounts: Vec<(String, Moodle)> = Vec::new();
        core::mem::swap(&mut old_accounts, &mut self.accounts);
        assert(accounts_view(self.accounts@) =~= without_key(av.subrange(0, 0), name@));
        for entry in iter: old_accounts
            invariant
                iter.seq() == old_accounts@,
                av == accounts_view(old_accounts@),
                accounts_view(self.accounts@) == without_key(av.subrange(0, iter.index() as int), name@),
                self.mapping == old(self).mapping,
                self.guild == old(self).guild,
        {
            let ghost before = self.accounts@;
            assert(av.subrange(0, iter.index() + 1).drop_last() == av.subrange(0, iter.index() as int));
            assert(av.subrange(0, iter.index() + 1).last() == (entry.0@, entry.1));
            if !same_text(entry.0.as_str(), name) {
                self.accounts.push(entry);
                assert(accounts_view(self.accounts@) =~= accounts_view(before).push((entry.0@, entry.1)));
            }
        }
        assert(av.subrange(0, av.len() as int) == av);
        let ghost rows = self.rows();
        let n = course_map_len(&self.mapping);
        let mut kept = course_map_new();
        let mut i: usize = 0;
        while i < n
            invariant
                n == rows.len(),
                i <= n,
                rows == self.rows(),
                course_entries(kept) == retain_rows(rows.subrange(0, i as int), not_owned_by(name@)),
            decreases n - i,
        {
            let (course, row) = course_map_get_index(&self.mapping, i);
            assert(rows.subrange(0, i + 1).drop_last() == rows.subrange(0, i as int));
            assert(rows.subrange(0, i + 1).last() == rows[i as int]);
            if !same_text(row.account.as_str(), name) {
                course_map_insert(&mut kept, course.clone(), row.duplicate());
            }
            i = i + 1;
        }
        assert(rows.subrange(0, n as int) == rows);
        self.mapping = kept;
    }

    /// Names of the courses that channel `channel_id` subscribes to.
    pub fn get_active_courses_for_channel(&self, channel_id: u64) -> (r: Vec<String>)
        ensures
            names_view(r@) == active_names(self.rows(), channel_id),
    {
        let ghost rows = self.rows();
        let n = course_map_len(&self.mapping);
        let mut out: Vec<String> = Vec::new();
        let mut i: usize = 0;
        while i < n
            invariant
                n == rows.len(),
                i <= n,
                rows == self.rows(),
                names_view(out@) == active_names(rows.subrange(0, i as int), channel_id),
            decreases n - i,
        {
            let (name, row) = course_map_get_index(&self.mapping, i);
            assert(rows.subrange(0, i + 1).drop_last() == rows.subrange(0, i as int));
            assert(rows.subrange(0, i + 1).last() == rows[i as int]);
            if row.channels.contains(&channel_id) {
                let ghost before = out@;
                let copy = name.clone();
                out.push(copy);
                assert(out@ == before.push(copy));
                assert(names_view(out@) =~= names_view(before).push(copy@));
            }
            i = i + 1;
        }
        assert(rows.subrange(0, n as int) == rows);
        out
    }

    /// The remote id, account and subscribers of the course `course`, when it is
    /// registered and its account too.
    pub fn get_course_info<'a, 'b>(&'a self, course: &'b str) -> (r: Option<(&'b str, i64, &'a Moodle, &'a HashSet<u64>)>)
        ensures
            match lookup(self.rows(), course@) {
                None => r is None,
                Some(v) => match account_named(self.accounts@, v.account) {
                    None => r is None,
                    Some(acc) => r matches Some(x) && x.0@ == course@ && x.1 == v.course_id && *x.2 == acc
                        && x.3@ == v.channels,
                },
            },
    {
        match course_map_get(&self.mapping, course) {
            None => None,
            Some(row) => match self.find_account(row.account.as_str()) {
                None => None,
                Some(acc) => Some((course, row.course_id, acc, &row.channels)),
            },
        }
    }

    /// Everything needed to scan each course that channel `channel_id`
    /// subscribes to: name, remote id, account and subscribers.
    pub fn get_manuel_update_info(&self, channel_id: u64) -> (r: Vec<(&String, i64, &Moodle, &HashSet<u64>)>)
        ensures
            r@.map_values(|x: (&String, i64, &Moodle, &HashSet<u64>)| (x.0@, x.1, *x.2, x.3@))
                == update_info(self.rows(), self.accounts@, channel_id),
    {
        let ghost rows = self.rows();
        let n = course_map_len(&self.mapping);
        let mut out: Vec<(&String, i64, &Moodle, &HashSet<u64>)> = Vec::new();
        let mut i: usize = 0;
        while i < n
            invariant
                n == rows.len(),
                i <= n,
                rows == self.rows(),
                out@.map_values(|x: (&String, i64, &Moodle, &HashSet<u64>)| (x.0@, x.1, *x.2, x.3@))
                    == update_info(rows.subrange(0, i as int), self.accounts@, channel_id),
            decreases n - i,
        {
            let (name, row) = course_map_get_index(&self.mapping, i);
            assert(rows.subrange(0, i + 1).drop_last() == rows.subrange(0, i as int));
            assert(rows.subrange(0, i + 1).last() == rows[i as int]);
            if row.channels.contains(&channel_id) {
                match self.find_account(row.account.as_str()) {
                    Some(acc) => {
                        let ghost before = out@;
                        let entry = (name, row.course_id, acc, &row.channels);
                        out.push(entry);
                        assert(out@ == before.push(entry));
                        assert(out@.map_values(|x: (&String, i64, &Moodle, &HashSet<u64>)| (x.0@, x.1, *x.2, x.3@))
                            =~= before.map_values(|x: (&String, i64, &Moodle, &HashSet<u64>)| (x.0@, x.1, *x.2, x.3@)).push(
                            (name@, row.course_id, *acc, row.channels@)));
                    },
                    None => {},
                }
            }
            i = i + 1;
        }
        assert(rows.subrange(0, n as int) == rows);
        out
    }
}

/// Whether some course of `fresh` is named `k`.
fn names_course(fresh: &Vec<(String, i64, String)>, k: &str) -> (r: bool)
    ensures
        r == in_fresh(fresh_view(*fresh), k@),
{
    let ghost fv = fresh_view(*fresh);
    let mut i: usize = 0;
    while i < fresh.len()
        invariant
            i <= fresh@.len(),
            fv == fresh_view(*fresh),
            forall|m: int| 0 <= m < i ==> fv[m].0 != k@,
        decreases fresh@.len() - i,
    {
        if same_text(fresh[i].0.as_str(), k) {
            assert(fv[i as int].0 == k@);
            return true;
        }
        i = i + 1;
    }
    false
}

/// Whether `k` is among `v`.
fn contains_name(v: &Vec<String>, k: &str) -> (r: bool)
    ensures
        r == names_view(v@).contains(k@),
{
    let mut i: usize = 0;
    while i < v.len()
        invariant
            i <= v@.len(),
            forall|m: int| 0 <= m < i ==> v@[m]@ != k@,
        decreases v@.len() - i,
    {
        if same_text(v[i].as_str(), k) {
            assert(names_view(v@)[i as int] == k@);
            return true;
        }
        i = i + 1;
    }
    assert forall|m: int| 0 <= m < names_view(v@).len() implies names_view(v@)[m] != k@ by {}
    false
}

proof fn lemma_lookup_added(
    base: Seq<(Seq<char>, CourseView)>,
    fresh: Seq<(Seq<char>, i64, Seq<char>)>,
    q: Seq<char>,
)
    ensures
        lookup(base, q) is Some ==> lookup(added_rows(base, fresh), q) == lookup(base, q),
        lookup(base, q) is None ==> (lookup(added_rows(base, fresh), q) is Some <==> in_fresh(fresh, q)),
        lookup(base, q) is None ==> (lookup(added_rows(base, fresh), q) matches Some(v)
            ==> v.channels.is_empty()),
    decreases fresh.len(),
{
    if fresh.len() > 0 {
        let f0 = fresh.drop_last();
        let p = added_rows(base, f0);
        let (k, id, acc) = fresh.last();
        lemma_lookup_added(base, f0, q);
        lemma_lookup_insert(p, k, CourseView { course_id: id, account: acc, channels: Set::empty() }, q);
        assert(fresh[fresh.len() - 1].0 == k);
        if in_fresh(f0, q) {
            let i = choose|i: int| 0 <= i < f0.len() && (#[trigger] f0[i]).0 == q;
            assert(fresh[i] == f0[i]);
        }
        if in_fresh(fresh, q) && q != k {
            let i = choose|i: int| 0 <= i < fresh.len() && (#[trigger] fresh[i]).0 == q;
            assert(f0[i] == fresh[i]);
        }
    }
}

/// A resync keeps what it should: an empty course list changes nothing; a
/// course both registered and listed keeps its row, subscribers included; a
/// course not listed is gone; a listed course new to the registry arrives
/// without subscribers.
pub proof fn lemma_sync_keeps_subscribers(
    rows: Seq<(Seq<char>, CourseView)>,
    fresh: Seq<(Seq<char>, i64, Seq<char>)>,
    q: Seq<char>,
)
    requires
        keys_unique(rows),
    ensures
        fresh.len() == 0 ==> synced(rows, fresh) == rows,
        fresh.len() > 0 && in_fresh(fresh, q) && lookup(rows, q) is Some ==> lookup(
            synced(rows, fresh),
            q,
        ) == lookup(rows, q),
        fresh.len() > 0 && !in_fresh(fresh, q) ==> lookup(synced(rows, fresh), q) is None,
        fresh.len() > 0 && in_fresh(fresh, q) && lookup(rows, q) is None ==> (lookup(
            synced(rows, fresh),
            q,
        ) matches Some(v) && v.channels.is_empty()),
{
    let kept = retain_rows(rows, listed_in(fresh));
    lemma_lookup_retain(rows, listed_in(fresh), q);
    lemma_lookup_added(kept, fresh, q);
}

/// Removing an account drops exactly the courses it reaches: any other course
/// keeps its row as it was.
pub proof fn lemma_remove_account_rows(rows: Seq<(Seq<char>, CourseView)>, name: Seq<char>, q: Seq<char>)
    requires
        keys_unique(rows),
    ensures
        lookup(retain_rows(rows, not_owned_by(name)), q) == match lookup(rows, q) {
            Some(v) => if v.account != name {
                Some(v)
            } else {
                None
            },
            None => None,
        },
{
    lemma_lookup_retain(rows, not_owned_by(name), q);
}

} // verus!
