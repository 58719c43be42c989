//! Access data for one remote account, and the requests made with it.
use crate::embed::pairs_view;
use crate::entry_map::{index_of, insert_pair, lemma_index_of};
use crate::text::{i64_text, int_text, owned, push_text, same_text};
use vstd::prelude::*;

verus! {

/// The address of a remote site and the token that opens it.
pub struct Moodle {
    pub base: String,
    pub token: String,
}

/// Named values sent with a request; a name given twice keeps its last value.
pub struct ParameterBuilder {
    pub map: Vec<(String, String)>,
}

impl ParameterBuilder {
    pub fn new() -> (r: ParameterBuilder)
        ensures
            pairs_view(r.map) == Seq::<(Seq<char>, Seq<char>)>::empty(),
    {
        let r = ParameterBuilder { map: Vec::new() };
        assert(pairs_view(r.map) =~= Seq::<(Seq<char>, Seq<char>)>::empty());
        r
    }

    pub fn add(self, key: &str, value: &str) -> (r: ParameterBuilder)
        ensures
            pairs_view(r.map) == insert_pair(pairs_view(self.map), key@, value@),
    {
        let mut map = self.map;
        let ghost pv = pairs_view(map);
        proof {
            lemma_index_of(pv, key@);
        }
        let mut i: usize = 0;
        while i < map.len()
            invariant
                i <= map@.len(),
                pv == pairs_view(map),
                pv == pairs_view(self.map),
                forall|m: int| 0 <= m < i ==> pv[m].0 != key@,
            decreases map@.len() - i,
        {
            if same_text(map[i].0.as_str(), key) {
                assert(pv[i as int].0 == key@);
                proof {
                    lemma_index_of(pv, key@);
                }
                assert(index_of(pv, key@) == Some(i as int));
                map.set(i, (owned(key), owned(value)));
                assert(pairs_view(map) =~= pv.update(i as int, (key@, value@)));
                return ParameterBuilder { map };
            }
            i = i + 1;
        }
        let ghost before = map@;
        let entry = (owned(key), owned(value));
        map.push(entry);
        assert(map@ == before.push(entry));
        assert(pairs_view(map) =~= pv.push((key@, value@)));
        ParameterBuilder { map }
    }
}

/// `link` with the token attached as a query parameter.
pub open spec fn link_with_token(link: Seq<char>, token: Seq<char>) -> Seq<char> {
    if link.contains('?') {
        link + "&token="@ + token
    } else {
        link + "?token="@ + token
    }
}

/// The parameters of a web service call: those given, then the format, the
/// function and the token.
pub open spec fn call_params(
    params: Seq<(Seq<char>, Seq<char>)>,
    function: Seq<char>,
    token: Seq<char>,
) -> Seq<(Seq<char>, Seq<char>)> {
    insert_pair(
        insert_pair(insert_pair(params, "moodlewsrestformat"@, "json"@), "wsfunction"@, function),
        "wstoken"@,
        token,
    )
}

impl Moodle {
    pub fn new_with_token(base: String, token: String) -> (r: Moodle)
        ensures
            r.base == base,
            r.token == token,
    {
        Moodle { base, token }
    }

    /// Where a file is fetched from: its link with the token attached.
    pub fn file_link(&self, link: &str) -> (r: String)
        ensures
            r@ == link_with_token(link@, self.token@),
    {
        let mut has_query = false;
        for c in iter: link.chars()
            invariant
                iter.seq() == link@,
                has_query == link@.subrange(0, iter.index() as int).contains('?'),
        {
            let ghost k = iter.index() as int;
            assert(link@.subrange(0, k + 1) == link@.subrange(0, k).push(c));
            if c == '?' {
                has_query = true;
                assert(link@.subrange(0, k + 1)[k] == '?');
            }
        }
        assert(link@.subrange(0, link@.len() as int) == link@);
        let mut url = owned(link);
        if has_query {
            push_text(&mut url, "&token=");
        } else {
            push_text(&mut url, "?token=");
        }
        push_text(&mut url, self.token.as_str());
        url
    }

    /// The parameters of a call of web service function `function`.
    pub fn request_params(&self, function: &str, params: ParameterBuilder) -> (r: ParameterBuilder)
        ensures
            pairs_view(r.map) == call_params(pairs_view(params.map), function@, self.token@),
    {
        params.add("moodlewsrestformat", "json").add("wsfunction", function).add("wstoken", self.token.as_str())
    }

    /// The address that web service calls go to.
    pub fn service_url(&self) -> (r: String)
        ensures
            r@ == self.base@ + "/webservice/rest/server.php"@,
    {
        let mut url = self.base.clone();
        push_text(&mut url, "/webservice/rest/server.php");
        url
    }

    /// Where a token is asked for with a user name and a password.
    pub fn login_url(base: &str, username: &str, password: &str) -> (r: String)
        ensures
            r@ == base@ + "/login/token.php?username="@ + username@ + "&password="@ + password@
                + "&service=MOODLE_MOBILE_APP"@,
    {
        let mut url = owned(base);
        push_text(&mut url, "/login/token.php?username=");
        push_text(&mut url, username);
        push_text(&mut url, "&password=");
        push_text(&mut url, password);
        push_text(&mut url, "&service=MOODLE_MOBILE_APP");
        url
    }

    /// Parameters asking for the courses of one classification, all by default.
    pub fn courses_params(classification: Option<&str>) -> (r: ParameterBuilder)
        ensures
            pairs_view(r.map) == seq![(
                "classification"@,
                match classification {
                    Some(c) => c@,
                    None => "all"@,
                },
            )],
    {
        let value = match classification {
            Some(c) => c,
            None => "all",
        };
        let r = ParameterBuilder::new().add("classification", value);
        assert(pairs_view(r.map) =~= seq![("classification"@, value@)]);
        r
    }

    /// Parameters naming one course.
    pub fn course_params(course_id: i64) -> (r: ParameterBuilder)
        ensures
            pairs_view(r.map) == seq![("courseid"@, int_text(course_id as int))],
    {
        let id = i64_text(course_id);
        let r = ParameterBuilder::new().add("courseid", id.as_str());
        assert(pairs_view(r.map) =~= seq![("courseid"@, int_text(course_id as int))]);
        r
    }

    /// Parameters naming the one course whose modules of a kind are asked for.
    pub fn module_params(course_id: i64) -> (r: ParameterBuilder)
        ensures
            pairs_view(r.map) == seq![("courseids[0]"@, int_text(course_id as int))],
    {
        let id = i64_text(course_id);
        let r = ParameterBuilder::new().add("courseids[0]", id.as_str());
        assert(pairs_view(r.map) =~= seq![("courseids[0]"@, int_text(course_id as int))]);
        r
    }
}

} // verus!
