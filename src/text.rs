//! Text helpers: flattening markup to plain text, removing the revision number
//! from a file link, and writing integers.
use vstd::prelude::*;
use vstd::string::{StrSliceExecFns, StringExecFns};

verus! {

/// How many markup brackets are open after reading `s`.
pub open spec fn tag_depth(s: Seq<char>) -> nat
    decreases s.len(),
{
    if s.len() == 0 {
        0
    } else {
        let d = tag_depth(s.drop_last());
        let c = s.last();
        if c == '<' {
            d + 1
        } else if d == 0 {
            0
        } else if c == '>' {
            (d - 1) as nat
        } else {
            d
        }
    }
}

/// `s` with everything between `<` and the matching `>` left out; each `<`
/// becomes a space.
pub open spec fn without_tags(s: Seq<char>) -> Seq<char>
    decreases s.len(),
{
    if s.len() == 0 {
        Seq::empty()
    } else {
        let p = s.drop_last();
        let c = s.last();
        if c == '<' {
            without_tags(p).push(' ')
        } else if tag_depth(p) == 0 {
            without_tags(p).push(c)
        } else {
            without_tags(p)
        }
    }
}

/// `s` with each occurrence of `pat`, from left to right and not overlapping,
/// replaced by `rep`.
pub open spec fn replace_all(s: Seq<char>, pat: Seq<char>, rep: Seq<char>) -> Seq<char>
    decreases s.len(),
{
    if pat.len() == 0 || s.len() < pat.len() {
        s
    } else if s.subrange(0, pat.len() as int) == pat {
        rep + replace_all(s.skip(pat.len() as int), pat, rep)
    } else {
        seq![s[0]] + replace_all(s.drop_first(), pat, rep)
    }
}

/// The escape for a non-breaking space.
pub open spec fn nbsp() -> Seq<char> {
    seq!['&', 'n', 'b', 's', 'p', ';']
}

/// Plain text of a markup string.
pub open spec fn plain_text(s: Seq<char>) -> Seq<char> {
    replace_all(without_tags(s), nbsp(), seq![' '])
}

/// Relies on `str::replace`: every non-overlapping occurrence of `from`, taken
/// from the left, is replaced by `to`.
#[verifier::external_body]
fn replace_text(s: &str, from: &str, to: &str) -> (r: String)
    requires
        from@.len() > 0,
    ensures
        r@ == replace_all(s@, from@, to@),
{
    s.replace(from, to)
}

/// Relies on `String::push`: appends one character.
#[verifier::external_body]
pub(crate) fn push_char(s: &mut String, c: char)
    ensures
        final(s)@ == old(s)@.push(c),
{
    s.push(c)
}

/// Appends a string.
pub(crate) fn push_text(s: &mut String, t: &str)
    ensures
        final(s)@ == old(s)@ + t@,
{
    s.append(t);
}

/// Descriptions carry markup for the web page; this keeps only the text.
pub fn remove_html(string: &str) -> (r: String)
    ensures
        r@ == plain_text(string@),
{
    let ghost s = string@;
    let total = string.unicode_len();
    let mut open_brackets: usize = 0;
    let mut new_str = String::new();
    for c in iter: string.chars()
        invariant
            iter.seq() == s,
            open_brackets == tag_depth(s.subrange(0, iter.index() as int)),
            open_brackets <= iter.index(),
            total == s.len(),
            new_str@ == without_tags(s.subrange(0, iter.index() as int)),
    {
        let ghost next = s.subrange(0, iter.index() + 1);
        assert(next.drop_last() == s.subrange(0, iter.index() as int));
        assert(next.last() == c);
        if c == '<' {
            open_brackets = open_brackets + 1;
            push_char(&mut new_str, ' ');
        } else if open_brackets == 0 {
            push_char(&mut new_str, c);
        } else if c == '>' {
            open_brackets = open_brackets - 1;
        }
    }
    assert(s.subrange(0, s.len() as int) == s);
    let pat = "&nbsp;";
    let rep = " ";
    proof {
        reveal_strlit("&nbsp;");
        reveal_strlit(" ");
        assert(pat@ == nbsp());
        assert(rep@ == seq![' ']);
    }
    replace_text(new_str.as_str(), pat, rep)
}

/// The path segment that precedes a revision number in a file link.
pub open spec fn content_prefix() -> Seq<char> {
    seq!['/', 'c', 'o', 'n', 't', 'e', 'n', 't', '/']
}

/// What a revision segment is replaced by.
pub open spec fn zero_revision() -> Seq<char> {
    content_prefix() + seq!['0', '/']
}

pub open spec fn is_ascii_digit(c: char) -> bool {
    '0' <= c && c <= '9'
}

/// Number of ASCII digits at the start of `s`.
pub open spec fn digit_run(s: Seq<char>) -> nat
    decreases s.len(),
{
    if s.len() > 0 && is_ascii_digit(s[0]) {
        1 + digit_run(s.drop_first())
    } else {
        0
    }
}

/// Where a revision segment `/content/<digits>/` that starts `s` ends, if `s`
/// starts with one.
pub open spec fn revision_end(s: Seq<char>) -> Option<int> {
    let p = content_prefix().len() as int;
    if s.len() >= p && s.subrange(0, p) == content_prefix() {
        let d = digit_run(s.skip(p)) as int;
        if d > 0 && p + d < s.len() && s[p + d] == '/' {
            Some(p + d + 1)
        } else {
            None
        }
    } else {
        None
    }
}

/// `s` with its leftmost revision segment replaced by `/content/0/`.
pub open spec fn without_revision(s: Seq<char>) -> Seq<char>
    decreases s.len(),
{
    if s.len() == 0 {
        s
    } else {
        match revision_end(s) {
            Some(e) => zero_revision() + s.skip(e),
            None => seq![s[0]] + without_revision(s.drop_first()),
        }
    }
}

/// Relies on regex's `Regex::new` and `Regex::replace`: the leftmost match of
/// `/content/[0-9]+/` is replaced by `/content/0/`, the rest is kept.
#[verifier::external_body]
pub(crate) fn remove_revision(url: &str) -> (r: String)
    ensures
        r@ == without_revision(url@),
{
    regex::Regex::new(r"/content/[0-9]+/").unwrap().replace(url, "/content/0/").into_owned()
}

proof fn lemma_digit_run(d: Seq<char>, rest: Seq<char>)
    requires
        forall|i: int| 0 <= i < d.len() ==> is_ascii_digit(#[trigger] d[i]),
        rest.len() > 0,
        rest[0] == '/',
    ensures
        digit_run(d + rest) == d.len(),
    decreases d.len(),
{
    if d.len() == 0 {
        assert(d + rest == rest);
    } else {
        assert((d + rest).drop_first() == d.drop_first() + rest);
        assert(is_ascii_digit(d[0]));
        lemma_digit_run(d.drop_first(), rest);
    }
}

proof fn lemma_revision_at_start(d: Seq<char>, post: Seq<char>)
    requires
        d.len() > 0,
        forall|i: int| 0 <= i < d.len() ==> is_ascii_digit(#[trigger] d[i]),
    ensures
        without_revision(content_prefix() + d + seq!['/'] + post) == zero_revision() + post,
{
    let s = content_prefix() + d + seq!['/'] + post;
    let p = content_prefix().len() as int;
    let n = d.len() as int;
    assert(s.subrange(0, p) == content_prefix());
    assert(s.skip(p) == d + (seq!['/'] + post));
    lemma_digit_run(d, seq!['/'] + post);
    assert(s[p + n] == '/');
    assert(revision_end(s) == Some(p + n + 1));
    assert(s.skip(p + n + 1) == post);
}

proof fn lemma_revision_after(pre: Seq<char>, rest: Seq<char>)
    requires
        forall|i: int| 0 <= i < pre.len() ==> revision_end(#[trigger] (pre + rest).skip(i)) is None,
    ensures
        without_revision(pre + rest) == pre + without_revision(rest),
    decreases pre.len(),
{
    if pre.len() == 0 {
        assert(pre + rest == rest);
    } else {
        let s = pre + rest;
        assert(s.skip(0) == s);
        assert(s.drop_first() == pre.drop_first() + rest);
        assert forall|i: int| 0 <= i < pre.drop_first().len() implies revision_end(
            #[trigger] (pre.drop_first() + rest).skip(i),
        ) is None by {
            assert((pre.drop_first() + rest).skip(i) == s.skip(i + 1));
        }
        lemma_revision_after(pre.drop_first(), rest);
        assert(seq![pre[0]] + (pre.drop_first() + without_revision(rest)) == pre + without_revision(rest));
    }
}

/// Two file links that differ only in the number of their first revision segment
/// lose the difference: both read `/content/0/` there, and nothing else changes.
pub proof fn lemma_revision_ignored(pre: Seq<char>, d1: Seq<char>, d2: Seq<char>, post: Seq<char>)
    requires
        d1.len() > 0,
        d2.len() > 0,
        forall|i: int| 0 <= i < d1.len() ==> is_ascii_digit(#[trigger] d1[i]),
        forall|i: int| 0 <= i < d2.len() ==> is_ascii_digit(#[trigger] d2[i]),
        forall|i: int|
            0 <= i < pre.len() ==> revision_end(
                #[trigger] (pre + (content_prefix() + d1 + seq!['/'] + post)).skip(i),
            ) is None,
        forall|i: int|
            0 <= i < pre.len() ==> revision_end(
                #[trigger] (pre + (content_prefix() + d2 + seq!['/'] + post)).skip(i),
            ) is None,
    ensures
        without_revision(pre + (content_prefix() + d1 + seq!['/'] + post)) == pre + zero_revision()
            + post,
        without_revision(pre + (content_prefix() + d1 + seq!['/'] + post)) == without_revision(
            pre + (content_prefix() + d2 + seq!['/'] + post),
        ),
{
    lemma_revision_after(pre, content_prefix() + d1 + seq!['/'] + post);
    lemma_revision_after(pre, content_prefix() + d2 + seq!['/'] + post);
    lemma_revision_at_start(d1, post);
    lemma_revision_at_start(d2, post);
    assert(pre + (zero_revision() + post) == pre + zero_revision() + post);
}

/// Decimal digit for `d` in `0..10`.
pub open spec fn digit_char(d: int) -> char {
    seq!['0', '1', '2', '3', '4', '5', '6', '7', '8', '9'][d]
}

/// Decimal digits of `n`, without leading zeros.
pub open spec fn nat_text(n: nat) -> Seq<char>
    decreases n,
{
    if n < 10 {
        seq![digit_char(n as int)]
    } else {
        nat_text(n / 10).push(digit_char((n % 10) as int))
    }
}

/// Decimal form of `n`, with a leading `-` when negative.
pub open spec fn int_text(n: int) -> Seq<char> {
    if n < 0 {
        seq!['-'] + nat_text((-n) as nat)
    } else {
        nat_text(n as nat)
    }
}

/// Relies on `i64::to_string`: the decimal form.
#[verifier::external_body]
pub(crate) fn i64_text(n: i64) -> (r: String)
    ensures
        r@ == int_text(n as int),
{
    n.to_string()
}

/// A copy of the characters.
pub(crate) fn owned(s: &str) -> (r: String)
    ensures
        r@ == s@,
{
    <String as StringExecFns>::from_str(s)
}

/// Relies on `str::eq`: equal characters.
#[verifier::external_body]
pub(crate) fn same_text(a: &str, b: &str) -> (r: bool)
    ensures
        r == (a@ == b@),
{
    a == b
}

} // verus!
