//! The list of feed URLs: reading it from text, and making it a set.

use vstd::prelude::*;
use crate::entry::text_of;
use crate::error::{ErrorModel, FeedUrlError, OpenringError, UrlLineModel};
use crate::scan::{is_comment, is_comment_line, lines_of, split_lines, texts};

verus! {

/// What the `url` parser makes of a text.
#[derive(Debug, PartialEq, Eq)]
pub enum UrlParse {
    /// The text is an absolute URL; this is its normal form.
    Absolute(String),
    /// The text is a relative reference, which needs a base. The text says so.
    Relative(String),
    /// The text is no URL. The text says why.
    Invalid(String),
}

/// The mathematical value of a [`UrlParse`].
pub ghost enum UrlParseModel {
    Absolute(Seq<char>),
    Relative(Seq<char>),
    Invalid(Seq<char>),
}

impl View for UrlParse {
    type V = UrlParseModel;

    open spec fn view(&self) -> UrlParseModel {
        match self {
            UrlParse::Absolute(u) => UrlParseModel::Absolute(u@),
            UrlParse::Relative(m) => UrlParseModel::Relative(m@),
            UrlParse::Invalid(m) => UrlParseModel::Invalid(m@),
        }
    }
}

/// What `url::Url::parse` makes of a text: the serialization of the URL, or
/// the `Display` text of the fault, the fault "relative URL without a
/// base" apart from the others.
pub uninterp spec fn parsed_url(s: Seq<char>) -> UrlParseModel;

/// `url::Url::parse`, the URL taken as its serialization and the fault as
/// its `Display` text.
#[verifier::external_body]
pub(crate) fn parse_url(s: &str) -> (r: UrlParse)
    ensures
        r@ == parsed_url(s@),
{
    match url::Url::parse(s) {
        Ok(u) => UrlParse::Absolute(u.into()),
        Err(url::ParseError::RelativeUrlWithoutBase) => UrlParse::Relative(
            url::ParseError::RelativeUrlWithoutBase.to_string(),
        ),
        Err(e) => UrlParse::Invalid(e.to_string()),
    }
}

/// The normal form of an absolute URL, or why the text is none.
pub open spec fn absolute_url(s: Seq<char>) -> Result<Seq<char>, Seq<char>> {
    match parsed_url(s) {
        UrlParseModel::Absolute(u) => Ok(u),
        UrlParseModel::Relative(m) => Err(m),
        UrlParseModel::Invalid(m) => Err(m),
    }
}

/// Reads a text as an absolute URL: its normal form, or why it is none.
fn read_absolute(s: &str) -> (r: Result<String, String>)
    ensures
        match absolute_url(s@) {
            Ok(u) => r matches Ok(v) && v@ == u,
            Err(m) => r matches Err(why) && why@ == m,
        },
{
    match parse_url(s) {
        UrlParse::Absolute(u) => Ok(u),
        UrlParse::Relative(m) => Err(m),
        UrlParse::Invalid(m) => Err(m),
    }
}

/// Reads a text as an absolute URL and gives its normal form.
pub fn normalize_url(s: &str) -> (r: Result<String, OpenringError>)
    ensures
        match absolute_url(s@) {
            Ok(u) => r matches Ok(v) && v@ == u,
            Err(m) => r matches Err(e) && e@ == ErrorModel::UrlParseError(m),
        },
{
    match read_absolute(s) {
        Ok(u) => Ok(u),
        Err(m) => Err(OpenringError::UrlParseError(m)),
    }
}

/// The text is an absolute URL in normal form: the parser gives it back as
/// it is.
pub open spec fn is_normal_url(url: Seq<char>) -> bool {
    parsed_url(url) == UrlParseModel::Absolute(url)
}

/// The normal form of an absolute URL, where that form is itself in normal
/// form; `None` for every other text.
pub open spec fn normal_form(url: Seq<char>) -> Option<Seq<char>> {
    match parsed_url(url) {
        UrlParseModel::Absolute(u) => if is_normal_url(u) {
            Some(u)
        } else {
            None
        },
        UrlParseModel::Relative(_) => None,
        UrlParseModel::Invalid(_) => None,
    }
}

/// A URL in normal form is its own normal form, and a normal form is in
/// normal form.
pub proof fn lemma_normal_form(url: Seq<char>)
    ensures
        is_normal_url(url) ==> normal_form(url) == Some(url),
        normal_form(url) is Some ==> is_normal_url(normal_form(url)->0) && normal_form(
            normal_form(url)->0,
        ) == normal_form(url),
{
}

/// The normal form of an absolute URL, tested to be in normal form itself.
pub fn url_key(url: &str) -> (key: Option<String>)
    ensures
        text_of(key) == normal_form(url@),
{
    match parse_url(url) {
        UrlParse::Absolute(u) => {
            let given = String::from_str(url);
            if u == given {
                Some(u)
            } else {
                match parse_url(u.as_str()) {
                    UrlParse::Absolute(again) => if again == u {
                        Some(u)
                    } else {
                        None
                    },
                    UrlParse::Relative(_) => None,
                    UrlParse::Invalid(_) => None,
                }
            }
        },
        UrlParse::Relative(_) => None,
        UrlParse::Invalid(_) => None,
    }
}

/// The first of the lines from `from` on that is neither a comment nor an
/// absolute URL: its number and why it was refused. `None`: there is none.
pub open spec fn first_bad_line(lines: Seq<Seq<char>>, from: int) -> Option<(int, Seq<char>)>
    decreases lines.len() - from,
{
    if from < 0 || from >= lines.len() {
        None
    } else if is_comment(lines[from]) {
        first_bad_line(lines, from + 1)
    } else {
        match absolute_url(lines[from]) {
            Ok(_) => first_bad_line(lines, from + 1),
            Err(m) => Some((from, m)),
        }
    }
}

/// The URLs of the first `upto` lines, in their normal form and in the order
/// of the lines. Comments are passed over, and so is what is no URL.
pub open spec fn listed_urls(lines: Seq<Seq<char>>, upto: int) -> Seq<Seq<char>>
    decreases upto,
{
    if upto <= 0 || upto > lines.len() {
        Seq::empty()
    } else {
        let before = listed_urls(lines, upto - 1);
        if is_comment(lines[upto - 1]) {
            before
        } else {
            match absolute_url(lines[upto - 1]) {
                Ok(u) => before.push(u),
                Err(_) => before,
            }
        }
    }
}

/// What a URL list gives: the URLs of its lines, or its first bad line.
pub open spec fn url_list(name: Seq<char>, text: Seq<char>) -> Result<Seq<Seq<char>>, ErrorModel> {
    let lines = lines_of(text);
    match first_bad_line(lines, 0) {
        Some((line, help)) => Err(
            ErrorModel::FeedUrlError(
                UrlLineModel { name, src: text, line, text: lines[line], help },
            ),
        ),
        None => Ok(listed_urls(lines, lines.len() as int)),
    }
}

/// Reads the text of a URL list, the file `name`: one URL on each line,
/// lines that start with `#` or `//` being comments.
///
/// The first line that is neither a comment nor an absolute URL refuses the
/// whole list.
pub fn parse_urls_from_file(name: &str, text: &str) -> (r: Result<Vec<String>, OpenringError>)
    ensures
        match url_list(name@, text@) {
            Ok(urls) => r matches Ok(found) && texts(found@) == urls,
            Err(e) => r matches Err(got) && got@ == e,
        },
{
    let lines = split_lines(text);
    let ghost all = lines_of(text@);
    let mut urls: Vec<String> = Vec::new();
    let mut i: usize = 0;
    proof {
        assert(texts(urls@) =~= listed_urls(all, 0));
    }
    while i < lines.len()
        invariant
            0 <= i <= lines.len(),
            all == lines_of(text@),
            all == texts(lines@),
            first_bad_line(all, 0) == first_bad_line(all, i as int),
            texts(urls@) == listed_urls(all, i as int),
        decreases lines.len() - i,
    {
        assert(all[i as int] == lines@[i as int]@);
        if !is_comment_line(lines[i].as_str()) {
            match read_absolute(lines[i].as_str()) {
                Ok(u) => {
                    proof {
                        assert(texts(urls@.push(u)) =~= texts(urls@).push(u@));
                    }
                    urls.push(u);
                },
                Err(help) => {
                    return Err(
                        OpenringError::FeedUrlError(
                            FeedUrlError {
                                name: String::from_str(name),
                                src: String::from_str(text),
                                line: i,
                                text: lines[i].clone(),
                                help,
                            },
                        ),
                    );
                },
            }
        }
        i = i + 1;
    }
    Ok(urls)
}

/// `urls` without repetitions: of each URL its first occurrence, in the
/// order of the list.
pub open spec fn deduped(urls: Seq<Seq<char>>) -> Seq<Seq<char>>
    decreases urls.len(),
{
    if urls.len() == 0 {
        Seq::empty()
    } else {
        let before = deduped(urls.drop_last());
        if before.contains(urls.last()) {
            before
        } else {
            before.push(urls.last())
        }
    }
}

/// A list without repetitions names no URL twice and names exactly the URLs
/// of the list it was made from.
pub proof fn lemma_deduped_is_a_set(urls: Seq<Seq<char>>)
    ensures
        deduped(urls).no_duplicates(),
        forall|u: Seq<char>| #[trigger] deduped(urls).contains(u) <==> urls.contains(u),
        deduped(urls).len() <= urls.len(),
    decreases urls.len(),
{
    if urls.len() > 0 {
        let front = urls.drop_last();
        let before = deduped(front);
        lemma_deduped_is_a_set(front);
        assert forall|u: Seq<char>| #[trigger] deduped(urls).contains(u) <==> urls.contains(u) by {
            if urls.contains(u) {
                let i = choose|i: int| 0 <= i < urls.len() && urls[i] == u;
                if i < urls.len() - 1 {
                    assert(front[i] == u);
                    assert(front.contains(u));
                    assert(before.contains(u));
                    let j = choose|j: int| 0 <= j < before.len() && before[j] == u;
                    assert(deduped(urls)[j] == u);
                } else if !before.contains(urls.last()) {
                    assert(deduped(urls)[before.len() as int] == u);
                } else {
                    assert(before.contains(u));
                    let j = choose|j: int| 0 <= j < before.len() && before[j] == u;
                    assert(deduped(urls)[j] == u);
                }
            }
            if deduped(urls).contains(u) {
                let j = choose|j: int| 0 <= j < deduped(urls).len() && deduped(urls)[j] == u;
                if j < before.len() {
                    assert(before[j] == u);
                    assert(before.contains(u));
                    assert(front.contains(u));
                    let i = choose|i: int| 0 <= i < front.len() && front[i] == u;
                    assert(urls[i] == u);
                } else {
                    assert(urls[urls.len() - 1] == u);
                }
            }
        }
    }
}

/// Whether `urls` names `url`.
fn names(urls: &Vec<String>, url: &String) -> (r: bool)
    ensures
        r == texts(urls@).contains(url@),
{
    let mut i: usize = 0;
    while i < urls.len()
        invariant
            0 <= i <= urls.len(),
            forall|j: int| 0 <= j < i ==> texts(urls@)[j] != url@,
        decreases urls.len() - i,
    {
        assert(texts(urls@)[i as int] == urls@[i as int]@);
        if urls[i] == *url {
            return true;
        }
        i = i + 1;
    }
    false
}

/// Takes the repetitions out of a list of URLs.
pub fn dedup_urls(urls: Vec<String>) -> (unique: Vec<String>)
    ensures
        texts(unique@) == deduped(texts(urls@)),
{
    let ghost all = texts(urls@);
    let mut unique: Vec<String> = Vec::new();
    let mut i: usize = 0;
    proof {
        assert(all.subrange(0, 0) =~= Seq::<Seq<char>>::empty());
        assert(texts(unique@) =~= deduped(all.subrange(0, 0)));
    }
    while i < urls.len()
        invariant
            0 <= i <= urls.len(),
            all == texts(urls@),
            texts(unique@) == deduped(all.subrange(0, i as int)),
        decreases urls.len() - i,
    {
        let ghost upto = all.subrange(0, i as int);
        let ghost next = all.subrange(0, i + 1);
        assert(next.drop_last() =~= upto);
        assert(next.last() == urls@[i as int]@);
        if !names(&unique, &urls[i]) {
            let u = urls[i].clone();
            proof {
                assert(texts(unique@.push(u)) =~= texts(unique@).push(u@));
            }
            unique.push(u);
        }
        i = i + 1;
    }
    assert(all.subrange(0, i as int) =~= all);
    unique
}

/// The URLs to fetch: those given one by one, then those of the list, each
/// once.
pub open spec fn fetch_list(given: Seq<Seq<char>>, listed: Seq<Seq<char>>) -> Result<
    Seq<Seq<char>>,
    ErrorModel,
> {
    if given.len() + listed.len() == 0 {
        Err(ErrorModel::FeedMissing)
    } else {
        Ok(deduped(given + listed))
    }
}

/// Puts the URLs given one by one and those of a URL list together, each
/// once. That there is no URL at all is a failure.
pub fn gather_urls(given: Vec<String>, listed: Vec<String>) -> (r: Result<
    Vec<String>,
    OpenringError,
>)
    ensures
        match fetch_list(texts(given@), texts(listed@)) {
            Ok(urls) => r matches Ok(found) && texts(found@) == urls,
            Err(e) => r matches Err(got) && got@ == e,
        },
{
    let mut all = given;
    let mut rest = listed;
    all.append(&mut rest);
    assert(texts(all@) =~= texts(given@) + texts(listed@));
    if all.len() == 0 {
        Err(OpenringError::FeedMissing)
    } else {
        Ok(dedup_urls(all))
    }
}

} // verus!
