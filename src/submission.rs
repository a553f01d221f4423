use vstd::prelude::*;
use vstd::string::StringExecFns;
use soup::{NodeExt, QueryBuilderExt};
use crate::markup::text_of;

verus! {

/// One submission as read from its detail page.
#[derive(Debug)]
pub struct SubmissionData {
    pub url: String,
    pub title: String,
    pub artist: String,
    pub date: String,
    pub tags: Vec<String>,
}

pub struct SubmissionView {
    pub url: Seq<char>,
    pub title: Seq<char>,
    pub artist: Seq<char>,
    pub date: Seq<char>,
    pub tags: Seq<Seq<char>>,
}

pub open spec fn strings_of(v: Seq<String>) -> Seq<Seq<char>> {
    v.map_values(|s: String| s@)
}

impl View for SubmissionData {
    type V = SubmissionView;

    open spec fn view(&self) -> SubmissionView {
        SubmissionView {
            url: self.url@,
            title: self.title@,
            artist: self.artist@,
            date: self.date@,
            tags: strings_of(self.tags@),
        }
    }
}

/// The part of a detail page that a required field was looked for in and not
/// found (or found empty).
#[derive(Debug, Clone, Copy, PartialEq, Eq, Structural)]
pub enum MalformedDetail {
    Container,
    Url,
    Artist,
    Title,
    Date,
}

/// The markup of the element of class `submission-id-sub-container`.
pub uninterp spec fn container_of(page: Seq<char>) -> Option<Seq<char>>;

/// The `href` of the first link inside the element of class `download`.
pub uninterp spec fn download_href_of(page: Seq<char>) -> Option<Seq<char>>;

/// The texts of the `tags` elements inside the element of class `tags-row`;
/// `None` where the page has no such row.
pub uninterp spec fn tag_texts_of(page: Seq<char>) -> Option<Seq<Seq<char>>>;

/// The text of the first `strong` element.
pub uninterp spec fn strong_text_of(container: Seq<char>) -> Option<Seq<char>>;

/// The text of the first paragraph inside the element of class `submission-title`.
pub uninterp spec fn title_text_of(container: Seq<char>) -> Option<Seq<char>>;

/// The `title` attribute of the element of class `popup_date`.
pub uninterp spec fn date_title_of(container: Seq<char>) -> Option<Seq<char>>;

/// Relies on soup: `Soup::new`, then `class(..).find()` and `NodeExt::display`.
#[verifier::external_body]
fn container_markup(page: &str) -> (r: Option<String>)
    ensures
        text_of(r) == container_of(page@),
{
    soup::Soup::new(page).class("submission-id-sub-container").find().map(|n| n.display())
}

/// Relies on soup: `class("download")`, then the first `a` in it, then
/// `NodeExt::get("href")`.
#[verifier::external_body]
fn download_href(page: &str) -> (r: Option<String>)
    ensures
        text_of(r) == download_href_of(page@),
{
    let soup = soup::Soup::new(page);
    soup.class("download").find()?.tag("a").find()?.get("href")
}

/// Relies on soup: `class("tags-row")`, then every `class("tags")` in it, and
/// `NodeExt::text` of each.
#[verifier::external_body]
fn tag_texts(page: &str) -> (r: Option<Vec<String>>)
    ensures
        match r {
            Some(v) => tag_texts_of(page@) == Some(strings_of(v@)),
            None => tag_texts_of(page@) is None,
        },
{
    let soup = soup::Soup::new(page);
    Some(soup.class("tags-row").find()?.class("tags").find_all().map(|n| n.text()).collect())
}

/// Relies on soup: the first `strong` element and `NodeExt::text`.
#[verifier::external_body]
fn strong_text(container: &str) -> (r: Option<String>)
    ensures
        text_of(r) == strong_text_of(container@),
{
    soup::Soup::new(container).tag("strong").find().map(|n| n.text())
}

/// Relies on soup: `class("submission-title")`, the first `p` in it, and
/// `NodeExt::text`.
#[verifier::external_body]
fn title_text(container: &str) -> (r: Option<String>)
    ensures
        text_of(r) == title_text_of(container@),
{
    let soup = soup::Soup::new(container);
    Some(soup.class("submission-title").find()?.tag("p").find()?.text())
}

/// Relies on soup: `class("popup_date")` and `NodeExt::get("title")`.
#[verifier::external_body]
fn date_title(container: &str) -> (r: Option<String>)
    ensures
        text_of(r) == date_title_of(container@),
{
    soup::Soup::new(container).class("popup_date").find()?.get("title")
}

pub open spec fn present(o: Option<Seq<char>>) -> bool {
    o matches Some(s) && s.len() > 0
}

pub open spec fn url_scheme() -> Seq<char> {
    seq!['h', 't', 't', 'p', 's', ':']
}

/// The record made of the fields found on a page, checked in the order url,
/// artist, title, date: the link must be there (an empty one still gives a
/// url, the bare scheme), and artist, title and date must be there and not
/// empty; a missing tag row gives no tags.
pub open spec fn assemble(
    href: Option<Seq<char>>,
    tags: Option<Seq<Seq<char>>>,
    artist: Option<Seq<char>>,
    title: Option<Seq<char>>,
    date: Option<Seq<char>>,
) -> Result<SubmissionView, MalformedDetail> {
    if href is None {
        Err(MalformedDetail::Url)
    } else if !present(artist) {
        Err(MalformedDetail::Artist)
    } else if !present(title) {
        Err(MalformedDetail::Title)
    } else if !present(date) {
        Err(MalformedDetail::Date)
    } else {
        Ok(SubmissionView {
            url: url_scheme() + href->Some_0,
            title: title->Some_0,
            artist: artist->Some_0,
            date: date->Some_0,
            tags: match tags {
                Some(t) => t,
                None => seq![],
            },
        })
    }
}

/// The record a detail page describes.
pub open spec fn page_submission(page: Seq<char>) -> Result<SubmissionView, MalformedDetail> {
    match container_of(page) {
        None => Err(MalformedDetail::Container),
        Some(c) => assemble(
            download_href_of(page),
            tag_texts_of(page),
            strong_text_of(c),
            title_text_of(c),
            date_title_of(c),
        ),
    }
}

pub open spec fn result_view(r: Result<SubmissionData, MalformedDetail>) -> Result<SubmissionView, MalformedDetail> {
    match r {
        Ok(d) => Ok(d@),
        Err(e) => Err(e),
    }
}

fn present_text(o: &Option<String>) -> (b: bool)
    ensures
        b == present(text_of(*o)),
{
    match o {
        Some(s) => s.as_str().unicode_len() > 0,
        None => false,
    }
}

/// Builds a record from the fields found on a detail page.
pub fn build_submission(
    href: Option<String>,
    tags: Option<Vec<String>>,
    artist: Option<String>,
    title: Option<String>,
    date: Option<String>,
) -> (r: Result<SubmissionData, MalformedDetail>)
    ensures
        result_view(r) == assemble(
            text_of(href),
            match tags {
                Some(v) => Some(strings_of(v@)),
                None => None,
            },
            text_of(artist),
            text_of(title),
            text_of(date),
        ),
{
    if href.is_none() {
        return Err(MalformedDetail::Url);
    }
    if !present_text(&artist) {
        return Err(MalformedDetail::Artist);
    }
    if !present_text(&title) {
        return Err(MalformedDetail::Title);
    }
    if !present_text(&date) {
        return Err(MalformedDetail::Date);
    }
    let scheme = "https:";
    proof {
        reveal_strlit("https:");
    }
    let url = String::from_str(scheme).concat(href.unwrap().as_str());
    let tags = match tags {
        Some(v) => v,
        None => Vec::new(),
    };
    let r = SubmissionData {
        url,
        title: title.unwrap(),
        artist: artist.unwrap(),
        date: date.unwrap(),
        tags,
    };
    assert(strings_of(Seq::<String>::empty()) =~= Seq::<Seq<char>>::empty());
    assert(url_scheme() =~= scheme@);
    Ok(r)
}

/// Extracts the record of a detail page.
pub fn parse_submission_text(text: &str) -> (r: Result<SubmissionData, MalformedDetail>)
    ensures
        result_view(r) == page_submission(text@),
        r matches Ok(d) ==> d.url@.len() > 0 && d.title@.len() > 0 && d.artist@.len() > 0
            && d.date@.len() > 0,
        tag_texts_of(text@) is None ==> (r matches Ok(d) ==> d@.tags.len() == 0),
{
    let container = match container_markup(text) {
        Some(c) => c,
        None => return Err(MalformedDetail::Container),
    };
    let href = download_href(text);
    let tags = tag_texts(text);
    let artist = strong_text(container.as_str());
    let title = title_text(container.as_str());
    let date = date_title(container.as_str());
    build_submission(href, tags, artist, title, date)
}

} // verus!
