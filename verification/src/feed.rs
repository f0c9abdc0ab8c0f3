//! The RSS feed: its address for a search, its items, and the choice of the
//! item that carries a given episode.

use vstd::prelude::*;
use crate::pattern::{Pattern, captures, regex_captures};
use crate::series::pattern_views;
use crate::status::group;
use crate::template::{TemplateError, fill_template, format_template, percent_encode, url_encode};
use vstd::utf8::encode_utf8;
use crate::text::{decimal_digits, decimal_string, parse_decimal_u32, parse_u32};

verus! {

/// The text of an element.
pub struct TextNode(pub String);

/// An item's unique identifier.
pub struct Guid {
    pub value: String,
    pub is_perma_link: String,
}

/// The file an item points to; for a torrent feed, its magnet link.
pub struct Enclosure {
    pub url: String,
    pub length: String,
    pub mime_type: String,
}

/// An item's category.
pub struct Category {
    pub value: String,
    pub domain: String,
}

/// One entry of the feed.
pub struct Item {
    pub title: TextNode,
    pub link: TextNode,
    pub description: TextNode,
    pub guid: Guid,
    pub author: TextNode,
    pub enclosure: Enclosure,
    pub pub_date: TextNode,
    pub category: Category,
}

/// The feed's channel.
pub struct Channel {
    pub title: TextNode,
    pub link: TextNode,
    pub description: TextNode,
    pub last_build_date: TextNode,
    pub language: TextNode,
    pub generator: TextNode,
    pub copyright: TextNode,
    pub item: Vec<Item>,
}

/// A whole feed.
pub struct Rss {
    pub channel: Channel,
}

/// The address of the feed for a search: `template` with `{keyword}` filled
/// by the percent-encoded `keyword`.
pub fn feed_url(template: &str, keyword: &str) -> (r: Result<String, TemplateError>)
    ensures
        match r {
            Ok(u) => format_template(template@, "keyword"@, percent_encode(encode_utf8(keyword@)))
                == Some(u@),
            Err(_) => format_template(
                template@,
                "keyword"@,
                percent_encode(encode_utf8(keyword@)),
            ) is None,
        },
{
    let encoded = url_encode(keyword);
    match fill_template(template, "keyword", encoded.as_str()) {
        Ok(u) => Ok(u),
        Err(e) => Err(TemplateError::Invalid(e)),
    }
}

/// Why no single item was chosen for an episode.
#[derive(Debug, PartialEq, Eq, Structural, Clone, Copy)]
pub enum MatchError {
    /// No item carries the episode.
    NoMatch(u32),
    /// More than one item carries the episode.
    MultipleMatches(u32),
}

/// The message of a match error, as it is shown to the user.
pub open spec fn match_error_text(e: MatchError) -> Seq<char> {
    match e {
        MatchError::NoMatch(ep) => "No item matched episode "@ + decimal_digits(ep as nat),
        MatchError::MultipleMatches(ep) => "Multiple items matched episode "@ + decimal_digits(
            ep as nat,
        ),
    }
}

impl MatchError {
    /// The message of the error, as it is shown to the user.
    pub fn message(&self) -> (r: String)
        ensures
            r@ == match_error_text(*self),
    {
        match self {
            MatchError::NoMatch(ep) => {
                let mut r = String::from_str("No item matched episode ");
                r.append(decimal_string(*ep).as_str());
                r
            },
            MatchError::MultipleMatches(ep) => {
                let mut r = String::from_str("Multiple items matched episode ");
                r.append(decimal_string(*ep).as_str());
                r
            },
        }
    }
}

/// The episode number that a title's match gives: its first group, read as
/// a `u32`.
pub open spec fn episode_of(caps: Option<Seq<Option<Seq<char>>>>) -> Option<u32> {
    match caps {
        Some(g) => match group(g, 1) {
            Some(t) => parse_u32(t),
            None => None,
        },
        None => None,
    }
}

/// Reads the episode number out of the groups of a title match.
pub fn title_episode(caps: &Option<Vec<Option<String>>>) -> (r: Option<u32>)
    ensures
        r == episode_of(caps.deep_view()),
{
    match caps {
        None => None,
        Some(g) => {
            if 1 < g.len() {
                match &g[1] {
                    Some(t) => parse_decimal_u32(t.as_str()),
                    None => None,
                }
            } else {
                None
            }
        },
    }
}

/// Whether one of `patterns` finds episode `ep` in `title`.
pub open spec fn title_matches(patterns: Seq<Seq<char>>, title: Seq<char>, ep: u32) -> bool {
    exists|k: int|
        0 <= k < patterns.len() && #[trigger] episode_of(regex_captures(patterns[k], title)) == Some(
            ep,
        )
}

/// How many of `items` carry episode `ep`.
pub open spec fn matching_count(items: Seq<Item>, patterns: Seq<Seq<char>>, ep: u32) -> nat
    decreases items.len(),
{
    if items.len() == 0 {
        0
    } else {
        matching_count(items.drop_last(), patterns, ep) + if title_matches(
            patterns,
            items.last().title.0@,
            ep,
        ) {
            1nat
        } else {
            0nat
        }
    }
}

/// Whether one of `patterns` finds episode `ep` in `title`.
pub fn title_has_episode(patterns: &Vec<Pattern>, title: &str, ep: u32) -> (r: bool)
    ensures
        r == title_matches(pattern_views(patterns@), title@, ep),
{
    let n = patterns.len();
    for k in 0..n
        invariant
            n == patterns@.len(),
            forall|j: int|
                0 <= j < k ==> #[trigger] episode_of(regex_captures(patterns@[j]@, title@)) != Some(
                    ep,
                ),
    {
        let caps = captures(&patterns[k], title);
        match title_episode(&caps) {
            Some(e) => {
                if e == ep {
                    assert(pattern_views(patterns@)[k as int] == patterns@[k as int]@);
                    return true;
                }
            },
            None => {},
        }
    }
    assert forall|k: int| 0 <= k < n implies #[trigger] episode_of(
        regex_captures(pattern_views(patterns@)[k], title@),
    ) != Some(ep) by {
        assert(pattern_views(patterns@)[k] == patterns@[k]@);
    }
    false
}

/// The one item of the feed that carries episode `ep`; an error where none
/// or more than one does.
pub fn match_item_by_title(rss: Rss, patterns: &Vec<Pattern>, ep: u32) -> (r: Result<Item, MatchError>)
    ensures
        ({
            let items = rss.channel.item@;
            let n = matching_count(items, pattern_views(patterns@), ep);
            &&& n == 0 ==> r == Err::<Item, MatchError>(MatchError::NoMatch(ep))
            &&& n >= 2 ==> r == Err::<Item, MatchError>(MatchError::MultipleMatches(ep))
            &&& n == 1 <==> r is Ok
            &&& r matches Ok(it) ==> exists|i: int|
                0 <= i < items.len() && #[trigger] items[i] == it && title_matches(
                    pattern_views(patterns@),
                    items[i].title.0@,
                    ep,
                )
        }),
{
    let ghost pats = pattern_views(patterns@);
    let mut items = rss.channel.item;
    let ghost all = items@;
    let n = items.len();
    let mut count: usize = 0;
    let mut first: usize = 0;
    for i in 0..n
        invariant
            n == items@.len(),
            items@ == all,
            pats == pattern_views(patterns@),
            count == matching_count(all.take(i as int), pats, ep),
            count <= i,
            count > 0 ==> first < i && title_matches(pats, all[first as int].title.0@, ep),
    {
        assert(all.take(i + 1).drop_last() =~= all.take(i as int));
        if title_has_episode(patterns, items[i].title.0.as_str(), ep) {
            if count == 0 {
                first = i;
            }
            count = count + 1;
        }
    }
    assert(all.take(n as int) =~= all);
    if count == 0 {
        Err(MatchError::NoMatch(ep))
    } else if count == 1 {
        let it = items.remove(first);
        Ok(it)
    } else {
        Err(MatchError::MultipleMatches(ep))
    }
}

} // verus!

verus! {

/// Every item of a feed counts: an empty feed has no match, and one more item
/// adds one match exactly when its title carries the episode, however long
/// the feed already is.
pub proof fn law_every_item_counts(items: Seq<Item>, x: Item, patterns: Seq<Seq<char>>, ep: u32)
    ensures
        matching_count(Seq::<Item>::empty(), patterns, ep) == 0,
        matching_count(items.push(x), patterns, ep) == matching_count(items, patterns, ep) + if title_matches(
            patterns,
            x.title.0@,
            ep,
        ) {
            1nat
        } else {
            0nat
        },
{
    assert(items.push(x).drop_last() =~= items);
}

/// A feed has no match exactly when no title carries the episode, and never
/// more matches than items.
pub proof fn law_no_match_means_no_title(items: Seq<Item>, patterns: Seq<Seq<char>>, ep: u32)
    ensures
        matching_count(items, patterns, ep) <= items.len(),
        matching_count(items, patterns, ep) == 0 <==> forall|i: int|
            0 <= i < items.len() ==> !title_matches(patterns, #[trigger] items[i].title.0@, ep),
    decreases items.len(),
{
    if items.len() > 0 {
        let rest = items.drop_last();
        law_no_match_means_no_title(rest, patterns, ep);
        law_every_item_counts(rest, items.last(), patterns, ep);
        assert(rest.push(items.last()) =~= items);
        if matching_count(items, patterns, ep) == 0 {
            assert forall|i: int| 0 <= i < items.len() implies !title_matches(
                patterns,
                #[trigger] items[i].title.0@,
                ep,
            ) by {
                if i < rest.len() {
                    assert(items[i] == rest[i]);
                }
            }
        } else if forall|i: int|
            0 <= i < items.len() ==> !title_matches(patterns, #[trigger] items[i].title.0@, ep) {
            assert forall|i: int| 0 <= i < rest.len() implies !title_matches(
                patterns,
                #[trigger] rest[i].title.0@,
                ep,
            ) by {
                assert(items[i] == rest[i]);
            }
            assert(!title_matches(patterns, items[items.len() - 1].title.0@, ep));
        }
    }
}

} // verus!
