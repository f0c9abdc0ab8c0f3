use rss_autodl::feed::{
    feed_url, match_item_by_title, title_episode, Category, Channel, Enclosure, Guid, Item,
    MatchError, Rss, TextNode,
};
use rss_autodl::template::TemplateError;
use rss_autodl::pattern::Pattern;

fn text(s: &str) -> TextNode {
    TextNode(s.to_string())
}

fn item(title: &str, url: &str) -> Item {
    Item {
        title: text(title),
        link: text("https://example.org"),
        description: text(""),
        guid: Guid { value: title.to_string(), is_perma_link: "false".to_string() },
        author: text("someone"),
        enclosure: Enclosure {
            url: url.to_string(),
            length: "0".to_string(),
            mime_type: "application/x-bittorrent".to_string(),
        },
        pub_date: text(""),
        category: Category { value: "Anime".to_string(), domain: "".to_string() },
    }
}

fn feed(items: Vec<Item>) -> Rss {
    Rss {
        channel: Channel {
            title: text("feed"),
            link: text(""),
            description: text(""),
            last_build_date: text(""),
            language: text("en"),
            generator: text(""),
            copyright: text(""),
            item: items,
        },
    }
}

fn patterns(sources: &[&str]) -> Vec<Pattern> {
    sources.iter().map(|s| Pattern::new(s).unwrap()).collect()
}

#[test]
fn the_one_matching_item_is_chosen() {
    let rss = feed(vec![
        item("[Group] Show - 03 [1080p]", "magnet:?xt=urn:btih:AAA"),
        item("[Group] Show - 04 [1080p]", "magnet:?xt=urn:btih:BBB"),
        item("[Group] Other - 04 [1080p]", "magnet:?xt=urn:btih:CCC"),
    ]);
    let chosen = match_item_by_title(rss, &patterns(&[r"Show - (\d+)"]), 4).unwrap();
    assert_eq!(chosen.enclosure.url, "magnet:?xt=urn:btih:BBB");
}

#[test]
fn leading_zeros_and_plus_read_as_numbers() {
    let rss = feed(vec![item("Show - +004", "m")]);
    assert!(match_item_by_title(rss, &patterns(&[r"Show - (\+?\d+)"]), 4).is_ok());
}

#[test]
fn no_item_matches() {
    let rss = feed(vec![item("Show - 03", "m")]);
    let r = match_item_by_title(rss, &patterns(&[r"Show - (\d+)"]), 4);
    assert_eq!(r.err(), Some(MatchError::NoMatch(4)));
}

#[test]
fn several_items_match() {
    let rss = feed(vec![item("Show - 04 [720p]", "a"), item("Show - 04 [1080p]", "b")]);
    let r = match_item_by_title(rss, &patterns(&[r"Show - (\d+)"]), 4);
    assert_eq!(r.err(), Some(MatchError::MultipleMatches(4)));
}

#[test]
fn any_pattern_of_the_list_may_match() {
    let rss = feed(vec![item("Show Ep.7", "a"), item("Show - 08", "b")]);
    let ps = patterns(&[r"Show - (\d+)", r"Ep\.(\d+)"]);
    assert_eq!(match_item_by_title(rss, &ps, 7).unwrap().enclosure.url, "a");
}

#[test]
fn title_without_group_does_not_match() {
    let rss = feed(vec![item("Show - 04", "a")]);
    let r = match_item_by_title(rss, &patterns(&[r"Show - \d+"]), 4);
    assert_eq!(r.err(), Some(MatchError::NoMatch(4)));
}

#[test]
fn title_episode_reads_group_one() {
    assert_eq!(title_episode(&Some(vec![Some("x".to_string()), Some("12".to_string())])), Some(12));
    assert_eq!(title_episode(&Some(vec![Some("x".to_string()), Some("1x".to_string())])), None);
    assert_eq!(title_episode(&Some(vec![Some("x".to_string()), Some("4294967296".to_string())])), None);
    assert_eq!(title_episode(&Some(vec![Some("x".to_string()), None])), None);
    assert_eq!(title_episode(&Some(vec![Some("x".to_string())])), None);
    assert_eq!(title_episode(&None), None);
}

#[test]
fn match_error_messages() {
    assert_eq!(MatchError::NoMatch(7).message(), "No item matched episode 7");
    assert_eq!(MatchError::MultipleMatches(12).message(), "Multiple items matched episode 12");
}

#[test]
fn feed_url_encodes_the_keyword() {
    let url = feed_url("https://example.org/RSS/Search?searchstr={keyword}", "Show 2 & más").unwrap();
    assert_eq!(url, "https://example.org/RSS/Search?searchstr=Show%202%20%26%20m%C3%A1s");
    assert_eq!(feed_url("https://x/?q={keyword}", "a-b_c.d~e").unwrap(), "https://x/?q=a-b_c.d~e");
}

#[test]
fn feed_url_with_bad_template() {
    assert!(matches!(
        feed_url("https://x/?q={other}", "a"),
        Err(TemplateError::Invalid(strfmt::FmtError::KeyError(_)))
    ));
    assert!(matches!(
        feed_url("https://x/?q={keyword", "a"),
        Err(TemplateError::Invalid(_))
    ));
}
