use mikan::mikan::{
    bangumi_url, caption_text, groups_from, leading_text, parse_shows, parse_subgroups,
    search_url, show_id_from, shows_from, subgroupid_from, Block, Caption, Card, Show, Subgroup,
};

#[test]
fn parse_shows_empty_page_is_empty() {
    assert!(parse_shows("<html><body></body></html>").is_empty());
}

#[test]
fn parse_subgroups_empty_page_is_empty() {
    assert!(parse_subgroups("<html><body></body></html>").is_empty());
}

fn show(title: &str, id: u32) -> Show {
    Show { title: title.to_string(), id }
}

fn group(name: &str, id: u32) -> Subgroup {
    Subgroup { name: name.to_string(), id }
}

#[test]
fn parse_shows_extracts_and_dedups() {
    let html = r#"<html><body><ul>
        <li><a href="/Home/Bangumi/3689" target="_blank"><span class="poster"></span>
            <div class="an-info"><div class="an-text" title="石纪元 科学与未来 第2部分">石纪元…</div></div></a></li>
        <li><a href="/Home/Bangumi/3689#372">again</a></li>
        <li><a href="/Home/Bangumi/3000"><div class="an-text"> 新石纪 <b>NEW</b> WORLD </div></a></li>
        <li><a href="/Home/Bangumi/3952?x=1" title="Suffixed Show">poster</a></li>
        <li><a href="/Home/Bangumi/3954"> &#x200b; </a></li>
        <li><a href="/Home/Bangumi/abc">no number</a></li>
        <li><a href="/Home/Bangumi/99999999999">too large</a></li>
        <li><a href="/Home/Other/1">elsewhere</a></li>
        </ul></body></html>"#;
    let shows = parse_shows(html);
    assert_eq!(
        shows,
        vec![
            Show { title: "石纪元 科学与未来 第2部分".to_string(), id: 3689 },
            Show { title: "新石纪 NEW WORLD".to_string(), id: 3000 },
            Show { title: "Suffixed Show".to_string(), id: 3952 },
        ]
    );
}

#[test]
fn equal_trees_list_the_same() {
    let a = parse_shows("<p ><a  href='/Home/Bangumi/1' >x</a></p>");
    let b = parse_shows("<p><a href=\"/Home/Bangumi/1\">x</a></p>");
    assert_eq!(a, vec![show("x", 1)]);
    assert_eq!(a, b);
}

#[test]
fn a_blank_title_gives_way_to_the_text() {
    let html = r#"<a href="/Home/Bangumi/3953" title="  "> By &amp; text </a>"#;
    assert_eq!(parse_shows(html), vec![show("By & text", 3953)]);
}

#[test]
fn parse_subgroups_extracts_name_and_id() {
    let html = r#"<html><body>
        <div class="subgroup-text" id="597"><a href="/Home/PublishGroup/311"> 猎户<b>发布组</b> </a>
            <a href="/RSS/Bangumi?bangumiId=3950&subgroupid=597" class="mikan-rss"></a></div>
        <div class="subgroup-text" id="202">
            生肉/不明字幕
            <a href="/RSS/Bangumi?bangumiId=3950&amp;subgroupid=202&x=1"></a><span>已订阅</span></div>
        <div class="subgroup-text"><a href="/Home/PublishGroup/1">no feed</a></div>
        <div class="subgroup-text">again<a href="/RSS/Bangumi?subgroupid=597"></a></div>
        <div class="subgroup-text"><a href="/RSS/Bangumi?subgroupid=5"></a>no name in front</div>
        </body></html>"#;
    let groups = parse_subgroups(html);
    assert_eq!(
        groups,
        vec![
            Subgroup { name: "猎户发布组".to_string(), id: 597 },
            Subgroup { name: "生肉/不明字幕".to_string(), id: 202 },
        ]
    );
}

#[test]
fn a_show_is_named_by_its_caption_first() {
    let caption = |title: Option<&str>, text: &str| Caption {
        title: title.map(str::to_string),
        text: text.to_string(),
    };
    assert_eq!(caption_text(&caption(Some("a"), "b")), "a");
    assert_eq!(caption_text(&caption(Some(" "), "b")), "b");
    assert_eq!(caption_text(&caption(None, "b")), "b");
    let card = |id: &str, own: Caption, inner: Option<Caption>| Card {
        href: Some(format!("/Home/Bangumi/{id}")),
        own,
        caption: inner,
    };
    let cards = vec![
        card("1", caption(Some("own"), ""), Some(caption(None, "inner"))),
        card("1", caption(Some("later"), ""), None),
        card("2", caption(Some("own"), ""), Some(caption(None, ""))),
        card("3", caption(Some(" own\u{7} "), ""), None),
        Card { href: None, own: caption(Some("own"), ""), caption: None },
    ];
    // An inner caption counts even where it is empty.
    assert_eq!(shows_from(&cards), vec![show("inner", 1), show("own", 3)]);
}

#[test]
fn a_group_is_named_by_its_publisher_first() {
    let block = |href: &str, publisher: Option<&str>, children: &[Option<&str>]| Block {
        feed_href: Some(href.to_string()),
        publisher: publisher.map(str::to_string),
        children: children.iter().map(|c| c.map(str::to_string)).collect(),
    };
    let blocks = vec![
        block("?subgroupid=1", Some("publisher"), &[Some("front")]),
        block("?subgroupid=2", None, &[Some(" a "), Some("b "), None, Some("hidden")]),
        block("?subgroupid=2", Some("again"), &[]),
        block("?subgroupid=3", Some(""), &[Some("front")]),
        block("?other=4", Some("no id"), &[]),
        Block { feed_href: None, publisher: Some("no feed".to_string()), children: vec![] },
    ];
    assert_eq!(groups_from(&blocks), vec![group("publisher", 1), group("a b", 2)]);
    assert_eq!(leading_text(&vec![Some(" a ".to_string()), None, Some("b".to_string())]), "a");
    assert_eq!(leading_text(&vec![None, Some("b".to_string())]), "");
}

#[test]
fn ids_are_read_from_links() {
    assert_eq!(show_id_from("/Home/Bangumi/3952#12"), Some(3952));
    assert_eq!(show_id_from("/Home/Bangumi/0003"), Some(3));
    assert_eq!(show_id_from("/Home/Bangumi/4294967295"), Some(u32::MAX));
    for href in ["", "/Home/Bangumi/", "/Home/Bangumi/+1", "/Home/Bangumi/4294967296", "Home/Bangumi/1"] {
        assert_eq!(show_id_from(href), None, "{href}");
    }
    assert_eq!(subgroupid_from("/RSS/Bangumi?bangumiId=1&subgroupid=597"), Some(597));
    assert_eq!(subgroupid_from("subgroupid=5&subgroupid=6"), Some(5));
    assert_eq!(subgroupid_from("subgroupid=5subgroupid=6"), Some(5));
    assert_eq!(subgroupid_from("subgroupid=+5"), Some(5));
    for href in ["", "subgroupid", "subgroupid=", "subgroupid=x", "subgroupid=4294967296"] {
        assert_eq!(subgroupid_from(href), None, "{href}");
    }
}

#[test]
fn addresses_are_of_the_site() {
    assert_eq!(search_url(), "https://mikanani.me/Home/Search");
    assert_eq!(bangumi_url(3950), "https://mikanani.me/Home/Bangumi/3950");
    assert_eq!(show("a", 1).label(), "a");
    assert_eq!(group("b", 1).label(), "b");
    assert_eq!(show("a", 1).duplicate(), show("a", 1));
    assert_eq!(group("b", 1).duplicate(), group("b", 1));
}
