use mikan::feed::{append_text, parse_feed, resolve_reference, Episode, Feed, FeedParser};
use mikan::xml::{local_name, tag_name, XmlEvent, XmlKind};

/// A feed of twenty-six episodes, the newest first.
fn fixture() -> String {
    let mut xml = String::from(
        "<?xml version=\"1.0\" encoding=\"utf-8\"?><rss version=\"2.0\"><channel>\
         <title>Mikan Project - 石纪元 科学与未来 第3部分</title>\
         <link>http://mikanani.me/RSS/Bangumi?bangumiId=3950&amp;subgroupid=597</link>\
         <description>Mikan Project - 石纪元 科学与未来 第3部分</description>",
    );
    for i in 0..26 {
        let (title, name, size, date) = if i == 0 {
            (
                "[猎户压制部] 新石纪 第四季 科学与未来 / Dr.STONE：Science Future [37] [1080p] [繁日内嵌] [2026年4月番]".to_string(),
                "20260628/b66771fd95710ab32a19a4797994196780c94527".to_string(),
                875560960,
                "2026-06-28T23:10:00".to_string(),
            )
        } else {
            let day = 27 - i;
            (
                format!("[猎户压制部] 新石纪 [{}]", 37 - i),
                format!("202606{day:02}/{i}"),
                i,
                format!("2026-06-{day:02}T23:10:00"),
            )
        };
        xml += &format!(
            "<item><guid isPermaLink=\"false\">{title}</guid>\
             <link>https://mikanani.me/Home/Episode/{i}</link><title>{title}</title>\
             <description>{title}[835MB]</description>\
             <torrent xmlns=\"https://mikanani.me/0.1/\"><link>https://mikanani.me/Home/Episode/{i}</link>\
             <contentLength>{size}</contentLength><pubDate>{date}</pubDate></torrent>\
             <enclosure type=\"application/x-bittorrent\" length=\"{size}\" \
             url=\"https://mikanani.me/Download/{name}.torrent\" /></item>"
        );
    }
    xml + "</channel></rss>"
}

#[test]
fn parses_real_feed() {
    let feed = parse_feed(&fixture()).unwrap();
    assert_eq!(feed.channel_title, "Mikan Project - 石纪元 科学与未来 第3部分");
    assert_eq!(feed.episodes.len(), 26);

    let first = &feed.episodes[0];
    assert_eq!(
        first.title,
        "[猎户压制部] 新石纪 第四季 科学与未来 / Dr.STONE：Science Future [37] [1080p] [繁日内嵌] [2026年4月番]"
    );
    assert_eq!(
        first.torrent_url,
        "https://mikanani.me/Download/20260628/b66771fd95710ab32a19a4797994196780c94527.torrent"
    );
    assert_eq!(first.size, Some(875560960));
    assert_eq!(first.pub_date.as_deref(), Some("2026-06-28T23:10:00"));
}

#[test]
fn every_episode_has_url_and_date() {
    let feed = parse_feed(&fixture()).unwrap();
    assert!(feed.episodes.iter().all(|e| !e.torrent_url.is_empty()));
    assert!(feed.episodes.iter().all(|e| e.pub_date.is_some()));
}

#[test]
fn well_formed_non_feed_xml_yields_zero_episodes() {
    let feed = parse_feed("<rss><channel><title>t</title></channel></rss>").unwrap();
    assert_eq!(feed.channel_title, "t");
    assert!(feed.episodes.is_empty());
}

#[test]
fn ill_formed_xml_is_an_error() {
    assert!(parse_feed("<rss><channel></chanel></rss>").is_err());
}

#[test]
fn item_without_enclosure_is_dropped() {
    let xml = r#"<rss><channel><title>t</title>
            <item><title>no enclosure</title></item>
            <item><title>good</title><enclosure url="http://x/a.torrent" length="10"/></item>
        </channel></rss>"#;
    let feed = parse_feed(xml).unwrap();
    assert_eq!(feed.episodes.len(), 1);
    assert_eq!(feed.episodes[0].title, "good");
}

#[test]
fn resolves_entity_and_char_refs_in_titles() {
    let xml = r#"<rss><channel><title>A &amp; B</title>
            <item><title>Fate &amp; Prisma &#38; Illya</title><enclosure url="http://x/a.torrent" length="10"/></item>
        </channel></rss>"#;
    let feed = parse_feed(xml).unwrap();
    assert_eq!(feed.channel_title, "A & B");
    assert_eq!(feed.episodes[0].title, "Fate & Prisma & Illya");
}

#[test]
fn strips_control_chars_from_remote_strings() {
    let xml = "<rss><channel><title>A\u{1b}]0;pwned\u{7}B</title>\
            <item><title>bad\rtitle</title><enclosure url=\"http://x/a.torrent\" length=\"1\"/></item>\
            </channel></rss>";
    let feed = parse_feed(xml).unwrap();
    assert_eq!(feed.channel_title, "A]0;pwnedB");
    assert_eq!(feed.episodes[0].title, "badtitle");
}

#[test]
fn strips_bidi_and_zero_width_from_remote_strings() {
    // A RIGHT-TO-LEFT OVERRIDE could reorder the displayed title in the
    // picker; a zero-width space could hide a boundary. Neither survives.
    let xml = "<rss><channel><title>ok</title>\
            <item><title>good\u{202e}evil\u{200b}!</title>\
            <enclosure url=\"http://x/a.torrent\" length=\"1\"/></item>\
            </channel></rss>";
    let feed = parse_feed(xml).unwrap();
    assert_eq!(feed.episodes[0].title, "goodevil!");
}

#[test]
fn parses_cdata_titles() {
    let xml = r#"<rss><channel><title><![CDATA[A & B]]></title>
            <item><title><![CDATA[Ep [01] <final>]]></title><enclosure url="http://x/a.torrent" length="1"/></item>
        </channel></rss>"#;
    let feed = parse_feed(xml).unwrap();
    assert_eq!(feed.channel_title, "A & B");
    assert_eq!(feed.episodes[0].title, "Ep [01] <final>");
}

#[test]
fn item_without_title_is_dropped() {
    let xml = r#"<rss><channel><title>t</title>
            <item><enclosure url="http://x/a.torrent" length="1"/></item>
            <item><title>good</title><enclosure url="http://x/b.torrent" length="1"/></item>
        </channel></rss>"#;
    let feed = parse_feed(xml).unwrap();
    assert_eq!(feed.episodes.len(), 1);
    assert_eq!(feed.episodes[0].title, "good");
}

#[test]
fn strips_control_chars_from_enclosure_urls() {
    let xml = r#"<rss><channel><title>t</title>
            <item><title>ep</title><enclosure url="http://x/a.torrent&#10;http://evil/b.torrent" length="1"/></item>
        </channel></rss>"#;
    let feed = parse_feed(xml).unwrap();
    assert_eq!(feed.episodes[0].torrent_url, "http://x/a.torrenthttp://evil/b.torrent");
}

#[test]
fn reads_the_size_and_the_date_of_the_torrent() {
    let xml = r#"<?xml version="1.0" encoding="utf-8"?>
        <rss version="2.0"><channel><title> Mikan Project - 石纪元 </title><link>http://x</link>
        <item><guid isPermaLink="false">g</guid><link>http://x/e</link><title>[组] 标题 [37]</title>
        <description>d</description>
        <torrent xmlns="https://mikanani.me/0.1/"><link>http://x/e</link>
        <contentLength>875560960</contentLength><pubDate> 2026-06-28T23:10:00 </pubDate></torrent>
        <enclosure type="application/x-bittorrent" length="875560960" url="http://x/a.torrent?k=1&amp;l=2"/>
        <pubDate>not below a torrent</pubDate></item></channel></rss>"#;
    let feed = parse_feed(xml).unwrap();
    assert_eq!(feed.channel_title, "Mikan Project - 石纪元");
    assert_eq!(feed.episodes.len(), 1);
    let first = &feed.episodes[0];
    assert_eq!(first.title, "[组] 标题 [37]");
    assert_eq!(first.torrent_url, "http://x/a.torrent?k=1&l=2");
    assert_eq!(first.size, Some(875560960));
    assert_eq!(first.pub_date.as_deref(), Some("2026-06-28T23:10:00"));
}

#[test]
fn odd_enclosures_give_what_they_can() {
    let item = |enclosure: &str| {
        let xml = format!(
            "<rss><channel><item><title>t</title>{enclosure}</item></channel></rss>"
        );
        parse_feed(&xml).unwrap().episodes
    };
    // A prefix does not matter, a size that is no number is unknown, and an
    // attribute without a value is passed over.
    let e = item(r#"<m:enclosure m:url="http://x/a" length="big"/>"#);
    assert_eq!((e[0].torrent_url.as_str(), e[0].size), ("http://x/a", None));
    let e = item(r#"<enclosure length="18446744073709551616" url="http://x/a"/>"#);
    assert_eq!(e[0].size, None);
    let e = item(r#"<enclosure url="http://x/a" length="1" checked/>"#);
    assert_eq!(e[0].size, Some(1));
    // An enclosure with an end tag, or outside of an item, says nothing.
    assert!(item(r#"<enclosure url="http://x/a" length="1"></enclosure>"#).is_empty());
    let xml = r#"<rss><enclosure url="http://x/a" length="1"/></rss>"#;
    assert!(parse_feed(xml).unwrap().episodes.is_empty());
    // A reference that means nothing makes the whole value empty.
    assert!(item(r#"<enclosure url="http://x/&nope;" length="1"/>"#).is_empty());
}

#[test]
fn addresses_are_read_as_they_are_meant() {
    let url = |raw: &str| {
        let xml = format!(
            "<rss><item><title>t</title><enclosure url=\"{raw}\"/></item></rss>"
        );
        parse_feed(&xml).unwrap().episodes.pop().map(|e| e.torrent_url)
    };
    for (raw, meant) in [
        ("http://x/?a=1&amp;b=2", "http://x/?a=1&b=2"),
        ("&lt;&gt;&apos;&quot;&amp;", "<>'\"&"),
        ("&amp;amp;", "&amp;"),
        ("a&#38;b&#x26;c&#x77F3;", "a&b&c石"),
        ("a\tb\nc\rd\r\ne\n\rf", "a b c d e  f"),
        ("a;b 石'c", "a;b 石'c"),
        ("a&#9;b&#13;c", "abc"),
    ] {
        assert_eq!(url(raw).as_deref(), Some(meant), "{raw:?}");
    }
    for raw in ["", "a&b", "a&amp", "&nope;", "&;", "&#;", "&#0;", "&#xd800;", "&#+38;", "& amp;", "&amp;&"] {
        assert_eq!(url(raw), None, "{raw:?}");
    }
}

#[test]
fn a_blank_date_is_none() {
    let xml = "<rss><channel><item><title>t</title><torrent><pubDate>  </pubDate></torrent>\
               <enclosure url=\"http://x/a\"/></item></channel></rss>";
    let feed = parse_feed(xml).unwrap();
    assert_eq!(feed.episodes[0].pub_date, None);
    assert_eq!(feed.episodes[0].size, None);
}

#[test]
fn references_stand_for_characters() {
    for (name, text) in [
        ("amp", "&"), ("lt", "<"), ("gt", ">"), ("apos", "'"), ("quot", "\""), ("nope", ""),
        ("#38", "&"), ("#x26", "&"), ("#x77F3", "石"), ("#0", ""), ("#xd800", ""), ("#x110000", ""),
        ("#", ""), ("#x", ""), ("#zz", ""), ("#X26", ""), ("", ""), ("AMP", ""),
    ] {
        assert_eq!(resolve_reference(name), text, "&{name};");
    }
}

#[test]
fn names_lose_their_prefix() {
    assert_eq!(tag_name("a:b c=\"d\""), "a:b");
    assert_eq!(tag_name("item"), "item");
    assert_eq!(local_name("a:b"), "b");
    assert_eq!(local_name("b"), "b");
    assert_eq!(local_name("a:b:c"), "b:c");
}

#[test]
fn text_in_parts_is_the_whole() {
    let path: Vec<String> = ["rss", "channel", "title"].map(str::to_string).to_vec();
    let mut feed = Feed::default();
    let mut current: Option<Episode> = None;
    append_text(&path, &mut feed, &mut current, "A\r\n");
    append_text(&path, &mut feed, &mut current, "\u{200b}B");
    assert_eq!(feed.channel_title, "AB");
    // Elsewhere a title belongs to an item, and without one to nothing.
    let elsewhere: Vec<String> = ["rss", "channel", "item", "title"].map(str::to_string).to_vec();
    append_text(&elsewhere, &mut feed, &mut current, "C");
    assert_eq!(feed.channel_title, "AB");
    assert!(current.is_none());
    current = Some(Episode::default());
    append_text(&elsewhere, &mut feed, &mut current, "C");
    assert_eq!(current.as_ref().unwrap().title, "C");
}

#[test]
fn events_are_taken_one_by_one() {
    let mut parser = FeedParser::new();
    let event = |kind, content: &str| XmlEvent { kind, content: content.to_string() };
    for e in [
        event(XmlKind::Start, "item"),
        event(XmlKind::Start, "x:title lang=\"zh\""),
        event(XmlKind::Text, " A "),
        event(XmlKind::GeneralRef, "amp"),
        event(XmlKind::CData, " <B> "),
        event(XmlKind::Other, "ignored"),
        event(XmlKind::End, "x:title"),
        event(XmlKind::Empty, "enclosure url='http://x/a' length='7'"),
        event(XmlKind::End, "item"),
        event(XmlKind::End, "nothing is open"),
        event(XmlKind::Eof, ""),
    ] {
        parser.apply(&e);
    }
    assert!(parser.path.is_empty());
    assert!(parser.current.is_none());
    assert_eq!(parser.feed.episodes.len(), 1);
    assert_eq!(parser.feed.episodes[0].title, "A & <B>");
    assert_eq!(parser.feed.episodes[0].size, Some(7));
}

#[test]
fn an_item_may_hold_anything_else() {
    // The parts of an item come in any order and any number, and what is none of
    // them leaves no trace. A line break behind the last tag changes nothing.
    let xml = "<rss><channel><title>c</title><item>stray<enclosure url=\"http://x/1\" length=\"1\"/>\
               <guid>g</guid><description><b>title</b></description>\
               <torrent><link>l</link><pubDate>2026</pubDate><pubDate>-06</pubDate></torrent>\
               <title>A</title><author><title>B</title></author>\
               <enclosure url=\"http://x/2\" type=\"t\"/></item></channel></rss>\n";
    let feed = parse_feed(xml).unwrap();
    assert_eq!(feed.channel_title, "c");
    assert_eq!(feed.episodes.len(), 1);
    let e = &feed.episodes[0];
    assert_eq!((e.title.as_str(), e.torrent_url.as_str(), e.size), ("AB", "http://x/2", Some(1)));
    assert_eq!(e.pub_date.as_deref(), Some("2026-06"));
    assert_eq!(parse_feed("a").unwrap().episodes.len(), 0);
}

#[test]
fn an_error_tells_its_cause() {
    let e = parse_feed("<a></b>").unwrap_err();
    assert!(e.message().starts_with("解析订阅 XML: "), "{}", e.message());
    assert!(e.message().len() > "解析订阅 XML: ".len());
    // An error ends the reading wherever it stands; what came before is not kept.
    assert!(parse_feed("<rss><channel><title>t</title></channel></rss><!").is_err());
    assert!(parse_feed("").unwrap().episodes.is_empty());
}
