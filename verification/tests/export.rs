use mikan::export::{url_list_body, url_list_filename};
use mikan::feed::Episode;

fn ep(title: &str, url: &str) -> Episode {
    Episode {
        title: title.to_string(),
        torrent_url: url.to_string(),
        size: None,
        pub_date: None,
    }
}

#[test]
fn writes_one_url_per_line_in_order() {
    let eps = vec![ep("A", "http://x/1.torrent"), ep("B", "http://x/2.torrent")];
    assert_eq!(url_list_filename("石纪元 科学与未来"), "石纪元 科学与未来.txt");
    assert_eq!(url_list_body(&eps), "http://x/1.torrent\nhttp://x/2.torrent\n");
    let lines: Vec<String> = url_list_body(&eps).lines().map(str::to_string).collect();
    assert_eq!(lines, ["http://x/1.torrent", "http://x/2.torrent"]);
    assert_eq!(url_list_body(&Vec::new()), "");
}

#[test]
fn sanitizes_channel_title_in_filename() {
    assert_eq!(url_list_filename("A / B: C"), "A ⁄ B_ C.txt");
}

#[test]
fn empty_title_falls_back_to_torrents() {
    assert_eq!(url_list_filename("..."), "torrents.txt");
}
