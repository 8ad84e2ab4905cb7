use mikan::display::{
    counter_tag, episode_selection_summary, first_bytes, fmt_size, nothing, progress, said,
    warned, Line, Row,
};
use mikan::feed::Episode;

fn ep(title: &str, date: Option<&str>) -> Episode {
    Episode {
        title: title.to_string(),
        torrent_url: "http://x/a.torrent".to_string(),
        size: Some(875_560_960),
        pub_date: date.map(str::to_string),
    }
}

#[test]
fn fmt_size_mib_and_gib() {
    assert_eq!(fmt_size(875_560_960), "835.0 MiB");
    assert_eq!(fmt_size(2_147_483_648), "2.00 GiB");
}

#[test]
fn row_shows_title_size_and_date() {
    let row = Row(ep("[组] 标题 [37]", Some("2026-06-28T23:10:00")));
    assert_eq!(row.label(), "[组] 标题 [37]  (835.0 MiB, 2026-06-28)");
}

#[test]
fn row_handles_missing_size_and_date() {
    let mut episode = ep("t", None);
    episode.size = None;
    assert_eq!(Row(episode).label(), "t  (?, ?)");
}

#[test]
fn episode_summary_lists_titles_with_total_size() {
    // Two rows of 835.0 MiB each → 1.63 GiB total.
    let rows = [Row(ep("Anime - 01", None)), Row(ep("Anime - 02", None))];
    let summary = episode_selection_summary(&rows.iter().collect());
    assert!(summary.contains("2 集 · 1.63 GiB"), "was: {summary}");
    assert!(summary.contains("\n  • Anime - 01"), "was: {summary}");
    assert!(summary.contains("\n  • Anime - 02"), "was: {summary}");
    assert_eq!(summary, "\n2 集 · 1.63 GiB\n  • Anime - 01\n  • Anime - 02");
}

#[test]
fn episode_summary_has_no_plural_form_and_omits_unknown_size() {
    let mut episode = ep("Solo", None);
    episode.size = None;
    let row = Row(episode);
    let summary = episode_selection_summary(&vec![&row]);
    assert!(summary.contains("1 集"), "was: {summary}");
    assert!(!summary.contains('·'), "no size divider when unknown: {summary}");
    assert_eq!(episode_selection_summary(&Vec::new()), "\n0 集");
}

#[test]
fn row_survives_multibyte_pub_date() {
    // byte 10 falls inside a multibyte char — must not panic
    let row = Row(ep("t", Some("2026年06月28日")));
    assert_eq!(row.label(), "t  (835.0 MiB, ?)");
}

#[test]
fn sizes_are_those_of_floating_point() {
    let expected = |bytes: u64| {
        let gib = (1u64 << 30) as f64;
        let mib = (1u64 << 20) as f64;
        let bytes = bytes as f64;
        if bytes >= gib {
            format!("{:.2} GiB", bytes / gib)
        } else {
            format!("{:.1} MiB", bytes / mib)
        }
    };
    let mut sizes = vec![0, 1, u64::MAX, u64::MAX - 1, u64::MAX - 1024, u64::MAX - 1025];
    for shift in 0..64 {
        for around in -3i64..=3 {
            sizes.push((1u64 << shift).wrapping_add_signed(around));
        }
    }
    // Halfway between two decimals: 0.05 and 0.15 MiB, 1.125 and 1.135 GiB.
    for k in 0..200u64 {
        sizes.push(k * 52_429);
        sizes.push(k * 262_144);
        sizes.push((1 << 30) + k * (1 << 30) / 200);
        sizes.push((1 << 30) + k * (1 << 27));
    }
    // Numbers with more than 53 significant bits.
    let mut x: u64 = 0x9e37_79b9_7f4a_7c15;
    for _ in 0..2000 {
        x ^= x << 13;
        x ^= x >> 7;
        x ^= x << 17;
        sizes.push(x);
        sizes.push(x >> 11);
        sizes.push(x >> 32);
        sizes.push((x >> 10 << 10) | 0x200);
        sizes.push((x | 1 << 63) & !0x7ff | 0x400);
    }
    for bytes in sizes {
        assert_eq!(fmt_size(bytes), expected(bytes), "{bytes}");
    }
}

#[test]
fn bytes_in_front_are_those_of_std() {
    for s in ["", "2026", "2026-06-28", "2026-06-28T", "2026年06月28日", "石纪元石纪元", "aé石😀b"] {
        for n in 0..20 {
            assert_eq!(first_bytes(s, n).as_deref(), s.get(..n), "{s:?} {n}");
        }
    }
}

#[test]
fn progress_stands_in_columns() {
    assert_eq!(counter_tag(0, 12), "[ 1/12]");
    assert_eq!(counter_tag(11, 12), "[12/12]");
    assert_eq!(counter_tag(8, 9), "[9/9]");
    assert_eq!(progress("[1/2]", "已下载", "/x"), format!("[1/2] {:<16} /x", "已下载"));
    assert_eq!(
        progress("[1/2]", "已添加到 qBittorrent", "x.torrent"),
        "[1/2] 已添加到 qBittorrent x.torrent"
    );
}

#[test]
fn lines_go_where_they_belong() {
    assert!(nothing().is_empty());
    assert!(matches!(&said("a".to_string())[..], [Line::Out(t)] if t == "a"));
    assert!(matches!(&warned("b".to_string())[..], [Line::Warning(t)] if t == "b"));
}
