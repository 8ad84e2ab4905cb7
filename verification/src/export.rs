//! The list of torrent URLs that an export writes.
use crate::feed;
use crate::feed::{Episode, EpisodeView};
use crate::sanitize;
use crate::sanitize::sanitize_stem;
use crate::text;
use crate::text::concat;
use vstd::prelude::*;

verus! {

/// The stem of the list's name: from the channel's title, else `torrents`.
pub open spec fn list_stem(channel_title: Seq<char>) -> Seq<char> {
    if sanitize::stem(channel_title).len() > 0 {
        sanitize::stem(channel_title)
    } else {
        "torrents"@
    }
}

/// The name of the file that the list of a channel goes to.
pub fn url_list_filename(channel_title: &str) -> (s: String)
    ensures
        s@ == list_stem(channel_title@) + ".txt"@,
{
    let stem = sanitize_stem(channel_title);
    if stem.as_str().is_empty() {
        concat("torrents", ".txt")
    } else {
        concat(&stem, ".txt")
    }
}

/// The torrent URLs of episodes.
pub open spec fn urls(episodes: Seq<EpisodeView>) -> Seq<Seq<char>> {
    episodes.map_values(|e: EpisodeView| e.torrent_url)
}

/// Each text followed by a line feed.
pub open spec fn on_lines(texts: Seq<Seq<char>>) -> Seq<char>
    decreases texts.len(),
{
    if texts.len() == 0 {
        Seq::empty()
    } else {
        on_lines(texts.drop_last()) + texts.last() + seq!['\n']
    }
}

/// The contents of the list: the URL of each episode on a line of its own.
pub fn url_list_body(episodes: &Vec<Episode>) -> (s: String)
    ensures
        s@ == on_lines(urls(feed::views(episodes@))),
{
    let mut out = String::new();
    let mut i: usize = 0;
    let ghost all = urls(feed::views(episodes@));
    while i < episodes.len()
        invariant
            i <= episodes@.len(),
            all == urls(feed::views(episodes@)),
            out@ == on_lines(all.take(i as int)),
        decreases episodes@.len() - i,
    {
        proof {
            assert(all.take(i + 1).drop_last() == all.take(i as int));
            assert(all.take(i + 1).last() == episodes@[i as int].torrent_url@);
        }
        out.append(&episodes[i].torrent_url);
        let ghost before = out@;
        out.push('\n');
        proof {
            assert(out@ == before + seq!['\n']);
        }
        i = i + 1;
    }
    proof {
        assert(all.take(all.len() as int) == all);
    }
    out
}

// ---------------------------------------------------------------------------
// Laws

/// The lines of a text, each of which ends in a line feed.
pub open spec fn lines_of(s: Seq<char>) -> Seq<Seq<char>>
    decreases s.len(),
{
    if s.len() == 0 {
        Seq::empty()
    } else if s.last() != '\n' {
        lines_of(s.drop_last())
    } else {
        let body = s.drop_last();
        let line = text::after_last_char(body, '\n');
        if line.len() <= body.len() {
            lines_of(body.take(body.len() - line.len())).push(line)
        } else {
            Seq::empty()
        }
    }
}

/// `s` holds no line feed.
pub open spec fn one_line(s: Seq<char>) -> bool {
    forall|i: int| 0 <= i < s.len() ==> #[trigger] s[i] != '\n'
}

proof fn lemma_last_line(front: Seq<char>, line: Seq<char>)
    requires
        one_line(line),
        front.len() > 0 ==> front.last() == '\n',
    ensures
        text::after_last_char(front + line, '\n') == line,
    decreases line.len(),
{
    let s = front + line;
    if line.len() == 0 {
        assert(s == front);
        assert(line == Seq::<char>::empty());
    } else {
        assert(line[line.len() - 1] != '\n');
        assert(s.drop_last() == front + line.drop_last());
        assert forall|i: int| 0 <= i < line.drop_last().len() implies #[trigger] line.drop_last()[i]
            != '\n' by {
            assert(line[i] == line.drop_last()[i]);
        }
        lemma_last_line(front, line.drop_last());
        assert(line.drop_last().push(line.last()) == line);
    }
}

/// Reading the list by lines gives the URLs back, in order, wherever none of
/// them holds a line feed. Those of a feed do not.
pub proof fn law_a_list_reads_back(texts: Seq<Seq<char>>)
    requires
        forall|i: int| 0 <= i < texts.len() ==> one_line(#[trigger] texts[i]),
    ensures
        lines_of(on_lines(texts)) == texts,
        texts.len() > 0 ==> on_lines(texts).len() > 0 && on_lines(texts).last() == '\n',
    decreases texts.len(),
{
    if texts.len() > 0 {
        let before = texts.drop_last();
        assert forall|i: int| 0 <= i < before.len() implies one_line(#[trigger] before[i]) by {
            assert(before[i] == texts[i]);
        }
        law_a_list_reads_back(before);
        let front = on_lines(before);
        let line = texts.last();
        let s = on_lines(texts);
        assert(one_line(texts[texts.len() - 1]));
        assert(s.drop_last() == front + line);
        if before.len() == 0 {
            assert(front == Seq::<char>::empty());
        }
        lemma_last_line(front, line);
        assert((front + line).take((front + line).len() - line.len()) == front);
        assert(before.push(line) == texts);
    }
}

/// A text that is safe to print holds no line feed: the list of a feed has
/// exactly one line for each of its episodes.
pub proof fn law_safe_urls_take_one_line(url: Seq<char>)
    requires
        sanitize::safe_to_print(url),
    ensures
        one_line(url),
{
    assert forall|i: int| 0 <= i < url.len() implies #[trigger] url[i] != '\n' by {
        assert(!sanitize::unsafe_display(url[i]));
    }
}

/// The name of a list never holds a path separator, and is never `.txt` alone.
pub proof fn law_list_name_is_safe(channel_title: Seq<char>)
    ensures
        list_stem(channel_title).len() > 0,
        sanitize::safe_for_file(list_stem(channel_title) + ".txt"@),
{
    sanitize::law_stem_is_safe(channel_title);
    reveal_strlit("torrents");
    reveal_strlit(".txt");
    let stem = list_stem(channel_title);
    let name = stem + ".txt"@;
    assert(sanitize::safe_for_file("torrents"@));
    assert(sanitize::safe_for_file(".txt"@));
    assert forall|i: int| 0 <= i < name.len() implies sanitize::file_safe(#[trigger] name[i]) by {
        if i < stem.len() {
            assert(name[i] == stem[i]);
        } else {
            assert(name[i] == ".txt"@[i - stem.len()]);
        }
    }
}

/// A list goes on line by line: that of two parts is the one after the other, and
/// that of one text is the text with a line feed.
pub proof fn law_every_text_has_its_line(a: Seq<Seq<char>>, b: Seq<Seq<char>>)
    ensures
        on_lines(a + b) == on_lines(a) + on_lines(b),
        on_lines(Seq::empty()) == Seq::<char>::empty(),
        a.len() == 1 ==> on_lines(a) == a[0] + seq!['\n'],
    decreases b.len(),
{
    if b.len() == 0 {
        assert(a + b == a);
        assert(b == Seq::<Seq<char>>::empty());
        assert(on_lines(a) + Seq::<char>::empty() == on_lines(a));
    } else {
        law_every_text_has_its_line(a, b.drop_last());
        assert((a + b).drop_last() == a + b.drop_last());
        assert(on_lines(a) + on_lines(b) == on_lines(a) + on_lines(b.drop_last()) + b.last()
            + seq!['\n']);
    }
    if a.len() == 1 {
        assert(a.drop_last() == Seq::<Seq<char>>::empty());
        reveal_with_fuel(on_lines, 2);
        assert(Seq::<char>::empty() + a[0] == a[0]);
    }
}

/// The URLs of a list are those of the episodes, all of them and in order.
pub proof fn law_every_episode_is_in_the_list(episodes: Seq<EpisodeView>, i: int)
    ensures
        urls(episodes).len() == episodes.len(),
        0 <= i < episodes.len() ==> urls(episodes)[i] == episodes[i].torrent_url,
{
}

/// The name of a list has the whole stem of the channel's title, so that two
/// channels with other stems have other lists.
pub proof fn law_other_channels_have_other_lists(one: Seq<char>, other: Seq<char>)
    ensures
        sanitize::stem(one).len() > 0 ==> list_stem(one) == sanitize::stem(one),
        sanitize::stem(one).len() == 0 ==> list_stem(one) == "torrents"@,
        sanitize::stem(one).len() > 0 && sanitize::stem(other).len() > 0 && sanitize::stem(one)
            != sanitize::stem(other) ==> list_stem(one) + ".txt"@ != list_stem(other) + ".txt"@,
{
    let x = list_stem(one) + ".txt"@;
    let y = list_stem(other) + ".txt"@;
    assert(x.len() == list_stem(one).len() + ".txt"@.len());
    assert(y.len() == list_stem(other).len() + ".txt"@.len());
    if x == y {
        assert(list_stem(one).len() == list_stem(other).len());
        assert(x.take(list_stem(one).len() as int) == list_stem(one));
        assert(y.take(list_stem(other).len() as int) == list_stem(other));
    }
}

}
