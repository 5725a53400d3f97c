use rssbot::feed::{sort_by_link, sort_by_title_pinyin, Feed};

fn feed(title: &str, link: &str) -> Feed {
    Feed { title: title.to_string(), link: link.to_string() }
}

fn pairs(feeds: &[Feed]) -> Vec<(String, String)> {
    feeds.iter().map(|f| (f.title.clone(), f.link.clone())).collect()
}

#[test]
fn sort_by_link_orders_links_stably() {
    let feeds = vec![
        feed("b", "https://b.example/rss"),
        feed("first a", "https://a.example/rss"),
        feed("z", "http://z.example/rss"),
        feed("second a", "https://a.example/rss"),
    ];
    let sorted = sort_by_link(feeds);
    assert_eq!(
        pairs(&sorted),
        vec![
            ("z".to_string(), "http://z.example/rss".to_string()),
            ("first a".to_string(), "https://a.example/rss".to_string()),
            ("second a".to_string(), "https://a.example/rss".to_string()),
            ("b".to_string(), "https://b.example/rss".to_string()),
        ]
    );
}

#[test]
fn sort_by_link_agrees_with_string_order() {
    let links = ["b", "a", "ab", "", "é", "z", "aa", "a", "中", "Z"];
    let feeds: Vec<Feed> = links.iter().enumerate().map(|(i, l)| feed(&i.to_string(), l)).collect();
    let mut expected = pairs(&feeds);
    expected.sort_by(|a, b| a.1.cmp(&b.1));
    assert_eq!(pairs(&sort_by_link(feeds)), expected);
}

#[test]
fn sort_by_title_pinyin_agrees_with_pinyin_order() {
    let titles = ["中文", "中国", "abc", "重工", "abc中文", "！", "中", "z", "", "abc", "新闻", "Rust"];
    let feeds: Vec<Feed> = titles.iter().enumerate().map(|(i, t)| feed(t, &i.to_string())).collect();
    let mut expected = pairs(&feeds);
    expected.sort_by(|a, b| {
        Ord::cmp(&pinyin_order::as_pinyin(&a.0), &pinyin_order::as_pinyin(&b.0))
    });
    assert_eq!(pairs(&sort_by_title_pinyin(feeds)), expected);
}

#[test]
fn chinese_titles_come_after_other_titles() {
    // '！' (U+FF01) has a larger code point than '中' (U+4E2D), but has no
    // pinyin reading, so it sorts first.
    let feeds = vec![feed("中", "1"), feed("！", "2")];
    let sorted = sort_by_title_pinyin(feeds);
    assert_eq!(sorted[0].title, "！");
    assert_eq!(sorted[1].title, "中");
}

#[test]
fn chinese_titles_in_pinyin_order() {
    // 新 (xin) has a larger code point than 中 (zhong), but its reading
    // comes first.
    let feeds = vec![feed("中", "1"), feed("新", "2")];
    let sorted = sort_by_title_pinyin(feeds);
    assert_eq!(sorted[0].title, "新");
    assert_eq!(sorted[1].title, "中");
}

#[test]
fn crate_example_order() {
    let titles = ["中文", "中国", "abc", "重工", "abc中文"];
    let feeds: Vec<Feed> = titles.iter().map(|t| feed(t, "")).collect();
    let sorted: Vec<String> = sort_by_title_pinyin(feeds).into_iter().map(|f| f.title).collect();
    assert_eq!(sorted, vec!["abc", "abc中文", "中国", "中文", "重工"]);
}

#[test]
fn sorting_a_sorted_list_keeps_it() {
    let feeds = vec![feed("b", "3"), feed("a", "1"), feed("c", "2"), feed("a", "0")];
    let once = sort_by_link(feeds);
    let again = sort_by_link(once.iter().map(|f| feed(&f.title, &f.link)).collect());
    assert_eq!(pairs(&once), pairs(&again));
    let once = sort_by_title_pinyin(once);
    let again = sort_by_title_pinyin(once.iter().map(|f| feed(&f.title, &f.link)).collect());
    assert_eq!(pairs(&once), pairs(&again));
    assert_eq!(
        once.iter().map(|f| f.link.as_str()).collect::<Vec<_>>(),
        vec!["0", "1", "3", "2"]
    );
}
