use ndnd::anilist::Anime;
use ndnd::nyaa::{chosen_link, item_titles, search_params, search_query, Channel, Item, Rss};

fn anime(name: &str, progress: u64) -> Anime {
    Anime { id: 1, name: String::from(name), progress, episodes: 24 }
}

fn feed() -> Rss {
    Rss {
        channel: Channel {
            items: vec![
                Item {
                    title: String::from("[Sub] Show - 04 (1080p)"),
                    link: String::from("https://nyaa.si/download/1.torrent"),
                    size: String::from("1.4 GiB"),
                },
                Item {
                    title: String::from("[Other] Show - 04 [1080p]"),
                    link: String::from("https://nyaa.si/download/2.torrent"),
                    size: String::from("700 MiB"),
                },
            ],
        },
    }
}

#[test]
fn search_pads_the_next_episode() {
    assert_eq!(search_query(&anime("Show", 3)), Some(String::from("Show 04 1080p")));
    assert_eq!(search_query(&anime("Show", 9)), Some(String::from("Show 10 1080p")));
    assert_eq!(search_query(&anime("Show", 99)), Some(String::from("Show 100 1080p")));
    assert_eq!(search_query(&anime("", 0)), Some(String::from(" 01 1080p")));
}

#[test]
fn search_past_the_last_number_is_refused() {
    assert_eq!(search_query(&anime("Show", u64::MAX)), None);
    assert!(search_params(&anime("Show", u64::MAX)).is_none());
}

#[test]
fn search_params_are_the_three_pairs() {
    let ps = search_params(&anime("Show", 3)).unwrap();
    let expect = vec![
        (String::from("q"), String::from("Show 04 1080p")),
        (String::from("c"), String::from("1_2")),
        (String::from("f"), String::from("0")),
    ];
    assert_eq!(ps, expect);
}

#[test]
fn titles_follow_the_feed() {
    let t = item_titles(&feed());
    assert_eq!(t, vec![String::from("[Sub] Show - 04 (1080p)"), String::from("[Other] Show - 04 [1080p]")]);
    assert!(item_titles(&Rss { channel: Channel { items: vec![] } }).is_empty());
}

#[test]
fn chosen_link_is_the_chosen_items() {
    assert_eq!(chosen_link(&feed(), Some(1)), Some(String::from("https://nyaa.si/download/2.torrent")));
    assert_eq!(chosen_link(&feed(), None), None);
}
