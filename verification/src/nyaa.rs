//! The nyaa side: the RSS feed searched for the next episode and the
//! choice of the torrent to fetch.

use vstd::prelude::*;

use crate::anilist::Anime;
use crate::text::{decimal_pad2, digits_value, law_decimal_pad2, push_char, push_decimal_pad2};

verus! {

broadcast use vstd::string::group_string_axioms;

/// The RSS search endpoint.
pub const SEARCH_URL: &'static str = "https://nyaa.si/?page=rss";

/// The category searched (anime, English-translated).
pub const CATEGORY: &'static str = "1_2";

/// The filter used (no filter).
pub const FILTER: &'static str = "0";

/// The quality asked for in every search.
pub const QUALITY: &'static str = " 1080p";

/// One search result.
#[derive(Clone, Debug)]
pub struct Item {
    pub title: String,
    pub link: String,
    pub size: String,
}

/// The channel of a feed; a feed without items has none.
#[derive(Clone, Debug)]
pub struct Channel {
    pub items: Vec<Item>,
}

/// A search result feed.
#[derive(Clone, Debug)]
pub struct Rss {
    pub channel: Channel,
}

/// `<name> <episode, two digits at least> 1080p`.
pub open spec fn search_text(name: Seq<char>, episode: nat) -> Seq<char> {
    name + seq![' '] + decimal_pad2(episode) + QUALITY@
}

/// The digits of the episode in a search text for `name`.
pub open spec fn episode_digits(text: Seq<char>, name: Seq<char>) -> Seq<char> {
    text.subrange(name.len() as int + 1, text.len() as int - 6)
}

/// A search text is the whole name, a space, the episode number in decimal
/// digits (at least two, a leading zero only below 10), and ` 1080p`.
pub proof fn law_search_text(name: Seq<char>, episode: nat)
    ensures
        search_text(name, episode).len() >= name.len() + 9,
        search_text(name, episode).subrange(0, name.len() as int) == name,
        search_text(name, episode)[name.len() as int] == ' ',
        search_text(name, episode).subrange(
            search_text(name, episode).len() - 6,
            search_text(name, episode).len() as int,
        ) == " 1080p"@,
        digits_value(episode_digits(search_text(name, episode), name)) == episode,
        episode_digits(search_text(name, episode), name).len() >= 2,
        forall|i: int|
            0 <= i < episode_digits(search_text(name, episode), name).len() ==> '0'
                <= #[trigger] episode_digits(search_text(name, episode), name)[i] <= '9',
        episode_digits(search_text(name, episode), name).len() > 2 ==> episode_digits(
            search_text(name, episode),
            name,
        )[0] != '0',
{
    reveal_strlit(" 1080p");
    law_decimal_pad2(episode);
    let d = decimal_pad2(episode);
    let t = search_text(name, episode);
    assert(t =~= name + seq![' '] + d + " 1080p"@);
    assert(t.subrange(0, name.len() as int) =~= name);
    assert(t.subrange(t.len() - 6, t.len() as int) =~= " 1080p"@);
    assert(episode_digits(t, name) =~= d);
}

/// The search for the episode after the last one watched; nothing when
/// the progress is `u64::MAX` (the next episode has no number).
pub fn search_query(anime: &Anime) -> (r: Option<String>)
    ensures
        r is Some <==> anime.progress < u64::MAX,
        r matches Some(q) ==> q@ == search_text(anime.name@, anime.progress as nat + 1),
{
    if anime.progress == u64::MAX {
        return None;
    }
    let mut q = anime.name.clone();
    push_char(&mut q, ' ');
    push_decimal_pad2(&mut q, anime.progress + 1);
    q.append(QUALITY);
    Some(q)
}

/// The query string pairs of a search: `q`, `c` and `f`.
pub fn search_params(anime: &Anime) -> (r: Option<Vec<(String, String)>>)
    ensures
        r is Some <==> anime.progress < u64::MAX,
        r matches Some(ps) ==> {
            &&& ps@.len() == 3
            &&& ps@[0].0@ == "q"@ && ps@[0].1@ == search_text(anime.name@, anime.progress as nat + 1)
            &&& ps@[1].0@ == "c"@ && ps@[1].1@ == CATEGORY@
            &&& ps@[2].0@ == "f"@ && ps@[2].1@ == FILTER@
        },
{
    let q = match search_query(anime) {
        Some(q) => q,
        None => return None,
    };
    let mut ps: Vec<(String, String)> = Vec::new();
    ps.push((String::from_str("q"), q));
    ps.push((String::from_str("c"), String::from_str(CATEGORY)));
    ps.push((String::from_str("f"), String::from_str(FILTER)));
    Some(ps)
}

/// The titles of the items, in feed order.
pub fn item_titles(rss: &Rss) -> (r: Vec<String>)
    ensures
        r@.len() == rss.channel.items@.len(),
        forall|i: int| 0 <= i < r@.len() ==> #[trigger] r@[i]@ == rss.channel.items@[i].title@,
{
    let items = &rss.channel.items;
    let mut r: Vec<String> = Vec::new();
    let mut i: usize = 0;
    while i < items.len()
        invariant
            i <= items@.len(),
            r@.len() == i,
            forall|j: int| 0 <= j < i ==> #[trigger] r@[j]@ == items@[j].title@,
        decreases items.len() - i,
    {
        r.push(items[i].title.clone());
        i += 1;
    }
    r
}

/// The link of the chosen item, if one was chosen.
pub fn chosen_link(rss: &Rss, choice: Option<usize>) -> (r: Option<String>)
    requires
        choice matches Some(i) ==> i < rss.channel.items@.len(),
    ensures
        r is Some <==> choice is Some,
        r matches Some(l) ==> l@ == rss.channel.items@[choice->0 as int].link@,
{
    match choice {
        Some(i) => Some(rss.channel.items[i].link.clone()),
        None => None,
    }
}

} // verus!
