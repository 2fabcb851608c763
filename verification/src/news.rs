//! The latest news, read from the articles of the front page.
use vstd::prelude::*;
use crate::html::{
    element_view, groups_view, select_texts, select_within, selected_texts, selected_within,
    texts_view, Element,
};
use crate::text::{chars_of, push_all, replace_char, replace_char_exec, string_from, trim, trim_exec};

verus! {

/// At most this many articles are read from a page.
pub const NEWS_LIMIT: usize = 17;

/// News entries as plain values: the text shown and the link.
pub open spec fn news_view(v: Seq<(String, String)>) -> Seq<(Seq<char>, Seq<char>)> {
    v.map_values(|p: (String, String)| (p.0@, p.1@))
}

/// The text of the `k`-th element of a group, or nothing when there is none.
pub open spec fn nth_text(group: Seq<(Seq<char>, Option<Seq<char>>)>, k: int) -> Seq<char> {
    if 0 <= k < group.len() {
        group[k].0
    } else {
        Seq::empty()
    }
}

/// The body of the `i`-th article: the trimmed text of the `i`-th content block with each
/// no-break space made a plain space, or `...` when there is no such block.
pub open spec fn article_body(contents: Seq<Seq<char>>, i: int) -> Seq<char> {
    if 0 <= i < contents.len() {
        replace_char(trim(contents[i]), '\u{A0}', ' ')
    } else {
        "..."@
    }
}

/// The text shown for an article: `[date] title`, a line break, then the body, each trimmed.
pub open spec fn article_text(title: Seq<char>, date: Seq<char>, body: Seq<char>) -> Seq<char> {
    "["@ + trim(date) + "] "@ + trim(title) + "\n"@ + trim(body)
}

/// The entry for the `i`-th article: none when its title (its first paragraph) is blank;
/// its date is its second paragraph; its link is `#`.
pub open spec fn article_entry(
    titles: Seq<Seq<(Seq<char>, Option<Seq<char>>)>>,
    contents: Seq<Seq<char>>,
    i: int,
) -> Seq<(Seq<char>, Seq<char>)> {
    let title = nth_text(titles[i], 0);
    let date = nth_text(titles[i], 1);
    if trim(title).len() == 0 {
        Seq::empty()
    } else {
        seq![(article_text(title, date, article_body(contents, i)), "#"@)]
    }
}

/// The entries of the first `n` articles, in order.
pub open spec fn articles_upto(
    titles: Seq<Seq<(Seq<char>, Option<Seq<char>>)>>,
    contents: Seq<Seq<char>>,
    n: int,
) -> Seq<(Seq<char>, Seq<char>)>
    decreases n,
{
    if n <= 0 {
        Seq::empty()
    } else {
        articles_upto(titles, contents, n - 1) + article_entry(titles, contents, n - 1)
    }
}

/// The news list: the entries of the first `NEWS_LIMIT` articles, or, when there are none,
/// the single entry `Forum temporarily unavailable`.
pub open spec fn latest_news(
    titles: Seq<Seq<(Seq<char>, Option<Seq<char>>)>>,
    contents: Seq<Seq<char>>,
) -> Seq<(Seq<char>, Seq<char>)> {
    let n = if titles.len() <= NEWS_LIMIT {
        titles.len() as int
    } else {
        NEWS_LIMIT as int
    };
    let out = articles_upto(titles, contents, n);
    if out.len() == 0 {
        seq![("Forum temporarily unavailable"@, "#"@)]
    } else {
        out
    }
}

/// The text of the `k`-th element of a group, or an empty text.
fn nth_text_exec(group: &Vec<Element>, k: usize) -> (r: Vec<char>)
    ensures
        r@ == nth_text(group@.map_values(|e: Element| element_view(e)), k as int),
{
    if k < group.len() {
        chars_of(group[k].text.as_str())
    } else {
        Vec::new()
    }
}

/// The entry for the `i`-th article, if it has one (see `article_entry`).
fn article_entry_exec(titles: &Vec<Vec<Element>>, contents: &Vec<String>, i: usize) -> (r: Option<
    (String, String),
>)
    requires
        i < titles.len(),
    ensures
        match r {
            Some(p) => article_entry(groups_view(titles@), texts_view(contents@), i as int) == seq![
                (p.0@, p.1@),
            ],
            None => article_entry(groups_view(titles@), texts_view(contents@), i as int)
                == Seq::<(Seq<char>, Seq<char>)>::empty(),
        },
{
    let ghost tv = groups_view(titles@);
    assert(tv[i as int] == titles@[i as int]@.map_values(|e: Element| element_view(e)));
    let title = nth_text_exec(&titles[i], 0);
    let date = nth_text_exec(&titles[i], 1);
    let title_t = trim_exec(&title);
    if title_t.len() == 0 {
        return None;
    }
    let body = if i < contents.len() {
        let c = trim_exec(&chars_of(contents[i].as_str()));
        replace_char_exec(&c, '\u{A0}', ' ')
    } else {
        chars_of("...")
    };
    let mut text = chars_of("[");
    push_all(&mut text, &trim_exec(&date));
    push_all(&mut text, &chars_of("] "));
    push_all(&mut text, &title_t);
    push_all(&mut text, &chars_of("\n"));
    push_all(&mut text, &trim_exec(&body));
    Some((string_from(&text), string_from(&chars_of("#"))))
}

/// The news list from the paragraphs of each article title box and the texts of the article
/// content blocks (see `latest_news`).
pub fn news_from_sections(titles: &Vec<Vec<Element>>, contents: &Vec<String>) -> (r: Vec<
    (String, String),
>)
    ensures
        news_view(r@) == latest_news(groups_view(titles@), texts_view(contents@)),
{
    let ghost tv = groups_view(titles@);
    let ghost cv = texts_view(contents@);
    let n: usize = if titles.len() <= NEWS_LIMIT {
        titles.len()
    } else {
        NEWS_LIMIT
    };
    let mut out: Vec<(String, String)> = Vec::new();
    let mut i: usize = 0;
    while i < n
        invariant
            i <= n <= titles.len(),
            tv == groups_view(titles@),
            cv == texts_view(contents@),
            news_view(out@) == articles_upto(tv, cv, i as int),
        decreases n - i,
    {
        let ghost before = news_view(out@);
        match article_entry_exec(titles, contents, i) {
            Some(p) => {
                out.push(p);
                assert(news_view(out@) =~= before + seq![(p.0@, p.1@)]);
            },
            None => {
                assert(news_view(out@) =~= before + Seq::<(Seq<char>, Seq<char>)>::empty());
            },
        }
        i += 1;
    }
    if out.len() == 0 {
        let mut fallback: Vec<(String, String)> = Vec::new();
        fallback.push(
            (
                string_from(&chars_of("Forum temporarily unavailable")),
                string_from(&chars_of("#")),
            ),
        );
        assert(news_view(fallback@) =~= seq![("Forum temporarily unavailable"@, "#"@)]);
        fallback
    } else {
        out
    }
}

/// The news read from the front page `html`, or nothing when a selector does not parse.
pub open spec fn page_news(html: Seq<char>) -> Option<Seq<(Seq<char>, Seq<char>)>> {
    match (
        selected_within(html, ".wm-ui-article-title"@, "p"@, "title"@),
        selected_texts(html, "div.wm-ui-article-content"@),
    ) {
        (Some(titles), Some(contents)) => Some(latest_news(titles, contents)),
        _ => None,
    }
}

/// The latest news of the front page `html` (see `page_news`).
pub fn parse_news(html: &str) -> (r: Result<Vec<(String, String)>, String>)
    ensures
        match r {
            Ok(v) => page_news(html@) == Some(news_view(v@)),
            Err(_) => page_news(html@) is None,
        },
{
    let titles = select_within(html, ".wm-ui-article-title", "p", "title")?;
    let contents = select_texts(html, "div.wm-ui-article-content")?;
    Ok(news_from_sections(&titles, &contents))
}

} // verus!
