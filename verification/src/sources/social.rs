//! What a page of a blog says, reduced to the facts of one signal: how many
//! articles it lists, how many of them touch the ecosystem, and what the
//! first of them are called.

use vstd::prelude::*;
use vstd::string::StringExecFns;
use crate::text::{
    chars_of, comes_before, contains, decimal, decimal_text, join, joined, lowercase, mentions,
    str_eq, string_views, text_before, text_order_is_strict_and_total, to_lowercase, trim, trimmed,
};

verus! {

/// The text of every element of the document `html` that `selector`
/// matches, in the order in which the parser made the elements; nothing if
/// `selector` is no selector.
pub uninterp spec fn selected_texts(html: Seq<char>, selector: Seq<char>) -> Option<
    Seq<Seq<char>>,
>;

/// scraper's `Html::parse_document`, `Selector::parse` and `Html::select`,
/// with `ElementRef::text` on each element found. The parser accepts every
/// text as a document; a selector is parsed or refused; the elements come in
/// the order in which the parser made them, which is the order of the page
/// except where the parser moves an element in front of an earlier one; the
/// text of each is that of its text nodes, concatenated. All of it depends
/// on the two arguments alone. The contract names the result and says
/// nothing of what it holds, nor of its order.
#[verifier::external_body]
fn select_texts(html: &str, selector: &str) -> (texts: Option<Vec<String>>)
    ensures
        match texts {
            Some(found) => selected_texts(html@, selector@) == Some(string_views(found@)),
            None => selected_texts(html@, selector@) is None,
        },
{
    let document = scraper::Html::parse_document(html);
    match scraper::Selector::parse(selector) {
        Ok(parsed) => Some(document.select(&parsed).map(|e| e.text().collect::<String>()).collect()),
        Err(_) => None,
    }
}

/// The selectors under which blogs commonly list their articles, the most
/// specific first.
pub open spec fn selector_texts() -> Seq<Seq<char>> {
    seq![
        "article h2 a"@,
        "article h3 a"@,
        ".post-title a"@,
        "h2.entry-title a"@,
        "a[class*='title']"@,
        "h2 a"@,
        "h3 a"@,
    ]
}

/// The selectors under which blogs commonly list their articles.
pub fn selectors() -> (list: Vec<&'static str>)
    ensures
        list@.len() == 7,
        forall|k: int| 0 <= k < 7 ==> (#[trigger] list@[k])@ == selector_texts()[k],
{
    let mut list: Vec<&'static str> = Vec::new();
    list.push("article h2 a");
    list.push("article h3 a");
    list.push(".post-title a");
    list.push("h2.entry-title a");
    list.push("a[class*='title']");
    list.push("h2 a");
    list.push("h3 a");
    list
}

/// Whether a trimmed link text is long enough to be the title of an
/// article: more than five bytes in UTF-8.
pub open spec fn is_headline(title: Seq<char>) -> bool {
    vstd::utf8::encode_utf8(title).len() > 5
}

/// The titles among the link texts: each text trimmed, and kept if it is
/// long enough.
pub open spec fn headlines_in(texts: Seq<Seq<char>>) -> Seq<Seq<char>>
    decreases texts.len(),
{
    if texts.len() == 0 {
        Seq::empty()
    } else if is_headline(trimmed(texts.last())) {
        headlines_in(texts.drop_last()).push(trimmed(texts.last()))
    } else {
        headlines_in(texts.drop_last())
    }
}

/// Picks the titles among the link texts.
pub fn headlines(texts: &Vec<String>) -> (titles: Vec<String>)
    ensures
        string_views(titles@) == headlines_in(string_views(texts@)),
{
    let mut titles: Vec<String> = Vec::new();
    assert(string_views(titles@) =~= Seq::<Seq<char>>::empty());
    let mut i: usize = 0;
    while i < texts.len()
        invariant
            i <= texts.len(),
            string_views(titles@) == headlines_in(string_views(texts@.take(i as int))),
        decreases texts.len() - i,
    {
        let ghost earlier = string_views(texts@.take(i as int));
        let ghost now = string_views(texts@.take(i + 1));
        let ghost kept = string_views(titles@);
        proof {
            assert(now.drop_last() =~= earlier);
            assert(now.last() == texts@[i as int]@);
        }
        let title = trim(texts[i].as_str());
        if title.as_bytes().len() > 5 {
            titles.push(title.to_owned());
            assert(string_views(titles@) =~= kept.push(title@));
        }
        i += 1;
    }
    proof {
        assert(texts@.take(i as int) =~= texts@);
    }
    titles
}

/// The titles that the first selector from position `from` on finds in the
/// document, where it finds any.
pub open spec fn found_from(html: Seq<char>, selectors: Seq<Seq<char>>, from: int) -> Seq<
    Seq<char>,
>
    decreases selectors.len() - from,
{
    if from < 0 || from >= selectors.len() {
        Seq::empty()
    } else {
        let here = match selected_texts(html, selectors[from]) {
            Some(texts) => headlines_in(texts),
            None => Seq::empty(),
        };
        if here.len() > 0 {
            here
        } else {
            found_from(html, selectors, from + 1)
        }
    }
}

/// The titles of the articles that a page lists: those under the first
/// selector that finds any.
pub fn find_headlines(html: &str) -> (titles: Vec<String>)
    ensures
        string_views(titles@) == found_from(html@, selector_texts(), 0),
{
    let list = selectors();
    let mut k: usize = 0;
    while k < list.len()
        invariant
            k <= list.len(),
            list@.len() == 7,
            forall|j: int| 0 <= j < 7 ==> (#[trigger] list@[j])@ == selector_texts()[j],
            found_from(html@, selector_texts(), 0) == found_from(html@, selector_texts(), k as int),
        decreases list.len() - k,
    {
        match select_texts(html, list[k]) {
            Some(texts) => {
                let titles = headlines(&texts);
                if titles.len() > 0 {
                    return titles;
                }
            },
            None => {},
        }
        k += 1;
    }
    let none: Vec<String> = Vec::new();
    assert(string_views(none@) =~= Seq::<Seq<char>>::empty());
    none
}

/// Where `title` belongs among sorted titles: the first position at or
/// after `from` whose title does not come before it.
pub open spec fn place_of(sorted: Seq<Seq<char>>, title: Seq<char>, from: int) -> int
    decreases sorted.len() - from,
{
    if 0 <= from < sorted.len() && text_before(sorted[from], title) {
        place_of(sorted, title, from + 1)
    } else {
        from
    }
}

/// Sorted titles with one more title put at its place, unless it is there
/// already.
pub open spec fn with_title(sorted: Seq<Seq<char>>, title: Seq<char>) -> Seq<Seq<char>> {
    let at = place_of(sorted, title, 0);
    if at < sorted.len() && sorted[at] == title {
        sorted
    } else {
        sorted.insert(at, title)
    }
}

/// The titles in the order of the dictionary, each once.
pub open spec fn sorted_titles(titles: Seq<Seq<char>>) -> Seq<Seq<char>>
    decreases titles.len(),
{
    if titles.len() == 0 {
        Seq::empty()
    } else {
        with_title(sorted_titles(titles.drop_last()), titles.last())
    }
}

/// Whether each title comes before all that follow it.
pub open spec fn strictly_sorted(titles: Seq<Seq<char>>) -> bool {
    forall|j: int, k: int|
        0 <= j < k < titles.len() ==> text_before(#[trigger] titles[j], #[trigger] titles[k])
}

proof fn place_of_bounds(sorted: Seq<Seq<char>>, title: Seq<char>, from: int)
    requires
        0 <= from <= sorted.len(),
    ensures
        from <= place_of(sorted, title, from) <= sorted.len(),
        forall|j: int|
            from <= j < place_of(sorted, title, from) ==> text_before(#[trigger] sorted[j], title),
        place_of(sorted, title, from) < sorted.len() ==> !text_before(
            sorted[place_of(sorted, title, from)],
            title,
        ),
    decreases sorted.len() - from,
{
    if from < sorted.len() && text_before(sorted[from], title) {
        place_of_bounds(sorted, title, from + 1);
    }
}

proof fn with_title_keeps_order(sorted: Seq<Seq<char>>, title: Seq<char>)
    requires
        strictly_sorted(sorted),
    ensures
        strictly_sorted(with_title(sorted, title)),
        forall|t: Seq<char>|
            with_title(sorted, title).contains(t) <==> (sorted.contains(t) || t == title),
{
    let at = place_of(sorted, title, 0);
    place_of_bounds(sorted, title, 0);
    let next = with_title(sorted, title);
    if at < sorted.len() && sorted[at] == title {
        assert(sorted.contains(title));
    } else {
        assert forall|j: int, k: int| 0 <= j < k < next.len() implies text_before(
            #[trigger] next[j],
            #[trigger] next[k],
        ) by {
            if at < sorted.len() {
                text_order_is_strict_and_total(sorted[at], title, title);
            }
            if k < at {
            } else if k == at {
            } else if j < at {
                text_order_is_strict_and_total(sorted[j], title, sorted[k - 1]);
                if at < k - 1 {
                    text_order_is_strict_and_total(title, sorted[at], sorted[k - 1]);
                }
            } else if j == at {
                if at < k - 1 {
                    text_order_is_strict_and_total(title, sorted[at], sorted[k - 1]);
                }
            } else {
                assert(text_before(sorted[j - 1], sorted[k - 1]));
            }
        }
        assert forall|t: Seq<char>| next.contains(t) <==> (sorted.contains(t) || t == title) by {
            if next.contains(t) {
                let k = choose|k: int| 0 <= k < next.len() && next[k] == t;
                if k < at {
                    assert(sorted[k] == t);
                } else if k > at {
                    assert(sorted[k - 1] == t);
                }
            }
            if sorted.contains(t) {
                let k = choose|k: int| 0 <= k < sorted.len() && sorted[k] == t;
                if k < at {
                    assert(next[k] == t);
                } else {
                    assert(next[k + 1] == t);
                }
            }
            if t == title {
                assert(next[at] == t);
            }
        }
    }
}

/// Sorting keeps every title, adds none, and puts each before all that
/// follow it; so no title is listed twice.
pub proof fn sorted_titles_are_sorted(titles: Seq<Seq<char>>)
    ensures
        strictly_sorted(sorted_titles(titles)),
        forall|t: Seq<char>| sorted_titles(titles).contains(t) <==> titles.contains(t),
    decreases titles.len(),
{
    if titles.len() > 0 {
        let earlier = titles.drop_last();
        sorted_titles_are_sorted(earlier);
        with_title_keeps_order(sorted_titles(earlier), titles.last());
        assert forall|t: Seq<char>| sorted_titles(titles).contains(t) <==> titles.contains(
            t,
        ) by {
            if titles.contains(t) {
                let k = choose|k: int| 0 <= k < titles.len() && titles[k] == t;
                if k < titles.len() - 1 {
                    assert(earlier[k] == t);
                }
            }
            if earlier.contains(t) {
                let k = choose|k: int| 0 <= k < earlier.len() && earlier[k] == t;
                assert(titles[k] == t);
            }
            if t == titles.last() {
                assert(titles[titles.len() - 1] == t);
            }
        }
    }
}

/// Sorts the titles in the order of the dictionary and drops the repeats.
pub fn sort_titles(titles: &Vec<String>) -> (sorted: Vec<String>)
    ensures
        string_views(sorted@) == sorted_titles(string_views(titles@)),
        strictly_sorted(string_views(sorted@)),
        forall|t: Seq<char>|
            string_views(sorted@).contains(t) <==> string_views(titles@).contains(t),
{
    proof {
        sorted_titles_are_sorted(string_views(titles@));
    }
    let mut sorted: Vec<String> = Vec::new();
    assert(string_views(sorted@) =~= Seq::<Seq<char>>::empty());
    let mut i: usize = 0;
    while i < titles.len()
        invariant
            i <= titles.len(),
            string_views(sorted@) == sorted_titles(string_views(titles@.take(i as int))),
        decreases titles.len() - i,
    {
        let ghost earlier = string_views(titles@.take(i as int));
        let ghost now = string_views(titles@.take(i + 1));
        let ghost before = string_views(sorted@);
        proof {
            assert(now.drop_last() =~= earlier);
            assert(now.last() == titles@[i as int]@);
        }
        let title = &titles[i];
        let key = chars_of(title.as_str());
        let mut at: usize = 0;
        while at < sorted.len() && comes_before(&chars_of(sorted[at].as_str()), &key)
            invariant
                at <= sorted.len(),
                key@ == title@,
                before == string_views(sorted@),
                place_of(before, title@, 0) == place_of(before, title@, at as int),
            decreases sorted.len() - at,
        {
            at += 1;
        }
        if at < sorted.len() && str_eq(sorted[at].as_str(), title.as_str()) {
        } else {
            sorted.insert(at, title.clone());
            assert(string_views(sorted@) =~= before.insert(at as int, title@));
        }
        i += 1;
    }
    proof {
        assert(titles@.take(i as int) =~= titles@);
    }
    sorted
}

/// The words, in lowercase, by which a title shows that it touches the
/// ecosystem.
pub open spec fn keywords() -> Seq<Seq<char>> {
    seq![
        "solana"@,
        "sol"@,
        "defi"@,
        "depin"@,
        "token"@,
        "validator"@,
        "staking"@,
        "nft"@,
        "web3"@,
        "blockchain"@,
        "crypto"@,
    ]
}

/// Whether a lowercase text holds one of the keywords.
pub open spec fn names_keyword(lower: Seq<char>) -> bool {
    exists|k: int| 0 <= k < keywords().len() && mentions(lower, #[trigger] keywords()[k])
}

/// Whether a title, whatever its case, holds one of the keywords.
pub open spec fn is_relevant(title: Seq<char>) -> bool {
    names_keyword(lowercase(title))
}

/// Whether a lowercase text holds one of the keywords.
pub fn holds_keyword(lower: &str) -> (found: bool)
    ensures
        found == names_keyword(lower@),
{
    let mut words: Vec<&'static str> = Vec::new();
    words.push("solana");
    words.push("sol");
    words.push("defi");
    words.push("depin");
    words.push("token");
    words.push("validator");
    words.push("staking");
    words.push("nft");
    words.push("web3");
    words.push("blockchain");
    words.push("crypto");
    let text = chars_of(lower);
    let mut k: usize = 0;
    while k < words.len()
        invariant
            k <= words.len(),
            text@ == lower@,
            words@.len() == keywords().len(),
            forall|j: int| 0 <= j < words@.len() ==> (#[trigger] words@[j])@ == keywords()[j],
            forall|j: int| 0 <= j < k ==> !mentions(lower@, #[trigger] keywords()[j]),
        decreases words.len() - k,
    {
        let word = chars_of(words[k]);
        if contains(&text, &word) {
            assert(mentions(lower@, keywords()[k as int]));
            return true;
        }
        k += 1;
    }
    false
}

/// Whether a title touches the ecosystem.
pub fn is_relevant_title(title: &str) -> (relevant: bool)
    ensures
        relevant == is_relevant(title@),
{
    let lower = to_lowercase(title);
    holds_keyword(lower.as_str())
}

/// How many of the titles touch the ecosystem.
pub open spec fn relevant_among(titles: Seq<Seq<char>>) -> nat
    decreases titles.len(),
{
    if titles.len() == 0 {
        0
    } else if is_relevant(titles.last()) {
        relevant_among(titles.drop_last()) + 1
    } else {
        relevant_among(titles.drop_last())
    }
}

proof fn relevant_among_fits(titles: Seq<Seq<char>>)
    ensures
        relevant_among(titles) <= titles.len(),
    decreases titles.len(),
{
    if titles.len() > 0 {
        relevant_among_fits(titles.drop_last());
    }
}

/// Counts the titles that touch the ecosystem.
pub fn count_relevant(titles: &Vec<String>) -> (count: usize)
    ensures
        count == relevant_among(string_views(titles@)),
{
    let mut count: usize = 0;
    let mut i: usize = 0;
    while i < titles.len()
        invariant
            i <= titles.len(),
            count <= i,
            count == relevant_among(string_views(titles@.take(i as int))),
        decreases titles.len() - i,
    {
        proof {
            let now = string_views(titles@.take(i + 1));
            assert(now.drop_last() =~= string_views(titles@.take(i as int)));
            assert(now.last() == titles@[i as int]@);
        }
        if is_relevant_title(titles[i].as_str()) {
            count += 1;
        }
        i += 1;
    }
    proof {
        assert(titles@.take(i as int) =~= titles@);
    }
    count
}

/// The facts of the signal that stands for one page.
#[derive(Debug)]
pub struct BlogDigest {
    pub category: String,
    pub title: String,
    pub description: String,
    pub total_articles: usize,
    pub solana_relevant: usize,
}

/// What a `BlogDigest` holds.
pub struct BlogDigestModel {
    pub category: Seq<char>,
    pub title: Seq<char>,
    pub description: Seq<char>,
    pub total_articles: nat,
    pub solana_relevant: nat,
}

impl View for BlogDigest {
    type V = BlogDigestModel;

    open spec fn view(&self) -> BlogDigestModel {
        BlogDigestModel {
            category: self.category@,
            title: self.title@,
            description: self.description@,
            total_articles: self.total_articles as nat,
            solana_relevant: self.solana_relevant as nat,
        }
    }
}

/// The titles that a digest quotes: the first ten.
pub open spec fn quoted(articles: Seq<Seq<char>>) -> Seq<Seq<char>> {
    if articles.len() > 10 {
        articles.take(10)
    } else {
        articles
    }
}

/// The digest of the blog `name` on whose page the titles `found` stand;
/// none if there are no titles.
pub open spec fn blog_digest(name: Seq<char>, found: Seq<Seq<char>>) -> Option<BlogDigestModel> {
    let articles = sorted_titles(found);
    if articles.len() == 0 {
        None
    } else {
        Some(
            BlogDigestModel {
                category: "Blog: "@ + name,
                title: name + ": "@ + decimal_text(articles.len()) + " recent articles ("@
                    + decimal_text(relevant_among(articles)) + " Solana-related)"@,
                description: "Recent topics: "@ + joined(quoted(articles), "; "@),
                total_articles: articles.len(),
                solana_relevant: relevant_among(articles),
            },
        )
    }
}

/// Draws up the digest of a blog from the titles found on its page.
pub fn digest_headlines(name: &str, found: &Vec<String>) -> (digest: Option<BlogDigest>)
    ensures
        match digest {
            Some(d) => blog_digest(name@, string_views(found@)) == Some(d@),
            None => blog_digest(name@, string_views(found@)) is None,
        },
{
    let articles = sort_titles(found);
    if articles.len() == 0 {
        return None;
    }
    let relevant: usize = count_relevant(&articles);
    let mut first: Vec<String> = Vec::new();
    let mut i: usize = 0;
    while i < articles.len() && i < 10
        invariant
            i <= articles.len(),
            i <= 10,
            first@.len() == i,
            forall|j: int| 0 <= j < i ==> (#[trigger] first@[j])@ == articles@[j]@,
        decreases articles.len() - i,
    {
        first.push(articles[i].clone());
        i += 1;
    }
    assert(string_views(first@) =~= quoted(string_views(articles@)));
    let mut category = String::from_str("Blog: ");
    category.append(name);
    let mut title = name.to_owned();
    title.append(": ");
    title.append(decimal(articles.len() as u64).as_str());
    title.append(" recent articles (");
    title.append(decimal(relevant as u64).as_str());
    title.append(" Solana-related)");
    let mut description = String::from_str("Recent topics: ");
    description.append(join(&first, "; ").as_str());
    Some(
        BlogDigest {
            category,
            title,
            description,
            total_articles: articles.len(),
            solana_relevant: relevant,
        },
    )
}

/// Draws up the digest of a blog from its page.
pub fn digest_page(name: &str, html: &str) -> (digest: Option<BlogDigest>)
    ensures
        match digest {
            Some(d) => blog_digest(name@, found_from(html@, selector_texts(), 0)) == Some(d@),
            None => blog_digest(name@, found_from(html@, selector_texts(), 0)) is None,
        },
{
    let found = find_headlines(html);
    digest_headlines(name, &found)
}

} // verus!
