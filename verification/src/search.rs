//! Web search results: extraction from the search provider's HTML listing
//! and their JSON form.
//!
//! The HTML parsing is the scraper crate's work, taken on trust behind two
//! narrow wrappers whose results are named; selecting, trimming, pairing and
//! bounding the results is verified, as is the truncation applied to fetched
//! pages.

use vstd::prelude::*;

use crate::json::JVal;
use crate::json::SpecJson;
use crate::json::assoc_view;
use crate::json::object_json;
use crate::json::push_object;
use crate::strutil::dec_digits;
use crate::strutil::push_dec_u64;
use crate::strutil::trim_ws;
use crate::strutil::trimmed_ws;
use crate::strutil::truncated;

verus! {

/// A single search result.
pub struct SearchResult {
    pub title: String,
    pub url: String,
    pub snippet: String,
}

/// The (href, text) pair of each result link in the provider's HTML listing,
/// in document order. The result depends on the text alone.
pub uninterp spec fn ddg_result_links(html: Seq<char>) -> Seq<(Seq<char>, Seq<char>)>;

/// The text of each result snippet cell in the provider's HTML listing, in
/// document order. The result depends on the text alone.
pub uninterp spec fn ddg_result_snippets(html: Seq<char>) -> Seq<Seq<char>>;

/// Relies on scraper::Html::parse_document and Selector: the href attribute
/// (empty when absent) and concatenated text of each anchor with class
/// `result-link`, in document order.
#[verifier::external_body]
fn select_result_links(html: &str) -> (r: Vec<(String, String)>)
    ensures
        r@.map_values(|p: (String, String)| (p.0@, p.1@)) == ddg_result_links(html@),
{
    let document = scraper::Html::parse_document(html);
    let selector = scraper::Selector::parse("a.result-link").unwrap();
    document.select(&selector).map(
        |link|
            (
                link.value().attr("href").unwrap_or("").to_string(),
                link.text().collect::<String>(),
            ),
    ).collect()
}

/// Relies on scraper::Html::parse_document and Selector: the concatenated
/// text of each table cell with class `result-snippet`, in document order.
#[verifier::external_body]
fn select_result_snippets(html: &str) -> (r: Vec<String>)
    ensures
        r@.map_values(|p: String| p@) == ddg_result_snippets(html@),
{
    let document = scraper::Html::parse_document(html);
    let selector = scraper::Selector::parse("td.result-snippet").unwrap();
    document.select(&selector).map(|cell| cell.text().collect::<String>()).collect()
}

/// The assembled results: each link trimmed, links with an empty title or
/// URL skipped, each kept link paired with the snippet at the same link
/// index, and at most `count` results.
pub open spec fn assemble_spec(
    links: Seq<(Seq<char>, Seq<char>)>,
    snips: Seq<Seq<char>>,
    i: int,
    budget: int,
) -> Seq<(Seq<char>, Seq<char>, Seq<char>)>
    decreases links.len() - i,
{
    if i < 0 || i >= links.len() || budget <= 0 {
        Seq::empty()
    } else {
        let title = trimmed_ws(links[i].1);
        let url = trimmed_ws(links[i].0);
        if title.len() == 0 || url.len() == 0 {
            assemble_spec(links, snips, i + 1, budget)
        } else {
            let snippet = if i < snips.len() {
                trimmed_ws(snips[i])
            } else {
                Seq::<char>::empty()
            };
            seq![(title, url, snippet)] + assemble_spec(links, snips, i + 1, budget - 1)
        }
    }
}

/// The view of assembled results.
pub open spec fn results_view(v: Seq<SearchResult>) -> Seq<(Seq<char>, Seq<char>, Seq<char>)> {
    v.map_values(|r: SearchResult| (r.title@, r.url@, r.snippet@))
}

/// Assemble search results from extracted links and snippets: trim, skip
/// empty entries, pair snippets by link position, and stop at `count`.
pub fn assemble_results(
    links: &Vec<(String, String)>,
    snippets: &Vec<String>,
    count: usize,
) -> (r: Vec<SearchResult>)
    ensures
        results_view(r@) == assemble_spec(
            links@.map_values(|p: (String, String)| (p.0@, p.1@)),
            snippets@.map_values(|p: String| p@),
            0,
            count as int,
        ),
{
    let ghost glinks = links@.map_values(|p: (String, String)| (p.0@, p.1@));
    let ghost gsnips = snippets@.map_values(|p: String| p@);
    let n = links.len();
    let mut out: Vec<SearchResult> = Vec::new();
    let mut i: usize = 0;
    let mut budget = count;
    while i < n && budget > 0
        invariant
            n == links@.len(),
            gsnips == snippets@.map_values(|p: String| p@),
            glinks == links@.map_values(|p: (String, String)| (p.0@, p.1@)),
            0 <= i <= n,
            budget <= count,
            results_view(out@) + assemble_spec(glinks, gsnips, i as int, budget as int)
                == assemble_spec(glinks, gsnips, 0, count as int),
        decreases n - i,
    {
        proof {
            assert(glinks[i as int] == (links@[i as int].0@, links@[i as int].1@));
        }
        let title = trim_ws(links[i].1.as_str());
        let url = trim_ws(links[i].0.as_str());
        if title.unicode_len() > 0 && url.unicode_len() > 0 {
            let snippet: String = if i < snippets.len() {
                proof {
                    assert(gsnips[i as int] == snippets@[i as int]@);
                }
                trim_ws(snippets[i].as_str())
            } else {
                String::new()
            };
            let item = SearchResult { title, url, snippet };
            out.push(item);
            proof {
                assert(results_view(out@) =~= results_view(out@.drop_last()) + seq![
                    (out@.last().title@, out@.last().url@, out@.last().snippet@),
                ]);
            }
            budget = budget - 1;
        }
        i += 1;
    }
    proof {
        if i == n {
            assert(assemble_spec(glinks, gsnips, n as int, budget as int) =~= Seq::<
                (Seq<char>, Seq<char>, Seq<char>),
            >::empty());
        } else {
            assert(budget == 0);
            assert(assemble_spec(glinks, gsnips, i as int, 0) =~= Seq::<
                (Seq<char>, Seq<char>, Seq<char>),
            >::empty());
        }
        assert(results_view(out@) + Seq::<(Seq<char>, Seq<char>, Seq<char>)>::empty()
            =~= results_view(out@));
    }
    out
}

/// Extract up to `count` search results from the provider's HTML listing.
pub fn parse_ddg_lite_html(html: &str, count: usize) -> (r: Vec<SearchResult>)
    ensures
        results_view(r@) == assemble_spec(
            ddg_result_links(html@),
            ddg_result_snippets(html@),
            0,
            count as int,
        ),
{
    let links = select_result_links(html);
    let snippets = select_result_snippets(html);
    assemble_results(&links, &snippets, count)
}

/// One result as a JSON object.
pub open spec fn result_json(r: SearchResult) -> Seq<char> {
    object_json(
        seq![
            ("title"@, SpecJson::SStr(r.title@)),
            ("url"@, SpecJson::SStr(r.url@)),
            ("snippet"@, SpecJson::SStr(r.snippet@)),
        ],
    )
}

/// A list of results as a JSON array.
pub open spec fn results_json(v: Seq<SearchResult>) -> Seq<char>
    decreases v.len(),
{
    if v.len() == 0 {
        seq!['[', ']']
    } else if v.len() == 1 {
        seq!['['] + result_json(v[0]) + seq![']']
    } else {
        seq!['['] + result_json(v[0]) + results_json_tail(v.skip(1))
    }
}

/// The rest of a result array.
pub open spec fn results_json_tail(v: Seq<SearchResult>) -> Seq<char>
    decreases v.len(),
{
    if v.len() == 0 {
        seq![']']
    } else {
        seq![','] + result_json(v[0]) + results_json_tail(v.skip(1))
    }
}

/// Serialize one result.
fn push_result(out: &mut String, r: &SearchResult)
    ensures
        final(out)@ == old(out)@ + result_json(*r),
{
    let mut pairs: Vec<(String, JVal)> = Vec::new();
    pairs.push(("title".to_owned(), JVal::JStr(r.title.clone())));
    pairs.push(("url".to_owned(), JVal::JStr(r.url.clone())));
    pairs.push(("snippet".to_owned(), JVal::JStr(r.snippet.clone())));
    proof {
        assert(assoc_view(pairs@) =~= seq![
            ("title"@, SpecJson::SStr(r.title@)),
            ("url"@, SpecJson::SStr(r.url@)),
            ("snippet"@, SpecJson::SStr(r.snippet@)),
        ]);
    }
    push_object(out, &pairs);
}

/// Serialize search results as a JSON array.
#[verifier::rlimit(100)]
pub fn results_to_json(v: &Vec<SearchResult>) -> (r: String)
    ensures
        r@ == results_json(v@),
{
    proof {
        reveal_strlit("[");
        reveal_strlit("]");
        reveal_strlit("[]");
        reveal_strlit(",");
        assert("["@ =~= seq!['[']);
        assert("]"@ =~= seq![']']);
        assert("[]"@ =~= seq!['[', ']']);
        assert(","@ =~= seq![',']);
    }
    let mut out = String::new();
    let n = v.len();
    if n == 0 {
        out.append("[]");
        proof {
            assert(out@ =~= results_json(v@));
        }
        return out;
    }
    out.append("[");
    push_result(&mut out, &v[0]);
    let mut i: usize = 1;
    proof {
        assert(results_json(v@) =~= seq!['['] + result_json(v@[0]) + results_json_tail(
            v@.skip(1),
        )) by {
            if v@.len() == 1 {
                assert(results_json_tail(v@.skip(1)) =~= seq![']']);
            }
        }
    }
    while i < n
        invariant
            n == v@.len(),
            1 <= i <= n,
            out@ + results_json_tail(v@.skip(i as int)) == results_json(v@),
        decreases n - i,
    {
        proof {
            reveal_strlit(",");
            assert(","@ =~= seq![',']);
            assert(v@.skip(i as int)[0] == v@[i as int]);
            assert(v@.skip(i as int).skip(1) =~= v@.skip(i + 1));
        }
        out.append(",");
        push_result(&mut out, &v[i]);
        i += 1;
    }
    proof {
        reveal_strlit("]");
        assert("]"@ =~= seq![']']);
        assert(results_json_tail(v@.skip(n as int)) =~= seq![']']);
    }
    out.append("]");
    out
}

/// The truncation applied to fetched content: unchanged within the limit,
/// else cut at the limit with a note naming the cut point and the original
/// length.
pub open spec fn maybe_truncated(content: Seq<char>, max_length: Option<usize>) -> Seq<char> {
    match max_length {
        Some(limit) => {
            if content.len() > limit {
                content.subrange(0, limit as int) + "...\n[truncated at "@ + dec_digits(
                    limit as nat,
                ) + " chars, total "@ + dec_digits(content.len() as nat) + "]"@
            } else {
                content
            }
        },
        None => content,
    }
}

/// Truncate fetched content to `max_length` characters when a limit is set,
/// appending a note with the cut point and the total length.
pub fn maybe_truncate(content: &str, max_length: Option<usize>) -> (r: String)
    ensures
        r@ == maybe_truncated(content@, max_length),
{
    match max_length {
        Some(limit) => {
            let len = content.unicode_len();
            if len > limit {
                let head = content.substring_char(0, limit);
                let mut out = head.to_owned();
                out.append("...\n[truncated at ");
                push_dec_u64(&mut out, limit as u64);
                out.append(" chars, total ");
                push_dec_u64(&mut out, len as u64);
                out.append("]");
                proof {
                    assert(out@ =~= maybe_truncated(content@, max_length));
                }
                out
            } else {
                content.to_owned()
            }
        },
        None => content.to_owned(),
    }
}

} // verus!
