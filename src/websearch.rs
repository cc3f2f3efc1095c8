//! Turning web search hits into the text that a search tool returns.

use crate::tool::{ToolError, ToolErrorView};
use vstd::prelude::*;

verus! {

/// One search hit, with the fields that were text in the search response.
pub struct SearchHit {
    pub title: Option<String>,
    pub description: Option<String>,
    pub url: Option<String>,
}

pub struct SearchHitView {
    pub title: Option<Seq<char>>,
    pub description: Option<Seq<char>>,
    pub url: Option<Seq<char>>,
}

impl View for SearchHit {
    type V = SearchHitView;

    open spec fn view(&self) -> SearchHitView {
        SearchHitView {
            title: crate::tool::opt_view(self.title),
            description: crate::tool::opt_view(self.description),
            url: crate::tool::opt_view(self.url),
        }
    }
}

pub open spec fn hits_view(v: Seq<SearchHit>) -> Seq<SearchHitView> {
    v.map_values(|h: SearchHit| h@)
}

pub open spec fn opt_hits_view(hits: Option<Vec<SearchHit>>) -> Option<Seq<SearchHitView>> {
    match hits {
        Some(v) => Some(hits_view(v@)),
        None => None,
    }
}

pub open spec fn title_label() -> Seq<char> {
    seq!['T', 'i', 't', 'l', 'e', ':', ' ']
}

pub open spec fn description_label() -> Seq<char> {
    seq!['\n', 'D', 'e', 's', 'c', 'r', 'i', 'p', 't', 'i', 'o', 'n', ':', ' ']
}

pub open spec fn url_label() -> Seq<char> {
    seq!['\n', 'U', 'R', 'L', ':', ' ']
}

pub open spec fn hit_separator() -> Seq<char> {
    seq!['\n', '\n']
}

pub open spec fn missing_field(field: Seq<char>) -> Seq<char> {
    seq!['w', 'e', 'b', ' '] + field + seq![
        ' ',
        'i',
        's',
        ' ',
        'n',
        'o',
        't',
        ' ',
        'a',
        ' ',
        's',
        't',
        'r',
        'i',
        'n',
        'g',
    ]
}

/// The text of one hit, or the complaint about its first field that is not
/// text (title, then description, then URL).
pub open spec fn hit_text(h: SearchHitView) -> Result<Seq<char>, Seq<char>> {
    match (h.title, h.description, h.url) {
        (None, _, _) => Err(missing_field(seq!['t', 'i', 't', 'l', 'e'])),
        (Some(_), None, _) => Err(
            missing_field(seq!['d', 'e', 's', 'c', 'r', 'i', 'p', 't', 'i', 'o', 'n']),
        ),
        (Some(_), Some(_), None) => Err(missing_field(seq!['u', 'r', 'l'])),
        (Some(t), Some(d), Some(u)) => Ok(
            title_label() + t + description_label() + d + url_label() + u,
        ),
    }
}

/// The texts of all hits joined by blank lines, or the complaint about the
/// first hit that has a field that is not text.
pub open spec fn hits_text(hits: Seq<SearchHitView>) -> Result<Seq<char>, Seq<char>>
    decreases hits.len(),
{
    if hits.len() == 0 {
        Ok(Seq::empty())
    } else {
        match hits_text(hits.drop_last()) {
            Err(e) => Err(e),
            Ok(prev) => match hit_text(hits.last()) {
                Err(e) => Err(e),
                Ok(t) => Ok(
                    if hits.len() == 1 {
                        t
                    } else {
                        prev + hit_separator() + t
                    },
                ),
            },
        }
    }
}

/// What the search tool returns for the hits of a response: without a list
/// of results the tool failed; a hit with a field that is not text is
/// reported; otherwise the hits' texts joined by blank lines.
pub open spec fn spec_search_result(hits: Option<Seq<SearchHitView>>) -> Result<
    Seq<char>,
    ToolErrorView,
> {
    match hits {
        None => Err(ToolErrorView::ExecutionError),
        Some(v) => match hits_text(v) {
            Ok(t) => Ok(t),
            Err(e) => Err(ToolErrorView::Other(e)),
        },
    }
}

fn hit_string(h: &SearchHit) -> (r: Result<String, String>)
    ensures
        r matches Ok(t) ==> hit_text(h@) == Ok::<Seq<char>, Seq<char>>(t@),
        r matches Err(e) ==> hit_text(h@) == Err::<Seq<char>, Seq<char>>(e@),
{
    match (&h.title, &h.description, &h.url) {
        (None, _, _) => {
            proof {
                reveal_strlit("web title is not a string");
            }
            let r = String::from_str("web title is not a string");
            assert(r@ =~= missing_field(seq!['t', 'i', 't', 'l', 'e']));
            Err(r)
        },
        (Some(_), None, _) => {
            proof {
                reveal_strlit("web description is not a string");
            }
            let r = String::from_str("web description is not a string");
            assert(r@ =~= missing_field(
                seq!['d', 'e', 's', 'c', 'r', 'i', 'p', 't', 'i', 'o', 'n'],
            ));
            Err(r)
        },
        (Some(_), Some(_), None) => {
            proof {
                reveal_strlit("web url is not a string");
            }
            let r = String::from_str("web url is not a string");
            assert(r@ =~= missing_field(seq!['u', 'r', 'l']));
            Err(r)
        },
        (Some(t), Some(d), Some(u)) => {
            proof {
                reveal_strlit("Title: ");
                reveal_strlit("\nDescription: ");
                reveal_strlit("\nURL: ");
            }
            let mut r = String::from_str("Title: ");
            r.append(t.as_str());
            r.append("\nDescription: ");
            r.append(d.as_str());
            r.append("\nURL: ");
            r.append(u.as_str());
            assert(r@ =~= title_label() + t@ + description_label() + d@ + url_label() + u@);
            Ok(r)
        },
    }
}

/// The text that the web search tool returns for the hits of a response.
pub fn format_search_results(hits: Option<Vec<SearchHit>>) -> (r: Result<String, ToolError>)
    ensures
        crate::tool::result_view(r) == spec_search_result(opt_hits_view(hits)),
{
    let ghost hs = opt_hits_view(hits);
    let v = match hits {
        None => {
            return Err(ToolError::ExecutionError);
        },
        Some(v) => v,
    };
    let ghost hv = hits_view(v@);
    let mut out = String::new();
    let mut i: usize = 0;
    while i < v.len()
        invariant
            0 <= i <= v.len(),
            hv == hits_view(v@),
            hs == Some(hv),
            hs == opt_hits_view(hits),
            hits_text(hv.take(i as int)) == Ok::<Seq<char>, Seq<char>>(out@),
        decreases v.len() - i,
    {
        proof {
            assert(hv.take(i + 1).drop_last() =~= hv.take(i as int));
            assert(hv.take(i + 1).last() == v@[i as int]@);
        }
        match hit_string(&v[i]) {
            Err(e) => {
                proof {
                    assert(hits_text(hv.take(i + 1)) == Err::<Seq<char>, Seq<char>>(e@));
                    lemma_hits_text_err(hv, i + 1);
                }
                return Err(ToolError::Other(e));
            },
            Ok(t) => {
                let ghost prev = out@;
                if i > 0 {
                    proof {
                        reveal_strlit("\n\n");
                    }
                    out.append("\n\n");
                    out.append(t.as_str());
                    assert(out@ =~= prev + hit_separator() + t@);
                } else {
                    out = t;
                }
                assert(hits_text(hv.take(i + 1)) == Ok::<Seq<char>, Seq<char>>(out@));
            },
        }
        i = i + 1;
    }
    assert(hv.take(i as int) =~= hv);
    Ok(out)
}

proof fn lemma_hits_text_err(hv: Seq<SearchHitView>, k: int)
    requires
        0 < k <= hv.len(),
        hits_text(hv.take(k)) is Err,
    ensures
        hits_text(hv) == hits_text(hv.take(k)),
    decreases hv.len() - k,
{
    if k == hv.len() {
        assert(hv.take(k) =~= hv);
    } else {
        assert(hv.take(k + 1).drop_last() =~= hv.take(k));
        lemma_hits_text_err(hv, k + 1);
    }
}

} // verus!
