//! Aggregating several tool providers under one namespace: provider `i`'s
//! tool `name` is exposed as `"<i>-<name>"`, and a call is routed back by
//! reading the ordinal before the first `-`.

use crate::text::{
    decimal, decimal_string, is_first, lemma_decimal, lemma_split_first_at, ordinal_below,
    parse_ordinal, split_first, split_once_at,
};
use crate::tool::{tools_view, Tool, ToolError, ToolErrorView, ToolView};
use vstd::prelude::*;

verus! {

/// The public name of provider `i`'s tool `name`.
pub open spec fn prefixed_name(i: nat, name: Seq<char>) -> Seq<char> {
    decimal(i) + seq!['-'] + name
}

/// The provider ordinal and local name that a public name stands for, among
/// `count` providers.
pub open spec fn route(name: Seq<char>, count: nat) -> Option<(nat, Seq<char>)> {
    match split_first(name, '-') {
        Some((head, local)) => match ordinal_below(head, count) {
            Some(i) => Some((i, local)),
            None => None,
        },
        None => None,
    }
}

/// Routing inverts the naming: the public name of provider `i`'s tool
/// `name` leads back to provider `i` and to `name` itself.
pub proof fn lemma_route_prefixed(i: nat, name: Seq<char>, count: nat)
    requires
        i < count,
    ensures
        route(prefixed_name(i, name), count) == Some((i, name)),
{
    let d = decimal(i);
    let s = prefixed_name(i, name);
    lemma_decimal(i);
    assert forall|j: int| 0 <= j < d.len() implies s[j] != '-' by {
        assert(s[j] == d[j]);
    }
    assert(s[d.len() as int] == '-');
    assert(is_first(s, '-', d.len() as int));
    lemma_split_first_at(s, '-', d.len() as int);
    assert(s.take(d.len() as int) =~= d);
    assert(s.skip(d.len() as int + 1) =~= name);
}

/// Public names are never shared: equal public names come from the same
/// provider and the same local name.
pub proof fn lemma_prefixed_injective(i1: nat, n1: Seq<char>, i2: nat, n2: Seq<char>)
    requires
        prefixed_name(i1, n1) == prefixed_name(i2, n2),
    ensures
        i1 == i2,
        n1 == n2,
{
    let count = if i1 < i2 {
        i2 + 1
    } else {
        i1 + 1
    };
    lemma_route_prefixed(i1, n1, count);
    lemma_route_prefixed(i2, n2, count);
}

/// Spells the public name of provider `i`'s tool `name`.
pub fn prefix_name(i: usize, name: &str) -> (r: String)
    ensures
        r@ == prefixed_name(i as nat, name@),
{
    let mut r = decimal_string(i);
    proof {
        reveal_strlit("-");
    }
    r.append("-");
    r.append(name);
    assert(r@ =~= prefixed_name(i as nat, name@));
    r
}

/// Finds the provider ordinal and local name for a public name among
/// `count` providers; a name without a separator, or whose part before it
/// is not an ordinal below `count`, is not found.
pub fn route_tool_name(name: &str, count: usize) -> (r: Result<(usize, String), ToolError>)
    ensures
        r matches Ok((i, local)) ==> route(name@, count as nat) == Some((i as nat, local@)),
        r matches Err(e) ==> route(name@, count as nat) is None && e@ == ToolErrorView::NoToolFound(
            name@,
        ),
{
    match split_once_at(name, '-') {
        Some((head, local)) => match parse_ordinal(head.as_str(), count) {
            Some(i) => Ok((i, local)),
            None => Err(ToolError::NoToolFound(String::from_str(name))),
        },
        None => Err(ToolError::NoToolFound(String::from_str(name))),
    }
}

/// A call routed to one provider of an aggregate.
pub struct RoutedCall {
    /// The provider's ordinal.
    pub provider: usize,
    /// The tool's name within the provider.
    pub tool_name: String,
    /// The call's arguments, as they came.
    pub arguments: serde_json::Value,
}

/// Routes a call by its public tool name among `count` providers; the
/// arguments pass through untouched.
pub fn route_call(name: &str, arguments: serde_json::Value, count: usize) -> (r: Result<
    RoutedCall,
    ToolError,
>)
    ensures
        r matches Ok(c) ==> route(name@, count as nat) == Some((c.provider as nat, c.tool_name@))
            && c.arguments == arguments && c.provider < count,
        r matches Err(e) ==> route(name@, count as nat) is None && e@ == ToolErrorView::NoToolFound(
            name@,
        ),
{
    match route_tool_name(name, count) {
        Ok((provider, tool_name)) => Ok(RoutedCall { provider, tool_name, arguments }),
        Err(e) => Err(e),
    }
}

/// A tool of provider `i` as the aggregate exposes it.
pub open spec fn renamed(t: ToolView, i: nat) -> ToolView {
    ToolView { name: prefixed_name(i, t.name), ..t }
}

pub open spec fn lists_view(lists: Seq<Vec<Tool>>) -> Seq<Seq<ToolView>> {
    lists.map_values(|l: Vec<Tool>| tools_view(l@))
}

/// Where provider `i`'s tools begin in the aggregate list.
pub open spec fn offset(lists: Seq<Seq<ToolView>>, i: int) -> nat
    decreases i,
{
    if i <= 0 || i > lists.len() {
        0
    } else {
        offset(lists, i - 1) + lists[i - 1].len()
    }
}

/// The aggregate list: every provider's tools in provider order, each under
/// its public name.
pub open spec fn is_merged(r: Seq<ToolView>, lists: Seq<Seq<ToolView>>) -> bool {
    &&& r.len() == offset(lists, lists.len() as int)
    &&& forall|i: int, j: int|
        0 <= i < lists.len() && 0 <= j < lists[i].len() ==> #[trigger] r[offset(lists, i) + j]
            == renamed(#[trigger] lists[i][j], i as nat)
}

pub proof fn lemma_offset_grows(lists: Seq<Seq<ToolView>>, i: int, k: int)
    requires
        0 <= i < k <= lists.len(),
    ensures
        offset(lists, i) + lists[i].len() <= offset(lists, k),
    decreases k - i,
{
    if i + 1 < k {
        lemma_offset_grows(lists, i, k - 1);
    }
}

/// In the aggregate list, tools of different providers never share a name,
/// even where the providers' own names coincide.
pub proof fn lemma_merged_names_distinct(
    r: Seq<ToolView>,
    lists: Seq<Seq<ToolView>>,
    i1: int,
    j1: int,
    i2: int,
    j2: int,
)
    requires
        is_merged(r, lists),
        0 <= i1 < lists.len(),
        0 <= j1 < lists[i1].len(),
        0 <= i2 < lists.len(),
        0 <= j2 < lists[i2].len(),
        i1 != i2,
    ensures
        r[offset(lists, i1) + j1].name != r[offset(lists, i2) + j2].name,
{
    assert(r[offset(lists, i1) + j1] == renamed(lists[i1][j1], i1 as nat));
    assert(r[offset(lists, i2) + j2] == renamed(lists[i2][j2], i2 as nat));
    if r[offset(lists, i1) + j1].name == r[offset(lists, i2) + j2].name {
        lemma_prefixed_injective(i1 as nat, lists[i1][j1].name, i2 as nat, lists[i2][j2].name);
    }
}

/// Every public name in the aggregate list routes back to the provider that
/// listed the tool and to the tool's own name.
pub proof fn lemma_merged_routes_back(r: Seq<ToolView>, lists: Seq<Seq<ToolView>>, i: int, j: int)
    requires
        is_merged(r, lists),
        0 <= i < lists.len(),
        0 <= j < lists[i].len(),
    ensures
        route(r[offset(lists, i) + j].name, lists.len() as nat) == Some(
            (i as nat, lists[i][j].name),
        ),
{
    assert(r[offset(lists, i) + j] == renamed(lists[i][j], i as nat));
    lemma_route_prefixed(i as nat, lists[i][j].name, lists.len() as nat);
}

/// Joins the tool lists of several providers, in provider order, renaming
/// each tool to its public name.
pub fn merge_tools_definitions(lists: Vec<Vec<Tool>>) -> (r: Vec<Tool>)
    ensures
        is_merged(tools_view(r@), lists_view(lists@)),
{
    let ghost ls = lists_view(lists@);
    let total: usize = lists.len();
    let ghost n = lists@.len();
    let mut rest = lists;
    let mut r: Vec<Tool> = Vec::new();
    let mut i: usize = 0;
    while rest.len() > 0
        invariant
            n == ls.len(),
            n == total,
            0 <= i <= n,
            rest.len() == n - i,
            lists_view(rest@) == ls.skip(i as int),
            tools_view(r@).len() == offset(ls, i as int),
            forall|a: int, b: int|
                0 <= a < i && 0 <= b < ls[a].len() ==> #[trigger] tools_view(r@)[offset(ls, a) + b]
                    == renamed(#[trigger] ls[a][b], a as nat),
        decreases rest.len(),
    {
        let ghost before = rest@;
        assert(lists_view(before)[0] == ls[i as int]);
        let mut group = rest.remove(0);
        assert(rest@ =~= before.skip(1));
        assert forall|k: int| 0 <= k < rest@.len() implies #[trigger] lists_view(rest@)[k] == ls.skip(
            i + 1,
        )[k] by {
            assert(lists_view(before)[k + 1] == ls.skip(i as int)[k + 1]);
        }
        assert(lists_view(rest@) =~= ls.skip(i + 1));
        let ghost g = ls[i as int];
        let ghost base = offset(ls, i as int);
        let mut j: usize = 0;
        let group_len: usize = group.len();
        assert(tools_view(group@) == g);
        while group.len() > 0
            invariant
                n == ls.len(),
                n == total,
                g.len() == group_len,
                i < n,
                g == ls[i as int],
                base == offset(ls, i as int),
                0 <= j <= g.len(),
                group.len() == g.len() - j,
                tools_view(group@) == g.skip(j as int),
                tools_view(r@).len() == base + j,
                forall|a: int, b: int|
                    0 <= a < i && 0 <= b < ls[a].len() ==> #[trigger] tools_view(r@)[offset(ls, a)
                        + b] == renamed(#[trigger] ls[a][b], a as nat),
                forall|b: int|
                    0 <= b < j ==> #[trigger] tools_view(r@)[base + b] == renamed(g[b], i as nat),
            decreases group.len(),
        {
            let ghost gb = group@;
            assert(tools_view(gb)[0] == g[j as int]);
            let mut t = group.remove(0);
            assert(group@ =~= gb.skip(1));
            assert forall|k: int| 0 <= k < group@.len() implies #[trigger] tools_view(group@)[k]
                == g.skip(j + 1)[k] by {
                assert(tools_view(gb)[k + 1] == g.skip(j as int)[k + 1]);
            }
            assert(tools_view(group@) =~= g.skip(j + 1));
            let name = prefix_name(i, t.name.as_str());
            t.name = name;
            assert(t@ == renamed(g[j as int], i as nat));
            let ghost r0 = r@;
            r.push(t);
            proof {
                assert forall|a: int, b: int|
                    0 <= a < i && 0 <= b < ls[a].len() implies #[trigger] tools_view(r@)[offset(
                        ls,
                        a,
                    ) + b] == renamed(#[trigger] ls[a][b], a as nat) by {
                    lemma_offset_grows(ls, a, i as int);
                    assert(tools_view(r0)[offset(ls, a) + b] == renamed(ls[a][b], a as nat));
                }
                assert forall|b: int| 0 <= b < j + 1 implies #[trigger] tools_view(r@)[base + b]
                    == renamed(g[b], i as nat) by {
                    if b < j {
                        assert(tools_view(r0)[base + b] == renamed(g[b], i as nat));
                    }
                }
            }
            j = j + 1;
        }
        assert(j == g.len());
        i = i + 1;
        assert forall|a: int, b: int|
            0 <= a < i && 0 <= b < ls[a].len() implies #[trigger] tools_view(r@)[offset(ls, a) + b]
            == renamed(#[trigger] ls[a][b], a as nat) by {
            if a == i - 1 {
                assert(tools_view(r@)[base + b] == renamed(g[b], a as nat));
            }
        }
    }
    r
}

} // verus!
