use vstd::prelude::*;

use crate::condition::Condition;
use crate::decimal::{decimal, write_decimal};

verus! {

/// Number of results asked for when a request does not say.
pub fn default_results_num() -> (r: i8)
    ensures
        r == 100,
{
    100
}

/// What a search looks at.
#[derive(Debug, Clone, Copy, PartialEq, Eq, Structural)]
pub enum ReqType {
    /// Reference cases.
    Reference,
    /// Research guides.
    Manual,
    /// Special collections.
    Collection,
    /// Profiles of the participating libraries.
    Profile,
    /// All of the above.
    All,
}

impl ReqType {
    pub open spec fn spec_name(self) -> Seq<char> {
        match self {
            ReqType::Reference => "reference"@,
            ReqType::Manual => "manual"@,
            ReqType::Collection => "collection"@,
            ReqType::Profile => "profile"@,
            ReqType::All => "all"@,
        }
    }

    /// The value of the `type` parameter.
    pub fn as_str(&self) -> (r: &'static str)
        ensures
            r@ == self.spec_name(),
    {
        match self {
            ReqType::Reference => "reference",
            ReqType::Manual => "manual",
            ReqType::Collection => "collection",
            ReqType::Profile => "profile",
            ReqType::All => "all",
        }
    }
}

/// A group of providing libraries to restrict the search to.
#[derive(Debug, Clone, Copy, PartialEq, Eq, Structural)]
pub enum LibGroup {
    /// Every library.
    All,
    /// The national library.
    Ndl,
    /// Public libraries.
    Public,
    /// University libraries.
    Academic,
    /// Special libraries.
    Special,
    /// School libraries.
    School,
    /// Archives.
    Archives,
}

impl LibGroup {
    pub open spec fn spec_name(self) -> Seq<char> {
        match self {
            LibGroup::All => "all"@,
            LibGroup::Ndl => "ndl"@,
            LibGroup::Public => "public"@,
            LibGroup::Academic => "academic"@,
            LibGroup::Special => "special"@,
            LibGroup::School => "school"@,
            LibGroup::Archives => "archives"@,
        }
    }

    /// The value of the `lib_group` parameter.
    pub fn as_str(&self) -> (r: &'static str)
        ensures
            r@ == self.spec_name(),
    {
        match self {
            LibGroup::All => "all",
            LibGroup::Ndl => "ndl",
            LibGroup::Public => "public",
            LibGroup::Academic => "academic",
            LibGroup::Special => "special",
            LibGroup::School => "school",
            LibGroup::Archives => "archives",
        }
    }
}

/// A search: what to look at, the condition, optional filters on the
/// providing library, where to start in the hits and how many to return.
#[derive(Debug, Clone)]
pub struct CrdSearchRequest {
    pub ty: ReqType,
    pub condition: Condition,
    /// Exact code of the providing library.
    pub lib_id: Option<String>,
    pub lib_group: Option<LibGroup>,
    /// Zero-based position of the first hit to return.
    pub results_get_position: Option<i32>,
    /// How many hits to return, from 0 to 100.
    pub results_num: i8,
}

/// A request whose count of results lies outside 0 to 100.
#[derive(Debug, Clone, Copy, PartialEq, Eq, Structural)]
pub struct ResultsNumError;

pub type QueryPairs = Seq<(Seq<char>, Seq<char>)>;

/// One parameter if the value is there, none otherwise.
pub open spec fn opt_pair(name: Seq<char>, value: Option<Seq<char>>) -> QueryPairs {
    match value {
        Some(v) => seq![(name, v)],
        None => seq![],
    }
}

/// The parameter names that come from the condition, in the order they are sent.
pub open spec fn condition_names() -> Seq<Seq<char>> {
    seq![
        "query"@,
        "crt-date_from"@,
        "crt-date_to"@,
        "reg-date_from"@,
        "reg-date_to"@,
        "lst-date_from"@,
        "lst-date_to"@,
    ]
}

/// The condition's fields, in the order of `condition_names`.
pub open spec fn condition_values(c: Condition) -> Seq<Option<Seq<char>>> {
    seq![
        c.query.deep_view(),
        c.crt_date_from.deep_view(),
        c.crt_date_to.deep_view(),
        c.reg_date_from.deep_view(),
        c.reg_date_to.deep_view(),
        c.lst_date_from.deep_view(),
        c.lst_date_to.deep_view(),
    ]
}

pub open spec fn condition_pairs(c: Condition) -> QueryPairs {
    opt_pair("query"@, c.query.deep_view())
        + opt_pair("crt-date_from"@, c.crt_date_from.deep_view())
        + opt_pair("crt-date_to"@, c.crt_date_to.deep_view())
        + opt_pair("reg-date_from"@, c.reg_date_from.deep_view())
        + opt_pair("reg-date_to"@, c.reg_date_to.deep_view())
        + opt_pair("lst-date_from"@, c.lst_date_from.deep_view())
        + opt_pair("lst-date_to"@, c.lst_date_to.deep_view())
}

/// The query parameters of a request: `type` and `results_num` first, then
/// the condition's fields that are set, then the filters and the cursor.
pub open spec fn query_pairs(r: CrdSearchRequest) -> QueryPairs {
    seq![("type"@, r.ty.spec_name()), ("results_num"@, decimal(r.results_num as int))]
        + condition_pairs(r.condition)
        + opt_pair("lib_id"@, r.lib_id.deep_view())
        + opt_pair(
            "lib_group"@,
            match r.lib_group {
                Some(g) => Some(g.spec_name()),
                None => None,
            },
        )
        + opt_pair(
            "results_get_position"@,
            match r.results_get_position {
                Some(p) => Some(decimal(p as int)),
                None => None,
            },
        )
}

fn push_pair(out: &mut Vec<(String, String)>, name: &str, value: String)
    ensures
        final(out).deep_view() == old(out).deep_view() + seq![(name@, value@)],
{
    out.push((String::from_str(name), value));
    assert(final(out).deep_view() =~= old(out).deep_view() + seq![(name@, value@)]);
}

fn push_opt(out: &mut Vec<(String, String)>, name: &str, value: &Option<String>)
    ensures
        final(out).deep_view() == old(out).deep_view() + opt_pair(name@, value.deep_view()),
{
    if let Some(v) = value {
        push_pair(out, name, v.clone());
    } else {
        assert(out.deep_view() =~= old(out).deep_view() + opt_pair(name@, value.deep_view()));
    }
}

fn condition_vec(c: &Condition) -> (r: Vec<(String, String)>)
    ensures
        r.deep_view() == condition_pairs(*c),
{
    let mut out: Vec<(String, String)> = Vec::new();
    push_opt(&mut out, "query", &c.query);
    assert(out.deep_view() =~= opt_pair("query"@, c.query.deep_view()));
    push_opt(&mut out, "crt-date_from", &c.crt_date_from);
    push_opt(&mut out, "crt-date_to", &c.crt_date_to);
    push_opt(&mut out, "reg-date_from", &c.reg_date_from);
    push_opt(&mut out, "reg-date_to", &c.reg_date_to);
    push_opt(&mut out, "lst-date_from", &c.lst_date_from);
    push_opt(&mut out, "lst-date_to", &c.lst_date_to);
    out
}

impl CrdSearchRequest {
    /// Whether the count of results lies in 0 to 100.
    pub fn validate(&self) -> (r: Result<(), ResultsNumError>)
        ensures
            r is Ok <==> 0 <= self.results_num <= 100,
    {
        if 0 <= self.results_num && self.results_num <= 100 {
            Ok(())
        } else {
            Err(ResultsNumError)
        }
    }

    /// The query parameters to send for this request, in order.
    pub fn query_pairs(&self) -> (r: Vec<(String, String)>)
        ensures
            r.deep_view() == query_pairs(*self),
    {
        let mut out: Vec<(String, String)> = Vec::new();
        push_pair(&mut out, "type", String::from_str(self.ty.as_str()));
        let mut num = String::new();
        write_decimal(&mut num, self.results_num as i64);
        push_pair(&mut out, "results_num", num);
        assert(out.deep_view() =~= seq![("type"@, self.ty.spec_name()), ("results_num"@, decimal(self.results_num as int))]);
        let mut cond = condition_vec(&self.condition);
        out.append(&mut cond);
        push_opt(&mut out, "lib_id", &self.lib_id);
        let group: Option<String> = match &self.lib_group {
            Some(g) => Some(String::from_str(g.as_str())),
            None => None,
        };
        push_opt(&mut out, "lib_group", &group);
        let position: Option<String> = match self.results_get_position {
            Some(p) => {
                let mut s = String::new();
                write_decimal(&mut s, p as i64);
                Some(s)
            },
            None => None,
        };
        push_opt(&mut out, "results_get_position", &position);
        out
    }
}

/// How many parameters are named `n`.
pub open spec fn count_name(s: QueryPairs, n: Seq<char>) -> nat
    decreases s.len(),
{
    if s.len() == 0 {
        0
    } else {
        count_name(s.drop_last(), n) + if s.last().0 == n {
            1nat
        } else {
            0nat
        }
    }
}

proof fn lemma_count_add(a: QueryPairs, b: QueryPairs, n: Seq<char>)
    ensures
        count_name(a + b, n) == count_name(a, n) + count_name(b, n),
    decreases b.len(),
{
    if b.len() == 0 {
        assert(a + b =~= a);
    } else {
        assert((a + b).drop_last() =~= a + b.drop_last());
        lemma_count_add(a, b.drop_last(), n);
    }
}

proof fn lemma_count_opt(name: Seq<char>, v: Option<Seq<char>>, n: Seq<char>)
    ensures
        count_name(opt_pair(name, v), n) == if v is Some && name == n {
            1nat
        } else {
            0nat
        },
{
    let s = opt_pair(name, v);
    if v is Some {
        assert(s.drop_last() =~= seq![]);
        assert(count_name(s.drop_last(), n) == 0);
        assert(s.last().0 == name);
    } else {
        assert(s =~= seq![]);
    }
}

/// The parameter names are pairwise different, and the condition's names
/// differ from the other parameters' names.
proof fn lemma_names_distinct()
    ensures
        forall|a: int, b: int|
            0 <= a < 7 && 0 <= b < 7 && a != b ==> #[trigger] condition_names()[a]
                != #[trigger] condition_names()[b],
        forall|a: int|
            0 <= a < 7 ==> {
                let n = #[trigger] condition_names()[a];
                &&& n != "type"@
                &&& n != "results_num"@
                &&& n != "lib_id"@
                &&& n != "lib_group"@
                &&& n != "results_get_position"@
            },
{
    reveal_strlit("type");
    reveal_strlit("results_num");
    reveal_strlit("query");
    reveal_strlit("crt-date_from");
    reveal_strlit("crt-date_to");
    reveal_strlit("reg-date_from");
    reveal_strlit("reg-date_to");
    reveal_strlit("lst-date_from");
    reveal_strlit("lst-date_to");
    reveal_strlit("lib_id");
    reveal_strlit("lib_group");
    reveal_strlit("results_get_position");
    let ns = condition_names();
    assert forall|a: int| 0 <= a < 7 implies ns[a].len() >= 5 && (ns[a].len() == 5 || ns[a].len()
        == 11 || ns[a].len() == 13) && (ns[a].len() == 11 ==> ns[a][2] != 's') by {}
    assert forall|a: int, b: int|
        0 <= a < 7 && 0 <= b < 7 && a != b implies ns[a].len() != ns[b].len() || ns[a][0]
        != ns[b][0] by {}
    assert forall|a: int| 0 <= a < 7 implies #[trigger] ns[a] != "results_num"@ by {
        if ns[a].len() == 11 {
            assert(ns[a][2] != "results_num"@[2]);
        }
    }
}

/// Each name counted over the condition's parameters.
proof fn lemma_count_condition(c: Condition, n: Seq<char>)
    ensures
        count_name(condition_pairs(c), n) == (if c.query is Some && "query"@ == n { 1nat } else { 0nat })
            + (if c.crt_date_from is Some && "crt-date_from"@ == n { 1nat } else { 0nat })
            + (if c.crt_date_to is Some && "crt-date_to"@ == n { 1nat } else { 0nat })
            + (if c.reg_date_from is Some && "reg-date_from"@ == n { 1nat } else { 0nat })
            + (if c.reg_date_to is Some && "reg-date_to"@ == n { 1nat } else { 0nat })
            + (if c.lst_date_from is Some && "lst-date_from"@ == n { 1nat } else { 0nat })
            + (if c.lst_date_to is Some && "lst-date_to"@ == n { 1nat } else { 0nat }),
{
    let p0 = opt_pair("query"@, c.query.deep_view());
    let p1 = opt_pair("crt-date_from"@, c.crt_date_from.deep_view());
    let p2 = opt_pair("crt-date_to"@, c.crt_date_to.deep_view());
    let p3 = opt_pair("reg-date_from"@, c.reg_date_from.deep_view());
    let p4 = opt_pair("reg-date_to"@, c.reg_date_to.deep_view());
    let p5 = opt_pair("lst-date_from"@, c.lst_date_from.deep_view());
    let p6 = opt_pair("lst-date_to"@, c.lst_date_to.deep_view());
    lemma_count_add(p0, p1, n);
    lemma_count_add(p0 + p1, p2, n);
    lemma_count_add(p0 + p1 + p2, p3, n);
    lemma_count_add(p0 + p1 + p2 + p3, p4, n);
    lemma_count_add(p0 + p1 + p2 + p3 + p4, p5, n);
    lemma_count_add(p0 + p1 + p2 + p3 + p4 + p5, p6, n);
    lemma_count_opt("query"@, c.query.deep_view(), n);
    lemma_count_opt("crt-date_from"@, c.crt_date_from.deep_view(), n);
    lemma_count_opt("crt-date_to"@, c.crt_date_to.deep_view(), n);
    lemma_count_opt("reg-date_from"@, c.reg_date_from.deep_view(), n);
    lemma_count_opt("reg-date_to"@, c.reg_date_to.deep_view(), n);
    lemma_count_opt("lst-date_from"@, c.lst_date_from.deep_view(), n);
    lemma_count_opt("lst-date_to"@, c.lst_date_to.deep_view(), n);
}

/// A name of the condition's parameters is counted in a request exactly as
/// often as in the condition's own parameters: no other parameter bears it.
proof fn lemma_count_request(r: CrdSearchRequest, n: Seq<char>)
    requires
        condition_names().contains(n),
    ensures
        count_name(query_pairs(r), n) == count_name(condition_pairs(r.condition), n),
{
    reveal_strlit("type");
    reveal_strlit("results_num");
    reveal_strlit("query");
    reveal_strlit("crt-date_from");
    reveal_strlit("crt-date_to");
    reveal_strlit("reg-date_from");
    reveal_strlit("reg-date_to");
    reveal_strlit("lst-date_from");
    reveal_strlit("lst-date_to");
    reveal_strlit("lib_id");
    reveal_strlit("lib_group");
    reveal_strlit("results_get_position");
    let names = condition_names();
    let j = choose|j: int| 0 <= j < names.len() && names[j] == n;
    let head = seq![("type"@, r.ty.spec_name()), ("results_num"@, decimal(r.results_num as int))];
    let cp = condition_pairs(r.condition);
    let lib = opt_pair("lib_id"@, r.lib_id.deep_view());
    let group = opt_pair(
        "lib_group"@,
        match r.lib_group {
            Some(g) => Some(g.spec_name()),
            None => None,
        },
    );
    let pos = opt_pair(
        "results_get_position"@,
        match r.results_get_position {
            Some(p) => Some(decimal(p as int)),
            None => None,
        },
    );
    assert(head.drop_last() =~= seq![("type"@, r.ty.spec_name())]);
    assert(head.drop_last().drop_last() =~= seq![]);
    lemma_names_distinct();
    assert(names[j] == n);
    assert(n != "type"@ && n != "results_num"@);
    assert(n != "lib_id"@ && n != "lib_group"@ && n != "results_get_position"@);
    assert(count_name(head.drop_last().drop_last(), n) == 0);
    assert(head.drop_last().last().0 == "type"@);
    assert(count_name(head.drop_last(), n) == 0);
    assert(head.last().0 == "results_num"@);
    assert(count_name(head, n) == 0);
    lemma_count_add(head, cp, n);
    lemma_count_add(head + cp, lib, n);
    lemma_count_add(head + cp + lib, group, n);
    lemma_count_add(head + cp + lib + group, pos, n);
    lemma_count_opt("lib_id"@, r.lib_id.deep_view(), n);
    lemma_count_opt(
        "lib_group"@,
        match r.lib_group {
            Some(g) => Some(g.spec_name()),
            None => None,
        },
        n,
    );
    lemma_count_opt(
        "results_get_position"@,
        match r.results_get_position {
            Some(p) => Some(decimal(p as int)),
            None => None,
        },
        n,
    );
}

/// When exactly one field of the condition is set, the query holds that
/// field's parameter name exactly once and none of the other six names.
pub proof fn lemma_single_condition_field(r: CrdSearchRequest, f: int)
    requires
        0 <= f < 7,
        condition_values(r.condition)[f] is Some,
        forall|g: int| 0 <= g < 7 && g != f ==> condition_values(r.condition)[g] is None,
    ensures
        count_name(query_pairs(r), condition_names()[f]) == 1,
        forall|g: int|
            0 <= g < 7 && g != f ==> count_name(query_pairs(r), #[trigger] condition_names()[g]) == 0,
{
    reveal_strlit("query");
    reveal_strlit("crt-date_from");
    reveal_strlit("crt-date_to");
    reveal_strlit("reg-date_from");
    reveal_strlit("reg-date_to");
    reveal_strlit("lst-date_from");
    reveal_strlit("lst-date_to");
    let names = condition_names();
    let vals = condition_values(r.condition);
    lemma_names_distinct();
    assert(names.contains(names[f]));
    lemma_count_request(r, names[f]);
    lemma_count_condition(r.condition, names[f]);
    assert forall|g: int| 0 <= g < 7 && g != f implies count_name(
        query_pairs(r),
        #[trigger] names[g],
    ) == 0 by {
        assert(names.contains(names[g]));
        lemma_count_request(r, names[g]);
        lemma_count_condition(r.condition, names[g]);
    }
}

/// The count of results is always the second parameter, and a cursor, when
/// given, is the last one; the parameters depend on the request alone, so
/// equal requests give equal parameters in the same order.
pub proof fn lemma_paging_parameters(r: CrdSearchRequest, same: CrdSearchRequest)
    requires
        same == r,
    ensures
        query_pairs(r)[1] == ("results_num"@, decimal(r.results_num as int)),
        r.results_get_position matches Some(p) ==> query_pairs(r).last() == (
            "results_get_position"@,
            decimal(p as int),
        ),
        query_pairs(same) == query_pairs(r),
{
}

} // verus!
