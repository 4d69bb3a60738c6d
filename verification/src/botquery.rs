//! The chat front-end's free-form query language: whitespace-separated
//! tokens, `key:value` tokens setting the recognized fields, every other
//! token joining the free-text filter.

use vstd::prelude::*;
use vstd::string::{StrSliceExecFns, StringExecFns};
use crate::like::chars_of;

verus! {

/// A parsed chat query.
pub struct SearchQuery {
    pub id: Option<String>,
    pub main_text: Option<String>,
    pub name_and_trip: Option<String>,
    pub oekaki: Option<bool>,
    pub since: Option<String>,
    pub until: Option<String>,
    pub ascending: Option<bool>,
    pub limit: Option<usize>,
    pub count: Option<bool>,
}

/// Mathematical image of a [`SearchQuery`].
#[verifier::ext_equal]
pub ghost struct QueryModel {
    pub id: Option<Seq<char>>,
    pub main_text: Option<Seq<char>>,
    pub name_and_trip: Option<Seq<char>>,
    pub oekaki: Option<bool>,
    pub since: Option<Seq<char>>,
    pub until: Option<Seq<char>>,
    pub ascending: Option<bool>,
    pub limit: Option<usize>,
    pub count: Option<bool>,
}

impl View for SearchQuery {
    type V = QueryModel;

    open spec fn view(&self) -> QueryModel {
        QueryModel {
            id: crate::model::view_opt_str(self.id),
            main_text: crate::model::view_opt_str(self.main_text),
            name_and_trip: crate::model::view_opt_str(self.name_and_trip),
            oekaki: self.oekaki,
            since: crate::model::view_opt_str(self.since),
            until: crate::model::view_opt_str(self.until),
            ascending: self.ascending,
            limit: self.limit,
            count: self.count,
        }
    }
}

/// The query with nothing set.
pub open spec fn empty_query() -> QueryModel {
    QueryModel {
        id: None,
        main_text: None,
        name_and_trip: None,
        oekaki: None,
        since: None,
        until: None,
        ascending: None,
        limit: None,
        count: None,
    }
}

/// Token separators: ASCII whitespace.
pub open spec fn is_space(c: char) -> bool {
    c == ' ' || c == '\t' || c == '\n' || c == '\r'
}

/// Tokenizer state after the first `n` characters: the finished tokens
/// and the token still being read.
pub open spec fn toks_state(s: Seq<char>, n: int) -> (Seq<Seq<char>>, Seq<char>)
    decreases n,
{
    if n <= 0 {
        (Seq::empty(), Seq::empty())
    } else {
        let st = toks_state(s, n - 1);
        let c = s[n - 1];
        if is_space(c) {
            if st.1.len() > 0 {
                (st.0.push(st.1), Seq::empty())
            } else {
                st
            }
        } else {
            (st.0, st.1.push(c))
        }
    }
}

/// The whitespace-separated tokens of the input.
pub open spec fn spec_tokens(s: Seq<char>) -> Seq<Seq<char>> {
    let st = toks_state(s, s.len() as int);
    if st.1.len() > 0 {
        st.0.push(st.1)
    } else {
        st.0
    }
}

/// The index of the first `:` in a token, if any.
pub open spec fn colon_pos(t: Seq<char>) -> Option<int>
    decreases t.len(),
{
    if t.len() == 0 {
        None
    } else if t[0] == ':' {
        Some(0)
    } else {
        match colon_pos(t.drop_first()) {
            Some(i) => Some(i + 1),
            None => None,
        }
    }
}

/// `colon_pos` returns the first index holding `:`, or reports none does.
pub proof fn lemma_colon_pos(t: Seq<char>)
    ensures
        match colon_pos(t) {
            Some(i) => 0 <= i < t.len() && t[i] == ':' && (forall|j: int|
                0 <= j < i ==> t[j] != ':'),
            None => forall|j: int| 0 <= j < t.len() ==> t[j] != ':',
        },
    decreases t.len(),
{
    if t.len() > 0 && t[0] != ':' {
        lemma_colon_pos(t.drop_first());
        assert(forall|j: int| 1 <= j < t.len() ==> t[j] == t.drop_first()[j - 1]);
    }
}

/// `true` or `false`, exactly; anything else parses to nothing.
pub open spec fn spec_parse_bool(v: Seq<char>) -> Option<bool> {
    if v == "true"@ {
        Some(true)
    } else if v == "false"@ {
        Some(false)
    } else {
        None
    }
}

/// The value of a digit string, most significant first.
pub open spec fn digits_val(v: Seq<char>) -> int
    decreases v.len(),
{
    if v.len() == 0 {
        0
    } else {
        digits_val(v.drop_last()) * 10 + (v.last() as int - '0' as int)
    }
}

/// A nonempty string of decimal digits.
pub open spec fn all_digits(v: Seq<char>) -> bool {
    v.len() > 0 && forall|i: int| 0 <= i < v.len() ==> '0' <= #[trigger] v[i] <= '9'
}

/// An unsigned decimal as `usize` accepts it: an optional `+`, then
/// digits; nothing on overflow.
pub open spec fn spec_parse_usize(v: Seq<char>) -> Option<usize> {
    let w = if v.len() > 0 && v[0] == '+' {
        v.drop_first()
    } else {
        v
    };
    if all_digits(w) && digits_val(w) <= usize::MAX {
        Some(digits_val(w) as usize)
    } else {
        None
    }
}

/// One parse step: the query and the free-text tokens so far, after one
/// more token.
pub open spec fn apply_token(st: (QueryModel, Seq<Seq<char>>), t: Seq<char>) -> (
    QueryModel,
    Seq<Seq<char>>,
) {
    let q = st.0;
    let rem = st.1;
    match colon_pos(t) {
        Some(cp) => {
            let key = t.subrange(0, cp);
            let v = t.subrange(cp + 1, t.len() as int);
            if key == "id"@ {
                (QueryModel { id: Some(v), ..q }, rem)
            } else if key == "name_and_trip"@ {
                (QueryModel { name_and_trip: Some(v), ..q }, rem)
            } else if key == "oekaki"@ {
                (QueryModel { oekaki: spec_parse_bool(v), ..q }, rem)
            } else if key == "since"@ {
                (QueryModel { since: Some(v), ..q }, rem)
            } else if key == "until"@ {
                (QueryModel { until: Some(v), ..q }, rem)
            } else if key == "ascending"@ {
                (QueryModel { ascending: spec_parse_bool(v), ..q }, rem)
            } else if key == "limit"@ {
                (QueryModel { limit: spec_parse_usize(v), ..q }, rem)
            } else if key == "count"@ {
                (QueryModel { count: spec_parse_bool(v), ..q }, rem)
            } else {
                (q, rem.push(t))
            }
        },
        None => (q, rem.push(t)),
    }
}

/// The query and free-text tokens after the first `n` tokens.
pub open spec fn fold_tokens(ts: Seq<Seq<char>>, n: int) -> (QueryModel, Seq<Seq<char>>)
    decreases n,
{
    if n <= 0 {
        (empty_query(), Seq::empty())
    } else {
        apply_token(fold_tokens(ts, n - 1), ts[n - 1])
    }
}

/// Tokens joined with single spaces.
pub open spec fn join_spaces(ts: Seq<Seq<char>>) -> Seq<char>
    decreases ts.len(),
{
    if ts.len() == 0 {
        Seq::empty()
    } else if ts.len() == 1 {
        ts[0]
    } else {
        join_spaces(ts.drop_last()) + seq![' '] + ts.last()
    }
}

/// The whole parse: recognized `key:value` tokens set fields, the rest
/// joins, in order, into the free-text filter.
pub open spec fn spec_parse_query(input: Seq<char>) -> QueryModel {
    let ts = spec_tokens(input);
    let st = fold_tokens(ts, ts.len() as int);
    if st.1.len() > 0 {
        QueryModel { main_text: Some(join_spaces(st.1)), ..st.0 }
    } else {
        st.0
    }
}

/// View of a vector of strings as a sequence of character sequences.
pub open spec fn strs_view(s: Seq<String>) -> Seq<Seq<char>> {
    s.map_values(|x: String| x@)
}

/// Character-sequence equality of two strings.
fn str_eq(a: &str, b: &str) -> (r: bool)
    ensures
        r == (a@ == b@),
{
    let sa = String::from_str(a);
    let sb = String::from_str(b);
    sa == sb
}

/// `true`/`false`, exactly, as the chat parser reads flags.
fn parse_bool_str(v: &str) -> (r: Option<bool>)
    ensures
        r == spec_parse_bool(v@),
{
    if str_eq(v, "true") {
        Some(true)
    } else if str_eq(v, "false") {
        Some(false)
    } else {
        None
    }
}

/// A digit prefix never exceeds the value of the whole digit string.
proof fn lemma_digits_val_extend(w: Seq<char>, m: int)
    requires
        0 <= m <= w.len(),
        forall|i: int| 0 <= i < w.len() ==> '0' <= #[trigger] w[i] <= '9',
    ensures
        digits_val(w) >= digits_val(w.subrange(0, m)) >= 0,
    decreases w.len() - m,
{
    if m == w.len() {
        assert(w.subrange(0, m) =~= w);
        lemma_digits_val_nonneg(w);
    } else {
        lemma_digits_val_extend(w, m + 1);
        let a = w.subrange(0, m);
        let b = w.subrange(0, m + 1);
        assert(b.drop_last() =~= a);
        assert(b.last() == w[m]);
        lemma_digits_val_nonneg(a);
    }
}

/// A digit string's value is non-negative.
proof fn lemma_digits_val_nonneg(w: Seq<char>)
    requires
        forall|i: int| 0 <= i < w.len() ==> '0' <= #[trigger] w[i] <= '9',
    ensures
        digits_val(w) >= 0,
    decreases w.len(),
{
    if w.len() > 0 {
        assert(forall|i: int| 0 <= i < w.len() - 1 ==> w.drop_last()[i] == w[i]);
        lemma_digits_val_nonneg(w.drop_last());
    }
}

/// An unsigned decimal, as the chat parser reads `limit`.
#[verifier::loop_isolation(false)]
fn parse_usize_str(v: &str) -> (r: Option<usize>)
    ensures
        r == spec_parse_usize(v@),
{
    let chars = chars_of(v);
    let start: usize = if chars.len() > 0 && chars[0] == '+' {
        1
    } else {
        0
    };
    let ghost w = if start == 1 {
        v@.drop_first()
    } else {
        v@
    };
    proof {
        assert(w =~= v@.subrange(start as int, v@.len() as int));
    }
    if chars.len() == start {
        return None;
    }
    let mut acc: usize = 0;
    let mut k = start;
    while k < chars.len()
        invariant
            start <= k <= chars@.len(),
            forall|j: int| start <= j < k ==> '0' <= #[trigger] chars@[j] <= '9',
            acc == digits_val(v@.subrange(start as int, k as int)),
        decreases chars@.len() - k,
    {
        let c = chars[k];
        if c < '0' || c > '9' {
            proof {
                assert(w[k - start] == c);
                assert(!all_digits(w));
            }
            return None;
        }
        let d = (c as u32 - 48) as usize;
        let ghost pre = v@.subrange(start as int, k as int);
        let acc10 = match acc.checked_mul(10) {
            Some(x) => x,
            None => {
                proof {
                    overflow_means_none(v@, start as int, k as int, acc as int, 10 * (acc as int));
                }
                return None;
            },
        };
        let acc2 = match acc10.checked_add(d) {
            Some(x) => x,
            None => {
                proof {
                    overflow_means_none(v@, start as int, k as int, acc as int, 10 * (acc as int) + (d as int));
                }
                return None;
            },
        };
        acc = acc2;
        k = k + 1;
        proof {
            assert(v@.subrange(start as int, k as int).drop_last() =~= pre);
            assert(v@.subrange(start as int, k as int).last() == v@[k - 1]);
        }
    }
    proof {
        assert(v@.subrange(start as int, chars@.len() as int) =~= w);
        assert(all_digits(w));
    }
    Some(acc)
}

/// If an already-read prefix exceeds `usize`, the whole number does.
proof fn overflow_means_none(v: Seq<char>, start: int, k: int, acc: int, next: int)
    requires
        start == 0 || start == 1,
        (start == 1) <==> (v.len() > 0 && v[0] == '+'),
        start <= k < v.len(),
        forall|j: int| start <= j < k ==> '0' <= #[trigger] v[j] <= '9',
        '0' <= v[k] <= '9',
        acc == digits_val(v.subrange(start, k)),
        next > usize::MAX,
        next == 10 * acc || next == 10 * acc + (v[k] as int - '0' as int),
    ensures
        spec_parse_usize(v) is None,
{
    let w = if start == 1 {
        v.drop_first()
    } else {
        v
    };
    assert(w =~= v.subrange(start, v.len() as int));
    if all_digits(w) && digits_val(w) <= usize::MAX {
        assert(forall|j: int| 0 <= j < w.len() ==> w[j] == v[j + start]);
        lemma_digits_val_extend(w, k + 1 - start);
        let b = w.subrange(0, k + 1 - start);
        assert(b.drop_last() =~= w.subrange(0, k - start));
        assert(w.subrange(0, k - start) =~= v.subrange(start, k));
        assert(b.last() == v[k]);
        assert(digits_val(b) == 10 * acc + (v[k] as int - '0' as int));
        assert(digits_val(w) >= digits_val(b));
        assert(false);
    }
}

/// Splits the input into whitespace-separated tokens.
#[verifier::loop_isolation(false)]
fn tokenize(input: &str) -> (tokens: Vec<String>)
    ensures
        strs_view(tokens@) == spec_tokens(input@),
{
    let n = input.unicode_len();
    let mut tokens: Vec<String> = Vec::new();
    let mut start: Option<usize> = None;
    let mut i: usize = 0;
    while i < n
        invariant
            i <= n == input@.len(),
            match start {
                Some(st) => st < i && toks_state(input@, i as int) == (
                    strs_view(tokens@),
                    input@.subrange(st as int, i as int),
                ) && input@.subrange(st as int, i as int).len() > 0,
                None => toks_state(input@, i as int) == (
                    strs_view(tokens@),
                    Seq::<char>::empty(),
                ),
            },
        decreases n - i,
    {
        let c = input.get_char(i);
        let space = c == ' ' || c == '\t' || c == '\n' || c == '\r';
        let ghost st_prev = toks_state(input@, i as int);
        match start {
            Some(st) => {
                if space {
                    let tok = input.substring_char(st, i).to_owned();
                    tokens.push(tok);
                    start = None;
                    proof {
                        assert(strs_view(tokens@) =~~= st_prev.0.push(st_prev.1));
                    }
                } else {
                    proof {
                        assert(input@.subrange(st as int, i + 1) =~= input@.subrange(
                            st as int,
                            i as int,
                        ).push(input@[i as int]));
                    }
                }
            },
            None => {
                if !space {
                    start = Some(i);
                    proof {
                        assert(input@.subrange(i as int, i + 1) =~= Seq::<char>::empty().push(
                            input@[i as int],
                        ));
                    }
                }
            },
        }
        i = i + 1;
    }
    if let Some(st) = start {
        let tok = input.substring_char(st, n).to_owned();
        tokens.push(tok);
        proof {
            assert(strs_view(tokens@) =~~= spec_tokens(input@));
        }
    } else {
        proof {
            assert(strs_view(tokens@) =~~= spec_tokens(input@));
        }
    }
    tokens
}

/// The index of the first `:` in the token, scanning left to right.
#[verifier::loop_isolation(false)]
fn find_colon(t: &Vec<char>) -> (r: Option<usize>)
    ensures
        match r {
            Some(i) => colon_pos(t@) == Some(i as int),
            None => colon_pos(t@) is None,
        },
{
    let mut i: usize = 0;
    while i < t.len()
        invariant
            i <= t@.len(),
            forall|j: int| 0 <= j < i ==> t@[j] != ':',
        decreases t@.len() - i,
    {
        if t[i] == ':' {
            proof {
                lemma_colon_pos(t@);
                match colon_pos(t@) {
                    Some(fi) => {
                        if fi < i as int {
                            assert(t@[fi] != ':');
                        }
                        if fi > i as int {
                            assert(t@[i as int] != ':');
                        }
                    },
                    None => {
                        assert(t@[i as int] != ':');
                    },
                }
            }
            return Some(i);
        }
        i = i + 1;
    }
    proof {
        lemma_colon_pos(t@);
        match colon_pos(t@) {
            Some(fi) => {
                assert(t@[fi] != ':');
            },
            None => {},
        }
    }
    None
}

/// Parses the chat front-end's free-form query: `key:value` tokens set
/// the recognized fields (`id`, `name_and_trip`, `oekaki`, `since`,
/// `until`, `ascending`, `limit`, `count`); every other token joins the
/// free-text filter, single-spaced, in order.
#[verifier::loop_isolation(false)]
pub fn parse_search_query(input: &str) -> (q: SearchQuery)
    ensures
        q@ == spec_parse_query(input@),
{
    let tokens = tokenize(input);
    let ghost ts = strs_view(tokens@);

    let mut q = SearchQuery {
        id: None,
        main_text: None,
        name_and_trip: None,
        oekaki: None,
        since: None,
        until: None,
        ascending: None,
        limit: None,
        count: None,
    };
    let mut rem: Vec<String> = Vec::new();
    let mut k: usize = 0;
    while k < tokens.len()
        invariant
            k <= tokens@.len(),
            ts == strs_view(tokens@),
            (q@, strs_view(rem@)) == fold_tokens(ts, k as int),
        decreases tokens@.len() - k,
    {
        let ghost st_old = (q@, strs_view(rem@));
        let tok = &tokens[k];
        let tc = chars_of(tok.as_str());
        match find_colon(&tc) {
            Some(cp) => {
                proof {
                    lemma_colon_pos(tc@);
                }
                let tlen = tok.as_str().unicode_len();
                proof {
                    assert((cp as int) < tc@.len());
                    assert(tc@.len() == tlen as int);
                }
                let key = tok.as_str().substring_char(0, cp);
                let val = tok.as_str().substring_char(cp + 1, tlen);
                if str_eq(key, "id") {
                    q.id = Some(val.to_owned());
                } else if str_eq(key, "name_and_trip") {
                    q.name_and_trip = Some(val.to_owned());
                } else if str_eq(key, "oekaki") {
                    q.oekaki = parse_bool_str(val);
                } else if str_eq(key, "since") {
                    q.since = Some(val.to_owned());
                } else if str_eq(key, "until") {
                    q.until = Some(val.to_owned());
                } else if str_eq(key, "ascending") {
                    q.ascending = parse_bool_str(val);
                } else if str_eq(key, "limit") {
                    q.limit = parse_usize_str(val);
                } else if str_eq(key, "count") {
                    q.count = parse_bool_str(val);
                } else {
                    rem.push(tok.clone());
                    proof {
                        assert(strs_view(rem@) =~~= st_old.1.push(ts[k as int]));
                    }
                }
            },
            None => {
                rem.push(tok.clone());
                proof {
                    assert(strs_view(rem@) =~~= st_old.1.push(ts[k as int]));
                }
            },
        }
        k = k + 1;
        proof {
            assert((q@, strs_view(rem@)) =~~= apply_token(st_old, ts[k - 1]));
        }
    }

    if rem.len() > 0 {
        let mut joined = String::new();
        let mut j: usize = 0;
        proof {
            reveal_strlit(" ");
        }
        while j < rem.len()
            invariant
                j <= rem@.len(),
                rem@.len() > 0,
                joined@ == if j == 0 {
                    Seq::<char>::empty()
                } else {
                    join_spaces(strs_view(rem@).subrange(0, j as int))
                },
            decreases rem@.len() - j,
        {
            let ghost pre = strs_view(rem@).subrange(0, j as int);
            if j > 0 {
                joined.append(" ");
            }
            joined.append(rem[j].as_str());
            j = j + 1;
            proof {
                let cur = strs_view(rem@).subrange(0, j as int);
                assert(cur.drop_last() =~~= pre);
                assert(cur.last() == strs_view(rem@)[j - 1]);
                if j > 1 {
                    assert(joined@ =~= join_spaces(cur));
                }
            }
        }
        proof {
            assert(strs_view(rem@).subrange(0, rem@.len() as int) =~~= strs_view(rem@));
        }
        q.main_text = Some(joined);
    }
    proof {
        assert(q@ =~~= spec_parse_query(input@));
    }
    q
}

/// The request body of the raw post-search endpoint, as the chat
/// front-end sends it.
pub struct SearchRequest {
    pub id: Option<String>,
    pub main_text: Option<String>,
    pub name_and_trip: Option<String>,
    pub cursor: Option<i32>,
    pub ascending: Option<bool>,
    pub oekaki: Option<bool>,
    pub since: Option<String>,
    pub until: Option<String>,
}

/// The count endpoint's reply.
pub struct CountResponse {
    pub total_res_count: i64,
    pub unique_id_count: i64,
}

/// View of a vector of string pairs as sequences.
pub open spec fn pairs_view(s: Seq<(String, String)>) -> Seq<(Seq<char>, Seq<char>)> {
    s.map_values(|p: (String, String)| (p.0@, p.1@))
}

/// `true` or `false`, as a flag is sent over the wire.
pub open spec fn bool_str(b: bool) -> Seq<char> {
    if b {
        "true"@
    } else {
        "false"@
    }
}

/// The pair a present optional string field contributes.
pub open spec fn param_str(name: Seq<char>, v: Option<Seq<char>>) -> Seq<(Seq<char>, Seq<char>)> {
    match v {
        Some(s) => seq![(name, s)],
        None => Seq::empty(),
    }
}

/// The pair a present flag contributes.
pub open spec fn param_bool(name: Seq<char>, v: Option<bool>) -> Seq<(Seq<char>, Seq<char>)> {
    match v {
        Some(b) => seq![(name, bool_str(b))],
        None => Seq::empty(),
    }
}

/// The query parameters a parsed chat query sends to the search
/// service: every present filter, in a fixed order; `limit` and `count`
/// steer the front-end only and are never sent.
pub open spec fn spec_search_params(q: QueryModel) -> Seq<(Seq<char>, Seq<char>)> {
    param_str("id"@, q.id) + param_str("main_text"@, q.main_text) + param_str(
        "name_and_trip"@,
        q.name_and_trip,
    ) + param_bool("oekaki"@, q.oekaki) + param_str("since"@, q.since) + param_str(
        "until"@,
        q.until,
    ) + param_bool("ascending"@, q.ascending)
}

/// A flag as its wire text.
fn bool_string(b: bool) -> (r: String)
    ensures
        r@ == bool_str(b),
{
    if b {
        String::from_str("true")
    } else {
        String::from_str("false")
    }
}

/// Builds the key-value parameters the chat front-end sends to the
/// search service for a parsed query.
#[verifier::rlimit(100)]
pub fn build_search_params(q: &SearchQuery) -> (r: Vec<(String, String)>)
    ensures
        pairs_view(r@) == spec_search_params(q@),
{
    let mut ps: Vec<(String, String)> = Vec::new();
    if let Some(v) = &q.id {
        ps.push((String::from_str("id"), v.clone()));
    }
    proof {
        assert(pairs_view(ps@) =~~= param_str("id"@, q@.id));
    }
    let ghost s1 = pairs_view(ps@);
    if let Some(v) = &q.main_text {
        ps.push((String::from_str("main_text"), v.clone()));
    }
    proof {
        assert(pairs_view(ps@) =~~= s1 + param_str("main_text"@, q@.main_text));
    }
    let ghost s2 = pairs_view(ps@);
    if let Some(v) = &q.name_and_trip {
        ps.push((String::from_str("name_and_trip"), v.clone()));
    }
    proof {
        assert(pairs_view(ps@) =~~= s2 + param_str("name_and_trip"@, q@.name_and_trip));
    }
    let ghost s3 = pairs_view(ps@);
    if let Some(b) = q.oekaki {
        ps.push((String::from_str("oekaki"), bool_string(b)));
    }
    proof {
        assert(pairs_view(ps@) =~~= s3 + param_bool("oekaki"@, q@.oekaki));
    }
    let ghost s4 = pairs_view(ps@);
    if let Some(v) = &q.since {
        ps.push((String::from_str("since"), v.clone()));
    }
    proof {
        assert(pairs_view(ps@) =~~= s4 + param_str("since"@, q@.since));
    }
    let ghost s5 = pairs_view(ps@);
    if let Some(v) = &q.until {
        ps.push((String::from_str("until"), v.clone()));
    }
    proof {
        assert(pairs_view(ps@) =~~= s5 + param_str("until"@, q@.until));
    }
    let ghost s6 = pairs_view(ps@);
    if let Some(b) = q.ascending {
        ps.push((String::from_str("ascending"), bool_string(b)));
    }
    proof {
        assert(pairs_view(ps@) =~~= s6 + param_bool("ascending"@, q@.ascending));
        assert(pairs_view(ps@) =~~= spec_search_params(q@));
    }
    ps
}

/// The number of posts the front-end shows: the query's `limit`, or
/// the configured default.
pub fn effective_limit(limit: Option<usize>, default_limit: usize) -> (r: usize)
    ensures
        r == (match limit {
            Some(l) => l,
            None => default_limit,
        }),
{
    match limit {
        Some(l) => l,
        None => default_limit,
    }
}

} // verus!
