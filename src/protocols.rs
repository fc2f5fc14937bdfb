//! Names of components and endpoints on the wire: `namespace/component/endpoint`
//! paths and `dyn://` URLs.
use vstd::prelude::*;
use std::str::FromStr;
use crate::text::chars_of;
use crate::text::chars_start_with;
use crate::text::has_prefix;
use crate::text::push_char;
use crate::text::str_eq;
use crate::text::string_of;

verus! {

/// Namespace used when a path names none.
pub const DEFAULT_NAMESPACE: &'static str = "NS";

/// Component used when a path names none.
pub const DEFAULT_COMPONENT: &'static str = "C";

/// Endpoint used when a path names none.
pub const DEFAULT_ENDPOINT: &'static str = "E";

/// How a namespace/component/endpoint URL starts.
pub const ENDPOINT_SCHEME: &'static str = "dyn://";

/// A component of a namespace.
#[derive(Debug, Clone, PartialEq, Eq)]
pub struct Component {
    pub name: String,
    pub namespace: String,
}

/// An endpoint: a namespace, a component and a name.
#[derive(Debug, Clone, PartialEq, Eq)]
pub struct Endpoint {
    pub namespace: String,
    pub component: String,
    pub name: String,
}

/// The error of parsing an endpoint, which never happens: every string names
/// an endpoint.
#[derive(Debug, Clone, Copy, PartialEq, Eq, Structural)]
pub struct ParseEndpointError;

// ----- the model -----

/// The characters that separate the parts of a path.
pub open spec fn is_sep(c: char) -> bool {
    c == '.' || c == '/'
}

/// The characters trimmed from both ends of a path.
pub open spec fn is_trim(c: char) -> bool {
    c == ' ' || is_sep(c)
}

/// How many characters are trimmed from the start of `s`.
pub open spec fn lead_trim(s: Seq<char>) -> nat
    decreases s.len(),
{
    if s.len() > 0 && is_trim(s[0]) {
        1 + lead_trim(s.drop_first())
    } else {
        0
    }
}

/// How many characters are trimmed from the end of `s`.
pub open spec fn trail_trim(s: Seq<char>) -> nat
    decreases s.len(),
{
    if s.len() > 0 && is_trim(s.last()) {
        1 + trail_trim(s.drop_last())
    } else {
        0
    }
}

/// `s` without the spaces, dots and slashes at either end.
pub open spec fn trimmed(s: Seq<char>) -> Seq<char> {
    let t = s.subrange(lead_trim(s) as int, s.len() as int);
    t.subrange(0, t.len() - trail_trim(t))
}

/// The non-empty parts of `t` between separators, in order.
pub open spec fn parts(t: Seq<char>) -> Seq<Seq<char>>
    decreases t.len(),
{
    if t.len() == 0 {
        Seq::empty()
    } else {
        let p = parts(t.drop_last());
        let c = t.last();
        if is_sep(c) {
            p
        } else if t.len() >= 2 && !is_sep(t[t.len() - 2]) {
            p.drop_last().push(p.last().push(c))
        } else {
            p.push(seq![c])
        }
    }
}

/// The parts joined with `_`.
pub open spec fn join_underscore(ps: Seq<Seq<char>>) -> Seq<char>
    decreases ps.len(),
{
    if ps.len() == 0 {
        Seq::empty()
    } else if ps.len() == 1 {
        ps[0]
    } else {
        join_underscore(ps.drop_last()) + seq!['_'] + ps.last()
    }
}

/// The (namespace, component, name) that a path names. Missing parts take
/// their default; one part is the component; a fourth part and beyond are
/// joined to the third with `_`.
pub open spec fn endpoint_of(s: Seq<char>) -> (Seq<char>, Seq<char>, Seq<char>) {
    let ps = parts(trimmed(s));
    if ps.len() == 0 {
        (DEFAULT_NAMESPACE@, DEFAULT_COMPONENT@, DEFAULT_ENDPOINT@)
    } else if ps.len() == 1 {
        (DEFAULT_NAMESPACE@, ps[0], DEFAULT_ENDPOINT@)
    } else if ps.len() == 2 {
        (ps[0], ps[1], DEFAULT_ENDPOINT@)
    } else {
        (ps[0], ps[1], join_underscore(ps.subrange(2, ps.len() as int)))
    }
}

/// What `s` names as an endpoint, after an optional `dyn://`.
pub open spec fn endpoint_of_url(s: Seq<char>) -> (Seq<char>, Seq<char>, Seq<char>) {
    if has_prefix(s, ENDPOINT_SCHEME@) {
        endpoint_of(s.subrange(ENDPOINT_SCHEME@.len() as int, s.len() as int))
    } else {
        endpoint_of(s)
    }
}

pub open spec fn string_views(v: Seq<String>) -> Seq<Seq<char>> {
    v.map_values(|x: String| x@)
}

// ----- parsing -----

fn is_sep_char(c: char) -> (r: bool)
    ensures
        r == is_sep(c),
{
    c == '.' || c == '/'
}

fn is_trim_char(c: char) -> (r: bool)
    ensures
        r == is_trim(c),
{
    c == ' ' || is_sep_char(c)
}

proof fn lemma_lead_step(s: Seq<char>, i: int)
    requires
        0 <= i < s.len(),
        is_trim(s[i]),
    ensures
        lead_trim(s.subrange(i, s.len() as int)) == 1 + lead_trim(s.subrange(i + 1, s.len() as int)),
{
    assert(s.subrange(i, s.len() as int).drop_first() =~= s.subrange(i + 1, s.len() as int));
}

proof fn lemma_trail_step(s: Seq<char>, lo: int, j: int)
    requires
        0 <= lo < j <= s.len(),
        is_trim(s[j - 1]),
    ensures
        trail_trim(s.subrange(lo, j)) == 1 + trail_trim(s.subrange(lo, j - 1)),
{
    assert(s.subrange(lo, j).drop_last() =~= s.subrange(lo, j - 1));
}

/// The bounds of `cs` without its trimmed ends.
fn trim_bounds(cs: &Vec<char>) -> (r: (usize, usize))
    ensures
        r.0 <= r.1 <= cs@.len(),
        cs@.subrange(r.0 as int, r.1 as int) == trimmed(cs@),
{
    let n = cs.len();
    let mut lo: usize = 0;
    assert(cs@ =~= cs@.subrange(0, n as int));
    while lo < n && is_trim_char(cs[lo])
        invariant
            n == cs@.len(),
            lo <= n,
            lead_trim(cs@) == lo + lead_trim(cs@.subrange(lo as int, n as int)),
        decreases n - lo,
    {
        proof {
            lemma_lead_step(cs@, lo as int);
        }
        lo = lo + 1;
    }
    assert(lead_trim(cs@.subrange(lo as int, n as int)) == 0);
    let mut hi: usize = n;
    while hi > lo && is_trim_char(cs[hi - 1])
        invariant
            n == cs@.len(),
            lo <= hi <= n,
            lead_trim(cs@) == lo,
            trail_trim(cs@.subrange(lo as int, n as int)) == (n - hi) + trail_trim(
                cs@.subrange(lo as int, hi as int),
            ),
        decreases hi - lo,
    {
        proof {
            lemma_trail_step(cs@, lo as int, hi as int);
        }
        hi = hi - 1;
    }
    proof {
        let t = cs@.subrange(lo as int, n as int);
        assert(trail_trim(cs@.subrange(lo as int, hi as int)) == 0);
        assert(t.subrange(0, t.len() - trail_trim(t)) =~= cs@.subrange(lo as int, hi as int));
    }
    (lo, hi)
}

/// The non-empty parts of `cs[lo..hi]` between separators.
fn split_parts(cs: &Vec<char>, lo: usize, hi: usize) -> (r: Vec<String>)
    requires
        lo <= hi <= cs@.len(),
    ensures
        string_views(r@) == parts(cs@.subrange(lo as int, hi as int)),
{
    let mut done: Vec<String> = Vec::new();
    let mut cur = String::new();
    let mut k: usize = lo;
    while k < hi
        invariant
            lo <= k <= hi <= cs@.len(),
            cur@.len() > 0 <==> (k > lo && !is_sep(cs@[k - 1])),
            cur@.len() > 0 ==> parts(cs@.subrange(lo as int, k as int)) == string_views(
                done@,
            ).push(cur@),
            cur@.len() == 0 ==> parts(cs@.subrange(lo as int, k as int)) == string_views(done@),
        decreases hi - k,
    {
        let c = cs[k];
        let ghost t = cs@.subrange(lo as int, k + 1);
        let ghost before = string_views(done@);
        proof {
            assert(t.drop_last() =~= cs@.subrange(lo as int, k as int));
            assert(t.last() == c);
            if t.len() >= 2 {
                assert(t[t.len() - 2] == cs@[k - 1]);
            }
        }
        if is_sep_char(c) {
            if cur.unicode_len() > 0 {
                done.push(cur);
                cur = String::new();
                proof {
                    assert(string_views(done@) =~= before.push(string_views(done@).last()));
                }
            }
        } else {
            let ghost old_cur = cur@;
            push_char(&mut cur, c);
            proof {
                if old_cur.len() > 0 {
                    let p = before.push(old_cur);
                    assert(p.drop_last() =~= before);
                    assert(parts(t) == before.push(cur@));
                } else {
                    assert(parts(t) == before.push(seq![c]));
                    assert(cur@ =~= seq![c]);
                }
            }
        }
        k = k + 1;
    }
    if cur.unicode_len() > 0 {
        let ghost before = string_views(done@);
        done.push(cur);
        proof {
            assert(string_views(done@) =~= before.push(string_views(done@).last()));
        }
    }
    done
}

/// `ps[2..]` joined with `_`.
fn join_tail(ps: &Vec<String>) -> (r: String)
    requires
        ps@.len() > 2,
    ensures
        r@ == join_underscore(string_views(ps@).subrange(2, ps@.len() as int)),
{
    let mut r: String = ps[2].clone();
    let mut i: usize = 3;
    proof {
        let s = string_views(ps@).subrange(2, 3);
        assert(s.len() == 1);
    }
    while i < ps.len()
        invariant
            3 <= i <= ps@.len(),
            r@ == join_underscore(string_views(ps@).subrange(2, i as int)),
        decreases ps@.len() - i,
    {
        push_char(&mut r, '_');
        r.append(ps[i].as_str());
        proof {
            let s = string_views(ps@).subrange(2, i + 1);
            assert(s.drop_last() =~= string_views(ps@).subrange(2, i as int));
        }
        i = i + 1;
    }
    r
}

impl Endpoint {
    /// The endpoint that a path names: `namespace/component/endpoint`, with `.`
    /// or `/` between the parts (see `endpoint_of`).
    pub fn from_path(input: &str) -> (r: Endpoint)
        ensures
            (r.namespace@, r.component@, r.name@) == endpoint_of(input@),
    {
        let cs = chars_of(input);
        let (lo, hi) = trim_bounds(&cs);
        let ps = split_parts(&cs, lo, hi);
        let ghost v = string_views(ps@);
        let n = ps.len();
        if n == 0 {
            Endpoint::default()
        } else if n == 1 {
            Endpoint {
                namespace: DEFAULT_NAMESPACE.to_owned(),
                component: ps[0].clone(),
                name: DEFAULT_ENDPOINT.to_owned(),
            }
        } else if n == 2 {
            Endpoint {
                namespace: ps[0].clone(),
                component: ps[1].clone(),
                name: DEFAULT_ENDPOINT.to_owned(),
            }
        } else {
            let name = join_tail(&ps);
            Endpoint { namespace: ps[0].clone(), component: ps[1].clone(), name }
        }
    }

    /// Parses an endpoint from a path or from a `dyn://` URL. Never fails.
    pub fn parse(s: &str) -> (r: Endpoint)
        ensures
            (r.namespace@, r.component@, r.name@) == endpoint_of_url(s@),
    {
        let cs = chars_of(s);
        if chars_start_with(&cs, ENDPOINT_SCHEME) {
            let k = chars_of(ENDPOINT_SCHEME).len();
            let rest = string_of(&cs, k, cs.len());
            Endpoint::from_path(rest.as_str())
        } else {
            Endpoint::from_path(s)
        }
    }

    /// The endpoint as a URL: `dyn://namespace.component.name`.
    pub fn as_url(&self) -> (r: String)
        ensures
            r@ == ENDPOINT_SCHEME@ + self.namespace@ + seq!['.'] + self.component@ + seq!['.']
                + self.name@,
    {
        let mut r = ENDPOINT_SCHEME.to_owned();
        r.append(self.namespace.as_str());
        push_char(&mut r, '.');
        r.append(self.component.as_str());
        push_char(&mut r, '.');
        r.append(self.name.as_str());
        r
    }
}

impl Default for Endpoint {
    /// The default namespace, component and endpoint.
    fn default() -> (r: Endpoint)
        ensures
            r.namespace@ == DEFAULT_NAMESPACE@,
            r.component@ == DEFAULT_COMPONENT@,
            r.name@ == DEFAULT_ENDPOINT@,
    {
        Endpoint {
            namespace: DEFAULT_NAMESPACE.to_owned(),
            component: DEFAULT_COMPONENT.to_owned(),
            name: DEFAULT_ENDPOINT.to_owned(),
        }
    }
}

impl<'a> From<&'a str> for Endpoint {
    /// See `Endpoint::from_path`.
    fn from(input: &'a str) -> (r: Endpoint)
        ensures
            (r.namespace@, r.component@, r.name@) == endpoint_of(input@),
    {
        Endpoint::from_path(input)
    }
}

impl<'a> vstd::std_specs::convert::FromSpecImpl<&'a str> for Endpoint {
    open spec fn obeys_from_spec() -> bool {
        false
    }

    open spec fn from_spec(v: &'a str) -> Endpoint {
        arbitrary()
    }
}

impl FromStr for Endpoint {
    type Err = ParseEndpointError;

    /// See `Endpoint::parse`.
    fn from_str(s: &str) -> (r: Result<Endpoint, ParseEndpointError>)
        ensures
            r matches Ok(e) && (e.namespace@, e.component@, e.name@) == endpoint_of_url(s@),
    {
        Ok(Endpoint::parse(s))
    }
}

impl<'a> PartialEq<Vec<&'a str>> for Endpoint {
    /// Equal to a list of exactly three strings: namespace, component, name.
    fn eq(&self, other: &Vec<&'a str>) -> (r: bool) {
        other.len() == 3 && str_eq(self.namespace.as_str(), other[0]) && str_eq(
            self.component.as_str(),
            other[1],
        ) && str_eq(self.name.as_str(), other[2])
    }
}

impl<'a> vstd::std_specs::cmp::PartialEqSpecImpl<Vec<&'a str>> for Endpoint {
    open spec fn obeys_eq_spec() -> bool {
        true
    }

    open spec fn eq_spec(&self, other: &Vec<&'a str>) -> bool {
        &&& other@.len() == 3
        &&& self.namespace@ == other@[0]@
        &&& self.component@ == other@[1]@
        &&& self.name@ == other@[2]@
    }
}

impl<'a> PartialEq<Endpoint> for Vec<&'a str> {
    /// See the comparison of an endpoint with a list of strings.
    fn eq(&self, other: &Endpoint) -> (r: bool) {
        other.eq(self)
    }
}

impl<'a> vstd::std_specs::cmp::PartialEqSpecImpl<Endpoint> for Vec<&'a str> {
    open spec fn obeys_eq_spec() -> bool {
        true
    }

    open spec fn eq_spec(&self, other: &Endpoint) -> bool {
        &&& self@.len() == 3
        &&& other.namespace@ == self@[0]@
        &&& other.component@ == self@[1]@
        &&& other.name@ == self@[2]@
    }
}

} // verus!
