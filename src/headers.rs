//! Rewriting of the inbound request headers into the mapping carried by the
//! authorization request.

use vstd::prelude::*;
use vstd::string::*;

verus! {

/// Prefix given to every pseudo-header's name in the outbound mapping.
pub open spec fn pseudo_prefix() -> Seq<char> {
    "x-original-req-"@
}

/// The outbound name of the pseudo-header `name` (given without its colon).
pub open spec fn renamed(name: Seq<char>) -> Seq<char> {
    pseudo_prefix() + name
}

/// The ordinary headers that are copied verbatim into the outbound mapping.
pub open spec fn allowed(name: Seq<char>) -> bool {
    ||| name == "x-forwarded-client-cert"@
    ||| name == "x-request-id"@
    ||| name == "x-correlation-id"@
    ||| name == "authorization"@
    ||| name == "x-uip-wasm-impersonated-user"@
    ||| name == "x-event-service-user"@
    ||| name == "x-trino-user"@
}

pub open spec fn is_pseudo(name: Seq<char>) -> bool {
    name.len() > 0 && name[0] == ':'
}

/// The key under which an inbound header reaches the outbound mapping, if any.
pub open spec fn outbound_key(name: Seq<char>) -> Option<Seq<char>> {
    if is_pseudo(name) {
        Some(renamed(name.drop_first()))
    } else if allowed(name) {
        Some(name)
    } else {
        None
    }
}

/// The outbound mapping built from inbound headers in order: a later header
/// with the same outbound key replaces an earlier one.
pub open spec fn mapping_of(hs: Seq<(Seq<char>, Seq<char>)>) -> Map<Seq<char>, Seq<char>>
    decreases hs.len(),
{
    if hs.len() == 0 {
        Map::empty()
    } else {
        let prev = mapping_of(hs.drop_last());
        match outbound_key(hs.last().0) {
            Some(k) => prev.insert(k, hs.last().1),
            None => prev,
        }
    }
}

/// The view of a list of name / value pairs.
pub open spec fn pairs_view(v: Seq<(String, String)>) -> Seq<(Seq<char>, Seq<char>)> {
    v.map_values(|p: (String, String)| (p.0@, p.1@))
}

/// The map that a list of entries with distinct keys stands for.
pub open spec fn map_of_entries(es: Seq<(Seq<char>, Seq<char>)>) -> Map<Seq<char>, Seq<char>>
    decreases es.len(),
{
    if es.len() == 0 {
        Map::empty()
    } else {
        map_of_entries(es.drop_last()).insert(es.last().0, es.last().1)
    }
}

pub open spec fn keys_distinct(es: Seq<(Seq<char>, Seq<char>)>) -> bool {
    forall|i: int, j: int| 0 <= i < j < es.len() ==> es[i].0 != es[j].0
}

proof fn lemma_entries_domain(es: Seq<(Seq<char>, Seq<char>)>, k: Seq<char>)
    ensures
        map_of_entries(es).contains_key(k) <==> exists|i: int| 0 <= i < es.len() && es[i].0 == k,
    decreases es.len(),
{
    if es.len() > 0 {
        lemma_entries_domain(es.drop_last(), k);
        if map_of_entries(es.drop_last()).contains_key(k) {
            let i = choose|i: int| 0 <= i < es.len() - 1 && es.drop_last()[i].0 == k;
            assert(es[i].0 == k);
        }
        if exists|i: int| 0 <= i < es.len() && es[i].0 == k {
            let i = choose|i: int| 0 <= i < es.len() && es[i].0 == k;
            if i < es.len() - 1 {
                assert(es.drop_last()[i].0 == k);
            }
        }
    }
}

proof fn lemma_entries_value(es: Seq<(Seq<char>, Seq<char>)>, i: int)
    requires
        keys_distinct(es),
        0 <= i < es.len(),
    ensures
        map_of_entries(es).contains_key(es[i].0),
        map_of_entries(es)[es[i].0] == es[i].1,
    decreases es.len(),
{
    if i < es.len() - 1 {
        lemma_entries_value(es.drop_last(), i);
        assert(es.drop_last()[i] == es[i]);
    }
}

proof fn lemma_entries_update(es: Seq<(Seq<char>, Seq<char>)>, i: int, v: Seq<char>)
    requires
        keys_distinct(es),
        0 <= i < es.len(),
    ensures
        map_of_entries(es.update(i, (es[i].0, v))) == map_of_entries(es).insert(es[i].0, v),
    decreases es.len(),
{
    let es2 = es.update(i, (es[i].0, v));
    if i == es.len() - 1 {
        assert(es2.drop_last() =~= es.drop_last());
        assert(map_of_entries(es2) =~= map_of_entries(es).insert(es[i].0, v));
    } else {
        lemma_entries_update(es.drop_last(), i, v);
        assert(es2.drop_last() =~= es.drop_last().update(i, (es[i].0, v)));
        assert(map_of_entries(es2) =~= map_of_entries(es).insert(es[i].0, v));
    }
}

/// A mapping from header name to value whose keys are unique.
pub struct HeaderMapping {
    entries: Vec<(String, String)>,
}

impl View for HeaderMapping {
    type V = Map<Seq<char>, Seq<char>>;

    open spec fn view(&self) -> Map<Seq<char>, Seq<char>> {
        map_of_entries(self.entries_view())
    }
}

impl HeaderMapping {
    /// The entries in insertion order.
    pub closed spec fn entries_view(&self) -> Seq<(Seq<char>, Seq<char>)> {
        pairs_view(self.entries@)
    }

    pub open spec fn wf(&self) -> bool {
        keys_distinct(self.entries_view())
    }

    pub fn new() -> (m: HeaderMapping)
        ensures
            m.wf(),
            m@ == Map::<Seq<char>, Seq<char>>::empty(),
            m.entries_view().len() == 0,
    {
        let m = HeaderMapping { entries: Vec::new() };
        assert(m.entries_view() =~= Seq::<(Seq<char>, Seq<char>)>::empty());
        m
    }

    fn find(&self, key: &str) -> (r: Option<usize>)
        requires
            self.wf(),
        ensures
            match r {
                Some(i) => i < self.entries_view().len() && self.entries_view()[i as int].0 == key@,
                None => forall|i: int|
                    0 <= i < self.entries_view().len() ==> self.entries_view()[i].0 != key@,
            },
    {
        let mut i: usize = 0;
        while i < self.entries.len()
            invariant
                i <= self.entries@.len(),
                forall|j: int| 0 <= j < i ==> self.entries_view()[j].0 != key@,
            decreases self.entries@.len() - i,
        {
            if str_eq(self.entries[i].0.as_str(), key) {
                return Some(i);
            }
            i = i + 1;
        }
        None
    }

    /// Sets `key` to `value`, replacing the value it had.
    pub fn insert(&mut self, key: String, value: String)
        requires
            old(self).wf(),
        ensures
            final(self).wf(),
            final(self)@ == old(self)@.insert(key@, value@),
    {
        let ghost es = self.entries_view();
        match self.find(key.as_str()) {
            Some(i) => {
                proof {
                    lemma_entries_update(es, i as int, value@);
                }
                self.entries.set(i, (key, value));
                assert(self.entries_view() =~= es.update(i as int, (es[i as int].0, value@)));
            },
            None => {
                let ghost k = key@;
                let ghost v = value@;
                self.entries.push((key, value));
                assert(self.entries_view() =~= es.push((k, v)));
                assert(self.entries_view().drop_last() =~= es);
            },
        }
    }

    /// The value of `key`, if it is present.
    pub fn get(&self, key: &str) -> (r: Option<&String>)
        requires
            self.wf(),
        ensures
            match r {
                Some(v) => self@.contains_key(key@) && self@[key@] == v@,
                None => !self@.contains_key(key@),
            },
    {
        proof {
            lemma_entries_domain(self.entries_view(), key@);
        }
        match self.find(key) {
            Some(i) => {
                proof {
                    lemma_entries_value(self.entries_view(), i as int);
                }
                Some(&self.entries[i].1)
            },
            None => None,
        }
    }

    /// The number of entries.
    pub fn len(&self) -> (n: usize)
        requires
            self.wf(),
        ensures
            n == self@.len(),
    {
        proof {
            self.lemma_len();
        }
        self.entries.len()
    }

    proof fn lemma_len(&self)
        requires
            self.wf(),
        ensures
            self@.len() == self.entries@.len(),
    {
        lemma_distinct_len(self.entries_view());
    }

    /// The entries, each key once, in the order of first insertion.
    pub fn entries(&self) -> (r: &Vec<(String, String)>)
        ensures
            pairs_view(r@) == self.entries_view(),
    {
        &self.entries
    }
}

proof fn lemma_distinct_len(es: Seq<(Seq<char>, Seq<char>)>)
    requires
        keys_distinct(es),
    ensures
        map_of_entries(es).len() == es.len(),
        map_of_entries(es).dom().finite(),
    decreases es.len(),
{
    if es.len() > 0 {
        let dl = es.drop_last();
        lemma_distinct_len(dl);
        lemma_entries_domain(dl, es.last().0);
        assert(!map_of_entries(dl).contains_key(es.last().0));
    }
}

/// Gives the outbound name of the pseudo-header `name` (without its colon):
/// the four known ones come from a fixed table, any other gets the same
/// prefix.
pub fn rename_pseudo_header(name: &str) -> (r: String)
    ensures
        r@ == renamed(name@),
{
    proof {
        reveal_strlit("x-original-req-");
        reveal_strlit("method");
        reveal_strlit("scheme");
        reveal_strlit("authority");
        reveal_strlit("path");
        reveal_strlit("x-original-req-method");
        reveal_strlit("x-original-req-scheme");
        reveal_strlit("x-original-req-authority");
        reveal_strlit("x-original-req-path");
    }
    if str_eq(name, "method") {
        assert("x-original-req-method"@ =~= renamed(name@));
        String::from_str("x-original-req-method")
    } else if str_eq(name, "scheme") {
        assert("x-original-req-scheme"@ =~= renamed(name@));
        String::from_str("x-original-req-scheme")
    } else if str_eq(name, "authority") {
        assert("x-original-req-authority"@ =~= renamed(name@));
        String::from_str("x-original-req-authority")
    } else if str_eq(name, "path") {
        assert("x-original-req-path"@ =~= renamed(name@));
        String::from_str("x-original-req-path")
    } else {
        let mut r = String::from_str("x-original-req-");
        r.append(name);
        r
    }
}

/// Whether the ordinary header `name` is copied into the outbound mapping.
pub fn is_allowed_header(name: &str) -> (r: bool)
    ensures
        r == allowed(name@),
{
    str_eq(name, "x-forwarded-client-cert") || str_eq(name, "x-request-id") || str_eq(
        name,
        "x-correlation-id",
    ) || str_eq(name, "authorization") || str_eq(name, "x-uip-wasm-impersonated-user")
        || str_eq(name, "x-event-service-user") || str_eq(name, "x-trino-user")
}

/// Builds the outbound mapping from the inbound headers, in their order:
/// pseudo-headers renamed, allow-listed headers copied, all others dropped.
pub fn build_protobuf_headers_map(inbound: &Vec<(String, String)>) -> (m: HeaderMapping)
    ensures
        m.wf(),
        m@ == mapping_of(pairs_view(inbound@)),
{
    let mut m = HeaderMapping::new();
    let ghost hs = pairs_view(inbound@);
    let mut i: usize = 0;
    while i < inbound.len()
        invariant
            i <= inbound@.len(),
            hs == pairs_view(inbound@),
            m.wf(),
            m@ == mapping_of(hs.subrange(0, i as int)),
        decreases inbound@.len() - i,
    {
        let name = inbound[i].0.as_str();
        let value = &inbound[i].1;
        assert(hs.subrange(0, i + 1).drop_last() =~= hs.subrange(0, i as int));
        let n = name.unicode_len();
        if n > 0 && name.get_char(0) == ':' {
            let key = rename_pseudo_header(name.substring_char(1, n));
            assert(name@.subrange(1, n as int) =~= name@.drop_first());
            m.insert(key, value.clone());
        } else if is_allowed_header(name) {
            m.insert(name.to_owned(), value.clone());
        }
        i = i + 1;
    }
    assert(hs.subrange(0, inbound@.len() as int) =~= hs);
    m
}

proof fn lemma_mapping_domain(hs: Seq<(Seq<char>, Seq<char>)>, k: Seq<char>)
    ensures
        mapping_of(hs).contains_key(k) <==> exists|i: int|
            0 <= i < hs.len() && outbound_key(hs[i].0) == Some(k),
    decreases hs.len(),
{
    if hs.len() > 0 {
        let dl = hs.drop_last();
        lemma_mapping_domain(dl, k);
        if mapping_of(dl).contains_key(k) {
            let i = choose|i: int| 0 <= i < dl.len() && outbound_key(dl[i].0) == Some(k);
            assert(hs[i] == dl[i]);
        }
        if exists|i: int| 0 <= i < hs.len() && outbound_key(hs[i].0) == Some(k) {
            let i = choose|i: int| 0 <= i < hs.len() && outbound_key(hs[i].0) == Some(k);
            if i < hs.len() - 1 {
                assert(hs[i] == dl[i]);
            }
        }
    }
}

/// No allow-listed name carries the pseudo-header prefix.
proof fn lemma_allowed_not_renamed(n: Seq<char>, p: Seq<char>)
    requires
        allowed(n),
    ensures
        n != renamed(p),
{
    reveal_strlit("x-original-req-");
    reveal_strlit("x-forwarded-client-cert");
    reveal_strlit("x-request-id");
    reveal_strlit("x-correlation-id");
    reveal_strlit("authorization");
    reveal_strlit("x-uip-wasm-impersonated-user");
    reveal_strlit("x-event-service-user");
    reveal_strlit("x-trino-user");
    assert(renamed(p)[2] == 'o');
}

proof fn lemma_key_of_pseudo(n: Seq<char>, p: Seq<char>)
    ensures
        outbound_key(n) == Some(renamed(p)) <==> n == seq![':'] + p,
{
    let c = seq![':'] + p;
    assert(c.drop_first() =~= p);
    if is_pseudo(n) && outbound_key(n) == Some(renamed(p)) {
        assert(n.drop_first() =~= renamed(p).subrange(pseudo_prefix().len() as int, renamed(p).len() as int));
        assert(p =~= renamed(p).subrange(pseudo_prefix().len() as int, renamed(p).len() as int));
        assert(n =~= c);
    }
    if !is_pseudo(n) && allowed(n) {
        lemma_allowed_not_renamed(n, p);
    }
}

/// A pseudo-header's renamed key is in the outbound mapping exactly when the
/// request presents that pseudo-header.
pub proof fn lemma_pseudo_present_iff(hs: Seq<(Seq<char>, Seq<char>)>, p: Seq<char>)
    ensures
        mapping_of(hs).contains_key(renamed(p)) <==> exists|i: int|
            0 <= i < hs.len() && hs[i].0 == seq![':'] + p,
{
    lemma_mapping_domain(hs, renamed(p));
    if mapping_of(hs).contains_key(renamed(p)) {
        let i = choose|i: int| 0 <= i < hs.len() && outbound_key(hs[i].0) == Some(renamed(p));
        lemma_key_of_pseudo(hs[i].0, p);
    }
    if exists|i: int| 0 <= i < hs.len() && hs[i].0 == seq![':'] + p {
        let i = choose|i: int| 0 <= i < hs.len() && hs[i].0 == seq![':'] + p;
        lemma_key_of_pseudo(hs[i].0, p);
    }
}

/// Every key of the outbound mapping is an allow-listed name presented by the
/// request, or the renamed form of a pseudo-header that it presents.
pub proof fn lemma_only_allowed_keys(hs: Seq<(Seq<char>, Seq<char>)>, k: Seq<char>)
    requires
        mapping_of(hs).contains_key(k),
    ensures
        (allowed(k) && exists|i: int| 0 <= i < hs.len() && hs[i].0 == k) || exists|p: Seq<char>|
            k == renamed(p) && exists|i: int| 0 <= i < hs.len() && hs[i].0 == seq![':'] + p,
{
    lemma_mapping_domain(hs, k);
    let i = choose|i: int| 0 <= i < hs.len() && outbound_key(hs[i].0) == Some(k);
    let n = hs[i].0;
    if is_pseudo(n) {
        let p = n.drop_first();
        assert(n =~= seq![':'] + p);
        assert(k == renamed(p) && hs[i].0 == seq![':'] + p);
    }
}

/// A header that is neither a pseudo-header nor allow-listed leaves the
/// outbound mapping as it was, wherever it stands in the request.
pub proof fn lemma_dropped_header(
    before: Seq<(Seq<char>, Seq<char>)>,
    name: Seq<char>,
    value: Seq<char>,
    after: Seq<(Seq<char>, Seq<char>)>,
)
    requires
        !is_pseudo(name),
        !allowed(name),
    ensures
        mapping_of(before + seq![(name, value)] + after) == mapping_of(before + after),
    decreases after.len(),
{
    if after.len() == 0 {
        assert((before + seq![(name, value)] + after).drop_last() =~= before);
        assert(before + after =~= before);
    } else {
        lemma_dropped_header(before, name, value, after.drop_last());
        assert((before + seq![(name, value)] + after).drop_last() =~= before + seq![(name, value)]
            + after.drop_last());
        assert((before + after).drop_last() =~= before + after.drop_last());
    }
}

/// Whether two strings hold the same characters.
pub fn str_eq(a: &str, b: &str) -> (r: bool)
    ensures
        r == (a@ == b@),
{
    let n = a.unicode_len();
    if n != b.unicode_len() {
        return false;
    }
    let mut i: usize = 0;
    while i < n
        invariant
            n == a@.len(),
            n == b@.len(),
            i <= n,
            forall|j: int| 0 <= j < i ==> a@[j] == b@[j],
        decreases n - i,
    {
        if a.get_char(i) != b.get_char(i) {
            return false;
        }
        i = i + 1;
    }
    assert(a@ =~= b@);
    true
}

} // verus!
