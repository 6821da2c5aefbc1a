//! The session's own record of cookies: what `Set-Cookie` headers set, what
//! is saved to disk, and the `Cookie` header sent with each request.
use vstd::prelude::*;
use crate::text::{
    char_is_white, concat, eq_ignore_ascii_case, eq_ignore_ascii_case_spec, from_chars, push_str,
    to_chars, trim_spec, trim, is_white,
};

verus! {

broadcast use vstd::string::group_string_axioms;

/// The value of the first entry named `key`.
pub open spec fn lookup(entries: Seq<(String, String)>, key: Seq<char>) -> Option<Seq<char>>
    decreases entries.len(),
{
    if entries.len() == 0 {
        None
    } else if entries[0].0@ == key {
        Some(entries[0].1@)
    } else {
        lookup(entries.drop_first(), key)
    }
}

/// The cookies as a map from name to value.
pub open spec fn entries_map(entries: Seq<(String, String)>) -> Map<Seq<char>, Seq<char>> {
    Map::new(|k: Seq<char>| lookup(entries, k) is Some, |k: Seq<char>| lookup(entries, k)->0)
}

/// `"k1=v1; k2=v2; …"` over the entries, in order.
pub open spec fn header_text(entries: Seq<(String, String)>) -> Seq<char>
    decreases entries.len(),
{
    if entries.len() == 0 {
        Seq::<char>::empty()
    } else if entries.len() == 1 {
        entries[0].0@ + "="@ + entries[0].1@
    } else {
        header_text(entries.drop_last()) + "; "@ + entries.last().0@ + "="@ + entries.last().1@
    }
}

/// No two entries have the same name.
pub open spec fn unique_names(entries: Seq<(String, String)>) -> bool {
    forall|i: int, j: int| 0 <= i < j < entries.len() ==> entries[i].0@ != entries[j].0@
}

proof fn lemma_lookup_none(entries: Seq<(String, String)>, key: Seq<char>)
    ensures
        lookup(entries, key) is None <==> forall|i: int| 0 <= i < entries.len() ==> entries[i].0@ != key,
    decreases entries.len(),
{
    if entries.len() > 0 {
        lemma_lookup_none(entries.drop_first(), key);
        assert forall|i: int| 1 <= i < entries.len() implies entries[i] == entries.drop_first()[i - 1] by {}
    }
}

proof fn lemma_lookup_first(entries: Seq<(String, String)>, key: Seq<char>, j: int)
    requires
        0 <= j < entries.len(),
        entries[j].0@ == key,
        forall|i: int| 0 <= i < j ==> entries[i].0@ != key,
    ensures
        lookup(entries, key) == Some(entries[j].1@),
    decreases entries.len(),
{
    if j > 0 {
        lemma_lookup_first(entries.drop_first(), key, j - 1);
    }
}

proof fn lemma_lookup_update(entries: Seq<(String, String)>, j: int, e: (String, String), key: Seq<char>)
    requires
        0 <= j < entries.len(),
        entries[j].0@ == e.0@,
        forall|i: int| 0 <= i < j ==> entries[i].0@ != e.0@,
    ensures
        lookup(entries.update(j, e), key) == (if key == e.0@ {
            Some(e.1@)
        } else {
            lookup(entries, key)
        }),
    decreases entries.len(),
{
    let u = entries.update(j, e);
    if j > 0 {
        lemma_lookup_update(entries.drop_first(), j - 1, e, key);
        assert(u.drop_first() =~= entries.drop_first().update(j - 1, e));
        assert(u[0] == entries[0]);
    } else {
        assert(u.drop_first() =~= entries.drop_first());
        assert(u[0] == e);
    }
}

proof fn lemma_lookup_push(entries: Seq<(String, String)>, e: (String, String), key: Seq<char>)
    ensures
        lookup(entries.push(e), key) == (if lookup(entries, key) is Some {
            lookup(entries, key)
        } else if key == e.0@ {
            Some(e.1@)
        } else {
            None
        }),
    decreases entries.len(),
{
    let p = entries.push(e);
    if entries.len() > 0 {
        lemma_lookup_push(entries.drop_first(), e, key);
        assert(p.drop_first() =~= entries.drop_first().push(e));
        assert(p[0] == entries[0]);
        assert(lookup(p, key) == (if p[0].0@ == key { Some(p[0].1@) } else { lookup(p.drop_first(), key) }));
    } else {
        assert(p.drop_first() =~= Seq::<(String, String)>::empty());
        assert(p[0] == e);
        assert(lookup(entries, key) is None);
        assert(lookup(p.drop_first(), key) is None);
    }
}

/// The session's cookies, in the order in which their names were first set.
pub struct CookieJar {
    entries: Vec<(String, String)>,
}

impl View for CookieJar {
    type V = Map<Seq<char>, Seq<char>>;

    closed spec fn view(&self) -> Map<Seq<char>, Seq<char>> {
        entries_map(self.entries@)
    }
}

impl CookieJar {
    /// The entries, in the order in which their names were first set.
    pub closed spec fn entries(&self) -> Seq<(String, String)> {
        self.entries@
    }

    /// The jar's map is the map of its entries, each name occurring once.
    pub closed spec fn wf(&self) -> bool {
        unique_names(self.entries@)
    }

    /// The jar's map is the map of its entries; it is well formed when each
    /// name occurs once among them.
    pub proof fn lemma_view_is_entries(&self)
        ensures
            self@ == entries_map(self.entries()),
            self.wf() == unique_names(self.entries()),
    {
    }

    /// An empty jar.
    pub fn new() -> (r: Self)
        ensures
            r@ == Map::<Seq<char>, Seq<char>>::empty(),
            r.entries().len() == 0,
            r.wf(),
    {
        let r = CookieJar { entries: Vec::new() };
        assert(r@ =~= Map::<Seq<char>, Seq<char>>::empty());
        r
    }

    /// Sets cookie `key` to `value`, replacing an earlier value of that name
    /// (`HashMap::insert`).
    pub fn insert(&mut self, key: String, value: String)
        requires
            old(self).wf(),
        ensures
            final(self)@ == old(self)@.insert(key@, value@),
            final(self).wf(),
    {
        let ghost before = self.entries@;
        let mut i: usize = 0;
        while i < self.entries.len()
            invariant
                i <= self.entries@.len(),
                self.entries@ == before,
                before == old(self).entries@,
                unique_names(before),
                forall|k: int| 0 <= k < i ==> self.entries@[k].0@ != key@,
            decreases self.entries.len() - i,
        {
            if crate::json::str_eq(self.entries[i].0.as_str(), key.as_str()) {
                let e = (key, value);
                proof {
                    assert forall|k: Seq<char>| #[trigger] lookup(before.update(i as int, e), k)
                        == (if k == e.0@ { Some(e.1@) } else { lookup(before, k) }) by {
                        lemma_lookup_update(before, i as int, e, k);
                    }
                }
                self.entries.set(i, e);
                assert(self@ =~= entries_map(before).insert(e.0@, e.1@));
                return;
            }
            i += 1;
        }
        let e = (key, value);
        proof {
            lemma_lookup_none(before, e.0@);
            assert forall|k: Seq<char>| #[trigger] lookup(before.push(e), k) == (if lookup(before, k) is Some {
                lookup(before, k)
            } else if k == e.0@ {
                Some(e.1@)
            } else {
                None
            }) by {
                lemma_lookup_push(before, e, k);
            }
        }
        self.entries.push(e);
        assert(self@ =~= entries_map(before).insert(e.0@, e.1@));
    }

    /// The value of cookie `key`.
    pub fn get(&self, key: &str) -> (r: Option<&str>)
        ensures
            match r {
                Some(v) => self@.dom().contains(key@) && self@[key@] == v@,
                None => !self@.dom().contains(key@),
            },
    {
        let mut i: usize = 0;
        while i < self.entries.len()
            invariant
                i <= self.entries@.len(),
                forall|k: int| 0 <= k < i ==> self.entries@[k].0@ != key@,
            decreases self.entries.len() - i,
        {
            if crate::json::str_eq(self.entries[i].0.as_str(), key) {
                proof {
                    lemma_lookup_first(self.entries@, key@, i as int);
                }
                return Some(self.entries[i].1.as_str());
            }
            i += 1;
        }
        proof {
            lemma_lookup_none(self.entries@, key@);
        }
        None
    }

    /// Whether a cookie named `key` is set (`HttpSession::has_cookie`).
    pub fn has_cookie(&self, key: &str) -> (r: bool)
        ensures
            r == self@.dom().contains(key@),
    {
        self.get(key).is_some()
    }

    /// Whether the jar is empty.
    pub fn is_empty(&self) -> (r: bool)
        ensures
            r == (self@ == Map::<Seq<char>, Seq<char>>::empty()),
    {
        if self.entries.len() == 0 {
            assert(self@ =~= Map::<Seq<char>, Seq<char>>::empty());
            true
        } else {
            proof {
                lemma_lookup_first(self.entries@, self.entries@[0].0@, 0);
                assert(self@.dom().contains(self.entries@[0].0@));
            }
            false
        }
    }

    /// A jar holding the given pairs; of two pairs with one name the later
    /// wins (`HttpSession::from_cookies`).
    pub fn from_pairs(pairs: &[(String, String)]) -> (r: Self)
        ensures
            r@ == pairs_map(Map::empty(), pairs@),
            r.wf(),
    {
        let mut jar = CookieJar::new();
        jar.merge_cookies(pairs);
        jar
    }

    /// Sets every given pair in order (`HttpSession::merge_cookies`).
    pub fn merge_cookies(&mut self, pairs: &[(String, String)])
        requires
            old(self).wf(),
        ensures
            final(self)@ == pairs_map(old(self)@, pairs@),
            final(self).wf(),
    {
        let mut i: usize = 0;
        while i < pairs.len()
            invariant
                i <= pairs@.len(),
                self.wf(),
                self@ == pairs_map(old(self)@, pairs@.take(i as int)),
            decreases pairs.len() - i,
        {
            let k = pairs[i].0.clone();
            let v = pairs[i].1.clone();
            self.insert(k, v);
            assert(pairs@.take(i as int + 1).drop_last() =~= pairs@.take(i as int));
            i += 1;
        }
        assert(pairs@.take(pairs@.len() as int) =~= pairs@);
    }

    /// Sets one cookie (`HttpSession::set_cookie`).
    pub fn set_cookie(&mut self, key: String, value: String)
        requires
            old(self).wf(),
        ensures
            final(self)@ == old(self)@.insert(key@, value@),
            final(self).wf(),
    {
        self.insert(key, value);
    }

    /// All cookies as (name, value) pairs, each name once
    /// (`HttpSession::cookies_as_dict`).
    pub fn cookies_as_dict(&self) -> (r: Vec<(String, String)>)
        ensures
            r@ == self.entries(),
    {
        let mut out: Vec<(String, String)> = Vec::new();
        let mut i: usize = 0;
        while i < self.entries.len()
            invariant
                i <= self.entries@.len(),
                out@ == self.entries@.take(i as int),
            decreases self.entries.len() - i,
        {
            out.push((self.entries[i].0.clone(), self.entries[i].1.clone()));
            assert(out@ =~= self.entries@.take(i as int + 1));
            i += 1;
        }
        assert(self.entries@.take(self.entries@.len() as int) =~= self.entries@);
        out
    }

    /// The `Cookie` request header: `None` for an empty jar, else every
    /// cookie as `name=value`, joined by `"; "`.
    pub fn cookie_header(&self) -> (r: Option<String>)
        ensures
            match r {
                None => self.entries().len() == 0,
                Some(h) => self.entries().len() > 0 && h@ == header_text(self.entries()),
            },
    {
        if self.entries.len() == 0 {
            return None;
        }
        let mut out = String::new();
        let mut i: usize = 0;
        while i < self.entries.len()
            invariant
                i <= self.entries@.len(),
                out@ == header_text(self.entries@.take(i as int)),
            decreases self.entries.len() - i,
        {
            let ghost pre = self.entries@.take(i as int + 1);
            assert(pre.drop_last() =~= self.entries@.take(i as int));
            if i > 0 {
                push_str(&mut out, "; ");
            }
            push_str(&mut out, self.entries[i].0.as_str());
            push_str(&mut out, "=");
            push_str(&mut out, self.entries[i].1.as_str());
            if i == 0 {
                assert(out@ =~= header_text(pre));
            } else {
                assert(out@ =~= header_text(pre));
            }
            i += 1;
        }
        assert(self.entries@.take(self.entries@.len() as int) =~= self.entries@);
        Some(out)
    }
}

/// `m` with every pair of `pairs` set in order.
pub open spec fn pairs_map(m: Map<Seq<char>, Seq<char>>, pairs: Seq<(String, String)>) -> Map<Seq<char>, Seq<char>>
    decreases pairs.len(),
{
    if pairs.len() == 0 {
        m
    } else {
        pairs_map(m, pairs.drop_last()).insert(pairs.last().0@, pairs.last().1@)
    }
}


/// Index of the first `c` in `s`, or `s.len()` when there is none.
pub open spec fn char_pos(s: Seq<char>, c: char) -> int
    decreases s.len(),
{
    if s.len() == 0 {
        0
    } else if s[0] == c {
        0
    } else {
        1 + char_pos(s.drop_first(), c)
    }
}

pub proof fn lemma_char_pos(s: Seq<char>, c: char)
    ensures
        0 <= char_pos(s, c) <= s.len(),
        char_pos(s, c) < s.len() ==> s[char_pos(s, c)] == c,
        forall|i: int| 0 <= i < char_pos(s, c) ==> s[i] != c,
    decreases s.len(),
{
    if s.len() > 0 && s[0] != c {
        lemma_char_pos(s.drop_first(), c);
        assert forall|i: int| 1 <= i < char_pos(s, c) implies s[i] != c by {
            assert(s[i] == s.drop_first()[i - 1]);
        }
    }
}

/// Position of the first `c` in `v` (`v.len()` when there is none).
pub fn find_char(v: &[char], c: char) -> (r: usize)
    ensures
        r == char_pos(v@, c),
{
    let mut i: usize = 0;
    assert(v@.skip(0) =~= v@);
    while i < v.len() && v[i] != c
        invariant
            i <= v@.len(),
            char_pos(v@, c) == i + char_pos(v@.skip(i as int), c),
        decreases v.len() - i,
    {
        assert(v@.skip(i as int).drop_first() =~= v@.skip(i + 1));
        i += 1;
    }
    i
}

/// Names that are cookie attributes, not cookies.
pub open spec fn is_cookie_attribute(k: Seq<char>) -> bool {
    ||| eq_ignore_ascii_case_spec(k, "path"@)
    ||| eq_ignore_ascii_case_spec(k, "domain"@)
    ||| eq_ignore_ascii_case_spec(k, "expires"@)
    ||| eq_ignore_ascii_case_spec(k, "max-age"@)
    ||| eq_ignore_ascii_case_spec(k, "secure"@)
    ||| eq_ignore_ascii_case_spec(k, "httponly"@)
    ||| eq_ignore_ascii_case_spec(k, "samesite"@)
}

/// The cookie that one `Set-Cookie` header value sets: the text before the
/// first `;`, trimmed, split at its first `=` into a trimmed name and a
/// trimmed value; nothing when there is no `=`, the name is empty or the name
/// is an attribute.
pub open spec fn set_cookie_pair(h: Seq<char>) -> Option<(Seq<char>, Seq<char>)> {
    let part = trim_spec(h.take(char_pos(h, ';')));
    let e = char_pos(part, '=');
    if e < part.len() {
        let key = trim_spec(part.take(e));
        let val = trim_spec(part.skip(e + 1));
        if key.len() > 0 && !is_cookie_attribute(key) {
            Some((key, val))
        } else {
            None
        }
    } else {
        None
    }
}

fn is_cookie_attribute_exec(k: &str) -> (r: bool)
    ensures
        r == is_cookie_attribute(k@),
{
    eq_ignore_ascii_case(k, "path") || eq_ignore_ascii_case(k, "domain") || eq_ignore_ascii_case(
        k,
        "expires",
    ) || eq_ignore_ascii_case(k, "max-age") || eq_ignore_ascii_case(k, "secure")
        || eq_ignore_ascii_case(k, "httponly") || eq_ignore_ascii_case(k, "samesite")
}

/// The cookie that one `Set-Cookie` header value sets, if any.
pub fn parse_set_cookie(h: &str) -> (r: Option<(String, String)>)
    ensures
        match r {
            Some(p) => set_cookie_pair(h@) == Some((p.0@, p.1@)),
            None => set_cookie_pair(h@) is None,
        },
{
    let hv = to_chars(h);
    let semi = find_char(hv.as_slice(), ';');
    proof {
        lemma_char_pos(hv@, ';');
    }
    let first = from_chars(vstd::slice::slice_subrange(hv.as_slice(), 0, semi));
    assert(first@ =~= h@.take(char_pos(h@, ';')));
    let part = trim(first.as_str());
    let pv = to_chars(part.as_str());
    let e = find_char(pv.as_slice(), '=');
    proof {
        lemma_char_pos(pv@, '=');
    }
    if e < pv.len() {
        let key_raw = from_chars(vstd::slice::slice_subrange(pv.as_slice(), 0, e));
        let val_raw = from_chars(vstd::slice::slice_subrange(pv.as_slice(), e + 1, pv.len()));
        assert(key_raw@ =~= part@.take(e as int));
        assert(val_raw@ =~= part@.skip(e + 1));
        let key = trim(key_raw.as_str());
        let val = trim(val_raw.as_str());
        if key.unicode_len() > 0 && !is_cookie_attribute_exec(key.as_str()) {
            Some((key, val))
        } else {
            None
        }
    } else {
        None
    }
}

/// `m` after the cookies set by each header value of `hs`, in order.
pub open spec fn apply_set_cookies(m: Map<Seq<char>, Seq<char>>, hs: Seq<String>) -> Map<Seq<char>, Seq<char>>
    decreases hs.len(),
{
    if hs.len() == 0 {
        m
    } else {
        let before = apply_set_cookies(m, hs.drop_last());
        match set_cookie_pair(hs.last()@) {
            Some(p) => before.insert(p.0, p.1),
            None => before,
        }
    }
}

/// How many header values of `hs` set a cookie.
pub open spec fn count_set_cookies(hs: Seq<String>) -> nat
    decreases hs.len(),
{
    if hs.len() == 0 {
        0
    } else {
        count_set_cookies(hs.drop_last()) + if set_cookie_pair(hs.last()@) is Some { 1nat } else { 0nat }
    }
}

proof fn lemma_count_bound(hs: Seq<String>)
    ensures
        count_set_cookies(hs) <= hs.len(),
    decreases hs.len(),
{
    if hs.len() > 0 {
        lemma_count_bound(hs.drop_last());
    }
}

impl CookieJar {
    /// Takes the cookies set by the `Set-Cookie` header values of a response,
    /// in order, and returns how many were taken.
    pub fn collect_set_cookies(&mut self, headers: &[String]) -> (n: usize)
        requires
            old(self).wf(),
        ensures
            final(self).wf(),
            final(self)@ == apply_set_cookies(old(self)@, headers@),
            n == count_set_cookies(headers@),
    {
        let mut n: usize = 0;
        let mut i: usize = 0;
        while i < headers.len()
            invariant
                i <= headers@.len(),
                self.wf(),
                self@ == apply_set_cookies(old(self)@, headers@.take(i as int)),
                n == count_set_cookies(headers@.take(i as int)),
                n <= i,
            decreases headers.len() - i,
        {
            assert(headers@.take(i as int + 1).drop_last() =~= headers@.take(i as int));
            proof {
                lemma_count_bound(headers@.take(i as int));
            }
            match parse_set_cookie(headers[i].as_str()) {
                Some(p) => {
                    self.insert(p.0, p.1);
                    n += 1;
                },
                None => {},
            }
            i += 1;
        }
        assert(headers@.take(headers@.len() as int) =~= headers@);
        n
    }
}


/// Saving the cookies and restoring them gives the same cookies: a session
/// made from the pairs that `cookies_as_dict` lists (each name once) holds
/// exactly the cookies that were listed.
pub proof fn law_saved_cookies_restore(entries: Seq<(String, String)>)
    requires
        unique_names(entries),
    ensures
        pairs_map(Map::empty(), entries) == entries_map(entries),
    decreases entries.len(),
{
    if entries.len() == 0 {
        assert(entries_map(entries) =~= Map::<Seq<char>, Seq<char>>::empty());
    } else {
        let p = entries.drop_last();
        let e = entries.last();
        assert(unique_names(p));
        law_saved_cookies_restore(p);
        assert(p.push(e) =~= entries);
        assert forall|k: Seq<char>| #[trigger] lookup(entries, k) == (if k == e.0@ {
            Some(e.1@)
        } else {
            lookup(p, k)
        }) by {
            lemma_lookup_push(p, e, k);
            if k == e.0@ {
                lemma_lookup_none(p, k);
                assert forall|i: int| 0 <= i < p.len() implies p[i].0@ != k by {
                    assert(entries[i] == p[i]);
                    assert(entries[entries.len() - 1] == e);
                }
            }
        }
        assert(entries_map(entries) =~= entries_map(p).insert(e.0@, e.1@));
    }
}

/// A session made from pairs holds every name among them.
pub proof fn law_restored_names(pairs: Seq<(String, String)>, i: int)
    requires
        0 <= i < pairs.len(),
    ensures
        pairs_map(Map::empty(), pairs).dom().contains(pairs[i].0@),
    decreases pairs.len(),
{
    if i < pairs.len() - 1 {
        law_restored_names(pairs.drop_last(), i);
        assert(pairs.drop_last()[i] == pairs[i]);
    }
}

/// Of the pairs a session is made from, the last one with a name gives that
/// cookie's value.
pub proof fn law_restored_last_wins(pairs: Seq<(String, String)>, i: int)
    requires
        0 <= i < pairs.len(),
        forall|j: int| i < j < pairs.len() ==> pairs[j].0@ != pairs[i].0@,
    ensures
        pairs_map(Map::empty(), pairs)[pairs[i].0@] == pairs[i].1@,
    decreases pairs.len(),
{
    if i < pairs.len() - 1 {
        let p = pairs.drop_last();
        assert(p[i] == pairs[i]);
        assert forall|j: int| i < j < p.len() implies p[j].0@ != p[i].0@ by {
            assert(p[j] == pairs[j]);
        }
        law_restored_last_wins(p, i);
    }
}

/// The `Cookie` header of two or more cookies is that of all but the last,
/// `"; "`, and the last one.
proof fn lemma_header_step(entries: Seq<(String, String)>)
    requires
        entries.len() >= 2,
    ensures
        header_text(entries) == header_text(entries.drop_last()) + ("; "@ + (entries.last().0@ + ("="@ + entries.last().1@))),
{
    let h = header_text(entries.drop_last());
    let k = entries.last().0@;
    let v = entries.last().1@;
    assert(h + "; "@ + k + "="@ + v =~= h + ("; "@ + (k + ("="@ + v))));
}

/// The `Cookie` header names every cookie with its value, as `name=value`.
pub proof fn law_header_lists_cookies(entries: Seq<(String, String)>, i: int)
    requires
        0 <= i < entries.len(),
    ensures
        crate::text::has_sub(header_text(entries), entries[i].0@ + ("="@ + entries[i].1@)),
    decreases entries.len(),
{
    let n = entries[i].0@ + ("="@ + entries[i].1@);
    if entries.len() == 1 {
        assert(header_text(entries) =~= n);
        crate::text::lemma_has_sub_concat(Seq::<char>::empty(), n, n);
        assert(Seq::<char>::empty() + n =~= n);
    } else {
        lemma_header_step(entries);
        let p = entries.drop_last();
        if i == entries.len() - 1 {
            let head = header_text(p) + "; "@;
            crate::text::lemma_has_sub_concat(head, n, n);
            assert(header_text(p) + ("; "@ + n) =~= head + n);
        } else {
            assert(p[i] == entries[i]);
            law_header_lists_cookies(p, i);
            let rest = "; "@ + (entries.last().0@ + ("="@ + entries.last().1@));
            crate::text::lemma_has_sub_concat(header_text(p), rest, n);
        }
    }
}

/// After collecting `Set-Cookie` header values, a cookie named by a header
/// that sets one holds the value of the last such header, whatever the
/// session held before.
pub proof fn law_set_cookie_last_wins(m: Map<Seq<char>, Seq<char>>, hs: Seq<String>, i: int, name: Seq<char>, value: Seq<char>)
    requires
        0 <= i < hs.len(),
        set_cookie_pair(hs[i]@) == Some((name, value)),
        forall|j: int| i < j < hs.len() ==> !(set_cookie_pair(#[trigger] hs[j]@) matches Some(p) && p.0 == name),
    ensures
        apply_set_cookies(m, hs).dom().contains(name),
        apply_set_cookies(m, hs)[name] == value,
    decreases hs.len(),
{
    if i < hs.len() - 1 {
        let p = hs.drop_last();
        assert(p[i] == hs[i]);
        assert forall|j: int| i < j < p.len() implies !(set_cookie_pair(#[trigger] p[j]@) matches Some(q) && q.0 == name) by {
            assert(p[j] == hs[j]);
        }
        law_set_cookie_last_wins(m, p, i, name, value);
        assert(hs.last() == hs[hs.len() - 1]);
    }
}

/// Collecting `Set-Cookie` header values leaves alone every cookie that no
/// header sets.
pub proof fn law_set_cookie_keeps_others(m: Map<Seq<char>, Seq<char>>, hs: Seq<String>, name: Seq<char>)
    requires
        forall|j: int| 0 <= j < hs.len() ==> !(set_cookie_pair(#[trigger] hs[j]@) matches Some(p) && p.0 == name),
    ensures
        apply_set_cookies(m, hs).dom().contains(name) == m.dom().contains(name),
        m.dom().contains(name) ==> apply_set_cookies(m, hs)[name] == m[name],
    decreases hs.len(),
{
    if hs.len() > 0 {
        let p = hs.drop_last();
        assert forall|j: int| 0 <= j < p.len() implies !(set_cookie_pair(#[trigger] p[j]@) matches Some(q) && q.0 == name) by {
            assert(p[j] == hs[j]);
        }
        law_set_cookie_keeps_others(m, p, name);
        assert(hs.last() == hs[hs.len() - 1]);
    }
}

/// Collecting `Set-Cookie` header values adds no cookie that no header sets:
/// every cookie afterwards was there before or is set by some header.
pub proof fn law_set_cookie_names(m: Map<Seq<char>, Seq<char>>, hs: Seq<String>, name: Seq<char>)
    requires
        apply_set_cookies(m, hs).dom().contains(name),
    ensures
        m.dom().contains(name) || exists|j: int| 0 <= j < hs.len() && (set_cookie_pair(#[trigger] hs[j]@) matches Some(p) && p.0 == name),
    decreases hs.len(),
{
    if hs.len() > 0 {
        let p = hs.drop_last();
        if apply_set_cookies(m, p).dom().contains(name) {
            law_set_cookie_names(m, p, name);
            if !m.dom().contains(name) {
                let j = choose|j: int| 0 <= j < p.len() && (set_cookie_pair(#[trigger] p[j]@) matches Some(q) && q.0 == name);
                assert(p[j] == hs[j]);
            }
        } else {
            assert(hs.last() == hs[hs.len() - 1]);
        }
    }
}

/// `char_pos` is the first position of `c`.
proof fn lemma_char_pos_at(s: Seq<char>, c: char, i: int)
    requires
        0 <= i <= s.len(),
        i < s.len() ==> s[i] == c,
        forall|j: int| 0 <= j < i ==> s[j] != c,
    ensures
        char_pos(s, c) == i,
{
    lemma_char_pos(s, c);
}

/// Text that starts and ends with no whitespace is its own trim.
proof fn lemma_trim_plain(s: Seq<char>)
    requires
        s.len() == 0 || (!crate::text::is_white(s[0]) && !crate::text::is_white(s.last())),
    ensures
        trim_spec(s) == s,
{
    assert(crate::text::trim_start_spec(s) == s);
}

/// A `Set-Cookie` value `name=value`, optionally followed by `;` and
/// attributes, sets the cookie `name` to `value` (a name that is not an
/// attribute, holding no `=` or `;`, and both without surrounding spaces).
pub proof fn law_set_cookie_pair_parts(name: Seq<char>, value: Seq<char>, rest: Option<Seq<char>>)
    requires
        name.len() > 0,
        !name.contains('='),
        !name.contains(';'),
        !value.contains(';'),
        !crate::text::is_white(name[0]),
        !crate::text::is_white(name.last()),
        value.len() > 0 ==> !crate::text::is_white(value[0]) && !crate::text::is_white(value.last()),
        !is_cookie_attribute(name),
    ensures
        set_cookie_pair(match rest {
            Some(r) => name + ("="@ + value) + (";"@ + r),
            None => name + ("="@ + value),
        }) == Some((name, value)),
{
    reveal_strlit("=");
    reveal_strlit(";");
    let part = name + ("="@ + value);
    let h = match rest {
        Some(r) => part + (";"@ + r),
        None => part,
    };
    assert forall|j: int| 0 <= j < part.len() implies part[j] != ';' by {
        if j < name.len() {
            assert(name.contains(part[j]));
        } else if j > name.len() {
            assert(value[j - name.len() - 1] == part[j]);
            assert(value.contains(part[j]));
        }
    }
    assert forall|j: int| 0 <= j < part.len() implies #[trigger] h[j] == part[j] by {}
    lemma_char_pos_at(h, ';', part.len() as int);
    assert(h.take(part.len() as int) =~= part);
    lemma_trim_plain(part);
    assert forall|j: int| 0 <= j < name.len() implies part[j] != '=' by {
        assert(part[j] == name[j]);
        assert(name.contains(part[j]));
    }
    lemma_char_pos_at(part, '=', name.len() as int);
    assert(part.take(name.len() as int) =~= name);
    assert(part.skip(name.len() as int + 1) =~= value);
    lemma_trim_plain(name);
    lemma_trim_plain(value);
}
} // verus!

