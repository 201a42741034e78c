//! A header set: a mapping from header name to value with unique keys,
//! last write wins, and a right-biased, non-mutating merge.

use vstd::prelude::*;

verus! {

/// The name/value pairs of a header set, as mathematical strings.
pub open spec fn pairs_view(s: Seq<(String, String)>) -> Seq<(Seq<char>, Seq<char>)> {
    s.map_values(|p: (String, String)| (p.0@, p.1@))
}

/// No header name occurs twice.
pub open spec fn unique_keys(e: Seq<(Seq<char>, Seq<char>)>) -> bool {
    forall|i: int, j: int| 0 <= i < j < e.len() ==> (#[trigger] e[i]).0 != (#[trigger] e[j]).0
}

/// The mapping that a pair sequence denotes; a later pair overrides an
/// earlier one with the same name.
pub open spec fn map_of(e: Seq<(Seq<char>, Seq<char>)>) -> Map<Seq<char>, Seq<char>>
    decreases e.len(),
{
    if e.len() == 0 {
        Map::empty()
    } else {
        map_of(e.drop_last()).insert(e.last().0, e.last().1)
    }
}

/// A name is in the mapping exactly when some pair carries it.
pub proof fn lemma_map_of_contains(e: Seq<(Seq<char>, Seq<char>)>, k: Seq<char>)
    ensures
        map_of(e).contains_key(k) <==> exists|i: int| 0 <= i < e.len() && (#[trigger] e[i]).0 == k,
    decreases e.len(),
{
    if e.len() > 0 {
        lemma_map_of_contains(e.drop_last(), k);
        if e.last().0 == k {
            assert(e[e.len() - 1].0 == k);
        } else if map_of(e.drop_last()).contains_key(k) {
            let i = choose|i: int| 0 <= i < e.drop_last().len() && (#[trigger] e.drop_last()[i]).0
                == k;
            assert(e[i].0 == k);
        } else {
            assert(forall|i: int|
                0 <= i < e.len() - 1 ==> (#[trigger] e[i]) == e.drop_last()[i]);
        }
    }
}

/// With unique names, each pair is what the mapping holds for its name.
pub proof fn lemma_map_of_index(e: Seq<(Seq<char>, Seq<char>)>, i: int)
    requires
        unique_keys(e),
        0 <= i < e.len(),
    ensures
        map_of(e).contains_key(e[i].0),
        map_of(e)[e[i].0] == e[i].1,
    decreases e.len(),
{
    if i == e.len() - 1 {
    } else {
        assert(unique_keys(e.drop_last()));
        lemma_map_of_index(e.drop_last(), i);
        assert(e.drop_last()[i] == e[i]);
        assert(e[i].0 != e.last().0);
    }
}

/// Removing a pair removes its name from the mapping, when names are
/// unique.
pub proof fn lemma_map_of_remove(e: Seq<(Seq<char>, Seq<char>)>, i: int)
    requires
        unique_keys(e),
        0 <= i < e.len(),
    ensures
        map_of(e.remove(i)) == map_of(e).remove(e[i].0),
    decreases e.len(),
{
    if i == e.len() - 1 {
        assert(e.remove(i) =~= e.drop_last());
        assert(!map_of(e.drop_last()).contains_key(e[i].0)) by {
            lemma_map_of_contains(e.drop_last(), e[i].0);
            if exists|j: int| 0 <= j < e.drop_last().len() && (#[trigger] e.drop_last()[j]).0
                == e[i].0 {
                let j = choose|j: int|
                    0 <= j < e.drop_last().len() && (#[trigger] e.drop_last()[j]).0 == e[i].0;
                assert(e[j].0 == e[i].0);
            }
        }
        assert(map_of(e.drop_last()) =~= map_of(e.drop_last()).insert(
            e.last().0,
            e.last().1,
        ).remove(e[i].0));
    } else {
        assert(unique_keys(e.drop_last()));
        lemma_map_of_remove(e.drop_last(), i);
        assert(e.remove(i).drop_last() =~= e.drop_last().remove(i));
        assert(e.remove(i).last() == e.last());
        assert(e[i].0 != e.last().0);
        assert(map_of(e.drop_last()).remove(e[i].0).insert(e.last().0, e.last().1)
            =~= map_of(e.drop_last()).insert(e.last().0, e.last().1).remove(e[i].0));
    }
}

/// A container of HTTP headers. The name is the key: inserting an existing
/// name replaces its value.
///
/// Names are matched verbatim, by choice: the set does not case-normalize,
/// so `Content-Length` and `content-length` are distinct names, on insert
/// as on lookup.
#[derive(Debug, Clone)]
pub struct HttpHeaders {
    entries: Vec<(String, String)>,
}

impl View for HttpHeaders {
    type V = Map<Seq<char>, Seq<char>>;

    closed spec fn view(&self) -> Map<Seq<char>, Seq<char>> {
        map_of(pairs_view(self.entries@))
    }
}

impl HttpHeaders {
    /// The name/value pairs, in the order an iteration hands them out.
    pub closed spec fn spec_pairs(&self) -> Seq<(Seq<char>, Seq<char>)> {
        pairs_view(self.entries@)
    }

    /// Each header name held at most once.
    pub closed spec fn wf(&self) -> bool {
        unique_keys(pairs_view(self.entries@))
    }

    pub proof fn lemma_view_is_pairs(&self)
        ensures
            self@ == map_of(self.spec_pairs()),
            self.wf() == unique_keys(self.spec_pairs()),
    {
    }

    /// Creates an empty header set.
    pub fn new() -> (r: HttpHeaders)
        ensures
            r.wf(),
            r@ == Map::<Seq<char>, Seq<char>>::empty(),
            r.spec_pairs() == Seq::<(Seq<char>, Seq<char>)>::empty(),
    {
        let r = HttpHeaders { entries: Vec::new() };
        proof {
            assert(pairs_view(r.entries@) =~= Seq::<(Seq<char>, Seq<char>)>::empty());
        }
        r
    }

    /// Inserts a header, overwriting the value of an existing name.
    pub fn insert(&mut self, key: String, value: String)
        requires
            old(self).wf(),
        ensures
            final(self).wf(),
            final(self)@ == old(self)@.insert(key@, value@),
            final(self)@.dom() == old(self)@.dom().insert(key@),
    {
        let ghost e0 = pairs_view(self.entries@);
        let n = self.entries.len();
        let mut i: usize = 0;
        while i < n
            invariant
                0 <= i <= n,
                n == self.entries@.len(),
                *self == *old(self),
                e0 == pairs_view(self.entries@),
                unique_keys(e0),
                forall|j: int| 0 <= j < i ==> (#[trigger] e0[j]).0 != key@,
            decreases n - i,
        {
            if crate::utils::str_eq(self.entries[i].0.as_str(), key.as_str()) {
                proof {
                    assert(e0[i as int].0 == key@);
                }
                self.entries.remove(i);
                self.entries.push((key, value));
                proof {
                    assert(old(self)@ == map_of(e0));
                    assert(pairs_view(self.entries@) =~= e0.remove(i as int).push(
                        (key@, value@),
                    ));
                    lemma_map_of_remove(e0, i as int);
                    assert(pairs_view(self.entries@).drop_last() =~= e0.remove(i as int));
                    assert(self@ =~= old(self)@.insert(key@, value@));
                    assert(unique_keys(e0.remove(i as int))) by {
                        assert(forall|a: int, b: int|
                            0 <= a < b < e0.remove(i as int).len()
                                ==> (#[trigger] e0.remove(i as int)[a]).0 != (#[trigger] e0.remove(
                                i as int,
                            )[b]).0);
                    }
                    assert(!map_of(e0.remove(i as int)).contains_key(key@)) by {
                        lemma_map_of_contains(e0.remove(i as int), key@);
                    }
                    assert forall|a: int, b: int|
                        0 <= a < b < pairs_view(self.entries@).len() implies (
                    #[trigger] pairs_view(self.entries@)[a]).0 != (#[trigger] pairs_view(
                        self.entries@,
                    )[b]).0 by {
                        if b == pairs_view(self.entries@).len() - 1 {
                            lemma_map_of_contains(e0.remove(i as int), key@);
                            if e0.remove(i as int)[a].0 == key@ {
                                lemma_map_of_index(e0.remove(i as int), a);
                            }
                        }
                    }
                    assert(self@.dom() =~= old(self)@.dom().insert(key@));
                }
                return ;
            }
            i += 1;
        }
        self.entries.push((key, value));
        proof {
            assert(pairs_view(self.entries@) =~= e0.push((key@, value@)));
            assert(pairs_view(self.entries@).drop_last() =~= e0);
            assert(self@ =~= old(self)@.insert(key@, value@));
            assert forall|a: int, b: int|
                0 <= a < b < pairs_view(self.entries@).len() implies (#[trigger] pairs_view(
                self.entries@,
            )[a]).0 != (#[trigger] pairs_view(self.entries@)[b]).0 by {
                if b == pairs_view(self.entries@).len() - 1 {
                    assert(e0[a].0 != key@);
                }
            }
            assert(self@.dom() =~= old(self)@.dom().insert(key@));
        }
    }

    /// Looks a header up by its exact name.
    pub fn get(&self, key: &str) -> (r: Option<&String>)
        requires
            self.wf(),
        ensures
            match r {
                Some(v) => self@.contains_key(key@) && v@ == self@[key@],
                None => !self@.contains_key(key@),
            },
    {
        let ghost e = pairs_view(self.entries@);
        let n = self.entries.len();
        let mut i: usize = 0;
        while i < n
            invariant
                0 <= i <= n,
                n == self.entries@.len(),
                e == pairs_view(self.entries@),
                unique_keys(e),
                e == self.spec_pairs(),
                self@ == map_of(e),
                forall|j: int| 0 <= j < i ==> (#[trigger] e[j]).0 != key@,
            decreases n - i,
        {
            if crate::utils::str_eq(self.entries[i].0.as_str(), key) {
                proof {
                    assert(e[i as int].0 == key@);
                    lemma_map_of_index(e, i as int);
                }
                return Some(&self.entries[i].1);
            }
            i += 1;
        }
        proof {
            lemma_map_of_contains(e, key@);
        }
        None
    }

    /// Merges two header sets into a new one; on a shared name the other
    /// set's value wins. Neither input is changed.
    pub fn combine(&self, other: &HttpHeaders) -> (r: HttpHeaders)
        requires
            self.wf(),
            other.wf(),
        ensures
            r.wf(),
            r@ == self@.union_prefer_right(other@),
    {
        let mut r = HttpHeaders::new();
        let ghost se = pairs_view(self.entries@);
        let n = self.entries.len();
        let mut i: usize = 0;
        while i < n
            invariant
                0 <= i <= n,
                n == self.entries@.len(),
                se == pairs_view(self.entries@),
                r.wf(),
                r@ == map_of(se.subrange(0, i as int)),
            decreases n - i,
        {
            let (k, v) = (self.entries[i].0.clone(), self.entries[i].1.clone());
            r.insert(k, v);
            proof {
                assert(se.subrange(0, i + 1).drop_last() =~= se.subrange(0, i as int));
            }
            i += 1;
        }
        proof {
            assert(se.subrange(0, n as int) =~= se);
        }
        let ghost oe = pairs_view(other.entries@);
        let m = other.entries.len();
        let mut i: usize = 0;
        proof {
            assert(self@.union_prefer_right(map_of(oe.subrange(0, 0))) =~= self@) by {
                assert(oe.subrange(0, 0) =~= Seq::<(Seq<char>, Seq<char>)>::empty());
            }
        }
        while i < m
            invariant
                0 <= i <= m,
                m == other.entries@.len(),
                oe == pairs_view(other.entries@),
                self@ == map_of(se),
                r.wf(),
                r@ == self@.union_prefer_right(map_of(oe.subrange(0, i as int))),
            decreases m - i,
        {
            let (k, v) = (other.entries[i].0.clone(), other.entries[i].1.clone());
            r.insert(k, v);
            proof {
                assert(oe.subrange(0, i + 1).drop_last() =~= oe.subrange(0, i as int));
                assert(oe.subrange(0, i + 1).last() == oe[i as int]);
                assert(self@.union_prefer_right(
                    map_of(oe.subrange(0, i as int)).insert(oe[i as int].0, oe[i as int].1),
                ) =~= self@.union_prefer_right(map_of(oe.subrange(0, i as int))).insert(
                    oe[i as int].0,
                    oe[i as int].1,
                ));
            }
            i += 1;
        }
        proof {
            assert(oe.subrange(0, m as int) =~= oe);
        }
        r
    }

    /// The pairs of the set, for iteration; the order is not part of the
    /// contract and callers must not rely on it.
    pub fn iter(&self) -> (r: &Vec<(String, String)>)
        ensures
            pairs_view(r@) == self.spec_pairs(),
    {
        &self.entries
    }

    /// Sets the `Host` header.
    pub fn set_host(&mut self, host: String)
        requires
            old(self).wf(),
        ensures
            final(self).wf(),
            final(self)@ == old(self)@.insert("Host"@, host@),
    {
        self.insert("Host".to_owned(), host);
    }

    /// Sets the `User-Agent` header.
    pub fn set_user_agent(&mut self, user_agent: String)
        requires
            old(self).wf(),
        ensures
            final(self).wf(),
            final(self)@ == old(self)@.insert("User-Agent"@, user_agent@),
    {
        self.insert("User-Agent".to_owned(), user_agent);
    }

    /// Sets the `Accept` header.
    pub fn set_accept(&mut self, accept: String)
        requires
            old(self).wf(),
        ensures
            final(self).wf(),
            final(self)@ == old(self)@.insert("Accept"@, accept@),
    {
        self.insert("Accept".to_owned(), accept);
    }

    /// Sets the `Accept-Language` header.
    pub fn set_accept_language(&mut self, accept_language: String)
        requires
            old(self).wf(),
        ensures
            final(self).wf(),
            final(self)@ == old(self)@.insert("Accept-Language"@, accept_language@),
    {
        self.insert("Accept-Language".to_owned(), accept_language);
    }

    /// Sets the `Accept-Encoding` header.
    pub fn set_accept_encoding(&mut self, accept_encoding: String)
        requires
            old(self).wf(),
        ensures
            final(self).wf(),
            final(self)@ == old(self)@.insert("Accept-Encoding"@, accept_encoding@),
    {
        self.insert("Accept-Encoding".to_owned(), accept_encoding);
    }
}

/// The baseline client-identification headers every new client and request
/// starts from; all of them can be overridden per call.
pub open spec fn spec_default_headers() -> Map<Seq<char>, Seq<char>> {
    Map::<Seq<char>, Seq<char>>::empty().insert("User-Agent"@, "Clienter/1.0 (Rust)"@).insert(
        "Accept"@,
        "*/*"@,
    ).insert("Accept-Language"@, "en-US"@).insert("Accept-Encoding"@, "gzip"@).insert(
        "Connection"@,
        "keep-alive"@,
    ).insert("Upgrade-Insecure-Requests"@, "1"@).insert("Sec-Fetch-Dest"@, "document"@).insert(
        "Host"@,
        "localhost"@,
    )
}

impl Default for HttpHeaders {
    /// The default header set: the fixed baseline above.
    fn default() -> (r: HttpHeaders)
        ensures
            r.wf(),
            r@ == spec_default_headers(),
    {
        let mut r = HttpHeaders::new();
        r.insert("User-Agent".to_owned(), "Clienter/1.0 (Rust)".to_owned());
        r.insert("Accept".to_owned(), "*/*".to_owned());
        r.insert("Accept-Language".to_owned(), "en-US".to_owned());
        r.insert("Accept-Encoding".to_owned(), "gzip".to_owned());
        r.insert("Connection".to_owned(), "keep-alive".to_owned());
        r.insert("Upgrade-Insecure-Requests".to_owned(), "1".to_owned());
        r.insert("Sec-Fetch-Dest".to_owned(), "document".to_owned());
        r.insert("Host".to_owned(), "localhost".to_owned());
        r
    }
}

} // verus!
