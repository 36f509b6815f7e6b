//! The HTTP response model: a status code, a body, and a header table whose
//! names are case-insensitive and hold at most one value per name.
//!
//! The abstract view of a response is a [`ResponseModel`]: the header table
//! is a map from the case-folded header name to the header value, which is
//! exactly the "mapping of header name to header value" of the data model.

use vstd::prelude::*;

use crate::text::{eq_ignore_case, fold_seq};

verus! {

/// Abstract value of an HTTP response: status, body bytes, and the header
/// mapping, keyed by the case-folded header name.
#[verifier::ext_equal]
pub ghost struct ResponseModel {
    pub status: int,
    pub body: Seq<u8>,
    pub headers: Map<Seq<int>, Seq<char>>,
}

/// The header mapping described by an association list, later entries
/// shadowing earlier ones with the same case-folded name.
pub open spec fn headers_map(hs: Seq<(String, String)>) -> Map<Seq<int>, Seq<char>>
    decreases hs.len(),
{
    if hs.len() == 0 {
        Map::empty()
    } else {
        headers_map(hs.drop_last()).insert(fold_seq(hs.last().0@), hs.last().1@)
    }
}

/// The value of the header called `name` (case-insensitively) in `m`, if any.
pub open spec fn resp_header(m: ResponseModel, name: Seq<char>) -> Option<Seq<char>> {
    if m.headers.dom().contains(fold_seq(name)) {
        Some(m.headers[fold_seq(name)])
    } else {
        None
    }
}

/// `m` with the header called `name` set to `value`, replacing any value the
/// name had before.
pub open spec fn spec_set_header(m: ResponseModel, name: Seq<char>, value: Seq<char>) -> ResponseModel {
    ResponseModel { headers: m.headers.insert(fold_seq(name), value), ..m }
}

/// `m` without the header called `name`, if it had one.
pub open spec fn spec_remove_header(m: ResponseModel, name: Seq<char>) -> ResponseModel {
    ResponseModel { headers: m.headers.remove(fold_seq(name)), ..m }
}

/// No two entries of the list carry the same case-folded name.
pub open spec fn distinct_header_names(hs: Seq<(String, String)>) -> bool {
    forall|i: int, j: int|
        0 <= i < j < hs.len() ==> fold_seq(hs[i].0@) != fold_seq(hs[j].0@)
}

/// A key is in the mapping of a header list exactly when some entry carries it.
proof fn lemma_headers_map_dom(hs: Seq<(String, String)>, k: Seq<int>)
    ensures
        headers_map(hs).dom().contains(k) <==> exists|i: int|
            0 <= i < hs.len() && fold_seq(#[trigger] hs[i].0@) == k,
    decreases hs.len(),
{
    if hs.len() == 0 {
    } else {
        lemma_headers_map_dom(hs.drop_last(), k);
        if headers_map(hs).dom().contains(k) {
            if fold_seq(hs.last().0@) == k {
                assert(fold_seq(hs[hs.len() - 1].0@) == k);
            } else {
                let i = choose|i: int|
                    0 <= i < hs.drop_last().len() && fold_seq(#[trigger] hs.drop_last()[i].0@) == k;
                assert(fold_seq(hs[i].0@) == k);
            }
        }
        if exists|i: int| 0 <= i < hs.len() && fold_seq(#[trigger] hs[i].0@) == k {
            let i = choose|i: int| 0 <= i < hs.len() && fold_seq(#[trigger] hs[i].0@) == k;
            if i < hs.len() - 1 {
                assert(fold_seq(hs.drop_last()[i].0@) == k);
            }
        }
    }
}

/// Under distinct names, the mapping sends the name of entry `i` to the value
/// of entry `i`.
proof fn lemma_headers_map_get(hs: Seq<(String, String)>, i: int)
    requires
        distinct_header_names(hs),
        0 <= i < hs.len(),
    ensures
        headers_map(hs).dom().contains(fold_seq(hs[i].0@)),
        headers_map(hs)[fold_seq(hs[i].0@)] == hs[i].1@,
    decreases hs.len(),
{
    if i == hs.len() - 1 {
    } else {
        assert(distinct_header_names(hs.drop_last())) by {
            assert(forall|a: int, b: int|
                0 <= a < b < hs.drop_last().len() ==> fold_seq(#[trigger] hs.drop_last()[a].0@)
                    != fold_seq(#[trigger] hs.drop_last()[b].0@)) by {
                assert(forall|a: int|
                    0 <= a < hs.drop_last().len() ==> #[trigger] hs.drop_last()[a] == hs[a]);
            }
        }
        lemma_headers_map_get(hs.drop_last(), i);
        assert(hs.drop_last()[i] == hs[i]);
        assert(fold_seq(hs[i].0@) != fold_seq(hs.last().0@)) by {
            assert(hs.last() == hs[hs.len() - 1]);
        }
    }
}

/// An HTTP response: status code, body bytes, and the header table.
#[derive(Clone)]
pub struct HttpResponse {
    status_code: u16,
    body: Vec<u8>,
    headers: Vec<(String, String)>,
}

impl View for HttpResponse {
    type V = ResponseModel;

    closed spec fn view(&self) -> ResponseModel {
        ResponseModel {
            status: self.status_code as int,
            body: self.body@,
            headers: headers_map(self.headers@),
        }
    }
}

impl HttpResponse {
    /// Well-formed: the header table holds at most one entry per
    /// case-folded name.
    pub closed spec fn wf(&self) -> bool {
        distinct_header_names(self.headers@)
    }

    /// A response with the given status and body and no headers yet.
    pub fn from_parts(status_code: u16, body: Vec<u8>) -> (r: HttpResponse)
        ensures
            r.wf(),
            r@ == (ResponseModel { status: status_code as int, body: body@, headers: Map::empty() }),
    {
        HttpResponse { status_code, body, headers: Vec::new() }
    }

    /// The status code.
    pub fn status_code(&self) -> (r: u16)
        ensures
            r as int == self@.status,
    {
        self.status_code
    }

    /// The body bytes.
    pub fn body(&self) -> (r: &Vec<u8>)
        ensures
            r@ == self@.body,
    {
        &self.body
    }

    /// The header table as stored, whose mapping is the abstract one.
    pub fn header_list(&self) -> (r: &Vec<(String, String)>)
        ensures
            headers_map(r@) == self@.headers,
    {
        &self.headers
    }

    /// The value of the header called `name`, compared case-insensitively.
    pub fn header(&self, name: &str) -> (r: Option<String>)
        requires
            self.wf(),
        ensures
            match resp_header(self@, name@) {
                Some(v) => r matches Some(s) && s@ == v,
                None => r is None,
            },
    {
        let n: usize = self.headers.len();
        let mut i: usize = 0;
        while i < n
            invariant
                self.wf(),
                n == self.headers@.len(),
                i <= n,
                forall|j: int| 0 <= j < i ==> fold_seq(#[trigger] self.headers@[j].0@) != fold_seq(name@),
            decreases n - i,
        {
            if eq_ignore_case(self.headers[i].0.as_str(), name) {
                proof {
                    lemma_headers_map_get(self.headers@, i as int);
                }
                return Some(self.headers[i].1.clone());
            }
            i += 1;
        }
        proof {
            lemma_headers_map_dom(self.headers@, fold_seq(name@));
        }
        None
    }

    /// Sets the header called `name` (case-insensitively) to `value`: the
    /// first entry with that name keeps its place and stored spelling and
    /// takes the new value; if no entry has the name, one is appended.
    #[verifier::loop_isolation(false)]
    pub fn with_unique_header(self, name: &str, value: &str) -> (r: HttpResponse)
        requires
            self.wf(),
        ensures
            r.wf(),
            r@ == spec_set_header(self@, name@, value@),
    {
        let mut resp = self;
        let ghost orig: Seq<(String, String)> = resp.headers@;
        let ghost start = resp;
        let n: usize = resp.headers.len();
        let mut i: usize = 0;
        while i < n
            invariant
                resp == start,
                distinct_header_names(resp.headers@),
                resp.headers@ == orig,
                n == orig.len(),
                i <= n,
                forall|j: int| 0 <= j < i ==> fold_seq(#[trigger] orig[j].0@) != fold_seq(name@),
            decreases n - i,
        {
            if eq_ignore_case(resp.headers[i].0.as_str(), name) {
                let stored_name: String = resp.headers[i].0.clone();
                resp.headers[i] = (stored_name, value.to_owned());
                proof {
                    let updated = resp.headers@;
                    let newval = updated[i as int].1;
                    assert(newval@ == value@);
                    assert(updated =~= orig.update(i as int, (orig[i as int].0, newval)));
                    lemma_headers_map_update(orig, i as int, newval);
                    assert(fold_seq(orig[i as int].0@) == fold_seq(name@));
                    assert(headers_map(updated) =~= headers_map(orig).insert(
                        fold_seq(name@),
                        value@,
                    ));
                    assert(distinct_header_names(updated)) by {
                        assert(forall|a: int|
                            0 <= a < updated.len() ==> #[trigger] updated[a].0 == orig[a].0);
                    }
                    assert(resp@ =~= spec_set_header(self@, name@, value@));
                }
                return resp;
            }
            i += 1;
        }
        proof {
            lemma_headers_map_dom(orig, fold_seq(name@));
            assert(!headers_map(orig).dom().contains(fold_seq(name@)));
        }
        resp.headers.push((name.to_owned(), value.to_owned()));
        proof {
            let pushed = resp.headers@;
            assert(pushed.drop_last() =~= orig);
            assert(pushed.last().0@ == name@ && pushed.last().1@ == value@);
            assert(headers_map(pushed) =~= headers_map(orig).insert(fold_seq(name@), value@));
            assert(distinct_header_names(pushed)) by {
                assert(forall|a: int| 0 <= a < orig.len() ==> #[trigger] pushed[a] == orig[a]);
            }
            assert(resp@ =~= spec_set_header(self@, name@, value@));
        }
        resp
    }

    /// Removes the header called `name` (case-insensitively), if the
    /// response has one.
    #[verifier::loop_isolation(false)]
    pub fn without_header(self, name: &str) -> (r: HttpResponse)
        requires
            self.wf(),
        ensures
            r.wf(),
            r@ == spec_remove_header(self@, name@),
    {
        let mut resp = self;
        let ghost orig: Seq<(String, String)> = resp.headers@;
        let ghost start = resp;
        let n: usize = resp.headers.len();
        let mut i: usize = 0;
        while i < n
            invariant
                resp == start,
                distinct_header_names(resp.headers@),
                resp.headers@ == orig,
                n == orig.len(),
                i <= n,
                forall|j: int| 0 <= j < i ==> fold_seq(#[trigger] orig[j].0@) != fold_seq(name@),
            decreases n - i,
        {
            if eq_ignore_case(resp.headers[i].0.as_str(), name) {
                resp.headers.remove(i);
                proof {
                    lemma_headers_map_remove_at(orig, i as int);
                    assert(fold_seq(orig[i as int].0@) == fold_seq(name@));
                    assert(resp@ =~= spec_remove_header(self@, name@));
                }
                return resp;
            }
            i += 1;
        }
        proof {
            lemma_headers_map_dom(orig, fold_seq(name@));
            assert(headers_map(orig).remove(fold_seq(name@)) =~= headers_map(orig));
            assert(resp@ =~= spec_remove_header(self@, name@));
        }
        resp
    }
}

/// Replacing the value of entry `i` (keeping its name) turns the mapping into
/// an insert at that entry's folded name, provided names are distinct.
proof fn lemma_headers_map_update(hs: Seq<(String, String)>, i: int, value: String)
    requires
        distinct_header_names(hs),
        0 <= i < hs.len(),
    ensures
        headers_map(hs.update(i, (hs[i].0, value)))
            == headers_map(hs).insert(fold_seq(hs[i].0@), value@),
    decreases hs.len(),
{
    let updated = hs.update(i, (hs[i].0, value));
    if i == hs.len() - 1 {
        assert(updated.drop_last() =~= hs.drop_last());
        assert(updated.last() == (hs[i].0, value));
        assert(headers_map(updated) == headers_map(hs.drop_last()).insert(
            fold_seq(hs[i].0@),
            value@,
        ));
        assert(headers_map(hs.drop_last()).insert(fold_seq(hs[i].0@), value@)
            =~= headers_map(hs).insert(fold_seq(hs[i].0@), value@));
    } else {
        assert(distinct_header_names(hs.drop_last())) by {
            assert(forall|a: int|
                0 <= a < hs.drop_last().len() ==> #[trigger] hs.drop_last()[a] == hs[a]);
        }
        lemma_headers_map_update(hs.drop_last(), i, value);
        assert(updated.drop_last() =~= hs.drop_last().update(i, (hs[i].0, value))) by {
            assert(hs.drop_last()[i] == hs[i]);
        }
        assert(updated.last() == hs.last());
        let k = fold_seq(hs[i].0@);
        let klast = fold_seq(hs.last().0@);
        assert(k != klast) by {
            assert(hs.last() == hs[hs.len() - 1]);
        }
        assert(headers_map(updated) == headers_map(hs.drop_last()).insert(k, value@).insert(
            klast,
            hs.last().1@,
        ));
        assert(headers_map(hs.drop_last()).insert(k, value@).insert(klast, hs.last().1@)
            =~= headers_map(hs).insert(k, value@));
    }
}

/// Dropping entry `i` turns the mapping into a removal of that entry's
/// folded name, provided names are distinct.
proof fn lemma_headers_map_remove_at(hs: Seq<(String, String)>, i: int)
    requires
        distinct_header_names(hs),
        0 <= i < hs.len(),
    ensures
        distinct_header_names(hs.remove(i)),
        headers_map(hs.remove(i)) == headers_map(hs).remove(fold_seq(hs[i].0@)),
    decreases hs.len(),
{
    let k = fold_seq(hs[i].0@);
    let removed = hs.remove(i);
    assert(forall|a: int|
        0 <= a < removed.len() ==> #[trigger] removed[a] == (if a < i {
            hs[a]
        } else {
            hs[a + 1]
        }));
    assert(distinct_header_names(removed));
    if i == hs.len() - 1 {
        assert(removed =~= hs.drop_last());
        lemma_headers_map_dom(hs.drop_last(), k);
        assert(forall|a: int|
            0 <= a < hs.len() - 1 ==> fold_seq(#[trigger] hs.drop_last()[a].0@) != k) by {
            assert(forall|a: int| 0 <= a < hs.len() - 1 ==> #[trigger] hs.drop_last()[a] == hs[a]);
        }
        assert(!headers_map(hs.drop_last()).dom().contains(k));
        assert(headers_map(hs).remove(k) =~= headers_map(hs.drop_last()));
    } else {
        assert(distinct_header_names(hs.drop_last())) by {
            assert(forall|a: int|
                0 <= a < hs.drop_last().len() ==> #[trigger] hs.drop_last()[a] == hs[a]);
        }
        lemma_headers_map_remove_at(hs.drop_last(), i);
        assert(removed.drop_last() =~= hs.drop_last().remove(i));
        assert(removed.last() == hs.last());
        let klast = fold_seq(hs.last().0@);
        assert(k != klast) by {
            assert(hs.last() == hs[hs.len() - 1]);
        }
        assert(headers_map(removed) == headers_map(hs.drop_last()).remove(k).insert(
            klast,
            hs.last().1@,
        ));
        assert(headers_map(hs.drop_last()).remove(k).insert(klast, hs.last().1@)
            =~= headers_map(hs).remove(k));
    }
}

} // verus!
