//! A caller-side record of one multipart session: which etag the service
//! returned for each part number, and the completion manifest built from it.
//!
//! The record is a plain value. Recording a part number again replaces its
//! etag, and the manifest lists the parts in ascending part-number order
//! whatever order they were recorded in.

use vstd::prelude::*;
use crate::error::Error;
use crate::keys::{
    distinct_keys, entries_map, lemma_lookup_absent, lemma_lookup_concat, lemma_lookup_distinct,
    lookup,
};
use crate::multipart::CompleteMultipartUploadRequest;
use crate::response::{InitiateMultipartUploadResult, ListPartsResult};

verus! {

pub type PartEntries = Seq<(u32, Seq<char>)>;

/// Part numbers strictly increase from front to back.
pub open spec fn ascending(s: PartEntries) -> bool {
    forall|i: int, j: int| 0 <= i < j < s.len() ==> (#[trigger] s[i]).0 < (#[trigger] s[j]).0
}

/// No part number occurs twice.
pub open spec fn distinct_numbers(s: PartEntries) -> bool {
    distinct_keys(s)
}

pub open spec fn part_entries(v: Seq<(u32, String)>) -> PartEntries {
    Seq::new(v.len(), |i: int| (v[i].0, v[i].1@))
}

/// The part numbers of a list, in order.
pub open spec fn numbers(s: PartEntries) -> Seq<u32> {
    s.map_values(|e: (u32, Seq<char>)| e.0)
}

/// The record after a sequence of uploads, each `(part number, etag)`,
/// applied in order to `start`.
pub open spec fn recorded_all(start: Map<u32, Seq<char>>, calls: PartEntries) -> Map<u32, Seq<char>>
    decreases calls.len(),
{
    if calls.len() == 0 {
        start
    } else {
        recorded_all(start, calls.drop_last()).insert(calls.last().0, calls.last().1)
    }
}

/// The caller's record of a session.
#[derive(Debug, Clone)]
pub struct UploadSession {
    bucket: String,
    key: String,
    upload_id: String,
    parts: Vec<(u32, String)>,
}

impl UploadSession {
    pub closed spec fn spec_bucket(&self) -> Seq<char> {
        self.bucket@
    }

    pub closed spec fn spec_key(&self) -> Seq<char> {
        self.key@
    }

    pub closed spec fn spec_upload_id(&self) -> Seq<char> {
        self.upload_id@
    }

    /// The recorded parts in ascending part-number order.
    pub closed spec fn spec_parts(&self) -> PartEntries {
        part_entries(self.parts@)
    }

    /// The etag recorded for each part number.
    pub open spec fn parts_map(&self) -> Map<u32, Seq<char>> {
        entries_map(self.spec_parts())
    }

    pub open spec fn wf(&self) -> bool {
        ascending(self.spec_parts())
    }

    /// The record of a session that was just opened: no parts yet.
    pub fn new(bucket: &str, key: &str, upload_id: &str) -> (r: UploadSession)
        ensures
            r.wf(),
            r.spec_bucket() == bucket@,
            r.spec_key() == key@,
            r.spec_upload_id() == upload_id@,
            r.spec_parts() == Seq::<(u32, Seq<char>)>::empty(),
            r.parts_map() == Map::<u32, Seq<char>>::empty(),
    {
        let r = UploadSession {
            bucket: bucket.to_owned(),
            key: key.to_owned(),
            upload_id: upload_id.to_owned(),
            parts: Vec::new(),
        };
        assert(r.spec_parts() =~= Seq::<(u32, Seq<char>)>::empty());
        assert(r.parts_map() =~= Map::<u32, Seq<char>>::empty());
        r
    }

    /// The record of the session that an initiation answer opened.
    pub fn from_initiate(answer: &InitiateMultipartUploadResult) -> (r: UploadSession)
        ensures
            r.wf(),
            r.spec_bucket() == answer.bucket@,
            r.spec_key() == answer.key@,
            r.spec_upload_id() == answer.upload_id@,
            r.parts_map() == Map::<u32, Seq<char>>::empty(),
    {
        UploadSession::new(answer.bucket.as_str(), answer.key.as_str(), answer.upload_id.as_str())
    }

    pub fn bucket(&self) -> (r: &str)
        ensures
            r@ == self.spec_bucket(),
    {
        self.bucket.as_str()
    }

    pub fn key(&self) -> (r: &str)
        ensures
            r@ == self.spec_key(),
    {
        self.key.as_str()
    }

    pub fn upload_id(&self) -> (r: &str)
        ensures
            r@ == self.spec_upload_id(),
    {
        self.upload_id.as_str()
    }

    /// How many distinct parts are recorded.
    pub fn part_count(&self) -> (r: usize)
        ensures
            r == self.spec_parts().len(),
    {
        self.parts.len()
    }

    /// Records the etag that uploading part `part_number` returned; a part
    /// number recorded before takes the new etag. Part number 0 is refused and
    /// leaves the record as it was.
    pub fn record_part(&mut self, part_number: u32, etag: &str) -> (r: Result<(), Error>)
        requires
            old(self).wf(),
        ensures
            final(self).wf(),
            final(self).spec_bucket() == old(self).spec_bucket(),
            final(self).spec_key() == old(self).spec_key(),
            final(self).spec_upload_id() == old(self).spec_upload_id(),
            part_number == 0 ==> r == Err::<(), Error>(Error::InvalidPartNumber) && final(self).spec_parts()
                == old(self).spec_parts(),
            part_number != 0 ==> r == Ok::<(), Error>(()) && final(self).parts_map() == old(
                self,
            ).parts_map().insert(part_number, etag@),
    {
        if part_number == 0 {
            return Err(Error::InvalidPartNumber);
        }
        let ghost s = self.spec_parts();
        let mut p: usize = 0;
        while p < self.parts.len() && self.parts[p].0 < part_number
            invariant
                s == part_entries(self.parts@),
                p <= self.parts@.len(),
                forall|i: int| 0 <= i < p ==> (#[trigger] s[i]).0 < part_number,
            decreases self.parts@.len() - p,
        {
            p = p + 1;
        }
        let ghost pre = s.subrange(0, p as int);
        let ghost e = (part_number, etag@);
        proof {
            assert forall|i: int| 0 <= i < pre.len() implies (#[trigger] pre[i]).0 != part_number by {
                assert(pre[i] == s[i]);
            }
            lemma_lookup_absent(pre, part_number);
        }
        if p < self.parts.len() && self.parts[p].0 == part_number {
            self.parts.set(p, (part_number, etag.to_owned()));
            proof {
                let t = part_entries(self.parts@);
                let post = s.subrange(p + 1, s.len() as int);
                assert(s =~= pre + (seq![s[p as int]] + post));
                assert(t =~= pre + (seq![e] + post));
                assert forall|q: u32| #[trigger] lookup(t, q) == (if q == part_number {
                    Some(etag@)
                } else {
                    lookup(s, q)
                }) by {
                    lemma_lookup_concat(pre, seq![e] + post, q);
                    lemma_lookup_concat(pre, seq![s[p as int]] + post, q);
                    lemma_lookup_concat(seq![e], post, q);
                    lemma_lookup_concat(seq![s[p as int]], post, q);
                    if q != part_number {
                        lemma_lookup_absent(seq![e], q);
                        lemma_lookup_absent(seq![s[p as int]], q);
                    }
                }
                assert(entries_map(t) =~= entries_map(s).insert(part_number, etag@));
            }
        } else {
            self.parts.insert(p, (part_number, etag.to_owned()));
            proof {
                let t = part_entries(self.parts@);
                let post = s.subrange(p as int, s.len() as int);
                assert(s =~= pre + post);
                assert(t =~= pre + (seq![e] + post));
                assert(ascending(t)) by {
                    assert forall|i: int, j: int| 0 <= i < j < t.len() implies (
                    #[trigger] t[i]).0 < (#[trigger] t[j]).0 by {
                        if j < p {
                            assert(t[i] == s[i] && t[j] == s[j]);
                        } else if j == p {
                            assert(t[i] == s[i]);
                        } else if i == p {
                            assert(t[j] == s[j - 1]);
                        } else if i < p {
                            assert(t[i] == s[i] && t[j] == s[j - 1]);
                        } else {
                            assert(t[i] == s[i - 1] && t[j] == s[j - 1]);
                        }
                    }
                }
                assert forall|q: u32| #[trigger] lookup(t, q) == (if q == part_number {
                    Some(etag@)
                } else {
                    lookup(s, q)
                }) by {
                    lemma_lookup_concat(pre, seq![e] + post, q);
                    lemma_lookup_concat(pre, post, q);
                    lemma_lookup_concat(seq![e], post, q);
                    if q != part_number {
                        lemma_lookup_absent(seq![e], q);
                    } else {
                        assert forall|i: int| 0 <= i < post.len() implies (#[trigger] post[i]).0
                            != part_number by {
                            assert(post[i] == s[p + i]);
                        }
                        lemma_lookup_absent(post, q);
                    }
                }
                assert(entries_map(t) =~= entries_map(s).insert(part_number, etag@));
            }
        }
        Ok(())
    }

    /// The completion manifest: every recorded part, in ascending
    /// part-number order, with its latest etag.
    pub fn manifest(&self) -> (r: CompleteMultipartUploadRequest)
        requires
            self.wf(),
        ensures
            r.upload_id@ == self.spec_upload_id(),
            part_entries(r.parts@) == self.spec_parts(),
            ascending(part_entries(r.parts@)),
            entries_map(part_entries(r.parts@)) == self.parts_map(),
    {
        let mut parts: Vec<(u32, String)> = Vec::new();
        let mut i: usize = 0;
        while i < self.parts.len()
            invariant
                i <= self.parts@.len(),
                parts@.len() == i,
                part_entries(parts@) == self.spec_parts().subrange(0, i as int),
            decreases self.parts@.len() - i,
        {
            let ghost before = parts@;
            let etag = self.parts[i].1.clone();
            parts.push((self.parts[i].0, etag));
            assert(parts@ == before.push((self.parts@[i as int].0, self.parts@[i as int].1)));
            assert forall|k: int| 0 <= k <= i implies part_entries(parts@)[k]
                == self.spec_parts()[k] by {
                if k < i {
                    assert(parts@[k] == before[k]);
                    assert(part_entries(before)[k] == self.spec_parts().subrange(0, i as int)[k]);
                }
            }
            assert(part_entries(parts@) =~= self.spec_parts().subrange(0, i + 1));
            i = i + 1;
        }
        assert(part_entries(parts@) =~= self.spec_parts());
        CompleteMultipartUploadRequest { upload_id: self.upload_id.clone(), parts }
    }

    /// Whether a part listing of the session reports exactly the recorded
    /// part numbers, in the same ascending order.
    pub fn matches_listing(&self, listed: &ListPartsResult) -> (r: bool)
        ensures
            r == (listed.parts@.len() == self.spec_parts().len() && forall|i: int|
                0 <= i < listed.parts@.len() ==> (#[trigger] listed.parts@[i]).part_number
                    == self.spec_parts()[i].0),
    {
        if listed.parts.len() != self.parts.len() {
            return false;
        }
        let mut i: usize = 0;
        while i < self.parts.len()
            invariant
                listed.parts@.len() == self.parts@.len(),
                i <= self.parts@.len(),
                forall|j: int| 0 <= j < i ==> (#[trigger] listed.parts@[j]).part_number
                    == self.spec_parts()[j].0,
            decreases self.parts@.len() - i,
        {
            if listed.parts[i].part_number != self.parts[i].0 {
                return false;
            }
            i = i + 1;
        }
        true
    }
}

proof fn lemma_recorded_all(start: Map<u32, Seq<char>>, calls: PartEntries)
    requires
        distinct_numbers(calls),
    ensures
        forall|i: int|
            0 <= i < calls.len() ==> #[trigger] recorded_all(start, calls).contains_key(calls[i].0)
                && recorded_all(start, calls)[calls[i].0] == calls[i].1,
        forall|n: u32|
            (forall|i: int| 0 <= i < calls.len() ==> (#[trigger] calls[i]).0 != n) ==> (
            #[trigger] recorded_all(start, calls).contains_key(n) == start.contains_key(n)
                && recorded_all(start, calls)[n] == start[n]),
    decreases calls.len(),
{
    if calls.len() > 0 {
        let t = calls.drop_last();
        assert(distinct_numbers(t)) by {
            assert forall|i: int, j: int| 0 <= i < j < t.len() implies (#[trigger] t[i]).0 != (
            #[trigger] t[j]).0 by {
                assert(t[i] == calls[i] && t[j] == calls[j]);
            }
        }
        lemma_recorded_all(start, t);
        assert forall|i: int| 0 <= i < calls.len() implies #[trigger] recorded_all(
            start,
            calls,
        ).contains_key(calls[i].0) && recorded_all(start, calls)[calls[i].0] == calls[i].1 by {
            if i < calls.len() - 1 {
                assert(calls[i] == t[i]);
                assert(recorded_all(start, t).contains_key(t[i].0));
                assert(calls[i].0 != calls[calls.len() - 1].0);
            }
        }
        assert forall|n: u32|
            (forall|i: int| 0 <= i < calls.len() ==> (#[trigger] calls[i]).0 != n) implies (
            #[trigger] recorded_all(start, calls).contains_key(n) == start.contains_key(n)
                && recorded_all(start, calls)[n] == start[n]) by {
            assert(calls[calls.len() - 1].0 != n);
            assert forall|i: int| 0 <= i < t.len() implies (#[trigger] t[i]).0 != n by {
                assert(t[i] == calls[i]);
            }
            assert(recorded_all(start, t).contains_key(n) == start.contains_key(n));
        }
    }
}

/// Two ascending part lists that record the same etags are the same list.
proof fn lemma_ascending_determined(a: PartEntries, b: PartEntries)
    requires
        ascending(a),
        ascending(b),
        entries_map(a) == entries_map(b),
    ensures
        a == b,
    decreases a.len() + b.len(),
{
    assert(distinct_numbers(a));
    assert(distinct_numbers(b));
    lemma_lookup_distinct(a);
    lemma_lookup_distinct(b);
    if a.len() == 0 && b.len() == 0 {
        assert(a =~= b);
    } else if a.len() == 0 {
        assert(lookup(b, b[0].0) is Some);
        assert(!entries_map(a).contains_key(b[0].0));
        assert(entries_map(b).contains_key(b[0].0));
    } else if b.len() == 0 {
        assert(lookup(a, a[0].0) is Some);
        assert(entries_map(a).contains_key(a[0].0));
    } else {
        let ka = a[0].0;
        let kb = b[0].0;
        assert(entries_map(a).contains_key(ka));
        assert(entries_map(b).contains_key(kb));
        assert(lookup(b, ka) is Some);
        assert(lookup(a, kb) is Some);
        let i = choose|i: int| 0 <= i < b.len() && b[i].0 == ka;
        let j = choose|j: int| 0 <= j < a.len() && a[j].0 == kb;
        assert(kb <= ka) by {
            if i > 0 {
                assert(b[0].0 < b[i].0);
            }
        }
        assert(ka <= kb) by {
            if j > 0 {
                assert(a[0].0 < a[j].0);
            }
        }
        assert(a[0] == b[0]) by {
            assert(entries_map(a)[ka] == a[0].1);
            assert(entries_map(b)[kb] == b[0].1);
        }
        let ta = a.drop_first();
        let tb = b.drop_first();
        assert(ascending(ta)) by {
            assert forall|x: int, y: int| 0 <= x < y < ta.len() implies (#[trigger] ta[x]).0 < (
            #[trigger] ta[y]).0 by {
                assert(ta[x] == a[x + 1] && ta[y] == a[y + 1]);
            }
        }
        assert(ascending(tb)) by {
            assert forall|x: int, y: int| 0 <= x < y < tb.len() implies (#[trigger] tb[x]).0 < (
            #[trigger] tb[y]).0 by {
                assert(tb[x] == b[x + 1] && tb[y] == b[y + 1]);
            }
        }
        assert(entries_map(ta) =~= entries_map(tb)) by {
            assert forall|q: u32| #[trigger] lookup(ta, q) == lookup(tb, q) by {
                if q == ka {
                    assert forall|x: int| 0 <= x < ta.len() implies (#[trigger] ta[x]).0 != q by {
                        assert(ta[x] == a[x + 1]);
                        assert(a[0].0 < a[x + 1].0);
                    }
                    assert forall|x: int| 0 <= x < tb.len() implies (#[trigger] tb[x]).0 != q by {
                        assert(tb[x] == b[x + 1]);
                        assert(b[0].0 < b[x + 1].0);
                    }
                    lemma_lookup_absent(ta, q);
                    lemma_lookup_absent(tb, q);
                } else {
                    assert(a[0].0 != q && b[0].0 != q);
                    assert(lookup(a, q) == lookup(ta, q));
                    assert(lookup(b, q) == lookup(tb, q));
                    assert(entries_map(a).contains_key(q) == (lookup(a, q) is Some));
                    assert(entries_map(b).contains_key(q) == (lookup(b, q) is Some));
                    if lookup(a, q) is Some {
                        assert(entries_map(a)[q] == lookup(a, q)->Some_0);
                        assert(entries_map(b)[q] == lookup(b, q)->Some_0);
                    }
                }
            }
        }
        lemma_ascending_determined(ta, tb);
        assert(a =~= seq![a[0]] + ta);
        assert(b =~= seq![b[0]] + tb);
    }
}

/// Recording the same part number twice keeps only the second etag: a
/// manifest built afterwards names the second upload for that part.
pub proof fn law_last_write_wins(start: Map<u32, Seq<char>>, n: u32, first: Seq<char>, second: Seq<char>)
    ensures
        recorded_all(start, seq![(n, first), (n, second)]) == start.insert(n, second),
        recorded_all(start, seq![(n, first), (n, second)])[n] == second,
{
    let calls = seq![(n, first), (n, second)];
    let one = seq![(n, first)];
    assert(calls.drop_last() =~= one);
    assert(one.drop_last() =~= Seq::<(u32, Seq<char>)>::empty());
    assert(recorded_all(start, one) == recorded_all(start, one.drop_last()).insert(n, first));
    assert(recorded_all(start, one) == start.insert(n, first));
    assert(recorded_all(start, calls) == recorded_all(start, one).insert(n, second));
    assert(recorded_all(start, calls) =~= start.insert(n, second));
}

/// Uploading the same distinct parts in any two orders leaves the same
/// record, and so the same ascending manifest.
pub proof fn law_upload_order_irrelevant(
    start: Map<u32, Seq<char>>,
    calls1: PartEntries,
    calls2: PartEntries,
    manifest1: PartEntries,
    manifest2: PartEntries,
)
    requires
        calls1.to_multiset() == calls2.to_multiset(),
        distinct_numbers(calls1),
        distinct_numbers(calls2),
        ascending(manifest1),
        ascending(manifest2),
        entries_map(manifest1) == recorded_all(start, calls1),
        entries_map(manifest2) == recorded_all(start, calls2),
    ensures
        recorded_all(start, calls1) == recorded_all(start, calls2),
        manifest1 == manifest2,
{
    calls1.to_multiset_ensures();
    calls2.to_multiset_ensures();
    lemma_recorded_all(start, calls1);
    lemma_recorded_all(start, calls2);
    let r1 = recorded_all(start, calls1);
    let r2 = recorded_all(start, calls2);
    assert forall|n: u32| r1.contains_key(n) == r2.contains_key(n) && (r1.contains_key(n) ==> r1[n]
        == r2[n]) by {
        if exists|i: int| 0 <= i < calls1.len() && calls1[i].0 == n {
            let i = choose|i: int| 0 <= i < calls1.len() && calls1[i].0 == n;
            assert(calls1.contains(calls1[i]));
            assert(calls1.to_multiset().count(calls1[i]) > 0);
            assert(calls2.to_multiset().count(calls1[i]) > 0);
            assert(calls2.contains(calls1[i]));
            let j = choose|j: int| 0 <= j < calls2.len() && calls2[j] == calls1[i];
            assert(r1.contains_key(calls1[i].0));
            assert(r2.contains_key(calls2[j].0));
        } else if exists|j: int| 0 <= j < calls2.len() && calls2[j].0 == n {
            let j = choose|j: int| 0 <= j < calls2.len() && calls2[j].0 == n;
            assert(calls2.contains(calls2[j]));
            assert(calls2.to_multiset().count(calls2[j]) > 0);
            assert(calls1.to_multiset().count(calls2[j]) > 0);
            assert(calls1.contains(calls2[j]));
            let i = choose|i: int| 0 <= i < calls1.len() && calls1[i] == calls2[j];
            assert(calls1[i].0 == n);
        } else {
            assert(r1.contains_key(n) == start.contains_key(n));
            assert(r2.contains_key(n) == start.contains_key(n));
        }
    }
    assert(r1 =~= r2);
    lemma_ascending_determined(manifest1, manifest2);
}

/// After uploading N parts with distinct numbers to a fresh session, the
/// record lists exactly N parts, and their numbers are the uploaded ones.
pub proof fn law_part_count(calls: PartEntries, manifest: PartEntries)
    requires
        distinct_numbers(calls),
        ascending(manifest),
        entries_map(manifest) == recorded_all(Map::empty(), calls),
    ensures
        manifest.len() == calls.len(),
        numbers(manifest).to_set() == numbers(calls).to_set(),
{
    lemma_recorded_all(Map::empty(), calls);
    assert(distinct_numbers(manifest));
    lemma_lookup_distinct(manifest);
    let r = recorded_all(Map::empty(), calls);
    let a = numbers(manifest);
    let b = numbers(calls);
    assert forall|n: u32| a.to_set().contains(n) == b.to_set().contains(n) by {
        if a.to_set().contains(n) {
            assert(a.contains(n));
            let i = choose|i: int| 0 <= i < a.len() && a[i] == n;
            assert(lookup(manifest, manifest[i].0) is Some);
            assert(entries_map(manifest).contains_key(n));
            if !(exists|j: int| 0 <= j < calls.len() && calls[j].0 == n) {
                assert(!r.contains_key(n));
            }
            let j = choose|j: int| 0 <= j < calls.len() && calls[j].0 == n;
            assert(b[j] == n);
            assert(b.contains(n));
        }
        if b.to_set().contains(n) {
            assert(b.contains(n));
            let j = choose|j: int| 0 <= j < b.len() && b[j] == n;
            assert(calls[j].0 == n);
            assert(r.contains_key(calls[j].0));
            assert(lookup(manifest, n) is Some);
            let i = choose|i: int| 0 <= i < manifest.len() && manifest[i].0 == n;
            assert(a[i] == n);
            assert(a.contains(n));
        }
    }
    assert(a.to_set() =~= b.to_set());
    assert(a.no_duplicates()) by {
        assert forall|i: int, j: int| 0 <= i < a.len() && 0 <= j < a.len() && i != j implies a[i]
            != a[j] by {
            if i < j {
                assert(manifest[i].0 != manifest[j].0);
            } else {
                assert(manifest[j].0 != manifest[i].0);
            }
        }
    }
    assert(b.no_duplicates()) by {
        assert forall|i: int, j: int| 0 <= i < b.len() && 0 <= j < b.len() && i != j implies b[i]
            != b[j] by {
            if i < j {
                assert(calls[i].0 != calls[j].0);
            } else {
                assert(calls[j].0 != calls[i].0);
            }
        }
    }
    a.unique_seq_to_set();
    b.unique_seq_to_set();
}

} // verus!
