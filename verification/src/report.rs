//! The findings of a scan, put in order: hosts without a finding are left
//! out, and the findings are sorted by address.

use crate::orchestrator::{PrinterInfo, Record};
use vstd::prelude::*;
use vstd::seq_lib::{to_multiset_build, to_multiset_contains, to_multiset_insert, to_multiset_len};

verus! {

/// What the findings of `infos` say, in the same order.
pub open spec fn records(infos: Seq<PrinterInfo>) -> Seq<Record> {
    Seq::new(infos.len(), |i: int| infos[i]@)
}

/// The findings among `outcomes`, in the same order.
pub open spec fn found(outcomes: Seq<Option<PrinterInfo>>) -> Seq<Record>
    decreases outcomes.len(),
{
    if outcomes.len() == 0 {
        Seq::empty()
    } else {
        let before = found(outcomes.drop_last());
        match outcomes.last() {
            Some(info) => before.push(info@),
            None => before,
        }
    }
}

/// Whether the addresses of `s` never fall.
pub open spec fn ascending(s: Seq<Record>) -> bool {
    forall|i: int, j: int| 0 <= i < j < s.len() ==> s[i].ip <= s[j].ip
}

/// Whether the addresses of `s` rise from each record to the next.
pub open spec fn strictly_ascending(s: Seq<Record>) -> bool {
    forall|i: int, j: int| 0 <= i < j < s.len() ==> s[i].ip < s[j].ip
}

/// Whether no two records of `s` have the same address.
pub open spec fn distinct_addresses(s: Seq<Record>) -> bool {
    forall|i: int, j: int| 0 <= i < j < s.len() ==> s[i].ip != s[j].ip
}

/// How many records at the start of `s` have an address of at most `ip`:
/// the place of a new record with that address, behind those that were
/// there before it.
pub open spec fn place(s: Seq<Record>, ip: u32) -> int
    decreases s.len(),
{
    if s.len() == 0 || s.first().ip > ip {
        0
    } else {
        1 + place(s.drop_first(), ip)
    }
}

/// The records of `s` sorted by address. Records with the same address keep
/// the order that they have in `s`.
pub open spec fn sorted(s: Seq<Record>) -> Seq<Record>
    decreases s.len(),
{
    if s.len() == 0 {
        s
    } else {
        let before = sorted(s.drop_last());
        before.insert(place(before, s.last().ip), s.last())
    }
}

/// The place of a record lies in the sequence or at its end; in front of
/// it no address is higher, and in an ascending sequence every address from
/// it on is.
pub proof fn lemma_place(s: Seq<Record>, ip: u32)
    ensures
        0 <= place(s, ip) <= s.len(),
        forall|k: int| 0 <= k < place(s, ip) ==> s[k].ip <= ip,
        ascending(s) ==> forall|k: int| place(s, ip) <= k < s.len() ==> s[k].ip > ip,
    decreases s.len(),
{
    if s.len() == 0 || s.first().ip > ip {
    } else {
        let t = s.drop_first();
        lemma_place(t, ip);
        assert forall|k: int| 0 <= k < place(s, ip) implies s[k].ip <= ip by {
            if k > 0 {
                assert(s[k] == t[k - 1]);
            }
        }
        if ascending(s) {
            assert(ascending(t)) by {
                assert forall|i: int, j: int| 0 <= i < j < t.len() implies t[i].ip <= t[j].ip by {
                    assert(t[i] == s[i + 1] && t[j] == s[j + 1]);
                }
            }
            assert forall|k: int| place(s, ip) <= k < s.len() implies s[k].ip > ip by {
                assert(s[k] == t[k - 1]);
            }
        }
    }
}

/// Sorting puts the records in ascending order and neither adds nor loses
/// one.
pub proof fn lemma_sorted(s: Seq<Record>)
    ensures
        ascending(sorted(s)),
        sorted(s).to_multiset() == s.to_multiset(),
        sorted(s).len() == s.len(),
    decreases s.len(),
{
    if s.len() > 0 {
        let before = sorted(s.drop_last());
        let last = s.last();
        let p = place(before, last.ip);
        lemma_sorted(s.drop_last());
        lemma_place(before, last.ip);
        let after = before.insert(p, last);
        before.insert_ensures(p, last);
        assert(ascending(after)) by {
            assert forall|i: int, j: int| 0 <= i < j < after.len() implies after[i].ip
                <= after[j].ip by {
                if i < p {
                    assert(after[i] == before[i]);
                } else if i > p {
                    assert(after[i] == before[i - 1]);
                }
                if j < p {
                    assert(after[j] == before[j]);
                } else if j > p {
                    assert(after[j] == before[j - 1]);
                }
            }
        }
        to_multiset_insert(before, p, last);
        to_multiset_build(s.drop_last(), last);
        assert(s.drop_last().push(last) == s);
    }
}

/// The test whether a record has the address `ip`.
pub open spec fn at(ip: u32) -> spec_fn(Record) -> bool {
    |r: Record| r.ip == ip
}

/// Sorting keeps the records of one address in the order in which they
/// came.
pub proof fn lemma_sorted_keeps_order(s: Seq<Record>, ip: u32)
    ensures
        sorted(s).filter(at(ip)) == s.filter(at(ip)),
    decreases s.len(),
{
    if s.len() > 0 {
        let rest = s.drop_last();
        let before = sorted(rest);
        let last = s.last();
        let p = place(before, last.ip);
        lemma_sorted_keeps_order(rest, ip);
        lemma_sorted(rest);
        lemma_place(before, last.ip);
        let head = before.subrange(0, p);
        let tail = before.subrange(p, before.len() as int);
        assert(before == head + tail);
        assert(before.insert(p, last) == head.push(last) + tail);
        assert(rest.push(last) == s);
        Seq::filter_distributes_over_add(head, tail, at(ip));
        Seq::filter_distributes_over_add(head.push(last), tail, at(ip));
        head.lemma_filter_push(last, at(ip));
        rest.lemma_filter_push(last, at(ip));
        if last.ip == ip {
            assert(tail.all(|r: Record| !at(ip)(r))) by {
                assert forall|i: int| 0 <= i < tail.len() implies !at(ip)(#[trigger] tail[i]) by {
                    assert(tail[i] == before[p + i]);
                }
            }
            tail.lemma_all_neg_filter_empty(at(ip));
            assert(tail.filter(at(ip)) == Seq::<Record>::empty());
            assert(head.filter(at(ip)) + Seq::<Record>::empty() == head.filter(at(ip)));
            assert(head.filter(at(ip)).push(last) + Seq::<Record>::empty() == head.filter(
                at(ip),
            ).push(last));
        }
    }
}

/// Records with distinct addresses stay distinct in every order.
pub proof fn lemma_distinct_in_every_order(a: Seq<Record>, b: Seq<Record>)
    requires
        a.to_multiset() == b.to_multiset(),
        distinct_addresses(a),
    ensures
        distinct_addresses(b),
{
    assert(a.no_duplicates());
    a.lemma_multiset_has_no_duplicates();
    b.lemma_multiset_has_no_duplicates_conv();
    assert forall|i: int, j: int| 0 <= i < j < b.len() implies b[i].ip != b[j].ip by {
        to_multiset_contains(a, b[i]);
        to_multiset_contains(a, b[j]);
        to_multiset_contains(b, b[i]);
        to_multiset_contains(b, b[j]);
        assert(b.contains(b[i]) && b.contains(b[j]));
        let k = choose|k: int| 0 <= k < a.len() && a[k] == b[i];
        let l = choose|l: int| 0 <= l < a.len() && a[l] == b[j];
        if b[i].ip == b[j].ip {
            assert(k == l);
            assert(b[i] == b[j]);
        }
    }
}

/// There is only one way to put records with distinct addresses in
/// ascending order.
pub proof fn lemma_one_ascending_order(x: Seq<Record>, y: Seq<Record>)
    requires
        strictly_ascending(x),
        strictly_ascending(y),
        x.to_multiset() == y.to_multiset(),
    ensures
        x == y,
    decreases x.len(),
{
    to_multiset_len(x);
    to_multiset_len(y);
    if x.len() == 0 {
        assert(x =~= y);
    } else {
        let xl = x.last();
        let yl = y.last();
        to_multiset_contains(x, xl);
        to_multiset_contains(y, xl);
        to_multiset_contains(x, yl);
        to_multiset_contains(y, yl);
        assert(x.contains(xl) && y.contains(yl));
        let k = choose|k: int| 0 <= k < y.len() && y[k] == xl;
        let l = choose|l: int| 0 <= l < x.len() && x[l] == yl;
        assert(l == x.len() - 1) by {
            if l < x.len() - 1 {
                assert(x[l].ip < xl.ip);
                if k < y.len() - 1 {
                    assert(y[k].ip < yl.ip);
                }
            }
        }
        assert(xl == yl);
        let xs = x.drop_last();
        let ys = y.drop_last();
        to_multiset_build(xs, xl);
        to_multiset_build(ys, yl);
        assert(xs.push(xl) == x);
        assert(ys.push(yl) == y);
        assert(xs.to_multiset() =~= ys.to_multiset()) by {
            assert forall|r: Record| xs.to_multiset().count(r) == ys.to_multiset().count(r) by {
                assert(xs.to_multiset().insert(xl).count(r) == ys.to_multiset().insert(xl).count(
                    r,
                ));
            }
        }
        lemma_one_ascending_order(xs, ys);
    }
}

/// The order in which the examinations end does not show in the result:
/// the same findings, one for a host at most, sort to the same sequence,
/// whose addresses rise from each record to the next.
pub proof fn lemma_order_independent(a: Seq<Record>, b: Seq<Record>)
    requires
        a.to_multiset() == b.to_multiset(),
        distinct_addresses(a),
    ensures
        sorted(a) == sorted(b),
        strictly_ascending(sorted(a)),
{
    lemma_sorted(a);
    lemma_sorted(b);
    lemma_distinct_in_every_order(a, sorted(a));
    lemma_distinct_in_every_order(a, sorted(b));
    lemma_one_ascending_order(sorted(a), sorted(b));
}

/// The place of a finding with address `ip` among the sorted findings
/// `infos`.
pub fn insertion_point(infos: &Vec<PrinterInfo>, ip: u32) -> (r: usize)
    ensures
        r == place(records(infos@), ip),
        r <= infos.len(),
{
    let mut i: usize = 0;
    proof {
        assert(records(infos@).skip(0) == records(infos@));
    }
    while i < infos.len() && infos[i].ip <= ip
        invariant
            i <= infos.len(),
            place(records(infos@), ip) == i + place(records(infos@).skip(i as int), ip),
        decreases infos.len() - i,
    {
        proof {
            let rest = records(infos@).skip(i as int);
            assert(rest.first() == infos@[i as int]@);
            assert(rest.drop_first() == records(infos@).skip(i + 1));
        }
        i += 1;
    }
    proof {
        let rest = records(infos@).skip(i as int);
        if i < infos.len() {
            assert(rest.first() == infos@[i as int]@);
        }
    }
    i
}

/// Gathers the findings of a scan: the outcomes of the examinations, in
/// whatever order they ended, become the findings sorted by address.
pub fn aggregate(outcomes: Vec<Option<PrinterInfo>>) -> (r: Vec<PrinterInfo>)
    ensures
        records(r@) == sorted(found(outcomes@)),
        ascending(records(r@)),
        records(r@).to_multiset() == found(outcomes@).to_multiset(),
{
    let ghost all = outcomes@;
    let mut out: Vec<PrinterInfo> = Vec::new();
    proof {
        assert(all.take(0) == Seq::<Option<PrinterInfo>>::empty());
        assert(records(out@) == Seq::<Record>::empty());
    }
    for outcome in it: outcomes
        invariant
            it.seq() == all,
            records(out@) == sorted(found(all.take(it.index() as int))),
    {
        let ghost k = it.index() as int;
        proof {
            assert(all.take(k + 1).drop_last() == all.take(k));
            assert(all.take(k + 1).last() == outcome);
        }
        match outcome {
            Some(info) => {
                let pos = insertion_point(&out, info.ip);
                proof {
                    let before = found(all.take(k));
                    assert(before.push(info@).drop_last() == before);
                    assert(records(out@.insert(pos as int, info)) == records(out@).insert(
                        pos as int,
                        info@,
                    ));
                }
                out.insert(pos, info);
            },
            None => {},
        }
    }
    proof {
        assert(all.take(all.len() as int) == all);
        lemma_sorted(found(all));
    }
    out
}

} // verus!
