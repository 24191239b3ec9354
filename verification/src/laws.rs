//! What holds of registrations taken one after another.
//!
//! A registry is written by one registration at a time, so any number of
//! requests against it take effect in some order. The functions here say what
//! a registry lists after a sequence of requests, each one accepted or
//! refused as `register_company` accepts or refuses it, and the lemmas state
//! what follows for every such sequence.

use crate::instructions::{accepts, can_register, index_after, Registration};
use crate::state::{
    company_bytes, registry_bytes, COMPANY_FIXED_BYTES, COMPANY_SPACE, MAX_COMPANIES,
    REGISTRY_SPACE,
};
use anchor_lang::prelude::Pubkey;
use vstd::prelude::*;
use vstd::utf8::encode_utf8;

verus! {

/// What the registry lists after the requests have been made in order.
pub open spec fn index_after_all(index: Seq<Pubkey>, requests: Seq<Registration>) -> Seq<Pubkey>
    decreases requests.len(),
{
    if requests.len() == 0 {
        index
    } else {
        index_after(index_after_all(index, requests.drop_last()), requests.last())
    }
}

/// What the registry lists when request number `i` is made: the list after
/// the requests before it.
pub open spec fn index_before(index: Seq<Pubkey>, requests: Seq<Registration>, i: int) -> Seq<
    Pubkey,
> {
    index_after_all(index, requests.take(i))
}

/// Whether request number `i` of the sequence is accepted.
pub open spec fn committed(index: Seq<Pubkey>, requests: Seq<Registration>, i: int) -> bool {
    accepts(index_before(index, requests, i), requests[i])
}

/// How many requests of the sequence are accepted.
pub open spec fn committed_count(index: Seq<Pubkey>, requests: Seq<Registration>) -> nat
    decreases requests.len(),
{
    if requests.len() == 0 {
        0
    } else {
        let earlier = committed_count(index, requests.drop_last());
        if committed(index, requests, requests.len() - 1) {
            earlier + 1
        } else {
            earlier
        }
    }
}

/// The locations that the requests name, in order.
pub open spec fn locations(requests: Seq<Registration>) -> Seq<Pubkey> {
    Seq::new(requests.len(), |i: int| requests[i].location)
}

/// `MAX_COMPANIES` is the capacity of a registry account: a list fits in it
/// exactly when it has no more entries than that.
pub proof fn lemma_registry_capacity(count: nat)
    ensures
        registry_bytes(count) <= REGISTRY_SPACE <==> count <= MAX_COMPANIES,
{
}

/// A request is accepted exactly when the registry lists fewer than
/// `MAX_COMPANIES` companies and the two texts together take no more bytes
/// than a company account has beside the fixed part of a record.
pub proof fn lemma_can_register_by_counts(index: Seq<Pubkey>, name: Seq<char>, symbol: Seq<char>)
    ensures
        can_register(index, name, symbol) <==> index.len() < MAX_COMPANIES && encode_utf8(
            name,
        ).len() + encode_utf8(symbol).len() <= COMPANY_SPACE - COMPANY_FIXED_BYTES,
{
}

/// The list after request number `i` is the list before it, taken through
/// that request.
proof fn lemma_index_before_step(index: Seq<Pubkey>, requests: Seq<Registration>, i: int)
    requires
        0 <= i < requests.len(),
    ensures
        index_before(index, requests, i + 1) == index_after(
            index_before(index, requests, i),
            requests[i],
        ),
{
    let upto = requests.take(i + 1);
    assert(upto.drop_last() =~= requests.take(i));
    assert(upto.last() == requests[i]);
}

/// A registry never shrinks and never reorders: whatever requests are made,
/// the list before them is the beginning of the list after them.
pub proof fn lemma_index_only_grows(index: Seq<Pubkey>, requests: Seq<Registration>)
    ensures
        index_after_all(index, requests).len() >= index.len(),
        index_after_all(index, requests).take(index.len() as int) == index,
    decreases requests.len(),
{
    if requests.len() == 0 {
        assert(index.take(index.len() as int) =~= index);
    } else {
        lemma_index_only_grows(index, requests.drop_last());
        let earlier = index_after_all(index, requests.drop_last());
        let after = index_after(earlier, requests.last());
        assert(after.take(index.len() as int) =~= earlier.take(index.len() as int));
    }
}

/// Requests that all fit are all accepted, and the registry then lists what
/// it listed before followed by their locations in the order of the calls.
pub proof fn lemma_registrations_in_call_order(index: Seq<Pubkey>, requests: Seq<Registration>)
    requires
        index.len() + requests.len() <= MAX_COMPANIES,
        forall|i: int|
            0 <= i < requests.len() ==> company_bytes(
                #[trigger] requests[i].name,
                requests[i].symbol,
            ) <= COMPANY_SPACE,
    ensures
        index_after_all(index, requests) == index + locations(requests),
        index.len() == 0 ==> index_after_all(index, requests) == locations(requests),
        committed_count(index, requests) == requests.len(),
    decreases requests.len(),
{
    assert(index.len() == 0 ==> index + locations(requests) =~= locations(requests));
    if requests.len() == 0 {
        assert(index + locations(requests) =~= index);
    } else {
        let earlier = requests.drop_last();
        let last = requests.last();
        assert forall|i: int| 0 <= i < earlier.len() implies company_bytes(
            #[trigger] earlier[i].name,
            earlier[i].symbol,
        ) <= COMPANY_SPACE by {
            assert(earlier[i] == requests[i]);
        }
        lemma_registrations_in_call_order(index, earlier);
        assert(requests.take(requests.len() - 1) =~= earlier);
        assert(company_bytes(requests[requests.len() - 1].name, last.symbol) <= COMPANY_SPACE);
        assert(accepts(index + locations(earlier), last));
        assert((index + locations(earlier)).push(last.location) =~= index + locations(requests));
    }
}

/// A full registry refuses every request and stays as it is, however many
/// requests are made.
pub proof fn lemma_full_registry_stays(index: Seq<Pubkey>, requests: Seq<Registration>)
    requires
        index.len() >= MAX_COMPANIES,
    ensures
        forall|name: Seq<char>, symbol: Seq<char>| !can_register(index, name, symbol),
        index_after_all(index, requests) == index,
        committed_count(index, requests) == 0,
    decreases requests.len(),
{
    if requests.len() > 0 {
        lemma_full_registry_stays(index, requests.drop_last());
        assert(requests.take(requests.len() - 1) =~= requests.drop_last());
    }
}

/// After any sequence of requests the registry has grown by exactly the
/// number of requests that were accepted.
pub proof fn lemma_length_counts_committed(index: Seq<Pubkey>, requests: Seq<Registration>)
    ensures
        index_after_all(index, requests).len() == index.len() + committed_count(index, requests),
    decreases requests.len(),
{
    if requests.len() > 0 {
        lemma_length_counts_committed(index, requests.drop_last());
        assert(requests.take(requests.len() - 1) =~= requests.drop_last());
    }
}

/// A registry that listed nothing lists nothing after a sequence of requests
/// exactly when none of them was accepted.
pub proof fn lemma_empty_iff_nothing_committed(requests: Seq<Registration>)
    ensures
        index_after_all(Seq::<Pubkey>::empty(), requests).len() == 0 <==> committed_count(
            Seq::<Pubkey>::empty(),
            requests,
        ) == 0,
{
    lemma_length_counts_committed(Seq::<Pubkey>::empty(), requests);
}

/// The list that a later request meets is at least as long as the list that
/// an earlier one met, and longer where the earlier one was accepted.
proof fn lemma_slots_ascend(index: Seq<Pubkey>, requests: Seq<Registration>, i: int, j: int)
    requires
        0 <= i < j <= requests.len(),
    ensures
        index_before(index, requests, i).len() <= index_before(index, requests, j).len(),
        committed(index, requests, i) ==> index_before(index, requests, i).len()
            < index_before(index, requests, j).len(),
    decreases j - i,
{
    lemma_index_before_step(index, requests, j - 1);
    if i < j - 1 {
        lemma_slots_ascend(index, requests, i, j - 1);
    }
}

/// No two accepted requests of a sequence are appended at the same position:
/// the earlier one met a shorter list than the later one.
pub proof fn lemma_committed_slots_differ(
    index: Seq<Pubkey>,
    requests: Seq<Registration>,
    i: int,
    j: int,
)
    requires
        0 <= i < j < requests.len(),
        committed(index, requests, i),
        committed(index, requests, j),
    ensures
        index_before(index, requests, i).len() < index_before(index, requests, j).len(),
        index_after_all(index, requests)[index_before(index, requests, i).len() as int]
            == requests[i].location,
        index_after_all(index, requests)[index_before(index, requests, j).len() as int]
            == requests[j].location,
{
    lemma_slots_ascend(index, requests, i, j);
    lemma_committed_entry_stays(index, requests, i);
    lemma_committed_entry_stays(index, requests, j);
}

/// An accepted request's location stands, after all the requests, at the
/// position at which it was appended.
pub proof fn lemma_committed_entry_stays(index: Seq<Pubkey>, requests: Seq<Registration>, i: int)
    requires
        0 <= i < requests.len(),
        committed(index, requests, i),
    ensures
        index_before(index, requests, i).len() < index_after_all(index, requests).len(),
        index_after_all(index, requests)[index_before(index, requests, i).len() as int]
            == requests[i].location,
{
    let met = index_before(index, requests, i);
    let appended = index_before(index, requests, i + 1);
    lemma_index_before_step(index, requests, i);
    assert(appended == met.push(requests[i].location));
    let rest = requests.skip(i + 1);
    lemma_index_after_all_split(index, requests, i + 1);
    lemma_index_only_grows(appended, rest);
    let all = index_after_all(index, requests);
    assert(all.take(appended.len() as int)[met.len() as int] == all[met.len() as int]);
}

/// Making the requests in order is making the first `k` of them and then the
/// others.
proof fn lemma_index_after_all_split(index: Seq<Pubkey>, requests: Seq<Registration>, k: int)
    requires
        0 <= k <= requests.len(),
    ensures
        index_after_all(index, requests) == index_after_all(
            index_before(index, requests, k),
            requests.skip(k),
        ),
    decreases requests.len() - k,
{
    if k == requests.len() {
        assert(requests.take(k) =~= requests);
        assert(requests.skip(k).len() == 0);
    } else {
        let shorter = requests.drop_last();
        lemma_index_after_all_split(index, shorter, k);
        assert(shorter.take(k) =~= requests.take(k));
        assert(shorter.skip(k) =~= requests.skip(k).drop_last());
        assert(requests.skip(k).last() == requests.last());
    }
}

} // verus!
