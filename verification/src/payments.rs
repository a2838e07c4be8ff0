//! Requests to be paid, kept for the addresses that are asked to pay.

use crate::clock::unix_seconds;
use crate::engine::{ConsensusEngine, EngineV};
use crate::sums::views;
use crate::text::same_text;
use crate::timevote::list_at;
use crate::types::{PaymentRequest, PaymentRequestV};
use vstd::prelude::*;

verus! {

/// How many open requests an address can have.
pub const MAX_REQUESTS: usize = 100;

/// The requests of a list that have not expired.
pub open spec fn live(requests: Seq<PaymentRequestV>, now: i64) -> Seq<PaymentRequestV>
    decreases requests.len(),
{
    if requests.len() == 0 {
        seq![]
    } else if requests.last().expires > now {
        live(requests.drop_last(), now).push(requests.last())
    } else {
        live(requests.drop_last(), now)
    }
}

/// Whether a list holds a request with an id.
pub open spec fn holds_id(requests: Seq<PaymentRequestV>, id: Seq<char>) -> bool {
    exists|i: int| 0 <= i < requests.len() && (#[trigger] requests[i]).id == id
}

/// No id stands twice in a list.
pub open spec fn ids_differ(requests: Seq<PaymentRequestV>) -> bool {
    forall|i: int, j: int|
        0 <= i < j < requests.len() ==> (#[trigger] requests[i]).id != (#[trigger] requests[j]).id
}

/// The live requests for some addresses, one after the other.
pub open spec fn live_for(
    held: Map<Seq<char>, Seq<PaymentRequestV>>,
    addresses: Seq<Seq<char>>,
    now: i64,
) -> Seq<PaymentRequestV>
    decreases addresses.len(),
{
    if addresses.len() == 0 {
        seq![]
    } else {
        live_for(held, addresses.drop_last(), now) + live(list_at(held, addresses.last()), now)
    }
}

impl EngineV {
    /// Whether a request is taken in: it is live and new, and its address has room.
    pub open spec fn takes_request(self, request: PaymentRequestV, now: i64) -> bool {
        let held = list_at(self.payment_requests, request.to_address);
        request.expires > now && !holds_id(held, request.id) && held.len() < MAX_REQUESTS
    }

    /// After a request came in.
    pub open spec fn with_request(self, request: PaymentRequestV, now: i64) -> EngineV {
        if self.takes_request(request, now) {
            EngineV {
                payment_requests: self.payment_requests.insert(
                    request.to_address,
                    list_at(self.payment_requests, request.to_address).push(request),
                ),
                ..self
            }
        } else {
            self
        }
    }

    /// After expired requests went, and addresses without requests with them.
    pub open spec fn without_expired(self, now: i64) -> EngineV {
        EngineV {
            payment_requests: Map::new(
                |address: Seq<char>|
                    self.payment_requests.contains_key(address) && live(
                        self.payment_requests[address],
                        now,
                    ).len() > 0,
                |address: Seq<char>| live(self.payment_requests[address], now),
            ),
            ..self
        }
    }

    /// Whether there is a request with an id.
    pub open spec fn has_request(self, id: Seq<char>) -> bool {
        exists|address: Seq<char>|
            self.payment_requests.contains_key(address) && #[trigger] holds_id(
                self.payment_requests[address],
                id,
            )
    }

    /// Whether a place holds the first request of its list with an id.
    pub open spec fn request_at(self, id: Seq<char>, address: Seq<char>, place: int) -> bool {
        &&& self.payment_requests.contains_key(address)
        &&& 0 <= place < self.payment_requests[address].len()
        &&& self.payment_requests[address][place].id == id
        &&& forall|i: int|
            0 <= i < place ==> (#[trigger] self.payment_requests[address][i]).id != id
    }
}

fn find_id(requests: &Vec<PaymentRequest>, id: &str) -> (place: Option<usize>)
    ensures
        match place {
            Some(p) => {
                &&& p < requests@.len()
                &&& views(requests@)[p as int].id == id@
                &&& forall|i: int| 0 <= i < p ==> (#[trigger] views(requests@)[i]).id != id@
            },
            None => !holds_id(views(requests@), id@),
        },
{
    let mut i: usize = 0;
    while i < requests.len()
        invariant
            i <= requests@.len(),
            forall|j: int| 0 <= j < i ==> (#[trigger] views(requests@)[j]).id != id@,
        decreases requests@.len() - i,
    {
        assert(views(requests@)[i as int] == requests@[i as int]@);
        if same_text(requests[i].id.as_str(), id) {
            return Some(i);
        }
        i = i + 1;
    }
    None
}

fn keep_live(requests: &Vec<PaymentRequest>, now: i64) -> (kept: Vec<PaymentRequest>)
    ensures
        views(kept@) == live(views(requests@), now),
{
    let ghost all = views(requests@);
    let mut kept: Vec<PaymentRequest> = Vec::new();
    let mut i: usize = 0;
    assert(views(kept@) =~= live(all.take(0), now));
    while i < requests.len()
        invariant
            i <= requests@.len(),
            all == views(requests@),
            views(kept@) == live(all.take(i as int), now),
        decreases requests@.len() - i,
    {
        proof {
            assert(all.take(i + 1).drop_last() =~= all.take(i as int));
            assert(all.take(i + 1).last() == requests@[i as int]@);
        }
        if requests[i].expires > now {
            let ghost held = views(kept@);
            let request = requests[i].clone();
            kept.push(request);
            assert(views(kept@) =~= held.push(request@));
        }
        i = i + 1;
    }
    assert(all.take(i as int) =~= all);
    kept
}

impl ConsensusEngine {
    /// Seconds since the Unix epoch.
    pub fn payment_clock() -> (now: i64) {
        let now: u64 = unix_seconds();
        #[verifier::truncate]
        (now as i64)
    }

    /// Takes in a request, at a time. Says whether it was taken.
    pub fn store_payment_request_at(&mut self, request: PaymentRequest, now: i64) -> (stored: bool)
        requires
            old(self).wf(),
        ensures
            final(self).wf(),
            stored == old(self)@.takes_request(request@, now),
            final(self)@ == old(self)@.with_request(request@, now),
    {
        let ghost before = self@;
        let ghost said = request@;
        if request.expires <= now {
            return false;
        }
        match self.payment_requests.get(&request.to_address) {
            Some(held) => {
                assert(before.payment_requests[said.to_address] == views(held@));
                if find_id(held, request.id.as_str()).is_some() {
                    assert(holds_id(views(held@), said.id));
                    return false;
                }
                if held.len() >= MAX_REQUESTS {
                    return false;
                }
            },
            None => {},
        }
        let address = request.to_address.clone();
        let mut list = match self.payment_requests.remove(&address) {
            Some(list) => list,
            None => Vec::new(),
        };
        let ghost earlier = views(list@);
        assert(earlier =~= list_at(before.payment_requests, said.to_address));
        list.push(request);
        assert(views(list@) =~= earlier.push(said));
        self.payment_requests.insert(address, list);
        assert(self@ =~= before.with_request(said, now));
        true
    }

    /// Takes in a request now. Says whether it was taken.
    pub fn store_payment_request(&mut self, request: PaymentRequest) -> (stored: bool)
        requires
            old(self).wf(),
        ensures
            final(self).wf(),
            exists|now: i64|
                stored == #[trigger] old(self)@.takes_request(request@, now) && final(self)@
                    == old(self)@.with_request(request@, now),
    {
        let now: i64 = Self::payment_clock();
        self.store_payment_request_at(request, now)
    }

    /// Drops the requests that have expired by a time.
    pub fn cleanup_expired_payment_requests_at(&mut self, now: i64)
        requires
            old(self).wf(),
        ensures
            final(self).wf(),
            final(self)@ == old(self)@.without_expired(now),
    {
        let ghost before = self@;
        let mut fresh: crate::table::Table<String, Vec<PaymentRequest>> = crate::table::Table::new();
        let ghost keys = self.payment_requests.keys();
        let n: usize = self.payment_requests.len();
        let mut i: usize = 0;
        proof {
            self.payment_requests.lemma_keys();
        }
        while i < n
            invariant
                self.wf(),
                self@ == before,
                fresh.wf(),
                keys == self.payment_requests.keys(),
                keys.no_duplicates(),
                n == keys.len(),
                i <= n,
                forall|a: Seq<char>| #[trigger]
                    fresh@.contains_key(a) <==> exists|j: int|
                        0 <= j < i && #[trigger] keys[j] == a && live(
                            before.payment_requests[a],
                            now,
                        ).len() > 0,
                forall|a: Seq<char>| #[trigger]
                    fresh@.contains_key(a) ==> views(fresh@[a]@) == live(
                        before.payment_requests[a],
                        now,
                    ),
            decreases n - i,
        {
            let kept = keep_live(self.payment_requests.value_at(i), now);
            let ghost at = i as int;
            let ghost held = fresh@;
            let ghost key = keys[at];
            assert(views(kept@) == live(before.payment_requests[key], now));
            assert(views(kept@).len() == kept@.len());
            if kept.len() > 0 {
                let address = self.payment_requests.key_at(i).clone();
                fresh.insert(address, kept);
                assert(fresh@ == held.insert(key, kept));
            }
            proof {
                assert forall|a: Seq<char>| #[trigger]
                    fresh@.contains_key(a) <==> exists|j: int|
                        0 <= j < at + 1 && #[trigger] keys[j] == a && live(
                            before.payment_requests[a],
                            now,
                        ).len() > 0 by {
                    if fresh@.contains_key(a) {
                        if a == key && live(before.payment_requests[key], now).len() > 0 {
                            assert(keys[at] == a);
                        } else {
                            assert(held.contains_key(a));
                        }
                    }
                    if exists|j: int|
                        0 <= j < at + 1 && #[trigger] keys[j] == a && live(
                            before.payment_requests[a],
                            now,
                        ).len() > 0 {
                        let j = choose|j: int|
                            0 <= j < at + 1 && #[trigger] keys[j] == a && live(
                                before.payment_requests[a],
                                now,
                            ).len() > 0;
                        if j < at {
                            assert(held.contains_key(a));
                        }
                    }
                }
                assert forall|a: Seq<char>| #[trigger] fresh@.contains_key(a) implies views(
                    fresh@[a]@,
                ) == live(before.payment_requests[a], now) by {
                    if a != key {
                        assert(held.contains_key(a));
                    } else if !(live(before.payment_requests[key], now).len() > 0) {
                        assert(held.contains_key(a));
                    }
                }
            }
            i = i + 1;
        }
        proof {
            self.payment_requests.lemma_keys();
            let expected = before.without_expired(now).payment_requests;
            assert forall|a: Seq<char>| fresh@.contains_key(a) <==> expected.contains_key(a) by {
                if expected.contains_key(a) {
                    assert(keys.contains(a));
                    let j = choose|j: int| 0 <= j < keys.len() && keys[j] == a;
                    assert(keys[j] == a);
                    assert(fresh@.contains_key(a));
                }
                if fresh@.contains_key(a) {
                    let j = choose|j: int|
                        0 <= j < n && #[trigger] keys[j] == a && live(
                            before.payment_requests[a],
                            now,
                        ).len() > 0;
                    assert(self.payment_requests@.contains_key(keys[j]));
                }
            }
            assert(crate::sums::lists(fresh@) =~= expected);
        }
        self.payment_requests = fresh;
        assert(self@ =~= before.without_expired(now));
    }

    /// Drops the requests that have expired.
    pub fn cleanup_expired_payment_requests(&mut self)
        requires
            old(self).wf(),
        ensures
            final(self).wf(),
            exists|now: i64| final(self)@ == #[trigger] old(self)@.without_expired(now),
    {
        let now: i64 = Self::payment_clock();
        self.cleanup_expired_payment_requests_at(now);
    }

    /// The requests for some addresses that are live at a time.
    pub fn get_payment_requests_for_at(&self, addresses: &Vec<String>, now: i64) -> (requests: Vec<
        PaymentRequest,
    >)
        requires
            self.wf(),
        ensures
            views(requests@) == live_for(self@.payment_requests, views(addresses@), now),
    {
        let ghost all = views(addresses@);
        let mut requests: Vec<PaymentRequest> = Vec::new();
        let mut i: usize = 0;
        assert(views(requests@) =~= live_for(self@.payment_requests, all.take(0), now));
        while i < addresses.len()
            invariant
                self.wf(),
                i <= addresses@.len(),
                all == views(addresses@),
                views(requests@) == live_for(self@.payment_requests, all.take(i as int), now),
            decreases addresses@.len() - i,
        {
            proof {
                assert(all.take(i + 1).drop_last() =~= all.take(i as int));
                assert(all.take(i + 1).last() == addresses@[i as int]@);
            }
            let ghost held = views(requests@);
            match self.payment_requests.get(&addresses[i]) {
                Some(list) => {
                    let mut kept = keep_live(list, now);
                    let ghost more = views(kept@);
                    requests.append(&mut kept);
                    assert(views(requests@) =~= held + more);
                },
                None => {
                    assert(live(list_at(self@.payment_requests, addresses@[i as int]@), now)
                        =~= seq![]);
                    assert(held =~= held + seq![]);
                },
            }
            i = i + 1;
        }
        assert(all.take(i as int) =~= all);
        requests
    }

    /// The live requests for some addresses.
    pub fn get_payment_requests_for(&self, addresses: &Vec<String>) -> (requests: Vec<
        PaymentRequest,
    >)
        requires
            self.wf(),
        ensures
            exists|now: i64|
                views(requests@) == #[trigger] live_for(
                    self@.payment_requests,
                    views(addresses@),
                    now,
                ),
    {
        let now: i64 = Self::payment_clock();
        self.get_payment_requests_for_at(addresses, now)
    }

    fn find_request(&self, request_id: &str) -> (place: Option<(usize, usize)>)
        requires
            self.wf(),
        ensures
            match place {
                Some((at, i)) => at < self.payment_requests.keys().len() && self@.request_at(
                    request_id@,
                    self.payment_requests.keys()[at as int],
                    i as int,
                ),
                None => !self@.has_request(request_id@),
            },
    {
        let ghost keys = self.payment_requests.keys();
        let n: usize = self.payment_requests.len();
        let mut at: usize = 0;
        proof {
            self.payment_requests.lemma_keys();
        }
        while at < n
            invariant
                self.wf(),
                keys == self.payment_requests.keys(),
                n == keys.len(),
                at <= n,
                forall|j: int|
                    0 <= j < at ==> !holds_id(
                        self@.payment_requests[#[trigger] keys[j]],
                        request_id@,
                    ),
            decreases n - at,
        {
            let list = self.payment_requests.value_at(at);
            assert(self@.payment_requests[keys[at as int]] == views(list@));
            match find_id(list, request_id) {
                Some(i) => {
                    return Some((at, i));
                },
                None => {},
            }
            at = at + 1;
        }
        proof {
            self.payment_requests.lemma_keys();
            assert forall|address: Seq<char>|
                self@.payment_requests.contains_key(address) implies !#[trigger] holds_id(
                self@.payment_requests[address],
                request_id@,
            ) by {
                assert(keys.contains(address));
                let j = choose|j: int| 0 <= j < keys.len() && keys[j] == address;
                assert(keys[j] == address);
            }
        }
        None
    }

    /// Who is asked to pay by a request. Where several addresses have a request
    /// with the id, one of them.
    pub fn get_payment_request_payer(&self, request_id: &str) -> (payer: Option<String>)
        requires
            self.wf(),
        ensures
            match payer {
                Some(name) => exists|address: Seq<char>, i: int|
                    #[trigger] self@.request_at(request_id@, address, i)
                        && self@.payment_requests[address][i].to_address == name@,
                None => !self@.has_request(request_id@),
            },
    {
        match self.find_request(request_id) {
            Some((at, i)) => {
                let list = self.payment_requests.value_at(at);
                let ghost address = self.payment_requests.keys()[at as int];
                assert(self@.payment_requests[address] == views(list@));
                assert(self@.request_at(request_id@, address, i as int));
                Some(list[i].to_address.clone())
            },
            None => None,
        }
    }

    /// Who asks to be paid by a request. Where several addresses have a request
    /// with the id, one of them.
    pub fn get_payment_request_requester(&self, request_id: &str) -> (requester: Option<String>)
        requires
            self.wf(),
        ensures
            match requester {
                Some(name) => exists|address: Seq<char>, i: int|
                    #[trigger] self@.request_at(request_id@, address, i)
                        && self@.payment_requests[address][i].from_address == name@,
                None => !self@.has_request(request_id@),
            },
    {
        match self.find_request(request_id) {
            Some((at, i)) => {
                let list = self.payment_requests.value_at(at);
                let ghost address = self.payment_requests.keys()[at as int];
                assert(self@.payment_requests[address] == views(list@));
                assert(self@.request_at(request_id@, address, i as int));
                Some(list[i].from_address.clone())
            },
            None => None,
        }
    }

    /// Takes a request out. Where several addresses have a request with the id,
    /// one of them loses it.
    pub fn remove_payment_request(&mut self, request_id: &str) -> (removed: bool)
        requires
            old(self).wf(),
        ensures
            final(self).wf(),
            removed == old(self)@.has_request(request_id@),
            !removed ==> final(self)@ == old(self)@,
            removed ==> exists|address: Seq<char>, i: int|
                #[trigger] old(self)@.request_at(request_id@, address, i) && final(self)@ == (EngineV {
                    payment_requests: old(self)@.payment_requests.insert(
                        address,
                        old(self)@.payment_requests[address].remove(i),
                    ),
                    ..old(self)@
                }),
    {
        let ghost before = self@;
        match self.find_request(request_id) {
            Some((at, i)) => {
                let ghost address = self.payment_requests.keys()[at as int];
                let key = self.payment_requests.key_at(at).clone();
                proof {
                    assert(before.request_at(request_id@, address, i as int));
                    assert(holds_id(before.payment_requests[address], request_id@)) by {
                        assert(before.payment_requests[address][i as int].id == request_id@);
                    }
                }
                match self.payment_requests.remove(&key) {
                    Some(mut list) => {
                        assert(before.payment_requests[address] == views(list@));
                        let ghost held = views(list@);
                        let _ = list.remove(i);
                        assert(views(list@) =~= held.remove(i as int));
                        self.payment_requests.insert(key, list);
                        assert(self@ =~= EngineV {
                            payment_requests: before.payment_requests.insert(
                                address,
                                before.payment_requests[address].remove(i as int),
                            ),
                            ..before
                        });
                    },
                    None => {
                        assert(false);
                    },
                }
                true
            },
            None => false,
        }
    }
}

/// A request is taken in once: a second one with the same id and payer is turned
/// down, at whatever time.
pub proof fn request_is_stored_once(
    held: EngineV,
    request: PaymentRequestV,
    again: PaymentRequestV,
    now: i64,
    later: i64,
)
    requires
        held.takes_request(request, now),
        again.id == request.id,
        again.to_address == request.to_address,
    ensures
        !held.with_request(request, now).takes_request(again, later),
{
    let list = list_at(held.with_request(request, now).payment_requests, request.to_address);
    assert(list[list.len() - 1].id == again.id);
}

/// No address gets more than a hundred open requests, and no id twice, by taking
/// requests in.
pub proof fn requests_stay_bounded(
    held: EngineV,
    request: PaymentRequestV,
    now: i64,
    address: Seq<char>,
)
    requires
        list_at(held.payment_requests, address).len() <= MAX_REQUESTS,
        ids_differ(list_at(held.payment_requests, address)),
    ensures
        list_at(held.with_request(request, now).payment_requests, address).len() <= MAX_REQUESTS,
        ids_differ(list_at(held.with_request(request, now).payment_requests, address)),
{
    let before = list_at(held.payment_requests, address);
    let after = list_at(held.with_request(request, now).payment_requests, address);
    if held.takes_request(request, now) && address == request.to_address {
        assert(after == before.push(request));
        assert forall|i: int, j: int| 0 <= i < j < after.len() implies (#[trigger] after[i]).id != (
        #[trigger] after[j]).id by {
            assert(after[i] == before[i]);
            if j < before.len() {
                assert(after[j] == before[j]);
            }
        }
    }
}

/// After a clean-up no expired request is left, and no live one is lost.
pub proof fn cleanup_keeps_the_live(held: EngineV, now: i64, address: Seq<char>)
    ensures
        list_at(held.without_expired(now).payment_requests, address) == live(
            list_at(held.payment_requests, address),
            now,
        ),
{
    assert(live(seq![], now) =~= seq![]);
    let kept = live(list_at(held.payment_requests, address), now);
    if kept.len() == 0 {
        assert(kept =~= seq![]);
    }
}

/// A request is taken in exactly when it has not expired, its payer has none with its id
/// and fewer than a hundred in all. It is then the payer's last; nobody else's are touched.
pub proof fn fresh_requests_are_taken_in(
    held: EngineV,
    request: PaymentRequestV,
    now: i64,
    other: Seq<char>,
)
    requires
        other != request.to_address,
    ensures
        ({
            let earlier = list_at(held.payment_requests, request.to_address);
            let after = held.with_request(request, now);
            let wanted = request.expires > now && earlier.len() < 100 && forall|i: int|
                0 <= i < earlier.len() ==> (#[trigger] earlier[i]).id != request.id;
            &&& held.takes_request(request, now) <==> wanted
            &&& wanted ==> list_at(after.payment_requests, request.to_address) == earlier.push(
                request,
            )
            &&& !wanted ==> after == held
            &&& list_at(after.payment_requests, other) == list_at(held.payment_requests, other)
        }),
{
}

/// A request is live until it expires, and live ones keep their order.
pub proof fn requests_live_until_they_expire(
    requests: Seq<PaymentRequestV>,
    request: PaymentRequestV,
    now: i64,
)
    ensures
        live(seq![], now).len() == 0,
        request.expires > now ==> live(requests.push(request), now) == live(requests, now).push(
            request,
        ),
        request.expires <= now ==> live(requests.push(request), now) == live(requests, now),
{
    assert(requests.push(request).drop_last() =~= requests);
}

/// The requests for some addresses are the live ones of each, one address after the other.
pub proof fn requests_are_listed_by_address(
    held: Map<Seq<char>, Seq<PaymentRequestV>>,
    addresses: Seq<Seq<char>>,
    address: Seq<char>,
    now: i64,
)
    ensures
        live_for(held, seq![], now).len() == 0,
        live_for(held, addresses.push(address), now) == live_for(held, addresses, now) + live(
            list_at(held, address),
            now,
        ),
{
    assert(addresses.push(address).drop_last() =~= addresses);
}

/// There is a request with an id exactly when one stands in the list of some address, and
/// the first of its list is found.
pub proof fn requests_are_found_by_id(held: EngineV, id: Seq<char>, address: Seq<char>, i: int)
    ensures
        held.request_at(id, address, i) ==> held.has_request(id),
        held.payment_requests.contains_key(address) && 0 <= i
            < held.payment_requests[address].len() && held.payment_requests[address][i].id == id
            ==> held.has_request(id),
        held.request_at(id, address, i) ==> held.payment_requests[address][i].id == id,
{
    if held.payment_requests.contains_key(address) && 0 <= i < held.payment_requests[address].len()
        && held.payment_requests[address][i].id == id {
        assert(holds_id(held.payment_requests[address], id));
    }
}

} // verus!
