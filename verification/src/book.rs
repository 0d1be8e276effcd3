//! The redemption book: who waits to redeem how much, in the order of arrival.

use crate::types::{AccountId, RedeemRequest};
use vstd::prelude::*;

verus! {

/// The place of the first request of `who` in `book`, or the length of `book`
/// where there is none.
pub open spec fn index_of(book: Seq<RedeemRequest>, who: AccountId) -> int
    decreases book.len(),
{
    if book.len() == 0 {
        0
    } else if book.first().who == who {
        0
    } else {
        1 + index_of(book.drop_first(), who)
    }
}

/// The request of `who`, if the book holds one.
pub open spec fn request_of(book: Seq<RedeemRequest>, who: AccountId) -> Option<RedeemRequest> {
    let i = index_of(book, who);
    if i < book.len() {
        Some(book[i])
    } else {
        None
    }
}

/// The book without the request of `who`.
pub open spec fn without(book: Seq<RedeemRequest>, who: AccountId) -> Seq<RedeemRequest> {
    let i = index_of(book, who);
    if i < book.len() {
        book.remove(i)
    } else {
        book
    }
}

/// The book after `req` was written to it: a request of amount zero leaves
/// the book, another takes the place of the account's earlier request or, where
/// there was none, the last place.
pub open spec fn recorded(book: Seq<RedeemRequest>, req: RedeemRequest) -> Seq<RedeemRequest> {
    let i = index_of(book, req.who);
    if req.amount == 0 {
        without(book, req.who)
    } else if i < book.len() {
        book.update(i, req)
    } else {
        book.push(req)
    }
}

/// The book after each of `updates` was written to it, in order.
pub open spec fn applied(book: Seq<RedeemRequest>, updates: Seq<RedeemRequest>) -> Seq<RedeemRequest>
    decreases updates.len(),
{
    if updates.len() == 0 {
        book
    } else {
        applied(recorded(book, updates.first()), updates.drop_first())
    }
}

/// No account has two requests, and no request is empty.
pub open spec fn well_formed(book: Seq<RedeemRequest>) -> bool {
    &&& forall|i: int, j: int|
        0 <= i < book.len() && 0 <= j < book.len() && i != j ==> book[i].who != book[j].who
    &&& forall|i: int| 0 <= i < book.len() ==> book[i].amount > 0
}

/// `index_of` is the first place that holds the account.
pub proof fn lemma_index_of(book: Seq<RedeemRequest>, who: AccountId)
    ensures
        0 <= index_of(book, who) <= book.len(),
        index_of(book, who) < book.len() ==> book[index_of(book, who)].who == who,
        forall|j: int| 0 <= j < index_of(book, who) ==> book[j].who != who,
    decreases book.len(),
{
    if book.len() > 0 && book.first().who != who {
        let rest = book.drop_first();
        lemma_index_of(rest, who);
        assert forall|j: int| 0 <= j < index_of(book, who) implies book[j].who != who by {
            if j > 0 {
                assert(rest[j - 1] == book[j]);
            }
        }
    }
}

/// A place that holds the account, with none before it that does, is `index_of`.
pub proof fn lemma_index_of_is(book: Seq<RedeemRequest>, who: AccountId, i: int)
    requires
        0 <= i <= book.len(),
        i < book.len() ==> book[i].who == who,
        forall|j: int| 0 <= j < i ==> book[j].who != who,
    ensures
        index_of(book, who) == i,
{
    lemma_index_of(book, who);
}

/// Writing a request keeps the book well formed.
pub proof fn lemma_recorded_well_formed(book: Seq<RedeemRequest>, req: RedeemRequest)
    requires
        well_formed(book),
    ensures
        well_formed(recorded(book, req)),
{
    lemma_index_of(book, req.who);
    let i = index_of(book, req.who);
    let next = recorded(book, req);
    if req.amount == 0 {
        if i < book.len() {
            assert forall|a: int, b: int|
                0 <= a < next.len() && 0 <= b < next.len() && a != b implies next[a].who
                != next[b].who by {}
            assert forall|a: int| 0 <= a < next.len() implies next[a].amount > 0 by {}
        }
    } else if i < book.len() {
        assert forall|a: int, b: int|
            0 <= a < next.len() && 0 <= b < next.len() && a != b implies next[a].who
            != next[b].who by {}
    } else {
        assert forall|a: int, b: int|
            0 <= a < next.len() && 0 <= b < next.len() && a != b implies next[a].who
            != next[b].who by {}
    }
}

/// Writing a run of requests keeps the book well formed.
pub proof fn lemma_applied_well_formed(book: Seq<RedeemRequest>, updates: Seq<RedeemRequest>)
    requires
        well_formed(book),
    ensures
        well_formed(applied(book, updates)),
    decreases updates.len(),
{
    if updates.len() > 0 {
        lemma_recorded_well_formed(book, updates.first());
        lemma_applied_well_formed(recorded(book, updates.first()), updates.drop_first());
    }
}

/// After a request was written to a well-formed book, the account it names
/// has that request, or none where its amount is zero, and every other account
/// has the request it had.
pub proof fn lemma_request_of_recorded(book: Seq<RedeemRequest>, req: RedeemRequest, who: AccountId)
    requires
        well_formed(book),
    ensures
        request_of(recorded(book, req), who) == if who == req.who {
            if req.amount == 0 {
                None
            } else {
                Some(req)
            }
        } else {
            request_of(book, who)
        },
{
    let next = recorded(book, req);
    let i = index_of(book, req.who);
    lemma_index_of(book, req.who);
    lemma_index_of(book, who);
    lemma_index_of(next, who);
    let j = index_of(book, who);
    if req.amount == 0 {
        if i < book.len() && who != req.who && j < book.len() {
            // The request of another account moves up by one where it stood behind.
            let j1 = if j < i { j } else { j - 1 };
            assert(next[j1] == book[j]);
            assert forall|x: int| 0 <= x < j1 implies next[x].who != who by {}
        }
    } else if i < book.len() {
        if who == req.who {
            assert forall|x: int| 0 <= x < i implies next[x].who != who by {}
            lemma_index_of_is(next, who, i);
        } else {
            assert forall|x: int| 0 <= x < next.len() implies (next[x].who == who) == (book[x].who
                == who) by {}
        }
    } else {
        if who == req.who {
            assert forall|x: int| 0 <= x < book.len() implies next[x].who != who by {}
            lemma_index_of_is(next, who, book.len() as int);
        } else if j < book.len() {
            assert forall|x: int| 0 <= x < j implies next[x].who != who by {}
            assert(next[j] == book[j]);
        }
    }
}

/// Writing a run of requests and one more is writing the run, then the one.
pub proof fn lemma_applied_push(book: Seq<RedeemRequest>, updates: Seq<RedeemRequest>, req: RedeemRequest)
    ensures
        applied(book, updates.push(req)) == recorded(applied(book, updates), req),
    decreases updates.len(),
{
    let more = updates.push(req);
    if updates.len() == 0 {
        assert(applied(recorded(book, req), more.drop_first()) == recorded(book, req));
    } else {
        assert(more.drop_first() =~= updates.drop_first().push(req));
        lemma_applied_push(recorded(book, updates.first()), updates.drop_first(), req);
    }
}

/// In a well-formed book, each request is the request of its account.
pub proof fn lemma_request_of_entry(book: Seq<RedeemRequest>, i: int)
    requires
        well_formed(book),
        0 <= i < book.len(),
    ensures
        request_of(book, book[i].who) == Some(book[i]),
{
    lemma_index_of(book, book[i].who);
}

/// The requests to redeem that wait to be matched, at most one for an account,
/// in the order in which the accounts first asked.
#[derive(Debug)]
pub struct RedemptionBook {
    entries: Vec<RedeemRequest>,
}

impl View for RedemptionBook {
    type V = Seq<RedeemRequest>;

    closed spec fn view(&self) -> Seq<RedeemRequest> {
        self.entries@
    }
}

impl RedemptionBook {
    #[verifier::type_invariant]
    spec fn sound(self) -> bool {
        well_formed(self.entries@)
    }

    /// The empty book.
    pub fn new() -> (r: RedemptionBook)
        ensures
            r@ == Seq::<RedeemRequest>::empty(),
    {
        RedemptionBook { entries: Vec::new() }
    }

    /// The book that holds `requests` in their order, where no account has
    /// two of them and none of them is empty.
    pub fn from_requests(requests: Vec<RedeemRequest>) -> (r: Option<RedemptionBook>)
        ensures
            well_formed(requests@) <==> r is Some,
            r matches Some(book) ==> book@ == requests@,
    {
        let n = requests.len();
        let mut i: usize = 0;
        while i < n
            invariant
                n == requests@.len(),
                i <= n,
                forall|a: int| 0 <= a < i ==> requests@[a].amount > 0,
                forall|a: int, b: int| 0 <= a < b < i ==> requests@[a].who != requests@[b].who,
            decreases n - i,
        {
            if requests[i].amount == 0 {
                return None;
            }
            let mut j: usize = 0;
            while j < i
                invariant
                    i < n,
                    n == requests@.len(),
                    j <= i,
                    forall|a: int| 0 <= a < j ==> requests@[a].who != requests@[i as int].who,
                decreases i - j,
            {
                if requests[j].who == requests[i].who {
                    return None;
                }
                j = j + 1;
            }
            i = i + 1;
        }
        Some(RedemptionBook { entries: requests })
    }

    /// The requests of the book, in their order.
    pub fn requests(&self) -> (r: Vec<RedeemRequest>)
        ensures
            r@ == self@,
            well_formed(self@),
    {
        proof {
            use_type_invariant(self);
        }
        self.duplicate().entries
    }

    /// The number of requests.
    pub fn len(&self) -> (r: usize)
        ensures
            r == self@.len(),
            well_formed(self@),
    {
        proof {
            use_type_invariant(self);
        }
        self.entries.len()
    }

    /// The request at place `i`.
    pub fn entry(&self, i: usize) -> (r: RedeemRequest)
        requires
            i < self@.len(),
        ensures
            r == self@[i as int],
    {
        self.entries[i]
    }

    /// The place of the request of `who`, or the number of requests where
    /// there is none.
    fn find(&self, who: &AccountId) -> (i: usize)
        ensures
            i == index_of(self@, *who),
    {
        let n = self.entries.len();
        let mut i: usize = 0;
        while i < n
            invariant
                n == self.entries@.len(),
                i <= n,
                forall|j: int| 0 <= j < i ==> self.entries@[j].who != *who,
            decreases n - i,
        {
            if self.entries[i].who == *who {
                proof {
                    lemma_index_of_is(self@, *who, i as int);
                }
                return i;
            }
            i = i + 1;
        }
        proof {
            lemma_index_of_is(self@, *who, i as int);
        }
        i
    }

    /// The request of `who`, if there is one.
    pub fn get(&self, who: &AccountId) -> (r: Option<RedeemRequest>)
        ensures
            r == request_of(self@, *who),
    {
        let i = self.find(who);
        if i < self.entries.len() {
            Some(self.entries[i])
        } else {
            None
        }
    }

    /// The book after `req` was written to it: a request of amount zero
    /// leaves the book, another takes the place of the account's earlier
    /// request or the last place.
    pub fn record(self, req: RedeemRequest) -> (r: RedemptionBook)
        ensures
            r@ == recorded(self@, req),
    {
        proof {
            use_type_invariant(&self);
            lemma_recorded_well_formed(self@, req);
        }
        let i = self.find(&req.who);
        let mut entries = self.entries;
        if req.amount == 0 {
            if i < entries.len() {
                entries.remove(i);
            }
        } else if i < entries.len() {
            entries.set(i, req);
        } else {
            entries.push(req);
        }
        RedemptionBook { entries }
    }

    /// The book after each of `updates` was written to it, in order.
    pub fn apply(self, updates: &Vec<RedeemRequest>) -> (r: RedemptionBook)
        ensures
            r@ == applied(self@, updates@),
    {
        let ghost start = self@;
        let mut book = self;
        let n = updates.len();
        let mut k: usize = 0;
        proof {
            assert(updates@.skip(0) =~= updates@);
        }
        while k < n
            invariant
                n == updates@.len(),
                k <= n,
                applied(start, updates@) == applied(book@, updates@.skip(k as int)),
            decreases n - k,
        {
            proof {
                let rest = updates@.skip(k as int);
                assert(rest.drop_first() =~= updates@.skip(k + 1));
            }
            book = book.record(updates[k]);
            k = k + 1;
        }
        book
    }

    /// A copy of the book.
    pub fn duplicate(&self) -> (r: RedemptionBook)
        ensures
            r@ == self@,
    {
        proof {
            use_type_invariant(self);
        }
        let n = self.entries.len();
        let mut entries: Vec<RedeemRequest> = Vec::new();
        let mut k: usize = 0;
        while k < n
            invariant
                n == self.entries@.len(),
                k <= n,
                entries@ == self.entries@.take(k as int),
            decreases n - k,
        {
            entries.push(self.entries[k]);
            k = k + 1;
        }
        RedemptionBook { entries }
    }
}

} // verus!
