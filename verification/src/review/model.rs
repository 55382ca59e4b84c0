use vstd::prelude::*;
use crate::listing::{ids_where, lemma_ids_where_push};
use crate::registry::model::saturating_succ;
use crate::review::storage::StorageView;
use crate::review::types::{Error, ReviewSummaryView, ReviewView};

verus! {

/// The content of a notification about reviews.
pub ghost enum EventView {
    Reviewed { review_id: u32, contract_id: u32, rating: u32 },
    Upvoted { review_id: u32, voter: Seq<char> },
}

/// The reviews as a mathematical value: the reviews in the order of
/// submission, who has voted for which review, and the notifications not yet
/// collected.
#[verifier::ext_equal]
pub ghost struct ReviewState {
    pub reviews: Seq<ReviewView>,
    pub voted: Set<(u32, Seq<char>)>,
    pub events: Seq<EventView>,
}

/// The filter for the reviews of one contract.
pub open spec fn for_contract(contract_id: u32) -> spec_fn(ReviewView) -> bool {
    |r: ReviewView| r.contract_id == contract_id
}

/// The filter for the reviews by one principal.
pub open spec fn by_principal(p: Seq<char>) -> spec_fn(ReviewView) -> bool {
    |r: ReviewView| r.reviewer == p
}

/// The sum of the ratings.
pub open spec fn rating_sum(s: Seq<ReviewView>) -> nat
    decreases s.len(),
{
    if s.len() == 0 {
        0
    } else {
        rating_sum(s.drop_last()) + s.last().rating as nat
    }
}

/// How many of the reviews give the rating `rating`.
pub open spec fn count_rated(s: Seq<ReviewView>, rating: u32) -> nat
    decreases s.len(),
{
    if s.len() == 0 {
        0
    } else {
        count_rated(s.drop_last(), rating) + if s.last().rating == rating {
            1nat
        } else {
            0nat
        }
    }
}

/// The summary of the reviews `s` of the contract `contract_id`: their
/// number; a hundred times the mean of their ratings, rounded down, or 0 if
/// there are none; and the numbers of ratings 1, 2, 3, 4 and 5.
pub open spec fn summary_of(s: Seq<ReviewView>, contract_id: u32) -> ReviewSummaryView {
    ReviewSummaryView {
        contract_id,
        total_reviews: s.len() as u32,
        average_rating: if s.len() == 0 {
            0
        } else {
            (rating_sum(s) * 100 / s.len()) as u32
        },
        rating_distribution: seq![
            count_rated(s, 1) as u32,
            count_rated(s, 2) as u32,
            count_rated(s, 3) as u32,
            count_rated(s, 4) as u32,
            count_rated(s, 5) as u32,
        ],
    }
}

/// Whether one of the reviews is a rating of the contract `contract_id` by
/// the principal `p`.
pub open spec fn rated(reviews: Seq<ReviewView>, contract_id: u32, p: Seq<char>) -> bool {
    exists|i: int|
        0 <= i < reviews.len() && (#[trigger] reviews[i]).contract_id == contract_id
            && reviews[i].reviewer == p
}

/// Whether reviews and votes are as [`ReviewState::valid`] asks.
pub open spec fn valid_reviews(reviews: Seq<ReviewView>, voted: Set<(u32, Seq<char>)>) -> bool {
    &&& reviews.len() <= u32::MAX
    &&& forall|i: int|
        0 <= i < reviews.len() ==> {
            let r = #[trigger] reviews[i];
            &&& r.review_id == i + 1
            &&& 1 <= r.rating <= 5
            &&& 1 <= r.comment.len() <= 500
        }
    &&& forall|i: int, j: int|
        0 <= i < j < reviews.len() ==> !((#[trigger] reviews[i]).contract_id == (
        #[trigger] reviews[j]).contract_id && reviews[i].reviewer == reviews[j].reviewer)
    &&& forall|k: (u32, Seq<char>)| #[trigger] voted.contains(k) ==> 1 <= k.0 <= reviews.len()
}

impl ReviewState {
    /// The state before anything was submitted.
    pub open spec fn empty() -> ReviewState {
        ReviewState { reviews: Seq::empty(), voted: Set::empty(), events: Seq::empty() }
    }

    /// Whether a review has the identity `id`.
    pub open spec fn has(self, id: u32) -> bool {
        1 <= id <= self.reviews.len()
    }

    /// The review with the identity `id`.
    pub open spec fn review(self, id: u32) -> ReviewView {
        self.reviews[id - 1]
    }

    /// Whether the principal `p` has rated the contract `contract_id`.
    pub open spec fn has_reviewed(self, contract_id: u32, p: Seq<char>) -> bool {
        rated(self.reviews, contract_id, p)
    }

    /// Identities are 1, 2, 3, ... in the order of submission; each rating is
    /// one of 1 to 5 and each comment has 1 to 500 characters; no principal
    /// has rated a contract twice; votes are for reviews that exist.
    pub open spec fn valid(self) -> bool {
        valid_reviews(self.reviews, self.voted)
    }

    /// What `submit_review` returns.
    pub open spec fn submit_outcome(
        self,
        contract_id: u32,
        p: Seq<char>,
        rating: u32,
        comment: Seq<char>,
    ) -> Result<u32, Error> {
        if !(1 <= rating <= 5) {
            Err(Error::InvalidRating)
        } else if comment.len() == 0 {
            Err(Error::EmptyComment)
        } else if comment.len() > 500 {
            Err(Error::CommentTooLong)
        } else if self.has_reviewed(contract_id, p) {
            Err(Error::AlreadyReviewed)
        } else {
            Ok((self.reviews.len() + 1) as u32)
        }
    }

    /// The state after `submit_review`.
    pub open spec fn after_submit(
        self,
        contract_id: u32,
        p: Seq<char>,
        rating: u32,
        comment: Seq<char>,
        now: u64,
    ) -> ReviewState {
        if self.submit_outcome(contract_id, p, rating, comment) is Ok {
            let review_id = (self.reviews.len() + 1) as u32;
            ReviewState {
                reviews: self.reviews.push(
                    ReviewView {
                        review_id,
                        contract_id,
                        reviewer: p,
                        rating,
                        comment,
                        created_at: now,
                        upvotes: 0,
                    },
                ),
                events: self.events.push(EventView::Reviewed { review_id, contract_id, rating }),
                ..self
            }
        } else {
            self
        }
    }

    /// What `upvote_review` returns.
    pub open spec fn upvote_outcome(self, review_id: u32, voter: Seq<char>) -> Result<(), Error> {
        if self.voted.contains((review_id, voter)) {
            Err(Error::AlreadyVoted)
        } else if !self.has(review_id) {
            Err(Error::ReviewNotFound)
        } else {
            Ok(())
        }
    }

    /// The state after `upvote_review`.
    pub open spec fn after_upvote(self, review_id: u32, voter: Seq<char>) -> ReviewState {
        if self.upvote_outcome(review_id, voter) is Ok {
            ReviewState {
                reviews: self.reviews.update(
                    review_id - 1,
                    ReviewView {
                        upvotes: saturating_succ(self.review(review_id).upvotes),
                        ..self.review(review_id)
                    },
                ),
                voted: self.voted.insert((review_id, voter)),
                events: self.events.push(EventView::Upvoted { review_id, voter }),
            }
        } else {
            self
        }
    }
}

/// The contract of each review, in the order of submission.
pub open spec fn contract_keys(reviews: Seq<ReviewView>) -> Seq<u32> {
    Seq::new(reviews.len(), |i: int| reviews[i].contract_id)
}

/// The principal behind each review, in the order of submission.
pub open spec fn principal_keys(reviews: Seq<ReviewView>) -> Seq<Seq<char>> {
    Seq::new(reviews.len(), |i: int| reviews[i].reviewer)
}

/// The reviews that a store holds, in the order of their identities.
pub open spec fn reviews_of(v: StorageView) -> Seq<ReviewView> {
    Seq::new(v.counter as nat, |i: int| v.records[(i + 1) as u32])
}

/// The state that a store stands for.
pub open spec fn state_of(v: StorageView, events: Seq<EventView>) -> ReviewState {
    ReviewState { reviews: reviews_of(v), voted: v.upvoted, events }
}

/// The store holds one review for each identity issued, under that identity;
/// a principal is marked as having rated a contract exactly if a review says
/// so; and each list names exactly the reviews that belong in it, oldest
/// first.
pub open spec fn consistent(v: StorageView) -> bool {
    &&& forall|id: u32| v.records.contains_key(id) <==> 1 <= id <= v.counter
    &&& forall|k: (u32, Seq<char>)| #[trigger]
        v.reviewed.contains(k) <==> rated(reviews_of(v), k.0, k.1)
    &&& forall|c: u32| #[trigger] v.by_contract[c] == ids_where(contract_keys(reviews_of(v)), c)
    &&& forall|p: Seq<char>| #[trigger]
        v.by_user[p] == ids_where(principal_keys(reviews_of(v)), p)
}

/// The store after a new review was filed: the counter advanced to the
/// identity of the review, the review stored under it, the identity added to
/// the list of its contract and to that of its principal, and the principal
/// marked as having rated the contract.
pub open spec fn filed(v: StorageView, r: ReviewView) -> StorageView {
    StorageView {
        counter: r.review_id,
        records: v.records.insert(r.review_id, r),
        reviewed: v.reviewed.insert((r.contract_id, r.reviewer)),
        by_contract: v.by_contract.insert(
            r.contract_id,
            v.by_contract[r.contract_id].push(r.review_id),
        ),
        by_user: v.by_user.insert(r.reviewer, v.by_user[r.reviewer].push(r.review_id)),
        ..v
    }
}

/// Filing a valid review with the next identity, of a contract that its
/// principal has not rated yet, keeps the store consistent and the reviews
/// valid, and adds the review after all others.
pub proof fn lemma_filed_consistent(v: StorageView, r: ReviewView)
    requires
        consistent(v),
        valid_reviews(reviews_of(v), v.upvoted),
        v.counter < u32::MAX,
        r.review_id == v.counter + 1,
        1 <= r.rating <= 5,
        1 <= r.comment.len() <= 500,
        !rated(reviews_of(v), r.contract_id, r.reviewer),
    ensures
        consistent(filed(v, r)),
        valid_reviews(reviews_of(filed(v, r)), filed(v, r).upvoted),
        reviews_of(filed(v, r)) == reviews_of(v).push(r),
{
    let after = filed(v, r);
    let r0 = reviews_of(v);
    let r1 = reviews_of(after);
    assert(r1 =~= r0.push(r));
    assert(contract_keys(r1) =~= contract_keys(r0).push(r.contract_id));
    assert(principal_keys(r1) =~= principal_keys(r0).push(r.reviewer));
    assert forall|c: u32| #[trigger] after.by_contract[c] == ids_where(contract_keys(r1), c) by {
        lemma_ids_where_push(contract_keys(r0), r.contract_id, c);
        assert(v.by_contract[c] == ids_where(contract_keys(r0), c));
    }
    assert forall|q: Seq<char>| #[trigger] after.by_user[q] == ids_where(principal_keys(r1), q) by {
        lemma_ids_where_push(principal_keys(r0), r.reviewer, q);
        assert(v.by_user[q] == ids_where(principal_keys(r0), q));
    }
    assert forall|k: (u32, Seq<char>)| #[trigger]
        after.reviewed.contains(k) <==> rated(r1, k.0, k.1) by {
        assert(v.reviewed.contains(k) <==> rated(r0, k.0, k.1));
        if rated(r0, k.0, k.1) {
            let i = choose|i: int|
                0 <= i < r0.len() && (#[trigger] r0[i]).contract_id == k.0 && r0[i].reviewer
                    == k.1;
            assert(r1[i] == r0[i]);
        }
        if k == (r.contract_id, r.reviewer) {
            assert(r1[r.review_id - 1] == r);
        }
        if rated(r1, k.0, k.1) {
            let i = choose|i: int|
                0 <= i < r1.len() && (#[trigger] r1[i]).contract_id == k.0 && r1[i].reviewer
                    == k.1;
            if i < r0.len() {
                assert(r1[i] == r0[i]);
            }
        }
    }
    assert forall|i: int, j: int| 0 <= i < j < r1.len() implies !((#[trigger] r1[i]).contract_id
        == (#[trigger] r1[j]).contract_id && r1[i].reviewer == r1[j].reviewer) by {
        assert(r1[i] == r0[i]);
        if j < r0.len() {
            assert(r1[j] == r0[j]);
        }
    }
    assert forall|i: int| 0 <= i < r1.len() implies {
        let x = #[trigger] r1[i];
        &&& x.review_id == i + 1
        &&& 1 <= x.rating <= 5
        &&& 1 <= x.comment.len() <= 500
    } by {
        if i < r0.len() {
            assert(r1[i] == r0[i]);
        }
    }
    assert forall|k: (u32, Seq<char>)| #[trigger] after.upvoted.contains(k) implies 1 <= k.0
        <= r1.len() by {
        assert(v.upvoted.contains(k));
    }
}

/// The store after a vote was counted: the review stored anew and the voter
/// marked as having voted for it.
pub open spec fn voted(v: StorageView, r: ReviewView, voter: Seq<char>) -> StorageView {
    StorageView {
        records: v.records.insert(r.review_id, r),
        upvoted: v.upvoted.insert((r.review_id, voter)),
        ..v
    }
}

/// Storing a review anew with nothing changed but its count of votes, and
/// marking a voter for it, keeps the store consistent and the reviews valid,
/// and changes that review alone.
pub proof fn lemma_voted_consistent(v: StorageView, r: ReviewView, voter: Seq<char>)
    requires
        consistent(v),
        valid_reviews(reviews_of(v), v.upvoted),
        1 <= r.review_id <= v.counter,
        r == (ReviewView { upvotes: r.upvotes, ..v.records[r.review_id] }),
    ensures
        consistent(voted(v, r, voter)),
        valid_reviews(reviews_of(voted(v, r, voter)), voted(v, r, voter).upvoted),
        reviews_of(voted(v, r, voter)) == reviews_of(v).update(r.review_id - 1, r),
{
    let after = voted(v, r, voter);
    let r0 = reviews_of(v);
    let r1 = reviews_of(after);
    assert(r0[r.review_id - 1] == v.records[r.review_id]);
    assert(r0[r.review_id - 1].review_id == r.review_id);
    assert(r1 =~= r0.update(r.review_id - 1, r));
    assert(contract_keys(r1) =~= contract_keys(r0));
    assert(principal_keys(r1) =~= principal_keys(r0));
    assert forall|id: u32| after.records.contains_key(id) <==> 1 <= id <= after.counter by {
        assert(v.records.contains_key(id) <==> 1 <= id <= v.counter);
    }
    assert forall|c: u32| #[trigger] after.by_contract[c] == ids_where(contract_keys(r1), c) by {
        assert(v.by_contract[c] == ids_where(contract_keys(r0), c));
    }
    assert forall|q: Seq<char>| #[trigger] after.by_user[q] == ids_where(principal_keys(r1), q) by {
        assert(v.by_user[q] == ids_where(principal_keys(r0), q));
    }
    assert forall|k: (u32, Seq<char>)| #[trigger]
        after.reviewed.contains(k) <==> rated(r1, k.0, k.1) by {
        assert(v.reviewed.contains(k) <==> rated(r0, k.0, k.1));
        if rated(r0, k.0, k.1) {
            let i = choose|i: int|
                0 <= i < r0.len() && (#[trigger] r0[i]).contract_id == k.0 && r0[i].reviewer
                    == k.1;
            assert(r1[i].contract_id == r0[i].contract_id);
            assert(r1[i].reviewer == r0[i].reviewer);
        }
        if rated(r1, k.0, k.1) {
            let i = choose|i: int|
                0 <= i < r1.len() && (#[trigger] r1[i]).contract_id == k.0 && r1[i].reviewer
                    == k.1;
            assert(r1[i].contract_id == r0[i].contract_id);
            assert(r1[i].reviewer == r0[i].reviewer);
        }
    }
    assert forall|i: int, j: int| 0 <= i < j < r1.len() implies !((#[trigger] r1[i]).contract_id
        == (#[trigger] r1[j]).contract_id && r1[i].reviewer == r1[j].reviewer) by {
        assert(r1[i].contract_id == r0[i].contract_id && r1[i].reviewer == r0[i].reviewer);
        assert(r1[j].contract_id == r0[j].contract_id && r1[j].reviewer == r0[j].reviewer);
    }
    assert forall|i: int| 0 <= i < r1.len() implies {
        let x = #[trigger] r1[i];
        &&& x.review_id == i + 1
        &&& 1 <= x.rating <= 5
        &&& 1 <= x.comment.len() <= 500
    } by {
        assert(r0[i].review_id == i + 1);
    }
    assert forall|k: (u32, Seq<char>)| #[trigger] after.upvoted.contains(k) implies 1 <= k.0
        <= r1.len() by {
        if k != (r.review_id, voter) {
            assert(v.upvoted.contains(k));
        }
    }
}

} // verus!
