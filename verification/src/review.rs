use vstd::prelude::*;
use crate::key::key_set;
use crate::listing::{lemma_ids_where_sound, lemma_pick_is_filter, pick};
use crate::principal::{Principal, ScopeKey};
use crate::review::model::{by_principal, consistent, contract_keys, count_rated, filed,
    for_contract, lemma_filed_consistent, lemma_voted_consistent, principal_keys, rated,
    rating_sum, reviews_of, state_of, summary_of, valid_reviews, voted, EventView, ReviewState};
use crate::review::storage::Storage;
use crate::review::types::{Error, Review, ReviewSummary, ReviewView};
use crate::text::char_count;

pub mod laws;
pub mod model;
pub mod storage;
pub mod types;

verus! {

/// Notifies that a contract was rated.
#[derive(Clone, Copy, Debug, PartialEq, Eq)]
pub struct Reviewed {
    pub review_id: u32,
    pub contract_id: u32,
    pub rating: u32,
}

/// Notifies that a principal voted for a review.
#[derive(Debug, PartialEq)]
pub struct Upvoted {
    pub review_id: u32,
    pub voter: Principal,
}

/// A notification about reviews.
#[derive(Debug, PartialEq)]
pub enum Event {
    Reviewed(Reviewed),
    Upvoted(Upvoted),
}

impl View for Event {
    type V = EventView;

    open spec fn view(&self) -> EventView {
        match self {
            Event::Reviewed(e) => EventView::Reviewed {
                review_id: e.review_id,
                contract_id: e.contract_id,
                rating: e.rating,
            },
            Event::Upvoted(e) => EventView::Upvoted { review_id: e.review_id, voter: e.voter@ },
        }
    }
}

/// The contents of a list of notifications.
pub open spec fn event_views(s: Seq<Event>) -> Seq<EventView> {
    s.map_values(|e: Event| e@)
}

/// The contents of a list of reviews.
pub open spec fn review_views(s: Seq<Review>) -> Seq<ReviewView> {
    s.map_values(|r: Review| r@)
}

/// The reviews of contracts, and the votes for them.
pub struct ReviewSystem {
    storage: Storage,
    events: Vec<Event>,
}

impl View for ReviewSystem {
    type V = ReviewState;

    closed spec fn view(&self) -> ReviewState {
        state_of(self.storage@, event_views(self.events@))
    }
}

impl ReviewSystem {
    /// The store is sound, its marks and lists agree with its reviews, and
    /// the reviews are valid. Every operation keeps this.
    pub closed spec fn wf(&self) -> bool {
        self.storage.wf() && consistent(self.storage@) && self@.valid()
    }

    /// What is sound is valid.
    pub proof fn lemma_wf_valid(&self)
        requires
            self.wf(),
        ensures
            self@.valid(),
    {
    }

    /// A system without reviews.
    pub fn new() -> (r: Self)
        ensures
            r.wf(),
            r@ == ReviewState::empty(),
    {
        let r = ReviewSystem { storage: Storage::new(), events: Vec::new() };
        assert(r@.reviews =~= Seq::<ReviewView>::empty());
        assert(r@.events =~= Seq::<EventView>::empty());
        assert(contract_keys(reviews_of(r.storage@)) =~= Seq::<u32>::empty());
        assert(principal_keys(reviews_of(r.storage@)) =~= Seq::<Seq<char>>::empty());
        r
    }

    /// The system that holds `reviews`, given in the order of submission, and
    /// the votes `votes`, each the review and the voter, and no pending
    /// notification; nothing if reviews and votes are not valid together.
    pub fn restore(reviews: &Vec<Review>, votes: &Vec<ScopeKey>) -> (r: Option<Self>)
        ensures
            match r {
                Some(system) => system.wf() && system@ == (ReviewState {
                    reviews: review_views(reviews@),
                    voted: key_set(votes@),
                    events: Seq::empty(),
                }),
                None => !valid_reviews(review_views(reviews@), key_set(votes@)),
            },
    {
        let mut system = Self::new();
        let ghost all = review_views(reviews@);
        let mut i: usize = 0;
        assert(all.take(0) =~= Seq::<ReviewView>::empty());
        while i < reviews.len()
            invariant
                i <= reviews@.len(),
                all == review_views(reviews@),
                system.wf(),
                system@.reviews == all.take(i as int),
                system@.voted == Set::<(u32, Seq<char>)>::empty(),
                system@.events == Seq::<EventView>::empty(),
            decreases reviews@.len() - i,
        {
            let review = &reviews[i];
            let issued = storage::get_counter(&system.storage);
            assert(review@ == all[i as int]);
            assert(all.take(i as int).len() == i);
            if issued == u32::MAX || review.review_id != issued + 1 {
                return None;
            }
            if !(1 <= review.rating && review.rating <= 5) {
                return None;
            }
            let comment_len = char_count(&review.comment);
            if comment_len == 0 || comment_len > 500 {
                return None;
            }
            let seen = storage::has_reviewed(&system.storage, review.contract_id, &review.reviewer);
            proof {
                let k = (review.contract_id, review.reviewer@);
                assert(system.storage@.reviewed.contains(k) <==> rated(
                    reviews_of(system.storage@),
                    k.0,
                    k.1,
                ));
                if seen {
                    let j = choose|j: int|
                        0 <= j < i && (#[trigger] all.take(i as int)[j]).contract_id == k.0
                            && all.take(i as int)[j].reviewer == k.1;
                    assert(all[j] == all.take(i as int)[j]);
                    assert(all[j].contract_id == all[i as int].contract_id);
                    assert(all[j].reviewer == all[i as int].reviewer);
                }
            }
            if seen {
                return None;
            }
            let ghost before = system.storage@;
            let review_id = storage::increment_counter(&mut system.storage);
            storage::save_review(&mut system.storage, review_id, review);
            storage::add_to_contract_reviews(&mut system.storage, review.contract_id, review_id);
            storage::add_to_user_reviews(&mut system.storage, &review.reviewer, review_id);
            storage::mark_as_reviewed(&mut system.storage, review.contract_id, &review.reviewer);
            proof {
                lemma_filed_consistent(before, review@);
                assert(system.storage@ == filed(before, review@));
                assert(all.take(i + 1) =~= all.take(i as int).push(review@));
            }
            i += 1;
        }
        assert(all.take(all.len() as int) =~= all);
        let count = storage::get_counter(&system.storage);
        let mut j: usize = 0;
        assert(key_set(votes@.take(0)) =~= Set::<(u32, Seq<char>)>::empty());
        while j < votes.len()
            invariant
                j <= votes@.len(),
                all == review_views(reviews@),
                system.wf(),
                system@.reviews == all,
                count == all.len(),
                system@.voted == key_set(votes@.take(j as int)),
                system@.events == Seq::<EventView>::empty(),
            decreases votes@.len() - j,
        {
            let vote = &votes[j];
            if !(1 <= vote.id && vote.id <= count) {
                assert(key_set(votes@).contains(vote@));
                return None;
            }
            let ghost before = system.storage@;
            storage::mark_as_upvoted(&mut system.storage, vote.id, &vote.principal);
            proof {
                let r = before.records[vote.id];
                assert(reviews_of(before)[vote.id - 1] == r);
                assert(r.review_id == vote.id);
                assert(before.records.contains_key(vote.id));
                assert(before.records.insert(vote.id, r) =~= before.records);
                lemma_voted_consistent(before, r, vote.principal@);
                assert(system.storage@ == voted(before, r, vote.principal@));
                assert(reviews_of(system.storage@) =~= all);
                assert(before.upvoted == key_set(votes@.take(j as int)));
                assert(system@.voted == before.upvoted.insert(vote@));
                assert forall|k: (u32, Seq<char>)| #[trigger]
                    key_set(votes@.take(j + 1)).contains(k) == (key_set(
                        votes@.take(j as int),
                    ).contains(k) || k == vote@) by {
                    if key_set(votes@.take(j as int)).contains(k) {
                        let w = choose|w: int|
                            0 <= w < j && (#[trigger] votes@.take(j as int)[w])@ == k;
                        assert(votes@.take(j + 1)[w]@ == k);
                    }
                    if k == vote@ {
                        assert(votes@.take(j + 1)[j as int]@ == k);
                    }
                    if key_set(votes@.take(j + 1)).contains(k) {
                        let w = choose|w: int|
                            0 <= w < j + 1 && (#[trigger] votes@.take(j + 1)[w])@ == k;
                        if w < j {
                            assert(votes@.take(j as int)[w]@ == k);
                        }
                    }
                }
                assert(system@.voted =~= key_set(votes@.take(j + 1)));
            }
            j += 1;
        }
        assert(votes@.take(votes@.len() as int) =~= votes@);
        Some(system)
    }

    /// All reviews, in the order of submission.
    pub fn get_all_reviews(&self) -> (r: Vec<Review>)
        requires
            self.wf(),
        ensures
            review_views(r@) == self@.reviews,
    {
        let count = storage::get_counter(&self.storage);
        let mut ids: Vec<u32> = Vec::new();
        let mut id: u32 = 0;
        while id < count
            invariant
                id <= count,
                ids@.len() == id,
                forall|j: int| 0 <= j < id ==> #[trigger] ids@[j] == j + 1,
            decreases count - id,
        {
            id = id + 1;
            ids.push(id);
        }
        let reviews = self.collect(&ids);
        assert(pick(self@.reviews, ids@) =~= self@.reviews);
        reviews
    }

    /// Every vote counted so far: the review and the voter, each pair once.
    pub fn get_votes(&self) -> (r: Vec<ScopeKey>)
        requires
            self.wf(),
        ensures
            key_set(r@) == self@.voted,
    {
        storage::get_upvotes(&self.storage)
    }

    /// Whether a rating of the contract `contract_id` by the principal given
    /// would be accepted now, and if not, why not: see
    /// [`ReviewSystem::submit_review`].
    pub fn check_submission(
        &self,
        contract_id: u32,
        reviewer: &Principal,
        rating: u32,
        comment: &String,
    ) -> (r: Result<(), Error>)
        requires
            self.wf(),
        ensures
            match self@.submit_outcome(contract_id, reviewer@, rating, comment@) {
                Ok(_) => r is Ok,
                Err(e) => r == Err::<(), Error>(e),
            },
    {
        if !(1 <= rating && rating <= 5) {
            return Err(Error::InvalidRating);
        }
        let comment_len = char_count(comment);
        if comment_len == 0 {
            return Err(Error::EmptyComment);
        }
        if comment_len > 500 {
            return Err(Error::CommentTooLong);
        }
        let seen = storage::has_reviewed(&self.storage, contract_id, reviewer);
        assert(seen == self@.has_reviewed(contract_id, reviewer@)) by {
            let k = (contract_id, reviewer@);
            assert(self.storage@.reviewed.contains(k) <==> rated(
                reviews_of(self.storage@),
                k.0,
                k.1,
            ));
        }
        if seen {
            return Err(Error::AlreadyReviewed);
        }
        Ok(())
    }

    /// Records the rating `rating` of the contract `contract_id` by the
    /// principal given, with a comment, at the time `now`.
    ///
    /// Refused, with nothing changed and no identity issued: with
    /// `InvalidRating` unless the rating is one of 1 to 5; else with
    /// `EmptyComment` if the comment is empty; else with `CommentTooLong` if
    /// it has more than 500 characters; else with `AlreadyReviewed` if the
    /// principal has rated this contract before. Otherwise the review gets
    /// the next identity, starts without votes, and `Reviewed` is notified.
    pub fn submit_review(
        &mut self,
        contract_id: u32,
        reviewer: Principal,
        rating: u32,
        comment: String,
        now: u64,
    ) -> (r: Result<u32, Error>)
        requires
            old(self).wf(),
            old(self)@.submit_outcome(contract_id, reviewer@, rating, comment@) is Ok ==> old(
                self,
            )@.reviews.len() < u32::MAX,
        ensures
            final(self).wf(),
            r == old(self)@.submit_outcome(contract_id, reviewer@, rating, comment@),
            final(self)@ == old(self)@.after_submit(contract_id, reviewer@, rating, comment@, now),
    {
        if let Err(e) = self.check_submission(contract_id, &reviewer, rating, &comment) {
            return Err(e);
        }
        let ghost before = self.storage@;
        let review_id = storage::increment_counter(&mut self.storage);
        let review = Review {
            review_id,
            contract_id,
            reviewer,
            rating,
            comment,
            created_at: now,
            upvotes: 0,
        };
        storage::save_review(&mut self.storage, review_id, &review);
        storage::add_to_contract_reviews(&mut self.storage, contract_id, review_id);
        storage::add_to_user_reviews(&mut self.storage, &review.reviewer, review_id);
        storage::mark_as_reviewed(&mut self.storage, contract_id, &review.reviewer);
        self.events.push(Event::Reviewed(Reviewed { review_id, contract_id, rating }));
        proof {
            lemma_filed_consistent(before, review@);
            assert(self.storage@ == filed(before, review@));
            assert(self@.events =~= old(self)@.events.push(
                EventView::Reviewed { review_id, contract_id, rating },
            ));
        }
        Ok(review_id)
    }

    /// The number of reviews submitted so far.
    pub fn get_review_count(&self) -> (r: u32)
        requires
            self.wf(),
        ensures
            r == self@.reviews.len(),
    {
        storage::get_counter(&self.storage)
    }

    /// The review `review_id`, or `ReviewNotFound`.
    pub fn get_review(&self, review_id: u32) -> (r: Result<Review, Error>)
        requires
            self.wf(),
        ensures
            match r {
                Ok(m) => self@.has(review_id) && m@ == self@.review(review_id),
                Err(e) => !self@.has(review_id) && e == Error::ReviewNotFound,
            },
    {
        match storage::get_review(&self.storage, review_id) {
            Some(m) => Ok(m),
            None => Err(Error::ReviewNotFound),
        }
    }

    /// The reviews that `ids` names, in that order.
    fn collect(&self, ids: &Vec<u32>) -> (r: Vec<Review>)
        requires
            self.wf(),
            forall|j: int| 0 <= j < ids@.len() ==> self@.has(#[trigger] ids@[j]),
        ensures
            review_views(r@) == pick(self@.reviews, ids@),
    {
        let mut reviews: Vec<Review> = Vec::new();
        let mut j: usize = 0;
        while j < ids.len()
            invariant
                self.wf(),
                j <= ids@.len(),
                forall|j: int| 0 <= j < ids@.len() ==> self@.has(#[trigger] ids@[j]),
                review_views(reviews@) == pick(self@.reviews, ids@).take(j as int),
            decreases ids@.len() - j,
        {
            let id = ids[j];
            let ghost before = reviews@;
            assert(self@.has(id));
            assert(self.storage@.records.contains_key(id));
            assert(review_views(before).len() == j);
            if let Some(review) = storage::get_review(&self.storage, id) {
                assert(review@ == self@.reviews[id - 1]);
                reviews.push(review);
            }
            assert(review_views(reviews@) =~= pick(self@.reviews, ids@).take(j + 1)) by {
                assert forall|k: int| 0 <= k < j implies review_views(reviews@)[k] == pick(
                    self@.reviews,
                    ids@,
                ).take(j as int)[k] by {
                    assert(reviews@[k] == before[k]);
                    assert(review_views(before)[k] == before[k]@);
                }
            }
            j += 1;
        }
        assert(pick(self@.reviews, ids@).take(ids@.len() as int) =~= pick(self@.reviews, ids@));
        reviews
    }

    /// Exactly the reviews of the contract `contract_id`, in the order of
    /// submission.
    pub fn get_reviews_for_contract(&self, contract_id: u32) -> (r: Vec<Review>)
        requires
            self.wf(),
        ensures
            review_views(r@) == self@.reviews.filter(for_contract(contract_id)),
    {
        let review_ids = storage::get_contract_reviews(&self.storage, contract_id);
        proof {
            lemma_ids_where_sound(contract_keys(self@.reviews), contract_id);
            lemma_pick_is_filter(
                self@.reviews,
                contract_keys(self@.reviews),
                contract_id,
                for_contract(contract_id),
            );
        }
        self.collect(&review_ids)
    }

    /// Exactly the reviews by the principal given, in the order of
    /// submission.
    pub fn get_reviews_by_user(&self, reviewer: Principal) -> (r: Vec<Review>)
        requires
            self.wf(),
        ensures
            review_views(r@) == self@.reviews.filter(by_principal(reviewer@)),
    {
        let review_ids = storage::get_user_reviews(&self.storage, &reviewer);
        proof {
            lemma_ids_where_sound(principal_keys(self@.reviews), reviewer@);
            lemma_pick_is_filter(
                self@.reviews,
                principal_keys(self@.reviews),
                reviewer@,
                by_principal(reviewer@),
            );
        }
        self.collect(&review_ids)
    }

    /// Counts a vote of `voter` for the review `review_id`. A count at the
    /// maximum stays there.
    ///
    /// Refused, with nothing changed: with `AlreadyVoted` if `voter` has
    /// voted for this review before; else with `ReviewNotFound` if there is
    /// no such review. Otherwise `Upvoted` is notified.
    pub fn upvote_review(&mut self, review_id: u32, voter: Principal) -> (r: Result<(), Error>)
        requires
            old(self).wf(),
        ensures
            final(self).wf(),
            r == old(self)@.upvote_outcome(review_id, voter@),
            final(self)@ == old(self)@.after_upvote(review_id, voter@),
    {
        if storage::has_upvoted(&self.storage, review_id, &voter) {
            return Err(Error::AlreadyVoted);
        }
        let mut review = match storage::get_review(&self.storage, review_id) {
            Some(m) => m,
            None => {
                return Err(Error::ReviewNotFound);
            },
        };
        review.upvotes = match review.upvotes.checked_add(1) {
            Some(n) => n,
            None => review.upvotes,
        };
        let ghost before = self.storage@;
        storage::save_review(&mut self.storage, review_id, &review);
        storage::mark_as_upvoted(&mut self.storage, review_id, &voter);
        let ghost v = voter@;
        self.events.push(Event::Upvoted(Upvoted { review_id, voter }));
        proof {
            lemma_voted_consistent(before, review@, v);
            assert(self.storage@ == voted(before, review@, v));
            assert(self@.events =~= old(self)@.events.push(
                EventView::Upvoted { review_id, voter: v },
            ));
        }
        Ok(())
    }

    /// The summary of the ratings of the contract `contract_id`, computed
    /// from its reviews as they stand.
    pub fn get_review_summary(&self, contract_id: u32) -> (r: ReviewSummary)
        requires
            self.wf(),
        ensures
            r@ == summary_of(self@.reviews.filter(for_contract(contract_id)), contract_id),
    {
        let review_ids = storage::get_contract_reviews(&self.storage, contract_id);
        proof {
            lemma_ids_where_sound(contract_keys(self@.reviews), contract_id);
            lemma_pick_is_filter(
                self@.reviews,
                contract_keys(self@.reviews),
                contract_id,
                for_contract(contract_id),
            );
        }
        let reviews = self.collect(&review_ids);
        let ghost all = review_views(reviews@);
        assert(all.len() == reviews@.len());
        assert forall|i: int| 0 <= i < all.len() implies 1 <= (#[trigger] all[i]).rating <= 5 by {
            assert(all[i] == self@.reviews[review_ids@[i] - 1]);
        }
        assert(all.len() <= u32::MAX);

        let mut distribution: Vec<u32> = Vec::new();
        distribution.push(0);
        distribution.push(0);
        distribution.push(0);
        distribution.push(0);
        distribution.push(0);
        if reviews.len() == 0 {
            assert(distribution@ =~= summary_of(all, contract_id).rating_distribution);
            return ReviewSummary {
                contract_id,
                total_reviews: 0,
                average_rating: 0,
                rating_distribution: distribution,
            };
        }
        let total_reviews = reviews.len();
        let mut total_rating: u64 = 0;
        let mut i: usize = 0;
        assert(all.take(0) =~= Seq::<ReviewView>::empty());
        while i < reviews.len()
            invariant
                i <= reviews@.len(),
                all == review_views(reviews@),
                all.len() == reviews@.len(),
                all.len() <= u32::MAX,
                forall|k: int| 0 <= k < all.len() ==> 1 <= (#[trigger] all[k]).rating <= 5,
                distribution@.len() == 5,
                total_rating == rating_sum(all.take(i as int)),
                total_rating <= 5 * i,
                forall|k: int|
                    0 <= k < 5 ==> distribution@[k] == count_rated(
                        all.take(i as int),
                        (k + 1) as u32,
                    ) && #[trigger] distribution@[k] <= i,
            decreases reviews@.len() - i,
        {
            let rating = reviews[i].rating;
            proof {
                assert(reviews@[i as int]@ == all[i as int]);
                assert(all.take(i + 1).drop_last() =~= all.take(i as int));
                assert(all.take(i + 1).last() == all[i as int]);
            }
            total_rating = total_rating + rating as u64;
            let index = (rating - 1) as usize;
            let current = distribution[index];
            distribution.set(index, current + 1);
            i += 1;
        }
        assert(all.take(all.len() as int) =~= all);
        let average = total_rating * 100 / (total_reviews as u64);
        assert(average == rating_sum(all) * 100 / all.len());
        assert(average <= 500) by (nonlinear_arith)
            requires
                average == (total_rating as int) * 100 / (total_reviews as int),
                total_rating <= 5 * total_reviews,
                total_reviews > 0,
        ;
        let r = ReviewSummary {
            contract_id,
            total_reviews: total_reviews as u32,
            average_rating: average as u32,
            rating_distribution: distribution,
        };
        assert(r@.rating_distribution =~= summary_of(all, contract_id).rating_distribution);
        r
    }

    /// Hands out the notifications noted since the last call, oldest first.
    pub fn take_events(&mut self) -> (r: Vec<Event>)
        requires
            old(self).wf(),
        ensures
            final(self).wf(),
            event_views(r@) == old(self)@.events,
            final(self)@ == (ReviewState { events: Seq::empty(), ..old(self)@ }),
    {
        let mut events: Vec<Event> = Vec::new();
        std::mem::swap(&mut events, &mut self.events);
        assert(self@.events =~= Seq::<EventView>::empty());
        events
    }
}

} // verus!
