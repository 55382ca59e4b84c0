use vstd::prelude::*;
use crate::listing::lemma_filter_of_none;
use crate::review::model::{count_rated, for_contract, rating_sum, summary_of, ReviewState};
use crate::review::types::{Error, ReviewSummaryView, ReviewView};

verus! {

/// One call of an operation on reviews that changes state, with its
/// arguments.
pub ghost enum Call {
    Submit { contract_id: u32, principal: Seq<char>, rating: u32, comment: Seq<char>, now: u64 },
    Upvote { review_id: u32, voter: Seq<char> },
    TakeEvents,
}

/// Whether the call is accepted: all but a submission for which no identity
/// is left.
pub open spec fn allowed(s: ReviewState, c: Call) -> bool {
    c matches Call::Submit { contract_id, principal, rating, comment, .. } ==> (s.submit_outcome(
        contract_id,
        principal,
        rating,
        comment,
    ) is Ok ==> s.reviews.len() < u32::MAX)
}

/// The state after one call.
pub open spec fn step(s: ReviewState, c: Call) -> ReviewState {
    match c {
        Call::Submit { contract_id, principal, rating, comment, now } => s.after_submit(
            contract_id,
            principal,
            rating,
            comment,
            now,
        ),
        Call::Upvote { review_id, voter } => s.after_upvote(review_id, voter),
        Call::TakeEvents => ReviewState { events: Seq::empty(), ..s },
    }
}

/// What a submission returns.
pub open spec fn submit_result(s: ReviewState, c: Call) -> Result<u32, Error>
    recommends
        c is Submit,
{
    s.submit_outcome(
        c->Submit_contract_id,
        c->Submit_principal,
        c->Submit_rating,
        c->Submit_comment,
    )
}

/// Whether each of the calls is accepted in turn.
pub open spec fn all_allowed(s: ReviewState, calls: Seq<Call>) -> bool
    decreases calls.len(),
{
    calls.len() > 0 ==> all_allowed(s, calls.drop_last()) && allowed(
        run(s, calls.drop_last()),
        calls.last(),
    )
}

/// The state after a series of calls.
pub open spec fn run(s: ReviewState, calls: Seq<Call>) -> ReviewState
    decreases calls.len(),
{
    if calls.len() == 0 {
        s
    } else {
        step(run(s, calls.drop_last()), calls.last())
    }
}

/// What a call may change of what is there: nothing but the votes, which
/// only grow. Every review is still there under its identity, the same but
/// for its count of votes, which is no lower; whoever had rated a contract
/// or voted for a review still has.
pub open spec fn extends(s: ReviewState, t: ReviewState) -> bool {
    &&& s.reviews.len() <= t.reviews.len()
    &&& forall|id: u32|
        s.has(id) ==> (#[trigger] t.review(id)) == (ReviewView {
            upvotes: t.review(id).upvotes,
            ..s.review(id)
        }) && s.review(id).upvotes <= t.review(id).upvotes
    &&& forall|c: u32, p: Seq<char>| #[trigger] s.has_reviewed(c, p) ==> t.has_reviewed(c, p)
    &&& forall|k: (u32, Seq<char>)| s.voted.contains(k) ==> #[trigger] t.voted.contains(k)
}

/// Every accepted call keeps the state valid and only extends it.
pub proof fn law_step_extends(s: ReviewState, c: Call)
    requires
        s.valid(),
        allowed(s, c),
    ensures
        step(s, c).valid(),
        extends(s, step(s, c)),
{
    let t = step(s, c);
    assert forall|a: u32, p: Seq<char>| #[trigger] s.has_reviewed(a, p) implies t.has_reviewed(
        a,
        p,
    ) by {
        let i = choose|i: int|
            0 <= i < s.reviews.len() && (#[trigger] s.reviews[i]).contract_id == a
                && s.reviews[i].reviewer == p;
        assert(t.reviews[i].contract_id == a && t.reviews[i].reviewer == p);
    }
    match c {
        Call::Submit { contract_id, principal, rating, comment, now } => {
            if s.submit_outcome(contract_id, principal, rating, comment) is Ok {
                assert forall|i: int, j: int| 0 <= i < j < t.reviews.len() implies !((
                #[trigger] t.reviews[i]).contract_id == (#[trigger] t.reviews[j]).contract_id
                    && t.reviews[i].reviewer == t.reviews[j].reviewer) by {
                    assert(t.reviews[i] == s.reviews[i]);
                    if j < s.reviews.len() {
                        assert(t.reviews[j] == s.reviews[j]);
                    }
                }
            }
        },
        Call::Upvote { review_id, voter } => {
            if s.upvote_outcome(review_id, voter) is Ok {
                assert forall|i: int, j: int| 0 <= i < j < t.reviews.len() implies !((
                #[trigger] t.reviews[i]).contract_id == (#[trigger] t.reviews[j]).contract_id
                    && t.reviews[i].reviewer == t.reviews[j].reviewer) by {
                    assert(t.reviews[i].contract_id == s.reviews[i].contract_id);
                    assert(t.reviews[j].contract_id == s.reviews[j].contract_id);
                    assert(t.reviews[i].reviewer == s.reviews[i].reviewer);
                    assert(t.reviews[j].reviewer == s.reviews[j].reviewer);
                }
                assert forall|i: int| 0 <= i < t.reviews.len() implies {
                    let r = #[trigger] t.reviews[i];
                    &&& r.review_id == i + 1
                    &&& 1 <= r.rating <= 5
                    &&& 1 <= r.comment.len() <= 500
                } by {
                    assert(s.reviews[i].review_id == i + 1);
                }
            }
        },
        Call::TakeEvents => {},
    }
}

/// The same of any series of accepted calls.
pub proof fn law_run_extends(s: ReviewState, calls: Seq<Call>)
    requires
        s.valid(),
        all_allowed(s, calls),
    ensures
        run(s, calls).valid(),
        extends(s, run(s, calls)),
    decreases calls.len(),
{
    if calls.len() > 0 {
        let mid = run(s, calls.drop_last());
        let t = run(s, calls);
        law_run_extends(s, calls.drop_last());
        law_step_extends(mid, calls.last());
        assert forall|id: u32| s.has(id) implies (#[trigger] t.review(id)) == (ReviewView {
            upvotes: t.review(id).upvotes,
            ..s.review(id)
        }) && s.review(id).upvotes <= t.review(id).upvotes by {
            assert(mid.has(id));
            let m = mid.review(id);
            let n = t.review(id);
        }
        assert forall|c: u32, p: Seq<char>| #[trigger] s.has_reviewed(c, p) implies t.has_reviewed(
            c,
            p,
        ) by {
            assert(mid.has_reviewed(c, p));
        }
        assert forall|k: (u32, Seq<char>)| s.voted.contains(k) implies #[trigger] t.voted.contains(
            k,
        ) by {
            assert(mid.voted.contains(k));
        }
    }
}

/// The first submission returns 1, and every submission returns an identity
/// greater than that of every review submitted before it.
pub proof fn law_submit_returns_fresh_id(
    s: ReviewState,
    contract_id: u32,
    p: Seq<char>,
    rating: u32,
    comment: Seq<char>,
)
    requires
        s.valid(),
        s.submit_outcome(contract_id, p, rating, comment) is Ok,
        s.reviews.len() < u32::MAX,
    ensures
        s.submit_outcome(contract_id, p, rating, comment)->Ok_0 == s.reviews.len() + 1,
        forall|i: int|
            0 <= i < s.reviews.len() ==> (#[trigger] s.reviews[i]).review_id < s.submit_outcome(
                contract_id,
                p,
                rating,
                comment,
            )->Ok_0,
{
}

/// Of two submissions, the later returns the greater identity, whatever was
/// called in between.
pub proof fn law_later_submit_returns_greater_id(
    s: ReviewState,
    first: Call,
    between: Seq<Call>,
    second: Call,
)
    requires
        s.valid(),
        first is Submit,
        second is Submit,
        allowed(s, first),
        all_allowed(step(s, first), between),
        allowed(run(step(s, first), between), second),
        submit_result(s, first) is Ok,
        submit_result(run(step(s, first), between), second) is Ok,
    ensures
        submit_result(s, first)->Ok_0 < submit_result(run(step(s, first), between), second)->Ok_0,
{
    law_step_extends(s, first);
    law_run_extends(step(s, first), between);
}

/// Right after its submission a review is found under the identity
/// returned, with what was submitted, the time of the call, and no votes.
pub proof fn law_submitted_review_is_found(
    s: ReviewState,
    contract_id: u32,
    p: Seq<char>,
    rating: u32,
    comment: Seq<char>,
    now: u64,
)
    requires
        s.valid(),
        s.submit_outcome(contract_id, p, rating, comment) is Ok,
        s.reviews.len() < u32::MAX,
    ensures
        ({
            let id = s.submit_outcome(contract_id, p, rating, comment)->Ok_0;
            let after = s.after_submit(contract_id, p, rating, comment, now);
            &&& after.has(id)
            &&& after.review(id) == (ReviewView {
                review_id: id,
                contract_id,
                reviewer: p,
                rating,
                comment,
                created_at: now,
                upvotes: 0,
            })
        }),
{
}

/// Once a principal has rated a contract, whatever is called afterwards,
/// another rating of that contract by that principal is refused and changes
/// nothing; it is refused with `AlreadyReviewed` unless its own rating or
/// comment is unacceptable, which is reported first. The first review stands
/// as it was submitted, but for the votes it has got since.
pub proof fn law_second_review_is_refused(
    s: ReviewState,
    contract_id: u32,
    p: Seq<char>,
    rating: u32,
    comment: Seq<char>,
    now: u64,
    between: Seq<Call>,
    rating2: u32,
    comment2: Seq<char>,
    now2: u64,
)
    requires
        s.valid(),
        s.submit_outcome(contract_id, p, rating, comment) is Ok,
        s.reviews.len() < u32::MAX,
        all_allowed(s.after_submit(contract_id, p, rating, comment, now), between),
    ensures
        ({
            let id = s.submit_outcome(contract_id, p, rating, comment)->Ok_0;
            let t = run(s.after_submit(contract_id, p, rating, comment, now), between);
            &&& t.submit_outcome(contract_id, p, rating2, comment2) is Err
            &&& 1 <= rating2 <= 5 && 1 <= comment2.len() <= 500 ==> t.submit_outcome(
                contract_id,
                p,
                rating2,
                comment2,
            ) == Err::<u32, Error>(Error::AlreadyReviewed)
            &&& t.after_submit(contract_id, p, rating2, comment2, now2) == t
            &&& t.has(id)
            &&& t.review(id) == (ReviewView {
                review_id: id,
                contract_id,
                reviewer: p,
                rating,
                comment,
                created_at: now,
                upvotes: t.review(id).upvotes,
            })
        }),
{
    let id = s.submit_outcome(contract_id, p, rating, comment)->Ok_0;
    let s1 = s.after_submit(contract_id, p, rating, comment, now);
    law_step_extends(s, Call::Submit { contract_id, principal: p, rating, comment, now });
    assert(s1.reviews[id - 1].contract_id == contract_id && s1.reviews[id - 1].reviewer == p);
    assert(s1.has_reviewed(contract_id, p));
    assert(s1.has(id));
    law_run_extends(s1, between);
}

/// Once a principal has voted for a review, whatever is called afterwards,
/// another vote of that principal for that review is refused with
/// `AlreadyVoted` and changes nothing: after the first vote for a review and
/// a second attempt by the same voter, its count is 1.
pub proof fn law_second_vote_is_refused(
    s: ReviewState,
    review_id: u32,
    voter: Seq<char>,
    between: Seq<Call>,
)
    requires
        s.valid(),
        s.upvote_outcome(review_id, voter) is Ok,
        all_allowed(s.after_upvote(review_id, voter), between),
    ensures
        ({
            let t = run(s.after_upvote(review_id, voter), between);
            &&& t.upvote_outcome(review_id, voter) == Err::<(), Error>(Error::AlreadyVoted)
            &&& t.after_upvote(review_id, voter) == t
            &&& between.len() == 0 && s.review(review_id).upvotes == 0 ==> t.after_upvote(
                review_id,
                voter,
            ).review(review_id).upvotes == 1
        }),
{
    let s1 = s.after_upvote(review_id, voter);
    law_step_extends(s, Call::Upvote { review_id, voter });
    assert(s1.voted.contains((review_id, voter)));
    law_run_extends(s1, between);
}

/// A vote that is accepted raises the count of the review by one, unless it
/// stands at the greatest number that it can hold; a vote that is refused
/// leaves every count as it was.
pub proof fn law_vote_counts_once(s: ReviewState, review_id: u32, voter: Seq<char>)
    requires
        s.valid(),
    ensures
        s.upvote_outcome(review_id, voter) is Ok ==> s.after_upvote(review_id, voter).review(
            review_id,
        ).upvotes == if s.review(review_id).upvotes < u32::MAX {
            (s.review(review_id).upvotes + 1) as u32
        } else {
            u32::MAX
        },
        s.upvote_outcome(review_id, voter) is Err ==> s.after_upvote(review_id, voter) == s,
        s.upvote_outcome(review_id, voter) is Ok ==> s.after_upvote(
            review_id,
            voter,
        ).upvote_outcome(review_id, voter) == Err::<(), Error>(Error::AlreadyVoted),
{
}

/// Every refused call leaves the state as it was.
pub proof fn law_refusal_changes_nothing(s: ReviewState, c: Call)
    ensures
        c matches Call::Submit { contract_id, principal, rating, comment, now } ==> s.submit_outcome(
            contract_id,
            principal,
            rating,
            comment,
        ) is Err ==> step(s, c) == s,
        c matches Call::Upvote { review_id, voter } ==> s.upvote_outcome(review_id, voter) is Err
            ==> step(s, c) == s,
{
}

/// The summary of a contract that nobody has rated is all zeros.
pub proof fn law_summary_of_nothing(s: ReviewState, contract_id: u32)
    requires
        forall|i: int| 0 <= i < s.reviews.len() ==> (#[trigger] s.reviews[i]).contract_id
            != contract_id,
    ensures
        summary_of(s.reviews.filter(for_contract(contract_id)), contract_id) == (
        ReviewSummaryView {
            contract_id,
            total_reviews: 0,
            average_rating: 0,
            rating_distribution: seq![0u32, 0u32, 0u32, 0u32, 0u32],
        }),
{
    let none = s.reviews.filter(for_contract(contract_id));
    lemma_filter_of_none(s.reviews, for_contract(contract_id));
    assert(summary_of(none, contract_id).rating_distribution =~= seq![
        0u32,
        0u32,
        0u32,
        0u32,
        0u32,
    ]);
}

/// The five counts of a summary add up to the number of reviews, and the
/// mean that it reports lies between 100 and 500, if there is a review at
/// all.
pub proof fn law_summary_is_coherent(s: Seq<ReviewView>)
    requires
        forall|i: int| 0 <= i < s.len() ==> 1 <= (#[trigger] s[i]).rating <= 5,
    ensures
        count_rated(s, 1) + count_rated(s, 2) + count_rated(s, 3) + count_rated(s, 4) + count_rated(
            s,
            5,
        ) == s.len(),
        s.len() <= rating_sum(s) <= 5 * s.len(),
        s.len() > 0 ==> 100 <= rating_sum(s) * 100 / s.len() <= 500,
    decreases s.len(),
{
    if s.len() > 0 {
        let s0 = s.drop_last();
        assert forall|i: int| 0 <= i < s0.len() implies 1 <= (#[trigger] s0[i]).rating <= 5 by {
            assert(s0[i] == s[i]);
        }
        law_summary_is_coherent(s0);
        let sum = rating_sum(s) as int;
        let n = s.len() as int;
        assert(100 <= sum * 100 / n <= 500) by (nonlinear_arith)
            requires
                n > 0,
                n <= sum <= 5 * n,
        ;
    }
}

} // verus!
