use contract_marketplace::principal::Principal;
use contract_marketplace::review::types::{Error, Review, ReviewSummary};
use contract_marketplace::review::{Event, ReviewSystem, Reviewed, Upvoted};

const NOW: u64 = 1_700_000_000;

fn generate(n: u32) -> Principal {
    Principal::new(format!("GUSER{}", n))
}

#[test]
fn test_submit_review_success() {
    let mut client = ReviewSystem::new();

    let reviewer = generate(1);
    let contract_to_review = 1u32;
    let rating = 5;
    let comment = String::from("Excellent contract!");

    let review_id = client
        .submit_review(contract_to_review, reviewer.clone(), rating, comment.clone(), NOW)
        .unwrap();
    assert_eq!(review_id, 1);

    let review = client.get_review(review_id).unwrap();
    assert_eq!(review.rating, 5);
    assert_eq!(review.comment, comment);
    assert_eq!(review.reviewer, reviewer);
}

#[test]
#[should_panic]
fn test_submit_review_invalid_rating_too_low() {
    let mut client = ReviewSystem::new();

    let reviewer = generate(1);
    let contract_to_review = 1u32;
    let rating = 0;
    let comment = String::from("Test");

    client.submit_review(contract_to_review, reviewer, rating, comment, NOW).unwrap();
}

#[test]
#[should_panic]
fn test_submit_review_invalid_rating_too_high() {
    let mut client = ReviewSystem::new();

    let reviewer = generate(1);
    let contract_to_review = 1u32;
    let rating = 6;
    let comment = String::from("Test");

    client.submit_review(contract_to_review, reviewer, rating, comment, NOW).unwrap();
}

#[test]
#[should_panic]
fn test_submit_review_empty_comment() {
    let mut client = ReviewSystem::new();

    let reviewer = generate(1);
    let contract_to_review = 1u32;
    let rating = 5;
    let comment = String::from("");

    client.submit_review(contract_to_review, reviewer, rating, comment, NOW).unwrap();
}

#[test]
#[should_panic]
fn test_submit_review_duplicate() {
    let mut client = ReviewSystem::new();

    let reviewer = generate(1);
    let contract_to_review = 1u32;
    let rating = 5;
    let comment = String::from("Great!");

    client
        .submit_review(contract_to_review, reviewer.clone(), rating, comment.clone(), NOW)
        .unwrap();

    client.submit_review(contract_to_review, reviewer, rating, comment, NOW).unwrap();
}

#[test]
fn test_upvote_review() {
    let mut client = ReviewSystem::new();

    let reviewer = generate(1);
    let voter = generate(2);
    let contract_to_review = 1u32;
    let rating = 5;
    let comment = String::from("Great!");

    let review_id =
        client.submit_review(contract_to_review, reviewer, rating, comment, NOW).unwrap();

    let review = client.get_review(review_id).unwrap();
    assert_eq!(review.upvotes, 0);

    client.upvote_review(review_id, voter).unwrap();

    let review = client.get_review(review_id).unwrap();
    assert_eq!(review.upvotes, 1);
}

#[test]
#[should_panic]
fn test_upvote_duplicate() {
    let mut client = ReviewSystem::new();

    let reviewer = generate(1);
    let voter = generate(2);
    let contract_to_review = 1u32;
    let rating = 5;
    let comment = String::from("Great!");

    let review_id =
        client.submit_review(contract_to_review, reviewer, rating, comment, NOW).unwrap();

    client.upvote_review(review_id, voter.clone()).unwrap();

    client.upvote_review(review_id, voter).unwrap();
}

#[test]
fn test_get_reviews_for_contract() {
    let mut client = ReviewSystem::new();

    let reviewer1 = generate(1);
    let reviewer2 = generate(2);
    let contract_to_review = 1u32;

    client.submit_review(contract_to_review, reviewer1, 5, String::from("Great!"), NOW).unwrap();

    client.submit_review(contract_to_review, reviewer2, 4, String::from("Good"), NOW).unwrap();

    let reviews = client.get_reviews_for_contract(contract_to_review);
    assert_eq!(reviews.len(), 2);
}

#[test]
fn test_get_review_summary() {
    let mut client = ReviewSystem::new();

    let contract_to_review = 1u32;

    let reviewer1 = generate(1);
    client
        .submit_review(contract_to_review, reviewer1, 5, String::from("Excellent!"), NOW)
        .unwrap();

    let reviewer2 = generate(2);
    client.submit_review(contract_to_review, reviewer2, 4, String::from("Good"), NOW).unwrap();

    let reviewer3 = generate(3);
    client.submit_review(contract_to_review, reviewer3, 5, String::from("Great!"), NOW).unwrap();

    let summary = client.get_review_summary(contract_to_review);
    assert_eq!(summary.total_reviews, 3);

    assert_eq!(summary.average_rating, 466);

    assert_eq!(*summary.rating_distribution.get(3).unwrap(), 1);
    assert_eq!(*summary.rating_distribution.get(4).unwrap(), 2);
}

#[test]
fn test_get_review_summary_empty() {
    let client = ReviewSystem::new();

    let contract_to_review = 1u32;

    let summary = client.get_review_summary(contract_to_review);
    assert_eq!(summary.total_reviews, 0);
    assert_eq!(summary.average_rating, 0);
}

#[test]
fn test_get_reviews_by_user() {
    let mut client = ReviewSystem::new();

    let reviewer = generate(1);
    let contract1 = 1u32;
    let contract2 = 2u32;

    client.submit_review(contract1, reviewer.clone(), 5, String::from("Great!"), NOW).unwrap();

    client.submit_review(contract2, reviewer.clone(), 4, String::from("Good"), NOW).unwrap();

    let reviews = client.get_reviews_by_user(reviewer);
    assert_eq!(reviews.len(), 2);
}

#[test]
fn test_get_review_count() {
    let mut client = ReviewSystem::new();

    assert_eq!(client.get_review_count(), 0);

    let reviewer = generate(1);
    let contract_to_review = 1u32;

    client.submit_review(contract_to_review, reviewer, 5, String::from("Great!"), NOW).unwrap();

    assert_eq!(client.get_review_count(), 1);
}

#[test]
fn test_review_sorting_by_upvotes() {
    let mut client = ReviewSystem::new();

    let contract_to_review = 1u32;

    let reviewer1 = generate(1);
    let review_id1 = client
        .submit_review(contract_to_review, reviewer1, 5, String::from("Review 1"), NOW)
        .unwrap();

    let reviewer2 = generate(2);
    let review_id2 = client
        .submit_review(contract_to_review, reviewer2, 4, String::from("Review 2"), NOW)
        .unwrap();

    let reviewer3 = generate(3);
    let review_id3 = client
        .submit_review(contract_to_review, reviewer3, 3, String::from("Review 3"), NOW)
        .unwrap();

    let voter1 = generate(11);
    let voter2 = generate(12);
    client.upvote_review(review_id2, voter1.clone()).unwrap();
    client.upvote_review(review_id2, voter2).unwrap();

    client.upvote_review(review_id3, voter1).unwrap();

    assert_eq!(client.get_review(review_id1).unwrap().upvotes, 0);
    assert_eq!(client.get_review(review_id2).unwrap().upvotes, 2);
    assert_eq!(client.get_review(review_id3).unwrap().upvotes, 1);
}

#[test]
fn submitted_review_is_stored_as_submitted() {
    let mut client = ReviewSystem::new();
    let id = client.submit_review(7, generate(1), 4, String::from("Solid"), NOW + 2).unwrap();
    assert_eq!(
        client.get_review(id),
        Ok(Review {
            review_id: 1,
            contract_id: 7,
            reviewer: generate(1),
            rating: 4,
            comment: String::from("Solid"),
            created_at: NOW + 2,
            upvotes: 0,
        })
    );
    assert_eq!(client.get_review(2), Err(Error::ReviewNotFound));
    assert_eq!(client.get_review(0), Err(Error::ReviewNotFound));
}

#[test]
fn second_review_of_the_same_contract_is_a_conflict() {
    let mut client = ReviewSystem::new();
    let first = client.submit_review(1, generate(1), 5, String::from("Great!"), NOW).unwrap();
    let before = client.get_review(first).unwrap();
    client.take_events();

    let r = client.submit_review(1, generate(1), 2, String::from("Changed my mind"), NOW + 1);
    assert_eq!(r, Err(Error::AlreadyReviewed));
    assert_eq!(client.get_review(first).unwrap(), before);
    assert_eq!(client.get_review_count(), 1);
    assert_eq!(client.get_reviews_for_contract(1).len(), 1);
    assert_eq!(client.get_reviews_by_user(generate(1)).len(), 1);
    assert!(client.take_events().is_empty());

    assert_eq!(client.submit_review(2, generate(1), 2, String::from("Other"), NOW), Ok(2));
    assert_eq!(client.submit_review(1, generate(2), 2, String::from("Other"), NOW), Ok(3));
}

#[test]
fn second_vote_for_the_same_review_is_a_conflict() {
    let mut client = ReviewSystem::new();
    let id = client.submit_review(1, generate(1), 5, String::from("Great!"), NOW).unwrap();
    assert_eq!(client.upvote_review(id, generate(2)), Ok(()));
    assert_eq!(client.upvote_review(id, generate(2)), Err(Error::AlreadyVoted));
    assert_eq!(client.get_review(id).unwrap().upvotes, 1);
    assert_eq!(client.upvote_review(id, generate(3)), Ok(()));
    assert_eq!(client.get_review(id).unwrap().upvotes, 2);
}

#[test]
fn vote_for_a_missing_review_is_not_found() {
    let mut client = ReviewSystem::new();
    assert_eq!(client.upvote_review(1, generate(2)), Err(Error::ReviewNotFound));
    assert_eq!(client.upvote_review(1, generate(2)), Err(Error::ReviewNotFound));
    let id = client.submit_review(1, generate(1), 5, String::from("Great!"), NOW).unwrap();
    assert_eq!(client.upvote_review(id, generate(2)), Ok(()));
}

#[test]
fn submit_reports_each_refusal_in_order() {
    let mut client = ReviewSystem::new();
    let ok = String::from("Test");
    assert_eq!(client.submit_review(1, generate(1), 0, ok.clone(), NOW), Err(Error::InvalidRating));
    assert_eq!(client.submit_review(1, generate(1), 6, ok.clone(), NOW), Err(Error::InvalidRating));
    assert_eq!(
        client.submit_review(1, generate(1), 0, String::new(), NOW),
        Err(Error::InvalidRating)
    );
    assert_eq!(
        client.submit_review(1, generate(1), 3, String::new(), NOW),
        Err(Error::EmptyComment)
    );
    assert_eq!(
        client.submit_review(1, generate(1), 3, "c".repeat(501), NOW),
        Err(Error::CommentTooLong)
    );
    assert_eq!(client.get_review_count(), 0);
    assert_eq!(client.submit_review(1, generate(1), 1, "c".repeat(500), NOW), Ok(1));
    assert_eq!(client.submit_review(1, generate(2), 5, String::from("x"), NOW), Ok(2));
    assert_eq!(
        client.submit_review(1, generate(1), 9, String::from("x"), NOW),
        Err(Error::InvalidRating)
    );
}

#[test]
fn summary_of_five_four_five() {
    let mut client = ReviewSystem::new();
    client.submit_review(1, generate(1), 5, String::from("Excellent!"), NOW).unwrap();
    client.submit_review(2, generate(1), 1, String::from("Elsewhere"), NOW).unwrap();
    client.submit_review(1, generate(2), 4, String::from("Good"), NOW).unwrap();
    client.submit_review(1, generate(3), 5, String::from("Great!"), NOW).unwrap();
    assert_eq!(
        client.get_review_summary(1),
        ReviewSummary {
            contract_id: 1,
            total_reviews: 3,
            average_rating: 466,
            rating_distribution: vec![0, 0, 0, 1, 2],
        }
    );
    assert_eq!(
        client.get_review_summary(2),
        ReviewSummary {
            contract_id: 2,
            total_reviews: 1,
            average_rating: 100,
            rating_distribution: vec![1, 0, 0, 0, 0],
        }
    );
}

#[test]
fn summary_of_no_reviews_is_all_zeros() {
    let mut client = ReviewSystem::new();
    client.submit_review(2, generate(1), 3, String::from("Elsewhere"), NOW).unwrap();
    assert_eq!(
        client.get_review_summary(1),
        ReviewSummary {
            contract_id: 1,
            total_reviews: 0,
            average_rating: 0,
            rating_distribution: vec![0, 0, 0, 0, 0],
        }
    );
}

#[test]
fn summary_rounds_down() {
    let mut client = ReviewSystem::new();
    for (n, rating) in [1u32, 2, 2, 3, 4, 5, 5].iter().enumerate() {
        client.submit_review(1, generate(n as u32), *rating, String::from("ok"), NOW).unwrap();
    }
    let summary = client.get_review_summary(1);
    assert_eq!(summary.total_reviews, 7);
    assert_eq!(summary.average_rating, 314);
    assert_eq!(summary.rating_distribution, vec![1, 2, 1, 1, 2]);
}

#[test]
fn review_lists_keep_order_and_exclude_others() {
    let mut client = ReviewSystem::new();
    let plan = [(1u32, 1u32), (2, 1), (1, 2), (3, 3), (1, 3)];
    for (contract, who) in plan {
        client.submit_review(contract, generate(who), 3, String::from("ok"), NOW).unwrap();
    }
    let ids = |v: Vec<Review>| v.iter().map(|r| r.review_id).collect::<Vec<u32>>();
    assert_eq!(ids(client.get_reviews_for_contract(1)), vec![1, 3, 5]);
    assert_eq!(ids(client.get_reviews_for_contract(2)), vec![2]);
    assert_eq!(ids(client.get_reviews_for_contract(4)), Vec::<u32>::new());
    assert_eq!(ids(client.get_reviews_by_user(generate(1))), vec![1, 2]);
    assert_eq!(ids(client.get_reviews_by_user(generate(3))), vec![4, 5]);
    assert_eq!(ids(client.get_reviews_by_user(generate(4))), Vec::<u32>::new());
}

#[test]
fn review_notifications_come_out_in_order() {
    let mut client = ReviewSystem::new();
    let id = client.submit_review(4, generate(1), 2, String::from("Meh"), NOW).unwrap();
    client.upvote_review(id, generate(2)).unwrap();
    assert_eq!(
        client.take_events(),
        vec![
            Event::Reviewed(Reviewed { review_id: 1, contract_id: 4, rating: 2 }),
            Event::Upvoted(Upvoted { review_id: 1, voter: generate(2) }),
        ]
    );
    assert!(client.take_events().is_empty());
}

#[test]
fn review_error_codes() {
    assert_eq!(Error::InvalidRating.code(), 1);
    assert_eq!(Error::AlreadyReviewed.code(), 2);
    assert_eq!(Error::ReviewNotFound.code(), 3);
    assert_eq!(Error::EmptyComment.code(), 4);
    assert_eq!(Error::CommentTooLong.code(), 5);
    assert_eq!(Error::UnauthorizedAction.code(), 6);
    assert_eq!(Error::AlreadyVoted.code(), 7);
    assert_eq!(Error::CannotReviewOwnContract.code(), 8);
}
