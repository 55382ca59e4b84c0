use vstd::prelude::*;
use crate::principal::Principal;

verus! {

/// Why an operation on reviews was refused.
#[derive(Clone, Copy, Debug, PartialEq, Eq, PartialOrd, Ord, Structural)]
pub enum Error {
    InvalidRating,
    AlreadyReviewed,
    ReviewNotFound,
    EmptyComment,
    CommentTooLong,
    UnauthorizedAction,
    AlreadyVoted,
    CannotReviewOwnContract,
}

impl Error {
    /// The number under which the error is reported.
    pub fn code(self) -> (r: u32)
        ensures
            r == match self {
                Error::InvalidRating => 1u32,
                Error::AlreadyReviewed => 2u32,
                Error::ReviewNotFound => 3u32,
                Error::EmptyComment => 4u32,
                Error::CommentTooLong => 5u32,
                Error::UnauthorizedAction => 6u32,
                Error::AlreadyVoted => 7u32,
                Error::CannotReviewOwnContract => 8u32,
            },
    {
        match self {
            Error::InvalidRating => 1,
            Error::AlreadyReviewed => 2,
            Error::ReviewNotFound => 3,
            Error::EmptyComment => 4,
            Error::CommentTooLong => 5,
            Error::UnauthorizedAction => 6,
            Error::AlreadyVoted => 7,
            Error::CannotReviewOwnContract => 8,
        }
    }
}

/// One principal's rating of one contract, with a comment.
#[derive(Debug, PartialEq)]
pub struct Review {
    pub review_id: u32,
    pub contract_id: u32,
    pub reviewer: Principal,
    pub rating: u32,
    pub comment: String,
    pub created_at: u64,
    pub upvotes: u32,
}

/// The mathematical content of a [`Review`].
pub ghost struct ReviewView {
    pub review_id: u32,
    pub contract_id: u32,
    pub reviewer: Seq<char>,
    pub rating: u32,
    pub comment: Seq<char>,
    pub created_at: u64,
    pub upvotes: u32,
}

impl View for Review {
    type V = ReviewView;

    open spec fn view(&self) -> ReviewView {
        ReviewView {
            review_id: self.review_id,
            contract_id: self.contract_id,
            reviewer: self.reviewer@,
            rating: self.rating,
            comment: self.comment@,
            created_at: self.created_at,
            upvotes: self.upvotes,
        }
    }
}

impl Clone for Review {
    fn clone(&self) -> (r: Self)
        ensures
            r@ == self@,
    {
        Review {
            review_id: self.review_id,
            contract_id: self.contract_id,
            reviewer: self.reviewer.clone(),
            rating: self.rating,
            comment: self.comment.clone(),
            created_at: self.created_at,
            upvotes: self.upvotes,
        }
    }
}

/// The ratings of one contract in sum: how many there are, a hundred times
/// their mean, and how many of each of the ratings 1 to 5.
#[derive(Debug, PartialEq)]
pub struct ReviewSummary {
    pub contract_id: u32,
    pub total_reviews: u32,
    pub average_rating: u32,
    pub rating_distribution: Vec<u32>,
}

/// The mathematical content of a [`ReviewSummary`].
pub ghost struct ReviewSummaryView {
    pub contract_id: u32,
    pub total_reviews: u32,
    pub average_rating: u32,
    pub rating_distribution: Seq<u32>,
}

impl View for ReviewSummary {
    type V = ReviewSummaryView;

    open spec fn view(&self) -> ReviewSummaryView {
        ReviewSummaryView {
            contract_id: self.contract_id,
            total_reviews: self.total_reviews,
            average_rating: self.average_rating,
            rating_distribution: self.rating_distribution@,
        }
    }
}

} // verus!
