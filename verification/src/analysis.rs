//! From the content of the two inputs to the result list.

use crate::error::{AnalysisError, Failure, InputBlob};
use crate::parser::{parse_relationships, parsed_collection};
use crate::reconcile::{summarize, summary_of, Analysis, Summary};
use vstd::prelude::*;

verus! {

/// The content of an input as a sequence of characters, if it was obtained.
pub open spec fn content(data: Option<&str>) -> Option<Seq<char>> {
    match data {
        Some(text) => Some(text@),
        None => None,
    }
}

/// What the two inputs come to. An input that was not obtained is
/// unreadable, and both are looked at for that before either is read as
/// JSON; of two failures of the same kind that of the followers is
/// reported.
pub open spec fn analysis_of(followers: Option<Seq<char>>, following: Option<Seq<char>>) -> Result<
    Summary,
    Failure,
> {
    if followers is None {
        Err(Failure::InputUnreadable { blob: InputBlob::Followers })
    } else if following is None {
        Err(Failure::InputUnreadable { blob: InputBlob::Following })
    } else {
        match parsed_collection(InputBlob::Followers, followers->Some_0) {
            Err(failure) => Err(failure),
            Ok(follower_entries) => match parsed_collection(
                InputBlob::Following,
                following->Some_0,
            ) {
                Err(failure) => Err(failure),
                Ok(following_entries) => Ok(summary_of(follower_entries, following_entries)),
            },
        }
    }
}

/// Reads both inputs and reconciles them. `None` stands for an input whose
/// content could not be obtained.
pub fn analyze(followers_data: Option<&str>, following_data: Option<&str>) -> (outcome: Result<
    Analysis,
    AnalysisError,
>)
    ensures
        match outcome {
            Ok(analysis) => analysis_of(content(followers_data), content(following_data)) == Ok::<
                Summary,
                Failure,
            >(analysis.deep_view()),
            Err(error) => analysis_of(content(followers_data), content(following_data)) == Err::<
                Summary,
                Failure,
            >(error.deep_view()),
        },
{
    let followers_text = match followers_data {
        Some(text) => text,
        None => {
            return Err(AnalysisError::InputUnreadable { blob: InputBlob::Followers });
        },
    };
    let following_text = match following_data {
        Some(text) => text,
        None => {
            return Err(AnalysisError::InputUnreadable { blob: InputBlob::Following });
        },
    };
    let followers = match parse_relationships(InputBlob::Followers, followers_text) {
        Ok(collection) => collection,
        Err(error) => {
            return Err(error);
        },
    };
    let following = match parse_relationships(InputBlob::Following, following_text) {
        Ok(collection) => collection,
        Err(error) => {
            return Err(error);
        },
    };
    Ok(summarize(followers.entries(), following.entries()))
}

/// The result list that the two inputs come to.
pub open spec fn non_mutual_follows_of(
    followers: Option<Seq<char>>,
    following: Option<Seq<char>>,
) -> Result<Seq<Seq<char>>, Failure> {
    match analysis_of(followers, following) {
        Ok(summary) => Ok(summary.non_mutual_follows),
        Err(failure) => Err(failure),
    }
}

/// Reads both inputs and gives the names that are followed and do not
/// follow back, in ascending order. `None` stands for an input whose
/// content could not be obtained.
pub fn analyze_followers(followers_data: Option<&str>, following_data: Option<&str>) -> (outcome:
    Result<Vec<String>, AnalysisError>)
    ensures
        match outcome {
            Ok(names) => non_mutual_follows_of(content(followers_data), content(following_data))
                == Ok::<Seq<Seq<char>>, Failure>(names.deep_view()),
            Err(error) => non_mutual_follows_of(content(followers_data), content(following_data))
                == Err::<Seq<Seq<char>>, Failure>(error.deep_view()),
        },
{
    match analyze(followers_data, following_data) {
        Ok(analysis) => Ok(analysis.non_mutual_follows),
        Err(error) => Err(error),
    }
}

} // verus!
