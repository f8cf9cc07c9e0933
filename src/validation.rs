//! Length checks on the texts that commands take, each against its own
//! configured constraint.
use crate::error::ForumError;
use crate::forum::Forum;
use vstd::prelude::*;

verus! {

impl Forum {
    pub fn ensure_category_title_is_valid(&self, title: &Vec<u8>) -> (r: Result<(), ForumError>)
        ensures
            r == self.category_title_constraint.validation(
                title@.len() as int,
                ForumError::TitleTooShort,
                ForumError::TitleTooLong,
            ),
    {
        self.category_title_constraint.ensure_valid(
            title.len(),
            ForumError::TitleTooShort,
            ForumError::TitleTooLong,
        )
    }

    pub fn ensure_category_description_is_valid(&self, description: &Vec<u8>) -> (r: Result<
        (),
        ForumError,
    >)
        ensures
            r == self.category_description_constraint.validation(
                description@.len() as int,
                ForumError::DescriptionTooShort,
                ForumError::DescriptionTooLong,
            ),
    {
        self.category_description_constraint.ensure_valid(
            description.len(),
            ForumError::DescriptionTooShort,
            ForumError::DescriptionTooLong,
        )
    }

    pub fn ensure_thread_moderation_rationale_is_valid(&self, rationale: &Vec<u8>) -> (r: Result<
        (),
        ForumError,
    >)
        ensures
            r == self.thread_moderation_rationale_constraint.validation(
                rationale@.len() as int,
                ForumError::ThreadRationaleTooShort,
                ForumError::ThreadRationaleTooLong,
            ),
    {
        self.thread_moderation_rationale_constraint.ensure_valid(
            rationale.len(),
            ForumError::ThreadRationaleTooShort,
            ForumError::ThreadRationaleTooLong,
        )
    }

    pub fn ensure_thread_title_is_valid(&self, title: &Vec<u8>) -> (r: Result<(), ForumError>)
        ensures
            r == self.thread_title_constraint.validation(
                title@.len() as int,
                ForumError::ThreadTitleTooShort,
                ForumError::ThreadTitleTooLong,
            ),
    {
        self.thread_title_constraint.ensure_valid(
            title.len(),
            ForumError::ThreadTitleTooShort,
            ForumError::ThreadTitleTooLong,
        )
    }

    pub fn ensure_post_text_is_valid(&self, text: &Vec<u8>) -> (r: Result<(), ForumError>)
        ensures
            r == self.post_text_constraint.validation(
                text@.len() as int,
                ForumError::PostTextTooShort,
                ForumError::PostTextTooLong,
            ),
    {
        self.post_text_constraint.ensure_valid(
            text.len(),
            ForumError::PostTextTooShort,
            ForumError::PostTextTooLong,
        )
    }

    pub fn ensure_post_moderation_rationale_is_valid(&self, rationale: &Vec<u8>) -> (r: Result<
        (),
        ForumError,
    >)
        ensures
            r == self.post_moderation_rationale_constraint.validation(
                rationale@.len() as int,
                ForumError::PostRationaleTooShort,
                ForumError::PostRationaleTooLong,
            ),
    {
        self.post_moderation_rationale_constraint.ensure_valid(
            rationale.len(),
            ForumError::PostRationaleTooShort,
            ForumError::PostRationaleTooLong,
        )
    }
}

} // verus!
