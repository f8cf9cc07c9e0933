use vstd::prelude::*;

verus! {

/// Every way in which a forum command can be refused.
#[derive(Debug, Clone, Copy, PartialEq, Eq, Structural)]
pub enum ForumError {
    /// No account holds the forum sudo role.
    SudoNotSet,
    /// The caller is not the forum sudo.
    NotSudo,
    /// The caller is not a registered forum member.
    NotAMember,
    /// A category title is shorter than allowed.
    TitleTooShort,
    /// A category title is longer than allowed.
    TitleTooLong,
    /// A category description is shorter than allowed.
    DescriptionTooShort,
    /// A category description is longer than allowed.
    DescriptionTooLong,
    /// A thread title is shorter than allowed.
    ThreadTitleTooShort,
    /// A thread title is longer than allowed.
    ThreadTitleTooLong,
    /// A post text is shorter than allowed.
    PostTextTooShort,
    /// A post text is longer than allowed.
    PostTextTooLong,
    /// A thread moderation rationale is shorter than allowed.
    ThreadRationaleTooShort,
    /// A thread moderation rationale is longer than allowed.
    ThreadRationaleTooLong,
    /// A post moderation rationale is shorter than allowed.
    PostRationaleTooShort,
    /// A post moderation rationale is longer than allowed.
    PostRationaleTooLong,
    /// No category has the given identifier.
    CategoryNotFound,
    /// No thread has the given identifier.
    ThreadNotFound,
    /// No post has the given identifier.
    PostNotFound,
    /// The category, or one of its ancestors, is archived or deleted.
    AncestorImmutable,
    /// The new category would lie deeper than the configured maximum depth.
    MaxDepthExceeded,
    /// A category update that changes neither flag.
    NothingToUpdate,
    /// A deleted category can only be updated together with an undelete.
    CannotUnarchiveWhileDeleted,
    /// The thread to moderate is moderated already.
    ThreadAlreadyModerated,
    /// The post to moderate is moderated already.
    PostAlreadyModerated,
    /// The thread is moderated, so nothing may be added or changed in it.
    ThreadModerated,
    /// The post is moderated, so it can no longer be edited.
    PostModerated,
    /// Only the author of a post may edit its text.
    NotPostAuthor,
}

} // verus!
