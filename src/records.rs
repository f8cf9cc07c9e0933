use crate::{AccountId, BlockNumber, CategoryId, Moment, PostId, ThreadId};
use vstd::prelude::*;

verus! {

/// Block height and wall-clock time at which something happened.
#[derive(Debug, Clone, Copy, PartialEq, Eq, Structural)]
pub struct BlockchainTimestamp {
    pub block: BlockNumber,
    pub time: Moment,
}

/// A moderation decision attached to a thread or a post. Once attached it is
/// never removed or replaced.
#[derive(Debug, Clone, PartialEq, Eq)]
pub struct ModerationAction {
    /// When the action was taken.
    pub moderated_at: BlockchainTimestamp,
    /// The forum sudo account that acted.
    pub moderator_id: AccountId,
    /// Why the content was moderated.
    pub rationale: Vec<u8>,
}

/// A text of a post that was replaced by an edit.
#[derive(Debug, Clone, PartialEq, Eq)]
pub struct PostTextChange {
    /// When the text was replaced.
    pub expired_at: BlockchainTimestamp,
    /// The replaced text.
    pub text: Vec<u8>,
}

/// A post in a thread.
#[derive(Debug, Clone, PartialEq, Eq)]
pub struct Post {
    pub id: PostId,
    /// The thread this post belongs to.
    pub thread_id: ThreadId,
    /// Number of posts ever added to the thread when this one was added,
    /// this one included: the first post of a thread has number 1.
    pub nr_in_thread: u32,
    pub current_text: Vec<u8>,
    pub moderation: Option<ModerationAction>,
    /// Earlier texts of the post, oldest first.
    pub text_change_history: Vec<PostTextChange>,
    pub created_at: BlockchainTimestamp,
    pub author_id: AccountId,
}

/// A thread in a category.
#[derive(Debug, Clone, PartialEq, Eq)]
pub struct Thread {
    pub id: ThreadId,
    pub title: Vec<u8>,
    /// The category this thread lives in.
    pub category_id: CategoryId,
    /// Number of threads ever created in the category when this one was,
    /// this one included: the first thread of a category has number 1.
    pub nr_in_category: u32,
    pub moderation: Option<ModerationAction>,
    /// Posts of this thread that are not moderated.
    pub num_unmoderated_posts: u32,
    /// Posts of this thread that are moderated. The sum of both counters is
    /// the number of posts ever added, and never decreases.
    pub num_moderated_posts: u32,
    pub created_at: BlockchainTimestamp,
    pub author_id: AccountId,
}

impl Thread {
    pub open spec fn posts_ever_created(self) -> int {
        self.num_unmoderated_posts + self.num_moderated_posts
    }

    /// Number of posts ever added to this thread.
    pub fn num_posts_ever_created(&self) -> (r: u32)
        requires
            self.posts_ever_created() <= u32::MAX,
        ensures
            r == self.posts_ever_created(),
    {
        self.num_unmoderated_posts + self.num_moderated_posts
    }
}

/// Where a subcategory sits under its parent.
#[derive(Debug, Clone, Copy, PartialEq, Eq, Structural)]
pub struct ChildPositionInParentCategory {
    pub parent_id: CategoryId,
    /// Number of subcategories ever created in the parent when this one was,
    /// this one included; starts at 1.
    pub child_nr_in_parent_category: u32,
}

/// A category of the forum; a root category has no position in a parent.
#[derive(Debug, Clone, PartialEq, Eq)]
pub struct Category {
    pub id: CategoryId,
    pub title: Vec<u8>,
    pub description: Vec<u8>,
    pub created_at: BlockchainTimestamp,
    pub deleted: bool,
    pub archived: bool,
    /// Subcategories ever created directly in this category.
    pub num_direct_subcategories: u32,
    /// Threads directly in this category that are not moderated.
    pub num_direct_unmoderated_threads: u32,
    /// Threads directly in this category that are moderated. The sum of both
    /// counters is the number of threads ever created here.
    pub num_direct_moderated_threads: u32,
    pub position_in_parent_category: Option<ChildPositionInParentCategory>,
    /// The forum sudo account that created the category.
    pub moderator_id: AccountId,
}

impl Category {
    pub open spec fn threads_ever_created(self) -> int {
        self.num_direct_unmoderated_threads + self.num_direct_moderated_threads
    }

    /// Number of threads ever created directly in this category.
    pub fn num_threads_created(&self) -> (r: u32)
        requires
            self.threads_ever_created() <= u32::MAX,
        ensures
            r == self.threads_ever_created(),
    {
        self.num_direct_unmoderated_threads + self.num_direct_moderated_threads
    }
}

/// A registered member of the forum.
#[derive(Debug, Clone, Copy, PartialEq, Eq, Structural)]
pub struct ForumUser {
    pub id: AccountId,
}

/// The registry that decides which accounts are forum members.
pub trait ForumUserRegistry {
    /// Whether `account` is a registered member.
    spec fn is_registered(&self, account: AccountId) -> bool;

    /// Looks up the member for `account`.
    fn get_forum_user(&self, account: &AccountId) -> (r: Option<ForumUser>)
        ensures
            r == (if self.is_registered(*account) {
                Some(ForumUser { id: *account })
            } else {
                None
            }),
    ;
}

/// A registry that holds its members as a list of accounts.
#[derive(Debug, Clone)]
pub struct ForumMembers {
    pub accounts: Vec<AccountId>,
}

impl ForumMembers {
    /// A registry without members.
    pub fn new() -> (r: Self)
        ensures
            r.accounts@ == Seq::<AccountId>::empty(),
    {
        ForumMembers { accounts: Vec::new() }
    }

    /// Registers `account` as a member.
    pub fn register(&mut self, account: AccountId)
        ensures
            final(self).accounts@ == old(self).accounts@.push(account),
    {
        self.accounts.push(account);
    }
}

impl ForumUserRegistry for ForumMembers {
    open spec fn is_registered(&self, account: AccountId) -> bool {
        self.accounts@.contains(account)
    }

    fn get_forum_user(&self, account: &AccountId) -> (r: Option<ForumUser>) {
        let mut i: usize = 0;
        while i < self.accounts.len()
            invariant
                0 <= i <= self.accounts@.len(),
                forall|j: int| 0 <= j < i ==> self.accounts@[j] != *account,
            decreases self.accounts@.len() - i,
        {
            if self.accounts[i] == *account {
                return Some(ForumUser { id: *account });
            }
            i = i + 1;
        }
        None
    }
}

} // verus!
