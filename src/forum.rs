//! The state of a forum, its well-formedness, and the checks that gate its
//! commands.
use crate::constraint::InputValidationLengthConstraint;
use crate::error::ForumError;
use crate::numbering::numbered_one_to;
use crate::records::{Category, ForumUser, ForumUserRegistry, Post, Thread};
use crate::{AccountId, CategoryId, PostId, ThreadId};
use std::collections::BTreeMap;
use vstd::prelude::*;

verus! {

broadcast use vstd::std_specs::btree::group_btree_axioms, vstd::laws_cmp::group_laws_cmp;

/// What a successful command reports.
#[derive(Debug, Clone, Copy, PartialEq, Eq, Structural)]
pub enum Event {
    /// A category was created.
    CategoryCreated(CategoryId),
    /// A category was updated; the flags are the new archival and deletion
    /// status, where the call changed them.
    CategoryUpdated(CategoryId, Option<bool>, Option<bool>),
    ThreadCreated(ThreadId),
    ThreadModerated(ThreadId),
    PostAdded(PostId),
    PostModerated(PostId),
    /// The text of a post was replaced; the number is how many texts the
    /// post has had replaced so far, this edit included.
    PostTextUpdated(PostId, u64),
    /// The sudo role moved from the first account to the second.
    ForumSudoSet(Option<AccountId>, Option<AccountId>),
}

/// The configuration a forum starts from.
#[derive(Debug, Clone, Copy, PartialEq, Eq, Structural)]
pub struct GenesisConfig {
    pub next_category_id: CategoryId,
    pub next_thread_id: ThreadId,
    pub next_post_id: PostId,
    pub forum_sudo: Option<AccountId>,
    /// The greatest depth of a category; a root category has depth 0.
    pub max_category_depth: u8,
    pub category_title_constraint: InputValidationLengthConstraint,
    pub category_description_constraint: InputValidationLengthConstraint,
    pub thread_title_constraint: InputValidationLengthConstraint,
    pub post_text_constraint: InputValidationLengthConstraint,
    pub thread_moderation_rationale_constraint: InputValidationLengthConstraint,
    pub post_moderation_rationale_constraint: InputValidationLengthConstraint,
}

/// The whole state of a forum. Records are never removed: deletion,
/// archival and moderation are flags.
pub struct Forum {
    pub category_by_id: BTreeMap<CategoryId, Category>,
    /// Identifier of the next category to be created.
    pub next_category_id: CategoryId,
    pub thread_by_id: BTreeMap<ThreadId, Thread>,
    pub next_thread_id: ThreadId,
    pub post_by_id: BTreeMap<PostId, Post>,
    pub next_post_id: PostId,
    /// The account allowed to manage categories and to moderate.
    pub forum_sudo: Option<AccountId>,
    pub max_category_depth: u8,
    pub category_title_constraint: InputValidationLengthConstraint,
    pub category_description_constraint: InputValidationLengthConstraint,
    pub thread_title_constraint: InputValidationLengthConstraint,
    pub post_text_constraint: InputValidationLengthConstraint,
    pub thread_moderation_rationale_constraint: InputValidationLengthConstraint,
    pub post_moderation_rationale_constraint: InputValidationLengthConstraint,
    /// Depth of each category in its tree.
    pub category_depth: Ghost<Map<CategoryId, nat>>,
}

/// The parent of a category, if it is not a root.
pub open spec fn parent_of(c: Category) -> Option<CategoryId> {
    match c.position_in_parent_category {
        Some(pos) => Some(pos.parent_id),
        None => None,
    }
}

/// Categories created directly under `c`.
pub open spec fn subcategories_of(cats: Map<CategoryId, Category>, c: CategoryId) -> Set<CategoryId> {
    cats.dom().filter(|k: CategoryId| parent_of(cats[k]) == Some(c))
}

/// The number of each category among the subcategories of its parent.
pub open spec fn child_nr(cats: Map<CategoryId, Category>) -> spec_fn(CategoryId) -> int {
    |k: CategoryId|
        match cats[k].position_in_parent_category {
            Some(pos) => pos.child_nr_in_parent_category as int,
            None => 0,
        }
}

/// Threads created directly in category `c`.
pub open spec fn threads_in(threads: Map<ThreadId, Thread>, c: CategoryId) -> Set<ThreadId> {
    threads.dom().filter(|t: ThreadId| threads[t].category_id == c)
}

/// Unmoderated threads directly in category `c`.
pub open spec fn unmoderated_threads_in(threads: Map<ThreadId, Thread>, c: CategoryId) -> Set<
    ThreadId,
> {
    threads_in(threads, c).filter(|t: ThreadId| threads[t].moderation is None)
}

/// Moderated threads directly in category `c`.
pub open spec fn moderated_threads_in(threads: Map<ThreadId, Thread>, c: CategoryId) -> Set<
    ThreadId,
> {
    threads_in(threads, c).filter(|t: ThreadId| threads[t].moderation is Some)
}

/// The number of each thread in its category.
pub open spec fn thread_nr(threads: Map<ThreadId, Thread>) -> spec_fn(ThreadId) -> int {
    |t: ThreadId| threads[t].nr_in_category as int
}

/// Posts added to thread `t`.
pub open spec fn posts_in(posts: Map<PostId, Post>, t: ThreadId) -> Set<PostId> {
    posts.dom().filter(|p: PostId| posts[p].thread_id == t)
}

/// Unmoderated posts of thread `t`.
pub open spec fn unmoderated_posts_in(posts: Map<PostId, Post>, t: ThreadId) -> Set<PostId> {
    posts_in(posts, t).filter(|p: PostId| posts[p].moderation is None)
}

/// Moderated posts of thread `t`.
pub open spec fn moderated_posts_in(posts: Map<PostId, Post>, t: ThreadId) -> Set<PostId> {
    posts_in(posts, t).filter(|p: PostId| posts[p].moderation is Some)
}

/// The number of each post in its thread.
pub open spec fn post_nr(posts: Map<PostId, Post>) -> spec_fn(PostId) -> int {
    |p: PostId| posts[p].nr_in_thread as int
}

/// The error of a failed validation, if any.
pub open spec fn error_of(r: Result<(), ForumError>) -> Option<ForumError> {
    match r {
        Ok(_) => None,
        Err(e) => Some(e),
    }
}

impl Forum {
    pub open spec fn cats(self) -> Map<CategoryId, Category> {
        self.category_by_id@
    }

    pub open spec fn threads(self) -> Map<ThreadId, Thread> {
        self.thread_by_id@
    }

    pub open spec fn posts(self) -> Map<PostId, Post> {
        self.post_by_id@
    }

    /// Depth of category `c`: 0 for a root, one more than its parent's
    /// otherwise.
    pub open spec fn depth(self, c: CategoryId) -> nat {
        self.category_depth@[c]
    }

    /// The configuration is the same in both states.
    pub open spec fn same_settings(self, other: Forum) -> bool {
        &&& self.forum_sudo == other.forum_sudo
        &&& self.max_category_depth == other.max_category_depth
        &&& self.category_title_constraint == other.category_title_constraint
        &&& self.category_description_constraint == other.category_description_constraint
        &&& self.thread_title_constraint == other.thread_title_constraint
        &&& self.post_text_constraint == other.post_text_constraint
        &&& self.thread_moderation_rationale_constraint
            == other.thread_moderation_rationale_constraint
        &&& self.post_moderation_rationale_constraint == other.post_moderation_rationale_constraint
    }

    pub open spec fn category_wf(self, c: CategoryId) -> bool {
        let cat = self.cats()[c];
        &&& cat.id == c
        &&& c < self.next_category_id
        &&& self.category_depth@.contains_key(c)
        &&& self.depth(c) <= self.max_category_depth
        &&& match cat.position_in_parent_category {
            None => self.depth(c) == 0,
            Some(pos) => {
                &&& self.cats().contains_key(pos.parent_id)
                &&& self.depth(c) == self.depth(pos.parent_id) + 1
            },
        }
        &&& numbered_one_to(
            subcategories_of(self.cats(), c),
            child_nr(self.cats()),
            cat.num_direct_subcategories as int,
        )
        &&& unmoderated_threads_in(self.threads(), c).len() == cat.num_direct_unmoderated_threads
        &&& moderated_threads_in(self.threads(), c).len() == cat.num_direct_moderated_threads
        &&& cat.threads_ever_created() <= u32::MAX
        &&& numbered_one_to(
            threads_in(self.threads(), c),
            thread_nr(self.threads()),
            cat.threads_ever_created(),
        )
    }

    pub open spec fn thread_wf(self, t: ThreadId) -> bool {
        let th = self.threads()[t];
        &&& th.id == t
        &&& t < self.next_thread_id
        &&& self.cats().contains_key(th.category_id)
        &&& unmoderated_posts_in(self.posts(), t).len() == th.num_unmoderated_posts
        &&& moderated_posts_in(self.posts(), t).len() == th.num_moderated_posts
        &&& th.posts_ever_created() <= u32::MAX
        &&& numbered_one_to(posts_in(self.posts(), t), post_nr(self.posts()), th.posts_ever_created())
    }

    pub open spec fn post_wf(self, p: PostId) -> bool {
        let post = self.posts()[p];
        &&& post.id == p
        &&& p < self.next_post_id
        &&& self.threads().contains_key(post.thread_id)
    }

    /// The invariant of a forum: records are keyed by their own identifier,
    /// below the next one to be allocated; every reference points to an
    /// existing record; depths follow the tree and stay within the maximum;
    /// every counter equals the number of records it counts; and sequence
    /// numbers run from 1 to the number of records ever added.
    pub open spec fn wf(self) -> bool {
        &&& forall|c: CategoryId| #[trigger] self.cats().contains_key(c) ==> self.category_wf(c)
        &&& forall|t: ThreadId| #[trigger] self.threads().contains_key(t) ==> self.thread_wf(t)
        &&& forall|p: PostId| #[trigger] self.posts().contains_key(p) ==> self.post_wf(p)
    }

    /// The path from category `c` up to its root: `c`, its parent, and so on.
    pub open spec fn tree_path(self, c: CategoryId) -> Seq<CategoryId>
        decreases self.depth(c),
    {
        match parent_of(self.cats()[c]) {
            Some(p) => if self.depth(p) < self.depth(c) {
                seq![c] + self.tree_path(p)
            } else {
                seq![c]
            },
            None => seq![c],
        }
    }

    /// Category `c` is neither archived nor deleted.
    pub open spec fn category_unlocked(self, c: CategoryId) -> bool {
        !self.cats()[c].archived && !self.cats()[c].deleted
    }

    /// No category on `path` is archived or deleted.
    pub open spec fn path_is_mutable(self, path: Seq<CategoryId>) -> bool {
        forall|i: int| 0 <= i < path.len() ==> self.category_unlocked(#[trigger] path[i])
    }

    /// Neither `c` nor any of its ancestors is archived or deleted.
    pub open spec fn can_mutate_in(self, c: CategoryId) -> bool {
        self.path_is_mutable(self.tree_path(c))
    }

    /// No strict ancestor of `c` is archived or deleted.
    pub open spec fn ancestors_mutable(self, c: CategoryId) -> bool {
        match parent_of(self.cats()[c]) {
            Some(p) => self.can_mutate_in(p),
            None => true,
        }
    }

    /// What stays fixed about a category for good, and what only grows.
    pub open spec fn category_kept(a: Category, b: Category) -> bool {
        &&& b.id == a.id
        &&& b.title == a.title
        &&& b.description == a.description
        &&& b.created_at == a.created_at
        &&& b.position_in_parent_category == a.position_in_parent_category
        &&& b.moderator_id == a.moderator_id
        &&& b.num_direct_subcategories >= a.num_direct_subcategories
        &&& b.threads_ever_created() >= a.threads_ever_created()
    }

    /// What stays fixed about a thread for good, and what only grows; a
    /// moderation, once attached, stays as it is.
    pub open spec fn thread_kept(a: Thread, b: Thread) -> bool {
        &&& b.id == a.id
        &&& b.title == a.title
        &&& b.category_id == a.category_id
        &&& b.nr_in_category == a.nr_in_category
        &&& b.created_at == a.created_at
        &&& b.author_id == a.author_id
        &&& (a.moderation is Some ==> b.moderation == a.moderation)
        &&& b.posts_ever_created() >= a.posts_ever_created()
    }

    /// What stays fixed about a post for good; its edit history only grows
    /// at the end, and a moderation, once attached, stays as it is.
    pub open spec fn post_kept(a: Post, b: Post) -> bool {
        &&& b.id == a.id
        &&& b.thread_id == a.thread_id
        &&& b.nr_in_thread == a.nr_in_thread
        &&& b.created_at == a.created_at
        &&& b.author_id == a.author_id
        &&& (a.moderation is Some ==> b.moderation == a.moderation)
        &&& a.text_change_history@.is_prefix_of(b.text_change_history@)
    }

    /// `next` keeps every record of `self`, with what is fixed about it
    /// unchanged and its counters not smaller; identifiers are not reused.
    pub open spec fn evolves_to(self, next: Forum) -> bool {
        &&& self.next_category_id <= next.next_category_id
        &&& self.next_thread_id <= next.next_thread_id
        &&& self.next_post_id <= next.next_post_id
        &&& forall|c: CategoryId| #[trigger]
            self.cats().contains_key(c) ==> next.cats().contains_key(c) && Self::category_kept(
                self.cats()[c],
                next.cats()[c],
            )
        &&& forall|t: ThreadId| #[trigger]
            self.threads().contains_key(t) ==> next.threads().contains_key(t)
                && Self::thread_kept(self.threads()[t], next.threads()[t])
        &&& forall|p: PostId| #[trigger]
            self.posts().contains_key(p) ==> next.posts().contains_key(p) && Self::post_kept(
                self.posts()[p],
                next.posts()[p],
            )
    }

    /// Why `who` fails the sudo check, if it does.
    pub open spec fn sudo_error(self, who: AccountId) -> Option<ForumError> {
        match self.forum_sudo {
            None => Some(ForumError::SudoNotSet),
            Some(s) => if s == who {
                None
            } else {
                Some(ForumError::NotSudo)
            },
        }
    }

    /// Why thread `t` cannot take changes, if it cannot: it is missing, it
    /// is moderated, or its category is locked.
    pub open spec fn thread_error(self, t: ThreadId) -> Option<ForumError> {
        if !self.threads().contains_key(t) {
            Some(ForumError::ThreadNotFound)
        } else if self.threads()[t].moderation is Some {
            Some(ForumError::ThreadModerated)
        } else if !self.can_mutate_in(self.threads()[t].category_id) {
            Some(ForumError::AncestorImmutable)
        } else {
            None
        }
    }

    /// Why post `p` cannot take changes, if it cannot; `moderated` is the
    /// error for a post that is itself moderated.
    pub open spec fn post_error(self, p: PostId, moderated: ForumError) -> Option<ForumError> {
        if !self.posts().contains_key(p) {
            Some(ForumError::PostNotFound)
        } else if self.posts()[p].moderation is Some {
            Some(moderated)
        } else {
            self.thread_error(self.posts()[p].thread_id)
        }
    }
}

impl Forum {
    /// A forum with no records, set up from `config`.
    pub fn from_genesis(config: GenesisConfig) -> (r: Forum)
        ensures
            r.wf(),
            r.cats() == Map::<CategoryId, Category>::empty(),
            r.threads() == Map::<ThreadId, Thread>::empty(),
            r.posts() == Map::<PostId, Post>::empty(),
            r.next_category_id == config.next_category_id,
            r.next_thread_id == config.next_thread_id,
            r.next_post_id == config.next_post_id,
            r.forum_sudo == config.forum_sudo,
            r.max_category_depth == config.max_category_depth,
            r.category_title_constraint == config.category_title_constraint,
            r.category_description_constraint == config.category_description_constraint,
            r.thread_title_constraint == config.thread_title_constraint,
            r.post_text_constraint == config.post_text_constraint,
            r.thread_moderation_rationale_constraint
                == config.thread_moderation_rationale_constraint,
            r.post_moderation_rationale_constraint == config.post_moderation_rationale_constraint,
    {
        Forum {
            category_by_id: BTreeMap::new(),
            next_category_id: config.next_category_id,
            thread_by_id: BTreeMap::new(),
            next_thread_id: config.next_thread_id,
            post_by_id: BTreeMap::new(),
            next_post_id: config.next_post_id,
            forum_sudo: config.forum_sudo,
            max_category_depth: config.max_category_depth,
            category_title_constraint: config.category_title_constraint,
            category_description_constraint: config.category_description_constraint,
            thread_title_constraint: config.thread_title_constraint,
            post_text_constraint: config.post_text_constraint,
            thread_moderation_rationale_constraint: config.thread_moderation_rationale_constraint,
            post_moderation_rationale_constraint: config.post_moderation_rationale_constraint,
            category_depth: Ghost(Map::empty()),
        }
    }

    /// Every state evolves to itself.
    pub proof fn lemma_evolves_to_reflexive(self)
        ensures
            self.evolves_to(self),
    {
    }

    /// What is kept from one state to a second, and from the second to a
    /// third, is kept from the first to the third.
    pub proof fn lemma_evolves_to_transitive(a: Forum, b: Forum, c: Forum)
        requires
            a.evolves_to(b),
            b.evolves_to(c),
        ensures
            a.evolves_to(c),
    {
        assert forall|p: PostId| #[trigger] a.posts().contains_key(p) implies c.posts().contains_key(p)
            && Self::post_kept(a.posts()[p], c.posts()[p]) by {
            assert(b.posts().contains_key(p));
            let ha = a.posts()[p].text_change_history@;
            let hb = b.posts()[p].text_change_history@;
            let hc = c.posts()[p].text_change_history@;
            assert(ha =~= hc.subrange(0, ha.len() as int)) by {
                assert forall|i: int| 0 <= i < ha.len() implies ha[i] == hc.subrange(
                    0,
                    ha.len() as int,
                )[i] by {
                    assert(ha[i] == hb.subrange(0, ha.len() as int)[i]);
                    assert(hb[i] == hc.subrange(0, hb.len() as int)[i]);
                }
            }
        }
        assert forall|t: ThreadId| #[trigger] a.threads().contains_key(t) implies c.threads().contains_key(t)
            && Self::thread_kept(a.threads()[t], c.threads()[t]) by {
            assert(b.threads().contains_key(t));
        }
        assert forall|k: CategoryId| #[trigger] a.cats().contains_key(k) implies c.cats().contains_key(k)
            && Self::category_kept(a.cats()[k], c.cats()[k]) by {
            assert(b.cats().contains_key(k));
        }
    }

    /// The path of an existing category has one entry per level, starts at
    /// the category itself and holds existing categories only.
    pub proof fn lemma_tree_path(self, c: CategoryId)
        requires
            self.wf(),
            self.cats().contains_key(c),
        ensures
            self.tree_path(c).len() == self.depth(c) + 1,
            self.tree_path(c)[0] == c,
            forall|i: int|
                0 <= i < self.tree_path(c).len() ==> self.cats().contains_key(
                    #[trigger] self.tree_path(c)[i],
                ),
            parent_of(self.cats()[c]) matches Some(p) ==> self.tree_path(c) == seq![c]
                + self.tree_path(p),
            parent_of(self.cats()[c]) is None ==> self.tree_path(c) == seq![c],
        decreases self.depth(c),
    {
        assert(self.category_wf(c));
        match parent_of(self.cats()[c]) {
            Some(p) => {
                self.lemma_tree_path(p);
                let path = self.tree_path(c);
                assert forall|i: int| 0 <= i < path.len() implies self.cats().contains_key(
                    #[trigger] path[i],
                ) by {
                    if i > 0 {
                        assert(path[i] == self.tree_path(p)[i - 1]);
                    }
                }
            },
            None => {},
        }
    }

    /// The path from category `c` up to its root.
    pub fn build_category_tree_path(&self, c: CategoryId) -> (path: Vec<CategoryId>)
        requires
            self.wf(),
            self.cats().contains_key(c),
        ensures
            path@ == self.tree_path(c),
    {
        let mut path: Vec<CategoryId> = Vec::new();
        let mut cur: CategoryId = c;
        loop
            invariant
                self.wf(),
                self.cats().contains_key(cur),
                path@ + self.tree_path(cur) == self.tree_path(c),
            decreases self.depth(cur),
        {
            proof {
                self.lemma_tree_path(cur);
            }
            let cat = self.category_by_id.get(&cur).unwrap();
            path.push(cur);
            match cat.position_in_parent_category {
                Some(pos) => {
                    proof {
                        assert(self.category_wf(cur));
                        assert(path@ + self.tree_path(pos.parent_id) == self.tree_path(c));
                    }
                    cur = pos.parent_id;
                },
                None => {
                    proof {
                        assert(path@ == self.tree_path(c));
                    }
                    return path;
                },
            }
        }
    }

    /// Accepts a path on which no category is archived or deleted.
    pub fn ensure_can_mutate_in_path_leaf(&self, path: &Vec<CategoryId>) -> (r: Result<
        (),
        ForumError,
    >)
        requires
            forall|i: int| 0 <= i < path@.len() ==> self.cats().contains_key(#[trigger] path@[i]),
        ensures
            r == (if self.path_is_mutable(path@) {
                Ok::<(), ForumError>(())
            } else {
                Err(ForumError::AncestorImmutable)
            }),
    {
        let mut i: usize = 0;
        while i < path.len()
            invariant
                0 <= i <= path@.len(),
                forall|j: int| 0 <= j < path@.len() ==> self.cats().contains_key(#[trigger] path@[j]),
                forall|j: int| 0 <= j < i ==> self.category_unlocked(#[trigger] path@[j]),
            decreases path@.len() - i,
        {
            let cat = self.category_by_id.get(&path[i]).unwrap();
            if cat.deleted || cat.archived {
                return Err(ForumError::AncestorImmutable);
            }
            i = i + 1;
        }
        Ok(())
    }

    /// Accepts a category in which neither it nor an ancestor is archived
    /// or deleted.
    pub fn ensure_catgory_is_mutable(&self, c: CategoryId) -> (r: Result<(), ForumError>)
        requires
            self.wf(),
            self.cats().contains_key(c),
        ensures
            r == (if self.can_mutate_in(c) {
                Ok::<(), ForumError>(())
            } else {
                Err(ForumError::AncestorImmutable)
            }),
    {
        proof {
            self.lemma_tree_path(c);
        }
        let path = self.build_category_tree_path(c);
        self.ensure_can_mutate_in_path_leaf(&path)
    }

    /// The sudo account, if one is set.
    pub fn ensure_forum_sudo_set(&self) -> (r: Result<AccountId, ForumError>)
        ensures
            r == (match self.forum_sudo {
                Some(s) => Ok::<AccountId, ForumError>(s),
                None => Err(ForumError::SudoNotSet),
            }),
    {
        match self.forum_sudo {
            Some(s) => Ok(s),
            None => Err(ForumError::SudoNotSet),
        }
    }

    /// Accepts the sudo account only.
    pub fn ensure_is_forum_sudo(&self, who: AccountId) -> (r: Result<(), ForumError>)
        ensures
            r == (match self.sudo_error(who) {
                Some(e) => Err(e),
                None => Ok::<(), ForumError>(()),
            }),
    {
        let sudo: AccountId = self.ensure_forum_sudo_set()?;
        if who == sudo {
            Ok(())
        } else {
            Err(ForumError::NotSudo)
        }
    }

    /// The member record of `who`, if the registry knows the account.
    pub fn ensure_is_forum_member<R: ForumUserRegistry>(registry: &R, who: AccountId) -> (r: Result<
        ForumUser,
        ForumError,
    >)
        ensures
            r == (if registry.is_registered(who) {
                Ok::<ForumUser, ForumError>(ForumUser { id: who })
            } else {
                Err(ForumError::NotAMember)
            }),
    {
        match registry.get_forum_user(&who) {
            Some(user) => Ok(user),
            None => Err(ForumError::NotAMember),
        }
    }

    /// Hands over the sudo role, or clears it with `None`; only the current
    /// sudo may do so.
    pub fn set_forum_sudo(&mut self, who: AccountId, new_forum_sudo: Option<AccountId>) -> (r:
        Result<Event, ForumError>)
        requires
            old(self).wf(),
        ensures
            final(self).wf(),
            match old(self).sudo_error(who) {
                Some(e) => r == Err::<Event, ForumError>(e) && *final(self) == *old(self),
                None => {
                    &&& r == Ok::<Event, ForumError>(
                        Event::ForumSudoSet(old(self).forum_sudo, new_forum_sudo),
                    )
                    &&& *final(self) == (Forum { forum_sudo: new_forum_sudo, ..*old(self) })
                },
            },
    {
        self.ensure_is_forum_sudo(who)?;
        let old_forum_sudo = self.forum_sudo;
        self.forum_sudo = new_forum_sudo;
        proof {
            assert forall|c: CategoryId| #[trigger] self.cats().contains_key(c) implies self.category_wf(c) by {
                assert(old(self).category_wf(c));
            }
            assert forall|t: ThreadId| #[trigger] self.threads().contains_key(t) implies self.thread_wf(t) by {
                assert(old(self).thread_wf(t));
            }
            assert forall|p: PostId| #[trigger] self.posts().contains_key(p) implies self.post_wf(p) by {
                assert(old(self).post_wf(p));
            }
        }
        Ok(Event::ForumSudoSet(old_forum_sudo, new_forum_sudo))
    }
}

} // verus!
