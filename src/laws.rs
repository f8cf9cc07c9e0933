//! Properties that hold of every well-formed forum and of every command.
use crate::error::ForumError;
use crate::forum::{
    moderated_posts_in, moderated_threads_in, parent_of, post_nr, posts_in, thread_nr, threads_in,
    unmoderated_posts_in, unmoderated_threads_in, Forum,
};
use crate::numbering::lemma_numbered_covers;
use crate::{AccountId, CategoryId, PostId, ThreadId};
use vstd::prelude::*;
use vstd::set_lib::set_int_range;

verus! {

/// A root category has depth 0 and any other category lies one level below
/// its parent, within the configured maximum; the path from a category up
/// to its root has one entry per level and ends at a root.
pub proof fn lemma_category_depth(forum: Forum, c: CategoryId)
    requires
        forum.wf(),
        forum.cats().contains_key(c),
    ensures
        parent_of(forum.cats()[c]) is None ==> forum.depth(c) == 0,
        parent_of(forum.cats()[c]) matches Some(p) ==> forum.cats().contains_key(p)
            && forum.depth(c) == forum.depth(p) + 1,
        forum.depth(c) <= forum.max_category_depth,
        forum.tree_path(c).len() == forum.depth(c) + 1,
        forum.tree_path(c)[0] == c,
        parent_of(forum.cats()[forum.tree_path(c).last()]) is None,
    decreases forum.depth(c),
{
    assert(forum.category_wf(c));
    forum.lemma_tree_path(c);
    if let Some(p) = parent_of(forum.cats()[c]) {
        lemma_category_depth(forum, p);
        assert(forum.tree_path(c).last() == forum.tree_path(p).last());
    }
}

/// Once the sudo, the lengths, the parent's existence and its mutability
/// are settled, creating a category under `parent` fails with
/// `MaxDepthExceeded` exactly when the new category would lie deeper than
/// the configured maximum, and succeeds otherwise.
pub proof fn lemma_max_depth_decides(
    forum: Forum,
    who: AccountId,
    parent: CategoryId,
    title_len: int,
    description_len: int,
)
    requires
        forum.wf(),
        forum.sudo_error(who) is None,
        forum.category_title_constraint.validation(
            title_len,
            ForumError::TitleTooShort,
            ForumError::TitleTooLong,
        ) is Ok,
        forum.category_description_constraint.validation(
            description_len,
            ForumError::DescriptionTooShort,
            ForumError::DescriptionTooLong,
        ) is Ok,
        forum.cats().contains_key(parent),
        forum.can_mutate_in(parent),
    ensures
        forum.create_category_error(who, Some(parent), title_len, description_len) == Some(
            ForumError::MaxDepthExceeded,
        ) <==> forum.depth(parent) + 1 > forum.max_category_depth,
        forum.create_category_error(who, Some(parent), title_len, description_len) is None <==> forum.depth(
            parent,
        ) + 1 <= forum.max_category_depth,
{
}

/// The two thread counters of a category add up to the number of threads
/// ever created directly in it, and those threads carry the numbers `1` to
/// that sum, each once.
pub proof fn lemma_thread_count(forum: Forum, c: CategoryId)
    requires
        forum.wf(),
        forum.cats().contains_key(c),
    ensures
        threads_in(forum.threads(), c).len() == forum.cats()[c].threads_ever_created(),
        unmoderated_threads_in(forum.threads(), c).len()
            == forum.cats()[c].num_direct_unmoderated_threads,
        moderated_threads_in(forum.threads(), c).len()
            == forum.cats()[c].num_direct_moderated_threads,
        threads_in(forum.threads(), c).map(thread_nr(forum.threads())) == set_int_range(
            1,
            forum.cats()[c].threads_ever_created() + 1,
        ),
        forall|t1: ThreadId, t2: ThreadId|
            #[trigger] threads_in(forum.threads(), c).contains(t1) && #[trigger] threads_in(
                forum.threads(),
                c,
            ).contains(t2) && forum.threads()[t1].nr_in_category
                == forum.threads()[t2].nr_in_category ==> t1 == t2,
{
    assert(forum.category_wf(c));
    lemma_numbered_covers(
        threads_in(forum.threads(), c),
        thread_nr(forum.threads()),
        forum.cats()[c].threads_ever_created(),
    );
}

/// From one state to a later one, the threads of a category are kept and
/// their count never goes down.
pub proof fn lemma_thread_count_grows(pre: Forum, post: Forum, c: CategoryId)
    requires
        pre.evolves_to(post),
        pre.cats().contains_key(c),
    ensures
        post.cats().contains_key(c),
        post.cats()[c].threads_ever_created() >= pre.cats()[c].threads_ever_created(),
        threads_in(pre.threads(), c).subset_of(threads_in(post.threads(), c)),
{
    assert forall|t: ThreadId| #[trigger]
        threads_in(pre.threads(), c).contains(t) implies threads_in(post.threads(), c).contains(
        t,
    ) by {
        assert(pre.threads().contains_key(t));
    }
}

/// The two post counters of a thread add up to the number of posts ever
/// added to it, and those posts carry the numbers `1` to that sum, each once.
pub proof fn lemma_post_count(forum: Forum, t: ThreadId)
    requires
        forum.wf(),
        forum.threads().contains_key(t),
    ensures
        posts_in(forum.posts(), t).len() == forum.threads()[t].posts_ever_created(),
        unmoderated_posts_in(forum.posts(), t).len() == forum.threads()[t].num_unmoderated_posts,
        moderated_posts_in(forum.posts(), t).len() == forum.threads()[t].num_moderated_posts,
        posts_in(forum.posts(), t).map(post_nr(forum.posts())) == set_int_range(
            1,
            forum.threads()[t].posts_ever_created() + 1,
        ),
        forall|p1: PostId, p2: PostId|
            #[trigger] posts_in(forum.posts(), t).contains(p1) && #[trigger] posts_in(
                forum.posts(),
                t,
            ).contains(p2) && forum.posts()[p1].nr_in_thread == forum.posts()[p2].nr_in_thread
                ==> p1 == p2,
{
    assert(forum.thread_wf(t));
    lemma_numbered_covers(
        posts_in(forum.posts(), t),
        post_nr(forum.posts()),
        forum.threads()[t].posts_ever_created(),
    );
}

/// From one state to a later one, the posts of a thread are kept and their
/// count never goes down.
pub proof fn lemma_post_count_grows(pre: Forum, post: Forum, t: ThreadId)
    requires
        pre.evolves_to(post),
        pre.threads().contains_key(t),
    ensures
        post.threads().contains_key(t),
        post.threads()[t].posts_ever_created() >= pre.threads()[t].posts_ever_created(),
        posts_in(pre.posts(), t).subset_of(posts_in(post.posts(), t)),
{
    assert forall|p: PostId| #[trigger]
        posts_in(pre.posts(), t).contains(p) implies posts_in(post.posts(), t).contains(p) by {
        assert(pre.posts().contains_key(p));
    }
}

/// A moderated thread stays moderated as it is, and the sudo moderating it
/// again is refused with `ThreadAlreadyModerated`, which leaves the state
/// unchanged.
pub proof fn lemma_thread_moderation_is_final(
    pre: Forum,
    post: Forum,
    who: AccountId,
    t: ThreadId,
    rationale_len: int,
)
    requires
        pre.threads().contains_key(t),
        pre.threads()[t].moderation is Some,
        pre.forum_sudo == Some(who),
        pre.evolves_to(post),
    ensures
        pre.moderate_thread_error(who, t, rationale_len) == Some(ForumError::ThreadAlreadyModerated),
        post.threads()[t].moderation == pre.threads()[t].moderation,
        post.forum_sudo == Some(who) ==> post.moderate_thread_error(who, t, rationale_len) == Some(
            ForumError::ThreadAlreadyModerated,
        ),
{
}

/// A moderated post stays moderated as it is, and the sudo moderating it
/// again is refused with `PostAlreadyModerated`, which leaves the state
/// unchanged.
pub proof fn lemma_post_moderation_is_final(
    pre: Forum,
    post: Forum,
    who: AccountId,
    p: PostId,
    rationale_len: int,
)
    requires
        pre.posts().contains_key(p),
        pre.posts()[p].moderation is Some,
        pre.forum_sudo == Some(who),
        pre.evolves_to(post),
    ensures
        pre.moderate_post_error(who, p, rationale_len) == Some(ForumError::PostAlreadyModerated),
        post.posts()[p].moderation == pre.posts()[p].moderation,
        post.forum_sudo == Some(who) ==> post.moderate_post_error(who, p, rationale_len) == Some(
            ForumError::PostAlreadyModerated,
        ),
{
}

/// An archived or deleted category `c` on the path of category `x` blocks
/// every change in `x`: creating a subcategory or a thread there, and
/// adding, editing or moderating threads and posts that live there.
pub proof fn lemma_locked_category_blocks(forum: Forum, c: CategoryId, x: CategoryId)
    requires
        forum.wf(),
        forum.cats().contains_key(x),
        forum.tree_path(x).contains(c),
        forum.cats()[c].archived || forum.cats()[c].deleted,
    ensures
        !forum.can_mutate_in(x),
        forall|who: AccountId, title_len: int, description_len: int| #[trigger]
            forum.create_category_error(who, Some(x), title_len, description_len) is Some,
        forall|is_member: bool, title_len: int, text_len: int| #[trigger]
            forum.create_thread_error(is_member, x, title_len, text_len) is Some,
        forall|t: ThreadId, is_member: bool, text_len: int|
            forum.threads().contains_key(t) && forum.threads()[t].category_id == x
                ==> #[trigger] forum.add_post_error(is_member, t, text_len) is Some,
        forall|t: ThreadId, who: AccountId, rationale_len: int|
            forum.threads().contains_key(t) && forum.threads()[t].category_id == x
                ==> #[trigger] forum.moderate_thread_error(who, t, rationale_len) is Some,
        forall|p: PostId, is_member: bool, who: AccountId|
            forum.posts().contains_key(p) && forum.threads()[forum.posts()[p].thread_id].category_id
                == x ==> #[trigger] forum.edit_post_text_error(is_member, who, p) is Some,
        forall|p: PostId, who: AccountId, rationale_len: int|
            forum.posts().contains_key(p) && forum.threads()[forum.posts()[p].thread_id].category_id
                == x ==> #[trigger] forum.moderate_post_error(who, p, rationale_len) is Some,
{
    let path = forum.tree_path(x);
    let i = choose|i: int| 0 <= i < path.len() && path[i] == c;
    assert(!forum.category_unlocked(path[i]));
}

} // verus!
