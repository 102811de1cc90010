use vstd::prelude::*;
use std::collections::HashMap;

use crate::models::{Comment, Post, User};

verus! {

broadcast use vstd::std_specs::hash::group_hash_axioms;

/// The users keyed by id, as a map filled from the list in order: when two
/// users share an id, the later one is kept.
pub open spec fn spec_users_by_id(users: Seq<User>) -> Map<i32, User>
    decreases users.len(),
{
    if users.len() == 0 {
        Map::empty()
    } else {
        spec_users_by_id(users.drop_last()).insert(users.last().id, users.last())
    }
}

/// The users indexed by id: an id is a key exactly when some user has it,
/// and it leads to the last user with that id.
pub proof fn lemma_users_by_id(users: Seq<User>)
    ensures
        forall|id: i32|
            #[trigger] spec_users_by_id(users).contains_key(id) <==> exists|i: int|
                0 <= i < users.len() && #[trigger] users[i].id == id,
        forall|i: int|
            0 <= i < users.len() && (forall|j: int| i < j < users.len() ==> #[trigger] users[j].id
                != users[i].id) ==> #[trigger] spec_users_by_id(users)[users[i].id] == users[i],
    decreases users.len(),
{
    if users.len() > 0 {
        let init = users.drop_last();
        lemma_users_by_id(init);
        let m = spec_users_by_id(users);
        assert forall|id: i32| #[trigger] m.contains_key(id) <==> exists|i: int|
            0 <= i < users.len() && #[trigger] users[i].id == id by {
            if m.contains_key(id) && id != users.last().id {
                assert(spec_users_by_id(init).contains_key(id));
                let i = choose|i: int| 0 <= i < init.len() && #[trigger] init[i].id == id;
                assert(users[i] == init[i]);
            }
            if id == users.last().id {
                assert(users[users.len() - 1].id == id);
            }
            if exists|i: int| 0 <= i < users.len() && #[trigger] users[i].id == id {
                let i = choose|i: int| 0 <= i < users.len() && #[trigger] users[i].id == id;
                if i < users.len() - 1 {
                    assert(init[i] == users[i]);
                    assert(spec_users_by_id(init).contains_key(id));
                }
            }
        }
        assert forall|i: int|
            0 <= i < users.len() && (forall|j: int| i < j < users.len() ==> #[trigger] users[j].id
                != users[i].id) implies #[trigger] m[users[i].id] == users[i] by {
            if i < users.len() - 1 {
                assert(users[users.len() - 1].id != users[i].id);
                assert(init[i] == users[i]);
                assert forall|j: int| i < j < init.len() implies #[trigger] init[j].id != init[i].id by {
                    assert(init[j] == users[j]);
                }
                assert(spec_users_by_id(init)[init[i].id] == init[i]);
            } else {
                assert(users[i] == users.last());
            }
        }
    }
}

/// Indexes the users by id.
pub fn users_by_id(users: &Vec<User>) -> (m: HashMap<i32, User>)
    ensures
        m@ == spec_users_by_id(users@),
{
    let mut m: HashMap<i32, User> = HashMap::new();
    let mut i: usize = 0;
    while i < users.len()
        invariant
            i <= users@.len(),
            m@ == spec_users_by_id(users@.take(i as int)),
        decreases users@.len() - i,
    {
        let u = users[i].duplicate();
        let id = u.id;
        m.insert(id, u);
        assert(users@.take((i + 1) as int).drop_last() =~= users@.take(i as int));
        i = i + 1;
    }
    assert(users@.take(users@.len() as int) =~= users@);
    m
}

/// Each post paired with its author.
pub open spec fn spec_with_authors(authors: Map<i32, User>, posts: Seq<Post>) -> Seq<(User, Post)> {
    posts.map_values(|p: Post| (authors[p.user_id], p))
}

/// Every post gets one row, in the order given, holding the post and its
/// author: no post is dropped, added or moved.
pub proof fn lemma_with_authors_rows(authors: Map<i32, User>, posts: Seq<Post>)
    ensures
        spec_with_authors(authors, posts).len() == posts.len(),
        forall|i: int|
            0 <= i < posts.len() ==> #[trigger] spec_with_authors(authors, posts)[i] == (
                authors[posts[i].user_id],
                posts[i],
            ),
{
}

/// Pairs each post with its author, looked up in `authors`. Every post's
/// author must be known: an unknown author is a broken store.
pub fn with_authors(authors: &HashMap<i32, User>, posts: Vec<Post>) -> (r: Vec<(User, Post)>)
    requires
        forall|i: int| 0 <= i < posts@.len() ==> authors@.contains_key(#[trigger] posts@[i].user_id),
    ensures
        r@ == spec_with_authors(authors@, posts@),
        r@.len() == posts@.len(),
        forall|i: int| 0 <= i < posts@.len() ==> #[trigger] r@[i] == (authors@[posts@[i].user_id], posts@[i]),
{
    let ghost all = posts@;
    let mut r: Vec<(User, Post)> = Vec::new();
    for p in it: posts
        invariant
            it.seq() == all,
            r@ == spec_with_authors(authors@, all.take(it.index() as int)),
            forall|i: int| 0 <= i < all.len() ==> authors@.contains_key(#[trigger] all[i].user_id),
    {
        let k = r.len();
        let author = authors.get(&p.user_id).unwrap().duplicate();
        r.push((author, p));
        assert(all.take((k + 1) as int).drop_last() =~= all.take(k as int));
    }
    assert(all.take(all.len() as int) =~= all);
    r
}

/// The comments whose author is known, each paired with that author, in
/// the order they were given in; comments by unknown users are left out.
pub open spec fn spec_comments_with_authors(authors: Map<i32, User>, comments: Seq<Comment>) -> Seq<
    (Comment, User),
>
    decreases comments.len(),
{
    if comments.len() == 0 {
        Seq::empty()
    } else {
        let rest = spec_comments_with_authors(authors, comments.drop_last());
        let c = comments.last();
        if authors.contains_key(c.user_id) {
            rest.push((c, authors[c.user_id]))
        } else {
            rest
        }
    }
}

/// The comments shown with authors are exactly the comments whose author is
/// known, every one of them, in the order given, each with its author.
pub proof fn lemma_comments_with_authors_are_the_known_ones(authors: Map<i32, User>, comments: Seq<Comment>)
    ensures
        ({
            let known = comments.filter(|c: Comment| authors.contains_key(c.user_id));
            let shown = spec_comments_with_authors(authors, comments);
            &&& shown.len() == known.len()
            &&& forall|i: int|
                0 <= i < known.len() ==> #[trigger] shown[i] == (known[i], authors[known[i].user_id])
        }),
    decreases comments.len(),
{
    reveal_with_fuel(Seq::filter, 1);
    if comments.len() > 0 {
        lemma_comments_with_authors_are_the_known_ones(authors, comments.drop_last());
    }
}

/// Pairs each comment with its author, dropping comments whose author is
/// not in `authors`.
pub fn comments_with_authors(authors: &HashMap<i32, User>, comments: Vec<Comment>) -> (r: Vec<
    (Comment, User),
>)
    ensures
        r@ == spec_comments_with_authors(authors@, comments@),
{
    let ghost all = comments@;
    let mut r: Vec<(Comment, User)> = Vec::new();
    for c in it: comments
        invariant
            it.seq() == all,
            r@ == spec_comments_with_authors(authors@, all.take(it.index() as int)),
    {
        let ghost k = it.index();
        assert(all.take(k + 1).drop_last() =~= all.take(k));
        assert(all.take(k + 1).last() == c);
        match authors.get(&c.user_id) {
            Some(author) => {
                let author = author.duplicate();
                r.push((c, author));
            },
            None => {},
        }
    }
    assert(all.take(all.len() as int) =~= all);
    r
}

/// The position of each post id in `posts`, as a map filled in order: when
/// two posts share an id, the later position is kept.
pub open spec fn spec_post_positions(posts: Seq<Post>) -> Map<i32, int>
    decreases posts.len(),
{
    if posts.len() == 0 {
        Map::empty()
    } else {
        spec_post_positions(posts.drop_last()).insert(posts.last().id, posts.len() - 1)
    }
}

/// The comments that go to the post at position `i`: those whose post id
/// sits at `i` in `positions`, in the order they were given in.
pub open spec fn spec_group(positions: Map<i32, int>, comments: Seq<Comment>, i: int) -> Seq<Comment>
    decreases comments.len(),
{
    if comments.len() == 0 {
        Seq::empty()
    } else {
        let rest = spec_group(positions, comments.drop_last(), i);
        let c = comments.last();
        if positions.contains_key(c.post_id) && positions[c.post_id] == i {
            rest.push(c)
        } else {
            rest
        }
    }
}

/// The comments of post `post_id`, in the order they were given in.
pub open spec fn spec_comments_of(comments: Seq<Comment>, post_id: i32) -> Seq<Comment>
    decreases comments.len(),
{
    if comments.len() == 0 {
        Seq::empty()
    } else {
        let rest = spec_comments_of(comments.drop_last(), post_id);
        if comments.last().post_id == post_id {
            rest.push(comments.last())
        } else {
            rest
        }
    }
}

proof fn lemma_post_positions_in_range(posts: Seq<Post>)
    ensures
        forall|id: i32| #[trigger]
            spec_post_positions(posts).contains_key(id) ==> 0 <= spec_post_positions(posts)[id]
                < posts.len() && posts[spec_post_positions(posts)[id]].id == id,
    decreases posts.len(),
{
    if posts.len() > 0 {
        lemma_post_positions_in_range(posts.drop_last());
    }
}

/// Indexes the post positions by post id.
fn post_positions(posts: &Vec<Post>) -> (m: HashMap<i32, usize>)
    ensures
        forall|id: i32| #[trigger]
            m@.contains_key(id) == spec_post_positions(posts@).contains_key(id),
        forall|id: i32| #[trigger]
            m@.contains_key(id) ==> m@[id] as int == spec_post_positions(posts@)[id],
{
    let mut m: HashMap<i32, usize> = HashMap::new();
    let mut i: usize = 0;
    while i < posts.len()
        invariant
            i <= posts@.len(),
            forall|id: i32| #[trigger]
                m@.contains_key(id) == spec_post_positions(posts@.take(i as int)).contains_key(id),
            forall|id: i32| #[trigger]
                m@.contains_key(id) ==> m@[id] as int == spec_post_positions(posts@.take(i as int))[id],
        decreases posts@.len() - i,
    {
        let id = posts[i].id;
        m.insert(id, i);
        assert(posts@.take((i + 1) as int).drop_last() =~= posts@.take(i as int));
        i = i + 1;
    }
    assert(posts@.take(posts@.len() as int) =~= posts@);
    m
}

/// When two posts share an id, a post still has a position under its id.
proof fn lemma_position_of_id(posts: Seq<Post>, i: int)
    requires
        0 <= i < posts.len(),
    ensures
        spec_post_positions(posts).contains_key(posts[i].id),
    decreases posts.len(),
{
    if i < posts.len() - 1 {
        assert(posts.drop_last()[i] == posts[i]);
        lemma_position_of_id(posts.drop_last(), i);
    }
}

/// Every comment belongs to one of `posts` (grouping a comment of another
/// post is a broken store).
pub open spec fn comments_belong(posts: Seq<Post>, comments: Seq<Comment>) -> bool {
    forall|j: int|
        #![trigger comments[j]]
        0 <= j < comments.len() ==> exists|i: int|
            0 <= i < posts.len() && #[trigger] posts[i].id == comments[j].post_id
}

/// Splits `comments` by post: entry `i` holds the comments of the post at
/// position `i` of `posts`, in the order they were given in. Every comment
/// must belong to one of the posts.
pub fn group_comments(posts: &Vec<Post>, comments: Vec<Comment>) -> (groups: Vec<Vec<Comment>>)
    requires
        comments_belong(posts@, comments@),
    ensures
        groups@.len() == posts@.len(),
        forall|i: int|
            0 <= i < posts@.len() ==> (#[trigger] groups@[i])@ == spec_group(
                spec_post_positions(posts@),
                comments@,
                i,
            ),
{
    let positions = post_positions(posts);
    let ghost pos = spec_post_positions(posts@);
    proof {
        lemma_post_positions_in_range(posts@);
    }
    let mut groups: Vec<Vec<Comment>> = Vec::new();
    let mut j: usize = 0;
    while j < posts.len()
        invariant
            j <= posts@.len(),
            groups@.len() == j,
            forall|i: int| 0 <= i < j ==> (#[trigger] groups@[i])@ == Seq::<Comment>::empty(),
        decreases posts@.len() - j,
    {
        groups.push(Vec::new());
        j = j + 1;
    }
    let ghost all = comments@;
    for c in it: comments
        invariant
            it.seq() == all,
            groups@.len() == posts@.len(),
            pos == spec_post_positions(posts@),
            forall|id: i32| #[trigger] positions@.contains_key(id) == pos.contains_key(id),
            forall|id: i32| #[trigger] positions@.contains_key(id) ==> positions@[id] as int == pos[id],
            forall|id: i32| #[trigger] pos.contains_key(id) ==> 0 <= pos[id] < posts@.len(),
            comments_belong(posts@, all),
            forall|i: int|
                0 <= i < posts@.len() ==> (#[trigger] groups@[i])@ == spec_group(
                    pos,
                    all.take(it.index() as int),
                    i,
                ),
    {
        let ghost k = it.index();
        let ghost before = groups@;
        assert(all.take(k + 1).drop_last() =~= all.take(k));
        assert(all.take(k + 1).last() == c);
        match positions.get(&c.post_id) {
            Some(idx) => {
                let idx: usize = *idx;
                let mut group = groups.remove(idx);
                group.push(c);
                groups.insert(idx, group);
                assert forall|i: int| 0 <= i < posts@.len() implies (#[trigger] groups@[i])@
                    == spec_group(pos, all.take(k + 1), i) by {
                    if i != idx as int {
                        assert(groups@[i] == before[i]);
                    }
                }
            },
            None => {
                proof {
                    let i = choose|i: int| 0 <= i < posts@.len() && #[trigger] posts@[i].id == all[k].post_id;
                    lemma_position_of_id(posts@, i);
                }
            },
        }
    }
    assert(all.take(all.len() as int) =~= all);
    groups
}

/// When post ids are distinct, grouping gives each post exactly its own
/// comments, in the order they were given in.
pub proof fn lemma_group_is_comments_of_post(posts: Seq<Post>, comments: Seq<Comment>, i: int)
    requires
        0 <= i < posts.len(),
        forall|a: int, b: int| 0 <= a < b < posts.len() ==> posts[a].id != posts[b].id,
    ensures
        spec_group(spec_post_positions(posts), comments, i) == spec_comments_of(comments, posts[i].id),
    decreases comments.len(),
{
    lemma_post_positions_in_range(posts);
    lemma_position_of_distinct_id(posts, i);
    if comments.len() > 0 {
        lemma_group_is_comments_of_post(posts, comments.drop_last(), i);
        let c = comments.last();
        let pos = spec_post_positions(posts);
        if pos.contains_key(c.post_id) && pos[c.post_id] == i {
            assert(c.post_id == posts[i].id);
        } else {
            assert(c.post_id != posts[i].id);
        }
    }
}

/// The comments of a post are the comments with its id, every one of them,
/// in the order given.
pub proof fn lemma_comments_of_is_filter(comments: Seq<Comment>, post_id: i32)
    ensures
        spec_comments_of(comments, post_id) == comments.filter(|c: Comment| c.post_id == post_id),
    decreases comments.len(),
{
    reveal_with_fuel(Seq::filter, 1);
    if comments.len() > 0 {
        lemma_comments_of_is_filter(comments.drop_last(), post_id);
    }
}

/// When post ids are distinct, the post at position `i` is found at `i`.
proof fn lemma_position_of_distinct_id(posts: Seq<Post>, i: int)
    requires
        0 <= i < posts.len(),
        forall|a: int, b: int| 0 <= a < b < posts.len() ==> posts[a].id != posts[b].id,
    ensures
        spec_post_positions(posts).contains_key(posts[i].id),
        spec_post_positions(posts)[posts[i].id] == i,
    decreases posts.len(),
{
    let init = posts.drop_last();
    if i < posts.len() - 1 {
        assert(posts.last() == posts[posts.len() - 1]);
        assert(init[i] == posts[i]);
        lemma_position_of_distinct_id(init, i);
    }
}

/// Every post's author is among `users`.
pub open spec fn authors_known(users: Seq<User>, posts: Seq<Post>) -> bool {
    forall|i: int| 0 <= i < posts.len() ==> spec_users_by_id(users).contains_key(#[trigger] posts[i].user_id)
}

/// The published posts of one page, each with its author, given all users
/// and the page's posts as loaded from the store.
pub fn published_with_authors(users: &Vec<User>, posts: Vec<Post>) -> (r: Vec<(User, Post)>)
    requires
        authors_known(users@, posts@),
    ensures
        r@ == spec_with_authors(spec_users_by_id(users@), posts@),
        r@.len() == posts@.len(),
        forall|i: int|
            0 <= i < posts@.len() ==> #[trigger] r@[i] == (
                spec_users_by_id(users@)[posts@[i].user_id],
                posts@[i],
            ),
{
    let authors = users_by_id(users);
    with_authors(&authors, posts)
}

/// The published posts of one page, each with its author and its comments,
/// given all users, the page's posts and the comments of those posts.
pub fn published_with_authors_and_comments(
    users: &Vec<User>,
    posts: Vec<Post>,
    comments: Vec<Comment>,
) -> (r: Vec<(User, Post, Vec<Comment>)>)
    requires
        authors_known(users@, posts@),
        comments_belong(posts@, comments@),
    ensures
        r@.len() == posts@.len(),
        forall|i: int|
            0 <= i < posts@.len() ==> {
                &&& (#[trigger] r@[i]).0 == spec_users_by_id(users@)[posts@[i].user_id]
                &&& r@[i].1 == posts@[i]
                &&& r@[i].2@ == spec_group(spec_post_positions(posts@), comments@, i)
            },
{
    let authors = users_by_id(users);
    let mut groups = group_comments(&posts, comments);
    let ghost all = posts@;
    let ghost all_groups = groups@;
    let mut r: Vec<(User, Post, Vec<Comment>)> = Vec::new();
    for p in it: posts
        invariant
            it.seq() == all,
            all_groups.len() == all.len(),
            groups@ == all_groups.skip(it.index() as int),
            r@.len() == it.index(),
            authors@ == spec_users_by_id(users@),
            authors_known(users@, all),
            forall|i: int|
                0 <= i < it.index() ==> {
                    &&& (#[trigger] r@[i]).0 == spec_users_by_id(users@)[all[i].user_id]
                    &&& r@[i].1 == all[i]
                    &&& r@[i].2 == all_groups[i]
                },
    {
        let ghost k = it.index();
        assert(all[k] == p);
        assert(groups@.len() > 0);
        let group = groups.remove(0);
        assert(groups@ =~= all_groups.skip(k + 1));
        let author = authors.get(&p.user_id).unwrap().duplicate();
        r.push((author, p, group));
    }
    r
}

/// What a post's page shows, given all users, the post and its comments as
/// loaded from the store: the post, its author, and the comments whose
/// author is known, each with its author. The post's author must be known.
pub fn post_with_comments(users: &Vec<User>, post: Post, comments: Vec<Comment>) -> (r: (
    Post,
    User,
    Vec<(Comment, User)>,
))
    requires
        spec_users_by_id(users@).contains_key(post.user_id),
    ensures
        r.0 == post,
        r.1 == spec_users_by_id(users@)[post.user_id],
        r.2@ == spec_comments_with_authors(spec_users_by_id(users@), comments@),
        ({
            let authors = spec_users_by_id(users@);
            let known = comments@.filter(|c: Comment| authors.contains_key(c.user_id));
            &&& r.2@.len() == known.len()
            &&& forall|i: int|
                0 <= i < known.len() ==> #[trigger] r.2@[i] == (known[i], authors[known[i].user_id])
        }),
{
    proof {
        lemma_comments_with_authors_are_the_known_ones(spec_users_by_id(users@), comments@);
    }
    let authors = users_by_id(users);
    let author = authors.get(&post.user_id).unwrap().duplicate();
    let with_authors = comments_with_authors(&authors, comments);
    (post, author, with_authors)
}

} // verus!
