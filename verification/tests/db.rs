use stammw_blog::db::{
    group_comments, post_with_comments, published_with_authors,
    published_with_authors_and_comments, users_by_id,
};
use stammw_blog::models::{Comment, Post, User};

fn date(secs: i64) -> chrono::NaiveDateTime {
    chrono::DateTime::from_timestamp(secs, 0).unwrap().naive_utc()
}

fn user(id: i32, name: &str) -> User {
    User { id, name: name.to_string(), email: format!("{}@email.test", name), password: String::new() }
}

fn post(id: i32, user_id: i32) -> Post {
    Post {
        id,
        user_id,
        slug: format!("title{}", id),
        title: format!("title{}", id),
        body: format!("# body{}", id),
        published: true,
        creation_date: date(id as i64),
        edition_date: None,
        publication_date: Some(date(id as i64)),
    }
}

fn comment(id: i32, user_id: i32, post_id: i32) -> Comment {
    Comment { id, user_id, post_id, body: format!("comment{}", id), creation_date: date(100 + id as i64) }
}

#[test]
fn users_are_indexed_by_id_later_ones_win() {
    let users = vec![user(1, "a"), user(2, "b"), user(1, "c")];
    let index = users_by_id(&users);
    assert_eq!(index.len(), 2);
    assert_eq!(index.get(&1).unwrap().name, "c");
    assert_eq!(index.get(&2).unwrap().name, "b");
}

#[test]
fn published_posts_come_with_their_authors() {
    let users = vec![user(1, "user1"), user(2, "user2")];
    let rows = published_with_authors(&users, vec![post(3, 2), post(1, 1), post(2, 2)]);
    let summary: Vec<(i32, String)> = rows.iter().map(|(u, p)| (p.id, u.name.clone())).collect();
    assert_eq!(
        summary,
        vec![(3, "user2".to_string()), (1, "user1".to_string()), (2, "user2".to_string())]
    );
}

#[test]
fn comments_are_grouped_by_post_in_order() {
    let posts = vec![post(1, 1), post(2, 1), post(3, 1)];
    let comments = vec![comment(10, 1, 2), comment(11, 1, 1), comment(12, 2, 2)];
    let groups = group_comments(&posts, comments);
    let ids: Vec<Vec<i32>> = groups.iter().map(|g| g.iter().map(|c| c.id).collect()).collect();
    assert_eq!(ids, vec![vec![11], vec![10, 12], vec![]]);
}

#[test]
fn page_rows_carry_author_post_and_comments() {
    let users = vec![user(1, "user1"), user(2, "user2")];
    let posts = vec![post(5, 2), post(4, 1)];
    let comments = vec![comment(1, 1, 4), comment(2, 2, 5), comment(3, 1, 5)];
    let rows = published_with_authors_and_comments(&users, posts, comments);
    assert_eq!(rows.len(), 2);
    assert_eq!(rows[0].0.name, "user2");
    assert_eq!(rows[0].1.id, 5);
    assert_eq!(rows[0].2.iter().map(|c| c.id).collect::<Vec<_>>(), vec![2, 3]);
    assert_eq!(rows[1].0.name, "user1");
    assert_eq!(rows[1].2.iter().map(|c| c.id).collect::<Vec<_>>(), vec![1]);
}

#[test]
fn post_page_drops_comments_of_unknown_users() {
    let users = vec![user(1, "user1"), user(2, "user2")];
    let comments = vec![comment(1, 2, 7), comment(2, 42, 7), comment(3, 1, 7)];
    let (p, author, with_authors) = post_with_comments(&users, post(7, 1), comments);
    assert_eq!(p.id, 7);
    assert_eq!(author.name, "user1");
    let summary: Vec<(i32, String)> =
        with_authors.iter().map(|(c, u)| (c.id, u.name.clone())).collect();
    assert_eq!(summary, vec![(1, "user2".to_string()), (3, "user1".to_string())]);
}
