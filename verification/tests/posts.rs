use stammw_blog::auth::UserToken;
use stammw_blog::controllers::post::{
    edited_post, index_view, index_window, new_post, post_location, ListParams, PostForm,
    PostLocation,
};
use stammw_blog::models::{NewPost, Post, User};
use stammw_blog::pagination::PaginationParams;

fn date(secs: i64) -> chrono::NaiveDateTime {
    chrono::DateTime::from_timestamp(secs, 0).unwrap().naive_utc()
}

fn user1() -> UserToken {
    UserToken { id: 1, name: "user1".to_string() }
}

fn form(title: &str, body: &str, published: bool) -> PostForm {
    PostForm { title: title.to_string(), body: body.to_string(), published }
}

fn stored(id: i32, new: NewPost) -> Post {
    Post {
        id,
        user_id: new.user_id,
        slug: new.slug,
        title: new.title,
        body: new.body,
        published: new.published,
        creation_date: new.creation_date,
        edition_date: None,
        publication_date: new.publication_date,
    }
}

#[test]
fn main_create_post_with_empty_title_fails() {
    // body=Body&title=
    let post = form("", "Body", false);
    let errors = post.validate().err().expect("an empty title is refused");
    assert_eq!(errors.get("title").unwrap(), "Title shall not be emty");
}

#[test]
fn posts_create_post_with_empty_title_fails() {
    // body=Body&title=
    let post = form("", "Body", false);
    assert!(post.validate().is_err());
}

#[test]
fn empty_body_is_refused_too() {
    let errors = form("", "", true).validate().err().unwrap();
    assert_eq!(errors.len(), 2);
    assert_eq!(errors.get("body").unwrap(), "Body shall not be emty");
    assert!(form("Title", "Body", true).validate().is_ok());
}

#[test]
fn create_post_success_location_slug_if_published() {
    let post = form("sometitle of a post", "Body", true);
    assert!(post.validate().is_ok());
    let inserted = stored(12, new_post(&post, &user1(), date(100)));
    match post_location(&inserted) {
        PostLocation::BySlug(slug) => assert_eq!(slug, "sometitle-of-a-post"),
        PostLocation::ById(_) => panic!("invalid location"),
    }
}

#[test]
fn create_post_success_location_id_if_unpublished() {
    let post = form("sometitle of another post", "Body", false);
    let inserted = stored(13, new_post(&post, &user1(), date(100)));
    match post_location(&inserted) {
        PostLocation::ById(id) => assert_eq!(id, 13),
        PostLocation::BySlug(_) => panic!("invalid location"),
    }
}

#[test]
fn creation_date_set_on_creation() {
    let post = new_post(&form("creation_date_set_on_creation", "Body", false), &user1(), date(100));
    assert_eq!(post.creation_date, date(100));
    assert!(post.publication_date.is_none());
    assert_eq!(post.user_id, 1);
    assert_eq!(post.slug, "creation-date-set-on-creation");
}

#[test]
fn publication_date_set_on_publishing_creation() {
    let post = new_post(
        &form("publication_date_set_on_publishing_creation", "Body", true),
        &user1(),
        date(100),
    );
    assert_eq!(post.creation_date, date(100));
    assert_eq!(post.publication_date.expect("publication date should be set"), date(100));
}

#[test]
fn edition_date_set_on_edition() {
    let body = form("edition_date_set_on_edition", "Body", false);
    let new = stored(20, new_post(&body, &user1(), date(100)));
    let post = edited_post(new.id, form("edition_date_set_on_edition", "Body", false), &user1(), &new, date(200));
    assert_eq!(post.creation_date, date(100));
    assert_eq!(post.edition_date.expect("edition date should be set"), date(200));
    assert!(post.publication_date.is_none());
}

#[test]
fn publication_date_set_on_publishing_edition() {
    let body = form("dition_date_set_on_publishing_edition", "Body", false);
    let new = stored(21, new_post(&body, &user1(), date(100)));
    let post = edited_post(
        new.id,
        form("dition_date_set_on_publishing_edition", "Body", true),
        &user1(),
        &new,
        date(200),
    );
    assert_eq!(post.creation_date, date(100));
    assert_eq!(post.edition_date.expect("edition date should be set"), date(200));
    assert_eq!(post.publication_date.expect("publication date should be set"), date(200));
}

#[test]
fn publication_date_survives_later_edits() {
    let new = stored(22, new_post(&form("Title", "Body", true), &user1(), date(100)));
    let edited = edited_post(22, form("Other title", "New body", false), &user1(), &new, date(300));
    assert_eq!(edited.publication_date, Some(date(100)));
    assert!(!edited.published);
    assert_eq!(edited.slug, "other-title");
    assert_eq!(edited.body, "New body");
    let again = edited_post(22, form("Other title", "New body", true), &user1(), &edited, date(400));
    assert_eq!(again.publication_date, Some(date(100)));
}

#[test]
fn list_params_default_lists_everything() {
    assert!(ListParams::default().published.is_none());
}

#[test]
fn index_window_skips_earlier_pages() {
    let params = PaginationParams { page: 3, items_per_page: Some(5) };
    assert_eq!(index_window(&params), (5, 10));
    assert_eq!(index_window(&PaginationParams::default()), (5, 0));
}

#[test]
fn index_view_renders_bodies_and_pages() {
    let author = User { id: 1, name: "user1".to_string(), email: "e".to_string(), password: "p".to_string() };
    let post = stored(1, new_post(&form("title1", "# body1", true), &user1(), date(100)));
    let (rows, pages) = index_view(PaginationParams::default(), vec![(author, post)], 6);
    assert_eq!(rows.len(), 1);
    assert_eq!(rows[0].0.name, "user1");
    assert_eq!(rows[0].1.body, "<h1>body1</h1>\n");
    assert_eq!(pages.pages, [1, 2]);
    assert_eq!(pages.current, 1);
}

#[test]
fn main_index_renders() {
    // the front page of an empty blog: no post, one (empty) page
    let params = PaginationParams::default();
    assert_eq!(index_window(&params), (5, 0));
    let (rows, pages) = index_view(params, Vec::new(), 0);
    assert!(rows.is_empty());
    assert_eq!(pages.current, 1);
    assert_eq!(pages.pages, [1]);
    assert!(pages.prev.is_none());
    assert!(pages.next.is_none());
}

#[test]
fn create_post() {
    // body=Body&title=Title, not published: the browser goes to /post/<id>
    let post = form("Title", "Body", false);
    assert!(post.validate().is_ok());
    let inserted = stored(31, new_post(&post, &user1(), date(100)));
    match post_location(&inserted) {
        PostLocation::ById(id) => assert_eq!(id, 31),
        PostLocation::BySlug(_) => panic!("expected /post/<id>"),
    }
}

#[test]
fn update_post_unpublished() {
    let existing = stored(45, new_post(&form("title45", "body45", false), &user1(), date(100)));
    let edited = edited_post(
        45,
        form("sometitle of an updated post", "Body", false),
        &user1(),
        &existing,
        date(200),
    );
    match post_location(&edited) {
        PostLocation::ById(id) => assert_eq!(id, 45),
        PostLocation::BySlug(_) => panic!("invalid location"),
    }
}

#[test]
fn update_post_published() {
    let existing = stored(45, new_post(&form("title45", "body45", false), &user1(), date(100)));
    let edited = edited_post(
        45,
        form("sometitle of a twice updated post", "Body", true),
        &user1(),
        &existing,
        date(200),
    );
    match post_location(&edited) {
        PostLocation::BySlug(slug) => assert_eq!(slug, "sometitle-of-a-twice-updated-post"),
        PostLocation::ById(_) => panic!("location format invalid"),
    }
}

#[test]
fn slugs_of_ascii_titles() {
    let slug = |title: &str| new_post(&form(title, "Body", true), &user1(), date(1)).slug;
    assert_eq!(slug("My Test String!!!1!1"), "my-test-string-1-1");
    assert_eq!(slug("  --test_-_cool"), "test-cool");
    assert_eq!(slug("You & Me"), "you-me");
    assert_eq!(slug("Æúű--cool?"), "aeuu-cool");
}
