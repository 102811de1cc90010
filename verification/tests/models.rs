use stammw_blog::models::{NewUser, Post};

fn new_user(name: &'static str, email: &'static str, password: &'static str) -> NewUser {
    NewUser {
        name: String::from(name),
        email: String::from(email),
        password: String::from(password),
    }
}

fn date(secs: i64) -> chrono::NaiveDateTime {
    chrono::DateTime::from_timestamp(secs, 0).unwrap().naive_utc()
}

#[test]
fn new_user_name_is_at_least_4_char() {
    let user = new_user("dat", "email@yep.yep", "password");
    let result = user.validate();
    assert!(result.is_err());
    assert_eq!(result.unwrap_err().get("name").unwrap(), "Name shall not be empty");
}

#[test]
fn new_user_email_shall_be_valid() {
    let user = new_user("name", "email@yep", "password");
    let result = user.validate();
    assert!(result.is_err());
    assert_eq!(result.unwrap_err().get("email").unwrap(), "Email is not valid");
}

#[test]
fn new_user_password_is_at_least_8_chars() {
    let user = new_user("name", "email@yep.com", "pas");
    let result = user.validate();
    assert!(result.is_err());
    assert_eq!(
        result.unwrap_err().get("password").unwrap(),
        "Password should be at least 8 chars"
    );
}

#[test]
fn valid_registration_passes() {
    assert!(new_user("name", "email@yep.com", "password").validate().is_ok());
}

#[test]
fn lengths_count_bytes_not_characters() {
    // "été" is three characters but five bytes
    assert!(new_user("été", "email@yep.com", "password").validate().is_ok());
    // "ééé" is three characters, six bytes; "éééé" eight bytes
    assert!(new_user("name", "email@yep.com", "éééé").validate().is_ok());
    let errors = new_user("name", "email@yep.com", "ééé").validate().unwrap_err();
    assert_eq!(errors.len(), 1);
    assert!(errors.get("password").is_some());
}

#[test]
fn email_pattern_is_searched_anywhere() {
    assert!(new_user("name", "  a@b.c  ", "password").validate().is_ok());
    assert!(new_user("name", "a@b", "password").validate().is_err());
    assert!(new_user("name", "@b.c", "password").validate().is_err());
}

#[test]
fn all_registration_errors_are_reported_in_order() {
    let errors = new_user("", "fds", "pword").validate().unwrap_err();
    assert_eq!(errors.len(), 3);
    assert_eq!(errors.error_at(0).field(), "name");
    assert_eq!(errors.error_at(1).field(), "email");
    assert_eq!(errors.error_at(2).field(), "password");
    assert!(errors.get("title").is_none());
}

#[test]
fn validate_with_takes_the_email_verdict() {
    let user = new_user("name", "not an email", "password");
    assert!(user.validate_with(true).is_ok());
    assert_eq!(user.validate_with(false).unwrap_err().get("email").unwrap(), "Email is not valid");
}

#[test]
fn post_to_html_renders_only_the_body() {
    let post = Post {
        id: 3,
        user_id: 1,
        slug: "title1".to_string(),
        title: "title1".to_string(),
        body: "# body1".to_string(),
        published: true,
        creation_date: date(10),
        edition_date: None,
        publication_date: Some(date(20)),
    };
    let html = post.to_html();
    assert_eq!(html.body, "<h1>body1</h1>\n");
    assert_eq!(html.title, "title1");
    assert_eq!(html.slug, "title1");
    assert_eq!(html.id, 3);
    assert_eq!(html.publication_date, Some(date(20)));
}
