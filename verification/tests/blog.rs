use worker_pool::blog::Post;

#[test]
fn it_works() {
    let result: i32 = 2 + 2;
    assert_eq!(result, 4);
}

#[test]
fn post_shows_its_text_once_approved() {
    let mut post = Post::new();
    post.add_text("I ate a salad for lunch today");
    assert_eq!("", post.content());
    post.request_review();
    assert_eq!("", post.content());
    post.approve();
    assert_eq!("I ate a salad for lunch today", post.content());
}

#[test]
fn approval_needs_a_review_first() {
    let mut post = Post::new();
    post.add_text("draft");
    post.approve();
    assert_eq!("", post.content());
    post.reject();
    assert_eq!("", post.content());
    post.request_review();
    post.request_review();
    post.approve();
    assert_eq!("draft", post.content());
}

#[test]
fn rejected_post_is_a_draft_again() {
    let mut post = Post::new();
    post.add_text("a");
    post.request_review();
    post.reject();
    post.approve();
    assert_eq!("", post.content());
    post.add_text("b");
    post.request_review();
    post.approve();
    assert_eq!("ab", post.content());
}

#[test]
fn published_post_stays_published() {
    let mut post = Post::new();
    post.add_text("news");
    post.request_review();
    post.approve();
    post.reject();
    post.request_review();
    post.approve();
    assert_eq!("news", post.content());
    post.add_text(" and more");
    assert_eq!("news and more", post.content());
}
