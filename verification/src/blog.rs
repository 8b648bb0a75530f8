//! A blog post that has to be reviewed and approved before it shows its text.

use vstd::prelude::*;
use vstd::string::StringExecFns;

verus! {

/// The stage of a post on its way to publication.
#[derive(Clone, Copy, Debug, PartialEq, Eq, Structural)]
pub enum State {
    /// Being written.
    Draft,
    /// Waiting for a review.
    PendingReview,
    /// Approved: the text is shown.
    Published,
}

impl State {
    /// The stage after a review was asked for: a draft waits for its review,
    /// any other stage stays.
    pub open spec fn after_request_review(self) -> State {
        match self {
            State::Draft => State::PendingReview,
            _ => self,
        }
    }

    /// The stage after a rejection: a post that waited for its review is a
    /// draft again, any other stage stays.
    pub open spec fn after_reject(self) -> State {
        match self {
            State::PendingReview => State::Draft,
            _ => self,
        }
    }

    /// The stage after an approval: a post that waited for its review is
    /// published, any other stage stays.
    pub open spec fn after_approve(self) -> State {
        match self {
            State::PendingReview => State::Published,
            _ => self,
        }
    }

    /// What a post in this stage shows of the text `text`: all of it once it
    /// is published, nothing before.
    pub open spec fn shown(self, text: Seq<char>) -> Seq<char> {
        match self {
            State::Published => text,
            _ => Seq::empty(),
        }
    }

    fn request_review(self) -> (next: State)
        ensures
            next == self.after_request_review(),
    {
        match self {
            State::Draft => State::PendingReview,
            _ => self,
        }
    }

    fn reject(self) -> (next: State)
        ensures
            next == self.after_reject(),
    {
        match self {
            State::PendingReview => State::Draft,
            _ => self,
        }
    }

    fn approve(self) -> (next: State)
        ensures
            next == self.after_approve(),
    {
        match self {
            State::PendingReview => State::Published,
            _ => self,
        }
    }

    fn content<'a>(self, post: &'a Post) -> (shown: &'a str)
        ensures
            shown@ == self.shown(post.content@),
    {
        match self {
            State::Published => post.content.as_str(),
            _ => {
                proof {
                    reveal_strlit("");
                }
                ""
            },
        }
    }
}

/// What a post is, mathematically: its stage and the text written so far.
pub struct PostView {
    pub state: State,
    pub text: Seq<char>,
}

/// A blog post.
pub struct Post {
    state: State,
    content: String,
}

impl View for Post {
    type V = PostView;

    closed spec fn view(&self) -> PostView {
        PostView { state: self.state, text: self.content@ }
    }
}

impl Post {
    /// An empty draft.
    pub fn new() -> (post: Post)
        ensures
            post@ == (PostView { state: State::Draft, text: Seq::empty() }),
    {
        Post { state: State::Draft, content: String::new() }
    }

    /// Appends `text` to what is written, whatever the stage.
    pub fn add_text(&mut self, text: &str)
        ensures
            final(self)@ == (PostView { state: old(self)@.state, text: old(self)@.text + text@ }),
    {
        self.content.append(text);
    }

    /// What the post shows: its text once it is published, nothing before.
    pub fn content(&self) -> (shown: &str)
        ensures
            shown@ == self@.state.shown(self@.text),
    {
        self.state.content(self)
    }

    /// Asks for a review: a draft then waits for it, any other post stays as
    /// it is.
    pub fn request_review(&mut self)
        ensures
            final(self)@ == (PostView {
                state: old(self)@.state.after_request_review(),
                text: old(self)@.text,
            }),
    {
        self.state = self.state.request_review();
    }

    /// Rejects the post: one that waited for its review is a draft again,
    /// any other post stays as it is.
    pub fn reject(&mut self)
        ensures
            final(self)@ == (PostView {
                state: old(self)@.state.after_reject(),
                text: old(self)@.text,
            }),
    {
        self.state = self.state.reject();
    }

    /// Approves the post: one that waited for its review is published, any
    /// other post stays as it is.
    pub fn approve(&mut self)
        ensures
            final(self)@ == (PostView {
                state: old(self)@.state.after_approve(),
                text: old(self)@.text,
            }),
    {
        self.state = self.state.approve();
    }
}

/// No publication without review: an approval or a rejection leaves a draft
/// a draft; a request for review followed by an approval publishes it, and
/// followed by a rejection makes it a draft again.
pub proof fn lemma_no_publication_without_review(state: State)
    requires
        state == State::Draft,
    ensures
        state.after_approve() == State::Draft,
        state.after_reject() == State::Draft,
        state.after_request_review().after_approve() == State::Published,
        state.after_request_review().after_reject() == State::Draft,
{
}

/// A published post stays published.
pub proof fn lemma_published_is_final(state: State)
    requires
        state == State::Published,
    ensures
        state.after_request_review() == State::Published,
        state.after_reject() == State::Published,
        state.after_approve() == State::Published,
{
}

} // verus!
