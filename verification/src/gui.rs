//! A screen of components that each know how to draw themselves.

use vstd::prelude::*;
use vstd::string::StringExecFns;
use crate::text::{decimal, to_decimal};

verus! {

/// Something that can be drawn.
pub trait Draw {
    /// The text that the component draws itself as.
    spec fn drawing(&self) -> Seq<char>;

    /// Draws the component: returns the text that it shows.
    fn draw(&self) -> (text: String)
        ensures
            text@ == self.drawing(),
    ;
}

/// A screen: components of any kind, in the order in which they are drawn.
pub struct Screen {
    pub components: Vec<Box<dyn Draw>>,
}

impl Screen {
    /// Draws every component, first to last, and returns the drawings in
    /// that order.
    pub fn run(&self) -> (drawn: Vec<String>)
        ensures
            drawn@.len() == self.components@.len(),
            forall|i: int|
                0 <= i < drawn@.len() ==> (#[trigger] drawn@[i])@ == self.components@[i].drawing(),
    {
        let mut drawn: Vec<String> = Vec::new();
        let mut i: usize = 0;
        while i < self.components.len()
            invariant
                i <= self.components@.len(),
                drawn@.len() == i,
                forall|k: int|
                    0 <= k < i ==> (#[trigger] drawn@[k])@ == self.components@[k].drawing(),
            decreases self.components@.len() - i,
        {
            drawn.push(self.components[i].draw());
            i = i + 1;
        }
        drawn
    }
}

/// A button with a label.
#[derive(Debug)]
pub struct Button {
    pub width: u32,
    pub height: u32,
    pub label: String,
}

/// A text as `Debug` formatting writes a string: in double quotes, with
/// escapes for what cannot stand between them as it is.
pub uninterp spec fn quoted(text: Seq<char>) -> Seq<char>;

/// Formats `text` with `{:?}`. The result is known only by its name: the
/// quoted form of the argument, which depends on nothing else.
#[verifier::external_body]
fn quote(text: &str) -> (result: String)
    ensures
        result@ == quoted(text@),
{
    format!("{:?}", text)
}

/// The text that a button of the given width, height and label draws itself
/// as: its type and its three fields by name, the numbers in decimal and the
/// label quoted.
pub open spec fn button_text(width: u32, height: u32, label: Seq<char>) -> Seq<char> {
    "Button { width: "@ + decimal(width as nat) + ", height: "@ + decimal(height as nat)
        + ", label: "@ + quoted(label) + " }"@
}

impl Draw for Button {
    open spec fn drawing(&self) -> Seq<char> {
        button_text(self.width, self.height, self.label@)
    }

    fn draw(&self) -> (text: String) {
        let width = to_decimal(self.width as usize);
        let height = to_decimal(self.height as usize);
        let label = quote(self.label.as_str());
        let mut text = String::from_str("Button { width: ");
        text.append(width.as_str());
        text.append(", height: ");
        text.append(height.as_str());
        text.append(", label: ");
        text.append(label.as_str());
        text.append(" }");
        text
    }
}

} // verus!
