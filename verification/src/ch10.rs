//! Traits, generics and lifetimes: summaries, the longer of two
//! strings, and an excerpt borrowed from a longer text.

use vstd::prelude::*;
use vstd::string::{StringExecFns, StringSliceAdditionalSpecFns};

verus! {

/// Something that can describe itself and its author in one line.
pub trait Summary {
    fn summarize_author(&self) -> String;

    fn summarize(&self) -> String;
}

/// A news article.
pub struct NewsArticle {
    pub headline: String,
    pub location: String,
    pub author: String,
    pub content: String,
}

impl Summary for NewsArticle {
    fn summarize_author(&self) -> String {
        let mut r = String::from_str("author: ");
        r.append(self.author.as_str());
        r
    }

    fn summarize(&self) -> String {
        let mut r = self.headline.clone();
        r.append(", by ");
        r.append(self.author.as_str());
        r.append(" (");
        r.append(self.location.as_str());
        r.append(")");
        r
    }
}

/// A short post.
pub struct Tweet {
    pub username: String,
    pub content: String,
    pub reply: bool,
    pub retweet: bool,
}

impl Summary for Tweet {
    fn summarize_author(&self) -> String {
        let mut r = String::from_str("@");
        r.append(self.username.as_str());
        r
    }

    fn summarize(&self) -> String {
        let mut r = self.username.clone();
        r.append(": ");
        r.append(self.content.as_str());
        r
    }
}

/// The string with more bytes; ties go to the second.
pub fn longest<'a>(x: &'a str, y: &'a str) -> (r: &'a str)
    ensures
        x.spec_bytes().len() > y.spec_bytes().len() ==> r@ == x@,
        x.spec_bytes().len() <= y.spec_bytes().len() ==> r@ == y@,
{
    let lx = x.as_bytes().len();
    let ly = y.as_bytes().len();
    if lx > ly {
        x
    } else {
        y
    }
}

/// The largest element of a non-empty list.
pub fn largest(list: &Vec<i32>) -> (r: i32)
    requires
        list@.len() > 0,
    ensures
        forall|i: int| 0 <= i < list@.len() ==> list@[i] <= r,
        exists|i: int| 0 <= i < list@.len() && list@[i] == r,
{
    let mut best = list[0];
    let mut i: usize = 1;
    while i < list.len()
        invariant
            1 <= i <= list@.len(),
            forall|j: int| 0 <= j < i ==> list@[j] <= best,
            exists|j: int| 0 <= j < i && list@[j] == best,
        decreases list@.len() - i,
    {
        if list[i] > best {
            best = list[i];
        }
        i = i + 1;
    }
    best
}

/// The first part of a longer text, borrowed from it.
#[derive(Debug)]
pub struct ImportantExcerpt<'a> {
    pub part: &'a str,
}

impl<'a> ImportantExcerpt<'a> {
    /// Hand the stored excerpt back; the announcement is the caller's
    /// affair and does not change it.
    pub fn announce_and_return_part(&self, _announcement: &str) -> (r: &str)
        ensures
            r@ == self.part@,
    {
        self.part
    }
}

} // verus!
