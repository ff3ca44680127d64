use vstd::prelude::*;
use vstd::string::StringExecFns;

verus! {

/// A value that can describe itself in one line.
pub trait Summary {
    /// The characters the one-line description consists of.
    spec fn summary(&self) -> Seq<char>;

    /// Produces the one-line description.
    fn summarize(&self) -> (r: String)
        ensures
            r@ == self.summary(),
    ;
}

/// A news article with a headline, a location, an author and a body.
pub struct NewsArticle {
    pub headline: String,
    pub location: String,
    pub author: String,
    pub content: String,
}

impl Summary for NewsArticle {
    /// `<headline>, by <author> (<location>)`
    open spec fn summary(&self) -> Seq<char> {
        self.headline@ + ", by "@ + self.author@ + " ("@ + self.location@ + ")"@
    }

    fn summarize(&self) -> (r: String) {
        let mut r = self.headline.clone();
        r.append(", by ");
        r.append(self.author.as_str());
        r.append(" (");
        r.append(self.location.as_str());
        r.append(")");
        r
    }
}

/// A short message with its author and reply/retweet flags.
pub struct Tweet {
    pub username: String,
    pub content: String,
    pub reply: bool,
    pub retweet: bool,
}

impl Summary for Tweet {
    /// `<username>: <content>`
    open spec fn summary(&self) -> Seq<char> {
        self.username@ + ": "@ + self.content@
    }

    fn summarize(&self) -> (r: String) {
        let mut r = self.username.clone();
        r.append(": ");
        r.append(self.content.as_str());
        r
    }
}

} // verus!
