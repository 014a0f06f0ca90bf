//! A simple structure for holding basic card text.
use vstd::prelude::*;

verus! {

/// The title, subtitle and description printed on a card.
#[derive(Debug, Clone)]
pub struct CardText {
    title: String,
    subtitle: String,
    description: String,
}

impl CardText {
    /// Creates card text from its three parts.
    pub fn new(title: String, subtitle: String, description: String) -> (r: CardText)
        ensures
            r.spec_title() == title@,
            r.spec_subtitle() == subtitle@,
            r.spec_description() == description@,
    {
        CardText { title, subtitle, description }
    }

    /// The title, as characters.
    pub closed spec fn spec_title(&self) -> Seq<char> {
        self.title@
    }

    /// The subtitle, as characters.
    pub closed spec fn spec_subtitle(&self) -> Seq<char> {
        self.subtitle@
    }

    /// The description, as characters.
    pub closed spec fn spec_description(&self) -> Seq<char> {
        self.description@
    }

    /// The card's title.
    pub fn title(&self) -> (r: &str)
        ensures
            r@ == self.spec_title(),
    {
        self.title.as_str()
    }

    /// The card's subtitle.
    pub fn subtitle(&self) -> (r: &str)
        ensures
            r@ == self.spec_subtitle(),
    {
        self.subtitle.as_str()
    }

    /// The card's description.
    pub fn description(&self) -> (r: &str)
        ensures
            r@ == self.spec_description(),
    {
        self.description.as_str()
    }
}

} // verus!
