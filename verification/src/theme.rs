//! Icons and how they look.

use vstd::prelude::*;

verus! {

/// A colour, as the theme writes it. The rules carry it along and never read
/// it.
#[derive(Debug, PartialEq, Eq)]
pub struct Color(pub String);

impl View for Color {
    type V = Seq<char>;

    open spec fn view(&self) -> Seq<char> {
        self.0@
    }
}

impl Color {
    /// A copy of the colour.
    pub fn duplicate(&self) -> (r: Color)
        ensures
            r@ == self@,
    {
        Color(self.0.clone())
    }
}

/// How an icon is drawn.
#[derive(Debug, PartialEq, Eq)]
pub struct Style {
    /// The foreground colour; `None` leaves it to the surroundings.
    pub fg: Option<Color>,
}

/// An icon: a short text and its style.
#[derive(Debug, PartialEq, Eq)]
pub struct Icon {
    pub text: String,
    pub style: Style,
}

/// The mathematical model of an [`Icon`].
pub struct IconView {
    pub text: Seq<char>,
    pub fg: Option<Seq<char>>,
}

impl View for Icon {
    type V = IconView;

    open spec fn view(&self) -> IconView {
        IconView {
            text: self.text@,
            fg: match self.style.fg {
                Some(c) => Some(c@),
                None => None,
            },
        }
    }
}

impl Icon {
    /// The icon with the given text, in the given colour if there is one.
    pub fn new(text: &str, fg: Option<&Color>) -> (icon: Icon)
        ensures
            icon@ == (IconView {
                text: text@,
                fg: match fg {
                    Some(c) => Some(c@),
                    None => None,
                },
            }),
    {
        let fg = match fg {
            Some(c) => Some(c.duplicate()),
            None => None,
        };
        Icon { text: text.to_owned(), style: Style { fg } }
    }
}

} // verus!
