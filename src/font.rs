//! Where the color of a replaced `<font>` element comes from.
use vstd::prelude::*;

verus! {

/// The source of a color that must be carried over to the text of links.
/// An inline style takes precedence over a `color` attribute.
#[derive(Debug, Eq, PartialEq)]
pub enum ColorSource {
    InlineStyle(String),
    Attribute(String),
    Unset,
}

impl ColorSource {
    /// Takes the color of a `color` attribute, unless an inline style set one.
    pub fn set_from_attr(&mut self, value: String)
        ensures
            (*old(self) is InlineStyle) ==> *final(self) == *old(self),
            !(*old(self) is InlineStyle) ==> *final(self) == ColorSource::Attribute(value),
    {
        match self {
            ColorSource::InlineStyle(_) => {},
            ColorSource::Attribute(_) => {
                *self = ColorSource::Attribute(value);
            },
            ColorSource::Unset => {
                *self = ColorSource::Attribute(value);
            },
        }
    }

    /// Takes the color of an inline style.
    pub fn set_from_inline_style(&mut self, value: String)
        ensures
            *final(self) == ColorSource::InlineStyle(value),
    {
        *self = ColorSource::InlineStyle(value);
    }

    /// The style that sets the color, if any.
    pub fn into_style(self) -> (r: Option<String>)
        ensures
            match self {
                ColorSource::InlineStyle(style) => r == Some(style),
                ColorSource::Attribute(color) => r is Some && r->0@ == "color: "@ + color@ + ";"@,
                ColorSource::Unset => r is None,
            },
    {
        match self {
            ColorSource::InlineStyle(style) => Some(style),
            ColorSource::Attribute(color) => Some("color: ".to_owned().concat(color.as_str()).concat(";")),
            ColorSource::Unset => None,
        }
    }
}

} // verus!
