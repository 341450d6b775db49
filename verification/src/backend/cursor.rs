//! Cursor shapes and how they restyle the cell under the cursor.

use vstd::prelude::*;
use crate::style::{apply_style, cell_style, CellView, Modifier, Style, REVERSED, UNDERLINED};

verus! {

/// Supported cursor shapes.
#[derive(Debug, Clone, Copy, PartialEq, Eq, Structural)]
pub enum CursorShape {
    /// A non blinking block cursor shape.
    SteadyBlock,
    /// A non blinking underscore cursor shape.
    SteadyUnderScore,
    /// This variant is only used to clear cursor.
    NoCursor,
}

impl Default for CursorShape {
    fn default() -> (r: CursorShape)
        ensures
            r == CursorShape::SteadyBlock,
    {
        CursorShape::SteadyBlock
    }
}

/// The modifier bits that draw a cursor of this shape.
pub open spec fn cursor_bits(shape: CursorShape) -> u16 {
    match shape {
        CursorShape::SteadyBlock => REVERSED,
        CursorShape::SteadyUnderScore => UNDERLINED,
        CursorShape::NoCursor => 0,
    }
}

/// A style with the cursor shape's modifier added.
pub open spec fn shown_style(shape: CursorShape, style: Style) -> Style {
    if shape is NoCursor {
        style
    } else {
        Style {
            add_modifier: Modifier { bits: style.add_modifier.bits | cursor_bits(shape) },
            sub_modifier: Modifier { bits: style.sub_modifier.bits & !cursor_bits(shape) },
            ..style
        }
    }
}

/// A style with the cursor shape's modifier removed.
pub open spec fn hidden_style(shape: CursorShape, style: Style) -> Style {
    if shape is NoCursor {
        style
    } else {
        Style {
            add_modifier: Modifier { bits: style.add_modifier.bits & !cursor_bits(shape) },
            sub_modifier: Modifier { bits: style.sub_modifier.bits | cursor_bits(shape) },
            ..style
        }
    }
}

/// A cell restyled to show the cursor on it.
pub open spec fn with_cursor(c: CellView, shape: CursorShape) -> CellView {
    apply_style(c, shown_style(shape, cell_style(c)))
}

/// A cell restyled to take the cursor off it.
pub open spec fn without_cursor(c: CellView, shape: CursorShape) -> CellView {
    apply_style(c, hidden_style(shape, cell_style(c)))
}

/// Hiding the cursor takes off what showing it put on: a cell that did not
/// already carry the shape's modifier comes back unchanged.
pub proof fn lemma_hide_undoes_show(c: CellView, shape: CursorShape)
    requires
        c.modifier.bits & cursor_bits(shape) == 0,
    ensures
        without_cursor(with_cursor(c, shape), shape) == c,
{
    let m = c.modifier.bits;
    let b = cursor_bits(shape);
    assert((((m | (m | b)) & !0u16) | ((((m | (m | b)) & !0u16)) & !b)) & !(0u16 | b) == m) by (bit_vector)
        requires
            m & b == 0u16,
    ;
    assert((m | m) & !0u16 == m) by (bit_vector);
    assert(0u16 & !b == 0u16) by (bit_vector);
}

/// A css field name and its value, if it has one.
pub type CssField = (Seq<char>, Option<Seq<char>>);

/// The css fields that describe a cursor shape.
pub open spec fn css_fields(shape: CursorShape) -> Seq<CssField> {
    match shape {
        CursorShape::SteadyBlock => seq![
            ("cursor"@, Some("block"@)),
            ("text-decoration"@, Some("none"@)),
        ],
        CursorShape::SteadyUnderScore => seq![
            ("cursor"@, Some("underscore"@)),
            ("text-decoration"@, Some("underline"@)),
        ],
        CursorShape::NoCursor => seq![("cursor"@, None), ("text-decoration"@, None)],
    }
}

/// The view of a css field held as strings.
pub open spec fn css_field_view(f: (String, Option<String>)) -> CssField {
    (f.0@, match f.1 {
        Some(v) => Some(v@),
        None => None,
    })
}

fn css_field(name: &str, value: Option<&str>) -> (r: (String, Option<String>))
    ensures
        r.0@ == name@,
        r.1 is Some <==> value is Some,
        value is Some ==> r.1.unwrap()@ == value.unwrap()@,
{
    let v = match value {
        Some(s) => Some(String::from_str(s)),
        None => None,
    };
    (String::from_str(name), v)
}

impl CursorShape {
    /// Transforms the given style to hide the cursor: the shape's modifier is removed.
    pub fn hide_style(&self, style: Style) -> (r: Style)
        ensures
            r == hidden_style(*self, style),
    {
        match self {
            CursorShape::SteadyBlock => style.remove_modifier(Modifier::from_bits(REVERSED)),
            CursorShape::SteadyUnderScore => style.remove_modifier(Modifier::from_bits(UNDERLINED)),
            CursorShape::NoCursor => style,
        }
    }

    /// Transforms the given style to show the cursor: the shape's modifier is added.
    pub fn show(&self, style: Style) -> (r: Style)
        ensures
            r == shown_style(*self, style),
    {
        match self {
            CursorShape::SteadyBlock => style.add_modifier(Modifier::from_bits(REVERSED)),
            CursorShape::SteadyUnderScore => style.add_modifier(Modifier::from_bits(UNDERLINED)),
            CursorShape::NoCursor => style,
        }
    }

    /// Adds the shape's modifier to a set of modifiers, as drawing the cursor does.
    pub fn show_modifiers(&self, m: Modifier) -> (r: Modifier)
        ensures
            r.bits == m.bits | cursor_bits(*self),
    {
        let r = match self {
            CursorShape::SteadyBlock => m.union(Modifier::from_bits(REVERSED)),
            CursorShape::SteadyUnderScore => m.union(Modifier::from_bits(UNDERLINED)),
            CursorShape::NoCursor => m,
        };
        proof {
            assert(m.bits | 0u16 == m.bits) by (bit_vector);
        }
        r
    }

    /// Returns a list of css fields and their values for this cursor shape.
    pub fn get_css_field_value(&self) -> (r: Vec<(String, Option<String>)>)
        ensures
            r@.map_values(|f: (String, Option<String>)| css_field_view(f)) == css_fields(*self),
    {
        let cursor = "cursor";
        let deco = "text-decoration";
        proof {
            reveal_strlit("cursor");
            reveal_strlit("text-decoration");
        }
        let mut v: Vec<(String, Option<String>)> = Vec::new();
        match self {
            CursorShape::SteadyBlock => {
                let block = "block";
                let none = "none";
                proof {
                    reveal_strlit("block");
                    reveal_strlit("none");
                }
                v.push(css_field(cursor, Some(block)));
                v.push(css_field(deco, Some(none)));
            },
            CursorShape::SteadyUnderScore => {
                let underscore = "underscore";
                let underline = "underline";
                proof {
                    reveal_strlit("underscore");
                    reveal_strlit("underline");
                }
                v.push(css_field(cursor, Some(underscore)));
                v.push(css_field(deco, Some(underline)));
            },
            CursorShape::NoCursor => {
                v.push(css_field(cursor, None));
                v.push(css_field(deco, None));
            },
        }
        assert(v@.map_values(|f: (String, Option<String>)| css_field_view(f)) =~= css_fields(*self));
        v
    }
}

} // verus!
