use vstd::prelude::*;

use crate::text::owned;

verus! {

/// A style of text.
#[derive(Debug, Clone, Copy, PartialEq, Eq, Structural)]
pub enum TextStyle {
    Bold,
    Italic,
}

/// A color of text or of its background.
#[derive(Debug, Clone, Copy, PartialEq, Eq, Structural)]
pub enum Color {
    Yellow,
    Blue,
    Red,
    White,
    Magenta,
}

/// A piece of text with the color, background and style it is shown with.
#[derive(Debug, Clone, Copy, PartialEq, Eq)]
pub struct StyledStr<'a> {
    pub value: &'a str,
    color_text: Option<Color>,
    color_bg: Option<Color>,
    style_text: Option<TextStyle>,
}

/// The model of a styled text: its characters and how they are shown.
pub struct StyledModel {
    pub value: Seq<char>,
    pub color_text: Option<Color>,
    pub color_bg: Option<Color>,
    pub style_text: Option<TextStyle>,
}

impl<'a> View for StyledStr<'a> {
    type V = StyledModel;

    closed spec fn view(&self) -> StyledModel {
        StyledModel {
            value: self.value@,
            color_text: self.color_text,
            color_bg: self.color_bg,
            style_text: self.style_text,
        }
    }
}

/// A plain text: no color, background or style.
pub open spec fn plain(s: Seq<char>) -> StyledModel {
    StyledModel { value: s, color_text: None, color_bg: None, style_text: None }
}

impl<'a> StyledStr<'a> {
    /// The same text in another color.
    pub fn with_color_text(self, color: Color) -> (r: Self)
        ensures
            r@ == (StyledModel { color_text: Some(color), ..self@ }),
    {
        StyledStr { color_text: Some(color), ..self }
    }

    /// The same text on another background.
    pub fn with_color_bg(self, color: Color) -> (r: Self)
        ensures
            r@ == (StyledModel { color_bg: Some(color), ..self@ }),
    {
        StyledStr { color_bg: Some(color), ..self }
    }

    /// The same text in another style.
    pub fn with_text_style(self, style: TextStyle) -> (r: Self)
        ensures
            r@ == (StyledModel { style_text: Some(style), ..self@ }),
    {
        StyledStr { style_text: Some(style), ..self }
    }

    /// A plain text.
    pub fn from(value: &'a str) -> (r: Self)
        ensures
            r@ == plain(value@),
    {
        StyledStr { value, color_text: None, color_bg: None, style_text: None }
    }

    /// The text itself, without its style.
    pub fn into_string(self) -> (r: String)
        ensures
            r@ == self@.value,
    {
        owned(self.value)
    }

    /// The text's color, where it has one.
    pub fn color_text(&self) -> (r: Option<Color>)
        ensures
            r == self@.color_text,
    {
        self.color_text
    }

    /// The text's background, where it has one.
    pub fn color_bg(&self) -> (r: Option<Color>)
        ensures
            r == self@.color_bg,
    {
        self.color_bg
    }

    /// The text's style, where it has one.
    pub fn style_text(&self) -> (r: Option<TextStyle>)
        ensures
            r == self@.style_text,
    {
        self.style_text
    }
}

/// The models of styled texts.
pub open spec fn styled_view<'a>(v: Seq<StyledStr<'a>>) -> Seq<StyledModel> {
    v.map_values(|s: StyledStr<'a>| s@)
}

/// Plain texts, one for each of the values, in order.
pub fn create_vec_styled_string_from<'a>(values: &Vec<&'a str>) -> (r: Vec<StyledStr<'a>>)
    ensures
        styled_view(r@) == values@.map_values(|s: &'a str| plain(s@)),
{
    let mut out: Vec<StyledStr<'a>> = Vec::new();
    let mut i: usize = 0;
    while i < values.len()
        invariant
            i <= values.len(),
            styled_view(out@) == values@.take(i as int).map_values(|s: &'a str| plain(s@)),
        decreases values.len() - i,
    {
        let ghost before = out@;
        let item = StyledStr::from(values[i]);
        out.push(item);
        proof {
            let f = |s: &'a str| plain(s@);
            assert(values@.take(i + 1) =~= values@.take(i as int).push(values@[i as int]));
            assert(out@ == before.push(item));
            assert(styled_view(out@) =~= styled_view(before).push(item@));
            assert(values@.take(i + 1).map_values(f) =~= values@.take(i as int).map_values(f).push(
                f(values@[i as int]),
            ));
        }
        i = i + 1;
    }
    assert(values@.take(values.len() as int) =~= values@);
    out
}

/// Law: setting the color, the background and the style changes nothing
/// but what each sets, so they may be set in any order.
pub proof fn lemma_styles_commute(s: StyledModel, c: Color, bg: Color, st: TextStyle)
    ensures
        (StyledModel { color_bg: Some(bg), ..StyledModel { color_text: Some(c), ..s } }) == (
        StyledModel { color_text: Some(c), ..StyledModel { color_bg: Some(bg), ..s } }),
        (StyledModel { style_text: Some(st), ..StyledModel { color_text: Some(c), ..s } }) == (
        StyledModel { color_text: Some(c), ..StyledModel { style_text: Some(st), ..s } }),
        (StyledModel { style_text: Some(st), ..StyledModel { color_bg: Some(bg), ..s } }) == (
        StyledModel { color_bg: Some(bg), ..StyledModel { style_text: Some(st), ..s } }),
{
}

} // verus!
