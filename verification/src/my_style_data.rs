//! Style rules, the table of named rules, and the resolver that applies a
//! list of class names to a style, property by property.
//!
//! Numbers are held as their decimal text and colours as the text that was
//! authored: the resolver decides which value a property ends up with and
//! never computes with the values themselves.
use crate::json::{parse_json_bytes, parsed_json, utf8_lossy, Json, LoadError};
use crate::table::{last_value, NameTable};
use crate::text::{split_on, split_on_char, str_eq};
use vstd::prelude::*;

verus! {

/// The font size, in pixels, that stands in for a size that cannot be read.
pub const DEFAULT_FONT_PX: u32 = 16;

/// One rule of a style document. Every property is optional, and a property
/// that is absent leaves the target untouched. Numeric properties hold the
/// decimal text of the number.
#[derive(Clone, Debug, PartialEq, Eq)]
pub struct StyleRule {
    pub size_full: Option<bool>,
    pub bg_color: Option<String>,
    pub text_color: Option<String>,
    pub font_size: Option<String>,
    pub font_weight: Option<String>,
    pub display: Option<String>,
    pub justify_content: Option<String>,
    pub align_items: Option<String>,
    pub align_self: Option<String>,
    pub flex_direction: Option<String>,
    pub flex_grow: Option<String>,
    pub flex_shrink: Option<String>,
    pub width: Option<String>,
    pub height: Option<String>,
    pub shadow: Option<String>,
    pub border_width: Option<String>,
    pub border_color: Option<String>,
    pub border_style: Option<String>,
    pub rounded: Option<String>,
    pub margin: Option<String>,
    pub margin_top: Option<String>,
    pub margin_right: Option<String>,
    pub margin_bottom: Option<String>,
    pub margin_left: Option<String>,
    pub padding: Option<String>,
    pub padding_top: Option<String>,
    pub padding_right: Option<String>,
    pub padding_bottom: Option<String>,
    pub padding_left: Option<String>,
    pub gap: Option<String>,
}

/// How an element takes part in layout.
#[derive(Clone, Copy, Debug, PartialEq, Eq)]
pub enum DisplayMode {
    Block,
    Flex,
    Grid,
    Hidden,
}

/// Distribution of children along the main axis.
#[derive(Clone, Copy, Debug, PartialEq, Eq)]
pub enum JustifyContent {
    Center,
    FlexStart,
    Start,
    FlexEnd,
    End,
    SpaceBetween,
    SpaceAround,
    SpaceEvenly,
    Stretch,
}

/// Alignment of children along the cross axis.
#[derive(Clone, Copy, Debug, PartialEq, Eq)]
pub enum AlignItems {
    Center,
    Start,
    End,
    Baseline,
    Stretch,
}

/// Alignment of one element along its parent's cross axis.
#[derive(Clone, Copy, Debug, PartialEq, Eq)]
pub enum AlignSelf {
    Center,
    FlexStart,
    Start,
    FlexEnd,
    End,
    Baseline,
    Stretch,
}

/// The main axis of a flex container.
#[derive(Clone, Copy, Debug, PartialEq, Eq)]
pub enum FlexDirection {
    Row,
    Column,
}

/// A preset drop shadow.
#[derive(Clone, Copy, Debug, PartialEq, Eq)]
pub enum Shadow {
    Xxs,
    Xs,
    Sm,
    Md,
    Lg,
    Xl,
    Xxl,
    Off,
}

/// A preset corner radius.
#[derive(Clone, Copy, Debug, PartialEq, Eq)]
pub enum Rounded {
    Md,
    Lg,
    Full,
}

/// An extent along one axis.
#[derive(Clone, Debug, PartialEq, Eq)]
pub enum Length {
    /// All of the parent's extent.
    Full,
    /// A number of pixels, as decimal text.
    Px(String),
}

/// A text size.
#[derive(Clone, Debug, PartialEq, Eq)]
pub enum FontSize {
    /// A whole number of pixels, from a named size.
    Px(u32),
    /// A size written out as a number. A consumer that cannot read the text
    /// as a number uses [`DEFAULT_FONT_PX`].
    Literal(String),
}

/// Spacing on the four sides of an element, each as decimal text.
#[derive(Clone, Debug, PartialEq, Eq)]
pub struct Edges {
    pub top: String,
    pub right: String,
    pub bottom: String,
    pub left: String,
}

/// The visual properties that have been set on an element so far. `None`
/// means that nothing has set the property.
#[derive(Clone, Debug, PartialEq, Eq)]
pub struct Style {
    pub width: Option<Length>,
    pub height: Option<Length>,
    pub bg_color: Option<String>,
    pub text_color: Option<String>,
    pub font_size: Option<FontSize>,
    pub font_weight: Option<String>,
    pub display: Option<DisplayMode>,
    pub justify_content: Option<JustifyContent>,
    pub align_items: Option<AlignItems>,
    pub align_self: Option<AlignSelf>,
    pub flex_direction: Option<FlexDirection>,
    pub flex_grow: Option<String>,
    pub flex_shrink: Option<String>,
    pub shadow: Option<Shadow>,
    pub border_width: Option<String>,
    pub border_color: Option<String>,
    pub border_dashed: bool,
    pub gap: Option<String>,
    pub rounded: Option<Rounded>,
    pub margin: Option<Edges>,
    pub padding: Option<Edges>,
}

/// Model of a [`Length`].
pub enum LengthView {
    Full,
    Px(Seq<char>),
}

/// Model of a [`FontSize`].
pub enum FontSizeView {
    Px(u32),
    Literal(Seq<char>),
}

/// Model of an [`Edges`].
pub struct EdgesView {
    pub top: Seq<char>,
    pub right: Seq<char>,
    pub bottom: Seq<char>,
    pub left: Seq<char>,
}

/// Model of a [`Style`].
pub struct StyleView {
    pub width: Option<LengthView>,
    pub height: Option<LengthView>,
    pub bg_color: Option<Seq<char>>,
    pub text_color: Option<Seq<char>>,
    pub font_size: Option<FontSizeView>,
    pub font_weight: Option<Seq<char>>,
    pub display: Option<DisplayMode>,
    pub justify_content: Option<JustifyContent>,
    pub align_items: Option<AlignItems>,
    pub align_self: Option<AlignSelf>,
    pub flex_direction: Option<FlexDirection>,
    pub flex_grow: Option<Seq<char>>,
    pub flex_shrink: Option<Seq<char>>,
    pub shadow: Option<Shadow>,
    pub border_width: Option<Seq<char>>,
    pub border_color: Option<Seq<char>>,
    pub border_dashed: bool,
    pub gap: Option<Seq<char>>,
    pub rounded: Option<Rounded>,
    pub margin: Option<EdgesView>,
    pub padding: Option<EdgesView>,
}

/// The characters of an optional string.
pub open spec fn text_of(s: Option<String>) -> Option<Seq<char>> {
    match s {
        Some(t) => Some(t@),
        None => None,
    }
}

impl View for Length {
    type V = LengthView;

    open spec fn view(&self) -> LengthView {
        match *self {
            Length::Full => LengthView::Full,
            Length::Px(t) => LengthView::Px(t@),
        }
    }
}

impl View for FontSize {
    type V = FontSizeView;

    open spec fn view(&self) -> FontSizeView {
        match *self {
            FontSize::Px(n) => FontSizeView::Px(n),
            FontSize::Literal(t) => FontSizeView::Literal(t@),
        }
    }
}

impl View for Edges {
    type V = EdgesView;

    open spec fn view(&self) -> EdgesView {
        EdgesView { top: self.top@, right: self.right@, bottom: self.bottom@, left: self.left@ }
    }
}

/// The model of an optional length.
pub open spec fn length_of(l: Option<Length>) -> Option<LengthView> {
    match l {
        Some(x) => Some(x@),
        None => None,
    }
}

/// The model of an optional font size.
pub open spec fn font_size_of(f: Option<FontSize>) -> Option<FontSizeView> {
    match f {
        Some(x) => Some(x@),
        None => None,
    }
}

/// The model of optional edges.
pub open spec fn edges_of(e: Option<Edges>) -> Option<EdgesView> {
    match e {
        Some(x) => Some(x@),
        None => None,
    }
}

impl View for Style {
    type V = StyleView;

    open spec fn view(&self) -> StyleView {
        StyleView {
            width: length_of(self.width),
            height: length_of(self.height),
            bg_color: text_of(self.bg_color),
            text_color: text_of(self.text_color),
            font_size: font_size_of(self.font_size),
            font_weight: text_of(self.font_weight),
            display: self.display,
            justify_content: self.justify_content,
            align_items: self.align_items,
            align_self: self.align_self,
            flex_direction: self.flex_direction,
            flex_grow: text_of(self.flex_grow),
            flex_shrink: text_of(self.flex_shrink),
            shadow: self.shadow,
            border_width: text_of(self.border_width),
            border_color: text_of(self.border_color),
            border_dashed: self.border_dashed,
            gap: text_of(self.gap),
            rounded: self.rounded,
            margin: edges_of(self.margin),
            padding: edges_of(self.padding),
        }
    }
}

impl StyleView {
    /// The style on which nothing has been set.
    pub open spec fn unset() -> StyleView {
        StyleView {
            width: None,
            height: None,
            bg_color: None,
            text_color: None,
            font_size: None,
            font_weight: None,
            display: None,
            justify_content: None,
            align_items: None,
            align_self: None,
            flex_direction: None,
            flex_grow: None,
            flex_shrink: None,
            shadow: None,
            border_width: None,
            border_color: None,
            border_dashed: false,
            gap: None,
            rounded: None,
            margin: None,
            padding: None,
        }
    }
}

impl Style {
    /// A style on which nothing has been set.
    pub fn new() -> (r: Style)
        ensures
            r@ == StyleView::unset(),
    {
        Style {
            width: None,
            height: None,
            bg_color: None,
            text_color: None,
            font_size: None,
            font_weight: None,
            display: None,
            justify_content: None,
            align_items: None,
            align_self: None,
            flex_direction: None,
            flex_grow: None,
            flex_shrink: None,
            shadow: None,
            border_width: None,
            border_color: None,
            border_dashed: false,
            gap: None,
            rounded: None,
            margin: None,
            padding: None,
        }
    }
}

impl Default for Style {
    fn default() -> (r: Style)
        ensures
            r@ == StyleView::unset(),
    {
        Style::new()
    }
}

impl StyleRule {
    /// Whether the rule sets no property at all.
    pub open spec fn is_unset(self) -> bool {
        &&& self.size_full is None
        &&& self.bg_color is None
        &&& self.text_color is None
        &&& self.font_size is None
        &&& self.font_weight is None
        &&& self.display is None
        &&& self.justify_content is None
        &&& self.align_items is None
        &&& self.align_self is None
        &&& self.flex_direction is None
        &&& self.flex_grow is None
        &&& self.flex_shrink is None
        &&& self.width is None
        &&& self.height is None
        &&& self.shadow is None
        &&& self.border_width is None
        &&& self.border_color is None
        &&& self.border_style is None
        &&& self.rounded is None
        &&& self.margin is None
        &&& self.margin_top is None
        &&& self.margin_right is None
        &&& self.margin_bottom is None
        &&& self.margin_left is None
        &&& self.padding is None
        &&& self.padding_top is None
        &&& self.padding_right is None
        &&& self.padding_bottom is None
        &&& self.padding_left is None
        &&& self.gap is None
    }

    /// The rule that sets nothing.
    pub fn new() -> (r: StyleRule)
        ensures
            r.is_unset(),
    {
        StyleRule {
            size_full: None,
            bg_color: None,
            text_color: None,
            font_size: None,
            font_weight: None,
            display: None,
            justify_content: None,
            align_items: None,
            align_self: None,
            flex_direction: None,
            flex_grow: None,
            flex_shrink: None,
            width: None,
            height: None,
            shadow: None,
            border_width: None,
            border_color: None,
            border_style: None,
            rounded: None,
            margin: None,
            margin_top: None,
            margin_right: None,
            margin_bottom: None,
            margin_left: None,
            padding: None,
            padding_top: None,
            padding_right: None,
            padding_bottom: None,
            padding_left: None,
            gap: None,
        }
    }
}

impl Default for StyleRule {
    fn default() -> (r: StyleRule)
        ensures
            r.is_unset(),
    {
        StyleRule::new()
    }
}

/// The size that a `font_size` value stands for: one of the named sizes, or
/// the value itself, taken as a number.
pub open spec fn font_size_token(s: Seq<char>) -> FontSizeView {
    if s == "sm"@ {
        FontSizeView::Px(12)
    } else if s == "base"@ {
        FontSizeView::Px(16)
    } else if s == "lg"@ {
        FontSizeView::Px(20)
    } else if s == "xl"@ {
        FontSizeView::Px(24)
    } else if s == "2xl"@ {
        FontSizeView::Px(32)
    } else {
        FontSizeView::Literal(s)
    }
}

/// The display mode that a `display` value names, if any.
pub open spec fn display_token(s: Seq<char>) -> Option<DisplayMode> {
    if s == "block"@ {
        Some(DisplayMode::Block)
    } else if s == "flex"@ {
        Some(DisplayMode::Flex)
    } else if s == "grid"@ {
        Some(DisplayMode::Grid)
    } else if s == "none"@ {
        Some(DisplayMode::Hidden)
    } else {
        None
    }
}

/// The distribution that a `justify_content` value names, if any.
pub open spec fn justify_token(s: Seq<char>) -> Option<JustifyContent> {
    if s == "center"@ {
        Some(JustifyContent::Center)
    } else if s == "flex-start"@ {
        Some(JustifyContent::FlexStart)
    } else if s == "start"@ {
        Some(JustifyContent::Start)
    } else if s == "flex-end"@ {
        Some(JustifyContent::FlexEnd)
    } else if s == "end"@ {
        Some(JustifyContent::End)
    } else if s == "space-between"@ {
        Some(JustifyContent::SpaceBetween)
    } else if s == "space-around"@ {
        Some(JustifyContent::SpaceAround)
    } else if s == "space-evenly"@ {
        Some(JustifyContent::SpaceEvenly)
    } else if s == "stretch"@ {
        Some(JustifyContent::Stretch)
    } else {
        None
    }
}

/// The alignment that an `align_items` value names, if any. `flex-start`
/// and `start` name the same alignment, and so do `flex-end` and `end`.
pub open spec fn align_items_token(s: Seq<char>) -> Option<AlignItems> {
    if s == "center"@ {
        Some(AlignItems::Center)
    } else if s == "flex-start"@ || s == "start"@ {
        Some(AlignItems::Start)
    } else if s == "flex-end"@ || s == "end"@ {
        Some(AlignItems::End)
    } else if s == "baseline"@ {
        Some(AlignItems::Baseline)
    } else if s == "stretch"@ {
        Some(AlignItems::Stretch)
    } else {
        None
    }
}

/// The alignment that an `align_self` value names, if any.
pub open spec fn align_self_token(s: Seq<char>) -> Option<AlignSelf> {
    if s == "center"@ {
        Some(AlignSelf::Center)
    } else if s == "flex-start"@ {
        Some(AlignSelf::FlexStart)
    } else if s == "start"@ {
        Some(AlignSelf::Start)
    } else if s == "flex-end"@ {
        Some(AlignSelf::FlexEnd)
    } else if s == "end"@ {
        Some(AlignSelf::End)
    } else if s == "baseline"@ {
        Some(AlignSelf::Baseline)
    } else if s == "stretch"@ {
        Some(AlignSelf::Stretch)
    } else {
        None
    }
}

/// The axis that a `flex_direction` value names, if any.
pub open spec fn flex_direction_token(s: Seq<char>) -> Option<FlexDirection> {
    if s == "row"@ {
        Some(FlexDirection::Row)
    } else if s == "column"@ {
        Some(FlexDirection::Column)
    } else {
        None
    }
}

/// The drop shadow that a `shadow` value names, if any.
pub open spec fn shadow_token(s: Seq<char>) -> Option<Shadow> {
    if s == "2xs"@ {
        Some(Shadow::Xxs)
    } else if s == "xs"@ {
        Some(Shadow::Xs)
    } else if s == "sm"@ {
        Some(Shadow::Sm)
    } else if s == "md"@ {
        Some(Shadow::Md)
    } else if s == "lg"@ {
        Some(Shadow::Lg)
    } else if s == "xl"@ {
        Some(Shadow::Xl)
    } else if s == "2xl"@ {
        Some(Shadow::Xxl)
    } else if s == "none"@ {
        Some(Shadow::Off)
    } else {
        None
    }
}

/// The corner radius that a `rounded` value names, if any.
pub open spec fn rounded_token(s: Seq<char>) -> Option<Rounded> {
    if s == "md"@ {
        Some(Rounded::Md)
    } else if s == "lg"@ {
        Some(Rounded::Lg)
    } else if s == "full"@ {
        Some(Rounded::Full)
    } else {
        None
    }
}

/// Reads a `font_size` value: `sm` is 12, `base` 16, `lg` 20, `xl` 24 and
/// `2xl` 32 pixels; names are case-sensitive. Any other value is kept as the
/// number it is meant to be.
pub fn parse_font_size(size: &str) -> (r: FontSize)
    ensures
        r@ == font_size_token(size@),
{
    if str_eq(size, "sm") {
        FontSize::Px(12)
    } else if str_eq(size, "base") {
        FontSize::Px(16)
    } else if str_eq(size, "lg") {
        FontSize::Px(20)
    } else if str_eq(size, "xl") {
        FontSize::Px(24)
    } else if str_eq(size, "2xl") {
        FontSize::Px(32)
    } else {
        FontSize::Literal(size.to_owned())
    }
}

/// Reads a `display` value.
pub fn parse_display(s: &str) -> (r: Option<DisplayMode>)
    ensures
        r == display_token(s@),
{
    if str_eq(s, "block") {
        Some(DisplayMode::Block)
    } else if str_eq(s, "flex") {
        Some(DisplayMode::Flex)
    } else if str_eq(s, "grid") {
        Some(DisplayMode::Grid)
    } else if str_eq(s, "none") {
        Some(DisplayMode::Hidden)
    } else {
        None
    }
}

/// Reads a `justify_content` value.
pub fn parse_justify_content(s: &str) -> (r: Option<JustifyContent>)
    ensures
        r == justify_token(s@),
{
    if str_eq(s, "center") {
        Some(JustifyContent::Center)
    } else if str_eq(s, "flex-start") {
        Some(JustifyContent::FlexStart)
    } else if str_eq(s, "start") {
        Some(JustifyContent::Start)
    } else if str_eq(s, "flex-end") {
        Some(JustifyContent::FlexEnd)
    } else if str_eq(s, "end") {
        Some(JustifyContent::End)
    } else if str_eq(s, "space-between") {
        Some(JustifyContent::SpaceBetween)
    } else if str_eq(s, "space-around") {
        Some(JustifyContent::SpaceAround)
    } else if str_eq(s, "space-evenly") {
        Some(JustifyContent::SpaceEvenly)
    } else if str_eq(s, "stretch") {
        Some(JustifyContent::Stretch)
    } else {
        None
    }
}

/// Reads an `align_items` value.
pub fn parse_align_items(s: &str) -> (r: Option<AlignItems>)
    ensures
        r == align_items_token(s@),
{
    if str_eq(s, "center") {
        Some(AlignItems::Center)
    } else if str_eq(s, "flex-start") || str_eq(s, "start") {
        Some(AlignItems::Start)
    } else if str_eq(s, "flex-end") || str_eq(s, "end") {
        Some(AlignItems::End)
    } else if str_eq(s, "baseline") {
        Some(AlignItems::Baseline)
    } else if str_eq(s, "stretch") {
        Some(AlignItems::Stretch)
    } else {
        None
    }
}

/// Reads an `align_self` value.
pub fn parse_align_self(s: &str) -> (r: Option<AlignSelf>)
    ensures
        r == align_self_token(s@),
{
    if str_eq(s, "center") {
        Some(AlignSelf::Center)
    } else if str_eq(s, "flex-start") {
        Some(AlignSelf::FlexStart)
    } else if str_eq(s, "start") {
        Some(AlignSelf::Start)
    } else if str_eq(s, "flex-end") {
        Some(AlignSelf::FlexEnd)
    } else if str_eq(s, "end") {
        Some(AlignSelf::End)
    } else if str_eq(s, "baseline") {
        Some(AlignSelf::Baseline)
    } else if str_eq(s, "stretch") {
        Some(AlignSelf::Stretch)
    } else {
        None
    }
}

/// Reads a `flex_direction` value.
pub fn parse_flex_direction(s: &str) -> (r: Option<FlexDirection>)
    ensures
        r == flex_direction_token(s@),
{
    if str_eq(s, "row") {
        Some(FlexDirection::Row)
    } else if str_eq(s, "column") {
        Some(FlexDirection::Column)
    } else {
        None
    }
}

/// Reads a `shadow` value.
pub fn parse_shadow(s: &str) -> (r: Option<Shadow>)
    ensures
        r == shadow_token(s@),
{
    if str_eq(s, "2xs") {
        Some(Shadow::Xxs)
    } else if str_eq(s, "xs") {
        Some(Shadow::Xs)
    } else if str_eq(s, "sm") {
        Some(Shadow::Sm)
    } else if str_eq(s, "md") {
        Some(Shadow::Md)
    } else if str_eq(s, "lg") {
        Some(Shadow::Lg)
    } else if str_eq(s, "xl") {
        Some(Shadow::Xl)
    } else if str_eq(s, "2xl") {
        Some(Shadow::Xxl)
    } else if str_eq(s, "none") {
        Some(Shadow::Off)
    } else {
        None
    }
}

/// Reads a `rounded` value.
pub fn parse_rounded(s: &str) -> (r: Option<Rounded>)
    ensures
        r == rounded_token(s@),
{
    if str_eq(s, "md") {
        Some(Rounded::Md)
    } else if str_eq(s, "lg") {
        Some(Rounded::Lg)
    } else if str_eq(s, "full") {
        Some(Rounded::Full)
    } else {
        None
    }
}

/// A property that holds text: the rule's value where it has one, else what
/// was there.
pub open spec fn text_after(before: Option<Seq<char>>, set: Option<String>) -> Option<Seq<char>> {
    match set {
        Some(t) => Some(t@),
        None => before,
    }
}

/// An extent: the rule's number of pixels where it has one; else the full
/// extent where the rule asks for full size; else what was there.
pub open spec fn length_after(before: Option<LengthView>, full: Option<bool>, px: Option<String>) -> Option<
    LengthView,
> {
    match px {
        Some(t) => Some(LengthView::Px(t@)),
        None => if full == Some(true) {
            Some(LengthView::Full)
        } else {
            before
        },
    }
}

/// A property chosen by a token: what the rule's value names where it names
/// something, else what was there.
pub open spec fn choice_after<T>(before: Option<T>, named: Option<T>) -> Option<T> {
    match named {
        Some(x) => Some(x),
        None => before,
    }
}

/// What the rule's `display` value names.
pub open spec fn rule_display(rule: StyleRule) -> Option<DisplayMode> {
    match rule.display {
        Some(t) => display_token(t@),
        None => None,
    }
}

/// What the rule's `justify_content` value names.
pub open spec fn rule_justify(rule: StyleRule) -> Option<JustifyContent> {
    match rule.justify_content {
        Some(t) => justify_token(t@),
        None => None,
    }
}

/// What the rule's `align_items` value names.
pub open spec fn rule_align_items(rule: StyleRule) -> Option<AlignItems> {
    match rule.align_items {
        Some(t) => align_items_token(t@),
        None => None,
    }
}

/// What the rule's `align_self` value names.
pub open spec fn rule_align_self(rule: StyleRule) -> Option<AlignSelf> {
    match rule.align_self {
        Some(t) => align_self_token(t@),
        None => None,
    }
}

/// What the rule's `flex_direction` value names.
pub open spec fn rule_flex_direction(rule: StyleRule) -> Option<FlexDirection> {
    match rule.flex_direction {
        Some(t) => flex_direction_token(t@),
        None => None,
    }
}

/// What the rule's `shadow` value names.
pub open spec fn rule_shadow(rule: StyleRule) -> Option<Shadow> {
    match rule.shadow {
        Some(t) => shadow_token(t@),
        None => None,
    }
}

/// What the rule's `rounded` value names.
pub open spec fn rule_rounded(rule: StyleRule) -> Option<Rounded> {
    match rule.rounded {
        Some(t) => rounded_token(t@),
        None => None,
    }
}

/// Whether the rule asks for a dashed border.
pub open spec fn rule_dashed(rule: StyleRule) -> bool {
    match rule.border_style {
        Some(t) => t@ == "dashed"@,
        None => false,
    }
}

/// The text size that the rule selects.
pub open spec fn rule_font_size(rule: StyleRule) -> Option<FontSizeView> {
    match rule.font_size {
        Some(t) => Some(font_size_token(t@)),
        None => None,
    }
}

/// The spacing on one side: the value for that side where the rule has one,
/// else the value for all sides, else zero.
pub open spec fn edge_text(side: Option<String>, all: Option<String>) -> Seq<char> {
    match side {
        Some(t) => t@,
        None => match all {
            Some(t) => t@,
            None => "0"@,
        },
    }
}

/// The margin that the rule gives. It depends on the rule alone.
pub open spec fn rule_margin(rule: StyleRule) -> EdgesView {
    EdgesView {
        top: edge_text(rule.margin_top, rule.margin),
        right: edge_text(rule.margin_right, rule.margin),
        bottom: edge_text(rule.margin_bottom, rule.margin),
        left: edge_text(rule.margin_left, rule.margin),
    }
}

/// The padding that the rule gives. It depends on the rule alone.
pub open spec fn rule_padding(rule: StyleRule) -> EdgesView {
    EdgesView {
        top: edge_text(rule.padding_top, rule.padding),
        right: edge_text(rule.padding_right, rule.padding),
        bottom: edge_text(rule.padding_bottom, rule.padding),
        left: edge_text(rule.padding_left, rule.padding),
    }
}

/// The style after one rule has been applied to it. A property that the
/// rule sets takes the rule's value; one that it does not set, or sets to a
/// value that names nothing, keeps what it had. Margin and padding are the
/// exception: they are always replaced by what the rule gives, which is zero
/// on every side that the rule says nothing about.
pub open spec fn apply_rule(style: StyleView, rule: StyleRule) -> StyleView {
    StyleView {
        width: length_after(style.width, rule.size_full, rule.width),
        height: length_after(style.height, rule.size_full, rule.height),
        bg_color: text_after(style.bg_color, rule.bg_color),
        text_color: text_after(style.text_color, rule.text_color),
        font_size: choice_after(style.font_size, rule_font_size(rule)),
        font_weight: text_after(style.font_weight, rule.font_weight),
        display: choice_after(style.display, rule_display(rule)),
        justify_content: choice_after(style.justify_content, rule_justify(rule)),
        align_items: choice_after(style.align_items, rule_align_items(rule)),
        align_self: choice_after(style.align_self, rule_align_self(rule)),
        flex_direction: choice_after(style.flex_direction, rule_flex_direction(rule)),
        flex_grow: text_after(style.flex_grow, rule.flex_grow),
        flex_shrink: text_after(style.flex_shrink, rule.flex_shrink),
        shadow: choice_after(style.shadow, rule_shadow(rule)),
        border_width: text_after(style.border_width, rule.border_width),
        border_color: text_after(style.border_color, rule.border_color),
        border_dashed: style.border_dashed || rule_dashed(rule),
        gap: text_after(style.gap, rule.gap),
        rounded: choice_after(style.rounded, rule_rounded(rule)),
        margin: Some(rule_margin(rule)),
        padding: Some(rule_padding(rule)),
    }
}

/// The spacing on one side of an element.
fn edge(side: &Option<String>, all: &Option<String>) -> (r: String)
    ensures
        r@ == edge_text(*side, *all),
{
    match side {
        Some(t) => t.clone(),
        None => match all {
            Some(t) => t.clone(),
            None => "0".to_owned(),
        },
    }
}

/// The table of rules by class name.
pub type StyleMap = NameTable<StyleRule>;

/// The style rules that are in force.
#[derive(Clone, Debug, PartialEq, Eq)]
pub struct MyStyleData {
    pub style_map: StyleMap,
}

/// The style after the rules that `names` stand for have been applied in
/// order. A name that stands for no rule changes nothing.
pub open spec fn cascade(style: StyleView, names: Seq<Seq<char>>, map: StyleMap) -> StyleView
    decreases names.len(),
{
    if names.len() == 0 {
        style
    } else {
        let before = cascade(style, names.drop_last(), map);
        match map.lookup(names.last()) {
            Some(rule) => apply_rule(before, rule),
            None => before,
        }
    }
}

/// The style after a space-separated list of class names has been applied.
pub open spec fn classify(style: StyleView, classes: Seq<char>, data: MyStyleData) -> StyleView {
    cascade(style, split_on(classes, ' '), data.style_map)
}

/// Something that style rules can be applied to.
pub trait StylableElement: Sized {
    /// The properties that have been set on the element.
    spec fn style(&self) -> StyleView;

    /// Applies every property that `rule` sets; see [`apply_rule`].
    fn apply_style_rule(self, rule: &StyleRule) -> (r: Self)
        ensures
            r.style() == apply_rule(self.style(), *rule),
    ;

    /// Applies the rules that the space-separated names in `classes` stand
    /// for, in the order of the names. A name that the table does not hold
    /// is passed over.
    fn class(self, classes: &str, style_data: &MyStyleData) -> (r: Self)
        ensures
            r.style() == classify(self.style(), classes@, *style_data),
    {
        let names = split_on_char(classes, ' ');
        let ghost start = self.style();
        let ghost wanted = split_on(classes@, ' ');
        let mut out = self;
        let mut i: usize = 0;
        while i < names.len()
            invariant
                0 <= i <= names.len(),
                names@.len() == wanted.len(),
                forall|k: int| 0 <= k < names@.len() ==> (#[trigger] names@[k])@ == wanted[k],
                out.style() == cascade(start, wanted.take(i as int), style_data.style_map),
            decreases names.len() - i,
        {
            proof {
                assert(wanted.take(i + 1).drop_last() == wanted.take(i as int));
            }
            if let Some(rule) = style_data.style_map.get(names[i].as_str()) {
                out = out.apply_style_rule(rule);
            }
            i += 1;
        }
        proof {
            assert(wanted.take(i as int) == wanted);
        }
        out
    }
}

impl StylableElement for Style {
    open spec fn style(&self) -> StyleView {
        self@
    }

    fn apply_style_rule(self, rule: &StyleRule) -> (r: Style) {
        let dashed = match &rule.border_style {
            Some(t) => str_eq(t.as_str(), "dashed"),
            None => false,
        };
        Style {
            width: next_length(self.width, rule.size_full, &rule.width),
            height: next_length(self.height, rule.size_full, &rule.height),
            bg_color: next_text(self.bg_color, &rule.bg_color),
            text_color: next_text(self.text_color, &rule.text_color),
            font_size: next_font_size(self.font_size, &rule.font_size),
            font_weight: next_text(self.font_weight, &rule.font_weight),
            display: next_choice(self.display, display_in(rule)),
            justify_content: next_choice(self.justify_content, justify_in(rule)),
            align_items: next_choice(self.align_items, align_items_in(rule)),
            align_self: next_choice(self.align_self, align_self_in(rule)),
            flex_direction: next_choice(self.flex_direction, flex_direction_in(rule)),
            flex_grow: next_text(self.flex_grow, &rule.flex_grow),
            flex_shrink: next_text(self.flex_shrink, &rule.flex_shrink),
            shadow: next_choice(self.shadow, shadow_in(rule)),
            border_width: next_text(self.border_width, &rule.border_width),
            border_color: next_text(self.border_color, &rule.border_color),
            border_dashed: self.border_dashed || dashed,
            gap: next_text(self.gap, &rule.gap),
            rounded: next_choice(self.rounded, rounded_in(rule)),
            margin: Some(
                Edges {
                    top: edge(&rule.margin_top, &rule.margin),
                    right: edge(&rule.margin_right, &rule.margin),
                    bottom: edge(&rule.margin_bottom, &rule.margin),
                    left: edge(&rule.margin_left, &rule.margin),
                },
            ),
            padding: Some(
                Edges {
                    top: edge(&rule.padding_top, &rule.padding),
                    right: edge(&rule.padding_right, &rule.padding),
                    bottom: edge(&rule.padding_bottom, &rule.padding),
                    left: edge(&rule.padding_left, &rule.padding),
                },
            ),
        }
    }
}

fn next_text(before: Option<String>, set: &Option<String>) -> (r: Option<String>)
    ensures
        text_of(r) == text_after(text_of(before), *set),
{
    match set {
        Some(t) => Some(t.clone()),
        None => before,
    }
}

fn next_length(before: Option<Length>, full: Option<bool>, px: &Option<String>) -> (r: Option<Length>)
    ensures
        length_of(r) == length_after(length_of(before), full, *px),
{
    match px {
        Some(t) => Some(Length::Px(t.clone())),
        None => match full {
            Some(true) => Some(Length::Full),
            _ => before,
        },
    }
}

fn next_font_size(before: Option<FontSize>, set: &Option<String>) -> (r: Option<FontSize>)
    ensures
        font_size_of(r) == choice_after(
            font_size_of(before),
            match *set {
                Some(t) => Some(font_size_token(t@)),
                None => None,
            },
        ),
{
    match set {
        Some(t) => Some(parse_font_size(t.as_str())),
        None => before,
    }
}

fn next_choice<T>(before: Option<T>, named: Option<T>) -> (r: Option<T>)
    ensures
        r == choice_after(before, named),
{
    match named {
        Some(x) => Some(x),
        None => before,
    }
}

fn display_in(rule: &StyleRule) -> (r: Option<DisplayMode>)
    ensures
        r == rule_display(*rule),
{
    match &rule.display {
        Some(t) => parse_display(t.as_str()),
        None => None,
    }
}

fn justify_in(rule: &StyleRule) -> (r: Option<JustifyContent>)
    ensures
        r == rule_justify(*rule),
{
    match &rule.justify_content {
        Some(t) => parse_justify_content(t.as_str()),
        None => None,
    }
}

fn align_items_in(rule: &StyleRule) -> (r: Option<AlignItems>)
    ensures
        r == rule_align_items(*rule),
{
    match &rule.align_items {
        Some(t) => parse_align_items(t.as_str()),
        None => None,
    }
}

fn align_self_in(rule: &StyleRule) -> (r: Option<AlignSelf>)
    ensures
        r == rule_align_self(*rule),
{
    match &rule.align_self {
        Some(t) => parse_align_self(t.as_str()),
        None => None,
    }
}

fn flex_direction_in(rule: &StyleRule) -> (r: Option<FlexDirection>)
    ensures
        r == rule_flex_direction(*rule),
{
    match &rule.flex_direction {
        Some(t) => parse_flex_direction(t.as_str()),
        None => None,
    }
}

fn shadow_in(rule: &StyleRule) -> (r: Option<Shadow>)
    ensures
        r == rule_shadow(*rule),
{
    match &rule.shadow {
        Some(t) => parse_shadow(t.as_str()),
        None => None,
    }
}

fn rounded_in(rule: &StyleRule) -> (r: Option<Rounded>)
    ensures
        r == rule_rounded(*rule),
{
    match &rule.rounded {
        Some(t) => parse_rounded(t.as_str()),
        None => None,
    }
}

/// Applying a rule leaves every property that the rule does not set as it
/// was. Margin and padding are the exception: they are replaced by what the
/// rule gives, whatever was there.
pub proof fn lemma_apply_keeps_unset(style: StyleView, rule: StyleRule)
    ensures
        ({
            let after = apply_rule(style, rule);
            &&& rule.width is None && rule.size_full != Some(true) ==> after.width == style.width
            &&& rule.height is None && rule.size_full != Some(true) ==> after.height == style.height
            &&& rule.bg_color is None ==> after.bg_color == style.bg_color
            &&& rule.text_color is None ==> after.text_color == style.text_color
            &&& rule.font_size is None ==> after.font_size == style.font_size
            &&& rule.font_weight is None ==> after.font_weight == style.font_weight
            &&& rule.display is None ==> after.display == style.display
            &&& rule.justify_content is None ==> after.justify_content == style.justify_content
            &&& rule.align_items is None ==> after.align_items == style.align_items
            &&& rule.align_self is None ==> after.align_self == style.align_self
            &&& rule.flex_direction is None ==> after.flex_direction == style.flex_direction
            &&& rule.flex_grow is None ==> after.flex_grow == style.flex_grow
            &&& rule.flex_shrink is None ==> after.flex_shrink == style.flex_shrink
            &&& rule.shadow is None ==> after.shadow == style.shadow
            &&& rule.border_width is None ==> after.border_width == style.border_width
            &&& rule.border_color is None ==> after.border_color == style.border_color
            &&& rule.border_style is None ==> after.border_dashed == style.border_dashed
            &&& rule.gap is None ==> after.gap == style.gap
            &&& rule.rounded is None ==> after.rounded == style.rounded
            &&& after.margin == Some(rule_margin(rule))
            &&& after.padding == Some(rule_padding(rule))
        }),
{
}

/// A value for one side stands for that side only: the other sides take
/// the value given for all sides, or zero where there is none.
pub proof fn lemma_side_overrides_scalar(style: StyleView, rule: StyleRule)
    ensures
        ({
            let margin = apply_rule(style, rule).margin->0;
            let padding = apply_rule(style, rule).padding->0;
            &&& rule.margin_left matches Some(l) ==> margin.left == l@
            &&& rule.margin matches Some(m) ==> (rule.margin_top is None ==> margin.top == m@)
            &&& rule.margin matches Some(m) ==> (rule.margin_right is None ==> margin.right == m@)
            &&& rule.margin matches Some(m) ==> (rule.margin_bottom is None ==> margin.bottom == m@)
            &&& rule.margin_top is None && rule.margin is None ==> margin.top == "0"@
            &&& rule.margin_right is None && rule.margin is None ==> margin.right == "0"@
            &&& rule.margin_bottom is None && rule.margin is None ==> margin.bottom == "0"@
            &&& rule.padding_left matches Some(l) ==> padding.left == l@
            &&& rule.padding matches Some(m) ==> (rule.padding_top is None ==> padding.top == m@)
            &&& rule.padding matches Some(m) ==> (rule.padding_right is None ==> padding.right == m@)
            &&& rule.padding matches Some(m) ==> (rule.padding_bottom is None ==> padding.bottom == m@)
        }),
{
}

/// Applying a rule a second time changes nothing.
pub proof fn lemma_apply_idempotent(style: StyleView, rule: StyleRule)
    ensures
        apply_rule(apply_rule(style, rule), rule) == apply_rule(style, rule),
{
}

/// A list of names of which none stands for a rule leaves the style as it
/// is.
pub proof fn lemma_unknown_names_change_nothing(style: StyleView, names: Seq<Seq<char>>, map: StyleMap)
    requires
        forall|k: int| 0 <= k < names.len() ==> map.lookup(#[trigger] names[k]) is None,
    ensures
        cascade(style, names, map) == style,
    decreases names.len(),
{
    if names.len() > 0 {
        let shorter = names.drop_last();
        assert forall|k: int| 0 <= k < shorter.len() implies map.lookup(#[trigger] shorter[k])
            is None by {
            assert(shorter[k] == names[k]);
        }
        lemma_unknown_names_change_nothing(style, shorter, map);
    }
}

/// A class list of which no name is in the table leaves the style as it is.
pub proof fn lemma_unknown_classes_change_nothing(
    style: StyleView,
    classes: Seq<char>,
    data: MyStyleData,
)
    requires
        forall|k: int|
            0 <= k < split_on(classes, ' ').len() ==> data.style_map.lookup(
                #[trigger] split_on(classes, ' ')[k],
            ) is None,
    ensures
        classify(style, classes, data) == style,
{
    lemma_unknown_names_change_nothing(style, split_on(classes, ' '), data.style_map);
}

/// The rule of the last name is applied last, so its value for a property
/// stands, whatever the names before it have set.
pub proof fn lemma_last_class_wins(
    style: StyleView,
    names: Seq<Seq<char>>,
    map: StyleMap,
    rule: StyleRule,
)
    requires
        names.len() > 0,
        map.lookup(names.last()) == Some(rule),
    ensures
        cascade(style, names, map) == apply_rule(cascade(style, names.drop_last(), map), rule),
        rule.bg_color matches Some(c) ==> cascade(style, names, map).bg_color == Some(c@),
        rule.text_color matches Some(c) ==> cascade(style, names, map).text_color == Some(c@),
        rule.border_color matches Some(c) ==> cascade(style, names, map).border_color == Some(c@),
        rule.width matches Some(w) ==> cascade(style, names, map).width == Some(LengthView::Px(w@)),
        rule.height matches Some(h) ==> cascade(style, names, map).height == Some(
            LengthView::Px(h@),
        ),
        cascade(style, names, map).margin == Some(rule_margin(rule)),
        cascade(style, names, map).padding == Some(rule_padding(rule)),
{
}

/// Of two classes that both stand for a rule, the second is applied to
/// what the first has made: where both set a property, the second's value
/// stands; where only the first sets it, the first's does.
pub proof fn lemma_two_classes(
    style: StyleView,
    a: Seq<char>,
    b: Seq<char>,
    map: StyleMap,
    first: StyleRule,
    second: StyleRule,
)
    requires
        map.lookup(a) == Some(first),
        map.lookup(b) == Some(second),
    ensures
        cascade(style, seq![a, b], map) == apply_rule(apply_rule(style, first), second),
        cascade(style, seq![a, b], map).bg_color == text_after(
            text_after(style.bg_color, first.bg_color),
            second.bg_color,
        ),
{
    let names = seq![a, b];
    assert(names.drop_last() == seq![a]);
    assert(seq![a].drop_last() == Seq::<Seq<char>>::empty());
    assert(cascade(style, Seq::<Seq<char>>::empty(), map) == style);
    assert(cascade(style, seq![a], map) == apply_rule(style, first));
}

/// The properties of a style, one for each field of [`StyleView`].
pub enum Property {
    Width,
    Height,
    BgColor,
    TextColor,
    FontSize,
    FontWeight,
    Display,
    JustifyContent,
    AlignItems,
    AlignSelf,
    FlexDirection,
    FlexGrow,
    FlexShrink,
    Shadow,
    BorderWidth,
    BorderColor,
    BorderDashed,
    Gap,
    Rounded,
    Margin,
    Padding,
}

/// Whether two styles hold the same value for a property.
pub open spec fn same_at(a: StyleView, b: StyleView, p: Property) -> bool {
    match p {
        Property::Width => a.width == b.width,
        Property::Height => a.height == b.height,
        Property::BgColor => a.bg_color == b.bg_color,
        Property::TextColor => a.text_color == b.text_color,
        Property::FontSize => a.font_size == b.font_size,
        Property::FontWeight => a.font_weight == b.font_weight,
        Property::Display => a.display == b.display,
        Property::JustifyContent => a.justify_content == b.justify_content,
        Property::AlignItems => a.align_items == b.align_items,
        Property::AlignSelf => a.align_self == b.align_self,
        Property::FlexDirection => a.flex_direction == b.flex_direction,
        Property::FlexGrow => a.flex_grow == b.flex_grow,
        Property::FlexShrink => a.flex_shrink == b.flex_shrink,
        Property::Shadow => a.shadow == b.shadow,
        Property::BorderWidth => a.border_width == b.border_width,
        Property::BorderColor => a.border_color == b.border_color,
        Property::BorderDashed => a.border_dashed == b.border_dashed,
        Property::Gap => a.gap == b.gap,
        Property::Rounded => a.rounded == b.rounded,
        Property::Margin => a.margin == b.margin,
        Property::Padding => a.padding == b.padding,
    }
}

/// Whether a rule decides a property: it holds a value for it, and where
/// the property is chosen by a name, the value names something. A rule
/// that asks for full size decides width and height. Every rule decides
/// margin and padding.
pub open spec fn sets(rule: StyleRule, p: Property) -> bool {
    match p {
        Property::Width => rule.width is Some || rule.size_full == Some(true),
        Property::Height => rule.height is Some || rule.size_full == Some(true),
        Property::BgColor => rule.bg_color is Some,
        Property::TextColor => rule.text_color is Some,
        Property::FontSize => rule.font_size is Some,
        Property::FontWeight => rule.font_weight is Some,
        Property::Display => rule_display(rule) is Some,
        Property::JustifyContent => rule_justify(rule) is Some,
        Property::AlignItems => rule_align_items(rule) is Some,
        Property::AlignSelf => rule_align_self(rule) is Some,
        Property::FlexDirection => rule_flex_direction(rule) is Some,
        Property::FlexGrow => rule.flex_grow is Some,
        Property::FlexShrink => rule.flex_shrink is Some,
        Property::Shadow => rule_shadow(rule) is Some,
        Property::BorderWidth => rule.border_width is Some,
        Property::BorderColor => rule.border_color is Some,
        Property::BorderDashed => rule_dashed(rule),
        Property::Gap => rule.gap is Some,
        Property::Rounded => rule_rounded(rule) is Some,
        Property::Margin => true,
        Property::Padding => true,
    }
}

/// Two styles that hold the same value for every property are the same.
pub proof fn lemma_same_everywhere(a: StyleView, b: StyleView)
    requires
        forall|p: Property| same_at(a, b, p),
    ensures
        a == b,
{
    assert(same_at(a, b, Property::Width));
    assert(same_at(a, b, Property::Height));
    assert(same_at(a, b, Property::BgColor));
    assert(same_at(a, b, Property::TextColor));
    assert(same_at(a, b, Property::FontSize));
    assert(same_at(a, b, Property::FontWeight));
    assert(same_at(a, b, Property::Display));
    assert(same_at(a, b, Property::JustifyContent));
    assert(same_at(a, b, Property::AlignItems));
    assert(same_at(a, b, Property::AlignSelf));
    assert(same_at(a, b, Property::FlexDirection));
    assert(same_at(a, b, Property::FlexGrow));
    assert(same_at(a, b, Property::FlexShrink));
    assert(same_at(a, b, Property::Shadow));
    assert(same_at(a, b, Property::BorderWidth));
    assert(same_at(a, b, Property::BorderColor));
    assert(same_at(a, b, Property::BorderDashed));
    assert(same_at(a, b, Property::Gap));
    assert(same_at(a, b, Property::Rounded));
    assert(same_at(a, b, Property::Margin));
    assert(same_at(a, b, Property::Padding));
}

/// A rule that decides a property gives it a value that does not depend on
/// what was there; a rule that does not decide it leaves what was there.
pub proof fn lemma_apply_sets_or_keeps(a: StyleView, b: StyleView, rule: StyleRule, p: Property)
    ensures
        sets(rule, p) ==> same_at(apply_rule(a, rule), apply_rule(b, rule), p),
        !sets(rule, p) ==> same_at(apply_rule(a, rule), a, p),
{
}

/// What a rule makes of a property depends on that property alone.
pub proof fn lemma_apply_per_property(a: StyleView, b: StyleView, rule: StyleRule, p: Property)
    ensures
        same_at(a, b, p) ==> same_at(apply_rule(a, rule), apply_rule(b, rule), p),
{
}

/// What a list of names makes of a property depends on that property
/// alone.
pub proof fn lemma_cascade_per_property(
    a: StyleView,
    b: StyleView,
    names: Seq<Seq<char>>,
    map: StyleMap,
    p: Property,
)
    requires
        same_at(a, b, p),
    ensures
        same_at(cascade(a, names, map), cascade(b, names, map), p),
    decreases names.len(),
{
    if names.len() > 0 {
        lemma_cascade_per_property(a, b, names.drop_last(), map, p);
        if let Some(rule) = map.lookup(names.last()) {
            lemma_apply_per_property(
                cascade(a, names.drop_last(), map),
                cascade(b, names.drop_last(), map),
                rule,
                p,
            );
        }
    }
}

/// Whether the name at position `k` stands for a rule that decides the
/// property.
pub open spec fn decides_at(names: Seq<Seq<char>>, map: StyleMap, p: Property, k: int) -> bool {
    &&& 0 <= k < names.len()
    &&& map.lookup(names[k]) matches Some(rule) && sets(rule, p)
}

/// The last class that decides a property wins, property by property: where
/// `k` is the last position of the list whose name stands for a rule that
/// decides the property, the property ends up with what that rule alone
/// gives it, whatever the style was and whatever the other names have set.
pub proof fn lemma_last_setter_wins(
    style: StyleView,
    names: Seq<Seq<char>>,
    map: StyleMap,
    p: Property,
    k: int,
    other: StyleView,
)
    requires
        decides_at(names, map, p, k),
        forall|j: int| k < j < names.len() ==> !decides_at(names, map, p, j),
    ensures
        same_at(cascade(style, names, map), apply_rule(other, map.lookup(names[k])->0), p),
    decreases names.len(),
{
    let shorter = names.drop_last();
    let before = cascade(style, shorter, map);
    let winner = map.lookup(names[k])->0;
    if k == names.len() - 1 {
        lemma_apply_sets_or_keeps(before, other, winner, p);
    } else {
        assert(shorter[k] == names[k]);
        assert(decides_at(shorter, map, p, k));
        assert forall|j: int| k < j < shorter.len() implies !decides_at(shorter, map, p, j) by {
            assert(shorter[j] == names[j]);
            assert(!decides_at(names, map, p, j));
        }
        lemma_last_setter_wins(style, shorter, map, p, k, other);
        assert(!decides_at(names, map, p, names.len() - 1));
        if let Some(rule) = map.lookup(names.last()) {
            lemma_apply_sets_or_keeps(before, before, rule, p);
        }
    }
}

/// A property that no class of the list decides stays as it was.
pub proof fn lemma_no_setter_keeps(
    style: StyleView,
    names: Seq<Seq<char>>,
    map: StyleMap,
    p: Property,
)
    requires
        forall|j: int| 0 <= j < names.len() ==> !decides_at(names, map, p, j),
    ensures
        same_at(cascade(style, names, map), style, p),
    decreases names.len(),
{
    if names.len() > 0 {
        let shorter = names.drop_last();
        let before = cascade(style, shorter, map);
        assert forall|j: int| 0 <= j < shorter.len() implies !decides_at(shorter, map, p, j) by {
            assert(shorter[j] == names[j]);
            assert(!decides_at(names, map, p, j));
        }
        lemma_no_setter_keeps(style, shorter, map, p);
        assert(!decides_at(names, map, p, names.len() - 1));
        if let Some(rule) = map.lookup(names.last()) {
            lemma_apply_sets_or_keeps(before, before, rule, p);
        }
    }
}

/// The cascade of a class list, property by property: the last class that
/// stands for a rule deciding the property gives it its value; a property
/// that no class decides stays as it was.
pub proof fn lemma_class_cascade(
    style: StyleView,
    classes: Seq<char>,
    data: MyStyleData,
    p: Property,
    k: int,
    other: StyleView,
)
    requires
        -1 <= k < split_on(classes, ' ').len(),
        k >= 0 ==> decides_at(split_on(classes, ' '), data.style_map, p, k),
        forall|j: int|
            k < j < split_on(classes, ' ').len() ==> !decides_at(
                split_on(classes, ' '),
                data.style_map,
                p,
                j,
            ),
    ensures
        k >= 0 ==> same_at(
            classify(style, classes, data),
            apply_rule(other, data.style_map.lookup(split_on(classes, ' ')[k])->0),
            p,
        ),
        k < 0 ==> same_at(classify(style, classes, data), style, p),
{
    if k >= 0 {
        lemma_last_setter_wins(style, split_on(classes, ' '), data.style_map, p, k, other);
    } else {
        lemma_no_setter_keeps(style, split_on(classes, ' '), data.style_map, p);
    }
}

/// Applying a list of names to what it has already made changes no
/// property.
pub proof fn lemma_cascade_settles(
    style: StyleView,
    names: Seq<Seq<char>>,
    map: StyleMap,
    p: Property,
)
    ensures
        same_at(
            cascade(cascade(style, names, map), names, map),
            cascade(style, names, map),
            p,
        ),
    decreases names.len(),
{
    if names.len() > 0 {
        let shorter = names.drop_last();
        let once = cascade(style, shorter, map);
        let done = cascade(style, names, map);
        lemma_cascade_settles(style, shorter, map, p);
        match map.lookup(names.last()) {
            Some(rule) => {
                let again = cascade(done, shorter, map);
                lemma_apply_sets_or_keeps(again, once, rule, p);
                lemma_apply_sets_or_keeps(once, once, rule, p);
                if !sets(rule, p) {
                    lemma_cascade_per_property(done, once, shorter, map, p);
                }
            },
            None => {},
        }
    }
}

/// Resolution is idempotent: applying a list of names to the style that
/// the same list has made gives that style again.
pub proof fn lemma_cascade_idempotent(style: StyleView, names: Seq<Seq<char>>, map: StyleMap)
    ensures
        cascade(cascade(style, names, map), names, map) == cascade(style, names, map),
{
    assert forall|p: Property|
        same_at(
            cascade(cascade(style, names, map), names, map),
            cascade(style, names, map),
            p,
        ) by {
        lemma_cascade_settles(style, names, map, p);
    }
    lemma_same_everywhere(
        cascade(cascade(style, names, map), names, map),
        cascade(style, names, map),
    );
}

/// Applying a class list a second time changes nothing.
pub proof fn lemma_classify_idempotent(style: StyleView, classes: Seq<char>, data: MyStyleData)
    ensures
        classify(classify(style, classes, data), classes, data) == classify(style, classes, data),
{
    lemma_cascade_idempotent(style, split_on(classes, ' '), data.style_map);
}

/// Whether `key` is the name of a property of a style rule.
pub open spec fn is_style_property(key: Seq<char>) -> bool {
    ||| key == "size_full"@
    ||| key == "bg_color"@
    ||| key == "text_color"@
    ||| key == "font_size"@
    ||| key == "font_weight"@
    ||| key == "display"@
    ||| key == "justify_content"@
    ||| key == "align_items"@
    ||| key == "align_self"@
    ||| key == "flex_direction"@
    ||| key == "flex_grow"@
    ||| key == "flex_shrink"@
    ||| key == "width"@
    ||| key == "height"@
    ||| key == "shadow"@
    ||| key == "border_width"@
    ||| key == "border_color"@
    ||| key == "border_style"@
    ||| key == "rounded"@
    ||| key == "margin"@
    ||| key == "margin_top"@
    ||| key == "margin_right"@
    ||| key == "margin_bottom"@
    ||| key == "margin_left"@
    ||| key == "padding"@
    ||| key == "padding_top"@
    ||| key == "padding_right"@
    ||| key == "padding_bottom"@
    ||| key == "padding_left"@
    ||| key == "gap"@
}

/// Whether an object's member can stand for an optional string: it is not
/// there, or is `null`, or is a string.
pub open spec fn text_ok(doc: Json, key: Seq<char>) -> bool {
    match doc.member(key) {
        None => true,
        Some(Json::Null) => true,
        Some(Json::Text(_)) => true,
        Some(_) => false,
    }
}

/// The string that an object's member holds.
pub open spec fn text_in(doc: Json, key: Seq<char>) -> Option<String> {
    match doc.member(key) {
        Some(Json::Text(t)) => Some(t),
        _ => None,
    }
}

/// Whether an object's member can stand for an optional number.
pub open spec fn number_ok(doc: Json, key: Seq<char>) -> bool {
    match doc.member(key) {
        None => true,
        Some(Json::Null) => true,
        Some(Json::Number(_)) => true,
        Some(_) => false,
    }
}

/// The text of the number that an object's member holds.
pub open spec fn number_in(doc: Json, key: Seq<char>) -> Option<String> {
    match doc.member(key) {
        Some(Json::Number(t)) => Some(t),
        _ => None,
    }
}

/// Whether an object's member can stand for an optional truth value.
pub open spec fn flag_ok(doc: Json, key: Seq<char>) -> bool {
    match doc.member(key) {
        None => true,
        Some(Json::Null) => true,
        Some(Json::Bool(_)) => true,
        Some(_) => false,
    }
}

/// The truth value that an object's member holds.
pub open spec fn flag_in(doc: Json, key: Seq<char>) -> Option<bool> {
    match doc.member(key) {
        Some(Json::Bool(b)) => Some(b),
        _ => None,
    }
}

/// Whether every key of an object names a property of a style rule.
pub open spec fn only_style_properties(entries: Seq<(String, Json)>) -> bool {
    forall|i: int| 0 <= i < entries.len() ==> is_style_property(#[trigger] entries[i].0@)
}

/// Whether every property that the object gives has a value of its kind.
pub open spec fn well_typed(doc: Json) -> bool {
    &&& flag_ok(doc, "size_full"@)
    &&& text_ok(doc, "bg_color"@)
    &&& text_ok(doc, "text_color"@)
    &&& text_ok(doc, "font_size"@)
    &&& text_ok(doc, "font_weight"@)
    &&& text_ok(doc, "display"@)
    &&& text_ok(doc, "justify_content"@)
    &&& text_ok(doc, "align_items"@)
    &&& text_ok(doc, "align_self"@)
    &&& text_ok(doc, "flex_direction"@)
    &&& number_ok(doc, "flex_grow"@)
    &&& number_ok(doc, "flex_shrink"@)
    &&& number_ok(doc, "width"@)
    &&& number_ok(doc, "height"@)
    &&& text_ok(doc, "shadow"@)
    &&& number_ok(doc, "border_width"@)
    &&& text_ok(doc, "border_color"@)
    &&& text_ok(doc, "border_style"@)
    &&& text_ok(doc, "rounded"@)
    &&& number_ok(doc, "margin"@)
    &&& number_ok(doc, "margin_top"@)
    &&& number_ok(doc, "margin_right"@)
    &&& number_ok(doc, "margin_bottom"@)
    &&& number_ok(doc, "margin_left"@)
    &&& number_ok(doc, "padding"@)
    &&& number_ok(doc, "padding_top"@)
    &&& number_ok(doc, "padding_right"@)
    &&& number_ok(doc, "padding_bottom"@)
    &&& number_ok(doc, "padding_left"@)
    &&& number_ok(doc, "gap"@)
}

/// The rule that an object gives: each property that is there and not
/// `null`, and nothing else.
pub open spec fn rule_in(doc: Json) -> StyleRule {
    StyleRule {
        size_full: flag_in(doc, "size_full"@),
        bg_color: text_in(doc, "bg_color"@),
        text_color: text_in(doc, "text_color"@),
        font_size: text_in(doc, "font_size"@),
        font_weight: text_in(doc, "font_weight"@),
        display: text_in(doc, "display"@),
        justify_content: text_in(doc, "justify_content"@),
        align_items: text_in(doc, "align_items"@),
        align_self: text_in(doc, "align_self"@),
        flex_direction: text_in(doc, "flex_direction"@),
        flex_grow: number_in(doc, "flex_grow"@),
        flex_shrink: number_in(doc, "flex_shrink"@),
        width: number_in(doc, "width"@),
        height: number_in(doc, "height"@),
        shadow: text_in(doc, "shadow"@),
        border_width: number_in(doc, "border_width"@),
        border_color: text_in(doc, "border_color"@),
        border_style: text_in(doc, "border_style"@),
        rounded: text_in(doc, "rounded"@),
        margin: number_in(doc, "margin"@),
        margin_top: number_in(doc, "margin_top"@),
        margin_right: number_in(doc, "margin_right"@),
        margin_bottom: number_in(doc, "margin_bottom"@),
        margin_left: number_in(doc, "margin_left"@),
        padding: number_in(doc, "padding"@),
        padding_top: number_in(doc, "padding_top"@),
        padding_right: number_in(doc, "padding_right"@),
        padding_bottom: number_in(doc, "padding_bottom"@),
        padding_left: number_in(doc, "padding_left"@),
        gap: number_in(doc, "gap"@),
    }
}

/// The style rule that a JSON value stands for. The value has to be an
/// object; each of its keys has to name a property; each property has to
/// be `null` or of its kind: a truth value for `size_full`, a number for
/// extents and spacing, a string for the rest.
pub open spec fn rule_of_json(doc: Json) -> Result<StyleRule, LoadError> {
    match doc {
        Json::Object(entries) => if !only_style_properties(entries@) {
            Err(LoadError::UnknownField)
        } else if !well_typed(doc) {
            Err(LoadError::WrongType)
        } else {
            Ok(rule_in(doc))
        },
        _ => Err(LoadError::NotAnObject),
    }
}

/// Whether `key` is the name of a property of a style rule.
pub fn known_property(key: &str) -> (r: bool)
    ensures
        r == is_style_property(key@),
{
    str_eq(key, "size_full")
        || str_eq(key, "bg_color")
        || str_eq(key, "text_color")
        || str_eq(key, "font_size")
        || str_eq(key, "font_weight")
        || str_eq(key, "display")
        || str_eq(key, "justify_content")
        || str_eq(key, "align_items")
        || str_eq(key, "align_self")
        || str_eq(key, "flex_direction")
        || str_eq(key, "flex_grow")
        || str_eq(key, "flex_shrink")
        || str_eq(key, "width")
        || str_eq(key, "height")
        || str_eq(key, "shadow")
        || str_eq(key, "border_width")
        || str_eq(key, "border_color")
        || str_eq(key, "border_style")
        || str_eq(key, "rounded")
        || str_eq(key, "margin")
        || str_eq(key, "margin_top")
        || str_eq(key, "margin_right")
        || str_eq(key, "margin_bottom")
        || str_eq(key, "margin_left")
        || str_eq(key, "padding")
        || str_eq(key, "padding_top")
        || str_eq(key, "padding_right")
        || str_eq(key, "padding_bottom")
        || str_eq(key, "padding_left")
        || str_eq(key, "gap")
}

fn read_text(doc: &Json, key: &str) -> (r: (Option<String>, bool))
    ensures
        r.0 == text_in(*doc, key@),
        r.1 == text_ok(*doc, key@),
{
    match doc.get(key) {
        None => (None, true),
        Some(Json::Null) => (None, true),
        Some(Json::Text(t)) => (Some(t.clone()), true),
        Some(_) => (None, false),
    }
}

fn read_number(doc: &Json, key: &str) -> (r: (Option<String>, bool))
    ensures
        r.0 == number_in(*doc, key@),
        r.1 == number_ok(*doc, key@),
{
    match doc.get(key) {
        None => (None, true),
        Some(Json::Null) => (None, true),
        Some(Json::Number(t)) => (Some(t.clone()), true),
        Some(_) => (None, false),
    }
}

fn read_flag(doc: &Json, key: &str) -> (r: (Option<bool>, bool))
    ensures
        r.0 == flag_in(*doc, key@),
        r.1 == flag_ok(*doc, key@),
{
    match doc.get(key) {
        None => (None, true),
        Some(Json::Null) => (None, true),
        Some(Json::Bool(b)) => (Some(*b), true),
        Some(_) => (None, false),
    }
}

fn only_known_keys(entries: &Vec<(String, Json)>) -> (r: bool)
    ensures
        r == only_style_properties(entries@),
{
    let mut i: usize = 0;
    while i < entries.len()
        invariant
            0 <= i <= entries.len(),
            forall|k: int| 0 <= k < i ==> is_style_property(#[trigger] entries@[k].0@),
        decreases entries.len() - i,
    {
        if !known_property(entries[i].0.as_str()) {
            return false;
        }
        i += 1;
    }
    true
}

/// Reads a style rule from a JSON value; see [`rule_of_json`].
pub fn decode_rule(doc: &Json) -> (r: Result<StyleRule, LoadError>)
    ensures
        r == rule_of_json(*doc),
{
    let entries = match doc {
        Json::Object(entries) => entries,
        _ => {
            return Err(LoadError::NotAnObject);
        },
    };
    if !only_known_keys(entries) {
        return Err(LoadError::UnknownField);
    }
    let size_full = read_flag(doc, "size_full");
    let bg_color = read_text(doc, "bg_color");
    let text_color = read_text(doc, "text_color");
    let font_size = read_text(doc, "font_size");
    let font_weight = read_text(doc, "font_weight");
    let display = read_text(doc, "display");
    let justify_content = read_text(doc, "justify_content");
    let align_items = read_text(doc, "align_items");
    let align_self = read_text(doc, "align_self");
    let flex_direction = read_text(doc, "flex_direction");
    let flex_grow = read_number(doc, "flex_grow");
    let flex_shrink = read_number(doc, "flex_shrink");
    let width = read_number(doc, "width");
    let height = read_number(doc, "height");
    let shadow = read_text(doc, "shadow");
    let border_width = read_number(doc, "border_width");
    let border_color = read_text(doc, "border_color");
    let border_style = read_text(doc, "border_style");
    let rounded = read_text(doc, "rounded");
    let margin = read_number(doc, "margin");
    let margin_top = read_number(doc, "margin_top");
    let margin_right = read_number(doc, "margin_right");
    let margin_bottom = read_number(doc, "margin_bottom");
    let margin_left = read_number(doc, "margin_left");
    let padding = read_number(doc, "padding");
    let padding_top = read_number(doc, "padding_top");
    let padding_right = read_number(doc, "padding_right");
    let padding_bottom = read_number(doc, "padding_bottom");
    let padding_left = read_number(doc, "padding_left");
    let gap = read_number(doc, "gap");
    let ok = size_full.1
        && bg_color.1
        && text_color.1
        && font_size.1
        && font_weight.1
        && display.1
        && justify_content.1
        && align_items.1
        && align_self.1
        && flex_direction.1
        && flex_grow.1
        && flex_shrink.1
        && width.1
        && height.1
        && shadow.1
        && border_width.1
        && border_color.1
        && border_style.1
        && rounded.1
        && margin.1
        && margin_top.1
        && margin_right.1
        && margin_bottom.1
        && margin_left.1
        && padding.1
        && padding_top.1
        && padding_right.1
        && padding_bottom.1
        && padding_left.1
        && gap.1;
    if ok {
        Ok(
            StyleRule {
                size_full: size_full.0,
                bg_color: bg_color.0,
                text_color: text_color.0,
                font_size: font_size.0,
                font_weight: font_weight.0,
                display: display.0,
                justify_content: justify_content.0,
                align_items: align_items.0,
                align_self: align_self.0,
                flex_direction: flex_direction.0,
                flex_grow: flex_grow.0,
                flex_shrink: flex_shrink.0,
                width: width.0,
                height: height.0,
                shadow: shadow.0,
                border_width: border_width.0,
                border_color: border_color.0,
                border_style: border_style.0,
                rounded: rounded.0,
                margin: margin.0,
                margin_top: margin_top.0,
                margin_right: margin_right.0,
                margin_bottom: margin_bottom.0,
                margin_left: margin_left.0,
                padding: padding.0,
                padding_top: padding_top.0,
                padding_right: padding_right.0,
                padding_bottom: padding_bottom.0,
                padding_left: padding_left.0,
                gap: gap.0,
            },
        )
    } else {
        Err(LoadError::WrongType)
    }
}

/// The first error among the rules of a style document, in the order of
/// its members.
pub open spec fn first_rule_error(entries: Seq<(String, Json)>) -> Option<LoadError>
    decreases entries.len(),
{
    if entries.len() == 0 {
        None
    } else {
        match first_rule_error(entries.drop_last()) {
            Some(e) => Some(e),
            None => match rule_of_json(entries.last().1) {
                Ok(_) => None,
                Err(e) => Some(e),
            },
        }
    }
}

/// The rule that a style document gives under a class name.
pub open spec fn rule_named(entries: Seq<(String, Json)>, name: Seq<char>) -> Option<StyleRule> {
    match last_value(entries, name) {
        Some(doc) => match rule_of_json(doc) {
            Ok(rule) => Some(rule),
            Err(_) => None,
        },
        None => None,
    }
}

/// Whether `r` is what a style document gives: an object whose members are
/// all rules gives the table of those rules by name; anything else gives
/// the first error.
pub open spec fn is_styles_of(doc: Json, r: Result<MyStyleData, LoadError>) -> bool {
    match doc {
        Json::Object(entries) => match first_rule_error(entries@) {
            Some(e) => r == Err::<MyStyleData, LoadError>(e),
            None => {
                &&& r is Ok
                &&& forall|name: Seq<char>| #[trigger]
                    r->Ok_0.style_map.lookup(name) == rule_named(entries@, name)
            },
        },
        _ => r == Err::<MyStyleData, LoadError>(LoadError::NotAnObject),
    }
}

/// Reads a style document: an object that maps class names to rules.
pub fn decode_styles(doc: &Json) -> (r: Result<MyStyleData, LoadError>)
    ensures
        is_styles_of(*doc, r),
{
    let entries = match doc {
        Json::Object(entries) => entries,
        _ => {
            return Err(LoadError::NotAnObject);
        },
    };
    let mut map: StyleMap = NameTable::new();
    let mut i: usize = 0;
    proof {
        assert(entries@.take(0).len() == 0);
    }
    while i < entries.len()
        invariant
            0 <= i <= entries.len(),
            *doc == Json::Object(*entries),
            first_rule_error(entries@.take(i as int)) is None,
            forall|name: Seq<char>| #[trigger]
                map.lookup(name) == rule_named(entries@.take(i as int), name),
        decreases entries.len() - i,
    {
        proof {
            assert(entries@.take(i + 1).drop_last() == entries@.take(i as int));
            assert(entries@.take(i + 1).last() == entries@[i as int]);
        }
        match decode_rule(&entries[i].1) {
            Ok(rule) => {
                map.insert(entries[i].0.clone(), rule);
            },
            Err(e) => {
                proof {
                    lemma_first_rule_error_stays(entries@, i + 1);
                }
                return Err(e);
            },
        }
        i += 1;
    }
    proof {
        assert(entries@.take(i as int) == entries@);
    }
    Ok(MyStyleData { style_map: map })
}

/// An error among the first rules of a document is the document's error.
pub proof fn lemma_first_rule_error_stays(entries: Seq<(String, Json)>, upto: int)
    requires
        0 <= upto <= entries.len(),
        first_rule_error(entries.take(upto)) is Some,
    ensures
        first_rule_error(entries) == first_rule_error(entries.take(upto)),
    decreases entries.len() - upto,
{
    if upto == entries.len() {
        assert(entries.take(upto) == entries);
    } else {
        let shorter = entries.drop_last();
        assert(shorter.take(upto) == entries.take(upto));
        lemma_first_rule_error_stays(shorter, upto);
    }
}

/// Loads a style document from the bytes of its JSON text.
pub fn load_styles(content: &[u8]) -> (r: Result<MyStyleData, LoadError>)
    ensures
        match parsed_json(utf8_lossy(content@)) {
            Some(doc) => is_styles_of(doc, r),
            None => r == Err::<MyStyleData, LoadError>(LoadError::Syntax),
        },
{
    match parse_json_bytes(content) {
        Ok(doc) => decode_styles(&doc),
        Err(e) => Err(e),
    }
}

/// An object that holds the style rules in force and lets them be replaced
/// as a whole.
pub trait SetMyStyleData {
    /// The style rules that the object holds.
    spec fn style_data(&self) -> MyStyleData;

    /// Replaces the style rules.
    fn set_style_data(&mut self, data: MyStyleData)
        ensures
            final(self).style_data() == data,
    ;

    /// The style rules that the object holds.
    fn get_style_data(&self) -> (r: &MyStyleData)
        ensures
            *r == self.style_data(),
    ;
}

} // verus!
