use gpui_style_hot_reload::my_style_data::{
    parse_align_items, parse_align_self, parse_display, parse_flex_direction, parse_font_size,
    parse_justify_content, parse_rounded, parse_shadow, AlignItems, AlignSelf, DisplayMode, Edges,
    FlexDirection, FontSize, JustifyContent, Length, MyStyleData, Rounded, Shadow,
    StylableElement, Style, StyleMap, StyleRule,
};

fn num(text: &str) -> Option<String> {
    Some(text.to_string())
}

fn edges(top: &str, right: &str, bottom: &str, left: &str) -> Option<Edges> {
    Some(Edges {
        top: top.to_string(),
        right: right.to_string(),
        bottom: bottom.to_string(),
        left: left.to_string(),
    })
}

fn data(rules: Vec<(&str, StyleRule)>) -> MyStyleData {
    let mut map = StyleMap::new();
    for (name, rule) in rules {
        map.insert(name.to_string(), rule);
    }
    MyStyleData { style_map: map }
}

#[test]
fn font_size_names_and_literals() {
    assert_eq!(parse_font_size("sm"), FontSize::Px(12));
    assert_eq!(parse_font_size("base"), FontSize::Px(16));
    assert_eq!(parse_font_size("lg"), FontSize::Px(20));
    assert_eq!(parse_font_size("xl"), FontSize::Px(24));
    assert_eq!(parse_font_size("2xl"), FontSize::Px(32));
    assert_eq!(parse_font_size("SM"), FontSize::Literal("SM".to_string()));
    assert_eq!(parse_font_size("18.5"), FontSize::Literal("18.5".to_string()));
}

#[test]
fn apply_leaves_unset_properties_alone() {
    let mut before = Style::new();
    before.bg_color = num("#112233");
    before.width = Some(Length::Px("40".to_string()));
    let rule = StyleRule { text_color: num("#ffffff"), ..StyleRule::default() };
    let after = before.clone().apply_style_rule(&rule);
    assert_eq!(after.bg_color, before.bg_color);
    assert_eq!(after.width, before.width);
    assert_eq!(after.text_color, num("#ffffff"));
    assert_eq!(after.margin, edges("0", "0", "0", "0"));
    assert_eq!(after.padding, edges("0", "0", "0", "0"));
}

#[test]
fn later_class_wins_per_property() {
    let a = StyleRule { bg_color: num("#aaaaaa"), text_color: num("#111111"), ..StyleRule::default() };
    let b = StyleRule { bg_color: num("#bbbbbb"), ..StyleRule::default() };
    let sd = data(vec![("a", a), ("b", b)]);
    let style = Style::new().class("a b", &sd);
    assert_eq!(style.bg_color, num("#bbbbbb"));
    assert_eq!(style.text_color, num("#111111"));
}

#[test]
fn unknown_class_changes_nothing() {
    let sd = data(vec![("a", StyleRule { bg_color: num("#aaaaaa"), ..StyleRule::default() })]);
    let style = Style::new().class("missing_class", &sd);
    assert_eq!(style, Style::new());
}

#[test]
fn side_value_overrides_scalar_within_a_rule() {
    let rule = StyleRule { margin: num("10"), margin_left: num("2"), ..StyleRule::default() };
    let style = Style::new().apply_style_rule(&rule);
    assert_eq!(style.margin, edges("10", "10", "10", "2"));
}

#[test]
fn each_class_resets_the_margin() {
    let a = StyleRule { margin: num("10"), ..StyleRule::default() };
    let b = StyleRule { margin_left: num("2"), ..StyleRule::default() };
    let sd = data(vec![("a", a), ("b", b)]);
    let style = Style::new().class("a b", &sd);
    assert_eq!(style.margin, edges("0", "0", "0", "2"));
}

#[test]
fn applying_twice_is_applying_once() {
    let rule = StyleRule {
        size_full: Some(true),
        shadow: num("lg"),
        rounded: num("md"),
        padding: num("4"),
        ..StyleRule::default()
    };
    let once = Style::new().apply_style_rule(&rule);
    let twice = once.clone().apply_style_rule(&rule);
    assert_eq!(once, twice);
}

#[test]
fn tokens_name_what_they_say() {
    assert_eq!(parse_display("block"), Some(DisplayMode::Block));
    assert_eq!(parse_display("flex"), Some(DisplayMode::Flex));
    assert_eq!(parse_display("grid"), Some(DisplayMode::Grid));
    assert_eq!(parse_display("none"), Some(DisplayMode::Hidden));
    assert_eq!(parse_display("inline"), None);
    assert_eq!(parse_justify_content("center"), Some(JustifyContent::Center));
    assert_eq!(parse_justify_content("flex-start"), Some(JustifyContent::FlexStart));
    assert_eq!(parse_justify_content("start"), Some(JustifyContent::Start));
    assert_eq!(parse_justify_content("flex-end"), Some(JustifyContent::FlexEnd));
    assert_eq!(parse_justify_content("end"), Some(JustifyContent::End));
    assert_eq!(parse_justify_content("space-between"), Some(JustifyContent::SpaceBetween));
    assert_eq!(parse_justify_content("space-around"), Some(JustifyContent::SpaceAround));
    assert_eq!(parse_justify_content("space-evenly"), Some(JustifyContent::SpaceEvenly));
    assert_eq!(parse_justify_content("stretch"), Some(JustifyContent::Stretch));
    assert_eq!(parse_justify_content("Center"), None);
    assert_eq!(parse_align_items("center"), Some(AlignItems::Center));
    assert_eq!(parse_align_items("flex-start"), Some(AlignItems::Start));
    assert_eq!(parse_align_items("start"), Some(AlignItems::Start));
    assert_eq!(parse_align_items("flex-end"), Some(AlignItems::End));
    assert_eq!(parse_align_items("end"), Some(AlignItems::End));
    assert_eq!(parse_align_items("baseline"), Some(AlignItems::Baseline));
    assert_eq!(parse_align_items("stretch"), Some(AlignItems::Stretch));
    assert_eq!(parse_align_items(""), None);
    assert_eq!(parse_align_self("center"), Some(AlignSelf::Center));
    assert_eq!(parse_align_self("flex-start"), Some(AlignSelf::FlexStart));
    assert_eq!(parse_align_self("start"), Some(AlignSelf::Start));
    assert_eq!(parse_align_self("flex-end"), Some(AlignSelf::FlexEnd));
    assert_eq!(parse_align_self("end"), Some(AlignSelf::End));
    assert_eq!(parse_align_self("baseline"), Some(AlignSelf::Baseline));
    assert_eq!(parse_align_self("stretch"), Some(AlignSelf::Stretch));
    assert_eq!(parse_align_self("middle"), None);
    assert_eq!(parse_flex_direction("row"), Some(FlexDirection::Row));
    assert_eq!(parse_flex_direction("column"), Some(FlexDirection::Column));
    assert_eq!(parse_flex_direction("col"), None);
    assert_eq!(parse_shadow("2xs"), Some(Shadow::Xxs));
    assert_eq!(parse_shadow("xs"), Some(Shadow::Xs));
    assert_eq!(parse_shadow("sm"), Some(Shadow::Sm));
    assert_eq!(parse_shadow("md"), Some(Shadow::Md));
    assert_eq!(parse_shadow("lg"), Some(Shadow::Lg));
    assert_eq!(parse_shadow("xl"), Some(Shadow::Xl));
    assert_eq!(parse_shadow("2xl"), Some(Shadow::Xxl));
    assert_eq!(parse_shadow("none"), Some(Shadow::Off));
    assert_eq!(parse_shadow("huge"), None);
    assert_eq!(parse_rounded("md"), Some(Rounded::Md));
    assert_eq!(parse_rounded("lg"), Some(Rounded::Lg));
    assert_eq!(parse_rounded("full"), Some(Rounded::Full));
    assert_eq!(parse_rounded("sm"), None);
}

#[test]
fn a_rule_sets_every_property_it_names() {
    let rule = StyleRule {
        size_full: Some(true),
        bg_color: num("#111"),
        text_color: num("#222"),
        font_size: num("xl"),
        font_weight: num("700"),
        display: num("flex"),
        justify_content: num("space-between"),
        align_items: num("flex-end"),
        align_self: num("baseline"),
        flex_direction: num("column"),
        flex_grow: num("1"),
        flex_shrink: num("0.5"),
        width: None,
        height: num("30"),
        shadow: num("md"),
        border_width: num("2"),
        border_color: num("#333"),
        border_style: num("dashed"),
        rounded: num("full"),
        margin: num("1"),
        margin_top: num("2"),
        margin_right: None,
        margin_bottom: num("3"),
        margin_left: None,
        padding: None,
        padding_top: None,
        padding_right: num("4"),
        padding_bottom: None,
        padding_left: num("5"),
        gap: num("6"),
    };
    let want = Style {
        width: Some(Length::Full),
        height: Some(Length::Px("30".to_string())),
        bg_color: num("#111"),
        text_color: num("#222"),
        font_size: Some(FontSize::Px(24)),
        font_weight: num("700"),
        display: Some(DisplayMode::Flex),
        justify_content: Some(JustifyContent::SpaceBetween),
        align_items: Some(AlignItems::End),
        align_self: Some(AlignSelf::Baseline),
        flex_direction: Some(FlexDirection::Column),
        flex_grow: num("1"),
        flex_shrink: num("0.5"),
        shadow: Some(Shadow::Md),
        border_width: num("2"),
        border_color: num("#333"),
        border_dashed: true,
        gap: num("6"),
        rounded: Some(Rounded::Full),
        margin: edges("2", "1", "3", "1"),
        padding: edges("0", "4", "0", "5"),
    };
    assert_eq!(Style::new().apply_style_rule(&rule), want);
}

#[test]
fn values_that_name_nothing_change_nothing() {
    let mut before = Style::new();
    before.display = Some(DisplayMode::Grid);
    let rule = StyleRule {
        size_full: Some(false),
        display: num("table"),
        justify_content: num("left"),
        shadow: num("soft"),
        rounded: num("xl"),
        border_style: num("dotted"),
        ..StyleRule::default()
    };
    let after = before.clone().apply_style_rule(&rule);
    let mut want = before;
    want.margin = edges("0", "0", "0", "0");
    want.padding = edges("0", "0", "0", "0");
    assert_eq!(after, want);
}

#[test]
fn large_shadow_is_a_shadow_and_leaves_the_radius_alone() {
    let only = StyleRule { shadow: num("lg"), ..StyleRule::default() };
    let style = Style::new().apply_style_rule(&only);
    assert_eq!(style.shadow, Some(Shadow::Lg));
    assert_eq!(style.rounded, None);
    let mut rounded = Style::new();
    rounded.rounded = Some(Rounded::Full);
    let after = rounded.apply_style_rule(&only);
    assert_eq!(after.shadow, Some(Shadow::Lg));
    assert_eq!(after.rounded, Some(Rounded::Full));
    let both = StyleRule { shadow: num("lg"), rounded: num("md"), ..StyleRule::default() };
    let style = Style::new().apply_style_rule(&both);
    assert_eq!(style.shadow, Some(Shadow::Lg));
    assert_eq!(style.rounded, Some(Rounded::Md));
}

#[test]
fn resolving_twice_is_resolving_once() {
    let a = StyleRule { bg_color: num("#a"), width: num("3"), ..StyleRule::default() };
    let b = StyleRule { size_full: Some(true), padding_top: num("1"), ..StyleRule::default() };
    let sd = data(vec![("a", a), ("b", b)]);
    let once = Style::new().class("a zz b a", &sd);
    let twice = once.clone().class("a zz b a", &sd);
    assert_eq!(once, twice);
    assert_eq!(once.width, Some(Length::Px("3".to_string())));
    assert_eq!(once.height, Some(Length::Full));
    assert_eq!(once.padding, edges("0", "0", "0", "0"));
}

#[test]
fn empty_class_list_and_repeated_spaces() {
    let a = StyleRule { gap: num("9"), ..StyleRule::default() };
    let sd = data(vec![("a", a)]);
    assert_eq!(Style::new().class("", &sd), Style::new());
    assert_eq!(Style::new().class("  a  ", &sd).gap, num("9"));
    assert_eq!(Style::default(), Style::new());
}
