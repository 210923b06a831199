//! The layout document interpreter: from a JSON tree and what the owner
//! exposes under each name to a tree of elements, together with the list of
//! what was wrong with the document.
use crate::json::{
    lemma_member_decreases, parse_json_bytes, parsed_json, utf8_lossy, Json, LoadError,
};
use crate::my_style_data::{
    apply_rule, classify, decode_rule, rule_of_json, MyStyleData, SetMyStyleData,
    StylableElement, Style, StyleView,
};
use crate::table::NameTable;
use crate::text::str_eq;
use vstd::prelude::*;

verus! {

/// What the owner holds in a field that a document can bind to.
#[derive(Clone, Debug, PartialEq, Eq)]
pub enum FieldValue {
    /// A shared string of the toolkit.
    SharedText(String),
    /// A plain string.
    PlainText(String),
    /// The state of a text input.
    InputState,
    /// Anything else.
    Other,
}

/// What a method of the owner gives when a document calls it by name.
#[derive(Clone, Copy, Debug, PartialEq, Eq)]
pub enum MethodValue {
    /// A handler for clicks.
    ClickHandler,
    /// A builder of an element.
    ElementBuilder,
    /// Nothing at all.
    Nothing,
    /// A value of another kind.
    Other,
}

/// The object that a document is rendered for: what it exposes by name,
/// and the documents in force. A method can give one thing when a button
/// asks it for a click handler and another when an `fn` node asks it for an
/// element builder, so the two answers are kept apart.
#[derive(Debug, PartialEq, Eq)]
pub struct Owner {
    /// What each field holds.
    pub fields: NameTable<FieldValue>,
    /// What each method gives when a button asks it for its click handler.
    pub handlers: NameTable<MethodValue>,
    /// What each method gives when an `fn` node asks it for its builder.
    pub builders: NameTable<MethodValue>,
    pub style_data: MyStyleData,
    pub layout_data: Json,
}

/// An object that holds a layout document and lets it be replaced as a
/// whole.
pub trait SetMyLayoutData {
    /// The layout document that the object holds.
    spec fn layout_data(&self) -> Json;

    /// Replaces the layout document.
    fn set_layout_data(&mut self, data: Json)
        ensures
            final(self).layout_data() == data,
    ;
}

impl SetMyStyleData for Owner {
    open spec fn style_data(&self) -> MyStyleData {
        self.style_data
    }

    fn set_style_data(&mut self, data: MyStyleData)
        ensures
            final(self).fields == old(self).fields,
            final(self).handlers == old(self).handlers,
            final(self).builders == old(self).builders,
            final(self).layout_data == old(self).layout_data,
    {
        self.style_data = data;
    }

    fn get_style_data(&self) -> (r: &MyStyleData) {
        &self.style_data
    }
}

impl SetMyLayoutData for Owner {
    open spec fn layout_data(&self) -> Json {
        self.layout_data
    }

    fn set_layout_data(&mut self, data: Json)
        ensures
            final(self).fields == old(self).fields,
            final(self).handlers == old(self).handlers,
            final(self).builders == old(self).builders,
            final(self).style_data == old(self).style_data,
    {
        self.layout_data = data;
    }
}

impl Owner {
    /// An owner that exposes nothing yet, with the documents given.
    pub fn new(style_data: MyStyleData, layout_data: Json) -> (r: Owner)
        ensures
            r.style_data == style_data,
            r.layout_data == layout_data,
            forall|name: Seq<char>| r.fields.lookup(name) is None,
            forall|name: Seq<char>| r.handlers.lookup(name) is None,
            forall|name: Seq<char>| r.builders.lookup(name) is None,
    {
        Owner {
            fields: NameTable::new(),
            handlers: NameTable::new(),
            builders: NameTable::new(),
            style_data,
            layout_data,
        }
    }

    /// Renders the owner's layout document as a container.
    pub fn render(&self, log: &mut Vec<Issue>) -> (r: Element)
        ensures
            r@ == div_of(self.layout_data, *self).element,
            final(log)@ == old(log)@ + div_of(self.layout_data, *self).issues,
    {
        add_div_by_json(&self.layout_data, self, log)
    }
}

/// Something wrong with a node of a document. The node is rendered all the
/// same, without the part that is wrong.
#[derive(Clone, Copy, Debug, PartialEq, Eq)]
pub enum Issue {
    /// A node is not an object.
    NotAnObject,
    /// An inline `style` is not a style rule.
    WrongStyle,
    /// A node's `type` names no kind of element.
    UnknownElement,
    /// A child is neither an object nor a string.
    BadChild,
    /// A button has no `id`.
    MissingButtonId,
    /// The owner has no method of the name given.
    MethodNotFound,
    /// The method gave nothing.
    MethodGaveNothing,
    /// The method gave a value of the wrong kind.
    MethodWrongType,
    /// A label is bound to a field that holds no text.
    InvalidLabelType,
    /// A label has neither a bound text nor a `label`.
    MissingLabelText,
    /// A text input has no `bind`.
    MissingBind,
    /// The owner has no field of the name given.
    FieldNotFound,
    /// A text input is bound to a field that holds no input state.
    FieldWrongType,
    /// An `fn` node has no `name`.
    MissingFnName,
}

/// An element of the user interface, as the document describes it.
#[derive(Debug, PartialEq, Eq)]
pub enum Element {
    /// A container with its children in document order.
    Div { style: Style, children: Vec<Element> },
    /// A piece of text.
    Label { text: String, style: Style },
    /// A text input on the input state that the owner holds in `bind`.
    TextInput { bind: String, style: Style },
    /// A button. `on_click` names the owner's method that gives its
    /// handler; a button without one does nothing.
    Button { id: String, label: Option<String>, on_click: Option<String>, style: Style },
    /// Whatever the owner's element builder `name` builds.
    Custom { name: String },
}

/// Model of an [`Element`].
pub enum ElementView {
    Div { style: StyleView, children: Seq<ElementView> },
    Label { text: Seq<char>, style: StyleView },
    TextInput { bind: Seq<char>, style: StyleView },
    Button { id: Seq<char>, label: Option<Seq<char>>, on_click: Option<Seq<char>>, style: StyleView },
    Custom { name: Seq<char> },
}

/// The model of an element.
pub open spec fn element_view(e: Element) -> ElementView
    decreases e,
{
    match e {
        Element::Div { style, children } => ElementView::Div {
            style: style@,
            children: element_views(children@),
        },
        Element::Label { text, style } => ElementView::Label { text: text@, style: style@ },
        Element::TextInput { bind, style } => ElementView::TextInput { bind: bind@, style: style@ },
        Element::Button { id, label, on_click, style } => ElementView::Button {
            id: id@,
            label: match label {
                Some(t) => Some(t@),
                None => None,
            },
            on_click: match on_click {
                Some(t) => Some(t@),
                None => None,
            },
            style: style@,
        },
        Element::Custom { name } => ElementView::Custom { name: name@ },
    }
}

/// The models of a list of elements, in order.
pub open spec fn element_views(items: Seq<Element>) -> Seq<ElementView>
    decreases items,
{
    if items.len() == 0 {
        Seq::empty()
    } else {
        element_views(items.drop_last()).push(element_view(items.last()))
    }
}

impl View for Element {
    type V = ElementView;

    open spec fn view(&self) -> ElementView {
        element_view(*self)
    }
}

/// What rendering gives: an element and what was wrong on the way.
pub struct Rendered {
    pub element: ElementView,
    pub issues: Seq<Issue>,
}

/// A container without style or children: what stands in for a node that
/// cannot be rendered.
pub open spec fn empty_div() -> ElementView {
    ElementView::Div { style: StyleView::unset(), children: Seq::empty() }
}

/// The style of a node: the classes of its `class`, then its inline
/// `style` on top of them. An inline style that is no style rule is passed
/// over.
pub open spec fn attributes(style: StyleView, value: Json, e: Owner) -> (StyleView, Seq<Issue>) {
    match value {
        Json::Object(_) => {
            let classed = match value.member_text("class"@) {
                Some(classes) => classify(style, classes, e.style_data),
                None => style,
            };
            match value.member("style"@) {
                Some(inline) => match rule_of_json(inline) {
                    Ok(rule) => (apply_rule(classed, rule), Seq::empty()),
                    Err(_) => (classed, seq![Issue::WrongStyle]),
                },
                None => (classed, Seq::empty()),
            }
        },
        _ => (style, seq![Issue::NotAnObject]),
    }
}

/// The text of a label: the text of the field that `bind` names, where
/// the owner has that field; else the text of `label`; else nothing.
pub open spec fn label_text(value: Json, e: Owner) -> (Seq<char>, Seq<Issue>) {
    match value {
        Json::Object(_) => {
            let bound = match value.member_text("bind"@) {
                Some(name) => e.fields.lookup(name),
                None => None,
            };
            match bound {
                Some(FieldValue::SharedText(t)) => (t@, Seq::empty()),
                Some(FieldValue::PlainText(t)) => (t@, Seq::empty()),
                Some(_) => (Seq::empty(), seq![Issue::InvalidLabelType]),
                None => match value.member_text("label"@) {
                    Some(t) => (t, Seq::empty()),
                    None => (Seq::empty(), seq![Issue::MissingLabelText]),
                },
            }
        },
        _ => (Seq::empty(), seq![Issue::NotAnObject]),
    }
}

/// A label node as an element.
pub open spec fn label_of(value: Json, e: Owner) -> Rendered {
    let (text, first) = label_text(value, e);
    let (style, second) = attributes(StyleView::unset(), value, e);
    Rendered { element: ElementView::Label { text, style }, issues: first + second }
}

/// A text input node as an element: an input on the field that `bind`
/// names, where that field holds an input state; else an empty container.
pub open spec fn text_input_of(value: Json, e: Owner) -> Rendered {
    match value {
        Json::Object(_) => match value.member_text("bind"@) {
            Some(name) => match e.fields.lookup(name) {
                Some(FieldValue::InputState) => {
                    let (style, issues) = attributes(StyleView::unset(), value, e);
                    Rendered { element: ElementView::TextInput { bind: name, style }, issues }
                },
                Some(_) => Rendered { element: empty_div(), issues: seq![Issue::FieldWrongType] },
                None => Rendered { element: empty_div(), issues: seq![Issue::FieldNotFound] },
            },
            None => Rendered { element: empty_div(), issues: seq![Issue::MissingBind] },
        },
        _ => Rendered { element: empty_div(), issues: seq![Issue::NotAnObject] },
    }
}

/// The handler of a button: the method that `on_click` names, where it
/// gives a click handler.
pub open spec fn click_handler(value: Json, e: Owner) -> (Option<Seq<char>>, Seq<Issue>) {
    match value.member_text("on_click"@) {
        Some(name) => match e.handlers.lookup(name) {
            Some(MethodValue::ClickHandler) => (Some(name), Seq::empty()),
            Some(MethodValue::Nothing) => (None, seq![Issue::MethodGaveNothing]),
            Some(_) => (None, seq![Issue::MethodWrongType]),
            None => (None, seq![Issue::MethodNotFound]),
        },
        None => (None, Seq::empty()),
    }
}

/// A button node as an element. Without an `id` it is a button with an
/// empty id, no label and no handler.
pub open spec fn button_of(value: Json, e: Owner) -> Rendered {
    let (style, last) = attributes(StyleView::unset(), value, e);
    match value.member_text("id"@) {
        Some(id) => {
            let (on_click, first) = click_handler(value, e);
            Rendered {
                element: ElementView::Button {
                    id,
                    label: value.member_text("label"@),
                    on_click,
                    style,
                },
                issues: first + last,
            }
        },
        None => Rendered {
            element: ElementView::Button { id: Seq::empty(), label: None, on_click: None, style },
            issues: seq![
                if value is Object {
                    Issue::MissingButtonId
                } else {
                    Issue::NotAnObject
                },
            ] + last,
        },
    }
}

/// An `fn` node as an element: what the method that `name` names builds,
/// where it gives an element builder; else an empty container.
pub open spec fn fn_of(value: Json, e: Owner) -> Rendered {
    match value {
        Json::Object(_) => match value.member_text("name"@) {
            Some(name) => match e.builders.lookup(name) {
                Some(MethodValue::ElementBuilder) => Rendered {
                    element: ElementView::Custom { name },
                    issues: Seq::empty(),
                },
                Some(MethodValue::Nothing) => Rendered {
                    element: empty_div(),
                    issues: seq![Issue::MethodGaveNothing],
                },
                Some(_) => Rendered { element: empty_div(), issues: seq![Issue::MethodWrongType] },
                None => Rendered { element: empty_div(), issues: seq![Issue::MethodNotFound] },
            },
            None => Rendered { element: empty_div(), issues: seq![Issue::MissingFnName] },
        },
        _ => Rendered { element: empty_div(), issues: seq![Issue::NotAnObject] },
    }
}

/// The kind of element that a node asks for: its `type`, or `div` where it
/// has none.
pub open spec fn node_type(value: Json) -> Seq<char> {
    match value.member_text("type"@) {
        Some(t) => t,
        None => "div"@,
    }
}

/// A node as an element, by its kind. A node of an unknown kind is an
/// empty container.
pub open spec fn element_of(value: Json, e: Owner) -> Rendered
    decreases value, 2nat,
{
    let kind = node_type(value);
    if kind == "div"@ {
        div_of(value, e)
    } else if kind == "label"@ {
        label_of(value, e)
    } else if kind == "text_input"@ {
        text_input_of(value, e)
    } else if kind == "button"@ {
        button_of(value, e)
    } else if kind == "fn"@ {
        fn_of(value, e)
    } else {
        Rendered { element: empty_div(), issues: seq![Issue::UnknownElement] }
    }
}

/// A node as a container: its style, and its children in document order.
pub open spec fn div_of(value: Json, e: Owner) -> Rendered
    decreases value, 1nat,
{
    let (style, first) = attributes(StyleView::unset(), value, e);
    let (children, second) = children_of(value, e);
    Rendered { element: ElementView::Div { style, children }, issues: first + second }
}

/// The children of a node: what the items of its `children` give, where
/// that is a list.
pub open spec fn children_of(value: Json, e: Owner) -> (Seq<ElementView>, Seq<Issue>)
    decreases value, 0nat,
{
    match value {
        Json::Object(_) => match value.member("children"@) {
            Some(Json::List(items)) => {
                proof {
                    lemma_member_decreases(value, "children"@);
                    assert(decreases_to!(value.member("children"@)->0 => value.member(
                        "children"@,
                    )->0->List_0));
                    assert(decreases_to!(items => items@));
                }
                elements_of(items@, e)
            },
            _ => (Seq::empty(), Seq::empty()),
        },
        _ => (Seq::empty(), seq![Issue::NotAnObject]),
    }
}

/// What a list of child nodes gives: an element for each object, a plain
/// label for each string, and nothing for any other item.
pub open spec fn elements_of(items: Seq<Json>, e: Owner) -> (Seq<ElementView>, Seq<Issue>)
    decreases items, 0nat,
{
    if items.len() == 0 {
        (Seq::empty(), Seq::empty())
    } else {
        let (before, first) = elements_of(items.drop_last(), e);
        match items.last() {
            Json::Object(_) => {
                let child = element_of(items.last(), e);
                (before.push(child.element), first + child.issues)
            },
            Json::Text(t) => (
                before.push(ElementView::Label { text: t@, style: StyleView::unset() }),
                first,
            ),
            _ => (before, first.push(Issue::BadChild)),
        }
    }
}

/// Sets on `style` what the node's `class` and `style` ask for: the classes
/// first, then the inline style on top of them; see [`attributes`].
pub fn set_attributes(style: Style, value: &Json, e: &Owner, log: &mut Vec<Issue>) -> (r: Style)
    ensures
        r@ == attributes(style@, *value, *e).0,
        final(log)@ == old(log)@ + attributes(style@, *value, *e).1,
{
    match value {
        Json::Object(_) => {
            let classed = match value.get_str("class") {
                Some(classes) => style.class(classes, &e.style_data),
                None => style,
            };
            match value.get("style") {
                Some(inline) => match decode_rule(inline) {
                    Ok(rule) => {
                        assert(log@ + Seq::<Issue>::empty() == log@);
                        classed.apply_style_rule(&rule)
                    },
                    Err(_) => {
                        log.push(Issue::WrongStyle);
                        assert(old(log)@.push(Issue::WrongStyle) == old(log)@ + seq![
                            Issue::WrongStyle,
                        ]);
                        classed
                    },
                },
                None => {
                    assert(log@ + Seq::<Issue>::empty() == log@);
                    classed
                },
            }
        },
        _ => {
            log.push(Issue::NotAnObject);
            assert(old(log)@.push(Issue::NotAnObject) == old(log)@ + seq![Issue::NotAnObject]);
            style
        },
    }
}

/// Notes one issue.
fn note(log: &mut Vec<Issue>, issue: Issue)
    ensures
        final(log)@ == old(log)@ + seq![issue],
{
    log.push(issue);
    assert(old(log)@.push(issue) == old(log)@ + seq![issue]);
}

/// A container without style or children.
fn empty_container() -> (r: Element)
    ensures
        r@ == empty_div(),
{
    let children: Vec<Element> = Vec::new();
    Element::Div { style: Style::new(), children }
}

/// The text of a label node.
fn label_text_of(value: &Json, e: &Owner, log: &mut Vec<Issue>) -> (r: String)
    ensures
        r@ == label_text(*value, *e).0,
        final(log)@ == old(log)@ + label_text(*value, *e).1,
{
    match value {
        Json::Object(_) => {
            let bound = match value.get_str("bind") {
                Some(name) => e.fields.get(name),
                None => None,
            };
            match bound {
                Some(FieldValue::SharedText(t)) => {
                    assert(log@ + Seq::<Issue>::empty() == log@);
                    t.clone()
                },
                Some(FieldValue::PlainText(t)) => {
                    assert(log@ + Seq::<Issue>::empty() == log@);
                    t.clone()
                },
                Some(_) => {
                    note(log, Issue::InvalidLabelType);
                    String::new()
                },
                None => match value.get_str("label") {
                    Some(t) => {
                        assert(log@ + Seq::<Issue>::empty() == log@);
                        t.to_owned()
                    },
                    None => {
                        note(log, Issue::MissingLabelText);
                        String::new()
                    },
                },
            }
        },
        _ => {
            note(log, Issue::NotAnObject);
            String::new()
        },
    }
}

/// Renders a label node; see [`label_of`].
pub fn add_label_by_json(value: &Json, e: &Owner, log: &mut Vec<Issue>) -> (r: Element)
    ensures
        r@ == label_of(*value, *e).element,
        final(log)@ == old(log)@ + label_of(*value, *e).issues,
{
    let text = label_text_of(value, e, log);
    let style = set_attributes(Style::new(), value, e, log);
    assert((old(log)@ + label_text(*value, *e).1) + attributes(StyleView::unset(), *value, *e).1
        == old(log)@ + (label_text(*value, *e).1 + attributes(
        StyleView::unset(),
        *value,
        *e,
    ).1));
    Element::Label { text, style }
}

/// Renders a text input node; see [`text_input_of`].
pub fn add_text_input_by_json(value: &Json, e: &Owner, log: &mut Vec<Issue>) -> (r: Element)
    ensures
        r@ == text_input_of(*value, *e).element,
        final(log)@ == old(log)@ + text_input_of(*value, *e).issues,
{
    match value {
        Json::Object(_) => match value.get_str("bind") {
            Some(name) => match e.fields.get(name) {
                Some(FieldValue::InputState) => {
                    let style = set_attributes(Style::new(), value, e, log);
                    Element::TextInput { bind: name.to_owned(), style }
                },
                Some(_) => {
                    note(log, Issue::FieldWrongType);
                    empty_container()
                },
                None => {
                    note(log, Issue::FieldNotFound);
                    empty_container()
                },
            },
            None => {
                note(log, Issue::MissingBind);
                empty_container()
            },
        },
        _ => {
            note(log, Issue::NotAnObject);
            empty_container()
        },
    }
}

/// The name of the method that gives a button's handler.
fn click_handler_of(value: &Json, e: &Owner, log: &mut Vec<Issue>) -> (r: Option<String>)
    ensures
        crate::my_style_data::text_of(r) == click_handler(*value, *e).0,
        final(log)@ == old(log)@ + click_handler(*value, *e).1,
{
    match value.get_str("on_click") {
        Some(name) => match e.handlers.get(name) {
            Some(MethodValue::ClickHandler) => {
                assert(log@ + Seq::<Issue>::empty() == log@);
                Some(name.to_owned())
            },
            Some(MethodValue::Nothing) => {
                note(log, Issue::MethodGaveNothing);
                None
            },
            Some(_) => {
                note(log, Issue::MethodWrongType);
                None
            },
            None => {
                note(log, Issue::MethodNotFound);
                None
            },
        },
        None => {
            assert(log@ + Seq::<Issue>::empty() == log@);
            None
        },
    }
}

/// Renders a button node; see [`button_of`].
pub fn add_button_by_json(value: &Json, e: &Owner, log: &mut Vec<Issue>) -> (r: Element)
    ensures
        r@ == button_of(*value, *e).element,
        final(log)@ == old(log)@ + button_of(*value, *e).issues,
{
    let ghost last = attributes(StyleView::unset(), *value, *e).1;
    match value.get_str("id") {
        Some(id) => {
            let label = match value.get_str("label") {
                Some(t) => Some(t.to_owned()),
                None => None,
            };
            let on_click = click_handler_of(value, e, log);
            let style = set_attributes(Style::new(), value, e, log);
            assert((old(log)@ + click_handler(*value, *e).1) + last == old(log)@ + (click_handler(
                *value,
                *e,
            ).1 + last));
            Element::Button { id: id.to_owned(), label, on_click, style }
        },
        None => {
            let issue = match value {
                Json::Object(_) => Issue::MissingButtonId,
                _ => Issue::NotAnObject,
            };
            note(log, issue);
            let style = set_attributes(Style::new(), value, e, log);
            assert((old(log)@ + seq![issue]) + last == old(log)@ + (seq![issue] + last));
            Element::Button { id: String::new(), label: None, on_click: None, style }
        },
    }
}

/// Renders an `fn` node; see [`fn_of`].
pub fn add_fn_by_json(value: &Json, e: &Owner, log: &mut Vec<Issue>) -> (r: Element)
    ensures
        r@ == fn_of(*value, *e).element,
        final(log)@ == old(log)@ + fn_of(*value, *e).issues,
{
    match value {
        Json::Object(_) => match value.get_str("name") {
            Some(name) => match e.builders.get(name) {
                Some(MethodValue::ElementBuilder) => {
                    assert(log@ + Seq::<Issue>::empty() == log@);
                    Element::Custom { name: name.to_owned() }
                },
                Some(MethodValue::Nothing) => {
                    note(log, Issue::MethodGaveNothing);
                    empty_container()
                },
                Some(_) => {
                    note(log, Issue::MethodWrongType);
                    empty_container()
                },
                None => {
                    note(log, Issue::MethodNotFound);
                    empty_container()
                },
            },
            None => {
                note(log, Issue::MissingFnName);
                empty_container()
            },
        },
        _ => {
            note(log, Issue::NotAnObject);
            empty_container()
        },
    }
}

/// Renders a node by its kind; see [`element_of`].
pub fn render(value: &Json, e: &Owner, log: &mut Vec<Issue>) -> (r: Element)
    ensures
        r@ == element_of(*value, *e).element,
        final(log)@ == old(log)@ + element_of(*value, *e).issues,
    decreases *value, 2nat,
{
    let kind = match value.get_str("type") {
        Some(t) => t,
        None => "div",
    };
    if str_eq(kind, "div") {
        add_div_by_json(value, e, log)
    } else if str_eq(kind, "label") {
        add_label_by_json(value, e, log)
    } else if str_eq(kind, "text_input") {
        add_text_input_by_json(value, e, log)
    } else if str_eq(kind, "button") {
        add_button_by_json(value, e, log)
    } else if str_eq(kind, "fn") {
        add_fn_by_json(value, e, log)
    } else {
        note(log, Issue::UnknownElement);
        empty_container()
    }
}

/// Renders a node as a container; see [`div_of`].
pub fn add_div_by_json(value: &Json, e: &Owner, log: &mut Vec<Issue>) -> (r: Element)
    ensures
        r@ == div_of(*value, *e).element,
        final(log)@ == old(log)@ + div_of(*value, *e).issues,
    decreases *value, 1nat,
{
    let style = set_attributes(Style::new(), value, e, log);
    let children = set_children(Vec::new(), value, e, log);
    assert(element_views(Seq::<Element>::empty()) + children_of(*value, *e).0 == children_of(
        *value,
        *e,
    ).0);
    assert((old(log)@ + attributes(StyleView::unset(), *value, *e).1) + children_of(*value, *e).1
        == old(log)@ + (attributes(StyleView::unset(), *value, *e).1 + children_of(
        *value,
        *e,
    ).1));
    Element::Div { style, children }
}

/// Appends the children of a node to `children`, in document order: what
/// is there stays in front, and what the items of the node's `children`
/// give follows; see [`children_of`].
pub fn set_children(children: Vec<Element>, value: &Json, e: &Owner, log: &mut Vec<Issue>) -> (r:
    Vec<Element>)
    ensures
        element_views(r@) == element_views(children@) + children_of(*value, *e).0,
        final(log)@ == old(log)@ + children_of(*value, *e).1,
    decreases *value, 0nat,
{
    let ghost base = element_views(children@);
    let mut children = children;
    let items = match value {
        Json::Object(_) => match value.get("children") {
            Some(Json::List(items)) => items,
            _ => {
                assert(log@ + Seq::<Issue>::empty() == log@);
                assert(base + Seq::<ElementView>::empty() == base);
                return children;
            },
        },
        _ => {
            note(log, Issue::NotAnObject);
            assert(base + Seq::<ElementView>::empty() == base);
            return children;
        },
    };
    let ghost list = value.member("children"@)->0;
    proof {
        lemma_member_decreases(*value, "children"@);
        assert(decreases_to!(list => list->List_0));
        assert(items@.take(0) == Seq::<Json>::empty());
        assert(log@ + Seq::<Issue>::empty() == log@);
        assert(base + Seq::<ElementView>::empty() == base);
    }
    let mut i: usize = 0;
    while i < items.len()
        invariant
            0 <= i <= items.len(),
            list == Json::List(*items),
            decreases_to!(*value => list->List_0),
            element_views(children@) == base + elements_of(items@.take(i as int), *e).0,
            log@ == old(log)@ + elements_of(items@.take(i as int), *e).1,
        decreases items.len() - i,
    {
        let ghost before = elements_of(items@.take(i as int), *e);
        let ghost seen = children@;
        proof {
            assert(items@.take(i + 1).drop_last() == items@.take(i as int));
            assert(items@.take(i + 1).last() == items@[i as int]);
            assert(decreases_to!(list->List_0 => list->List_0[i as int]));
        }
        match &items[i] {
            Json::Object(_) => {
                let child = render(&items[i], e, log);
                children.push(child);
                proof {
                    let made = element_of(items@[i as int], *e);
                    assert(children@.drop_last() == seen);
                    assert(children@.last()@ == made.element);
                    assert(element_views(children@) == element_views(seen).push(made.element));
                    assert(elements_of(items@.take(i + 1), *e).0 == before.0.push(made.element));
                    assert((base + before.0).push(made.element) == base + before.0.push(
                        made.element,
                    ));
                    assert((old(log)@ + before.1) + made.issues == old(log)@ + (before.1
                        + made.issues));
                }
            },
            Json::Text(t) => {
                children.push(Element::Label { text: t.clone(), style: Style::new() });
                proof {
                    let made = ElementView::Label { text: t@, style: StyleView::unset() };
                    assert(children@.drop_last() == seen);
                    assert(children@.last()@ == made);
                    assert(element_views(children@) == element_views(seen).push(made));
                    assert(elements_of(items@.take(i + 1), *e).0 == before.0.push(made));
                    assert((base + before.0).push(made) == base + before.0.push(made));
                }
            },
            _ => {
                note(log, Issue::BadChild);
                proof {
                    assert(elements_of(items@.take(i + 1), *e).0 == before.0);
                    assert((old(log)@ + before.1) + seq![Issue::BadChild] == old(log)@
                        + before.1.push(Issue::BadChild));
                }
            },
        }
        i += 1;
    }
    proof {
        assert(items@.take(i as int) == items@);
    }
    children
}

/// Loads a layout document from the bytes of its JSON text. Any JSON value
/// is a layout document.
pub fn load_layout(content: &[u8]) -> (r: Result<Json, LoadError>)
    ensures
        r == match parsed_json(utf8_lossy(content@)) {
            Some(doc) => Ok::<Json, LoadError>(doc),
            None => Err(LoadError::Syntax),
        },
{
    parse_json_bytes(content)
}

/// Whether rendering a node as an element of kind `kind` asks the owner
/// for the name that the node holds under `key`: a label and a text input
/// ask for the field of their `bind`, a button that has an `id` for the
/// method of its `on_click`, an `fn` node for the method of its `name`.
pub open spec fn asks(value: Json, kind: Seq<char>, key: Seq<char>) -> bool {
    ||| (kind == "label"@ || kind == "text_input"@) && key == "bind"@
    ||| kind == "button"@ && key == "on_click"@ && value.member_text("id"@) is Some
    ||| kind == "fn"@ && key == "name"@
}

/// The name that rendering a node itself asks the owner for, under `key`.
pub open spec fn own_names(value: Json, kind: Seq<char>, key: Seq<char>) -> Seq<Seq<char>> {
    if value is Object && asks(value, kind, key) {
        match value.member_text(key) {
            Some(name) => seq![name],
            None => Seq::empty(),
        }
    } else {
        Seq::empty()
    }
}

/// The names that rendering a node as an element of kind `kind` asks the
/// owner for, under `key`, in document order: the node's own, then, for a
/// container, those of its children, each rendered by its own kind.
pub open spec fn names_asked(value: Json, kind: Seq<char>, key: Seq<char>) -> Seq<Seq<char>>
    decreases value, 1nat,
{
    let below = if kind == "div"@ {
        match value {
            Json::Object(_) => match value.member("children"@) {
                Some(Json::List(items)) => {
                    proof {
                        lemma_member_decreases(value, "children"@);
                        assert(decreases_to!(value.member("children"@)->0 => value.member(
                            "children"@,
                        )->0->List_0));
                        assert(decreases_to!(items => items@));
                    }
                    names_asked_all(items@, key)
                },
                _ => Seq::empty(),
            },
            _ => Seq::empty(),
        }
    } else {
        Seq::empty()
    };
    own_names(value, kind, key) + below
}

/// The names that rendering a list of child nodes asks the owner for.
pub open spec fn names_asked_all(items: Seq<Json>, key: Seq<char>) -> Seq<Seq<char>>
    decreases items, 0nat,
{
    if items.len() == 0 {
        Seq::empty()
    } else {
        let last = match items.last() {
            Json::Object(_) => names_asked(items.last(), node_type(items.last()), key),
            _ => Seq::empty(),
        };
        names_asked_all(items.drop_last(), key) + last
    }
}

/// The characters of each string of a list.
pub open spec fn texts_of(found: Seq<String>) -> Seq<Seq<char>> {
    Seq::new(found.len(), |i: int| found[i]@)
}

/// Whether rendering a node as `kind` asks for what it holds under `key`.
fn asks_for(value: &Json, kind: &str, key: &str) -> (r: bool)
    ensures
        r == asks(*value, kind@, key@),
{
    ((str_eq(kind, "label") || str_eq(kind, "text_input")) && str_eq(key, "bind")) || (str_eq(
        kind,
        "button",
    ) && str_eq(key, "on_click") && value.get_str("id").is_some()) || (str_eq(kind, "fn")
        && str_eq(key, "name"))
}

/// Adds to `found` the names that rendering a node asks the owner for.
fn collect_names(value: &Json, kind: &str, key: &str, found: &mut Vec<String>)
    ensures
        texts_of(final(found)@) == texts_of(old(found)@) + names_asked(*value, kind@, key@),
    decreases *value, 1nat,
{
    let is_object = match value {
        Json::Object(_) => true,
        _ => false,
    };
    if is_object && asks_for(value, kind, key) {
        if let Some(name) = value.get_str(key) {
            found.push(name.to_owned());
        }
    }
    let ghost own = own_names(*value, kind@, key@);
    assert(texts_of(found@) == texts_of(old(found)@) + own);
    if !is_object || !str_eq(kind, "div") {
        assert(own + Seq::<Seq<char>>::empty() == own);
        return ;
    }
    let items = match value.get("children") {
        Some(Json::List(items)) => items,
        _ => {
            assert(own + Seq::<Seq<char>>::empty() == own);
            return ;
        },
    };
    let ghost list = value.member("children"@)->0;
    proof {
        lemma_member_decreases(*value, "children"@);
        assert(decreases_to!(list => list->List_0));
        assert(items@.take(0) == Seq::<Json>::empty());
        assert(own + Seq::<Seq<char>>::empty() == own);
    }
    let mut i: usize = 0;
    while i < items.len()
        invariant
            0 <= i <= items.len(),
            list == Json::List(*items),
            decreases_to!(*value => list->List_0),
            texts_of(found@) == texts_of(old(found)@) + (own + names_asked_all(
                items@.take(i as int),
                key@,
            )),
        decreases items.len() - i,
    {
        let ghost before = own + names_asked_all(items@.take(i as int), key@);
        proof {
            assert(items@.take(i + 1).drop_last() == items@.take(i as int));
            assert(items@.take(i + 1).last() == items@[i as int]);
            assert(decreases_to!(list->List_0 => list->List_0[i as int]));
        }
        match &items[i] {
            Json::Object(_) => {
                let child_kind = match items[i].get_str("type") {
                    Some(t) => t,
                    None => "div",
                };
                collect_names(&items[i], child_kind, key, found);
                proof {
                    let last = names_asked(items@[i as int], node_type(items@[i as int]), key@);
                    assert((texts_of(old(found)@) + before) + last == texts_of(old(found)@) + (own
                        + names_asked_all(items@.take(i + 1), key@)));
                }
            },
            _ => {
                proof {
                    assert(names_asked_all(items@.take(i + 1), key@) == names_asked_all(
                        items@.take(i as int),
                        key@,
                    ) + Seq::<Seq<char>>::empty());
                    assert(names_asked_all(items@.take(i + 1), key@) == names_asked_all(
                        items@.take(i as int),
                        key@,
                    ));
                }
            },
        }
        i += 1;
    }
    proof {
        assert(items@.take(i as int) == items@);
    }
}

/// The names that rendering a node as an element of kind `kind` asks the
/// owner for, under `key`, in document order; see [`names_asked`]. With
/// `key` one of `bind`, `on_click` and `name`, these are the fields, the
/// click handlers and the element builders that the owner has to answer
/// for before the node is rendered.
pub fn referenced_names(value: &Json, kind: &str, key: &str) -> (r: Vec<String>)
    ensures
        texts_of(r@) == names_asked(*value, kind@, key@),
{
    let mut found: Vec<String> = Vec::new();
    collect_names(value, kind, key, &mut found);
    proof {
        assert(texts_of(Seq::<String>::empty()) + names_asked(*value, kind@, key@)
            == names_asked(*value, kind@, key@));
    }
    found
}

/// Children keep the order of the document: where every item of a list is
/// an object or a string, there is one child for each item, at the item's
/// place. An item that is a string is a plain label of that text.
pub proof fn lemma_children_in_document_order(items: Seq<Json>, e: Owner)
    requires
        forall|i: int| 0 <= i < items.len() ==> #[trigger] items[i] is Object || items[i] is Text,
    ensures
        elements_of(items, e).0.len() == items.len(),
        forall|i: int|
            0 <= i < items.len() ==> #[trigger] elements_of(items, e).0[i] == match items[i] {
                Json::Text(t) => ElementView::Label { text: t@, style: StyleView::unset() },
                _ => element_of(items[i], e).element,
            },
    decreases items.len(),
{
    if items.len() > 0 {
        let shorter = items.drop_last();
        assert forall|i: int| 0 <= i < shorter.len() implies #[trigger] shorter[i] is Object
            || shorter[i] is Text by {
            assert(shorter[i] == items[i]);
        }
        lemma_children_in_document_order(shorter, e);
        assert(items.last() == items[items.len() - 1]);
        assert forall|i: int| 0 <= i < items.len() implies #[trigger] elements_of(items, e).0[i]
            == match items[i] {
            Json::Text(t) => ElementView::Label { text: t@, style: StyleView::unset() },
            _ => element_of(items[i], e).element,
        } by {
            if i < items.len() - 1 {
                assert(shorter[i] == items[i]);
                assert(elements_of(items, e).0[i] == elements_of(shorter, e).0[i]);
            }
        }
    }
}

/// A container holds its children in document order: where the node's
/// `children` is a list of objects and strings, the container has one
/// child for each item, at the item's place, with nothing left out or put
/// twice.
pub proof fn lemma_div_children_in_document_order(value: Json, e: Owner)
    requires
        value is Object,
        value.member("children"@) matches Some(Json::List(items)) && forall|i: int|
            0 <= i < items@.len() ==> #[trigger] items@[i] is Object || items@[i] is Text,
    ensures
        ({
            let items = value.member("children"@)->0->List_0@;
            &&& children_of(value, e).0.len() == items.len()
            &&& div_of(value, e).element matches ElementView::Div { children, .. } && children
                == children_of(value, e).0
            &&& forall|i: int|
                0 <= i < items.len() ==> #[trigger] children_of(value, e).0[i] == match items[i] {
                    Json::Text(t) => ElementView::Label { text: t@, style: StyleView::unset() },
                    _ => element_of(items[i], e).element,
                }
        }),
{
    let items = value.member("children"@)->0->List_0@;
    lemma_children_in_document_order(items, e);
}

/// A node whose kind is none of the five known kinds is rendered as an
/// empty container, with one issue.
pub proof fn lemma_unknown_kind_is_empty_container(value: Json, e: Owner)
    requires
        node_type(value) != "div"@,
        node_type(value) != "label"@,
        node_type(value) != "text_input"@,
        node_type(value) != "button"@,
        node_type(value) != "fn"@,
    ensures
        element_of(value, e).element == empty_div(),
        element_of(value, e).issues == seq![Issue::UnknownElement],
{
}

/// A button without an `id` is still a button: it has an empty id, no
/// label and no handler, and the first issue says what was wrong.
pub proof fn lemma_button_without_id(value: Json, e: Owner)
    requires
        value.member_text("id"@) is None,
    ensures
        button_of(value, e).element matches ElementView::Button { id, label, on_click, style }
            && id.len() == 0 && label is None && on_click is None && style == attributes(
            StyleView::unset(),
            value,
            e,
        ).0,
        button_of(value, e).issues.len() > 0,
        button_of(value, e).issues[0] == if value is Object {
            Issue::MissingButtonId
        } else {
            Issue::NotAnObject
        },
{
}

/// Whether two owners give the same answers to a node rendered as `kind`:
/// they hold the same style rules, and the same field, handler or builder
/// under every name that rendering asks for.
pub open spec fn same_answers(a: Owner, b: Owner, value: Json, kind: Seq<char>) -> bool {
    &&& a.style_data == b.style_data
    &&& forall|n: Seq<char>| #[trigger]
        names_asked(value, kind, "bind"@).contains(n) ==> a.fields.lookup(n) == b.fields.lookup(
            n,
        )
    &&& forall|n: Seq<char>| #[trigger]
        names_asked(value, kind, "on_click"@).contains(n) ==> a.handlers.lookup(n)
            == b.handlers.lookup(n)
    &&& forall|n: Seq<char>| #[trigger]
        names_asked(value, kind, "name"@).contains(n) ==> a.builders.lookup(n)
            == b.builders.lookup(n)
}

/// The name that a node itself asks for is among the names asked.
pub proof fn lemma_own_name_is_asked(value: Json, kind: Seq<char>, key: Seq<char>)
    requires
        value is Object,
        asks(value, kind, key),
        value.member_text(key) is Some,
    ensures
        names_asked(value, kind, key).contains(value.member_text(key)->0),
{
    let names = names_asked(value, kind, key);
    assert(names[0] == value.member_text(key)->0);
}

/// What rendering one object of a list asks for, rendering the list asks
/// for.
pub proof fn lemma_item_names_are_asked(items: Seq<Json>, key: Seq<char>, i: int, n: Seq<char>)
    requires
        0 <= i < items.len(),
        items[i] is Object,
        names_asked(items[i], node_type(items[i]), key).contains(n),
    ensures
        names_asked_all(items, key).contains(n),
    decreases items.len(),
{
    let before = names_asked_all(items.drop_last(), key);
    let last: Seq<Seq<char>> = match items.last() {
        Json::Object(_) => names_asked(items.last(), node_type(items.last()), key),
        _ => Seq::empty(),
    };
    if i == items.len() - 1 {
        let k = choose|k: int| 0 <= k < last.len() && last[k] == n;
        assert((before + last)[before.len() + k] == n);
    } else {
        assert(items.drop_last()[i] == items[i]);
        lemma_item_names_are_asked(items.drop_last(), key, i, n);
        let k = choose|k: int| 0 <= k < before.len() && before[k] == n;
        assert((before + last)[k] == n);
    }
}

/// What rendering a child asks for, rendering the container asks for.
pub proof fn lemma_child_names_are_asked(value: Json, key: Seq<char>, i: int, n: Seq<char>)
    requires
        value is Object,
        value.member("children"@) matches Some(Json::List(items)) && 0 <= i < items@.len()
            && items@[i] is Object && names_asked(items@[i], node_type(items@[i]), key).contains(
            n,
        ),
    ensures
        names_asked(value, "div"@, key).contains(n),
{
    let items = value.member("children"@)->0->List_0@;
    lemma_item_names_are_asked(items, key, i, n);
    let own = own_names(value, "div"@, key);
    let below = names_asked_all(items, key);
    let k = choose|k: int| 0 <= k < below.len() && below[k] == n;
    assert((own + below)[own.len() + k] == n);
}

/// Owners that give the same answers to a container give them to each of
/// its children.
pub proof fn lemma_same_answers_to_children(value: Json, a: Owner, b: Owner, i: int)
    requires
        same_answers(a, b, value, "div"@),
        value is Object,
        value.member("children"@) matches Some(Json::List(items)) && 0 <= i < items@.len()
            && items@[i] is Object,
    ensures
        ({
            let child = value.member("children"@)->0->List_0@[i];
            same_answers(a, b, child, node_type(child))
        }),
{
    let child = value.member("children"@)->0->List_0@[i];
    let kind = node_type(child);
    assert forall|n: Seq<char>| #[trigger]
        names_asked(child, kind, "bind"@).contains(n) implies a.fields.lookup(n)
        == b.fields.lookup(n) by {
        lemma_child_names_are_asked(value, "bind"@, i, n);
    }
    assert forall|n: Seq<char>| #[trigger]
        names_asked(child, kind, "on_click"@).contains(n) implies a.handlers.lookup(n)
        == b.handlers.lookup(n) by {
        lemma_child_names_are_asked(value, "on_click"@, i, n);
    }
    assert forall|n: Seq<char>| #[trigger]
        names_asked(child, kind, "name"@).contains(n) implies a.builders.lookup(n)
        == b.builders.lookup(n) by {
        lemma_child_names_are_asked(value, "name"@, i, n);
    }
}

/// Rendering asks an owner for nothing but its style rules and what it
/// holds under the names asked: two owners that give the same answers to a
/// node rendered as `kind` give the same element and the same issues.
pub proof fn lemma_render_asks_for_named_only(value: Json, kind: Seq<char>, a: Owner, b: Owner)
    requires
        same_answers(a, b, value, kind),
    ensures
        kind == "div"@ ==> div_of(value, a) == div_of(value, b),
        kind == "label"@ ==> label_of(value, a) == label_of(value, b),
        kind == "text_input"@ ==> text_input_of(value, a) == text_input_of(value, b),
        kind == "button"@ ==> button_of(value, a) == button_of(value, b),
        kind == "fn"@ ==> fn_of(value, a) == fn_of(value, b),
        kind == node_type(value) ==> element_of(value, a) == element_of(value, b),
    decreases value, 1nat,
{
    assert(attributes(StyleView::unset(), value, a) == attributes(StyleView::unset(), value, b));
    if value is Object {
        if (kind == "label"@ || kind == "text_input"@) && value.member_text("bind"@) is Some {
            lemma_own_name_is_asked(value, kind, "bind"@);
        }
        if kind == "button"@ && value.member_text("id"@) is Some && value.member_text(
            "on_click"@,
        ) is Some {
            lemma_own_name_is_asked(value, kind, "on_click"@);
        }
        if kind == "fn"@ && value.member_text("name"@) is Some {
            lemma_own_name_is_asked(value, kind, "name"@);
        }
        if kind == "div"@ {
            if let Some(Json::List(items)) = value.member("children"@) {
                lemma_member_decreases(value, "children"@);
                assert(decreases_to!(value.member("children"@)->0 => value.member(
                    "children"@,
                )->0->List_0));
                assert(decreases_to!(items => items@));
                assert forall|i: int| 0 <= i < items@.len() && items@[i] is Object implies (
                #[trigger] same_answers(a, b, items@[i], node_type(items@[i]))) by {
                    lemma_same_answers_to_children(value, a, b, i);
                }
                lemma_same_elements(items@, a, b);
            }
            assert(children_of(value, a) == children_of(value, b));
        }
    }
    if kind == "label"@ {
        assert(label_text(value, a) == label_text(value, b));
    }
    if kind == "button"@ && value.member_text("id"@) is Some {
        assert(click_handler(value, a) == click_handler(value, b));
    }
}

/// Two owners that give the same answers to every object of a list give
/// the same children.
pub proof fn lemma_same_elements(items: Seq<Json>, a: Owner, b: Owner)
    requires
        forall|i: int|
            0 <= i < items.len() && items[i] is Object ==> #[trigger] same_answers(
                a,
                b,
                items[i],
                node_type(items[i]),
            ),
    ensures
        elements_of(items, a) == elements_of(items, b),
    decreases items, 0nat,
{
    if items.len() > 0 {
        let shorter = items.drop_last();
        assert forall|i: int| 0 <= i < shorter.len() && shorter[i] is Object implies (
        #[trigger] same_answers(a, b, shorter[i], node_type(shorter[i]))) by {
            assert(shorter[i] == items[i]);
            assert(same_answers(a, b, items[i], node_type(items[i])));
        }
        assert(shorter == items.subrange(0, items.len() - 1));
        assert(decreases_to!(items => items.subrange(0, items.len() - 1)));
        lemma_same_elements(shorter, a, b);
        assert(items.last() == items[items.len() - 1]);
        assert(decreases_to!(items => items[items.len() - 1]));
        if items.last() is Object {
            assert(same_answers(a, b, items[items.len() - 1], node_type(items[items.len() - 1])));
            lemma_render_asks_for_named_only(items.last(), node_type(items.last()), a, b);
        }
    }
}

} // verus!
