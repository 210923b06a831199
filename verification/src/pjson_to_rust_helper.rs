//! Writes out, as Rust source text, the builder calls that a layout
//! document stands for.
use crate::json::{compact, lemma_member_decreases, Json};
use crate::my_layout_data::node_type;
use crate::text::{split_on, split_on_char, str_eq};
use vstd::prelude::*;

verus! {

/// The upper-case form of a character, as `char::to_uppercase` gives it. It
/// may be more than one character long.
pub uninterp spec fn uppercase(c: char) -> Seq<char>;

/// `char::to_uppercase`, collected into a string.
#[verifier::external_body]
fn upper(c: char) -> (r: String)
    ensures
        r@ == uppercase(c),
{
    c.to_uppercase().collect()
}

/// A word with its first character in upper case; the empty word stays
/// empty.
pub open spec fn capitalised(word: Seq<char>) -> Seq<char> {
    if word.len() == 0 {
        word
    } else {
        uppercase(word[0]) + word.subrange(1, word.len() as int)
    }
}

/// The words, each capitalised, one after the other.
pub open spec fn capitalised_words(words: Seq<Seq<char>>) -> Seq<char>
    decreases words.len(),
{
    if words.len() == 0 {
        Seq::empty()
    } else {
        capitalised_words(words.drop_last()) + capitalised(words.last())
    }
}

/// The Pascal-case form of a snake-case name: the words between
/// underscores, each capitalised, with nothing between them.
pub open spec fn pascal_case(s: Seq<char>) -> Seq<char> {
    capitalised_words(split_on(s, '_'))
}

/// Turns a snake-case name into Pascal case: `my_text_input` becomes
/// `MyTextInput`. Underscores vanish, also where several stand together or
/// at either end.
pub fn to_pascal_case(s: &str) -> (r: String)
    ensures
        r@ == pascal_case(s@),
{
    let words = split_on_char(s, '_');
    let ghost wanted = split_on(s@, '_');
    let mut out = String::new();
    let mut i: usize = 0;
    while i < words.len()
        invariant
            0 <= i <= words.len(),
            words@.len() == wanted.len(),
            forall|k: int| 0 <= k < words@.len() ==> (#[trigger] words@[k])@ == wanted[k],
            out@ == capitalised_words(wanted.take(i as int)),
        decreases words.len() - i,
    {
        proof {
            assert(wanted.take(i + 1).drop_last() == wanted.take(i as int));
        }
        let word = words[i].as_str();
        let n = word.unicode_len();
        if n > 0 {
            let first = upper(word.get_char(0));
            out.append(first.as_str());
            out.append(word.substring_char(1, n));
        }
        i += 1;
    }
    proof {
        assert(wanted.take(i as int) == wanted);
    }
    out
}

/// A string with the escapes of a Rust string literal, as
/// `str::escape_default` gives them.
pub uninterp spec fn rust_escaped(s: Seq<char>) -> Seq<char>;

/// `str::escape_default`, collected into a string.
#[verifier::external_body]
fn escape(s: &str) -> (r: String)
    ensures
        r@ == rust_escaped(s@),
{
    s.escape_default().collect()
}

/// The calls that set a node's `class` and inline `style`.
pub open spec fn common_attrs_code(value: Json, indent: Seq<char>) -> Seq<char> {
    let class = match value.member_text("class"@) {
        Some(c) => ".class(\""@ + c + "\", ld)"@,
        None => Seq::empty(),
    };
    let style = match value.member("style"@) {
        Some(rule) => indent
            + "    .apply_style_rule(&/* style rule */ serde_json::from_value(json!("@
            + compact(rule) + ")).unwrap())\n"@,
        None => Seq::empty(),
    };
    class + style
}

/// The expression that makes a label: its bound field, else its text as a
/// literal, else the empty literal.
pub open spec fn label_code(value: Json, indent: Seq<char>) -> Seq<char> {
    let content = match value.member_text("bind"@) {
        Some(bind) => "&self."@ + bind,
        None => match value.member_text("label"@) {
            Some(text) => "\""@ + rust_escaped(text) + "\""@,
            None => "\"\""@,
        },
    };
    indent + "label::Label::new("@ + content + ")"@ + common_attrs_code(value, indent)
}

/// The expression that makes a text input.
pub open spec fn text_input_code(value: Json, indent: Seq<char>) -> Seq<char> {
    let made = match value.member_text("bind"@) {
        Some(bind) => "input::TextInput::new(&self."@ + bind + ")"@,
        None => "input::TextInput::new(/* missing bind */)"@,
    };
    indent + made + common_attrs_code(value, indent)
}

/// The expression that makes a button.
pub open spec fn button_code(value: Json, indent: Seq<char>) -> Seq<char> {
    let id = match value.member_text("id"@) {
        Some(id) => id,
        None => Seq::empty(),
    };
    let label = match value.member_text("label"@) {
        Some(text) => ".label(\""@ + rust_escaped(text) + "\")"@,
        None => Seq::empty(),
    };
    let on_click = match value.member_text("on_click"@) {
        Some(name) => ".on_click(self."@ + name + "())"@,
        None => Seq::empty(),
    };
    indent + "button::Button::new(\""@ + id + "\")"@ + label + common_attrs_code(value, indent)
        + on_click
}

/// The expression that calls an element builder. Its attributes are
/// indented one step further than the call.
pub open spec fn fn_call_code(value: Json, indent: Seq<char>) -> Seq<char> {
    let call = match value.member_text("name"@) {
        Some(name) => "(self."@ + name + "())(self, cx)"@,
        None => "// Missing 'name' for fn call"@,
    };
    indent + call + common_attrs_code(value, indent + "    "@)
}

/// The indentation of what follows a node's own expression.
pub open spec fn inner_indent(value: Json, indent: Seq<char>) -> Seq<char> {
    if node_type(value) == "fn"@ {
        indent + "    "@
    } else {
        indent
    }
}

/// The expression that makes a node itself, without its children.
pub open spec fn head_code(value: Json, indent: Seq<char>) -> Seq<char> {
    let kind = node_type(value);
    if kind == "div"@ {
        indent + "div()"@ + common_attrs_code(value, indent)
    } else if kind == "label"@ {
        label_code(value, indent)
    } else if kind == "text_input"@ {
        text_input_code(value, indent)
    } else if kind == "button"@ {
        button_code(value, indent)
    } else if kind == "fn"@ {
        fn_call_code(value, indent)
    } else {
        indent + "// Unsupported element type: "@ + kind + "\n"@ + indent + "div() // fallback\n"@
    }
}

/// The source text for a node: its expression, a `.child(..)` call for
/// each child, and a line break. Anything but an object gives a comment.
pub open spec fn element_code(value: Json, indent: Seq<char>) -> Seq<char>
    decreases value, 1nat,
{
    match value {
        Json::Object(_) => head_code(value, indent) + children_code(
            value,
            inner_indent(value, indent),
        ) + indent + "\n"@,
        _ => indent + "// Invalid element format: expected object\n"@,
    }
}

/// The `.child(..)` calls for the children of a node.
pub open spec fn children_code(value: Json, indent: Seq<char>) -> Seq<char>
    decreases value, 0nat,
{
    match value.member("children"@) {
        Some(Json::List(items)) => {
            proof {
                lemma_member_decreases(value, "children"@);
                assert(decreases_to!(value.member("children"@)->0 => value.member(
                    "children"@,
                )->0->List_0));
                assert(decreases_to!(items => items@));
            }
            child_calls_code(items@, indent)
        },
        _ => Seq::empty(),
    }
}

/// The `.child(..)` calls for a list of children: one for each object and
/// each string, none for any other item.
pub open spec fn child_calls_code(items: Seq<Json>, indent: Seq<char>) -> Seq<char>
    decreases items, 0nat,
{
    if items.len() == 0 {
        Seq::empty()
    } else {
        let before = child_calls_code(items.drop_last(), indent);
        match items.last() {
            Json::Object(_) => before + "\n"@ + indent + "    .child("@ + element_code(
                items.last(),
                Seq::empty(),
            ) + ")"@,
            Json::Text(t) => before + "\n"@ + indent + "    .child(label::Label::new(\""@
                + rust_escaped(t@) + "\"))"@,
            _ => before,
        }
    }
}

/// The source text for a whole document, indented by four spaces.
pub open spec fn rust_code(value: Json) -> Seq<char> {
    element_code(value, "    "@)
}

/// Writes the calls that set a node's `class` and inline `style`.
fn write_common_attrs(obj: &Json, output: &mut String, indent: &str)
    ensures
        final(output)@ == old(output)@ + common_attrs_code(*obj, indent@),
{
    if let Some(class) = obj.get_str("class") {
        output.append(".class(\"");
        output.append(class);
        output.append("\", ld)");
    }
    if let Some(style) = obj.get("style") {
        output.append(indent);
        output.append("    .apply_style_rule(&/* style rule */ serde_json::from_value(json!(");
        style.write_compact(output);
        output.append(")).unwrap())\n");
    }
}

/// Writes the expression that makes a container.
fn write_div(obj: &Json, output: &mut String, indent: &str)
    ensures
        final(output)@ == old(output)@ + indent@ + "div()"@ + common_attrs_code(*obj, indent@),
{
    output.append(indent);
    output.append("div()");
    write_common_attrs(obj, output, indent);
}

/// Writes the expression that makes a label.
fn write_label(obj: &Json, output: &mut String, indent: &str)
    ensures
        final(output)@ == old(output)@ + label_code(*obj, indent@),
{
    output.append(indent);
    output.append("label::Label::new(");
    match obj.get_str("bind") {
        Some(bind) => {
            output.append("&self.");
            output.append(bind);
        },
        None => match obj.get_str("label") {
            Some(text) => {
                let escaped = escape(text);
                output.append("\"");
                output.append(escaped.as_str());
                output.append("\"");
            },
            None => {
                output.append("\"\"");
            },
        },
    }
    output.append(")");
    write_common_attrs(obj, output, indent);
}

/// Writes the expression that makes a text input.
fn write_text_input(obj: &Json, output: &mut String, indent: &str)
    ensures
        final(output)@ == old(output)@ + text_input_code(*obj, indent@),
{
    output.append(indent);
    match obj.get_str("bind") {
        Some(bind) => {
            output.append("input::TextInput::new(&self.");
            output.append(bind);
            output.append(")");
        },
        None => {
            output.append("input::TextInput::new(/* missing bind */)");
        },
    }
    write_common_attrs(obj, output, indent);
}

/// `before`, `middle` and `after` in a row.
fn wrap(before: &str, middle: &str, after: &str) -> (r: String)
    ensures
        r@ == before@ + middle@ + after@,
{
    let mut out = before.to_owned();
    out.append(middle);
    out.append(after);
    out
}

/// Writes the expression that makes a button.
fn write_button(obj: &Json, output: &mut String, indent: &str)
    ensures
        final(output)@ == old(output)@ + button_code(*obj, indent@),
{
    let id = match obj.get_str("id") {
        Some(id) => id,
        None => "",
    };
    proof {
        reveal_strlit("");
        assert(""@ == Seq::<char>::empty());
    }
    let made = wrap("button::Button::new(\"", id, "\")");
    let label = match obj.get_str("label") {
        Some(text) => {
            let escaped = escape(text);
            wrap(".label(\"", escaped.as_str(), "\")")
        },
        None => String::new(),
    };
    let on_click = match obj.get_str("on_click") {
        Some(name) => wrap(".on_click(self.", name, "())"),
        None => String::new(),
    };
    let mut code = indent.to_owned();
    code.append(made.as_str());
    code.append(label.as_str());
    write_common_attrs(obj, &mut code, indent);
    code.append(on_click.as_str());
    output.append(code.as_str());
}

/// Writes the expression that calls an element builder.
fn write_fn_call(obj: &Json, output: &mut String, indent: &str)
    ensures
        final(output)@ == old(output)@ + fn_call_code(*obj, indent@),
{
    output.append(indent);
    match obj.get_str("name") {
        Some(name) => {
            output.append("(self.");
            output.append(name);
            output.append("())(self, cx)");
        },
        None => {
            output.append("// Missing 'name' for fn call");
        },
    }
    let mut inner = indent.to_owned();
    inner.append("    ");
    write_common_attrs(obj, output, inner.as_str());
}

/// Writes the expression that makes a node itself.
fn write_head(obj: &Json, output: &mut String, indent: &str) -> (fn_call: bool)
    ensures
        final(output)@ == old(output)@ + head_code(*obj, indent@),
        fn_call == (node_type(*obj) == "fn"@),
{
    let kind = match obj.get_str("type") {
        Some(t) => t,
        None => "div",
    };
    proof {
        reveal_strlit("fn");
        reveal_strlit("div");
        reveal_strlit("label");
        reveal_strlit("text_input");
        reveal_strlit("button");
        assert("fn"@.len() == 2);
        assert("div"@.len() == 3);
        assert("label"@.len() == 5);
        assert("text_input"@.len() == 10);
        assert("button"@.len() == 6);
    }
    if str_eq(kind, "div") {
        write_div(obj, output, indent);
        false
    } else if str_eq(kind, "label") {
        write_label(obj, output, indent);
        false
    } else if str_eq(kind, "text_input") {
        write_text_input(obj, output, indent);
        false
    } else if str_eq(kind, "button") {
        write_button(obj, output, indent);
        false
    } else if str_eq(kind, "fn") {
        write_fn_call(obj, output, indent);
        true
    } else {
        let first = wrap("// Unsupported element type: ", kind, "\n");
        let ghost start = output@;
        output.append(indent);
        output.append(first.as_str());
        output.append(indent);
        output.append("div() // fallback\n");
        assert(output@ == start + (indent@ + "// Unsupported element type: "@ + kind@ + "\n"@
            + indent@ + "div() // fallback\n"@));
        false
    }
}

/// Writes the source text for a node; see [`element_code`].
fn write_element(value: &Json, output: &mut String, indent: &str)
    ensures
        final(output)@ == old(output)@ + element_code(*value, indent@),
    decreases *value, 1nat,
{
    match value {
        Json::Object(_) => {
            let ghost start = output@;
            let fn_call = write_head(value, output, indent);
            let mut inner = indent.to_owned();
            if fn_call {
                inner.append("    ");
            }
            write_children(value, output, inner.as_str());
            output.append(indent);
            output.append("\n");
            assert(output@ == start + (head_code(*value, indent@) + children_code(
                *value,
                inner_indent(*value, indent@),
            ) + indent@ + "\n"@));
        },
        _ => {
            let ghost start = output@;
            output.append(indent);
            output.append("// Invalid element format: expected object\n");
            assert(output@ == start + (indent@ + "// Invalid element format: expected object\n"@));
        },
    }
}

/// Writes a `.child(..)` call for each child of a node.
fn write_children(obj: &Json, output: &mut String, indent: &str)
    ensures
        final(output)@ == old(output)@ + children_code(*obj, indent@),
    decreases *obj, 0nat,
{
    let items = match obj.get("children") {
        Some(Json::List(items)) => items,
        _ => {
            assert(output@ + Seq::<char>::empty() == output@);
            return ;
        },
    };
    let ghost list = obj.member("children"@)->0;
    proof {
        lemma_member_decreases(*obj, "children"@);
        assert(decreases_to!(list => list->List_0));
        assert(items@.take(0) == Seq::<Json>::empty());
        assert(output@ + Seq::<char>::empty() == output@);
        reveal_strlit("");
        assert(""@ == Seq::<char>::empty());
    }
    let mut i: usize = 0;
    while i < items.len()
        invariant
            0 <= i <= items.len(),
            list == Json::List(*items),
            decreases_to!(*obj => list->List_0),
            ""@ == Seq::<char>::empty(),
            output@ == old(output)@ + child_calls_code(items@.take(i as int), indent@),
        decreases items.len() - i,
    {
        let ghost before = child_calls_code(items@.take(i as int), indent@);
        proof {
            assert(items@.take(i + 1).drop_last() == items@.take(i as int));
            assert(items@.take(i + 1).last() == items@[i as int]);
            assert(decreases_to!(list->List_0 => list->List_0[i as int]));
        }
        match &items[i] {
            Json::Object(_) => {
                output.append("\n");
                output.append(indent);
                output.append("    .child(");
                write_element(&items[i], output, "");
                output.append(")");
                assert(output@ == old(output)@ + (before + "\n"@ + indent@ + "    .child("@
                    + element_code(items@[i as int], Seq::empty()) + ")"@));
            },
            Json::Text(t) => {
                let escaped = escape(t.as_str());
                output.append("\n");
                output.append(indent);
                output.append("    .child(label::Label::new(\"");
                output.append(escaped.as_str());
                output.append("\"))");
                assert(output@ == old(output)@ + (before + "\n"@ + indent@
                    + "    .child(label::Label::new(\""@ + rust_escaped(t@) + "\"))"@));
            },
            _ => {},
        }
        i += 1;
    }
    proof {
        assert(items@.take(i as int) == items@);
    }
}

/// Writes out the Rust source text of the builder calls that a layout
/// document stands for; see [`rust_code`].
pub fn pjson_to_rust_code(value: &Json) -> (r: String)
    ensures
        r@ == rust_code(*value),
{
    let mut output = String::new();
    write_element(value, &mut output, "    ");
    output
}

} // verus!
