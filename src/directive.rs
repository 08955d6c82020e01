//! Reading a completion as a directive: call a named tool, or respond.
use vstd::prelude::*;

use crate::json::{decode_object, entries_outline, json_object_entries, JsonField};

verus! {

/// What a completion asks the agent to do.
#[derive(Debug, PartialEq)]
pub enum Directive {
    /// Call the tool `name` with `arguments`.
    CallTool { name: String, arguments: serde_json::Value },
    /// End the loop with `content` as the final answer.
    Respond { content: String },
}

/// Why a completion is not a directive.
#[derive(Debug, PartialEq)]
pub enum DirectiveParseError {
    /// The text is not a JSON object; the raw text is kept.
    NotAnObject { raw: String },
    /// A required field is absent, or is not a string where one is required.
    MissingField { field: String },
    /// The `action` field holds neither `call_tool` nor `respond`.
    UnknownAction { action: String },
}

/// The plain-value form of a parse failure.
pub enum ParseFailure {
    NotAnObject(Seq<char>),
    MissingField(Seq<char>),
    UnknownAction(Seq<char>),
}

impl View for DirectiveParseError {
    type V = ParseFailure;

    open spec fn view(&self) -> ParseFailure {
        match self {
            DirectiveParseError::NotAnObject { raw } => ParseFailure::NotAnObject(raw@),
            DirectiveParseError::MissingField { field } => ParseFailure::MissingField(field@),
            DirectiveParseError::UnknownAction { action } => ParseFailure::UnknownAction(action@),
        }
    }
}

/// What a completion decodes to, without the tool arguments.
pub enum Outline {
    CallTool(Seq<char>),
    Respond(Seq<char>),
    Invalid(ParseFailure),
}

/// The outline of a parse result.
pub open spec fn outline_of_result(r: Result<Directive, DirectiveParseError>) -> Outline {
    match r {
        Ok(Directive::CallTool { name, .. }) => Outline::CallTool(name@),
        Ok(Directive::Respond { content }) => Outline::Respond(content@),
        Err(e) => Outline::Invalid(e@),
    }
}

/// The index of the first entry whose key is `key`.
pub open spec fn position(entries: Seq<(Seq<char>, Option<Seq<char>>)>, key: Seq<char>) -> Option<int>
    decreases entries.len(),
{
    if entries.len() == 0 {
        None
    } else {
        match position(entries.drop_last(), key) {
            Some(i) => Some(i),
            None => if entries.last().0 == key {
                Some(entries.len() - 1)
            } else {
                None
            },
        }
    }
}

/// The text held under `key`, if the key is present with a string value.
pub open spec fn text_field(entries: Seq<(Seq<char>, Option<Seq<char>>)>, key: Seq<char>) -> Option<Seq<char>> {
    match position(entries, key) {
        Some(i) => entries[i].1,
        None => None,
    }
}

/// The directive that the entries of a decoded object describe.
pub open spec fn outline_of_entries(entries: Seq<(Seq<char>, Option<Seq<char>>)>) -> Outline {
    match text_field(entries, "action"@) {
        None => Outline::Invalid(ParseFailure::MissingField("action"@)),
        Some(a) => if a == "call_tool"@ {
            match text_field(entries, "name"@) {
                None => Outline::Invalid(ParseFailure::MissingField("name"@)),
                Some(n) => if position(entries, "arguments"@) is None {
                    Outline::Invalid(ParseFailure::MissingField("arguments"@))
                } else {
                    Outline::CallTool(n)
                },
            }
        } else if a == "respond"@ {
            match text_field(entries, "content"@) {
                None => Outline::Invalid(ParseFailure::MissingField("content"@)),
                Some(c) => Outline::Respond(c),
            }
        } else {
            Outline::Invalid(ParseFailure::UnknownAction(a))
        },
    }
}

/// The directive that a completion text describes.
pub open spec fn outline_of_text(text: Seq<char>) -> Outline {
    match json_object_entries(text) {
        None => Outline::Invalid(ParseFailure::NotAnObject(text)),
        Some(entries) => outline_of_entries(entries),
    }
}

/// Finds the first field named `key`.
fn find_field(fields: &Vec<(String, JsonField)>, key: &str) -> (r: Option<usize>)
    ensures
        match r {
            Some(i) => i < fields.len() && position(entries_outline(fields@), key@) == Some(i as int),
            None => position(entries_outline(fields@), key@) is None,
        },
{
    let wanted = key.to_owned();
    let ghost all = entries_outline(fields@);
    let mut i: usize = 0;
    while i < fields.len()
        invariant
            0 <= i <= fields.len(),
            all == entries_outline(fields@),
            wanted@ == key@,
            position(all.take(i as int), key@) is None,
        decreases fields.len() - i,
    {
        assert(all.take(i as int + 1).drop_last() =~= all.take(i as int));
        if fields[i].0 == wanted {
            assert(all.take(i as int + 1).last() == all[i as int]);
            assert(all[i as int].0 == key@);
            assert(position(all.take(i as int + 1), key@) == Some(i as int));
            proof { lemma_position_prefix(all, key@, i as int + 1); }
            return Some(i);
        }
        i = i + 1;
    }
    assert(all.take(i as int) =~= all);
    None
}

/// A first match in a prefix is the first match in the whole.
proof fn lemma_position_prefix(entries: Seq<(Seq<char>, Option<Seq<char>>)>, key: Seq<char>, n: int)
    requires
        0 <= n <= entries.len(),
        position(entries.take(n), key) is Some,
    ensures
        position(entries, key) == position(entries.take(n), key),
    decreases entries.len() - n,
{
    if n < entries.len() {
        assert(entries.take(n + 1).drop_last() =~= entries.take(n));
        lemma_position_prefix(entries, key, n + 1);
    } else {
        assert(entries.take(n) =~= entries);
    }
}

/// The text of the first field named `key`, if it is a string.
fn text_of(fields: &Vec<(String, JsonField)>, key: &str) -> (r: Option<String>)
    ensures
        match r {
            Some(s) => text_field(entries_outline(fields@), key@) == Some(s@),
            None => text_field(entries_outline(fields@), key@) is None,
        },
{
    match find_field(fields, key) {
        Some(i) => match &fields[i].1.text {
            Some(s) => Some(s.clone()),
            None => None,
        },
        None => None,
    }
}

/// Builds the directive from the fields of a decoded object.
pub fn directive_from_fields(fields: Vec<(String, JsonField)>) -> (r: Result<Directive, DirectiveParseError>)
    ensures
        outline_of_result(r) == outline_of_entries(entries_outline(fields@)),
        r matches Ok(Directive::CallTool { arguments, .. }) ==> ({
            let i = position(entries_outline(fields@), "arguments"@)->0;
            arguments == fields@[i].1.value
        }),
{
    let ghost entries = entries_outline(fields@);
    let action = match text_of(&fields, "action") {
        Some(a) => a,
        None => {
            return Err(DirectiveParseError::MissingField { field: "action".to_owned() });
        },
    };
    if action == "call_tool".to_owned() {
        let name = match text_of(&fields, "name") {
            Some(n) => n,
            None => {
                return Err(DirectiveParseError::MissingField { field: "name".to_owned() });
            },
        };
        match find_field(&fields, "arguments") {
            Some(i) => {
                let mut fields = fields;
                let (_, field) = fields.remove(i);
                Ok(Directive::CallTool { name, arguments: field.value })
            },
            None => Err(DirectiveParseError::MissingField { field: "arguments".to_owned() }),
        }
    } else if action == "respond".to_owned() {
        match text_of(&fields, "content") {
            Some(content) => Ok(Directive::Respond { content }),
            None => Err(DirectiveParseError::MissingField { field: "content".to_owned() }),
        }
    } else {
        Err(DirectiveParseError::UnknownAction { action })
    }
}

/// Reads a completion text as a directive.
pub fn parse_directive(text: &str) -> (r: Result<Directive, DirectiveParseError>)
    ensures
        outline_of_result(r) == outline_of_text(text@),
{
    match decode_object(text) {
        Some(fields) => directive_from_fields(fields),
        None => Err(DirectiveParseError::NotAnObject { raw: text.to_owned() }),
    }
}

} // verus!
