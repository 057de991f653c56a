//! Parsing of templates, and what becomes of the outcome of a parsing or of a
//! rendering.
//!
//! Rendering itself is left to the caller: the library says what to render
//! with what, takes the outcome back as plain values, and turns it into the
//! file to write or into the failure.

use crate::error::{GenerationError, GenerationErrorView};
use crate::operation::{FileOperation, FileOperationView};
use crate::template::{
    add_raw_template, references_resolved, template_names, template_refusal,
};
use vstd::prelude::*;
use vstd::string::StringExecFns;

verus! {

/// What stands between a message and the message of its cause.
pub open spec fn message_separator() -> Seq<char> {
    seq![':', ' ']
}

/// The messages in one line, each followed by the message of its cause.
pub open spec fn joined_messages(messages: Seq<Seq<char>>) -> Seq<char>
    decreases messages.len(),
{
    if messages.len() == 0 {
        Seq::empty()
    } else if messages.len() == 1 {
        messages[0]
    } else {
        joined_messages(messages.drop_last()) + message_separator() + messages.last()
    }
}

/// What becomes of a rendering: the text is written to `path`, or the
/// failure names the template and, where there is one, the scenario.
pub open spec fn rendering_result(
    template: Seq<char>,
    scenario: Option<Seq<char>>,
    path: Seq<char>,
    outcome: Result<Seq<char>, Seq<char>>,
) -> Result<FileOperationView, GenerationErrorView> {
    match outcome {
        Ok(content) => Ok(FileOperationView::WriteFile { path, content }),
        Err(cause) => Err(GenerationErrorView::TemplateRender { template, scenario, cause }),
    }
}

/// The messages in one line, each followed by the message of its cause.
pub fn join_messages(messages: &Vec<String>) -> (text: String)
    ensures
        text@ == joined_messages(messages.deep_view()),
{
    let ghost all = messages.deep_view();
    let mut text = String::new();
    let mut i: usize = 0;
    assert(all.take(0) =~= Seq::empty());
    while i < messages.len()
        invariant
            i <= messages.len(),
            all == messages.deep_view(),
            text@ == joined_messages(all.take(i as int)),
        decreases messages.len() - i,
    {
        proof {
            reveal_strlit(": ");
            assert(": "@ =~= message_separator());
            assert(all.take(i as int + 1).drop_last() =~= all.take(i as int));
            assert(all.take(i as int + 1).last() == messages[i as int]@);
        }
        if i > 0 {
            text.append(": ");
        }
        text.append(messages[i].as_str());
        proof {
            if i == 0 {
                assert(text@ =~= messages[0]@);
            }
        }
        i = i + 1;
    }
    assert(all.take(messages.len() as int) =~= all);
    text
}

/// The operation or the failure that the outcome of a rendering stands for.
/// `outcome` holds the rendered text, or what the renderer said against it.
pub fn written(
    template: &str,
    scenario: Option<&str>,
    path: String,
    outcome: Result<String, String>,
) -> (result: Result<FileOperation, GenerationError>)
    ensures
        result.is_ok() == outcome.is_ok(),
        match result {
            Ok(operation) => Ok(operation@),
            Err(error) => Err(error@),
        } == rendering_result(
            template@,
            match scenario {
                Some(name) => Some(name@),
                None => None,
            },
            path@,
            match outcome {
                Ok(content) => Ok(content@),
                Err(cause) => Err(cause@),
            },
        ),
{
    match outcome {
        Ok(content) => Ok(FileOperation::WriteFile { path, content }),
        Err(cause) => Err(
            GenerationError::TemplateRender {
                template: String::from_str(template),
                scenario: match scenario {
                    Some(name) => Some(String::from_str(name)),
                    None => None,
                },
                cause,
            },
        ),
    }
}

/// What becomes of a parsing: nothing if the text is accepted, or the failure
/// that names the template, with no scenario, and that tells the messages of
/// the refusal in one line.
pub open spec fn parsing_result(template: Seq<char>, refusal: Option<Seq<Seq<char>>>) -> Result<
    (),
    GenerationErrorView,
> {
    match refusal {
        None => Ok(()),
        Some(messages) => Err(
            GenerationErrorView::TemplateRender {
                template,
                scenario: None,
                cause: joined_messages(messages),
            },
        ),
    }
}

/// `result` is the outcome `expected`.
pub open spec fn is_outcome(
    result: Result<(), GenerationError>,
    expected: Result<(), GenerationErrorView>,
) -> bool {
    match result {
        Ok(()) => expected == Ok::<(), GenerationErrorView>(()),
        Err(error) => expected == Err::<(), GenerationErrorView>(error@),
    }
}

/// The failure, if any, that the outcome of a parsing stands for. `outcome`
/// holds the messages of what the parser said against the text of
/// `template`, outermost first.
pub fn parsed(template: &str, outcome: Result<(), Vec<String>>) -> (result: Result<
    (),
    GenerationError,
>)
    ensures
        is_outcome(
            result,
            parsing_result(
                template@,
                match outcome {
                    Ok(()) => None,
                    Err(messages) => Some(messages.deep_view()),
                },
            ),
        ),
{
    match outcome {
        Ok(()) => Ok(()),
        Err(messages) => Err(
            GenerationError::TemplateRender {
                template: String::from_str(template),
                scenario: None,
                cause: join_messages(&messages),
            },
        ),
    }
}

/// Parses `source` and keeps it in `engine` under `name`. A failure names
/// `template`.
pub(crate) fn parse_template(
    engine: &mut tera::Tera,
    name: &str,
    template: &str,
    source: &str,
) -> (result: Result<(), GenerationError>)
    requires
        !template_names(*old(engine)).contains(name@),
        references_resolved(*old(engine)),
    ensures
        is_outcome(
            result,
            parsing_result(
                template@,
                template_refusal(template_names(*old(engine)), name@, source@),
            ),
        ),
        match result {
            Ok(()) => {
                &&& template_names(*final(engine)) == template_names(*old(engine)).insert(name@)
                &&& references_resolved(*final(engine))
            },
            Err(error) => {
                ||| template_names(*final(engine)) == template_names(*old(engine))
                ||| template_names(*final(engine)) == template_names(*old(engine)).insert(name@)
            },
        },
{
    let outcome = add_raw_template(engine, name, source);
    parsed(template, outcome)
}

} // verus!
