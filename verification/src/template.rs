//! Contexts and parsed templates, held by the crate `tera`.
//!
//! Nothing in this file is proved: each item states what the library takes on
//! trust about `tera`. The library fills contexts and parses templates; it
//! never renders. A rendering context is held as `tera::Context`; what it
//! binds is named by [`context_entries`], and the functions that fill a
//! context say how they change these entries. The templates are held in a
//! `tera::Tera`; the names under which it keeps them are named by
//! [`template_names`], that none of them refers to a missing one by
//! [`references_resolved`], and the answer of the parser by
//! [`template_refusal`].

use vstd::prelude::*;

verus! {

/// The type `tera::Context`: the names bound for a rendering.
#[verifier::external_type_specification]
#[verifier::external_body]
pub struct ExContext(tera::Context);

/// The type `tera::Tera`: a set of parsed templates.
#[verifier::external_type_specification]
#[verifier::external_body]
pub struct ExTera(tera::Tera);

/// A value that a rendering context binds to a name.
pub enum ContextValue {
    /// A text.
    Text(Seq<char>),
    /// An ordered list of texts.
    List(Seq<Seq<char>>),
    /// Values by name.
    Table(Map<Seq<char>, ContextValue>),
}

/// The values that `context` binds, by name.
pub uninterp spec fn context_entries(context: tera::Context) -> Map<Seq<char>, ContextValue>;

/// No value bound to any name.
pub open spec fn no_entries() -> Map<Seq<char>, ContextValue> {
    Map::empty()
}

/// An empty context, made by `tera::Context::new`.
///
/// Trusted: the new context binds nothing.
#[verifier::external_body]
pub(crate) fn new_context() -> (context: tera::Context)
    ensures
        context_entries(context) == no_entries(),
{
    tera::Context::new()
}

/// Binds `key` to the text `value`, by `tera::Context::insert`.
///
/// Trusted: the entry of `key` is set, replacing an earlier one, and no other
/// entry changes.
#[verifier::external_body]
pub(crate) fn insert_text(context: &mut tera::Context, key: &str, value: &str)
    ensures
        context_entries(*final(context)) == context_entries(*old(context)).insert(
            key@,
            ContextValue::Text(value@),
        ),
{
    context.insert(key, value);
}

/// Binds `key` to the list `values`, by `tera::Context::insert`.
///
/// Trusted: the entry of `key` is set, replacing an earlier one, and no other
/// entry changes.
#[verifier::external_body]
pub(crate) fn insert_list(context: &mut tera::Context, key: &str, values: &Vec<String>)
    ensures
        context_entries(*final(context)) == context_entries(*old(context)).insert(
            key@,
            ContextValue::List(values.deep_view()),
        ),
{
    context.insert(key, values);
}

/// Binds `key` to everything that `table` binds, by `tera::Context::into_json`
/// and `tera::Context::insert`.
///
/// Trusted: the entry of `key` is set to the entries of `table`, replacing an
/// earlier one, and no other entry changes.
#[verifier::external_body]
pub(crate) fn insert_table(context: &mut tera::Context, key: &str, table: tera::Context)
    ensures
        context_entries(*final(context)) == context_entries(*old(context)).insert(
            key@,
            ContextValue::Table(context_entries(table)),
        ),
{
    context.insert(key, &table.into_json());
}

/// The names under which `engine` keeps a template.
pub uninterp spec fn template_names(engine: tera::Tera) -> Set<Seq<char>>;

/// Nothing that a template of `engine` refers to is missing: the template it
/// extends is kept, so is the one that this one extends, and so on up to a
/// template that extends nothing, without coming by a template twice; and
/// every template that it imports macros from is kept.
pub uninterp spec fn references_resolved(engine: tera::Tera) -> bool;

/// What `tera` says against keeping the text `content` under the new name
/// `name`, beside templates kept under the names `kept` whose references
/// are resolved: nothing if it accepts the text, else its message and the
/// messages of what caused it, outermost first.
pub uninterp spec fn template_refusal(
    kept: Set<Seq<char>>,
    name: Seq<char>,
    content: Seq<char>,
) -> Option<Seq<Seq<char>>>;

/// No name at all.
pub open spec fn no_names() -> Set<Seq<char>> {
    Set::empty()
}

/// A set of templates that holds no template yet, made by `tera::Tera::default`.
///
/// Trusted: it keeps no template, so no reference is left open.
#[verifier::external_body]
pub(crate) fn new_engine() -> (engine: tera::Tera)
    ensures
        template_names(engine) == no_names(),
        references_resolved(engine),
{
    tera::Tera::default()
}

/// Parses `content` and keeps it under `name`, by `tera::Tera::add_raw_template`.
/// A failure comes back as the messages of the error of `tera` and of the
/// errors that caused it, outermost first.
///
/// The call is made only for a name that is not kept yet, on an engine whose
/// references are resolved: `tera` goes through the references of all its
/// templates anew on every call, and a cycle among templates that are kept
/// already would keep it from returning. With that, whether the call
/// succeeds, and what it says if not, is up to the new text, its name and
/// the names kept, and to nothing else.
///
/// Trusted: the outcome is the one named by [`template_refusal`]. After a
/// success a template is kept under `name`, and under the names that were
/// there before, and all references are resolved. After a failure the names
/// are as after a success, or as they were: text that does not parse is not
/// kept, but text that parses stays even when it refers to a template that
/// is not there.
#[verifier::external_body]
pub(crate) fn add_raw_template(engine: &mut tera::Tera, name: &str, content: &str) -> (outcome:
    Result<(), Vec<String>>)
    requires
        !template_names(*old(engine)).contains(name@),
        references_resolved(*old(engine)),
    ensures
        outcome.is_ok() == template_refusal(
            template_names(*old(engine)),
            name@,
            content@,
        ).is_none(),
        outcome matches Err(messages) ==> template_refusal(
            template_names(*old(engine)),
            name@,
            content@,
        ) == Some(messages.deep_view()),
        outcome.is_ok() ==> template_names(*final(engine)) == template_names(*old(engine)).insert(
            name@,
        ),
        outcome.is_ok() ==> references_resolved(*final(engine)),
        outcome.is_err() ==> template_names(*final(engine)) == template_names(*old(engine))
            || template_names(*final(engine)) == template_names(*old(engine)).insert(name@),
{
    engine.add_raw_template(name, content).map_err(
        |error|
            std::iter::successors(Some(&error as &dyn std::error::Error), |cause| cause.source())
                .map(|cause| cause.to_string())
                .collect(),
    )
}

} // verus!
