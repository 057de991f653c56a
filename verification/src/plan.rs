//! What a generation hands out: the steps to take, in order.
//!
//! A step is a file operation that is ready to be carried out, or the request
//! to render a template and to write the text. The templates of a plan are
//! parsed already and come with the plan.

use crate::error::GenerationError;
use crate::operation::{FileOperation, FileOperationView};
use crate::rendering::{rendering_result, written};
use crate::template::{context_entries, template_names, ContextValue};
use vstd::prelude::*;
use vstd::string::StringExecFns;

verus! {

/// The request to render one template with one context and to write the
/// text to one path.
#[derive(Debug, PartialEq)]
pub struct RenderRequest {
    template: String,
    scenario: Option<String>,
    path: String,
    context: tera::Context,
}

/// The mathematical content of a [`RenderRequest`].
pub struct RenderRequestView {
    /// The name under which the template is kept, which is where it was found.
    pub template: Seq<char>,
    /// The name of the scenario that the template is rendered for, if any.
    pub scenario: Option<Seq<char>>,
    /// Where the rendered text is to be written.
    pub path: Seq<char>,
    /// What the template can refer to, by name.
    pub context: Map<Seq<char>, ContextValue>,
}

impl View for RenderRequest {
    type V = RenderRequestView;

    closed spec fn view(&self) -> RenderRequestView {
        RenderRequestView {
            template: self.template@,
            scenario: match self.scenario {
                Some(name) => Some(name@),
                None => None,
            },
            path: self.path@,
            context: context_entries(self.context),
        }
    }
}

impl RenderRequest {
    /// The request to render `template` with `context` and to write the text
    /// to `path`, for `scenario` if there is one.
    pub fn new(
        template: &str,
        scenario: Option<&str>,
        path: String,
        context: tera::Context,
    ) -> (request: RenderRequest)
        ensures
            request@ == (RenderRequestView {
                template: template@,
                scenario: match scenario {
                    Some(name) => Some(name@),
                    None => None,
                },
                path: path@,
                context: context_entries(context),
            }),
    {
        RenderRequest {
            template: String::from_str(template),
            scenario: match scenario {
                Some(name) => Some(String::from_str(name)),
                None => None,
            },
            path,
            context,
        }
    }

    /// The name under which the template is kept.
    pub fn template(&self) -> (name: &str)
        ensures
            name@ == self@.template,
    {
        self.template.as_str()
    }

    /// What the template is to be rendered with.
    pub fn context(&self) -> (context: &tera::Context)
        ensures
            context_entries(*context) == self@.context,
    {
        &self.context
    }

    /// Where the rendered text is to be written.
    pub fn path(&self) -> (path: &str)
        ensures
            path@ == self@.path,
    {
        self.path.as_str()
    }

    /// The operation or the failure that the outcome of the rendering stands
    /// for: the text is written to the path of the request, or the failure
    /// names the template and the scenario of the request. `outcome` holds
    /// the rendered text, or what the renderer said against it.
    pub fn written(self, outcome: Result<String, String>) -> (result: Result<
        FileOperation,
        GenerationError,
    >)
        ensures
            match result {
                Ok(operation) => Ok(operation@),
                Err(error) => Err(error@),
            } == rendering_result(
                self@.template,
                self@.scenario,
                self@.path,
                match outcome {
                    Ok(content) => Ok(content@),
                    Err(cause) => Err(cause@),
                },
            ),
    {
        let scenario = match &self.scenario {
            Some(name) => Some(name.as_str()),
            None => None,
        };
        written(self.template.as_str(), scenario, self.path.clone(), outcome)
    }
}

/// One step of a plan.
#[derive(Debug, PartialEq)]
pub enum PlanStep {
    /// Carry the operation out.
    Perform(FileOperation),
    /// Render as requested, and write the text.
    Render(RenderRequest),
}

/// The mathematical content of a [`PlanStep`].
pub enum PlanStepView {
    Perform(FileOperationView),
    Render(RenderRequestView),
}

impl PlanStepView {
    /// The path that the step creates.
    pub open spec fn target(self) -> Seq<char> {
        match self {
            PlanStepView::Perform(operation) => operation.target(),
            PlanStepView::Render(request) => request.path,
        }
    }
}

impl View for PlanStep {
    type V = PlanStepView;

    open spec fn view(&self) -> PlanStepView {
        match self {
            PlanStep::Perform(operation) => PlanStepView::Perform(operation@),
            PlanStep::Render(request) => PlanStepView::Render(request@),
        }
    }
}

impl DeepView for PlanStep {
    type V = PlanStepView;

    open spec fn deep_view(&self) -> PlanStepView {
        self@
    }
}

/// Steps to take in order, with the parsed templates that the rendering
/// steps among them refer to.
#[derive(Debug)]
pub struct Plan {
    engine: tera::Tera,
    steps: Vec<PlanStep>,
}

/// The mathematical content of a [`Plan`].
pub struct PlanView {
    /// The names under which the plan keeps a parsed template.
    pub templates: Set<Seq<char>>,
    pub steps: Seq<PlanStepView>,
}

impl View for Plan {
    type V = PlanView;

    closed spec fn view(&self) -> PlanView {
        PlanView { templates: template_names(self.engine), steps: self.steps.deep_view() }
    }
}

impl DeepView for Plan {
    type V = PlanView;

    open spec fn deep_view(&self) -> PlanView {
        self@
    }
}

impl Plan {
    /// The plan of `steps` with the templates kept in `engine`.
    pub fn new(engine: tera::Tera, steps: Vec<PlanStep>) -> (plan: Plan)
        ensures
            plan@ == (PlanView { templates: template_names(engine), steps: steps.deep_view() }),
    {
        Plan { engine, steps }
    }

    /// The parsed templates.
    pub fn engine(&self) -> (engine: &tera::Tera)
        ensures
            template_names(*engine) == self@.templates,
    {
        &self.engine
    }

    /// The steps, in the order in which they are to be taken.
    pub fn steps(&self) -> (steps: &Vec<PlanStep>)
        ensures
            steps.deep_view() == self@.steps,
    {
        &self.steps
    }

    /// The parsed templates and the steps, to be worked off.
    pub fn into_parts(self) -> (parts: (tera::Tera, Vec<PlanStep>))
        ensures
            template_names(parts.0) == self@.templates,
            parts.1.deep_view() == self@.steps,
    {
        (self.engine, self.steps)
    }
}

} // verus!
