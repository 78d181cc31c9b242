use vstd::prelude::*;

use crate::anonymize::Anonymize;
use crate::naming::{file_name_for, output_file_name, path_joined, path_with_file_name, push_path, set_file_name};

verus! {

/// The kind of a pipeline stage.
#[derive(Clone, Copy, Debug, PartialEq, Eq, Structural)]
pub enum Stage {
    /// Opens the file to process.
    OpenFile,
    /// Anonymizes the opened file into `<uuid>.json` beside it.
    Anonymize,
    /// Moves the anonymized file into the publish folder.
    Publisher,
}

/// A chain of stages: each stage is handled, then the rest of the chain.
pub enum Pipeline {
    OpenFile(OpenFile),
    Anonymize(Anonymize),
    Publisher(Publisher),
}

/// The stage that opens the file to process.
pub struct OpenFile {
    pub next: Option<Box<Pipeline>>,
}

/// The stage that publishes the anonymized file.
pub struct Publisher {
    pub next: Option<Box<Pipeline>>,
}

/// The stages of a chain, in the order in which they are handled.
pub open spec fn chain(p: Pipeline) -> Seq<Stage>
    decreases p,
{
    match p {
        Pipeline::OpenFile(s) => seq![Stage::OpenFile] + next_chain(s.next),
        Pipeline::Anonymize(s) => seq![Stage::Anonymize] + next_chain(s.next),
        Pipeline::Publisher(s) => seq![Stage::Publisher] + next_chain(s.next),
    }
}

/// The stages that follow a stage.
pub open spec fn next_chain(next: Option<Box<Pipeline>>) -> Seq<Stage>
    decreases next,
{
    match next {
        Some(b) => chain(*b),
        None => Seq::empty(),
    }
}

/// Wraps a stage as the successor of another.
pub fn into_next(pipeline: Pipeline) -> (next: Option<Box<Pipeline>>)
    ensures
        next == Some(Box::new(pipeline)),
        next_chain(next) == chain(pipeline),
{
    Some(Box::new(pipeline))
}

impl OpenFile {
    /// An `OpenFile` stage followed by `next`.
    pub fn new(next: Pipeline) -> (s: Self)
        ensures
            s.next == Some(Box::new(next)),
            next_chain(s.next) == chain(next),
    {
        OpenFile { next: into_next(next) }
    }
}

impl Default for OpenFile {
    fn default() -> (s: Self)
        ensures
            s.next is None,
    {
        OpenFile { next: None }
    }
}

impl Anonymize {
    /// An `Anonymize` stage followed by `next`.
    pub fn new(next: Pipeline) -> (s: Self)
        ensures
            s.next == Some(Box::new(next)),
            next_chain(s.next) == chain(next),
    {
        Anonymize { next: into_next(next) }
    }
}

impl Default for Anonymize {
    fn default() -> (s: Self)
        ensures
            s.next is None,
    {
        Anonymize { next: None }
    }
}

impl Publisher {
    /// A `Publisher` stage followed by `next`.
    pub fn new(next: Pipeline) -> (s: Self)
        ensures
            s.next == Some(Box::new(next)),
            next_chain(s.next) == chain(next),
    {
        Publisher { next: into_next(next) }
    }
}

impl Default for Publisher {
    fn default() -> (s: Self)
        ensures
            s.next is None,
    {
        Publisher { next: None }
    }
}

impl Pipeline {
    /// The kind of this chain's first stage.
    pub fn stage(&self) -> (s: Stage)
        ensures
            s == chain(*self)[0],
    {
        match self {
            Pipeline::OpenFile(_) => Stage::OpenFile,
            Pipeline::Anonymize(_) => Stage::Anonymize,
            Pipeline::Publisher(_) => Stage::Publisher,
        }
    }

    /// The rest of the chain after the first stage.
    pub fn next(&self) -> (next: &Option<Box<Pipeline>>)
        ensures
            *next == match *self {
                Pipeline::OpenFile(s) => s.next,
                Pipeline::Anonymize(s) => s.next,
                Pipeline::Publisher(s) => s.next,
            },
            chain(*self) == seq![chain(*self)[0]] + next_chain(*next),
    {
        match self {
            Pipeline::OpenFile(s) => &s.next,
            Pipeline::Anonymize(s) => &s.next,
            Pipeline::Publisher(s) => &s.next,
        }
    }

    /// The order in which executing the chain handles its stages: this stage
    /// first, then the rest of the chain.
    pub fn execute(&self) -> (stages: Vec<Stage>)
        ensures
            stages@ == chain(*self),
        decreases *self,
    {
        let mut stages: Vec<Stage> = Vec::new();
        stages.push(self.stage());
        let next = match self {
            Pipeline::OpenFile(s) => &s.next,
            Pipeline::Anonymize(s) => &s.next,
            Pipeline::Publisher(s) => &s.next,
        };
        match next {
            Some(rest) => {
                let mut tail = (**rest).execute();
                stages.append(&mut tail);
            },
            None => {},
        }
        assert(stages@ =~= chain(*self));
        stages
    }
}

/// The state that the stages of one run share.
pub struct PipelineContext {
    pub pipeline_name: String,
    pub file_path: String,
    pub file_name: String,
    pub uuid: u128,
    pub publish_folder: String,
    /// Whether the file to process is open for reading.
    pub buffer_open: bool,
}

/// The model of a pipeline context.
pub struct ContextV {
    pub pipeline_name: Seq<char>,
    pub file_path: Seq<char>,
    pub file_name: Seq<char>,
    pub uuid: u128,
    pub publish_folder: Seq<char>,
    pub buffer_open: bool,
}

impl View for PipelineContext {
    type V = ContextV;

    open spec fn view(&self) -> ContextV {
        ContextV {
            pipeline_name: self.pipeline_name@,
            file_path: self.file_path@,
            file_name: self.file_name@,
            uuid: self.uuid,
            publish_folder: self.publish_folder@,
            buffer_open: self.buffer_open,
        }
    }
}

impl Default for PipelineContext {
    fn default() -> (c: Self)
        ensures
            c@ == (ContextV {
                pipeline_name: Seq::empty(),
                file_path: Seq::empty(),
                file_name: Seq::empty(),
                uuid: 0,
                publish_folder: Seq::empty(),
                buffer_open: false,
            }),
    {
        PipelineContext {
            pipeline_name: String::new(),
            file_path: String::new(),
            file_name: String::new(),
            uuid: 0,
            publish_folder: String::new(),
            buffer_open: false,
        }
    }
}

/// The outside work that handling a stage asks for.
pub enum StageAction {
    /// Open the file at `path` for reading, then report with `record_open`.
    Open { path: String },
    /// Read the opened file line by line and hand the lines to
    /// `PipelineRun::anonymize`, which names the output file; write each event
    /// it returns, one per line, to that file.
    Anonymize,
    /// Move the file at `from` to `to`.
    Publish { from: String, to: String },
    /// Nothing to do.
    Skip,
}

/// The model of a stage action.
pub enum ActionV {
    Open(Seq<char>),
    Anonymize,
    Publish(Seq<char>, Seq<char>),
    Skip,
}

impl View for StageAction {
    type V = ActionV;

    open spec fn view(&self) -> ActionV {
        match self {
            StageAction::Open { path } => ActionV::Open(path@),
            StageAction::Anonymize => ActionV::Anonymize,
            StageAction::Publish { from, to } => ActionV::Publish(from@, to@),
            StageAction::Skip => ActionV::Skip,
        }
    }
}

/// What handling `stage` does to the context and asks of the outside:
/// opening reads the file at the context's path; anonymizing needs the file
/// open (`Anonymize::read` then writes `<uuid>.json` beside it); publishing
/// moves `<uuid>.json` into the publish folder and records both paths in the
/// context.
pub open spec fn handle_spec(stage: Stage, c: ContextV) -> (ContextV, ActionV) {
    match stage {
        Stage::OpenFile => (c, ActionV::Open(c.file_path)),
        Stage::Anonymize => if c.buffer_open {
            (c, ActionV::Anonymize)
        } else {
            (c, ActionV::Skip)
        },
        Stage::Publisher => {
            let name = file_name_for(c.uuid);
            let to = path_joined(c.publish_folder, name);
            let from = path_with_file_name(c.file_path, name);
            (ContextV { file_path: from, publish_folder: to, ..c }, ActionV::Publish(from, to))
        },
    }
}

impl Stage {
    /// Handles this stage on the shared context.
    pub fn handle(self, context: &mut PipelineContext) -> (action: StageAction)
        ensures
            (final(context)@, action@) == handle_spec(self, old(context)@),
    {
        match self {
            Stage::OpenFile => StageAction::Open { path: context.file_path.clone() },
            Stage::Anonymize => {
                if context.buffer_open {
                    StageAction::Anonymize
                } else {
                    StageAction::Skip
                }
            },
            Stage::Publisher => {
                let name = output_file_name(context.uuid);
                let to = push_path(context.publish_folder.as_str(), name.as_str());
                let from = set_file_name(context.file_path.as_str(), name.as_str());
                context.publish_folder = to.clone();
                context.file_path = from.clone();
                StageAction::Publish { from, to }
            },
        }
    }
}

impl OpenFile {
    /// Handles the opening stage: asks to open the context's file.
    pub fn handle(&self, context: &mut PipelineContext) -> (action: StageAction)
        ensures
            (final(context)@, action@) == handle_spec(Stage::OpenFile, old(context)@),
    {
        Stage::OpenFile.handle(context)
    }

    /// The rest of the chain.
    pub fn next(&self) -> (next: &Option<Box<Pipeline>>)
        ensures
            *next == self.next,
    {
        &self.next
    }
}

impl Anonymize {
    /// Handles the anonymizing stage.
    pub fn handle(&self, context: &mut PipelineContext) -> (action: StageAction)
        ensures
            (final(context)@, action@) == handle_spec(Stage::Anonymize, old(context)@),
    {
        Stage::Anonymize.handle(context)
    }

    /// The rest of the chain.
    pub fn next(&self) -> (next: &Option<Box<Pipeline>>)
        ensures
            *next == self.next,
    {
        &self.next
    }
}

impl Publisher {
    /// Handles the publishing stage.
    pub fn handle(&self, context: &mut PipelineContext) -> (action: StageAction)
        ensures
            (final(context)@, action@) == handle_spec(Stage::Publisher, old(context)@),
    {
        Stage::Publisher.handle(context)
    }

    /// The rest of the chain.
    pub fn next(&self) -> (next: &Option<Box<Pipeline>>)
        ensures
            *next == self.next,
    {
        &self.next
    }
}

} // verus!
