use vstd::prelude::*;

use crate::anonymize::{lines_parsed, read_spec, Anonymize, AnonymizedEvent};
use crate::json::json_wf;
use crate::json_text::json_line;
use crate::naming::{file_name_for, is_plain_file_name, last_part, path_with_file_name};
use crate::pipeline::{
    chain, handle_spec, ContextV, OpenFile, Pipeline, PipelineContext, Publisher, Stage,
    StageAction,
};
use crate::text::{lemma_split_nonempty, split_on, strings_view};

verus! {

/// The name that a run of the default pipeline carries.
pub open spec fn default_pipeline_name() -> Seq<char> {
    seq!['D', 'e', 'f', 'a', 'u', 'l', 't']
}

/// The folder into which anonymized files are published.
pub open spec fn default_publish_folder() -> Seq<char> {
    seq!['.', '/', 'p', 'u', 'b', 'l', 'i', 's', 'h', '/']
}

/// The file name of a path: what follows its last `/`.
pub open spec fn file_name_of(path: Seq<char>) -> Seq<char> {
    last_part(path)
}

/// The context with which processing of the file at `path` starts.
pub open spec fn initial_context(path: Seq<char>) -> ContextV {
    ContextV {
        pipeline_name: default_pipeline_name(),
        file_path: path,
        file_name: file_name_of(path),
        uuid: 0,
        publish_folder: default_publish_folder(),
        buffer_open: false,
    }
}

/// The stages of the default pipeline, in order.
pub open spec fn default_stages() -> Seq<Stage> {
    seq![Stage::OpenFile, Stage::Anonymize, Stage::Publisher]
}

/// The last `/`-separated piece of `path`.
pub fn file_name_from_path(path: &str) -> (name: String)
    ensures
        name@ == file_name_of(path@),
{
    let mut parts = split_on(path, '/');
    proof {
        lemma_split_nonempty(path@, '/');
        assert(strings_view(parts@).len() == parts@.len());
    }
    let ghost all = parts@;
    let last = parts.pop();
    match last {
        Some(name) => {
            assert(name@ == strings_view(all).last()) by {
                assert(strings_view(all)[all.len() - 1] == all.last()@);
            }
            name
        },
        None => String::new(),
    }
}

/// Builds the default pipeline, open, anonymize, publish, for one file.
pub struct ProcessorBuilder {
    pub pipeline: Pipeline,
    pub pipeline_context: PipelineContext,
}

impl ProcessorBuilder {
    /// The default pipeline and its starting context for the file at
    /// `file_path`.
    pub fn new(file_path: &str) -> (b: Self)
        ensures
            chain(b.pipeline) == default_stages(),
            b.pipeline_context@ == initial_context(file_path@),
    {
        let publisher_pipe = Publisher::default();
        let anonymize_pipe = Anonymize::new(Pipeline::Publisher(publisher_pipe));
        let open_file_pipe = OpenFile::new(Pipeline::Anonymize(anonymize_pipe));
        let pipeline = Pipeline::OpenFile(open_file_pipe);
        let file_name = file_name_from_path(file_path);
        let pipeline_name = String::from_str("Default");
        let publish_folder = String::from_str("./publish/");
        proof {
            reveal_strlit("Default");
            reveal_strlit("./publish/");
            assert(pipeline_name@ =~= default_pipeline_name());
            assert(publish_folder@ =~= default_publish_folder());
            assert(chain(pipeline) =~= default_stages());
        }
        let pipeline_context = PipelineContext {
            pipeline_name,
            file_path: String::from_str(file_path),
            file_name,
            uuid: 0,
            publish_folder,
            buffer_open: false,
        };
        ProcessorBuilder { pipeline, pipeline_context }
    }

    /// Starts executing the pipeline with its context.
    pub fn execute_pipeline(self) -> (run: PipelineRun)
        ensures
            run@ == (RunV { stages: chain(self.pipeline), position: 0, context: self.pipeline_context@ }),
    {
        let stages = self.pipeline.execute();
        PipelineRun { stages, position: 0, context: self.pipeline_context }
    }
}

/// The model of a pipeline run.
pub struct RunV {
    pub stages: Seq<Stage>,
    pub position: nat,
    pub context: ContextV,
}

/// One execution of a pipeline: the stages in handling order, how many have
/// been handled, and the shared context.
pub struct PipelineRun {
    stages: Vec<Stage>,
    position: usize,
    context: PipelineContext,
}

impl View for PipelineRun {
    type V = RunV;

    closed spec fn view(&self) -> RunV {
        RunV { stages: self.stages@, position: self.position as nat, context: self.context@ }
    }
}

impl PipelineRun {
    /// Handles the next stage, if any is left, and returns what it asks of
    /// the outside.
    pub fn step(&mut self) -> (action: Option<StageAction>)
        ensures
            old(self)@.position < old(self)@.stages.len() ==> {
                &&& action is Some
                &&& final(self)@.stages == old(self)@.stages
                &&& final(self)@.position == old(self)@.position + 1
                &&& (final(self)@.context, action->0@) == handle_spec(
                    old(self)@.stages[old(self)@.position as int],
                    old(self)@.context,
                )
            },
            old(self)@.position >= old(self)@.stages.len() ==> {
                &&& action is None
                &&& final(self)@ == old(self)@
            },
    {
        if self.position < self.stages.len() {
            let stage = self.stages[self.position];
            self.position = self.position + 1;
            let action = stage.handle(&mut self.context);
            Some(action)
        } else {
            None
        }
    }

    /// Reports whether opening the file succeeded: a successful open leaves
    /// the file open; a failed one changes nothing.
    pub fn record_open(&mut self, opened: bool)
        ensures
            final(self)@ == (RunV {
                context: ContextV {
                    buffer_open: old(self)@.context.buffer_open || opened,
                    ..old(self)@.context
                },
                ..old(self)@
            }),
    {
        if opened {
            self.context.buffer_open = true;
        }
    }

    /// Names the file that receives the anonymized content: the context's
    /// path gets the file name `<uuid>.json`, in the same folder, as
    /// `Anonymize::read` does. Returns that path.
    pub fn name_output(&mut self) -> (out: String)
        ensures
            final(self)@ == (RunV {
                context: ContextV {
                    file_path: path_with_file_name(
                        old(self)@.context.file_path,
                        file_name_for(old(self)@.context.uuid),
                    ),
                    ..old(self)@.context
                },
                ..old(self)@
            }),
            out@ == final(self)@.context.file_path,
            is_plain_file_name(last_part(old(self)@.context.file_path)) ==> path_with_file_name(
                out@,
                file_name_for(old(self)@.context.uuid),
            ) == out@,
    {
        let stage = Anonymize::default();
        stage.name_output(&mut self.context.file_path, self.context.uuid);
        self.context.file_path.clone()
    }

    /// Anonymizes the opened file's lines, as `Anonymize::read` does.
    pub fn anonymize_lines(&self, lines: Vec<Option<String>>) -> (events: Vec<AnonymizedEvent>)
        ensures
            events@.len() == read_spec(lines_parsed(lines@)).len(),
            forall|i: int|
                0 <= i < events@.len() ==> {
                    &&& #[trigger] events@[i]@ == read_spec(lines_parsed(lines@))[i]
                    &&& events@[i].text@ == json_line(events@[i]@.0)
                    &&& json_wf(events@[i]@.0)
                },
    {
        let stage = Anonymize::default();
        stage.anonymize_lines(lines)
    }

    /// The shared context.
    pub fn context(&self) -> (c: &PipelineContext)
        ensures
            c@ == self@.context,
    {
        &self.context
    }

    /// Whether every stage has been handled.
    pub fn is_done(&self) -> (done: bool)
        ensures
            done == (self@.position >= self@.stages.len()),
    {
        self.position >= self.stages.len()
    }
}

/// Starts processing the file at `file_path` with the default pipeline.
pub fn start_pipeline(file_path: &str) -> (run: PipelineRun)
    ensures
        run@ == (RunV { stages: default_stages(), position: 0, context: initial_context(file_path@) }),
{
    let builder = ProcessorBuilder::new(file_path);
    builder.execute_pipeline()
}

} // verus!
