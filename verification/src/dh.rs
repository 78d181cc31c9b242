use vstd::prelude::*;

use crate::pipeline::{into_next, next_chain, ActionV, Pipeline, Stage, StageAction};

verus! {

/// The context of the single-file variant of the pipeline: it knows the file
/// only by name.
pub struct PipelineContext {
    pub pipeline_name: String,
    pub file_name: String,
    /// Whether the file is open for reading.
    pub buffer_open: bool,
}

impl PipelineContext {
    /// Reports whether opening the named file succeeded: a successful open
    /// leaves the file open; a failed one changes nothing.
    pub fn record_open(&mut self, opened: bool)
        ensures
            final(self).buffer_open == (old(self).buffer_open || opened),
            final(self).pipeline_name == old(self).pipeline_name,
            final(self).file_name == old(self).file_name,
    {
        if opened {
            self.buffer_open = true;
        }
    }
}

impl Default for PipelineContext {
    fn default() -> (c: Self)
        ensures
            c.pipeline_name@ == Seq::<char>::empty(),
            c.file_name@ == Seq::<char>::empty(),
            !c.buffer_open,
    {
        PipelineContext { pipeline_name: String::new(), file_name: String::new(), buffer_open: false }
    }
}

/// The opening stage of the single-file variant: it opens the context's file
/// name.
pub struct OpenFile {
    pub next: Option<Box<Pipeline>>,
}

impl Default for OpenFile {
    fn default() -> (s: Self)
        ensures
            s.next is None,
    {
        OpenFile { next: None }
    }
}

impl OpenFile {
    /// An opening stage followed by `next`.
    pub fn new(next: Pipeline) -> (s: Self)
        ensures
            s.next == Some(Box::new(next)),
    {
        OpenFile { next: into_next(next) }
    }

    /// Asks to open the file that the context names.
    pub fn handle(&self, context: &PipelineContext) -> (action: StageAction)
        ensures
            action@ == ActionV::Open(context.file_name@),
    {
        StageAction::Open { path: context.file_name.clone() }
    }

    /// The order in which executing this chain handles its stages: the
    /// opening stage, then the rest of the chain.
    pub fn execute(&self) -> (stages: Vec<Stage>)
        ensures
            stages@ == seq![Stage::OpenFile] + next_chain(self.next),
    {
        let mut stages: Vec<Stage> = Vec::new();
        stages.push(Stage::OpenFile);
        match &self.next {
            Some(rest) => {
                let mut tail = (**rest).execute();
                stages.append(&mut tail);
            },
            None => {},
        }
        assert(stages@ =~= seq![Stage::OpenFile] + next_chain(self.next));
        stages
    }

    /// The rest of the chain.
    pub fn next(&self) -> (next: &Option<Box<Pipeline>>)
        ensures
            *next == self.next,
    {
        &self.next
    }
}

} // verus!
