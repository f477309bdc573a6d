use vstd::prelude::*;
use crate::name_map::NameMap;
use crate::programs::config::ProgramConfig;
use crate::programs::uniforms::UniformKind;

verus! {

/// The messages of a failed compilation, each under the name of the shader
/// stage that it concerns.
pub type ProgramErrors = NameMap<String>;

/// The name of the vertex stage in the errors of a program.
pub open spec fn vertex_stage() -> Seq<char> {
    "vertex"@
}

/// The name of the fragment stage in the errors of a program.
pub open spec fn fragment_stage() -> Seq<char> {
    "fragment"@
}

/// The errors of a compilation in which each stage either was translated or
/// failed with a message.
pub open spec fn stage_errors_of(vertex: Option<String>, fragment: Option<String>) -> Map<
    Seq<char>,
    String,
> {
    let none = Map::<Seq<char>, String>::empty();
    let first = match vertex {
        Some(message) => none.insert(vertex_stage(), message),
        None => none,
    };
    match fragment {
        Some(message) => first.insert(fragment_stage(), message),
        None => first,
    }
}

/// Collects the messages of the stages that failed.
pub fn stage_errors(vertex: Option<String>, fragment: Option<String>) -> (errors: ProgramErrors)
    ensures
        errors.wf(),
        errors.to_map() == stage_errors_of(vertex, fragment),
{
    let mut errors: ProgramErrors = NameMap::new();
    if let Some(message) = vertex {
        errors.insert(String::from_str("vertex"), message);
    }
    if let Some(message) = fragment {
        errors.insert(String::from_str("fragment"), message);
    }
    errors
}

/// The message with which a stage failed, if it did.
pub open spec fn failure_of(stage: Result<Vec<u8>, String>) -> Option<String> {
    match stage {
        Ok(_) => None,
        Err(message) => Some(message),
    }
}

fn failure(stage: Result<Vec<u8>, String>) -> (r: Option<String>)
    ensures
        r == failure_of(stage),
{
    match stage {
        Ok(_) => None,
        Err(message) => Some(message),
    }
}

/// Decides what the translation of the two stages comes to. Where both were
/// translated, their code is handed on for the pipeline to be built from.
/// Where one failed, no pipeline is built, and the errors hold the message of
/// each stage that failed.
pub fn compile_outcome(vertex: Result<Vec<u8>, String>, fragment: Result<Vec<u8>, String>) -> (r:
    Result<(Vec<u8>, Vec<u8>), ProgramErrors>)
    ensures
        match (vertex, fragment) {
            (Ok(v), Ok(f)) => r == Ok::<(Vec<u8>, Vec<u8>), ProgramErrors>((v, f)),
            (v, f) => r matches Err(errors) && errors.wf() && errors.to_map() == stage_errors_of(
                failure_of(v),
                failure_of(f),
            ),
        },
{
    match (vertex, fragment) {
        (Ok(v), Ok(f)) => Ok((v, f)),
        (v, f) => Err(stage_errors(failure(v), failure(f))),
    }
}

/// What is to be compiled: the sources of the two stages, and the layouts of
/// the bind groups in the order of the program's uniforms.
#[derive(Debug)]
pub struct CompileRequest {
    pub folder_name: String,
    pub vert: String,
    pub frag: String,
    pub layouts: Vec<UniformKind>,
    pub num_samples: u32,
}

/// The selected program: its configuration, the pipeline of its last
/// successful compilation, and the errors of its last failed one.
#[derive(Debug)]
pub struct Program<P> {
    pub config: ProgramConfig,
    pub folder_name: String,
    pub pipeline: Option<P>,
    pub errors: ProgramErrors,
    pub dirty: bool,
}

impl<P> Program<P> {
    /// A program that is yet to be compiled.
    pub fn new(config: ProgramConfig, folder_name: String) -> (r: Self)
        ensures
            r.config == config,
            r.folder_name == folder_name,
            r.pipeline.is_none(),
            r.errors.names() == Seq::<Seq<char>>::empty(),
            r.dirty,
    {
        Program { config, folder_name, pipeline: None, errors: NameMap::new(), dirty: true }
    }

    /// Releases the pipeline.
    pub fn clear(&mut self)
        ensures
            final(self).pipeline.is_none(),
            final(self).config == old(self).config,
            final(self).folder_name == old(self).folder_name,
            final(self).errors == old(self).errors,
            final(self).dirty == old(self).dirty,
    {
        self.pipeline = None;
    }

    /// Whether the program still waits for its first compilation.
    pub fn is_new(&self) -> (r: bool)
        ensures
            r == self.dirty,
    {
        self.dirty
    }

    /// The program is what `before` becomes when a compilation ends with
    /// `outcome`: a pipeline replaces the one before it and clears the
    /// errors; errors are recorded, and the pipeline of the last successful
    /// compilation stays.
    pub open spec fn compiled_from(&self, before: Self, outcome: Result<P, ProgramErrors>) -> bool {
        &&& self.config == before.config
        &&& self.folder_name == before.folder_name
        &&& !self.dirty
        &&& match outcome {
            Ok(pipeline) => {
                &&& self.pipeline == Some(pipeline)
                &&& self.errors.names() == Seq::<Seq<char>>::empty()
            },
            Err(errors) => {
                &&& self.pipeline == before.pipeline
                &&& self.errors == errors
            },
        }
    }

    /// Takes in how a compilation ended.
    pub fn finish_compile(&mut self, outcome: Result<P, ProgramErrors>)
        ensures
            final(self).compiled_from(*old(self), outcome),
    {
        self.dirty = false;
        match outcome {
            Ok(pipeline) => {
                self.pipeline = Some(pipeline);
                self.errors = NameMap::new();
            },
            Err(errors) => {
                self.errors = errors;
            },
        }
    }
}

} // verus!
