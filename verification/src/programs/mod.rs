use vstd::prelude::*;
use crate::name_map::{lemma_ascending_position, lemma_lookup_at, name_view, names_of};
use crate::programs::config::{Config, ConfigError, ProgramConfig, SelectionError, StoreError};
use crate::programs::program::{CompileRequest, Program, ProgramErrors};
use crate::programs::resolve::{lemma_reload_keeps_places, resolve, resolve_selection};
use crate::programs::uniforms::base::Vec2;
use crate::programs::uniforms::{
    camera, general, geometry, get_subscriptions, initial_buffers, subscriptions_of, BufferStore,
    CommandEncoder, UniformKind, UniformSubscriptions,
};
use crate::programs::watcher::{ticked, ShaderWatcher, DEBOUNCE_MILLIS};
use crate::text::{ends_with, has_suffix};

pub mod config;
pub mod program;
pub mod resolve;
pub mod uniforms;
pub mod watcher;

verus! {

/// What the frame loop is to do after a tick.
#[derive(Clone, Copy, Debug, PartialEq, Eq, Structural)]
pub enum ShaderAction {
    /// Nothing.
    Idle,
    /// Load the configuration and hand it to `configure`, then compile.
    Reconfigure,
    /// Compile the current program, and hand the outcome to
    /// `finish_compile`.
    Recompile,
}

/// What a selection by the user comes to.
pub enum Selection {
    /// There is nothing to do, or nothing to select from: all stays as it
    /// is.
    Untouched,
    /// The selection is refused with this error, and all else stays as it
    /// is.
    Refused(StoreError),
    /// The program at place `program` of the folder at place `folder` of the
    /// configuration becomes the current one.
    Chosen { folder: int, program: int },
}

/// The name at place `index` of a list of names that may not be there.
pub open spec fn name_at(names: Option<Vec<String>>, index: usize) -> Option<String> {
    match names {
        Some(list) => if index < list@.len() {
            Some(list@[index as int])
        } else {
            None
        },
        None => None,
    }
}

fn get_name(names: &Option<Vec<String>>, index: usize) -> (r: Option<String>)
    ensures
        r == name_at(*names, index),
{
    match names {
        Some(list) => if index < list.len() {
            Some(list[index].clone())
        } else {
            None
        },
        None => None,
    }
}

/// The path is that of a configuration file.
pub open spec fn is_config_path(path: Seq<char>) -> bool {
    has_suffix(path, ".json"@)
}

/// What is to be done at a tick at which the watcher reported `changed`: a
/// changed configuration file asks for a new configuration, a changed shader
/// for a compilation of the current program, and so does a program that was
/// never compiled.
pub open spec fn action_for(changed: Option<Seq<char>>, has_program: bool, is_new: bool) -> ShaderAction {
    if changed.is_some() && is_config_path(changed.unwrap()) {
        ShaderAction::Reconfigure
    } else if has_program && (changed.is_some() || is_new) {
        ShaderAction::Recompile
    } else {
        ShaderAction::Idle
    }
}

/// Holds the configuration, the selection, the current program and the
/// uniform data, and keeps them in step with each other: whatever is asked
/// of it either succeeds as a whole or changes nothing but the error shown.
#[derive(Debug)]
pub struct ProgramStore<P> {
    pub buffer_store: BufferStore,
    pub current_subscriptions: Option<UniformSubscriptions>,
    pub error: Option<StoreError>,
    pub folder_index: usize,
    pub folder_names: Option<Vec<String>>,
    pub program_names: Option<Vec<String>>,
    pub program_index: usize,
    pub config: Option<Config>,
    pub current_program: Option<Program<P>>,
    pub shader_watcher: ShaderWatcher,
}

impl<P> ProgramStore<P> {
    /// The name of the selected folder.
    pub open spec fn folder_name(&self) -> Option<String> {
        name_at(self.folder_names, self.folder_index)
    }

    /// The name of the selected program.
    pub open spec fn program_name(&self) -> Option<String> {
        name_at(self.program_names, self.program_index)
    }

    /// The subscriptions are those that the uniforms of the current program
    /// give, and there are none without a program.
    pub open spec fn subscriptions_derived(&self) -> bool {
        self.current_subscriptions == match self.current_program {
            Some(program) => Some(subscriptions_of(program.config@.uniforms)),
            None => None,
        }
    }

    /// The lists are those of the configuration, the selected places lie
    /// within them, and the current program is the one that stands at the
    /// selected place. Without a configuration there are no lists and no
    /// program.
    pub open spec fn selection_valid(&self) -> bool {
        match self.config {
            None => {
                &&& self.folder_names.is_none()
                &&& self.program_names.is_none()
                &&& self.current_program.is_none()
            },
            Some(config) => {
                let folders = config.folders;
                let programs = folders.entries()[self.folder_index as int].value.programs;
                &&& self.folder_names.is_some()
                &&& names_of(self.folder_names.unwrap()@) == folders.names()
                &&& self.folder_index < folders.names().len()
                &&& self.program_names.is_some()
                &&& names_of(self.program_names.unwrap()@) == programs.names()
                &&& self.program_index < programs.names().len()
                &&& self.current_program.is_some()
                &&& self.current_program.unwrap().config@
                    == programs.entries()[self.program_index as int].value@
                &&& self.current_program.unwrap().folder_name@
                    == folders.names()[self.folder_index as int]
            },
        }
    }

    /// Nothing but the error differs from `before`.
    pub open spec fn same_but_error(&self, before: Self) -> bool {
        &&& self.buffer_store == before.buffer_store
        &&& self.current_subscriptions == before.current_subscriptions
        &&& self.folder_index == before.folder_index
        &&& self.folder_names == before.folder_names
        &&& self.program_names == before.program_names
        &&& self.program_index == before.program_index
        &&& self.config == before.config
        &&& self.current_program == before.current_program
        &&& self.shader_watcher == before.shader_watcher
    }

    /// `program` of the folder `folder_name` is the current program, new and
    /// without a pipeline; the subscriptions are its own; its defaults were
    /// applied to the uniform data of `before`; no error is shown.
    pub open spec fn installed(&self, before: Self, program: ProgramConfig, folder_name: Seq<char>) -> bool {
        let subscriptions = subscriptions_of(program@.uniforms);
        &&& self.error.is_none()
        &&& self.current_program matches Some(current) && {
            &&& current.config@ == program@
            &&& current.folder_name@ == folder_name
            &&& current.pipeline.is_none()
            &&& current.errors.names() == Seq::<Seq<char>>::empty()
            &&& current.dirty
        }
        &&& self.current_subscriptions == Some(subscriptions)
        &&& self.buffer_store == before.buffer_store.with_defaults(subscriptions, program@.defaults)
        &&& self.shader_watcher == before.shader_watcher
    }

    /// A store without a configuration: nothing is selected, the uniform
    /// data of each kind is as it is before any program has set it, with a
    /// buffer for each kind, and the watcher waits for the first write.
    pub fn new(size: Vec2) -> (r: Self)
        ensures
            r.buffer_store.wf(),
            r.buffer_store.buffers.to_map() == initial_buffers(),
            r.buffer_store.camera_uniforms.data == camera::initial_data(),
            r.buffer_store.general_uniforms.data == general::initial_data(size),
            !r.buffer_store.general_uniforms.paused,
            r.buffer_store.geometry_uniforms.data == geometry::initial_data(),
            r.current_subscriptions.is_none(),
            r.error.is_none(),
            r.folder_index == 0,
            r.folder_names.is_none(),
            r.program_index == 0,
            r.program_names.is_none(),
            r.config.is_none(),
            r.current_program.is_none(),
            r.shader_watcher.window == DEBOUNCE_MILLIS,
            r.shader_watcher.pending_view().len() == 0,
            r.subscriptions_derived(),
            r.selection_valid(),
    {
        ProgramStore {
            buffer_store: BufferStore::new(size),
            current_subscriptions: None,
            error: None,
            folder_index: 0,
            folder_names: None,
            program_names: None,
            program_index: 0,
            config: None,
            current_program: None,
            shader_watcher: ShaderWatcher::new(DEBOUNCE_MILLIS),
        }
    }

    fn get_folder_name(&self) -> (r: Option<String>)
        ensures
            r == self.folder_name(),
    {
        get_name(&self.folder_names, self.folder_index)
    }

    fn get_program_name(&self) -> (r: Option<String>)
        ensures
            r == self.program_name(),
    {
        get_name(&self.program_names, self.program_index)
    }

    /// Makes `program` the current program: releases the one before it,
    /// derives the subscriptions, applies the defaults, clears the error.
    fn install(&mut self, program: ProgramConfig, folder_name: String)
        ensures
            final(self).installed(*old(self), program, folder_name@),
            final(self).subscriptions_derived(),
            final(self).folder_index == old(self).folder_index,
            final(self).folder_names == old(self).folder_names,
            final(self).program_names == old(self).program_names,
            final(self).program_index == old(self).program_index,
            final(self).config == old(self).config,
    {
        self.current_program = None;
        let subscriptions = get_subscriptions(&program.uniforms);
        self.buffer_store.set_program_defaults(&subscriptions, &program.defaults);
        self.current_program = Some(Program::new(program, folder_name));
        self.current_subscriptions = Some(subscriptions);
        self.error = None;
    }

    /// Puts a configuration that was just loaded to use, or shows why not.
    ///
    /// The folder that was selected stays selected if the configuration
    /// still holds it, and so does the program within it; else the defaults
    /// are selected. If the load failed, or a default is not there, the
    /// error is shown and all else stays as it was: the program, its
    /// pipeline, the uniform data, the lists and the selection.
    pub fn configure(&mut self, loaded: Result<Config, ConfigError>)
        ensures
            final(self).shader_watcher == old(self).shader_watcher,
            old(self).subscriptions_derived() ==> final(self).subscriptions_derived(),
            old(self).selection_valid() ==> final(self).selection_valid(),
            final(self).error.is_none() ==> final(self).selection_valid(),
            match loaded {
                Err(e) => {
                    &&& final(self).error == Some(StoreError::Config(e))
                    &&& final(self).same_but_error(*old(self))
                },
                Ok(config) => match resolve(
                    config,
                    name_view(old(self).folder_name()),
                    name_view(old(self).program_name()),
                ) {
                    Err(e) => {
                        &&& final(self).error == Some(StoreError::Config(e))
                        &&& final(self).same_but_error(*old(self))
                    },
                    Ok((folder, program)) => {
                        let chosen = config.folders.entries()[folder].value;
                        &&& final(self).config == Some(config)
                        &&& final(self).folder_names.is_some()
                        &&& names_of(final(self).folder_names.unwrap()@) == config.folders.names()
                        &&& final(self).folder_index == folder
                        &&& final(self).program_names.is_some()
                        &&& names_of(final(self).program_names.unwrap()@) == chosen.programs.names()
                        &&& final(self).program_index == program
                        &&& final(self).installed(
                            *old(self),
                            chosen.programs.entries()[program].value,
                            config.folders.names()[folder],
                        )
                    },
                },
            },
    {
        let config = match loaded {
            Ok(config) => config,
            Err(e) => {
                self.error = Some(StoreError::Config(e));
                return ;
            },
        };
        let previous_folder = self.get_folder_name();
        let previous_program = self.get_program_name();
        let found = match resolve_selection(&config, &previous_folder, &previous_program) {
            Ok(found) => found,
            Err(e) => {
                self.error = Some(StoreError::Config(e));
                return ;
            },
        };
        let folder_names = config.get_folder_names();
        let folder = config.folders.value_at(found.folder_index);
        let program_names = folder.get_program_names();
        let program = folder.programs.value_at(found.program_index).clone();
        let folder_name = config.folders.name_at(found.folder_index).clone();
        self.install(program, folder_name);
        self.folder_names = Some(folder_names);
        self.folder_index = found.folder_index;
        self.program_names = Some(program_names);
        self.program_index = found.program_index;
        self.config = Some(config);
    }

    /// What the selection of the program at place `selected` of the list of
    /// programs comes to.
    ///
    /// Nothing is done where the program is selected already, unless an
    /// error is shown or `force` is set, nor where there is no list, no
    /// selected folder or no configuration. A place beyond the list is
    /// refused, and so is a name that the configuration does not hold.
    pub open spec fn program_selection(&self, selected: usize, force: bool) -> Selection {
        if self.error.is_none() && !force && selected == self.program_index {
            Selection::Untouched
        } else if self.program_names.is_none() {
            Selection::Untouched
        } else if selected >= self.program_names.unwrap()@.len() {
            Selection::Refused(StoreError::Selection(SelectionError::IndexOutOfRange(selected)))
        } else if self.folder_name().is_none() || self.config.is_none() {
            Selection::Untouched
        } else {
            let folder_name = self.folder_name().unwrap();
            let name = self.program_names.unwrap()@[selected as int];
            let folders = self.config.unwrap().folders;
            match folders.lookup(folder_name@) {
                None => Selection::Refused(
                    StoreError::Selection(SelectionError::FolderMissing(folder_name)),
                ),
                Some(folder) => match folder.programs.lookup(name@) {
                    None => Selection::Refused(
                        StoreError::Selection(SelectionError::ProgramMissing(name)),
                    ),
                    Some(_) => Selection::Chosen {
                        folder: folders.position(folder_name@).unwrap(),
                        program: folder.programs.position(name@).unwrap(),
                    },
                },
            }
        }
    }

    /// Selects the program at place `selected` of the list of programs. It
    /// is compiled at the next tick. A selection that is refused shows its
    /// error and leaves the current program in place.
    pub fn select_program(&mut self, selected: usize, force: bool) -> (r: Option<bool>)
        ensures
            final(self).shader_watcher == old(self).shader_watcher,
            old(self).subscriptions_derived() ==> final(self).subscriptions_derived(),
            old(self).selection_valid() ==> final(self).selection_valid(),
            match old(self).program_selection(selected, force) {
                Selection::Untouched => r.is_none() && *final(self) == *old(self),
                Selection::Refused(e) => {
                    &&& r.is_none()
                    &&& final(self).error == Some(e)
                    &&& final(self).same_but_error(*old(self))
                },
                Selection::Chosen { folder, program } => {
                    let config = old(self).config.unwrap();
                    &&& r == Some(true)
                    &&& final(self).config == old(self).config
                    &&& final(self).folder_names == old(self).folder_names
                    &&& final(self).folder_index == old(self).folder_index
                    &&& final(self).program_names == old(self).program_names
                    &&& final(self).program_index == selected
                    &&& final(self).installed(
                        *old(self),
                        config.folders.entries()[folder].value.programs.entries()[program].value,
                        config.folders.names()[folder],
                    )
                },
            },
    {
        if self.error.is_none() && !force && selected == self.program_index {
            return None;
        }
        let listed = match &self.program_names {
            Some(names) => names.len(),
            None => {
                return None;
            },
        };
        if selected >= listed {
            self.error = Some(StoreError::Selection(SelectionError::IndexOutOfRange(selected)));
            return None;
        }
        let name = match get_name(&self.program_names, selected) {
            Some(name) => name,
            None => {
                return None;
            },
        };
        let folder_name = match self.get_folder_name() {
            Some(folder_name) => folder_name,
            None => {
                return None;
            },
        };
        let found: Result<ProgramConfig, SelectionError> = match &self.config {
            None => {
                return None;
            },
            Some(config) => {
                proof {
                    config.folders.names().index_of_first_ensures(folder_name@);
                }
                match config.folders.get(&folder_name) {
                    None => Err(SelectionError::FolderMissing(folder_name.clone())),
                    Some(folder) => {
                        proof {
                            folder.programs.names().index_of_first_ensures(name@);
                        }
                        match folder.programs.get(&name) {
                            None => Err(SelectionError::ProgramMissing(name.clone())),
                            Some(program) => {
                                proof {
                                    if self.selection_valid() {
                                        lemma_ascending_position(
                                            config.folders.names(),
                                            self.folder_index as int,
                                        );
                                        lemma_ascending_position(
                                            folder.programs.names(),
                                            selected as int,
                                        );
                                    }
                                }
                                Ok(program.clone())
                            },
                        }
                    },
                }
            },
        };
        match found {
            Err(e) => {
                self.error = Some(StoreError::Selection(e));
                None
            },
            Ok(program) => {
                self.install(program, folder_name);
                self.program_index = selected;
                Some(true)
            },
        }
    }

    /// What the selection of the folder at place `selected` of the list of
    /// folders comes to.
    ///
    /// Nothing is done where the folder is selected already, unless an error
    /// is shown, nor where there is no list or no configuration. A place
    /// beyond the list is refused, and so are a name that the configuration
    /// does not hold and a folder without its default program.
    pub open spec fn folder_selection(&self, selected: usize) -> Selection {
        if self.error.is_none() && selected == self.folder_index {
            Selection::Untouched
        } else if self.folder_names.is_none() {
            Selection::Untouched
        } else if selected >= self.folder_names.unwrap()@.len() {
            Selection::Refused(StoreError::Selection(SelectionError::IndexOutOfRange(selected)))
        } else if self.config.is_none() {
            Selection::Untouched
        } else {
            let name = self.folder_names.unwrap()@[selected as int];
            let folders = self.config.unwrap().folders;
            match folders.lookup(name@) {
                None => Selection::Refused(
                    StoreError::Selection(SelectionError::FolderMissing(name)),
                ),
                Some(folder) => match folder.programs.position(folder.default@) {
                    None => Selection::Refused(
                        StoreError::Config(ConfigError::InvalidDefaultProgram(folder.default)),
                    ),
                    Some(program) => Selection::Chosen {
                        folder: folders.position(name@).unwrap(),
                        program,
                    },
                },
            }
        }
    }

    /// Selects the folder at place `selected` of the list of folders, and
    /// in it the folder's default program. A selection that is refused shows
    /// its error and leaves the current folder and program in place.
    pub fn select_folder(&mut self, selected: usize) -> (r: Option<bool>)
        ensures
            final(self).shader_watcher == old(self).shader_watcher,
            old(self).subscriptions_derived() ==> final(self).subscriptions_derived(),
            old(self).selection_valid() ==> final(self).selection_valid(),
            match old(self).folder_selection(selected) {
                Selection::Untouched => r.is_none() && *final(self) == *old(self),
                Selection::Refused(e) => {
                    &&& r.is_none()
                    &&& final(self).error == Some(e)
                    &&& final(self).same_but_error(*old(self))
                },
                Selection::Chosen { folder, program } => {
                    let config = old(self).config.unwrap();
                    let chosen = config.folders.entries()[folder].value;
                    &&& r == Some(true)
                    &&& final(self).config == old(self).config
                    &&& final(self).folder_names == old(self).folder_names
                    &&& final(self).folder_index == selected
                    &&& final(self).program_names.is_some()
                    &&& names_of(final(self).program_names.unwrap()@) == chosen.programs.names()
                    &&& final(self).program_index == program
                    &&& final(self).installed(
                        *old(self),
                        chosen.programs.entries()[program].value,
                        config.folders.names()[folder],
                    )
                },
            },
    {
        if self.error.is_none() && selected == self.folder_index {
            return None;
        }
        let listed = match &self.folder_names {
            Some(names) => names.len(),
            None => {
                return None;
            },
        };
        if selected >= listed {
            self.error = Some(StoreError::Selection(SelectionError::IndexOutOfRange(selected)));
            return None;
        }
        let name = match get_name(&self.folder_names, selected) {
            Some(name) => name,
            None => {
                return None;
            },
        };
        let found: Result<(Vec<String>, usize, ProgramConfig), StoreError> = match &self.config {
            None => {
                return None;
            },
            Some(config) => {
                proof {
                    config.folders.names().index_of_first_ensures(name@);
                }
                match config.folders.get(&name) {
                    None => Err(StoreError::Selection(SelectionError::FolderMissing(name.clone()))),
                    Some(folder) => match folder.programs.index_of(&folder.default) {
                        None => Err(
                            StoreError::Config(
                                ConfigError::InvalidDefaultProgram(folder.default.clone()),
                            ),
                        ),
                        Some(program_index) => {
                            proof {
                                if self.selection_valid() {
                                    lemma_ascending_position(
                                        config.folders.names(),
                                        selected as int,
                                    );
                                }
                            }
                            Ok(
                                (
                                    folder.get_program_names(),
                                    program_index,
                                    folder.programs.value_at(program_index).clone(),
                                ),
                            )
                        },
                    },
                }
            },
        };
        match found {
            Err(e) => {
                self.error = Some(e);
                None
            },
            Ok((program_names, program_index, program)) => {
                self.install(program, name);
                self.folder_index = selected;
                self.program_names = Some(program_names);
                self.program_index = program_index;
                Some(true)
            },
        }
    }

    /// Loading a configuration that says the same as the one in use selects
    /// what is selected already, at the same places.
    pub proof fn lemma_reload_keeps_selection(&self, reloaded: Config)
        requires
            self.selection_valid(),
            self.config.is_some(),
            self.config.unwrap().wf(),
            reloaded.wf(),
            reloaded@ == self.config.unwrap()@,
        ensures
            resolve(reloaded, name_view(self.folder_name()), name_view(self.program_name())) == Ok::<
                (int, int),
                ConfigError,
            >((self.folder_index as int, self.program_index as int)),
    {
        lemma_reload_keeps_places(
            self.config.unwrap(),
            reloaded,
            self.folder_index as int,
            self.program_index as int,
        );
    }

    /// While the lists are those of the configuration, a program within the
    /// list is always found: its selection is carried out, for the place
    /// that was asked for, and is never refused for want of a name.
    pub proof fn lemma_listed_program_is_selected(&self, selected: usize)
        requires
            self.selection_valid(),
            self.config.is_some(),
            self.config.unwrap().wf(),
            selected < self.program_names.unwrap()@.len(),
        ensures
            self.program_selection(selected, true) == (Selection::Chosen {
                folder: self.folder_index as int,
                program: selected as int,
            }),
    {
        let folders = self.config.unwrap().folders;
        lemma_ascending_position(folders.names(), self.folder_index as int);
        lemma_lookup_at(folders.entries(), self.folder_index as int);
        let programs = folders.entries()[self.folder_index as int].value.programs;
        lemma_ascending_position(programs.names(), selected as int);
        lemma_lookup_at(programs.entries(), selected as int);
    }

    /// While the lists are those of the configuration, a folder within the
    /// list is always found: its selection is carried out with the folder's
    /// default program, and is refused only where the folder is without its
    /// default program.
    pub proof fn lemma_listed_folder_is_selected(&self, selected: usize)
        requires
            self.selection_valid(),
            self.config.is_some(),
            self.config.unwrap().wf(),
            selected < self.folder_names.unwrap()@.len(),
            selected != self.folder_index || self.error.is_some(),
        ensures
            ({
                let folder = self.config.unwrap().folders.entries()[selected as int].value;
                self.folder_selection(selected) == match folder.programs.position(folder.default@) {
                    Some(program) => Selection::Chosen { folder: selected as int, program },
                    None => Selection::Refused(
                        StoreError::Config(ConfigError::InvalidDefaultProgram(folder.default)),
                    ),
                }
            }),
    {
        let folders = self.config.unwrap().folders;
        lemma_ascending_position(folders.names(), selected as int);
        lemma_lookup_at(folders.entries(), selected as int);
    }

    /// Nothing but the watcher and the error differs from `before`.
    pub open spec fn same_but_watcher(&self, before: Self) -> bool {
        &&& self.buffer_store == before.buffer_store
        &&& self.current_subscriptions == before.current_subscriptions
        &&& self.folder_index == before.folder_index
        &&& self.folder_names == before.folder_names
        &&& self.program_names == before.program_names
        &&& self.program_index == before.program_index
        &&& self.config == before.config
        &&& self.current_program == before.current_program
    }

    /// One tick of the frame loop at time `now`, in milliseconds, at which
    /// the files at `written` were seen to be written: asks the watcher
    /// whether the change of a file is due, hands it the writes, and says
    /// what the frame loop is to do. Never waits: call at every tick.
    pub fn update_shaders(&mut self, now: u64, written: &Vec<String>) -> (action: ShaderAction)
        ensures
            final(self).error == old(self).error,
            final(self).same_but_watcher(*old(self)),
            final(self).shader_watcher.window == old(self).shader_watcher.window,
            final(self).shader_watcher.pending_view() == ticked(
                old(self).shader_watcher.pending_view(),
                old(self).shader_watcher.window,
                now,
                names_of(written@),
            ).0,
            action == action_for(
                ticked(
                    old(self).shader_watcher.pending_view(),
                    old(self).shader_watcher.window,
                    now,
                    names_of(written@),
                ).1,
                old(self).current_program.is_some(),
                old(self).current_program.is_some() && old(self).current_program.unwrap().dirty,
            ),
    {
        let changed = self.shader_watcher.tick(now, written);
        let is_new = match &self.current_program {
            Some(program) => program.is_new(),
            None => false,
        };
        match changed {
            Some(path) => {
                if ends_with(path.as_str(), ".json") {
                    ShaderAction::Reconfigure
                } else if self.current_program.is_some() {
                    ShaderAction::Recompile
                } else {
                    ShaderAction::Idle
                }
            },
            None => {
                if is_new {
                    ShaderAction::Recompile
                } else {
                    ShaderAction::Idle
                }
            },
        }
    }

    /// What is to be compiled for the current program: its two sources, and
    /// the layouts of its bind groups in the order of its uniforms. There is
    /// nothing to compile without a program, nor if one of its uniforms has
    /// no buffer.
    pub fn compile_current(&self, num_samples: u32) -> (r: Option<CompileRequest>)
        ensures
            match r {
                Some(request) => {
                    &&& self.current_program matches Some(program)
                    &&& self.buffer_store.bind_groups_of(program.config@.uniforms) == Some(
                        request.layouts@,
                    )
                    &&& request.folder_name@ == program.folder_name@
                    &&& request.vert@ == program.config@.vert
                    &&& request.frag@ == program.config@.frag
                    &&& request.num_samples == num_samples
                },
                None => self.current_program matches Some(program)
                    ==> self.buffer_store.bind_groups_of(program.config@.uniforms).is_none(),
            },
    {
        match &self.current_program {
            None => None,
            Some(program) => match self.buffer_store.get_bind_groups(&program.config.uniforms) {
                None => None,
                Some(layouts) => Some(
                    CompileRequest {
                        folder_name: program.folder_name.clone(),
                        vert: program.config.pipeline.vert.clone(),
                        frag: program.config.pipeline.frag.clone(),
                        layouts,
                        num_samples,
                    },
                ),
            },
        }
    }

    /// Takes in how the compilation of the current program ended. A
    /// pipeline replaces the one before it; errors leave the pipeline of the
    /// last successful compilation in use.
    pub fn finish_compile(&mut self, outcome: Result<P, ProgramErrors>)
        ensures
            final(self).error == old(self).error,
            final(self).same_but_program(*old(self)),
            old(self).subscriptions_derived() ==> final(self).subscriptions_derived(),
            old(self).selection_valid() ==> final(self).selection_valid(),
            match old(self).current_program {
                Some(before) => final(self).current_program matches Some(after)
                    && after.compiled_from(before, outcome),
                None => final(self).current_program.is_none(),
            },
    {
        let mut slot: Option<Program<P>> = None;
        std::mem::swap(&mut self.current_program, &mut slot);
        if let Some(program) = slot {
            let mut program = program;
            program.finish_compile(outcome);
            self.current_program = Some(program);
        }
    }

    /// Nothing but the current program and the error differs from `before`.
    pub open spec fn same_but_program(&self, before: Self) -> bool {
        &&& self.buffer_store == before.buffer_store
        &&& self.current_subscriptions == before.current_subscriptions
        &&& self.folder_index == before.folder_index
        &&& self.folder_names == before.folder_names
        &&& self.program_names == before.program_names
        &&& self.program_index == before.program_index
        &&& self.config == before.config
        &&& self.shader_watcher == before.shader_watcher
    }

    /// Advances the uniform data of the subscribed kinds. `time` is the
    /// reading of the clock. Call at every tick.
    pub fn update_uniforms(&mut self, time: u32)
        ensures
            final(self).error == old(self).error,
            final(self).same_but_buffers(*old(self)),
            final(self).buffer_store == match old(self).current_subscriptions {
                Some(subscriptions) => old(self).buffer_store.ticked(subscriptions, time),
                None => old(self).buffer_store,
            },
    {
        if let Some(subscriptions) = self.current_subscriptions {
            self.buffer_store.update(&subscriptions, time);
        }
    }

    /// Nothing but the uniform data and the error differs from `before`.
    pub open spec fn same_but_buffers(&self, before: Self) -> bool {
        &&& self.current_subscriptions == before.current_subscriptions
        &&& self.folder_index == before.folder_index
        &&& self.folder_names == before.folder_names
        &&& self.program_names == before.program_names
        &&& self.program_index == before.program_index
        &&& self.config == before.config
        &&& self.current_program == before.current_program
        &&& self.shader_watcher == before.shader_watcher
    }

    /// The pipeline to draw with, if the current program has one. Without
    /// one there is nothing to draw in this frame.
    pub fn current_pipeline(&self) -> (r: Option<&P>)
        ensures
            match r {
                Some(pipeline) => self.current_program matches Some(program) && program.pipeline
                    == Some(*pipeline),
                None => self.current_program matches Some(program) ==> program.pipeline.is_none(),
            },
    {
        match &self.current_program {
            Some(program) => program.pipeline.as_ref(),
            None => None,
        }
    }

    /// Records the copies that bring the GPU buffers of the subscribed kinds
    /// up to date. Call before the frame is drawn.
    pub fn update_uniform_buffers(&self, encoder: &mut CommandEncoder)
        ensures
            final(encoder)@ == old(encoder)@ + match self.current_subscriptions {
                Some(subscriptions) => self.buffer_store.pending_copies(subscriptions),
                None => Seq::empty(),
            },
    {
        if let Some(subscriptions) = self.current_subscriptions {
            self.buffer_store.update_buffers(encoder, &subscriptions);
        }
    }

    /// The bind groups to draw with, in the order of the uniforms of the
    /// current program. Without a program, or if one of its uniforms has no
    /// buffer, there is nothing to draw in this frame.
    pub fn get_bind_groups(&self) -> (r: Option<Vec<UniformKind>>)
        ensures
            match r {
                Some(groups) => self.current_program matches Some(program)
                    && self.buffer_store.bind_groups_of(program.config@.uniforms) == Some(groups@),
                None => self.current_program matches Some(program)
                    ==> self.buffer_store.bind_groups_of(program.config@.uniforms).is_none(),
            },
    {
        match &self.current_program {
            Some(program) => self.buffer_store.get_bind_groups(&program.config.uniforms),
            None => None,
        }
    }

    /// The errors of the last compilation of the current program.
    pub fn get_program_errors(&self) -> (r: Option<&ProgramErrors>)
        ensures
            match r {
                Some(errors) => self.current_program matches Some(program) && program.errors
                    == *errors,
                None => self.current_program.is_none(),
            },
    {
        match &self.current_program {
            Some(program) => Some(&program.errors),
            None => None,
        }
    }

    /// Stops the time of the uniform data.
    pub fn pause(&mut self)
        ensures
            final(self).error == old(self).error,
            final(self).same_but_buffers(*old(self)),
            final(self).buffer_store.buffers == old(self).buffer_store.buffers,
            final(self).buffer_store.camera_uniforms == old(self).buffer_store.camera_uniforms,
            final(self).buffer_store.geometry_uniforms == old(self).buffer_store.geometry_uniforms,
            final(self).buffer_store.general_uniforms.data
                == old(self).buffer_store.general_uniforms.data,
            final(self).buffer_store.general_uniforms.paused == (
            old(self).buffer_store.general_uniforms.paused || (old(self).current_subscriptions
                matches Some(subscriptions) && subscriptions.general)),
    {
        if let Some(subscriptions) = self.current_subscriptions {
            self.buffer_store.pause(&subscriptions);
        }
    }

    /// Lets the time of the uniform data run again.
    pub fn unpause(&mut self)
        ensures
            final(self).error == old(self).error,
            final(self).same_but_buffers(*old(self)),
            final(self).buffer_store.buffers == old(self).buffer_store.buffers,
            final(self).buffer_store.camera_uniforms == old(self).buffer_store.camera_uniforms,
            final(self).buffer_store.geometry_uniforms == old(self).buffer_store.geometry_uniforms,
            final(self).buffer_store.general_uniforms.data
                == old(self).buffer_store.general_uniforms.data,
            final(self).buffer_store.general_uniforms.paused == (
            old(self).buffer_store.general_uniforms.paused && !(old(self).current_subscriptions
                matches Some(subscriptions) && subscriptions.general)),
    {
        if let Some(subscriptions) = self.current_subscriptions {
            self.buffer_store.unpause(&subscriptions);
        }
    }
}

} // verus!
