use vstd::prelude::*;
use crate::name_map::{
    lemma_ascending_position, lemma_ascending_unique, lemma_lookup_absent, lemma_lookup_at,
    name_view, NameMap,
};
use crate::programs::config::{Config, ConfigError, FolderConfig, ProgramConfig};

verus! {

/// The folder and the program that were resolved, each by its place in the
/// list of names.
#[derive(Debug)]
pub struct Resolved {
    pub folder_index: usize,
    pub program_index: usize,
}

/// The previous folder is still there, so that it stays selected.
pub open spec fn keeps_folder(config: Config, previous_folder: Option<Seq<char>>) -> bool {
    previous_folder.is_some() && config.folders.contains(previous_folder.unwrap())
}

/// The folder that is selected under `config`: the previous one if it is
/// still there, else the default of the configuration, which must exist.
pub open spec fn resolved_folder(config: Config, previous_folder: Option<Seq<char>>) -> Result<
    Seq<char>,
    ConfigError,
> {
    if keeps_folder(config, previous_folder) {
        Ok(previous_folder.unwrap())
    } else if config.folders.contains(config.default@) {
        Ok(config.default@)
    } else {
        Err(ConfigError::InvalidDefaultFolder(config.default))
    }
}

/// The program that is selected in `folder`: the previous one if it is still
/// there, else the default of the folder, which must exist.
pub open spec fn resolved_program(folder: FolderConfig, previous_program: Option<Seq<char>>) -> Result<
    Seq<char>,
    ConfigError,
> {
    if previous_program.is_some() && folder.programs.contains(previous_program.unwrap()) {
        Ok(previous_program.unwrap())
    } else if folder.programs.contains(folder.default@) {
        Ok(folder.default@)
    } else {
        Err(ConfigError::InvalidDefaultProgram(folder.default))
    }
}

/// What is selected under a configuration that was just loaded, given the
/// names of the folder and the program that were selected before: the place
/// of the folder in the list of folders, and the place of the program in the
/// list of the folder's programs. The previous program is considered only
/// where the previous folder stays.
pub open spec fn resolve(
    config: Config,
    previous_folder: Option<Seq<char>>,
    previous_program: Option<Seq<char>>,
) -> Result<(int, int), ConfigError> {
    match resolved_folder(config, previous_folder) {
        Err(e) => Err(e),
        Ok(folder_name) => {
            let folder = config.folders.lookup(folder_name).unwrap();
            let previous = if keeps_folder(config, previous_folder) {
                previous_program
            } else {
                None
            };
            match resolved_program(folder, previous) {
                Err(e) => Err(e),
                Ok(program_name) => Ok(
                    (
                        config.folders.position(folder_name).unwrap(),
                        folder.programs.position(program_name).unwrap(),
                    ),
                ),
            }
        },
    }
}

/// Finds the place of the previous name in `map`, or else that of the
/// default, and says whether the previous name was kept.
fn keep_or_default<V>(map: &NameMap<V>, previous: &Option<String>, default: &String) -> (r: Option<
    (usize, bool),
>)
    ensures
        map.wf(),
        match r {
            Some((i, kept)) => {
                &&& i < map.entries().len()
                &&& kept == (previous.is_some() && map.contains(previous.unwrap()@))
                &&& kept ==> map.position(previous.unwrap()@) == Some(i as int)
                &&& kept ==> map.names()[i as int] == previous.unwrap()@
                &&& !kept ==> map.position(default@) == Some(i as int)
                &&& !kept ==> map.names()[i as int] == default@
            },
            None => {
                &&& !(previous.is_some() && map.contains(previous.unwrap()@))
                &&& !map.contains(default@)
            },
        },
{
    proof {
        lemma_lookup_absent(map.entries(), default@);
        map.names().index_of_first_ensures(default@);
    }
    if let Some(name) = previous {
        proof {
            lemma_lookup_absent(map.entries(), name@);
            map.names().index_of_first_ensures(name@);
        }
        if let Some(i) = map.index_of(name) {
            return Some((i, true));
        }
    }
    match map.index_of(default) {
        Some(i) => Some((i, false)),
        None => None,
    }
}

/// Resolves what is selected under `config`, given the names of the folder
/// and the program that were selected before.
pub fn resolve_selection(
    config: &Config,
    previous_folder: &Option<String>,
    previous_program: &Option<String>,
) -> (r: Result<Resolved, ConfigError>)
    ensures
        match r {
            Ok(found) => {
                &&& resolve(*config, name_view(*previous_folder), name_view(*previous_program))
                    == Ok::<(int, int), ConfigError>(
                    (found.folder_index as int, found.program_index as int),
                )
                &&& found.folder_index < config.folders.entries().len()
                &&& found.program_index
                    < config.folders.entries()[found.folder_index as int].value.programs.entries().len()
            },
            Err(e) => resolve(*config, name_view(*previous_folder), name_view(*previous_program))
                == Err::<(int, int), ConfigError>(e),
        },
{
    let (folder_index, kept_folder) = match keep_or_default(
        &config.folders,
        previous_folder,
        &config.default,
    ) {
        Some(found) => found,
        None => {
            return Err(ConfigError::InvalidDefaultFolder(config.default.clone()));
        },
    };
    let folder = config.folders.value_at(folder_index);
    proof {
        lemma_lookup_at(config.folders.entries(), folder_index as int);
        config.folders.names().index_of_first_ensures(config.folders.names()[folder_index as int]);
    }
    let nothing: Option<String> = None;
    let previous = if kept_folder {
        previous_program
    } else {
        &nothing
    };
    proof {
        lemma_lookup_absent(folder.programs.entries(), folder.default@);
    }
    let program_index = match keep_or_default(&folder.programs, previous, &folder.default) {
        Some((i, _)) => i,
        None => {
            return Err(ConfigError::InvalidDefaultProgram(folder.default.clone()));
        },
    };
    Ok(Resolved { folder_index, program_index })
}

/// A name that the resolution arrives at is always one that the
/// configuration holds: the entry under it is never missing.
pub proof fn lemma_resolved_present(
    config: Config,
    previous_folder: Option<Seq<char>>,
    previous_program: Option<Seq<char>>,
)
    requires
        config.wf(),
    ensures
        resolve(config, previous_folder, previous_program) matches Ok(found) ==> {
            &&& 0 <= found.0 < config.folders.names().len()
            &&& resolved_folder(config, previous_folder) == Ok::<Seq<char>, ConfigError>(
                config.folders.names()[found.0],
            )
            &&& 0 <= found.1 < config.folders.entries()[found.0].value.programs.names().len()
        },
{
    if let Ok(found) = resolve(config, previous_folder, previous_program) {
        let folder_name = resolved_folder(config, previous_folder).unwrap();
        config.folders.names().index_of_first_ensures(folder_name);
        let i = config.folders.position(folder_name).unwrap();
        lemma_lookup_at(config.folders.entries(), i);
        let folder = config.folders.entries()[i].value;
        let previous = if keeps_folder(config, previous_folder) {
            previous_program
        } else {
            None
        };
        let program_name = resolved_program(folder, previous).unwrap();
        folder.programs.names().index_of_first_ensures(program_name);
    }
}

/// A program that was selected stays selected when a configuration is
/// loaded that still holds it in its folder, wherever the two now stand in
/// the lists of names.
pub proof fn lemma_selection_kept(config: Config, folder: Seq<char>, program: Seq<char>)
    requires
        config.wf(),
        config.folders.contains(folder),
        config.folders.lookup(folder).unwrap().programs.contains(program),
    ensures
        resolve(config, Some(folder), Some(program)) matches Ok(found) && {
            &&& config.folders.position(folder) == Some(found.0)
            &&& config.folders.names()[found.0] == folder
            &&& config.folders.lookup(folder).unwrap().programs.position(program) == Some(found.1)
            &&& config.folders.lookup(folder).unwrap().programs.names()[found.1] == program
        },
{
    config.folders.names().index_of_first_ensures(folder);
    let i = config.folders.position(folder).unwrap();
    lemma_lookup_at(config.folders.entries(), i);
    let programs = config.folders.entries()[i].value.programs;
    programs.names().index_of_first_ensures(program);
}

/// Where the previous folder is gone, the default folder of the
/// configuration is selected with its own default program. A configuration
/// without its default folder is refused, and so is one whose default
/// folder is without its default program.
pub proof fn lemma_fallback(
    config: Config,
    previous_folder: Option<Seq<char>>,
    previous_program: Option<Seq<char>>,
)
    requires
        config.wf(),
        !keeps_folder(config, previous_folder),
    ensures
        !config.folders.contains(config.default@) ==> resolve(
            config,
            previous_folder,
            previous_program,
        ) == Err::<(int, int), ConfigError>(ConfigError::InvalidDefaultFolder(config.default)),
        config.folders.contains(config.default@) ==> {
            let folder = config.folders.lookup(config.default@).unwrap();
            if folder.programs.contains(folder.default@) {
                resolve(config, previous_folder, previous_program) matches Ok(found) && {
                    &&& config.folders.position(config.default@) == Some(found.0)
                    &&& config.folders.names()[found.0] == config.default@
                    &&& folder.programs.position(folder.default@) == Some(found.1)
                    &&& folder.programs.names()[found.1] == folder.default@
                }
            } else {
                resolve(config, previous_folder, previous_program) == Err::<(int, int), ConfigError>(
                    ConfigError::InvalidDefaultProgram(folder.default),
                )
            }
        },
{
    if config.folders.contains(config.default@) {
        config.folders.names().index_of_first_ensures(config.default@);
        let i = config.folders.position(config.default@).unwrap();
        lemma_lookup_at(config.folders.entries(), i);
        let folder = config.folders.entries()[i].value;
        folder.programs.names().index_of_first_ensures(folder.default@);
    }
}

/// Maps with the same names hold them in the same order.
pub proof fn lemma_same_names<V, W>(a: NameMap<V>, b: NameMap<W>)
    requires
        a.wf(),
        b.wf(),
        a.to_map().dom() == b.to_map().dom(),
    ensures
        a.names() == b.names(),
{
    lemma_ascending_unique(a.names(), b.names());
}

/// A configuration that says the same as another resolves to the same
/// places: whatever was selected under the one is selected again under the
/// other, at the same places in the lists of names.
pub proof fn lemma_reload_keeps_places(a: Config, b: Config, folder_index: int, program_index: int)
    requires
        a.wf(),
        b.wf(),
        a@ == b@,
        0 <= folder_index < a.folders.names().len(),
        0 <= program_index < a.folders.entries()[folder_index].value.programs.names().len(),
    ensures
        b.folders.names() == a.folders.names(),
        b.folders.entries()[folder_index].value.programs.names()
            == a.folders.entries()[folder_index].value.programs.names(),
        resolve(
            b,
            Some(a.folders.names()[folder_index]),
            Some(a.folders.entries()[folder_index].value.programs.names()[program_index]),
        ) == Ok::<(int, int), ConfigError>((folder_index, program_index)),
{
    let view_folder = |f: FolderConfig| f@;
    let folders_a = a.folders.to_map();
    let folders_b = b.folders.to_map();
    assert(folders_a.dom() =~= folders_a.map_values(view_folder).dom());
    assert(folders_b.dom() =~= folders_b.map_values(view_folder).dom());
    lemma_same_names(a.folders, b.folders);
    let folder_name = a.folders.names()[folder_index];
    lemma_lookup_at(a.folders.entries(), folder_index);
    lemma_lookup_at(b.folders.entries(), folder_index);
    let fa = a.folders.entries()[folder_index].value;
    let fb = b.folders.entries()[folder_index].value;
    assert(folders_b.map_values(view_folder)[folder_name] == fb@);
    let view_program = |p: ProgramConfig| p@;
    let programs_a = fa.programs.to_map();
    let programs_b = fb.programs.to_map();
    assert(programs_a.dom() =~= programs_a.map_values(view_program).dom());
    assert(programs_b.dom() =~= programs_b.map_values(view_program).dom());
    lemma_same_names(fa.programs, fb.programs);
    lemma_ascending_position(b.folders.names(), folder_index);
    lemma_ascending_position(fb.programs.names(), program_index);
}

} // verus!
