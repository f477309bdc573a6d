use vstd::prelude::*;
use crate::name_map::{copy_name, copy_names, name_view, names_of, NameMap};
use crate::programs::uniforms::base::Vec3;

verus! {

/// Where the two shader stages of a program are read from.
#[derive(Debug)]
pub struct PipelineConfig {
    pub vert: String,
    pub frag: String,
}

/// Values that a program sets on the uniform data when it is selected. A
/// value that is absent leaves the data as it is. The numbers are
/// single-precision, each held as its bit pattern.
///
/// The smoothing of the audio features, the colour mode and the two images
/// belong to kinds of uniform data that are held elsewhere: they are kept as
/// the configuration gives them and set nothing here.
#[derive(Debug, PartialEq, Eq)]
pub struct ProgramDefaults {
    pub audio_feature_smoothing: Option<u32>,
    pub camera_position: Option<Vec3>,
    pub camera_target: Option<Vec3>,
    pub camera_up: Option<Vec3>,
    pub color_mode: Option<u32>,
    pub shape_rotation: Option<Vec3>,
    pub image1: Option<String>,
    pub image2: Option<String>,
}

/// What a [`ProgramDefaults`] says, apart from where its strings are stored.
pub struct ProgramDefaultsView {
    pub audio_feature_smoothing: Option<u32>,
    pub camera_position: Option<Vec3>,
    pub camera_target: Option<Vec3>,
    pub camera_up: Option<Vec3>,
    pub color_mode: Option<u32>,
    pub shape_rotation: Option<Vec3>,
    pub image1: Option<Seq<char>>,
    pub image2: Option<Seq<char>>,
}

impl View for ProgramDefaults {
    type V = ProgramDefaultsView;

    open spec fn view(&self) -> ProgramDefaultsView {
        ProgramDefaultsView {
            audio_feature_smoothing: self.audio_feature_smoothing,
            camera_position: self.camera_position,
            camera_target: self.camera_target,
            camera_up: self.camera_up,
            color_mode: self.color_mode,
            shape_rotation: self.shape_rotation,
            image1: name_view(self.image1),
            image2: name_view(self.image2),
        }
    }
}

impl Clone for ProgramDefaults {
    fn clone(&self) -> (r: Self)
        ensures
            r@ == self@,
    {
        ProgramDefaults {
            audio_feature_smoothing: self.audio_feature_smoothing,
            camera_position: self.camera_position,
            camera_target: self.camera_target,
            camera_up: self.camera_up,
            color_mode: self.color_mode,
            shape_rotation: self.shape_rotation,
            image1: copy_name(&self.image1),
            image2: copy_name(&self.image2),
        }
    }
}

/// What defaults that may be absent say.
pub open spec fn defaults_view(defaults: Option<ProgramDefaults>) -> Option<ProgramDefaultsView> {
    match defaults {
        Some(d) => Some(d@),
        None => None,
    }
}

/// One shader program: its sources, the uniform kinds it reads, in the order
/// of its bind groups, and its defaults.
#[derive(Debug)]
pub struct ProgramConfig {
    pub pipeline: PipelineConfig,
    pub uniforms: Vec<String>,
    pub defaults: Option<ProgramDefaults>,
}

/// What a [`ProgramConfig`] says, apart from where its strings are stored.
pub struct ProgramConfigView {
    pub vert: Seq<char>,
    pub frag: Seq<char>,
    pub uniforms: Seq<Seq<char>>,
    pub defaults: Option<ProgramDefaultsView>,
}

impl View for ProgramConfig {
    type V = ProgramConfigView;

    open spec fn view(&self) -> ProgramConfigView {
        ProgramConfigView {
            vert: self.pipeline.vert@,
            frag: self.pipeline.frag@,
            uniforms: names_of(self.uniforms@),
            defaults: defaults_view(self.defaults),
        }
    }
}

impl Clone for ProgramConfig {
    fn clone(&self) -> (r: Self)
        ensures
            r@ == self@,
    {
        ProgramConfig {
            pipeline: PipelineConfig {
                vert: self.pipeline.vert.clone(),
                frag: self.pipeline.frag.clone(),
            },
            uniforms: copy_names(&self.uniforms),
            defaults: match &self.defaults {
                Some(d) => Some(d.clone()),
                None => None,
            },
        }
    }
}

/// The programs of one folder, and the one that is selected with the folder.
#[derive(Debug)]
pub struct FolderConfig {
    pub default: String,
    pub programs: NameMap<ProgramConfig>,
}

/// What a [`FolderConfig`] says.
pub struct FolderConfigView {
    pub default: Seq<char>,
    pub programs: Map<Seq<char>, ProgramConfigView>,
}

impl View for FolderConfig {
    type V = FolderConfigView;

    open spec fn view(&self) -> FolderConfigView {
        FolderConfigView {
            default: self.default@,
            programs: self.programs.to_map().map_values(|p: ProgramConfig| p@),
        }
    }
}

impl FolderConfig {
    /// A folder without programs.
    pub fn new(default: String) -> (r: Self)
        ensures
            r.default == default,
            r.programs.wf(),
            r.programs.names() == Seq::<Seq<char>>::empty(),
    {
        FolderConfig { default, programs: NameMap::new() }
    }

    /// The programs are well formed.
    pub open spec fn wf(&self) -> bool {
        self.programs.wf()
    }

    /// The names of the programs, in ascending order.
    pub fn get_program_names(&self) -> (names: Vec<String>)
        ensures
            self.wf(),
            names_of(names@) == self.programs.names(),
    {
        self.programs.get_names()
    }
}

/// The whole configuration: the folders, and the one that is selected when
/// nothing else is.
#[derive(Debug)]
pub struct Config {
    pub default: String,
    pub folders: NameMap<FolderConfig>,
}

/// What a [`Config`] says.
pub struct ConfigView {
    pub default: Seq<char>,
    pub folders: Map<Seq<char>, FolderConfigView>,
}

impl View for Config {
    type V = ConfigView;

    open spec fn view(&self) -> ConfigView {
        ConfigView {
            default: self.default@,
            folders: self.folders.to_map().map_values(|f: FolderConfig| f@),
        }
    }
}

impl Config {
    /// A configuration without folders.
    pub fn new(default: String) -> (r: Self)
        ensures
            r.default == default,
            r.folders.wf(),
            r.folders.names() == Seq::<Seq<char>>::empty(),
    {
        Config { default, folders: NameMap::new() }
    }

    /// The folders, and the programs of each, stand in the order of their
    /// names. This holds of every configuration that a program can build.
    pub open spec fn wf(&self) -> bool {
        &&& self.folders.wf()
        &&& forall|i: int|
            0 <= i < self.folders.entries().len() ==> (#[trigger] self.folders.entries()[i]).value.wf()
    }

    /// The names of the folders, in ascending order.
    pub fn get_folder_names(&self) -> (names: Vec<String>)
        ensures
            self.folders.wf(),
            names_of(names@) == self.folders.names(),
    {
        self.folders.get_names()
    }
}

/// Why no configuration could be put to use.
#[derive(Debug)]
pub enum ConfigError {
    /// The file could not be read.
    IoError(String),
    /// The file does not hold a configuration.
    ParseError(String),
    /// The configuration names a default folder that it does not hold.
    InvalidDefaultFolder(String),
    /// A folder names a default program that it does not hold.
    InvalidDefaultProgram(String),
    /// No folder stands under a name of the list of folders.
    MissingFolder(String),
    /// No program stands under a name of the list of programs.
    MissingProgram(String),
}

/// Why a selection was not carried out.
#[derive(Debug)]
pub enum SelectionError {
    /// The selected place lies beyond the end of the list.
    IndexOutOfRange(usize),
    /// The configuration holds no folder of the selected name.
    FolderMissing(String),
    /// The folder holds no program of the selected name.
    ProgramMissing(String),
}

/// The error that the store shows in place of its normal state.
#[derive(Debug)]
pub enum StoreError {
    Config(ConfigError),
    Selection(SelectionError),
}

/// `prefix`, then `name` between single quotes.
pub open spec fn quoted(prefix: Seq<char>, name: Seq<char>) -> Seq<char> {
    prefix + seq!['\''] + name + seq!['\'']
}

fn quote(prefix: &str, name: &String) -> (r: String)
    ensures
        r@ == quoted(prefix@, name@),
{
    proof {
        reveal_strlit("'");
    }
    let r = String::from_str(prefix).concat("'").concat(name.as_str()).concat("'");
    r
}

impl ConfigError {
    /// The text that is shown for the error.
    pub open spec fn text(&self) -> Seq<char> {
        match self {
            ConfigError::IoError(detail) => detail@,
            ConfigError::ParseError(detail) => detail@,
            ConfigError::InvalidDefaultFolder(name) => quoted("Invalid default folder "@, name@),
            ConfigError::InvalidDefaultProgram(name) => quoted("Invalid default program "@, name@),
            ConfigError::MissingFolder(name) => quoted("Missing folder config "@, name@),
            ConfigError::MissingProgram(name) => quoted("Missing program config "@, name@),
        }
    }

    /// The text that is shown for the error.
    pub fn message(&self) -> (r: String)
        ensures
            r@ == self.text(),
    {
        match self {
            ConfigError::IoError(detail) => detail.clone(),
            ConfigError::ParseError(detail) => detail.clone(),
            ConfigError::InvalidDefaultFolder(name) => quote("Invalid default folder ", name),
            ConfigError::InvalidDefaultProgram(name) => quote("Invalid default program ", name),
            ConfigError::MissingFolder(name) => quote("Missing folder config ", name),
            ConfigError::MissingProgram(name) => quote("Missing program config ", name),
        }
    }
}

impl SelectionError {
    /// The text that is shown for the error.
    pub open spec fn text(&self) -> Seq<char> {
        match self {
            SelectionError::IndexOutOfRange(_) => "Selection out of range"@,
            SelectionError::FolderMissing(name) => quoted("Missing folder config "@, name@),
            SelectionError::ProgramMissing(name) => quoted("Missing program config "@, name@),
        }
    }

    /// The text that is shown for the error.
    pub fn message(&self) -> (r: String)
        ensures
            r@ == self.text(),
    {
        match self {
            SelectionError::IndexOutOfRange(_) => String::from_str("Selection out of range"),
            SelectionError::FolderMissing(name) => quote("Missing folder config ", name),
            SelectionError::ProgramMissing(name) => quote("Missing program config ", name),
        }
    }
}

impl StoreError {
    /// The text that is shown for the error.
    pub open spec fn text(&self) -> Seq<char> {
        match self {
            StoreError::Config(e) => e.text(),
            StoreError::Selection(e) => e.text(),
        }
    }

    /// The text that is shown for the error.
    pub fn message(&self) -> (r: String)
        ensures
            r@ == self.text(),
    {
        match self {
            StoreError::Config(e) => e.message(),
            StoreError::Selection(e) => e.message(),
        }
    }
}

} // verus!
