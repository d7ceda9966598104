//! The settings of a run: what the command line gave, over what the settings file
//! gave, over the defaults.

use vstd::prelude::*;

verus! {

pub const CONFIG_FILE_NAME: &'static str = "logo_loader.toml";

pub const JSON_FILE_PATH: &'static str = "job.json";

pub const DOWNLOAD_FOLDER: &'static str = "Logo/Raw";

pub const UPSCALE_FOLDER: &'static str = "Logo/Upscale";

pub const LOG_FILE: &'static str = "logo.log";

pub const RESULT_FOLDER: &'static str = "Logo/Result";

pub const CROP_FOLDER: &'static str = "Logo/Crop";

pub const TEMP_JOB_FILE: &'static str = "job.json";

pub const DOWNLOAD: bool = true;

pub const UPSCALE: bool = true;

pub const DEFAULT_UPSCALER_PROG: &'static str =
    "/Applications/Upscayl.app/Contents/Resources/bin/upscayl-bin";

pub const DEFAULT_MODEL_PATH: &'static str = "/Applications/Upscayl.app/Contents/Resources/models";

pub const DEFAULT_MODEL_NAME: &'static str = "upscayl-standard-4x";

/// The settings of the upscaler in a settings file.
#[derive(Debug, Clone)]
pub struct UpscaylConfig {
    pub bin: Option<String>,
    pub models: Option<String>,
    pub model: Option<String>,
}

/// The content of a settings file.
#[derive(Debug, Clone)]
pub struct ConfigFile {
    pub job: Option<String>,
    pub out_dir: Option<String>,
    pub download: Option<bool>,
    pub upscale: Option<bool>,
    pub upscayl: Option<UpscaylConfig>,
}

/// The settings of a run. A setting that is `None` stands for its default.
#[derive(Debug, Clone)]
pub struct Config {
    /// The path of the settings file.
    pub config_file: Option<String>,
    /// The file that lists the jobs.
    pub job: Option<String>,
    /// The folder under which every file is made.
    pub out_dir: Option<String>,
    /// Whether images are downloaded.
    pub download: Option<bool>,
    /// Whether images are upscaled.
    pub upscale: Option<bool>,
    /// The path of the upscaler.
    pub upscayl_bin: Option<String>,
    /// The folder of the upscaler's models.
    pub upscayl_models: Option<String>,
    /// The name of the upscaler's model.
    pub upscayl_model: Option<String>,
}

/// The text of a setting, or the default where it is not set.
pub open spec fn text_or(setting: Option<String>, default: Seq<char>) -> Seq<char> {
    match setting {
        Some(text) => text@,
        None => default,
    }
}

/// The value of a switch, or the default where it is not set.
pub open spec fn flag_or(setting: Option<bool>, default: bool) -> bool {
    match setting {
        Some(flag) => flag,
        None => default,
    }
}

/// The first of two settings that is set.
pub open spec fn first_text(first: Option<String>, second: Option<String>) -> Option<Seq<char>> {
    match first {
        Some(text) => Some(text@),
        None => match second {
            Some(text) => Some(text@),
            None => None,
        },
    }
}

/// The first of two switches that is set.
pub open spec fn first_flag(first: Option<bool>, second: Option<bool>) -> Option<bool> {
    match first {
        Some(flag) => Some(flag),
        None => second,
    }
}

/// A path under a folder: the folder, a separator where the folder is named and does
/// not end in one, and the path. A path under the unnamed folder is the path itself.
pub open spec fn joined(folder: Seq<char>, path: Seq<char>) -> Seq<char> {
    if folder.len() == 0 {
        path
    } else if folder.last() == '/' {
        folder + path
    } else {
        folder + seq!['/'] + path
    }
}

/// The last character of a text, if it has one.
fn last_char(text: &str) -> (last: Option<char>)
    ensures
        text@.len() == 0 ==> last is None,
        text@.len() > 0 ==> last == Some(text@.last()),
{
    let length = text.unicode_len();
    if length == 0 {
        None
    } else {
        Some(text.get_char(length - 1))
    }
}

/// Joins a relative path to a folder.
pub fn join_path(folder: &str, path: &str) -> (whole: String)
    ensures
        whole@ == joined(folder@, path@),
{
    match last_char(folder) {
        None => {
            let whole = String::from_str(path);
            whole
        },
        Some(last) => {
            let mut whole = String::from_str(folder);
            if last != '/' {
                proof {
                    reveal_strlit("/");
                }
                whole.append("/");
                assert("/"@ =~= seq!['/']);
            }
            whole.append(path);
            whole
        },
    }
}

/// The first of two settings that is set, else the default.
fn pick_text(first: Option<String>, second: Option<String>, default: &str) -> (picked: Option<
    String,
>)
    ensures
        picked is Some,
        picked->0@ == match first_text(first, second) {
            Some(text) => text,
            None => default@,
        },
{
    match first {
        Some(text) => Some(text),
        None => match second {
            Some(text) => Some(text),
            None => Some(String::from_str(default)),
        },
    }
}

/// The first of two switches that is set, else the default.
fn pick_flag(first: Option<bool>, second: Option<bool>, default: bool) -> (picked: Option<bool>)
    ensures
        picked == Some(flag_or(first_flag(first, second), default)),
{
    match first {
        Some(flag) => Some(flag),
        None => match second {
            Some(flag) => Some(flag),
            None => Some(default),
        },
    }
}

/// Where the settings file is looked for.
#[derive(Clone, Copy, Debug, PartialEq, Eq, Structural)]
pub enum ConfigPlace {
    /// At the path that the command line names.
    Named,
    /// In the current folder, under `CONFIG_FILE_NAME`.
    Current,
    /// In the home folder, under a dot and `CONFIG_FILE_NAME`.
    Home,
}

/// Chooses where the settings file is looked for: where the command line says; else in
/// the current folder when the file is there; else in the home folder when there is one
/// and the file is there; else in the current folder after all.
pub fn config_place(named: bool, in_current: bool, has_home: bool, in_home: bool) -> (place:
    ConfigPlace)
    ensures
        place == if named {
            ConfigPlace::Named
        } else if in_current {
            ConfigPlace::Current
        } else if has_home && in_home {
            ConfigPlace::Home
        } else {
            ConfigPlace::Current
        },
{
    if named {
        ConfigPlace::Named
    } else if in_current {
        ConfigPlace::Current
    } else if has_home && in_home {
        ConfigPlace::Home
    } else {
        ConfigPlace::Current
    }
}

impl ConfigFile {
    /// The path of the upscaler, where the file sets it.
    pub open spec fn upscayl_bin_spec(self) -> Option<String> {
        match self.upscayl {
            Some(u) => u.bin,
            None => None,
        }
    }

    /// The folder of the upscaler's models, where the file sets it.
    pub open spec fn upscayl_models_spec(self) -> Option<String> {
        match self.upscayl {
            Some(u) => u.models,
            None => None,
        }
    }

    /// The name of the upscaler's model, where the file sets it.
    pub open spec fn upscayl_model_spec(self) -> Option<String> {
        match self.upscayl {
            Some(u) => u.model,
            None => None,
        }
    }
}

/// The settings file without any setting.
pub open spec fn no_file() -> ConfigFile {
    ConfigFile { job: None, out_dir: None, download: None, upscale: None, upscayl: None }
}

impl Config {
    /// The settings of a run, from what the command line gave and what the settings file
    /// gave, if there was one.
    pub fn get(cli_config: Config, file: Option<ConfigFile>) -> (config: Config)
        ensures
            config.is_merge_of(
                cli_config,
                match file {
                    Some(f) => f,
                    None => no_file(),
                },
            ),
    {
        cli_config.load_from_file(file)
    }

    /// Whether `self` is `cli` filled up from `file` and the defaults: every setting is
    /// set; it is the command line's where that is set, else the file's where that is
    /// set, else the default. The path of the settings file stays.
    pub open spec fn is_merge_of(self, cli: Config, file: ConfigFile) -> bool {
        &&& self.config_file.deep_view() == cli.config_file.deep_view()
        &&& self.job is Some && self.job->0@ == match first_text(cli.job, file.job) {
            Some(text) => text,
            None => JSON_FILE_PATH@,
        }
        &&& self.out_dir is Some && self.out_dir->0@ == match first_text(
            cli.out_dir,
            file.out_dir,
        ) {
            Some(text) => text,
            None => "."@,
        }
        &&& self.download == Some(flag_or(first_flag(cli.download, file.download), DOWNLOAD))
        &&& self.upscale == Some(flag_or(first_flag(cli.upscale, file.upscale), UPSCALE))
        &&& self.upscayl_bin is Some && self.upscayl_bin->0@ == match first_text(
            cli.upscayl_bin,
            file.upscayl_bin_spec(),
        ) {
            Some(text) => text,
            None => DEFAULT_UPSCALER_PROG@,
        }
        &&& self.upscayl_models is Some && self.upscayl_models->0@ == match first_text(
            cli.upscayl_models,
            file.upscayl_models_spec(),
        ) {
            Some(text) => text,
            None => DEFAULT_MODEL_PATH@,
        }
        &&& self.upscayl_model is Some && self.upscayl_model->0@ == match first_text(
            cli.upscayl_model,
            file.upscayl_model_spec(),
        ) {
            Some(text) => text,
            None => DEFAULT_MODEL_NAME@,
        }
    }

    /// Fills the settings up from a settings file, if there is one, and the defaults.
    /// What the command line set stays.
    pub fn load_from_file(self, file: Option<ConfigFile>) -> (config: Config)
        ensures
            config.is_merge_of(
                self,
                match file {
                    Some(f) => f,
                    None => no_file(),
                },
            ),
    {
        let file = match file {
            Some(f) => f,
            None => ConfigFile {
                job: None,
                out_dir: None,
                download: None,
                upscale: None,
                upscayl: None,
            },
        };
        let (bin, models, model) = match file.upscayl {
            Some(u) => (u.bin, u.models, u.model),
            None => (None, None, None),
        };
        Config {
            config_file: self.config_file,
            job: pick_text(self.job, file.job, JSON_FILE_PATH),
            out_dir: pick_text(self.out_dir, file.out_dir, "."),
            download: pick_flag(self.download, file.download, DOWNLOAD),
            upscale: pick_flag(self.upscale, file.upscale, UPSCALE),
            upscayl_bin: pick_text(self.upscayl_bin, bin, DEFAULT_UPSCALER_PROG),
            upscayl_models: pick_text(self.upscayl_models, models, DEFAULT_MODEL_PATH),
            upscayl_model: pick_text(self.upscayl_model, model, DEFAULT_MODEL_NAME),
        }
    }

    /// The file that lists the jobs.
    pub fn job(&self) -> (text: &str)
        ensures
            text@ == text_or(self.job, JSON_FILE_PATH@),
    {
        match &self.job {
            Some(text) => text.as_str(),
            None => JSON_FILE_PATH,
        }
    }

    /// The folder under which every file is made.
    pub fn out_dir(&self) -> (text: &str)
        ensures
            text@ == text_or(self.out_dir, "."@),
    {
        match &self.out_dir {
            Some(text) => text.as_str(),
            None => ".",
        }
    }

    /// Whether images are downloaded.
    pub fn download(&self) -> (flag: bool)
        ensures
            flag == flag_or(self.download, DOWNLOAD),
    {
        match self.download {
            Some(flag) => flag,
            None => DOWNLOAD,
        }
    }

    /// Whether images are upscaled.
    pub fn upscale(&self) -> (flag: bool)
        ensures
            flag == flag_or(self.upscale, UPSCALE),
    {
        match self.upscale {
            Some(flag) => flag,
            None => UPSCALE,
        }
    }

    /// The path of the upscaler.
    pub fn upscayl_bin(&self) -> (text: &str)
        ensures
            text@ == text_or(self.upscayl_bin, DEFAULT_UPSCALER_PROG@),
    {
        match &self.upscayl_bin {
            Some(text) => text.as_str(),
            None => DEFAULT_UPSCALER_PROG,
        }
    }

    /// The folder of the upscaler's models.
    pub fn upscayl_models(&self) -> (text: &str)
        ensures
            text@ == text_or(self.upscayl_models, DEFAULT_MODEL_PATH@),
    {
        match &self.upscayl_models {
            Some(text) => text.as_str(),
            None => DEFAULT_MODEL_PATH,
        }
    }

    /// The name of the upscaler's model.
    pub fn upscayl_model(&self) -> (text: &str)
        ensures
            text@ == text_or(self.upscayl_model, DEFAULT_MODEL_NAME@),
    {
        match &self.upscayl_model {
            Some(text) => text.as_str(),
            None => DEFAULT_MODEL_NAME,
        }
    }

    /// The folder of the downloaded images.
    pub fn download_folder(&self) -> (path: String)
        ensures
            path@ == joined(text_or(self.out_dir, "."@), DOWNLOAD_FOLDER@),
    {
        join_path(self.out_dir(), DOWNLOAD_FOLDER)
    }

    /// The folder of the upscaled images.
    pub fn upscale_folder(&self) -> (path: String)
        ensures
            path@ == joined(text_or(self.out_dir, "."@), UPSCALE_FOLDER@),
    {
        join_path(self.out_dir(), UPSCALE_FOLDER)
    }

    /// The folder of the finished documents.
    pub fn result_folder(&self) -> (path: String)
        ensures
            path@ == joined(text_or(self.out_dir, "."@), RESULT_FOLDER@),
    {
        join_path(self.out_dir(), RESULT_FOLDER)
    }

    /// The folder of the images whose frame is cut off.
    pub fn crop_folder(&self) -> (path: String)
        ensures
            path@ == joined(text_or(self.out_dir, "."@), CROP_FOLDER@),
    {
        join_path(self.out_dir(), CROP_FOLDER)
    }

    /// The file of the log.
    pub fn log_file(&self) -> (path: String)
        ensures
            path@ == joined(text_or(self.out_dir, "."@), LOG_FILE@),
    {
        join_path(self.out_dir(), LOG_FILE)
    }

    /// The file in which the jobs are kept for safety.
    pub fn temp_job_file(&self) -> (path: String)
        ensures
            path@ == joined(text_or(self.out_dir, "."@), TEMP_JOB_FILE@),
    {
        join_path(self.out_dir(), TEMP_JOB_FILE)
    }

    /// The folders that a run needs: of the downloaded, the upscaled, the finished and
    /// the cropped files, in this order.
    pub fn all_folders(&self) -> (folders: Vec<String>)
        ensures
            folders@.len() == 4,
            folders@[0]@ == joined(text_or(self.out_dir, "."@), DOWNLOAD_FOLDER@),
            folders@[1]@ == joined(text_or(self.out_dir, "."@), UPSCALE_FOLDER@),
            folders@[2]@ == joined(text_or(self.out_dir, "."@), RESULT_FOLDER@),
            folders@[3]@ == joined(text_or(self.out_dir, "."@), CROP_FOLDER@),
    {
        let mut folders: Vec<String> = Vec::new();
        folders.push(self.download_folder());
        folders.push(self.upscale_folder());
        folders.push(self.result_folder());
        folders.push(self.crop_folder());
        folders
    }
}

} // verus!
