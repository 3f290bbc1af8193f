//! The user's configuration and the start-up plan that says where it lives.
use vstd::prelude::*;

use crate::text::concat_str;

verus! {

/// What the presence shows and how often it is refreshed.
///
/// `project_format` has `%%` replaced by the project's name; `plugin_format`
/// has `%x` replaced by the number of open plugin windows whose title begins
/// with `plugin` (case sensitive) and `%y` by `plugin`. `update_rate` is in
/// seconds; `app_id` is the Discord application shown on the profile.
#[derive(Debug)]
pub struct Config {
    pub project_format: String,
    pub plugin_format: String,
    pub plugin: String,
    pub update_rate: u64,
    pub app_id: i64,
}

impl Default for Config {
    fn default() -> (c: Self)
        ensures
            c.project_format@ == "working on %%"@,
            c.plugin_format@ == "%x %y open"@,
            c.plugin@ == "OTT"@,
            c.update_rate == 10,
            c.app_id == 1168141266517766175,
    {
        Config {
            project_format: "working on %%".to_owned(),
            plugin_format: "%x %y open".to_owned(),
            plugin: "OTT".to_owned(),
            update_rate: 10,
            app_id: 1168141266517766175,
        }
    }
}

/// Where log records go.
pub enum LogTarget {
    /// One file per day inside this folder.
    DailyFiles(String),
    /// Appended to this one file.
    SingleFile(String),
}

/// What start-up has to do before the configuration can be read.
pub struct SetupPlan {
    /// The folder under `%APPDATA%` that this application owns.
    pub app_folder: String,
    /// The folder for daily log files inside `app_folder`.
    pub log_folder: String,
    /// Whether `log_folder` must be created and a default configuration
    /// written to `config_file` first.
    pub create_defaults: bool,
    /// The configuration file to read.
    pub config_file: String,
    /// Where log records go.
    pub log: LogTarget,
}

/// The folder name appended to the `APPDATA` directory.
pub open spec fn app_folder_of(appdata: Seq<char>) -> Seq<char> {
    appdata + "\\discordloops"@
}

/// Law: the application's folder is the `APPDATA` path itself, every
/// character kept, followed by the 13 characters `\discordloops`.
pub proof fn lemma_app_folder(appdata: Seq<char>)
    ensures
        app_folder_of(appdata).len() == appdata.len() + 13,
        app_folder_of(appdata).take(appdata.len() as int) == appdata,
        app_folder_of(appdata).skip(appdata.len() as int) == "\\discordloops"@,
        forall|i: int| 0 <= i < appdata.len() ==> app_folder_of(appdata)[i] == appdata[i],
{
    reveal_strlit("\\discordloops");
    assert(app_folder_of(appdata).take(appdata.len() as int) =~= appdata);
    assert(app_folder_of(appdata).skip(appdata.len() as int) =~= "\\discordloops"@);
}

/// The configuration file next to the executable.
pub open spec fn local_config_path() -> Seq<char> {
    ".\\config.json"@
}

/// The log file next to the executable.
pub open spec fn local_log_path() -> Seq<char> {
    ".\\logs.txt"@
}

/// `%APPDATA%\discordloops`, given the value of `APPDATA`.
pub fn get_appdata_folder(appdata: &str) -> (folder: String)
    ensures
        folder@ == app_folder_of(appdata@),
{
    concat_str(appdata, "\\discordloops")
}

/// Decides where the configuration and the logs live.
///
/// A `config.json` next to the executable wins: it is read and logs go to
/// `logs.txt` beside it. Otherwise both live in `%APPDATA%\discordloops`
/// (configuration in `config.json`, daily logs in `logs`), and when that
/// folder does not exist yet it is created with a default configuration.
pub fn plan_setup(appdata: &str, app_folder_exists: bool, local_config_exists: bool) -> (plan: SetupPlan)
    ensures
        plan.app_folder@ == app_folder_of(appdata@),
        plan.log_folder@ == app_folder_of(appdata@) + "\\logs"@,
        local_config_exists ==> {
            &&& !plan.create_defaults
            &&& plan.config_file@ == local_config_path()
            &&& plan.log matches LogTarget::SingleFile(f) && f@ == local_log_path()
        },
        !local_config_exists ==> {
            &&& plan.create_defaults == !app_folder_exists
            &&& plan.config_file@ == app_folder_of(appdata@) + "\\config.json"@
            &&& plan.log matches LogTarget::DailyFiles(d) && d@ == app_folder_of(appdata@) + "\\logs"@
        },
{
    let app_folder = get_appdata_folder(appdata);
    let log_folder = concat_str(app_folder.as_str(), "\\logs");
    if local_config_exists {
        SetupPlan {
            app_folder,
            log_folder,
            create_defaults: false,
            config_file: ".\\config.json".to_owned(),
            log: LogTarget::SingleFile(".\\logs.txt".to_owned()),
        }
    } else {
        let config_file = concat_str(app_folder.as_str(), "\\config.json");
        let daily = log_folder.clone();
        SetupPlan {
            app_folder,
            log_folder,
            create_defaults: !app_folder_exists,
            config_file,
            log: LogTarget::DailyFiles(daily),
        }
    }
}

} // verus!
