//! Where the wrapper keeps its own files: the per-user data directory, the
//! launcher log and the spawn-error log.

use vstd::prelude::*;
use crate::paths::{path_join, spec_path_join};
use crate::text::{spec_trim, trim};

verus! {

broadcast use vstd::string::group_string_axioms;

/// The variable's value is present and not blank.
pub open spec fn usable(v: Option<Seq<char>>) -> bool {
    v is Some && spec_trim(v->0).len() > 0
}

/// The data directory: under `%LOCALAPPDATA%`, else under
/// `%USERPROFILE%\AppData\Local`, else under the temporary directory.
pub open spec fn spec_appdata_dir(
    local_app_data: Option<Seq<char>>,
    user_profile: Option<Seq<char>>,
    temp_dir: Seq<char>,
) -> Seq<char> {
    if usable(local_app_data) {
        spec_path_join(local_app_data->0, "fk_kuro_launcher"@)
    } else if usable(user_profile) {
        spec_path_join(
            spec_path_join(spec_path_join(user_profile->0, "AppData"@), "Local"@),
            "fk_kuro_launcher"@,
        )
    } else {
        spec_path_join(temp_dir, "fk_kuro_launcher"@)
    }
}

fn usable_value(v: Option<&str>) -> (b: bool)
    ensures
        b == usable(crate::paths::opt_str_view(v)),
{
    match v {
        Some(s) => !trim(s).as_str().is_empty(),
        None => false,
    }
}

/// The wrapper's data directory, from the values of `LOCALAPPDATA` and
/// `USERPROFILE` (when set) and the system's temporary directory.
pub fn get_appdata_dir(local_app_data: Option<&str>, user_profile: Option<&str>, temp_dir: &str) -> (dir: String)
    ensures
        dir@ == spec_appdata_dir(
            crate::paths::opt_str_view(local_app_data),
            crate::paths::opt_str_view(user_profile),
            temp_dir@,
        ),
{
    if usable_value(local_app_data) {
        match local_app_data {
            Some(local) => path_join(local, "fk_kuro_launcher"),
            None => path_join(temp_dir, "fk_kuro_launcher"),
        }
    } else if usable_value(user_profile) {
        match user_profile {
            Some(profile) => {
                let app_data = path_join(profile, "AppData");
                let local = path_join(app_data.as_str(), "Local");
                path_join(local.as_str(), "fk_kuro_launcher")
            },
            None => path_join(temp_dir, "fk_kuro_launcher"),
        }
    } else {
        path_join(temp_dir, "fk_kuro_launcher")
    }
}

/// The launcher log inside the data directory.
pub fn get_launcher_log_path(appdata_dir: &str) -> (p: String)
    ensures
        p@ == spec_path_join(appdata_dir@, "launcher.log"@),
{
    path_join(appdata_dir, "launcher.log")
}

/// The spawn-error log inside the data directory.
pub fn error_log_path(appdata_dir: &str) -> (p: String)
    ensures
        p@ == spec_path_join(appdata_dir@, "fk_kuro_launcher_error.log"@),
{
    path_join(appdata_dir, "fk_kuro_launcher_error.log")
}

} // verus!
