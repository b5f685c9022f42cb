//! Settings that are whole numbers or paths: where the workspace's own
//! settings file is, and the accepted number of requests between long
//! pauses.

use vstd::prelude::*;
use crate::convert::string_views;

verus! {

/// `<root>/.narou/local_setting.yaml`.
pub fn local_setting_path(workspace_root: &str) -> (res: Vec<String>)
    ensures
        string_views(res@) == seq![workspace_root@, ".narou"@, "local_setting.yaml"@],
{
    let mut path: Vec<String> = Vec::new();
    path.push(String::from_str(workspace_root));
    path.push(String::from_str(".narou"));
    path.push(String::from_str("local_setting.yaml"));
    assert(string_views(path@) =~= seq![workspace_root@, ".narou"@, "local_setting.yaml"@]);
    path
}

/// The number of requests between long pauses when none is configured.
pub const DEFAULT_WAIT_STEPS: u64 = 10;

pub open spec fn wait_steps_spec(value: u64) -> u64 {
    if 1 <= value <= 10 {
        value
    } else {
        DEFAULT_WAIT_STEPS
    }
}

/// A configured `download.wait-steps`: kept from 1 to 10, the default
/// otherwise.
pub fn normalize_wait_steps(value: u64) -> (res: u64)
    ensures
        res == wait_steps_spec(value),
        1 <= res <= 10,
{
    if value == 0 {
        DEFAULT_WAIT_STEPS
    } else if value <= 10 {
        value
    } else {
        DEFAULT_WAIT_STEPS
    }
}

} // verus!
