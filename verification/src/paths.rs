use vstd::prelude::*;

verus! {

/// Join a directory and an entry name with a single separator.
pub fn join_path(dir: &str, name: &str) -> (r: String)
    ensures
        r@ == dir@ + "/"@ + name@,
{
    let mut out = String::from_str(dir);
    out.append("/");
    out.append(name);
    out
}

/// The fixed name of the state file inside the application's directory.
pub fn state_file_name() -> (r: String)
    ensures
        r@ == ".window-state"@,
{
    String::from_str(".window-state")
}

/// The full path of the state file under a given configuration root:
/// `<root>/<app-name>/.window-state`.
pub fn state_path(config_root: &str, app_name: &str) -> (r: String)
    ensures
        r@ == config_root@ + "/"@ + app_name@ + "/"@ + ".window-state"@,
{
    let mut out = String::from_str(config_root);
    out.append("/");
    out.append(app_name);
    out.append("/");
    out.append(".window-state");
    out
}

/// The state file's path for this application, under the platform's
/// configuration root. `None` when the platform names no such root, which is
/// fatal at startup.
pub fn resolve_state_path(app_name: &str) -> (r: Option<String>)
    ensures
        r matches Some(p) ==> exists|root: Seq<char>|
            p@ == #[trigger] (root + "/"@ + app_name@ + "/"@ + ".window-state"@),
{
    match crate::external::config_root_dir() {
        None => None,
        Some(root) => {
            let p = state_path(root.as_str(), app_name);
            proof {
                assert(p@ == root@ + "/"@ + app_name@ + "/"@ + ".window-state"@);
            }
            Some(p)
        },
    }
}

} // verus!
