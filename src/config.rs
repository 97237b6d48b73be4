use vstd::prelude::*;

verus! {

/// Locations used by a notebook: private state, the search index and the notes.
#[derive(Debug)]
pub struct Config {
    pub state: String,
    pub index: String,
    pub notes: String,
}

impl Config {
    /// A configuration from explicit locations.
    pub fn new(index: &str, notes: &str, state: &str) -> (r: Config)
        ensures
            r.index@ == index@,
            r.notes@ == notes@,
            r.state@ == state@,
    {
        Config {
            state: state.to_owned(),
            index: index.to_owned(),
            notes: notes.to_owned(),
        }
    }

    /// The built-in configuration used when no configuration file exists.
    pub fn default() -> (r: Config)
        ensures
            r.state@ == "/tmp/nb"@,
            r.index@ == "/tmp/nb/index"@,
            r.notes@ == "/tmp/notes"@,
    {
        Config {
            state: "/tmp/nb".to_owned(),
            index: "/tmp/nb/index".to_owned(),
            notes: "/tmp/notes".to_owned(),
        }
    }
}

/// The heap directory to work on: the explicit choice, else the one named by
/// the environment, else the working directory.
pub fn select_heap_path(flag: Option<String>, env: Option<String>, cwd: Option<String>) -> (r:
    Option<String>)
    ensures
        r == if flag is Some {
            flag
        } else if env is Some {
            env
        } else {
            cwd
        },
{
    match flag {
        Some(f) => Some(f),
        None => match env {
            Some(e) => Some(e),
            None => cwd,
        },
    }
}

} // verus!
