use vstd::prelude::*;
use vstd::string::StrSliceExecFns;
use vstd::string::StringExecFns;

verus! {

/// The global configuration, immutable after construction.
pub struct Config {
    /// Directory of the configuration file; base for relative worker paths.
    pub dir: String,
    /// Shell template holding a single `%s`, filled with each worker's
    /// command string.
    pub command_template: String,
    /// Connection string of the queue backend.
    pub redis_url: String,
    /// Grace period, in seconds, before a worker without demand is stopped.
    pub timeout: u16,
}

/// A worker path resolved against the configuration directory: an absolute
/// path (leading `/`) is kept as it is, a relative one is joined under
/// `dir`.
pub open spec fn spec_resolved_path(dir: Seq<char>, path: Seq<char>) -> Seq<char> {
    if path.len() > 0 && path[0] == '/' {
        path
    } else {
        dir + "/"@ + path
    }
}

impl Config {
    /// The working directory to launch a worker in, before
    /// canonicalization: kept unchanged when absolute, else joined under the
    /// configuration file's directory.
    pub fn path_relative_to_config_dir(&self, path: &str) -> (r: String)
        ensures
            r@ == spec_resolved_path(self.dir@, path@),
    {
        let absolute = path.unicode_len() > 0 && path.get_char(0) == '/';
        if absolute {
            path.to_owned()
        } else {
            let r = self.dir.clone().concat("/").concat(path);
            proof {
                assert(r@ =~= spec_resolved_path(self.dir@, path@));
            }
            r
        }
    }
}

} // verus!
