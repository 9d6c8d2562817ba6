//! Where the service keeps its files: paths joined as `PathBuf::join` joins
//! them on POSIX systems. On Windows, where the service normally runs,
//! `PathBuf::join` writes `\` between the parts and knows drive prefixes;
//! the paths built here use `/`, which Windows accepts as a separator too,
//! so they name the same files but read differently.
use vstd::prelude::*;

use crate::decimal::push_char;

verus! {

/// `name` joined onto `base`: an absolute `name` replaces `base`; otherwise
/// `name` follows `base`, with a `/` between them unless `base` is empty or
/// already ends with one.
pub open spec fn spec_path_join(base: Seq<char>, name: Seq<char>) -> Seq<char> {
    if name.len() > 0 && name[0] == '/' {
        name
    } else if base.len() == 0 || base.last() == '/' {
        base + name
    } else {
        base.push('/') + name
    }
}

/// `name` joined onto `base`.
pub fn path_join(base: &str, name: &str) -> (res: String)
    ensures
        res@ == spec_path_join(base@, name@),
{
    let name_len = name.unicode_len();
    if name_len > 0 && name.get_char(0) == '/' {
        return String::from_str(name);
    }
    let base_len = base.unicode_len();
    let mut out = String::from_str(base);
    if base_len > 0 && base.get_char(base_len - 1) != '/' {
        push_char(&mut out, '/');
    }
    out.append(name);
    out
}

/// The job database inside the service's directory.
pub fn db(avc_dir: &str) -> (res: String)
    ensures
        res@ == spec_path_join(avc_dir@, "jobs.db"@),
{
    path_join(avc_dir, "jobs.db")
}

} // verus!
