//! Where the archive keeps its files.
use vstd::prelude::*;
use vstd::string::*;

verus! {

/// File name of the record store inside the metadata directory.
pub const META_DB_NAME: &'static str = "fantasy_db";

/// `name` placed inside the directory `dir`: joined with one slash, unless
/// `dir` is empty or already ends in one.
pub open spec fn joined(dir: Seq<char>, name: Seq<char>) -> Seq<char> {
    if dir.len() == 0 {
        name
    } else if dir.last() == '/' {
        dir + name
    } else {
        dir + seq!['/'] + name
    }
}

/// Settings of the archive.
pub struct GlobalConfig {
    /// Directory holding the archive's metadata.
    pub meta_path: String,
}

impl GlobalConfig {
    /// Path of the record store: the store's fixed name inside `meta_path`.
    pub fn db_path(&self) -> (r: String)
        ensures
            r@ == joined(self.meta_path@, META_DB_NAME@),
    {
        let n = self.meta_path.as_str().unicode_len();
        if n == 0 {
            return META_DB_NAME.to_owned();
        }
        let mut path = self.meta_path.clone();
        if self.meta_path.as_str().get_char(n - 1) != '/' {
            path.append("/");
            proof {
                reveal_strlit("/");
            }
        }
        path.append(META_DB_NAME);
        path
    }
}

} // verus!
