//! Settings for reaching the database.

use vstd::prelude::*;

verus! {

/// Where the database is and whom to connect as.
pub struct Config {
    pub dbhost: String,
    pub dbname: String,
    pub dbuser: String,
    pub dbpass: String,
}

/// The connect string of a database `name` on `host`: `//host/name`.
pub open spec fn connect_text(host: Seq<char>, name: Seq<char>) -> Seq<char> {
    "//"@ + host + "/"@ + name
}

impl Config {
    /// The connect string of the configured database.
    pub fn connect_string(&self) -> (r: String)
        ensures
            r@ == connect_text(self.dbhost@, self.dbname@),
    {
        let mut s = String::from_str("//");
        s.append(self.dbhost.as_str());
        s.append("/");
        s.append(self.dbname.as_str());
        proof {
            reveal_strlit("//");
            reveal_strlit("/");
        }
        s
    }
}

} // verus!
