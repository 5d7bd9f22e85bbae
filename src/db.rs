use vstd::prelude::*;
use vstd::string::*;

verus! {

/// `dir` joined with the relative name `file`, as a path join puts them.
pub open spec fn join(dir: Seq<char>, file: Seq<char>) -> Seq<char> {
    if dir.len() == 0 {
        file
    } else if dir.last() == '/' {
        dir + file
    } else {
        dir + seq!['/'] + file
    }
}

/// The directory that holds a guild's tables.
pub open spec fn data_dir(guild: Seq<char>) -> Seq<char> {
    "./data/"@ + guild
}

/// The directory that holds the tables of `guild`.
pub fn data(guild: &str) -> (r: String)
    ensures
        r@ == data_dir(guild@),
{
    let mut r = String::from_str("./data/");
    r.append(guild);
    r
}

fn join_path(dir: &str, file: &str) -> (r: String)
    ensures
        r@ == join(dir@, file@),
{
    let n = dir.unicode_len();
    let mut r = String::from_str(dir);
    if n > 0 && dir.get_char(n - 1) != '/' {
        r.append("/");
        proof {
            reveal_strlit("/");
        }
    }
    r.append(file);
    r
}

/// The tables that each guild has.
#[derive(Debug, Clone, Copy, PartialEq, Eq, PartialOrd, Ord, Structural)]
pub enum Guild {
    Colors,
    Users,
}

impl Guild {
    pub open spec fn spec_name(self) -> Seq<char> {
        match self {
            Guild::Colors => "colors"@,
            Guild::Users => "users"@,
        }
    }

    /// The name of the table's file.
    pub open spec fn file_name(self) -> Seq<char> {
        match self {
            Guild::Colors => "colors.cdb"@,
            Guild::Users => "users.cdb"@,
        }
    }

    /// The name of the file that a rebuild of the table writes first.
    pub open spec fn tmp_file_name(self) -> Seq<char> {
        match self {
            Guild::Colors => "colors.cdb.tmp"@,
            Guild::Users => "users.cdb.tmp"@,
        }
    }

    /// The table's name.
    pub fn name(self) -> (r: &'static str)
        ensures
            r@ == self.spec_name(),
    {
        match self {
            Guild::Colors => "colors",
            Guild::Users => "users",
        }
    }

    /// The path of the table's file in the guild directory `guild`.
    pub fn path(self, guild: &str) -> (r: String)
        ensures
            r@ == join(guild@, self.file_name()),
    {
        match self {
            Guild::Colors => join_path(guild, "colors.cdb"),
            Guild::Users => join_path(guild, "users.cdb"),
        }
    }

    /// The path of the file that a rebuild of the table writes before it
    /// takes the table's place.
    pub fn tmp_path(self, guild: &str) -> (r: String)
        ensures
            r@ == join(guild@, self.tmp_file_name()),
    {
        match self {
            Guild::Colors => join_path(guild, "colors.cdb.tmp"),
            Guild::Users => join_path(guild, "users.cdb.tmp"),
        }
    }
}

} // verus!
