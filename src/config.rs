//! The two text sources and the choice between them.
use vstd::prelude::*;
use crate::args::Args;
use crate::data::Data;
use crate::task::Task;

verus! {

/// The paths of the two files that text can be loaded from. Finding them on
/// disk and reading them is left to the caller.
pub struct Config {
    file_1: String,
    file_2: String,
}

impl Config {
    /// The path of the first file.
    pub closed spec fn file_1_spec(&self) -> Seq<char> {
        self.file_1@
    }

    /// The path of the second file.
    pub closed spec fn file_2_spec(&self) -> Seq<char> {
        self.file_2@
    }

    /// Holds the paths of the two files.
    pub fn new(file_1: String, file_2: String) -> (r: Self)
        ensures
            r.file_1_spec() == file_1@,
            r.file_2_spec() == file_2@,
    {
        Self { file_1, file_2 }
    }

    /// The path of the first file.
    pub fn get_file_1_path(&self) -> (r: &String)
        ensures
            r@ == self.file_1_spec(),
    {
        &self.file_1
    }

    /// The path of the second file.
    pub fn get_file_2_path(&self) -> (r: &String)
        ensures
            r@ == self.file_2_spec(),
    {
        &self.file_2
    }

    /// The file that `arg` reads from: the first for `Args::P`, the second
    /// for `Args::S`.
    pub fn source_path(&self, arg: Args) -> (r: &String)
        ensures
            arg == Args::P ==> r@ == self.file_1_spec(),
            arg == Args::S ==> r@ == self.file_2_spec(),
    {
        match arg {
            Args::P => self.get_file_1_path(),
            Args::S => self.get_file_2_path(),
        }
    }

    /// Pairs the contents loaded from `source_path(arg)` with the task that
    /// `arg` selects; empty contents mean that there is no data, and give
    /// `None`.
    pub fn run(&self, arg: Args, contents: String) -> (r: Option<(Data, Task)>)
        ensures
            r is None <==> contents@.len() == 0,
            r matches Some((d, t)) ==> d@ == contents@ && t@ == arg,
    {
        if contents.as_str().is_empty() {
            return None;
        }
        let data = Data::new(contents);
        let task = Task::new(arg);
        Some((data, task))
    }
}

} // verus!
