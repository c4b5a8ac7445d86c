//! Scanning a set of workflow files: which files are read, which paths are
//! left out, and how the tasks of all files are gathered.
use crate::domain::update::UpdateTask;
use crate::error::PinnerError;
use crate::scanner::parser::{file_name, path_file_name, TaskView};
use crate::scanner::tasks::{file_tasks, find_tasks, tasks_view};
use crate::text::{chars_of, concat, has_prefix, last_index_of, rfind_char, slice_chars, starts_with, str_eq, string_of};
use vstd::prelude::*;

verus! {

/// The extension of a file name as `std::path::Path::extension` reads it:
/// what follows the last dot, unless that dot starts the name.
pub open spec fn extension_of(name: Seq<char>) -> Option<Seq<char>> {
    match last_index_of(name, '.') {
        Some(k) => if k == 0 {
            None
        } else {
            Some(name.subrange(k + 1, name.len() as int))
        },
        None => None,
    }
}

/// A path names a YAML file: its extension is `yml` or `yaml`.
pub open spec fn yaml_file(path: Seq<char>) -> bool {
    match path_file_name(path) {
        Some(n) => match extension_of(n) {
            Some(e) => e == "yml"@ || e == "yaml"@,
            None => false,
        },
        None => false,
    }
}

/// The walk override for an ignore entry: an exclusion (`!pattern`), unless
/// the entry is one already.
pub open spec fn exclusion(p: Seq<char>) -> Seq<char> {
    if has_prefix(p, "!"@) {
        p
    } else {
        "!"@ + p
    }
}

/// Files as values: path and content.
pub open spec fn files_view(fs: Seq<(String, String)>) -> Seq<(Seq<char>, Seq<char>)> {
    fs.map_values(|f: (String, String)| (f.0@, f.1@))
}

/// The tasks of the files in order, or the message of the first file whose
/// scan fails.
pub open spec fn collected(files: Seq<(Seq<char>, Seq<char>)>, ignore_list: Seq<Seq<char>>) -> Result<Seq<TaskView>, Seq<char>>
    decreases files.len(),
{
    if files.len() == 0 {
        Ok(Seq::empty())
    } else {
        match collected(files.drop_last(), ignore_list) {
            Err(m) => Err(m),
            Ok(ts) => match file_tasks(files.last().0, files.last().1, ignore_list) {
                Ok(v) => Ok(ts + v),
                Err(m) => Err(m),
            },
        }
    }
}

/// Whether a path names a YAML file (see [`yaml_file`]).
pub fn is_yaml_path(path: &str) -> (r: bool)
    ensures
        r == yaml_file(path@),
{
    match file_name(path) {
        Some(n) => {
            let v = chars_of(n.as_str());
            match rfind_char(&v, '.') {
                Some(k) => {
                    if k == 0 {
                        false
                    } else {
                        let e = string_of(&slice_chars(&v, k + 1, v.len()));
                        assert(e@ =~= v@.subrange(k + 1, v@.len() as int));
                        str_eq(e.as_str(), "yml") || str_eq(e.as_str(), "yaml")
                    }
                },
                None => false,
            }
        },
        None => false,
    }
}

/// Collects the update tasks of the workflow files below a set of paths.
pub struct Scanner {
    /// Glob patterns of dependencies (and paths) to leave out.
    pub ignore_list: Vec<String>,
}

impl Scanner {
    pub fn new(ignore_list: Vec<String>) -> (r: Self)
        ensures
            r.ignore_list@ == ignore_list@,
    {
        Scanner { ignore_list }
    }

    /// The overrides of the directory walk, one per ignore entry (see
    /// [`exclusion`]).
    pub fn override_patterns(&self) -> (r: Vec<String>)
        ensures
            r@.map_values(|s: String| s@) == self.ignore_list@.map_values(|s: String| exclusion(s@)),
    {
        let mut out: Vec<String> = Vec::new();
        let mut i: usize = 0;
        while i < self.ignore_list.len()
            invariant
                0 <= i <= self.ignore_list.len(),
                out@.map_values(|s: String| s@) == self.ignore_list@.take(i as int).map_values(|s: String| exclusion(s@)),
            decreases self.ignore_list.len() - i,
        {
            let p = &self.ignore_list[i];
            let q = if starts_with(&chars_of(p.as_str()), &chars_of("!")) {
                p.clone()
            } else {
                concat("!", p.as_str())
            };
            let ghost before = out@.map_values(|s: String| s@);
            out.push(q);
            assert(out@.map_values(|s: String| s@) =~= before.push(exclusion(p@)));
            assert(self.ignore_list@.take(i + 1).map_values(|s: String| exclusion(s@)) =~= self.ignore_list@.take(
                i as int,
            ).map_values(|s: String| exclusion(s@)).push(exclusion(p@)));
            i = i + 1;
        }
        assert(self.ignore_list@.take(self.ignore_list.len() as int) =~= self.ignore_list@);
        out
    }

    /// The tasks of the files read by the walk (path and content, in walk
    /// order), and the files themselves; the first file that fails to scan
    /// fails the whole (see [`collected`]).
    pub fn collect_from_files(&self, files: Vec<(String, String)>) -> (r: Result<(Vec<UpdateTask>, Vec<(String, String)>), PinnerError>)
        ensures
            match collected(files_view(files@), self.ignore_list@.map_values(|s: String| s@)) {
                Ok(v) => r matches Ok((ts, fs)) && tasks_view(ts@) == v && files_view(fs@) == files_view(files@),
                Err(m) => r matches Err(PinnerError::Parse(e)) && e@ == m,
            },
    {
        let ghost fv = files_view(files@);
        let ghost ig = self.ignore_list@.map_values(|s: String| s@);
        let mut tasks: Vec<UpdateTask> = Vec::new();
        let mut i: usize = 0;
        assert(fv.take(0) =~= Seq::<(Seq<char>, Seq<char>)>::empty());
        assert(tasks_view(tasks@) =~= Seq::<TaskView>::empty());
        while i < files.len()
            invariant
                0 <= i <= files.len(),
                fv == files_view(files@),
                ig == self.ignore_list@.map_values(|s: String| s@),
                collected(fv.take(i as int), ig) == Ok::<Seq<TaskView>, Seq<char>>(tasks_view(tasks@)),
            decreases files.len() - i,
        {
            let f = &files[i];
            assert(fv.take(i + 1).drop_last() =~= fv.take(i as int));
            assert(fv.take(i + 1).last() == (f.0@, f.1@));
            match find_tasks(f.0.as_str(), f.1.as_str(), &self.ignore_list) {
                Ok(ts) => {
                    let ghost before = tasks_view(tasks@);
                    let mut ts = ts;
                    tasks.append(&mut ts);
                    assert(tasks_view(tasks@) =~= before + file_tasks(f.0@, f.1@, ig)->Ok_0);
                },
                Err(e) => {
                    proof {
                        lemma_collected_error(fv, ig, i as int);
                    }
                    return Err(e);
                },
            }
            i = i + 1;
        }
        assert(fv.take(files.len() as int) =~= fv);
        Ok((tasks, files))
    }
}

/// An error at file `i`, after files that all scan, is the error of all.
proof fn lemma_collected_error(fv: Seq<(Seq<char>, Seq<char>)>, ig: Seq<Seq<char>>, i: int)
    requires
        0 <= i < fv.len(),
        collected(fv.take(i), ig) is Ok,
        file_tasks(fv[i].0, fv[i].1, ig) is Err,
    ensures
        collected(fv, ig) == Err::<Seq<TaskView>, Seq<char>>(file_tasks(fv[i].0, fv[i].1, ig)->Err_0),
    decreases fv.len() - i,
{
    if i + 1 == fv.len() {
        assert(fv.drop_last() =~= fv.take(i));
    } else {
        assert(fv.drop_last().take(i) =~= fv.take(i));
        lemma_collected_error(fv.drop_last(), ig, i);
    }
}

} // verus!
