//! The settings the editor keeps between sessions.
use vstd::prelude::*;

use std::collections::VecDeque;

use crate::path_key::{path_key, spec_path_key};

verus! {

/// How many recent files are kept.
pub const RECENT_FILES_LIMIT: usize = 50;

/// The paths of `s`.
pub open spec fn path_views(s: Seq<String>) -> Seq<Seq<char>> {
    s.map_values(|p: String| p@)
}

/// Whether two paths name the same file: they have the same components.
pub open spec fn same_path(a: Seq<char>, b: Seq<char>) -> bool {
    spec_path_key(a) == spec_path_key(b)
}

/// `s` without the entries that name the same file as `x`, the others in order.
pub open spec fn without(s: Seq<Seq<char>>, x: Seq<char>) -> Seq<Seq<char>>
    decreases s.len(),
{
    if s.len() == 0 {
        s
    } else if same_path(s.last(), x) {
        without(s.drop_last(), x)
    } else {
        without(s.drop_last(), x).push(s.last())
    }
}

/// No two entries of `s` name the same file.
pub open spec fn distinct(s: Seq<Seq<char>>) -> bool {
    forall|i: int, j: int| 0 <= i < j < s.len() ==> !same_path(s[i], s[j])
}

/// The list after adding `file_path` to `paths`: the file first, its older entries dropped,
/// at most fifty entries.
pub open spec fn spec_add(paths: Seq<Seq<char>>, file_path: Seq<char>) -> Seq<Seq<char>> {
    let rest = without(paths, file_path);
    (seq![file_path] + rest).take(vstd::math::min(RECENT_FILES_LIMIT as int, (1 + rest.len()) as int))
}

proof fn lemma_without_parts(s: Seq<Seq<char>>, x: Seq<char>)
    ensures
        without(s, x).len() <= s.len(),
        forall|k: int|
            0 <= k < without(s, x).len() ==> !same_path(#[trigger] without(s, x)[k], x) && s.contains(
                without(s, x)[k],
            ),
        distinct(s) ==> distinct(without(s, x)),
    decreases s.len(),
{
    if s.len() > 0 {
        let w = without(s.drop_last(), x);
        lemma_without_parts(s.drop_last(), x);
        assert forall|k: int| 0 <= k < w.len() implies s.contains(#[trigger] w[k]) by {
            let j = choose|j: int| 0 <= j < s.drop_last().len() && s.drop_last()[j] == w[k];
            assert(s[j] == w[k]);
        }
        if !same_path(s.last(), x) {
            assert(s.contains(s.last())) by {
                assert(s[s.len() - 1] == s.last());
            }
            if distinct(s) {
                assert forall|k: int| 0 <= k < w.len() implies !same_path(#[trigger] w[k], s.last()) by {
                    let j = choose|j: int| 0 <= j < s.drop_last().len() && s.drop_last()[j] == w[k];
                    assert(s[j] == w[k]);
                }
            }
        }
    }
}

proof fn lemma_without_kept(s: Seq<Seq<char>>, x: Seq<char>)
    requires
        forall|k: int| 0 <= k < s.len() ==> !same_path(#[trigger] s[k], x),
    ensures
        without(s, x) == s,
    decreases s.len(),
{
    if s.len() > 0 {
        lemma_without_kept(s.drop_last(), x);
        assert(s.drop_last().push(s.last()) =~= s);
    }
}

proof fn lemma_without_first(s: Seq<Seq<char>>, x: Seq<char>)
    requires
        s.len() > 0,
        same_path(s[0], x),
    ensures
        without(s, x) == without(s.drop_first(), x),
    decreases s.len(),
{
    if s.len() > 1 {
        lemma_without_first(s.drop_last(), x);
        assert(s.drop_last().drop_first() =~= s.drop_first().drop_last());
        assert(s.drop_first().last() == s.last());
    } else {
        assert(s.drop_last() =~= Seq::<Seq<char>>::empty());
        assert(s.drop_first() =~= Seq::<Seq<char>>::empty());
    }
}

/// Adding a file to a list without repeats keeps it without repeats, with the file first and
/// at most fifty entries.
pub proof fn lemma_add_keeps_distinct(paths: Seq<Seq<char>>, file_path: Seq<char>)
    requires
        distinct(paths),
    ensures
        ({
            let r = spec_add(paths, file_path);
            &&& distinct(r)
            &&& r.len() >= 1
            &&& r[0] == file_path
            &&& r.len() <= RECENT_FILES_LIMIT
        }),
{
    let rest = without(paths, file_path);
    lemma_without_parts(paths, file_path);
    let full = seq![file_path] + rest;
    assert(distinct(full)) by {
        assert forall|i: int, j: int| 0 <= i < j < full.len() implies !same_path(full[i], full[j]) by {
            if i == 0 {
                assert(full[j] == rest[j - 1]);
            } else {
                assert(full[i] == rest[i - 1] && full[j] == rest[j - 1]);
            }
        }
    }
}

/// Adding the same file twice leaves the list as adding it once.
pub proof fn lemma_add_twice(paths: Seq<Seq<char>>, file_path: Seq<char>)
    ensures
        spec_add(spec_add(paths, file_path), file_path) == spec_add(paths, file_path),
{
    let w = without(paths, file_path);
    lemma_without_parts(paths, file_path);
    let r = spec_add(paths, file_path);
    let m = vstd::math::min(RECENT_FILES_LIMIT as int, (1 + w.len()) as int);
    let tail = w.take(m - 1);
    assert(r =~= seq![file_path] + tail);
    assert(r.drop_first() =~= tail);
    lemma_without_first(r, file_path);
    assert forall|k: int| 0 <= k < tail.len() implies !same_path(#[trigger] tail[k], file_path) by {
        assert(tail[k] == w[k]);
    }
    lemma_without_kept(tail, file_path);
    assert(spec_add(r, file_path) =~= r);
}

/// Adding the file that already comes first, once and alone for its file, changes nothing.
pub proof fn lemma_add_first_unchanged(paths: Seq<Seq<char>>, file_path: Seq<char>)
    requires
        paths.len() <= RECENT_FILES_LIMIT,
        paths.len() >= 1,
        paths[0] == file_path,
        forall|k: int| 1 <= k < paths.len() ==> !same_path(#[trigger] paths[k], file_path),
    ensures
        spec_add(paths, file_path) == paths,
{
    lemma_without_first(paths, file_path);
    let rest = paths.drop_first();
    assert forall|k: int| 0 <= k < rest.len() implies !same_path(#[trigger] rest[k], file_path) by {
        assert(rest[k] == paths[k + 1]);
    }
    lemma_without_kept(rest, file_path);
    assert(spec_add(paths, file_path) =~= paths);
}

/// The recently opened files, most recent first, each once.
pub struct RecentFiles(pub VecDeque<String>);

impl RecentFiles {
    /// The paths, most recent first.
    pub open spec fn paths(&self) -> Seq<Seq<char>> {
        path_views(self.0@)
    }

    /// No recent files.
    pub fn new() -> (r: RecentFiles)
        ensures
            r.paths() == Seq::<Seq<char>>::empty(),
    {
        RecentFiles(VecDeque::new())
    }

    pub fn get(&self) -> (r: &VecDeque<String>)
        ensures
            path_views(r@) == self.paths(),
    {
        &self.0
    }

    /// Puts `file_path` first, drops its older entries (those naming the same file), and keeps
    /// the most recent fifty.
    pub fn add(&mut self, file_path: &str)
        ensures
            final(self).paths() == spec_add(old(self).paths(), file_path@),
    {
        let ghost before = self.paths();
        let path = String::from_str(file_path);
        let key = path_key(file_path);
        let mut kept: VecDeque<String> = VecDeque::new();
        let mut i: usize = 0;
        while i < self.0.len()
            invariant
                i <= self.0@.len(),
                before == path_views(self.0@),
                path@ == file_path@,
                key@ == spec_path_key(file_path@),
                path_views(kept@) == without(before.take(i as int), file_path@),
            decreases self.0@.len() - i,
        {
            let ghost prefix = before.take(i as int);
            assert(before.take(i + 1).drop_last() =~= prefix);
            if path_key(self.0[i].as_str()) != key {
                kept.push_back(self.0[i].clone());
            }
            assert(path_views(kept@) =~= without(before.take(i + 1), file_path@));
            i = i + 1;
        }
        assert(before.take(self.0@.len() as int) =~= before);
        kept.push_front(path);
        kept.truncate(RECENT_FILES_LIMIT);
        self.0 = kept;
        assert(self.paths() =~= spec_add(before, file_path@));
    }

    /// Removes the entry at `index`.
    pub fn remove(&mut self, index: usize)
        ensures
            index < old(self).paths().len() ==> final(self).paths() == old(self).paths().remove(index as int),
            index >= old(self).paths().len() ==> final(self).paths() == old(self).paths(),
    {
        if index < self.0.len() {
            self.0.remove(index);
            assert(self.paths() =~= old(self).paths().remove(index as int));
        }
    }

    pub fn clear(&mut self)
        ensures
            final(self).paths() == Seq::<Seq<char>>::empty(),
    {
        self.0.clear();
        assert(self.paths() =~= Seq::<Seq<char>>::empty());
    }

    pub fn is_empty(&self) -> (r: bool)
        ensures
            r == (self.paths().len() == 0),
    {
        self.0.len() == 0
    }
}

/// What the editor keeps between sessions.
pub struct Settings {
    pub track_export_directory: Option<String>,
    pub track_build_input_path: Option<String>,
    pub track_build_output_path: Option<String>,
    pub g1_dat_path: Option<String>,
    pub recent_track_files: RecentFiles,
}

impl Default for Settings {
    /// No paths and no recent files.
    fn default() -> (r: Settings)
        ensures
            r.track_export_directory is None,
            r.track_build_input_path is None,
            r.track_build_output_path is None,
            r.g1_dat_path is None,
            r.recent_track_files.paths().len() == 0,
    {
        Settings {
            track_export_directory: None,
            track_build_input_path: None,
            track_build_output_path: None,
            g1_dat_path: None,
            recent_track_files: RecentFiles::new(),
        }
    }
}


/// The settings with where they are kept, and whether their window is open.
pub struct AppSettings {
    pub settings: Settings,
    pub config_dir: String,
    pub settings_file_path: String,
    pub window_open: bool,
}

} // verus!
