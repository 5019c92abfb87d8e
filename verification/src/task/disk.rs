//! How tasks lie on disk: one `task_<id>.json` file per task, and the snapshot of those
//! files that a failed operation is rolled back to.
use vstd::prelude::*;

use crate::runtime::execution_context::{lemma_name_lt_asym, lemma_name_lt_trans, name_less, name_lt};
use crate::text::{begins_with, decimal, finishes_with, has_prefix, has_suffix, push_decimal, string_views};

verus! {

broadcast use vstd::seq_lib::group_to_multiset_ensures;

/// A task file's name: `task_`, then anything, then `.json`.
pub open spec fn spec_is_task_file(name: Seq<char>) -> bool {
    begins_with(name, "task_"@) && finishes_with(name, ".json"@)
}

/// Whether a file named `name` holds a task.
pub fn is_task_file(name: &str) -> (r: bool)
    ensures
        r == spec_is_task_file(name@),
{
    has_prefix(name, "task_") && has_suffix(name, ".json")
}

/// The name of the file that holds task `id`.
pub open spec fn task_file(id: u64) -> Seq<char> {
    "task_"@ + decimal(id as nat) + ".json"@
}

/// `task_<id>.json`.
pub fn task_file_name(id: u64) -> (r: String)
    ensures
        r@ == task_file(id),
{
    let mut s = "task_".to_owned();
    push_decimal(&mut s, id);
    s.append(".json");
    s
}

/// Every file a task is written to is read back as a task file.
pub proof fn law_task_files_are_recognized(id: u64)
    ensures
        spec_is_task_file(task_file(id)),
{
    reveal_strlit("task_");
    reveal_strlit(".json");
    let name = task_file(id);
    assert(name.subrange(0, 5) =~= "task_"@);
    assert(name.subrange(name.len() - 5, name.len() as int) =~= ".json"@);
}

pub open spec fn file_views(files: Seq<(String, String)>) -> Seq<(Seq<char>, Seq<char>)> {
    files.map_values(|f: (String, String)| (f.0@, f.1@))
}

/// No file sorts before an earlier one.
pub open spec fn names_ordered(files: Seq<(Seq<char>, Seq<char>)>) -> bool {
    forall|i: int, j: int| 0 <= i < j < files.len() ==> !name_lt(#[trigger] files[j].0, #[trigger] files[i].0)
}

pub open spec fn task_file_pred() -> spec_fn((Seq<char>, Seq<char>)) -> bool {
    |f: (Seq<char>, Seq<char>)| spec_is_task_file(f.0)
}

/// Every file of `files` is a task file.
pub open spec fn all_task_files(files: Seq<(Seq<char>, Seq<char>)>) -> bool {
    forall|k: int| 0 <= k < files.len() ==> spec_is_task_file(#[trigger] files[k].0)
}

pub open spec fn task_name_pred() -> spec_fn(Seq<char>) -> bool {
    |n: Seq<char>| spec_is_task_file(n)
}

/// The names among `names` that name task files, in order.
pub fn task_files_among(names: &Vec<String>) -> (r: Vec<String>)
    ensures
        string_views(r@) == string_views(names@).filter(task_name_pred()),
{
    let ghost src = string_views(names@);
    let mut out: Vec<String> = Vec::new();
    let mut i: usize = 0;
    while i < names.len()
        invariant
            i <= names@.len(),
            src == string_views(names@),
            string_views(out@) == src.take(i as int).filter(task_name_pred()),
        decreases names.len() - i,
    {
        proof {
            crate::text::lemma_filter_step(src, i as int, task_name_pred());
        }
        if is_task_file(names[i].as_str()) {
            let ghost before = out@;
            out.push(names[i].clone());
            assert(string_views(out@) =~= string_views(before).push(src[i as int]));
        }
        i += 1;
    }
    assert(src.take(names@.len() as int) =~= src);
    out
}

// ---------------------------------------------------------------- the directory model

/// `dir` (file name to content) after writing `files` in order: a later file replaces an
/// earlier one of the same name.
pub open spec fn written(dir: Map<Seq<char>, Seq<char>>, files: Seq<(Seq<char>, Seq<char>)>) -> Map<
    Seq<char>,
    Seq<char>,
>
    decreases files.len(),
{
    if files.len() == 0 {
        dir
    } else {
        written(dir, files.drop_last()).insert(files.last().0, files.last().1)
    }
}

/// The task files of `dir`.
pub open spec fn task_part(dir: Map<Seq<char>, Seq<char>>) -> Map<Seq<char>, Seq<char>> {
    dir.restrict(dir.dom().filter(task_name_pred()))
}

/// `dir` after a restore: the files named in `remove` deleted, then the files `write` written.
pub open spec fn after_restore(
    dir: Map<Seq<char>, Seq<char>>,
    remove: Seq<Seq<char>>,
    write: Seq<(Seq<char>, Seq<char>)>,
) -> Map<Seq<char>, Seq<char>> {
    written(dir.remove_keys(remove.to_set()), write)
}

proof fn lemma_written_task_part(d: Map<Seq<char>, Seq<char>>, fs: Seq<(Seq<char>, Seq<char>)>)
    requires
        all_task_files(fs),
    ensures
        task_part(written(d, fs)) == written(task_part(d), fs),
        forall|n: Seq<char>|
            !spec_is_task_file(n) ==> (#[trigger] written(d, fs).dom().contains(n) == d.dom().contains(n)),
        forall|n: Seq<char>|
            !spec_is_task_file(n) && d.dom().contains(n) ==> #[trigger] written(d, fs)[n] == d[n],
    decreases fs.len(),
{
    if fs.len() > 0 {
        let rest = fs.drop_last();
        assert(all_task_files(rest)) by {
            assert forall|k: int| 0 <= k < rest.len() implies spec_is_task_file(#[trigger] rest[k].0) by {
                assert(rest[k] == fs[k]);
            }
        }
        lemma_written_task_part(d, rest);
        let m = written(d, rest);
        let last = fs.last();
        assert(spec_is_task_file(fs[fs.len() - 1].0));
        assert(task_part(m.insert(last.0, last.1)) =~= task_part(m).insert(last.0, last.1));
    } else {
        assert(written(d, fs) == d);
    }
}

/// Restoring a snapshot over any directory leaves exactly the snapshot's task files (each
/// name holding what writing the snapshot's files in order gives it), and every other file as
/// it was.
pub proof fn law_restore_puts_back_snapshot(
    dir: Map<Seq<char>, Seq<char>>,
    present: Seq<Seq<char>>,
    files: Seq<(Seq<char>, Seq<char>)>,
)
    requires
        present.to_set() == dir.dom(),
        all_task_files(files),
    ensures
        task_part(after_restore(dir, present.filter(task_name_pred()), files)) == written(Map::empty(), files),
        forall|n: Seq<char>|
            !spec_is_task_file(n) ==> (#[trigger] after_restore(dir, present.filter(task_name_pred()), files).dom().contains(n)
                == dir.dom().contains(n)),
        forall|n: Seq<char>|
            !spec_is_task_file(n) && dir.dom().contains(n) ==> #[trigger] after_restore(
                dir,
                present.filter(task_name_pred()),
                files,
            )[n] == dir[n],
{
    broadcast use vstd::seq_lib::group_filter_ensures;
    let gone = present.filter(task_name_pred());
    let r = dir.remove_keys(gone.to_set());
    assert forall|n: Seq<char>| #[trigger] gone.to_set().contains(n) <==> (dir.dom().contains(n) && spec_is_task_file(n)) by {
        if gone.contains(n) {
            present.lemma_filter_contains_rev(task_name_pred(), n);
            let k = choose|k: int| 0 <= k < gone.len() && gone[k] == n;
            assert(task_name_pred()(gone[k]));
            assert(present.to_set().contains(n));
        }
        if dir.dom().contains(n) && spec_is_task_file(n) {
            assert(present.to_set().contains(n));
            let k = choose|k: int| 0 <= k < present.len() && present[k] == n;
            assert(gone.contains(present[k]));
        }
    }
    assert(task_part(r) =~= Map::<Seq<char>, Seq<char>>::empty());
    lemma_written_task_part(r, files);
}

/// The task files of a directory, by name and content, as they were at one moment.
#[derive(Debug)]
pub struct TaskDiskState {
    pub existed: bool,
    pub files: Vec<(String, String)>,
}

/// What restoring a snapshot does to the task directory, in order: delete the files named in
/// `remove`; then, when `remove_directory` holds, remove the directory if it is left empty,
/// else create it and write each file of `write`.
#[derive(Debug)]
pub struct TaskRestorePlan {
    pub remove: Vec<String>,
    pub remove_directory: bool,
    pub write: Vec<(String, String)>,
}

fn insert_by_name(files: &mut Vec<(String, String)>, entry: (String, String)) -> (p: usize)
    requires
        names_ordered(file_views(old(files)@)),
    ensures
        names_ordered(file_views(final(files)@)),
        file_views(final(files)@).to_multiset() == file_views(old(files)@).to_multiset().insert((entry.0@, entry.1@)),
        p <= old(files)@.len(),
        file_views(final(files)@) == file_views(old(files)@).insert(p as int, (entry.0@, entry.1@)),
{
    let ghost s = file_views(files@);
    let ghost ev = (entry.0@, entry.1@);
    let mut p: usize = 0;
    while p < files.len() && !name_less(entry.0.as_str(), files[p].0.as_str())
        invariant
            p <= files@.len(),
            s == file_views(files@),
            ev == (entry.0@, entry.1@),
            forall|k: int| 0 <= k < p ==> !name_lt(ev.0, #[trigger] s[k].0),
        decreases files.len() - p,
    {
        assert(s[p as int].0 == files@[p as int].0@);
        p += 1;
    }
    proof {
        assert forall|k: int| p <= k < s.len() implies !name_lt(#[trigger] s[k].0, ev.0) by {
            assert(name_lt(ev.0, s[p as int].0));
            if name_lt(s[k].0, ev.0) {
                lemma_name_lt_trans(s[k].0, ev.0, s[p as int].0);
                if k > p {
                    assert(!name_lt(s[k].0, s[p as int].0));
                } else {
                    lemma_name_lt_asym(s[k].0, s[p as int].0);
                }
            }
        }
    }
    files.insert(p, entry);
    proof {
        let n = file_views(files@);
        assert(n =~= s.insert(p as int, ev));
        assert forall|i: int, j: int| 0 <= i < j < n.len() implies !name_lt(#[trigger] n[j].0, #[trigger] n[i].0) by {
            if i < p && j < p {
            } else if i < p && j == p {
            } else if i < p && j > p {
                assert(n[j] == s[j - 1]);
            } else if i == p {
                assert(n[j] == s[j - 1]);
            } else {
                assert(n[i] == s[i - 1] && n[j] == s[j - 1]);
            }
        }
        vstd::seq_lib::to_multiset_insert(s, p as int, ev);
    }
    p
}

impl TaskDiskState {
    /// The snapshot of a directory holding `entries` (name and content of each file): its
    /// task files, in name order. A directory that did not exist holds no files.
    pub fn capture(existed: bool, entries: Vec<(String, String)>) -> (r: TaskDiskState)
        ensures
            r.existed == existed,
            names_ordered(file_views(r.files@)),
            existed ==> file_views(r.files@).to_multiset() == file_views(entries@).filter(task_file_pred()).to_multiset(),
            !existed ==> r.files@.len() == 0,
            all_task_files(file_views(r.files@)),
    {
        let mut files: Vec<(String, String)> = Vec::new();
        if !existed {
            return TaskDiskState { existed, files };
        }
        let ghost src = file_views(entries@);
        let mut i: usize = 0;
        while i < entries.len()
            invariant
                i <= entries@.len(),
                src == file_views(entries@),
                names_ordered(file_views(files@)),
                file_views(files@).to_multiset() == src.take(i as int).filter(task_file_pred()).to_multiset(),
                all_task_files(file_views(files@)),
            decreases entries.len() - i,
        {
            proof {
                crate::text::lemma_filter_step(src, i as int, task_file_pred());
            }
            if is_task_file(entries[i].0.as_str()) {
                let entry = (entries[i].0.clone(), entries[i].1.clone());
                let ghost before = file_views(files@);
                let ghost ev = (entry.0@, entry.1@);
                let p = insert_by_name(&mut files, entry);
                proof {
                    let now = file_views(files@);
                    assert forall|k: int| 0 <= k < now.len() implies spec_is_task_file(#[trigger] now[k].0) by {
                        if k < p {
                            assert(now[k] == before[k]);
                        } else if k > p {
                            assert(now[k] == before[k - 1]);
                        } else {
                            assert(now[k] == ev);
                        }
                    }
                }
            }
            i += 1;
        }
        assert(src.take(entries@.len() as int) =~= src);
        TaskDiskState { existed, files }
    }

    /// The plan that puts this snapshot back over a directory whose files are named `present`
    /// (none when it does not exist): delete its task files, then remove the directory when
    /// the snapshot says so, else write the snapshot's files.
    pub fn restore_plan(&self, present: &Vec<String>) -> (r: TaskRestorePlan)
        ensures
            string_views(r.remove@) == string_views(present@).filter(task_name_pred()),
            r.remove_directory == (!self.existed && self.files@.len() == 0),
            file_views(r.write@) == file_views(self.files@),
    {
        let remove = task_files_among(present);
        let mut write: Vec<(String, String)> = Vec::new();
        let mut i: usize = 0;
        while i < self.files.len()
            invariant
                i <= self.files@.len(),
                file_views(write@) == file_views(self.files@).take(i as int),
            decreases self.files.len() - i,
        {
            let entry = (self.files[i].0.clone(), self.files[i].1.clone());
            let ghost before = write@;
            write.push(entry);
            assert(file_views(write@) =~= file_views(before).push(file_views(self.files@)[i as int]));
            assert(file_views(self.files@).take(i + 1) =~= file_views(self.files@).take(i as int).push(
                file_views(self.files@)[i as int],
            ));
            i += 1;
        }
        assert(file_views(self.files@).take(self.files@.len() as int) =~= file_views(self.files@));
        TaskRestorePlan { remove, remove_directory: self.removes_directory(), write }
    }

    /// Restoring this snapshot removes the task directory itself: it did not exist and held
    /// no task files.
    pub fn removes_directory(&self) -> (r: bool)
        ensures
            r == (!self.existed && self.files@.len() == 0),
    {
        !self.existed && self.files.len() == 0
    }
}

} // verus!
