//! Listings of the local directory tree.
//!
//! The caller reads the directory and says what it found; which entries are
//! shown, how they are described and in which order is decided here.

use crate::models::error::ApiError;
use crate::models::files::{FileInfo, FileType, PathProbe};
use crate::utils::text::{
    join2,
    lemma_lex_le_total,
    lemma_lex_le_transitive,
    lex_le,
    starts_with_char,
    text_le,
};
use crate::utils::paths::{parts, portable, seen_from, within};
use vstd::prelude::*;
use vstd::seq_lib::{to_multiset_build, to_multiset_insert};

verus! {

/// The file service of the local tree.
pub struct OfflineFilesRepo;

/// What the file system says of one entry of a directory.
#[derive(Debug)]
pub struct DirEntryFacts {
    /// The path of the entry.
    pub path: String,
    /// The last part of the path, where it is text.
    pub file_name: Option<String>,
    pub size: u64,
    pub is_dir: bool,
    /// The time of the last change, in seconds since the epoch.
    pub modified_secs: u64,
}

/// The order of a listing: directories before files, and within each kind by
/// name.
pub open spec fn file_le(a: FileInfo, b: FileInfo) -> bool {
    if a.is_directory != b.is_directory {
        a.is_directory
    } else {
        lex_le(a.name@, b.name@)
    }
}

/// Whether `files` stand in the order of a listing.
pub open spec fn is_sorted(files: Seq<FileInfo>) -> bool {
    forall|i: int, j: int| 0 <= i < j < files.len() ==> file_le(files[i], files[j])
}

/// Where `file` goes into the listing `sorted`: behind the last entry that
/// does not come after it.
pub open spec fn insert_point(sorted: Seq<FileInfo>, file: FileInfo) -> int
    decreases sorted.len(),
{
    if sorted.len() == 0 {
        0
    } else if file_le(sorted.last(), file) {
        sorted.len() as int
    } else {
        insert_point(sorted.drop_last(), file)
    }
}

/// `files` in the order of a listing. Entries that the order does not tell
/// apart keep the order in which they came.
pub open spec fn sorted_files(files: Seq<FileInfo>) -> Seq<FileInfo>
    decreases files.len(),
{
    if files.len() == 0 {
        files
    } else {
        let head = sorted_files(files.drop_last());
        head.insert(insert_point(head, files.last()), files.last())
    }
}

proof fn lemma_file_le_total(a: FileInfo, b: FileInfo)
    ensures
        file_le(a, b) || file_le(b, a),
{
    lemma_lex_le_total(a.name@, b.name@);
}

proof fn lemma_file_le_transitive(a: FileInfo, b: FileInfo, c: FileInfo)
    requires
        file_le(a, b),
        file_le(b, c),
    ensures
        file_le(a, c),
{
    if a.is_directory == b.is_directory && b.is_directory == c.is_directory {
        lemma_lex_le_transitive(a.name@, b.name@, c.name@);
    }
}

proof fn lemma_insert_point(sorted: Seq<FileInfo>, file: FileInfo)
    ensures
        0 <= insert_point(sorted, file) <= sorted.len(),
        insert_point(sorted, file) > 0 ==> file_le(sorted[insert_point(sorted, file) - 1], file),
        forall|k: int|
            insert_point(sorted, file) <= k < sorted.len() ==> !file_le(
                #[trigger] sorted[k],
                file,
            ),
    decreases sorted.len(),
{
    if sorted.len() > 0 && !file_le(sorted.last(), file) {
        let front = sorted.drop_last();
        lemma_insert_point(front, file);
        assert forall|k: int| insert_point(sorted, file) <= k < sorted.len() implies !file_le(
            #[trigger] sorted[k],
            file,
        ) by {
            if k < front.len() {
                assert(sorted[k] == front[k]);
            }
        }
    }
}

proof fn lemma_insert_keeps_sorted(sorted: Seq<FileInfo>, file: FileInfo)
    requires
        is_sorted(sorted),
    ensures
        is_sorted(sorted.insert(insert_point(sorted, file), file)),
{
    let at = insert_point(sorted, file);
    let after = sorted.insert(at, file);
    lemma_insert_point(sorted, file);
    assert forall|i: int, j: int| 0 <= i < j < after.len() implies file_le(after[i], after[j]) by {
        if j < at {
        } else if j == at {
            // `after[i]` stands before the entry before the insert point
            if i < at - 1 {
                lemma_file_le_transitive(sorted[i], sorted[at - 1], file);
            }
        } else if i == at {
            assert(after[j] == sorted[j - 1]);
            assert(!file_le(sorted[j - 1], file));
            lemma_file_le_total(sorted[j - 1], file);
        } else if i < at {
            assert(after[j] == sorted[j - 1]);
        } else {
            assert(after[i] == sorted[i - 1]);
            assert(after[j] == sorted[j - 1]);
        }
    }
}

/// A listing is in order.
pub proof fn lemma_sorted_files_is_sorted(files: Seq<FileInfo>)
    ensures
        is_sorted(sorted_files(files)),
        sorted_files(files).len() == files.len(),
    decreases files.len(),
{
    if files.len() > 0 {
        lemma_sorted_files_is_sorted(files.drop_last());
        lemma_insert_keeps_sorted(sorted_files(files.drop_last()), files.last());
        lemma_insert_point(sorted_files(files.drop_last()), files.last());
    }
}

/// A listing holds the entries that it was made of, each as often as it came.
pub proof fn lemma_sorted_files_is_permutation(files: Seq<FileInfo>)
    ensures
        sorted_files(files).to_multiset() == files.to_multiset(),
    decreases files.len(),
{
    if files.len() > 0 {
        let head = sorted_files(files.drop_last());
        lemma_sorted_files_is_permutation(files.drop_last());
        lemma_insert_point(head, files.last());
        to_multiset_insert(head, insert_point(head, files.last()), files.last());
        to_multiset_build(files.drop_last(), files.last());
        assert(files.drop_last().push(files.last()) =~= files);
    } else {
        assert(sorted_files(files) =~= files);
    }
}

/// A listing that is in order stays as it is.
pub proof fn lemma_sorted_files_keeps_sorted(files: Seq<FileInfo>)
    requires
        is_sorted(files),
    ensures
        sorted_files(files) == files,
    decreases files.len(),
{
    if files.len() > 0 {
        let front = files.drop_last();
        lemma_sorted_files_keeps_sorted(front);
        if front.len() > 0 {
            assert(front.last() == files[front.len() - 1]);
        }
        assert(front.insert(front.len() as int, files.last()) =~= files);
    }
}

/// `pathdiff::diff_paths`, for paths that are text: `path` as seen from
/// `base`, where there is such a path. For a path that lies in a base, both
/// read alike by every host, that is what [`seen_from`] says. For any other
/// pair nothing is claimed: where one part of a path ends follows the host's
/// path syntax.
#[verifier::external_body]
fn relative_path(path: &str, base: &str) -> (relative: Option<String>)
    ensures
        portable(path@) && portable(base@) && parts(base@).len() > 0 && within(path@, base@)
            ==> relative is Some && seen_from(path@, base@, relative->0@),
{
    pathdiff::diff_paths(path, base).map(|p| p.to_string_lossy().into_owned())
}

fn file_before(a: &FileInfo, b: &FileInfo) -> (le: bool)
    ensures
        le == file_le(*a, *b),
{
    if a.is_directory != b.is_directory {
        a.is_directory
    } else {
        text_le(a.name.as_str(), b.name.as_str())
    }
}

/// Whether an entry is shown: its name is text and does not begin with a dot.
pub open spec fn is_listed(entry: DirEntryFacts) -> bool {
    match entry.file_name {
        Some(name) => !(name@.len() > 0 && name@[0] == '.'),
        None => false,
    }
}

/// Whether `info` describes the entry `entry`, as far as the facts go.
pub open spec fn describes(info: FileInfo, entry: DirEntryFacts) -> bool {
    &&& entry.file_name is Some
    &&& info.name@ == entry.file_name->0@
    &&& info.size == entry.size
    &&& info.is_directory == entry.is_dir
    &&& info.last_modified == entry.modified_secs
    &&& (PathProbe { path: entry.path, exists: true, is_dir: entry.is_dir }).may_have_type(
        info.file_type,
    )
    &&& portable(entry.path@) ==> info.file_type == (PathProbe {
        path: entry.path,
        exists: true,
        is_dir: entry.is_dir,
    }).type_in()
    &&& info.path@.len() > 0
    &&& info.path@[0] == '/'
}

/// The entries among `entries` that are shown, in their order.
pub open spec fn listed(entries: Seq<DirEntryFacts>) -> Seq<DirEntryFacts>
    decreases entries.len(),
{
    if entries.len() == 0 {
        entries
    } else if is_listed(entries.last()) {
        listed(entries.drop_last()).push(entries.last())
    } else {
        listed(entries.drop_last())
    }
}

/// Whether `infos` describe the entries of `entries` that are shown, one by
/// one.
pub open spec fn lists(infos: Seq<FileInfo>, entries: Seq<DirEntryFacts>) -> bool {
    &&& infos.len() == listed(entries).len()
    &&& forall|k: int| 0 <= k < infos.len() ==> describes(#[trigger] infos[k], listed(entries)[k])
}

impl OfflineFilesRepo {
    /// The path of the requested directory or file: `path` appended to
    /// `base_dir`.
    pub fn source_path(base_dir: &str, path: &str) -> (full: String)
        ensures
            full@ == base_dir@ + path@,
    {
        join2(base_dir, path)
    }

    /// The listing of a directory below `base_dir` from what the file system
    /// says of the path (`is_dir`) and of its entries: the entries that are
    /// shown, each described, in the order of a listing. A path that is no
    /// directory is refused with a client error.
    pub fn get_files(base_dir: &str, is_dir: bool, entries: &Vec<DirEntryFacts>) -> (files: Result<
        Vec<FileInfo>,
        ApiError,
    >)
        ensures
            !is_dir ==> files is Err && files->Err_0.status_code == 400 && files->Err_0.message@
                == "指定的路径不是一个目录"@,
            is_dir ==> files is Ok && is_sorted(files->Ok_0@) && exists|infos: Seq<FileInfo>|
                lists(infos, entries@) && files->Ok_0@ == sorted_files(infos),
    {
        if !is_dir {
            return Err(ApiError::new(400, "指定的路径不是一个目录".to_owned()));
        }
        let mut files: Vec<FileInfo> = Vec::new();
        let mut i: usize = 0;
        proof {
            assert(entries@.take(0) =~= Seq::<DirEntryFacts>::empty());
        }
        while i < entries.len()
            invariant
                i <= entries.len(),
                lists(files@, entries@.take(i as int)),
            decreases entries.len() - i,
        {
            proof {
                assert(entries@.take(i + 1).drop_last() =~= entries@.take(i as int));
                assert(entries@.take(i + 1).last() == entries@[i as int]);
            }
            if let Ok(info) = Self::create_file_info(&entries[i], base_dir) {
                files.push(info);
            }
            i += 1;
        }
        proof {
            assert(entries@.take(entries.len() as int) =~= entries@);
            lemma_sorted_files_is_sorted(files@);
        }
        Self::sort_files(&mut files);
        Ok(files)
    }

    /// Decides on the request to delete the file `id` below `base_dir`: a file
    /// that exists is to be removed, and its path is the result; a file that
    /// does not is refused with a client error.
    pub fn delete(base_dir: &str, id: &str, exists: bool) -> (target: Result<String, ApiError>)
        ensures
            exists ==> target is Ok && target->Ok_0@ == base_dir@ + id@,
            !exists ==> target is Err && target->Err_0.status_code == 404
                && target->Err_0.message@ == "文件不存在"@,
    {
        if exists {
            Ok(join2(base_dir, id))
        } else {
            Err(ApiError::new(404, "文件不存在".to_owned()))
        }
    }

    /// The error for a file that could not be removed, for the reason
    /// `reason`.
    pub fn delete_failed(reason: &str) -> (error: ApiError)
        ensures
            error.status_code == 500,
            error.message@ == "删除文件失败: "@ + reason@,
    {
        ApiError::new(500, join2("删除文件失败: ", reason))
    }

    /// Files of the local tree are on this machine already: a request to
    /// download one is refused with a client error that names the path.
    pub fn download_file(path: &str) -> (refusal: ApiError)
        ensures
            refusal.status_code == 400,
            refusal.message@ == "离线存储库不支持下载文件, "@ + path@,
    {
        ApiError::new(400, join2("离线存储库不支持下载文件, ", path))
    }

    /// Puts `files` in the order of a listing: [`sorted_files`].
    pub fn sort_files(files: &mut Vec<FileInfo>)
        ensures
            final(files)@ == sorted_files(old(files)@),
    {
        let ghost before = files@;
        let mut i: usize = 0;
        proof {
            assert(before.take(0) =~= Seq::<FileInfo>::empty());
            assert(files@.skip(0) =~= before.skip(0));
        }
        while i < files.len()
            invariant
                i <= files.len(),
                files@.len() == before.len(),
                files@.take(i as int) == sorted_files(before.take(i as int)),
                files@.skip(i as int) == before.skip(i as int),
            decreases files.len() - i,
        {
            let ghost head = files@.take(i as int);
            let ghost rest = files@.skip(i as int);
            let file = files.remove(i);
            proof {
                assert(file == rest[0]);
                assert(file == before[i as int]);
                assert(files@ =~= head + rest.drop_first());
            }
            let mut at: usize = i;
            proof {
                assert(head.take(i as int) =~= head);
            }
            loop
                invariant
                    at <= i,
                    i <= files.len(),
                    rest.len() > 0,
                    files@ == head + rest.drop_first(),
                    head.len() == i,
                    insert_point(head, file) == insert_point(head.take(at as int), file),
                ensures
                    at == insert_point(head, file),
                decreases at,
            {
                proof {
                    assert(head.take(i as int) =~= head);
                }
                if at == 0 {
                    break ;
                }
                proof {
                    assert(head.take(at as int).last() == files@[at - 1]);
                    assert(head.take(at as int).drop_last() =~= head.take(at - 1));
                }
                if file_before(&files[at - 1], &file) {
                    break ;
                }
                at -= 1;
            }
            files.insert(at, file);
            proof {
                let grown = before.take(i + 1);
                assert(grown.drop_last() =~= before.take(i as int));
                assert(grown.last() == file);
                assert(files@.take(i + 1) =~= head.insert(at as int, file));
                assert(files@.skip(i + 1) =~= rest.drop_first());
                assert(before.skip(i + 1) =~= before.skip(i as int).drop_first());
            }
            i += 1;
        }
        proof {
            assert(files@.take(files.len() as int) =~= files@);
            assert(before.take(before.len() as int) =~= before);
        }
    }

    /// Describes an entry for a listing, given its type and its path as seen
    /// from the base directory. An entry whose name is no text is refused with
    /// a server error, a hidden one with a client error. Any other entry is
    /// described by its facts, the type, and the path behind a `/`.
    pub fn describe_entry(entry: &DirEntryFacts, file_type: FileType, relative: &str) -> (info:
        Result<FileInfo, ApiError>)
        ensures
            is_listed(*entry) ==> info is Ok && info->Ok_0.name@ == entry.file_name->0@
                && info->Ok_0.size == entry.size && info->Ok_0.file_type == file_type
                && info->Ok_0.is_directory == entry.is_dir && info->Ok_0.last_modified
                == entry.modified_secs && info->Ok_0.path@ == "/"@ + relative@,
            entry.file_name is None ==> info is Err && info->Err_0.status_code == 500
                && info->Err_0.message@ == "无效的文件名"@,
            entry.file_name is Some && !is_listed(*entry) ==> info is Err
                && info->Err_0.status_code == 400 && info->Err_0.message@ == "隐藏文件"@,
    {
        let file_name = match &entry.file_name {
            Some(name) => name,
            None => {
                return Err(ApiError::new(500, "无效的文件名".to_owned()));
            },
        };
        if starts_with_char(file_name.as_str(), '.') {
            return Err(ApiError::new(400, "隐藏文件".to_owned()));
        }
        Ok(
            FileInfo {
                name: file_name.clone(),
                size: entry.size,
                file_type,
                is_directory: entry.is_dir,
                last_modified: entry.modified_secs,
                path: join2("/", relative),
            },
        )
    }

    /// Describes one entry of a directory below `base_dir` for a listing:
    /// [`describe_entry`](OfflineFilesRepo::describe_entry), with the type
    /// that the path of the entry stands for, and with its path as seen from
    /// `base_dir`, or `base_dir` itself where there is no such path. For an
    /// entry that lies in `base_dir`, both read alike by every host, type and
    /// path are those of [`PathProbe::type_in`] and [`seen_from`].
    pub fn create_file_info(entry: &DirEntryFacts, base_dir: &str) -> (info: Result<
        FileInfo,
        ApiError,
    >)
        ensures
            is_listed(*entry) ==> info is Ok && describes(info->Ok_0, *entry),
            is_listed(*entry) && portable(entry.path@) && portable(base_dir@) && parts(
                base_dir@,
            ).len() > 0 && within(entry.path@, base_dir@) ==> exists|relative: Seq<char>|
                #[trigger] seen_from(entry.path@, base_dir@, relative) && info->Ok_0.path@ == "/"@
                    + relative,
            entry.file_name is None ==> info is Err && info->Err_0.status_code == 500
                && info->Err_0.message@ == "无效的文件名"@,
            entry.file_name is Some && !is_listed(*entry) ==> info is Err
                && info->Err_0.status_code == 400 && info->Err_0.message@ == "隐藏文件"@,
    {
        let probe = PathProbe { path: entry.path.clone(), exists: true, is_dir: entry.is_dir };
        let file_type = probe.file_type();
        let relative = match relative_path(entry.path.as_str(), base_dir) {
            Some(relative) => relative,
            None => base_dir.to_owned(),
        };
        proof {
            reveal_strlit("/");
        }
        Self::describe_entry(entry, file_type, relative.as_str())
    }
}

} // verus!
