use vstd::prelude::*;
use crate::data_access::names_view;
use crate::text::{contains_seq, contains_str, copy_strings, first_occurrence, find_str};
use crate::validator::{ValidationError, ValidationResult};

verus! {

/// Checks the Parquet files of a dataset directory.
pub struct ParquetValidator {
    dataset_dir: String,
}

/// What one Parquet file holds.
#[derive(Debug, Clone)]
pub struct ParquetFileInfo {
    pub filename: String,
    pub num_rows: usize,
    pub num_columns: usize,
    pub columns: Vec<String>,
    pub file_size_bytes: u64,
    pub split_name: String,
}

/// The files of one split.
#[derive(Debug, Clone)]
pub struct SplitValidationInfo {
    pub split_name: String,
    pub num_files: usize,
    pub num_rows: usize,
    pub size_bytes: u64,
    pub files: Vec<ParquetFileInfo>,
}

/// What a check of a dataset directory found.
#[derive(Debug, Clone)]
pub struct DatasetValidationReport {
    pub dataset_name: String,
    pub total_files: usize,
    pub total_rows: usize,
    pub total_size_bytes: u64,
    /// One entry per split, in the order the splits first appear.
    pub splits: Vec<SplitValidationInfo>,
    pub schema_consistency: bool,
    pub validation_result: ValidationResult,
    /// A few records, each as column name and rendered value.
    pub sample_records: Vec<Vec<(String, String)>>,
}

/// A file's description as plain values.
pub struct FileView {
    pub filename: Seq<char>,
    pub num_rows: usize,
    pub num_columns: usize,
    pub columns: Seq<Seq<char>>,
    pub file_size_bytes: u64,
    pub split_name: Seq<char>,
}

impl View for ParquetFileInfo {
    type V = FileView;

    open spec fn view(&self) -> FileView {
        FileView {
            filename: self.filename@,
            num_rows: self.num_rows,
            num_columns: self.num_columns,
            columns: names_view(self.columns@),
            file_size_bytes: self.file_size_bytes,
            split_name: self.split_name@,
        }
    }
}

/// A split's summary as plain values.
pub struct SplitView {
    pub split_name: Seq<char>,
    pub num_files: nat,
    pub num_rows: nat,
    pub size_bytes: nat,
    pub files: Seq<FileView>,
}

impl View for SplitValidationInfo {
    type V = SplitView;

    open spec fn view(&self) -> SplitView {
        SplitView {
            split_name: self.split_name@,
            num_files: self.num_files as nat,
            num_rows: self.num_rows as nat,
            size_bytes: self.size_bytes as nat,
            files: self.files@.map_values(|f: ParquetFileInfo| f@),
        }
    }
}

pub open spec fn files_view(v: Seq<ParquetFileInfo>) -> Seq<FileView> {
    v.map_values(|f: ParquetFileInfo| f@)
}

pub open spec fn splits_view(v: Seq<SplitValidationInfo>) -> Seq<SplitView> {
    v.map_values(|g: SplitValidationInfo| g@)
}

/// Position of the summary of the split named `name`.
pub open spec fn split_position(groups: Seq<SplitView>, name: Seq<char>) -> Option<int>
    decreases groups.len(),
{
    if groups.len() == 0 {
        None
    } else if groups.last().split_name == name {
        Some(groups.len() - 1)
    } else {
        split_position(groups.drop_last(), name)
    }
}

pub proof fn lemma_split_position(groups: Seq<SplitView>, name: Seq<char>)
    ensures
        split_position(groups, name) is Some ==> ({
            let j = split_position(groups, name)->Some_0;
            0 <= j < groups.len() && groups[j].split_name == name
        }),
    decreases groups.len(),
{
    if groups.len() > 0 {
        lemma_split_position(groups.drop_last(), name);
    }
}

/// The summaries with one more file counted in its split's summary, or in a
/// new summary at the end where its split has none yet.
pub open spec fn add_file(groups: Seq<SplitView>, f: FileView) -> Seq<SplitView> {
    match split_position(groups, f.split_name) {
        Some(j) => groups.update(
            j,
            SplitView {
                split_name: groups[j].split_name,
                num_files: groups[j].num_files + 1,
                num_rows: groups[j].num_rows + f.num_rows as nat,
                size_bytes: groups[j].size_bytes + f.file_size_bytes as nat,
                files: groups[j].files.push(f),
            },
        ),
        None => groups.push(
            SplitView {
                split_name: f.split_name,
                num_files: 1,
                num_rows: f.num_rows as nat,
                size_bytes: f.file_size_bytes as nat,
                files: seq![f],
            },
        ),
    }
}

/// One summary per split, in the order the splits first appear among the files.
pub open spec fn grouped(files: Seq<FileView>) -> Seq<SplitView>
    decreases files.len(),
{
    if files.len() == 0 {
        Seq::empty()
    } else {
        add_file(grouped(files.drop_last()), files.last())
    }
}

pub open spec fn total_rows(files: Seq<FileView>) -> nat
    decreases files.len(),
{
    if files.len() == 0 {
        0
    } else {
        total_rows(files.drop_last()) + files.last().num_rows as nat
    }
}

pub open spec fn total_bytes(files: Seq<FileView>) -> nat
    decreases files.len(),
{
    if files.len() == 0 {
        0
    } else {
        total_bytes(files.drop_last()) + files.last().file_size_bytes as nat
    }
}

pub proof fn lemma_totals_of_prefix(files: Seq<FileView>, i: int)
    requires
        0 <= i <= files.len(),
    ensures
        total_rows(files.take(i)) <= total_rows(files),
        total_bytes(files.take(i)) <= total_bytes(files),
    decreases files.len(),
{
    if i < files.len() {
        lemma_totals_of_prefix(files.drop_last(), i);
        assert(files.drop_last().take(i) =~= files.take(i));
    } else {
        assert(files.take(i) =~= files);
    }
}

/// No summary counts more rows, bytes or files than all files together.
pub proof fn lemma_grouped_bounded(files: Seq<FileView>)
    ensures
        forall|j: int|
            0 <= j < grouped(files).len() ==> #[trigger] grouped(files)[j].num_rows <= total_rows(files)
                && grouped(files)[j].size_bytes <= total_bytes(files) && grouped(files)[j].num_files
                <= files.len(),
    decreases files.len(),
{
    if files.len() > 0 {
        let prev = files.drop_last();
        let f = files.last();
        lemma_grouped_bounded(prev);
        lemma_split_position(grouped(prev), f.split_name);
        assert forall|j: int| 0 <= j < grouped(files).len() implies #[trigger] grouped(files)[j].num_rows
            <= total_rows(files) && grouped(files)[j].size_bytes <= total_bytes(files)
            && grouped(files)[j].num_files <= files.len() by {
            if j < grouped(prev).len() {
                assert(grouped(prev)[j].num_rows <= total_rows(prev));
            }
        }
    }
}

fn copy_file(f: &ParquetFileInfo) -> (r: ParquetFileInfo)
    ensures
        r@ == f@,
{
    ParquetFileInfo {
        filename: f.filename.clone(),
        num_rows: f.num_rows,
        num_columns: f.num_columns,
        columns: copy_strings(&f.columns),
        file_size_bytes: f.file_size_bytes,
        split_name: f.split_name.clone(),
    }
}

fn find_split(groups: &Vec<SplitValidationInfo>, name: &String) -> (r: Option<usize>)
    ensures
        r is Some ==> split_position(splits_view(groups@), name@) == Some(r->Some_0 as int),
        r is None ==> split_position(splits_view(groups@), name@) is None,
{
    let ghost gv = splits_view(groups@);
    let mut i: usize = groups.len();
    assert(gv.take(i as int) =~= gv);
    while i > 0
        invariant
            i <= groups@.len(),
            gv == splits_view(groups@),
            split_position(gv, name@) == split_position(gv.take(i as int), name@),
        decreases i,
    {
        assert(gv.take(i as int).drop_last() =~= gv.take(i - 1));
        i = i - 1;
        if groups[i].split_name == *name {
            return Some(i);
        }
    }
    None
}

/// Some column name contains one of three words.
pub open spec fn some_column_mentions(columns: Seq<String>, a: Seq<char>, b: Seq<char>, c: Seq<char>) -> bool {
    exists|j: int|
        0 <= j < columns.len() && (contains_seq(#[trigger] columns[j]@, a) || contains_seq(columns[j]@, b)
            || contains_seq(columns[j]@, c))
}

/// The capabilities that a set of files offers: viewing where there is a file,
/// preview where some file has rows, search where a column is named like text,
/// filter where some file has several columns, statistics where a column is
/// named like a number.
pub open spec fn file_capabilities(infos: Seq<ParquetFileInfo>) -> ValidationResult {
    ValidationResult {
        viewer: infos.len() > 0,
        preview: exists|i: int| 0 <= i < infos.len() && #[trigger] infos[i].num_rows > 0,
        search: exists|i: int|
            0 <= i < infos.len() && some_column_mentions(
                #[trigger] infos[i].columns@,
                "term"@,
                "text"@,
                "content"@,
            ),
        filter: exists|i: int| 0 <= i < infos.len() && #[trigger] infos[i].num_columns > 1,
        statistics: exists|i: int|
            0 <= i < infos.len() && some_column_mentions(
                #[trigger] infos[i].columns@,
                "count"@,
                "id"@,
                "timestamp"@,
            ),
    }
}

/// The split a file belongs to: its name up to the first `-`, or the whole name.
pub open spec fn split_name_of(filename: Seq<char>) -> Seq<char> {
    match first_occurrence(filename, seq!['-']) {
        Some(i) => filename.subrange(0, i),
        None => filename,
    }
}

fn column_mentions(columns: &Vec<String>, a: &str, b: &str, c: &str) -> (r: bool)
    ensures
        r == some_column_mentions(columns@, a@, b@, c@),
{
    let mut j: usize = 0;
    while j < columns.len()
        invariant
            j <= columns@.len(),
            forall|k: int|
                0 <= k < j ==> !(contains_seq(#[trigger] columns@[k]@, a@) || contains_seq(columns@[k]@, b@)
                    || contains_seq(columns@[k]@, c@)),
        decreases columns.len() - j,
    {
        let col = columns[j].as_str();
        if contains_str(col, a) || contains_str(col, b) || contains_str(col, c) {
            return true;
        }
        j = j + 1;
    }
    false
}

/// The split a file belongs to, from its file name.
pub fn split_name_from_filename(filename: &str) -> (r: String)
    ensures
        r@ == split_name_of(filename@),
{
    proof {
        reveal_strlit("-");
        assert("-"@ =~= seq!['-']);
    }
    match find_str(filename, "-") {
        Some(i) => String::from_str(filename.substring_char(0, i)),
        None => String::from_str(filename),
    }
}

impl ParquetValidator {
    pub closed spec fn dir(&self) -> Seq<char> {
        self.dataset_dir@
    }

    /// A validator for a dataset directory; fails where the directory does not exist.
    pub fn new(dataset_dir: &str, dir_exists: bool) -> (r: Result<ParquetValidator, ValidationError>)
        ensures
            r is Ok <==> dir_exists,
            r is Ok ==> r->Ok_0.dir() == dataset_dir@,
            r is Err ==> r->Err_0 is DataAccessError,
    {
        if !dir_exists {
            let mut message = String::from_str("Dataset directory does not exist: ");
            message.append(dataset_dir);
            return Err(ValidationError::DataAccessError { message });
        }
        Ok(ParquetValidator { dataset_dir: String::from_str(dataset_dir) })
    }

    pub fn dataset_dir(&self) -> (r: &String)
        ensures
            r@ == self.dir(),
    {
        &self.dataset_dir
    }

    /// Summarizes the files split by split, in the order the splits first appear.
    pub fn group_by_splits(&self, file_infos: &Vec<ParquetFileInfo>) -> (r: Vec<SplitValidationInfo>)
        requires
            total_rows(files_view(file_infos@)) <= usize::MAX,
            total_bytes(files_view(file_infos@)) <= u64::MAX,
        ensures
            splits_view(r@) == grouped(files_view(file_infos@)),
    {
        let ghost fv = files_view(file_infos@);
        let mut groups: Vec<SplitValidationInfo> = Vec::new();
        let mut i: usize = 0;
        assert(splits_view(groups@) =~= grouped(fv.take(0)));
        while i < file_infos.len()
            invariant
                i <= file_infos@.len(),
                fv == files_view(file_infos@),
                total_rows(fv) <= usize::MAX,
                total_bytes(fv) <= u64::MAX,
                splits_view(groups@) == grouped(fv.take(i as int)),
            decreases file_infos.len() - i,
        {
            let ghost prefix = fv.take(i as int);
            let ghost before = splits_view(groups@);
            assert(fv.take(i + 1).drop_last() =~= prefix);
            assert(fv.take(i + 1).last() == file_infos@[i as int]@);
            proof {
                lemma_grouped_bounded(prefix);
                lemma_totals_of_prefix(fv, i + 1);
                lemma_split_position(before, file_infos@[i as int].split_name@);
            }
            let f = &file_infos[i];
            match find_split(&groups, &f.split_name) {
                Some(j) => {
                    let ghost full = groups@;
                    let g = groups.remove(j);
                    let ghost removed = groups@;
                    proof {
                        assert(g@ == before[j as int]);
                        assert(total_rows(fv.take(i + 1)) == total_rows(prefix) + f.num_rows);
                        assert(before[j as int].num_rows <= total_rows(prefix));
                        assert(before[j as int].num_files <= prefix.len());
                    }
                    let mut files = g.files;
                    files.push(copy_file(f));
                    let updated = SplitValidationInfo {
                        split_name: g.split_name,
                        num_files: g.num_files + 1,
                        num_rows: g.num_rows + f.num_rows,
                        size_bytes: g.size_bytes + f.file_size_bytes,
                        files,
                    };
                    groups.insert(j, updated);
                    proof {
                        assert(updated@.files =~= before[j as int].files.push(f@));
                        let target = before.update(j as int, updated@);
                        assert(before == splits_view(full));
                        assert(split_position(before, f@.split_name) == Some(j as int));
                        assert(updated@.split_name == before[j as int].split_name);
                        assert(updated@.num_files == before[j as int].num_files + 1);
                        assert(updated@.num_rows == before[j as int].num_rows + f.num_rows);
                        assert(updated@.size_bytes == before[j as int].size_bytes + f.file_size_bytes);
                        assert(add_file(before, f@) == target);
                        assert(removed =~= full.remove(j as int));
                        assert(groups@ =~= removed.insert(j as int, updated));
                        assert forall|t: int| 0 <= t < groups@.len() implies #[trigger] groups@[t]@ == target[t] by {
                            if t < j {
                                assert(groups@[t] == full[t]);
                            } else if t > j {
                                assert(groups@[t] == full[t]);
                            }
                        }
                        assert(splits_view(groups@) =~= add_file(before, f@));
                    }
                },
                None => {
                    let mut files: Vec<ParquetFileInfo> = Vec::new();
                    files.push(copy_file(f));
                    let fresh = SplitValidationInfo {
                        split_name: f.split_name.clone(),
                        num_files: 1,
                        num_rows: f.num_rows,
                        size_bytes: f.file_size_bytes,
                        files,
                    };
                    groups.push(fresh);
                    proof {
                        assert(fresh@.files =~= seq![f@]);
                        assert(splits_view(groups@) =~= add_file(before, f@));
                    }
                },
            }
            i = i + 1;
        }
        assert(fv.take(i as int) =~= fv);
        groups
    }

    /// The capabilities that the dataset's files offer.
    pub fn assess_capabilities(&self, file_infos: &Vec<ParquetFileInfo>) -> (r: Result<ValidationResult, ValidationError>)
        ensures
            r == Ok::<ValidationResult, ValidationError>(file_capabilities(file_infos@)),
    {
        let mut result = ValidationResult::new();
        result.viewer = file_infos.len() > 0;
        let mut i: usize = 0;
        while i < file_infos.len()
            invariant
                i <= file_infos@.len(),
                result.viewer == (file_infos@.len() > 0),
                result.preview == exists|k: int| 0 <= k < i && #[trigger] file_infos@[k].num_rows > 0,
                result.search == exists|k: int|
                    0 <= k < i && some_column_mentions(
                        #[trigger] file_infos@[k].columns@,
                        "term"@,
                        "text"@,
                        "content"@,
                    ),
                result.filter == exists|k: int| 0 <= k < i && #[trigger] file_infos@[k].num_columns > 1,
                result.statistics == exists|k: int|
                    0 <= k < i && some_column_mentions(
                        #[trigger] file_infos@[k].columns@,
                        "count"@,
                        "id"@,
                        "timestamp"@,
                    ),
            decreases file_infos.len() - i,
        {
            let info = &file_infos[i];
            result.preview = result.preview || info.num_rows > 0;
            result.search = result.search || column_mentions(&info.columns, "term", "text", "content");
            result.filter = result.filter || info.num_columns > 1;
            result.statistics = result.statistics || column_mentions(&info.columns, "count", "id", "timestamp");
            i = i + 1;
        }
        Ok(result)
    }
}

} // verus!
