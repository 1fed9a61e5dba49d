use vstd::prelude::*;
use crate::parquet_validator::{split_name_from_filename, split_name_of};
use crate::text::{contains_seq, contains_str, same_text, sort_strings, sorted_strings};
use crate::validator::ValidationError;

verus! {

/// One record of the dataset.
#[derive(Debug, Clone)]
pub struct DatasetExample {
    pub id: String,
    pub term: String,
    pub count: u32,
    pub category: String,
    pub significance: String,
    pub vibe: String,
    pub action_suggestion: String,
    pub emoji_representation: Option<String>,
    pub semantic_names: Option<Vec<String>>,
    pub osi_layer: Option<String>,
    pub prime_factor: Option<u64>,
    pub is_power_of_two: Option<bool>,
    pub numerical_address: Option<String>,
    pub first_seen_timestamp: Option<u64>,
    pub last_seen_timestamp: Option<u64>,
    pub character_group: String,
}

/// The lower-case form of a text, as `str::to_lowercase` gives it.
pub uninterp spec fn lower_of(s: Seq<char>) -> Seq<char>;

/// Relies on `str::to_lowercase`: the result depends on the characters alone.
#[verifier::external_body]
fn lowercase(s: &str) -> (r: String)
    ensures
        r@ == lower_of(s@),
{
    s.to_lowercase()
}

/// The split that a file of the dataset belongs to, from its file name.
pub open spec fn file_split(f: (String, String)) -> Seq<char> {
    split_name_of(f.0@)
}

/// The paths of the files of one split, in the order given.
pub open spec fn paths_of_split(files: Seq<(String, String)>, split: Seq<char>) -> Seq<String>
    decreases files.len(),
{
    if files.len() == 0 {
        Seq::empty()
    } else {
        let prev = paths_of_split(files.drop_last(), split);
        if file_split(files.last()) == split {
            prev.push(files.last().1)
        } else {
            prev
        }
    }
}

/// The examples of a character group, in order.
pub open spec fn in_group(examples: Seq<DatasetExample>, group: Seq<char>) -> Seq<DatasetExample>
    decreases examples.len(),
{
    if examples.len() == 0 {
        Seq::empty()
    } else {
        let prev = in_group(examples.drop_last(), group);
        if examples.last().character_group@ == group {
            prev.push(examples.last())
        } else {
            prev
        }
    }
}

/// The examples whose term holds the query, ignoring case, in order.
pub open spec fn matching_term(examples: Seq<DatasetExample>, query: Seq<char>) -> Seq<DatasetExample>
    decreases examples.len(),
{
    if examples.len() == 0 {
        Seq::empty()
    } else {
        let prev = matching_term(examples.drop_last(), query);
        if contains_seq(lower_of(examples.last().term@), lower_of(query)) {
            prev.push(examples.last())
        } else {
            prev
        }
    }
}

/// No two strings hold the same characters.
pub open spec fn distinct_views(v: Seq<String>) -> bool {
    forall|a: int, b: int| 0 <= a < b < v.len() ==> (#[trigger] v[a])@ != (#[trigger] v[b])@
}

/// Some string holds these characters.
pub open spec fn named(v: Seq<String>, s: Seq<char>) -> bool {
    exists|i: int| 0 <= i < v.len() && v[i]@ == s
}

/// Some file belongs to the split.
pub open spec fn is_split_of(files: Seq<(String, String)>, s: Seq<char>) -> bool {
    exists|k: int| 0 <= k < files.len() && file_split(files[k]) == s
}

/// Appends `name` unless a string with its characters is there already.
fn push_unique(names: &mut Vec<String>, name: String)
    requires
        distinct_views(old(names)@),
    ensures
        distinct_views(final(names)@),
        named(final(names)@, name@),
        final(names)@.len() >= old(names)@.len(),
        forall|i: int| 0 <= i < old(names)@.len() ==> final(names)@[i] == old(names)@[i],
        forall|i: int|
            0 <= i < final(names)@.len() ==> i < old(names)@.len() || (#[trigger] final(names)@[i])@ == name@,
{
    let mut i: usize = 0;
    while i < names.len()
        invariant
            i <= names@.len(),
            names@ == old(names)@,
            distinct_views(old(names)@),
            forall|a: int| 0 <= a < i ==> (#[trigger] names@[a])@ != name@,
        decreases names.len() - i,
    {
        if names[i] == name {
            proof {
                assert(names@[i as int]@ == name@);
                assert(named(names@, name@));
                assert(distinct_views(names@));
            }
            return;
        }
        i = i + 1;
    }
    names.push(name);
    proof {
        assert(final(names)@[old(names)@.len() as int] == name);
    }
}

/// A dataset directory whose Parquet files are grouped into splits by the part
/// of their file name before the first `-`.
pub struct DatasetLoader {
    dataset_dir: String,
    files: Vec<(String, String)>,
}

impl DatasetLoader {
    /// The Parquet files as (file name, path) pairs.
    pub closed spec fn parquet_files(&self) -> Seq<(String, String)> {
        self.files@
    }

    pub closed spec fn dir(&self) -> Seq<char> {
        self.dataset_dir@
    }

    /// A loader for the directory, holding its Parquet files as (file name,
    /// path) pairs; fails where the directory does not exist.
    pub fn new(dataset_dir: &str, dir_exists: bool, parquet_files: Vec<(String, String)>) -> (r: Result<
        DatasetLoader,
        ValidationError,
    >)
        ensures
            r is Ok <==> dir_exists,
            r is Ok ==> r->Ok_0.dir() == dataset_dir@ && r->Ok_0.parquet_files() == parquet_files@,
            r is Err ==> r->Err_0 is DataAccessError,
    {
        if !dir_exists {
            let mut message = String::from_str("Dataset directory does not exist: ");
            message.append(dataset_dir);
            return Err(ValidationError::DataAccessError { message });
        }
        Ok(DatasetLoader { dataset_dir: String::from_str(dataset_dir), files: parquet_files })
    }

    /// The split names, sorted, each once: every name is the split of some
    /// file, and every file's split is among them.
    pub fn get_splits(&self) -> (r: Vec<String>)
        ensures
            sorted_strings(r@),
            r@.no_duplicates(),
            forall|i: int| 0 <= i < r@.len() ==> #[trigger] is_split_of(self.parquet_files(), r@[i]@),
            forall|k: int| 0 <= k < self.parquet_files().len() ==> #[trigger] named(r@, file_split(self.parquet_files()[k])),
    {
        let mut names: Vec<String> = Vec::new();
        let mut k: usize = 0;
        while k < self.files.len()
            invariant
                k <= self.files@.len(),
                distinct_views(names@),
                forall|i: int| 0 <= i < names@.len() ==> #[trigger] is_split_of(self.files@, names@[i]@),
                forall|j: int| 0 <= j < k ==> #[trigger] named(names@, file_split(self.files@[j])),
            decreases self.files.len() - k,
        {
            let name = split_name_from_filename(self.files[k].0.as_str());
            let ghost old_names = names@;
            proof {
                assert(is_split_of(self.files@, name@));
            }
            push_unique(&mut names, name);
            proof {
                assert forall|j: int| 0 <= j < k + 1 implies #[trigger] named(names@, file_split(self.files@[j])) by {
                    if j < k {
                        assert(named(old_names, file_split(self.files@[j])));
                        let i = choose|i: int| 0 <= i < old_names.len() && old_names[i]@ == file_split(self.files@[j]);
                        assert(names@[i] == old_names[i]);
                    }
                }
            }
            k = k + 1;
        }
        proof {
            assert forall|a: int, b: int| 0 <= a < names@.len() && 0 <= b < names@.len() && a != b implies names@[a]
                != names@[b] by {
                if a < b {
                    assert(names@[a]@ != names@[b]@);
                } else {
                    assert(names@[b]@ != names@[a]@);
                }
            }
            assert(names@.no_duplicates());
            names@.lemma_multiset_has_no_duplicates();
        }
        let ghost before = names@;
        let r = sort_strings(names);
        proof {
            assert forall|x: String| r@.to_multiset().count(x) <= 1 by {
                assert(r@.to_multiset().count(x) == before.to_multiset().count(x));
            }
            r@.lemma_multiset_has_no_duplicates_conv();
            assert forall|i: int| 0 <= i < r@.len() implies #[trigger] is_split_of(self.parquet_files(), r@[i]@) by {
                vstd::seq_lib::to_multiset_contains(r@, r@[i]);
                vstd::seq_lib::to_multiset_contains(before, r@[i]);
                let a = choose|a: int| 0 <= a < before.len() && before[a] == r@[i];
                assert(is_split_of(self.files@, before[a]@));
            }
            assert forall|k: int| 0 <= k < self.parquet_files().len() implies #[trigger] named(
                r@,
                file_split(self.parquet_files()[k]),
            ) by {
                assert(named(before, file_split(self.files@[k])));
                let a = choose|a: int| 0 <= a < before.len() && before[a]@ == file_split(self.files@[k]);
                vstd::seq_lib::to_multiset_contains(before, before[a]);
                vstd::seq_lib::to_multiset_contains(r@, before[a]);
                let i = choose|i: int| 0 <= i < r@.len() && r@[i] == before[a];
                assert(r@[i]@ == file_split(self.files@[k]));
            }
        }
        r
    }

    /// The paths of a split's files, sorted; the files that the split's
    /// examples are read from. Fails where no file belongs to the split.
    pub fn split_files(&self, split_name: &str) -> (r: Result<Vec<String>, ValidationError>)
        ensures
            r is Ok <==> paths_of_split(self.parquet_files(), split_name@).len() > 0,
            r is Ok ==> sorted_strings(r->Ok_0@) && r->Ok_0@.to_multiset() == paths_of_split(
                self.parquet_files(),
                split_name@,
            ).to_multiset(),
            r is Err ==> r->Err_0 is DataAccessError,
    {
        let mut paths: Vec<String> = Vec::new();
        let mut k: usize = 0;
        while k < self.files.len()
            invariant
                k <= self.files@.len(),
                paths@ == paths_of_split(self.files@.take(k as int), split_name@),
            decreases self.files.len() - k,
        {
            assert(self.files@.take(k + 1).drop_last() =~= self.files@.take(k as int));
            let name = split_name_from_filename(self.files[k].0.as_str());
            if same_text(name.as_str(), split_name) {
                paths.push(self.files[k].1.clone());
            }
            k = k + 1;
        }
        assert(self.files@.take(k as int) =~= self.files@);
        if paths.len() == 0 {
            let mut message = String::from_str("Split '");
            message.append(split_name);
            message.append("' not found");
            return Err(ValidationError::DataAccessError { message });
        }
        Ok(sort_strings(paths))
    }

    /// The examples of a character group, in order.
    pub fn get_by_character_group(&self, examples: Vec<DatasetExample>, character_group: &str) -> (r: Vec<
        DatasetExample,
    >)
        ensures
            r@ == in_group(examples@, character_group@),
    {
        let ghost all = examples@;
        let n = examples.len();
        let mut rest = examples;
        let mut out: Vec<DatasetExample> = Vec::new();
        let mut i: usize = 0;
        while rest.len() > 0
            invariant
                i + rest@.len() == all.len(),
                all.len() == n,
                rest@ == all.subrange(i as int, all.len() as int),
                out@ == in_group(all.take(i as int), character_group@),
            decreases rest.len(),
        {
            let e = rest.remove(0);
            assert(all.take(i + 1).drop_last() =~= all.take(i as int));
            assert(rest@ =~= all.subrange(i + 1, all.len() as int));
            if same_text(e.character_group.as_str(), character_group) {
                out.push(e);
            }
            i = i + 1;
        }
        assert(all.take(i as int) =~= all);
        out
    }

    /// The examples whose term holds the query, ignoring case, in order.
    pub fn search_by_term(&self, examples: Vec<DatasetExample>, query: &str) -> (r: Vec<DatasetExample>)
        ensures
            r@ == matching_term(examples@, query@),
    {
        let q = lowercase(query);
        let ghost all = examples@;
        let n = examples.len();
        let mut rest = examples;
        let mut out: Vec<DatasetExample> = Vec::new();
        let mut i: usize = 0;
        while rest.len() > 0
            invariant
                q@ == lower_of(query@),
                i + rest@.len() == all.len(),
                all.len() == n,
                rest@ == all.subrange(i as int, all.len() as int),
                out@ == matching_term(all.take(i as int), query@),
            decreases rest.len(),
        {
            let e = rest.remove(0);
            assert(all.take(i + 1).drop_last() =~= all.take(i as int));
            assert(rest@ =~= all.subrange(i + 1, all.len() as int));
            let t = lowercase(e.term.as_str());
            if contains_str(t.as_str(), q.as_str()) {
                out.push(e);
            }
            i = i + 1;
        }
        assert(all.take(i as int) =~= all);
        out
    }
}

} // verus!
