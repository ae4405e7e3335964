//! Loading the records of one kind from the files that hold them.
//!
//! The caller finds and reads the files. What is done with their paths and
//! texts is decided here: which file gives which record, under which key,
//! and which failure ends the load.

use crate::collection::distinct_keys;
use crate::collection::holds_once;
use crate::collection::is_only_at;
use crate::collection::is_first_at;
use crate::collection::lemma_position;
use crate::collection::lemma_stored;
use crate::collection::lookup;
use crate::collection::position;
use crate::collection::stored;
use crate::collection::RecordMap;
use crate::document::field_names;
use crate::document::fields_view;
use crate::document::strings_view;
use crate::document::Field;
use crate::document::FieldView;
use crate::error::LoadError;
use crate::error::LoadErrorView;
use crate::error::ParseReason;
use crate::error::ParseReasonView;
use crate::key::EntityKey;
use crate::key::KeyView;
use crate::key::CONTRIBUTOR_KIND;
use crate::key::TEAM_KIND;
use crate::model::Contributor;
use crate::model::ContributorView;
use crate::model::HasKeyOrder;
use crate::model::Record;
use crate::model::Team;
use crate::model::TeamView;
use crate::path::file_stem;
use crate::path::stem_of;
use crate::toml_text::parse_document;
use crate::toml_text::toml_document;
use vstd::prelude::*;
use vstd::string::*;

verus! {

/// Pattern of the files that hold the contributors.
pub const CONTRIBUTORS_PATH: &'static str = "contributors/*.toml";

/// Pattern of the files that hold the teams.
pub const TEAMS_PATH: &'static str = "teams/*.toml";

/// A file as the caller found it: its path, and its text or, if it could not
/// be read, the reader's message.
#[derive(Debug, PartialEq, Eq)]
pub struct SourceFile {
    pub path: String,
    pub content: Result<String, String>,
}

/// Mathematical content of a [`SourceFile`].
pub struct SourceFileView {
    pub path: Seq<char>,
    pub content: Result<Seq<char>, Seq<char>>,
}

impl View for SourceFile {
    type V = SourceFileView;

    open spec fn view(&self) -> SourceFileView {
        SourceFileView {
            path: self.path@,
            content: match self.content {
                Ok(text) => Ok(text@),
                Err(message) => Err(message@),
            },
        }
    }
}

/// Contents of a list of files.
pub open spec fn files_view(files: Seq<SourceFile>) -> Seq<SourceFileView> {
    files.map_values(|file: SourceFile| file@)
}

/// The record that the fields of a file make: what they decode to, with the
/// names of the fields, in the order in which they stand, as its key order.
pub open spec fn record_of_document<T: Record>(fields: Seq<FieldView>) -> Result<
    T::V,
    ParseReasonView,
> {
    match T::decoded(fields) {
        Ok(record) => Ok(T::with_key_order(record, field_names(fields))),
        Err(reason) => Err(reason),
    }
}

/// The record that a text makes, or the reason why it makes none.
pub open spec fn record_of_text<T: Record>(text: Seq<char>) -> Result<T::V, ParseReasonView> {
    match toml_document(text) {
        Ok(fields) => record_of_document::<T>(fields),
        Err(message) => Err(ParseReasonView::Syntax(message)),
    }
}

/// What one file contributes to a load: its record, or the failure that
/// names its path.
pub open spec fn file_outcome<T: Record>(file: SourceFileView) -> Result<T::V, LoadErrorView> {
    match file.content {
        Err(message) => Err(LoadErrorView::Io { path: file.path, message }),
        Ok(text) => match record_of_text::<T>(text) {
            Ok(record) => Ok(record),
            Err(reason) => Err(LoadErrorView::Parse { path: file.path, reason }),
        },
    }
}

/// The key of the record that the file at `path` holds.
pub open spec fn key_of(kind: Seq<char>, path: Seq<char>) -> KeyView {
    (kind, stem_of(path))
}

/// The result of loading the files in their order: the failure of the first
/// file that fails, or else every record stored under its key, a later
/// record taking the place of an earlier one with the same key.
pub open spec fn loaded<T: Record>(files: Seq<SourceFileView>, kind: Seq<char>) -> Result<
    Seq<(KeyView, T::V)>,
    LoadErrorView,
>
    decreases files.len(),
{
    if files.len() == 0 {
        Ok(Seq::empty())
    } else {
        match loaded::<T>(files.drop_last(), kind) {
            Err(error) => Err(error),
            Ok(entries) => match file_outcome::<T>(files.last()) {
                Err(error) => Err(error),
                Ok(record) => Ok(stored(entries, key_of(kind, files.last().path), record)),
            },
        }
    }
}

/// The names of the fields, in the order in which they stand.
pub fn key_order_of_fields(fields: &Vec<Field>) -> (names: Vec<String>)
    ensures
        strings_view(names@) == field_names(fields_view(fields@)),
{
    let mut names: Vec<String> = Vec::new();
    let mut i: usize = 0;
    while i < fields.len()
        invariant
            i <= fields.len(),
            names.len() == i,
            forall|j: int| 0 <= j < i ==> names@[j]@ == fields@[j].name@,
        decreases fields.len() - i,
    {
        names.push(fields[i].name.clone());
        i += 1;
    }
    assert(strings_view(names@) =~= field_names(fields_view(fields@)));
    names
}

/// Makes a record of the top-level fields of its file and attaches their
/// order to it.
pub fn record_from_document<T: Record>(fields: Vec<Field>) -> (made: Result<T, ParseReason>)
    ensures
        match made {
            Ok(record) => record_of_document::<T>(fields_view(fields@)) == Ok::<
                T::V,
                ParseReasonView,
            >(record@),
            Err(reason) => record_of_document::<T>(fields_view(fields@)) == Err::<
                T::V,
                ParseReasonView,
            >(reason@),
        },
{
    let key_order = key_order_of_fields(&fields);
    match T::decode(fields) {
        Err(reason) => Err(reason),
        Ok(record) => {
            let mut record = record;
            record.set_key_order(key_order);
            Ok(record)
        },
    }
}

/// Parses the text of a record file and makes the record of it.
pub fn record_from_text<T: Record>(text: &str) -> (made: Result<T, ParseReason>)
    ensures
        match made {
            Ok(record) => record_of_text::<T>(text@) == Ok::<T::V, ParseReasonView>(record@),
            Err(reason) => record_of_text::<T>(text@) == Err::<T::V, ParseReasonView>(reason@),
        },
{
    match parse_document(text) {
        Err(message) => Err(ParseReason::Syntax(message)),
        Ok(fields) => record_from_document::<T>(fields),
    }
}

/// A failure among the first files is the failure of the whole load.
pub proof fn lemma_loaded_failure_stays<T: Record>(
    files: Seq<SourceFileView>,
    kind: Seq<char>,
    count: int,
)
    requires
        0 <= count <= files.len(),
        loaded::<T>(files.take(count), kind) is Err,
    ensures
        loaded::<T>(files, kind) == loaded::<T>(files.take(count), kind),
    decreases files.len(),
{
    if count < files.len() {
        assert(files.drop_last().take(count) =~= files.take(count));
        lemma_loaded_failure_stays::<T>(files.drop_last(), kind, count);
    } else {
        assert(files.take(count) =~= files);
    }
}

/// The key order of a loaded record is the sequence of the top-level field
/// names of its file, as the file has them, whatever the record kind.
pub proof fn lemma_key_order_is_file_order<T: Record>(text: Seq<char>)
    requires
        record_of_text::<T>(text) is Ok,
    ensures
        toml_document(text) is Ok,
        T::key_order_of(record_of_text::<T>(text)->Ok_0) == field_names(
            toml_document(text)->Ok_0,
        ),
{
    let fields = toml_document(text)->Ok_0;
    T::lemma_key_order_set(T::decoded(fields)->Ok_0, field_names(fields));
}

/// A load succeeds only if every file gives a record, and it fails with the
/// failure of the first file that gives none.
pub proof fn lemma_load_fails_fast<T: Record>(files: Seq<SourceFileView>, kind: Seq<char>)
    ensures
        match loaded::<T>(files, kind) {
            Ok(_) => forall|i: int| 0 <= i < files.len() ==> file_outcome::<T>(files[i]) is Ok,
            Err(error) => exists|i: int|
                {
                    &&& 0 <= i < files.len()
                    &&& file_outcome::<T>(files[i]) == Err::<T::V, LoadErrorView>(error)
                    &&& forall|j: int| 0 <= j < i ==> file_outcome::<T>(files[j]) is Ok
                },
        },
    decreases files.len(),
{
    if files.len() > 0 {
        let front = files.drop_last();
        lemma_load_fails_fast::<T>(front, kind);
        assert forall|j: int| 0 <= j < front.len() implies front[j] == files[j] by {}
        match loaded::<T>(front, kind) {
            Err(error) => {
                let i = choose|i: int|
                    {
                        &&& 0 <= i < front.len()
                        &&& file_outcome::<T>(front[i]) == Err::<T::V, LoadErrorView>(error)
                        &&& forall|j: int| 0 <= j < i ==> file_outcome::<T>(front[j]) is Ok
                    };
                assert(file_outcome::<T>(files[i]) == Err::<T::V, LoadErrorView>(error));
                assert forall|j: int| 0 <= j < i implies file_outcome::<T>(files[j]) is Ok by {
                    assert(front[j] == files[j]);
                }
            },
            Ok(_) => {
                if let Err(error) = file_outcome::<T>(files.last()) {
                    let i = files.len() - 1;
                    assert(file_outcome::<T>(files[i]) == Err::<T::V, LoadErrorView>(error));
                    assert forall|j: int| 0 <= j < i implies file_outcome::<T>(files[j]) is Ok by {
                        assert(front[j] == files[j]);
                    }
                }
            },
        }
    }
}

/// A loaded collection holds no key twice, every key in it has the kind
/// that was loaded, and its name is the stem of one of the files.
pub proof fn lemma_loaded_keys<T: Record>(files: Seq<SourceFileView>, kind: Seq<char>)
    requires
        loaded::<T>(files, kind) is Ok,
    ensures
        distinct_keys(loaded::<T>(files, kind)->Ok_0),
        forall|k: int|
            0 <= k < loaded::<T>(files, kind)->Ok_0.len() ==> (#[trigger] loaded::<T>(
                files,
                kind,
            )->Ok_0[k]).0.0 == kind,
        forall|k: int|
            0 <= k < loaded::<T>(files, kind)->Ok_0.len() ==> exists|i: int|
                0 <= i < files.len() && (#[trigger] loaded::<T>(files, kind)->Ok_0[k]).0 == key_of(
                    kind,
                    files[i].path,
                ),
    decreases files.len(),
{
    if files.len() > 0 {
        let front = files.drop_last();
        lemma_loaded_keys::<T>(front, kind);
        let before = loaded::<T>(front, kind)->Ok_0;
        let after = loaded::<T>(files, kind)->Ok_0;
        let key = key_of(kind, files.last().path);
        lemma_stored(before, key, file_outcome::<T>(files.last())->Ok_0);
        lemma_position(before, key);
        assert forall|k: int| 0 <= k < after.len() implies exists|i: int|
            0 <= i < files.len() && (#[trigger] after[k]).0 == key_of(kind, files[i].path) by {
            if k < before.len() && after[k].0 == before[k].0 {
                let i = choose|i: int|
                    0 <= i < front.len() && before[k].0 == key_of(kind, front[i].path);
                assert(front[i] == files[i]);
            } else {
                match position(before, key) {
                    Some(p) => {
                        assert(is_first_at(before, key, p));
                        assert(k == p);
                    },
                    None => {
                        assert(k == before.len());
                    },
                }
                assert(after[k].0 == key_of(kind, files[files.len() - 1].path));
            }
        }
    }
}

/// Where several files have the same stem, the record of the last of them
/// is the one that the collection holds under their key.
pub proof fn lemma_last_file_wins<T: Record>(files: Seq<SourceFileView>, kind: Seq<char>, i: int)
    requires
        loaded::<T>(files, kind) is Ok,
        0 <= i < files.len(),
        forall|j: int| i < j < files.len() ==> stem_of(files[j].path) != stem_of(files[i].path),
    ensures
        file_outcome::<T>(files[i]) is Ok,
        lookup(loaded::<T>(files, kind)->Ok_0, key_of(kind, files[i].path)) == Some(
            file_outcome::<T>(files[i])->Ok_0,
        ),
    decreases files.len(),
{
    let front = files.drop_last();
    let before = loaded::<T>(front, kind)->Ok_0;
    let last_key = key_of(kind, files.last().path);
    lemma_loaded_keys::<T>(front, kind);
    lemma_stored(before, last_key, file_outcome::<T>(files.last())->Ok_0);
    if i < files.len() - 1 {
        assert(front[i] == files[i]);
        assert forall|j: int| i < j < front.len() implies stem_of(front[j].path) != stem_of(
            front[i].path,
        ) by {
            assert(front[j] == files[j]);
        }
        lemma_last_file_wins::<T>(front, kind, i);
        assert(files[files.len() - 1] == files.last());
        assert(last_key != key_of(kind, files[i].path));
    }
}

/// A key holds exactly one record: the collection has one entry with the
/// key of a file, and that entry holds the record of the last file with
/// that stem.
pub proof fn lemma_one_record_per_key<T: Record>(
    files: Seq<SourceFileView>,
    kind: Seq<char>,
    i: int,
)
    requires
        loaded::<T>(files, kind) is Ok,
        0 <= i < files.len(),
        forall|j: int| i < j < files.len() ==> stem_of(files[j].path) != stem_of(files[i].path),
    ensures
        holds_once(
            loaded::<T>(files, kind)->Ok_0,
            key_of(kind, files[i].path),
            file_outcome::<T>(files[i])->Ok_0,
        ),
{
    let entries = loaded::<T>(files, kind)->Ok_0;
    let key = key_of(kind, files[i].path);
    lemma_last_file_wins::<T>(files, kind, i);
    lemma_loaded_keys::<T>(files, kind);
    lemma_position(entries, key);
    let k = position(entries, key)->0;
    assert(is_first_at(entries, key, k));
    assert(entries[k] == (key, file_outcome::<T>(files[i])->Ok_0));
    assert forall|l: int| 0 <= l < entries.len() && entries[l].0 == key implies l == k by {
        if l < k {
            assert(entries[l].0 != entries[k].0);
        } else if k < l {
            assert(entries[k].0 != entries[l].0);
        }
    }
    assert(is_only_at(entries, key, file_outcome::<T>(files[i])->Ok_0, k));
}

/// A stem that only one file has gives exactly one entry, with the record
/// of that file.
pub proof fn lemma_single_file_record<T: Record>(
    files: Seq<SourceFileView>,
    kind: Seq<char>,
    i: int,
)
    requires
        loaded::<T>(files, kind) is Ok,
        0 <= i < files.len(),
        forall|j: int|
            0 <= j < files.len() && j != i ==> stem_of(files[j].path) != stem_of(files[i].path),
    ensures
        holds_once(
            loaded::<T>(files, kind)->Ok_0,
            key_of(kind, files[i].path),
            file_outcome::<T>(files[i])->Ok_0,
        ),
{
    lemma_one_record_per_key::<T>(files, kind, i);
}

/// Loads the records of one kind from the given files, in their order.
///
/// Each file gives one record, stored under the kind `item_name` and the
/// stem of the file's path; a second file with the same stem replaces the
/// record of the first. The load ends with the first file that could not be
/// read or does not hold a record.
pub fn load_from_dir<T: Record>(files: &Vec<SourceFile>, item_name: &str) -> (result: Result<
    RecordMap<T>,
    LoadError,
>)
    ensures
        match result {
            Ok(map) => loaded::<T>(files_view(files@), item_name@) == Ok::<
                Seq<(KeyView, T::V)>,
                LoadErrorView,
            >(map@),
            Err(error) => loaded::<T>(files_view(files@), item_name@) == Err::<
                Seq<(KeyView, T::V)>,
                LoadErrorView,
            >(error@),
        },
{
    let ghost all = files_view(files@);
    let mut map: RecordMap<T> = RecordMap::new();
    let mut i: usize = 0;
    while i < files.len()
        invariant
            i <= files.len(),
            all == files_view(files@),
            loaded::<T>(all.take(i as int), item_name@) == Ok::<
                Seq<(KeyView, T::V)>,
                LoadErrorView,
            >(map@),
        decreases files.len() - i,
    {
        let file = &files[i];
        proof {
            assert(all.take(i + 1).drop_last() =~= all.take(i as int));
            assert(all.take(i + 1).last() == file@);
        }
        match &file.content {
            Err(message) => {
                let error = LoadError::Io { path: file.path.clone(), message: message.clone() };
                proof {
                    lemma_loaded_failure_stays::<T>(all, item_name@, i + 1);
                }
                return Err(error);
            },
            Ok(text) => match record_from_text::<T>(text.as_str()) {
                Err(reason) => {
                    let error = LoadError::Parse { path: file.path.clone(), reason };
                    proof {
                        lemma_loaded_failure_stays::<T>(all, item_name@, i + 1);
                    }
                    return Err(error);
                },
                Ok(record) => {
                    let key = EntityKey {
                        kind: String::from_str(item_name),
                        name: file_stem(file.path.as_str()),
                    };
                    map.insert(key, record);
                },
            },
        }
        i += 1;
    }
    assert(all.take(i as int) =~= all);
    Ok(map)
}

/// Loads the contributors from the given files.
pub fn load_contributors(files: &Vec<SourceFile>) -> (result: Result<
    RecordMap<Contributor>,
    LoadError,
>)
    ensures
        match result {
            Ok(map) => loaded::<Contributor>(files_view(files@), CONTRIBUTOR_KIND@) == Ok::<
                Seq<(KeyView, ContributorView)>,
                LoadErrorView,
            >(map@),
            Err(error) => loaded::<Contributor>(files_view(files@), CONTRIBUTOR_KIND@) == Err::<
                Seq<(KeyView, ContributorView)>,
                LoadErrorView,
            >(error@),
        },
{
    load_from_dir::<Contributor>(files, CONTRIBUTOR_KIND)
}

/// Loads the teams from the given files.
pub fn load_teams(files: &Vec<SourceFile>) -> (result: Result<RecordMap<Team>, LoadError>)
    ensures
        match result {
            Ok(map) => loaded::<Team>(files_view(files@), TEAM_KIND@) == Ok::<
                Seq<(KeyView, TeamView)>,
                LoadErrorView,
            >(map@),
            Err(error) => loaded::<Team>(files_view(files@), TEAM_KIND@) == Err::<
                Seq<(KeyView, TeamView)>,
                LoadErrorView,
            >(error@),
        },
{
    load_from_dir::<Team>(files, TEAM_KIND)
}

} // verus!
