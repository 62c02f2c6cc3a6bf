//! Path bookkeeping: normalized components, per-path metadata, and the
//! index store that assigns each path a stable slot.
//!
//! Paths enter as plain component lists; normalization resolves `.` and
//! `..` the way path truncation does. Metadata timestamps enter as epoch
//! seconds and are kept as formatted strings.

use vstd::prelude::*;

use std::collections::HashMap;

verus! {

broadcast use vstd::std_specs::hash::group_hash_axioms;

/// One component of a filesystem path, as plain values.
#[derive(Debug, Clone, PartialEq, Eq)]
pub enum PathComponent {
    /// A drive or share prefix.
    Prefix(String),
    RootDir,
    CurDir,
    ParentDir,
    Normal(String),
}

/// Resolving one more component against an already-normalized path: `.` is
/// dropped, `..` truncates a trailing normal component (and nothing else,
/// as path truncation stops at roots and prefixes), everything else is
/// appended.
pub open spec fn norm_push(acc: Seq<PathComponent>, c: PathComponent) -> Seq<PathComponent> {
    match c {
        PathComponent::CurDir => acc,
        PathComponent::ParentDir => {
            if acc.len() > 0 && (acc.last() matches PathComponent::Normal(_)) {
                acc.drop_last()
            } else {
                acc
            }
        },
        _ => acc.push(c),
    }
}

/// A whole component list, normalized left to right.
pub open spec fn normalize_spec(cs: Seq<PathComponent>) -> Seq<PathComponent>
    decreases cs.len(),
{
    if cs.len() == 0 {
        Seq::empty()
    } else {
        norm_push(normalize_spec(cs.drop_last()), cs.last())
    }
}

/// Normalize a path's components: resolve every `.` and `..`.
pub fn normalize(components: Vec<PathComponent>) -> (r: Vec<PathComponent>)
    ensures
        r@ == normalize_spec(components@),
{
    let ghost orig = components@;
    let mut rest = components;
    let mut out: Vec<PathComponent> = Vec::new();
    let ghost i: int = 0;
    while rest.len() > 0
        invariant
            0 <= i <= orig.len(),
            rest@ == orig.skip(i),
            out@ == normalize_spec(orig.take(i)),
        decreases rest@.len(),
    {
        let c = rest.remove(0);
        proof {
            assert(orig.skip(i).remove(0) =~= orig.skip(i + 1));
            assert(c == orig[i]);
            assert(orig.take(i + 1).drop_last() =~= orig.take(i));
            assert(orig.take(i + 1).last() == orig[i]);
        }
        match c {
            PathComponent::CurDir => {},
            PathComponent::ParentDir => {
                if out.len() > 0 {
                    let pop = match &out[out.len() - 1] {
                        PathComponent::Normal(_) => true,
                        _ => false,
                    };
                    if pop {
                        let _ = out.pop();
                        proof {
                            assert(out@ =~= normalize_spec(orig.take(i)).drop_last());
                        }
                    }
                }
            },
            other => {
                out.push(other);
            },
        }
        proof {
            i = i + 1;
        }
    }
    proof {
        assert(orig.take(orig.len() as int) =~= orig);
        assert(orig.skip(i).len() == 0);
        assert(i == orig.len());
    }
    out
}

/// A path split into its string components, with the index outputs its
/// lookup structure will carry.
#[derive(Debug, Clone)]
pub struct SplitPath {
    pub path: String,
    pub components: Vec<String>,
    pub fst_outputs: Option<Vec<usize>>,
}

impl SplitPath {
    pub fn new(path: String, components: Vec<String>) -> (r: SplitPath)
        ensures
            r.path == path,
            r.components == components,
            r.fst_outputs is None,
    {
        SplitPath { path, components, fst_outputs: None }
    }
}

/// What kind of filesystem object a path names.
#[derive(Debug, Clone, Copy, PartialEq, Eq, Structural)]
pub enum FileType {
    Directory,
    File,
    SymLink,
    Unknown,
}

impl FileType {
    /// Classify from the three metadata flags, in that order of precedence.
    pub fn from_flags(is_dir: bool, is_file: bool, is_symlink: bool) -> (r: FileType)
        ensures
            r == (if is_dir {
                FileType::Directory
            } else if is_file {
                FileType::File
            } else if is_symlink {
                FileType::SymLink
            } else {
                FileType::Unknown
            }),
    {
        if is_dir {
            FileType::Directory
        } else if is_file {
            FileType::File
        } else if is_symlink {
            FileType::SymLink
        } else {
            FileType::Unknown
        }
    }
}

/// What a formatted timestamp reads for a given count of epoch seconds:
/// year, month name, day, hour and minute.
pub uninterp spec fn time_string_of(secs: int) -> Seq<char>;

/// The largest count of epoch seconds the formatter accepts: the last
/// second of year 9999.
pub open spec fn max_format_secs() -> int {
    253_402_300_799
}

/// Relies on chrono's `DateTime::<Utc>::from_timestamp` and
/// `DateTime::format`: for an in-range count of non-leap seconds since the
/// epoch, the timestamp exists, and formatting it in UTC depends on the
/// seconds value alone.
#[verifier::external_body]
fn format_epoch_secs(secs: i64) -> (r: String)
    requires
        0 <= secs <= max_format_secs(),
    ensures
        r@ == time_string_of(secs as int),
{
    let dt = chrono::DateTime::<chrono::Utc>::from_timestamp(secs, 0).unwrap();
    dt.format("%Y-%b-%d %H:%M").to_string()
}

/// A timestamp kept as its formatted text.
#[derive(Debug, Clone)]
pub struct TimeString(pub String);

impl TimeString {
    /// Format a count of epoch seconds.
    pub fn from_epoch_secs(secs: i64) -> (r: TimeString)
        requires
            0 <= secs <= max_format_secs(),
        ensures
            r.0@ == time_string_of(secs as int),
    {
        TimeString(format_epoch_secs(secs))
    }

    /// The formatted text.
    pub fn text(&self) -> (r: &String)
        ensures
            r == &self.0,
    {
        &self.0
    }
}

/// One path's recorded metadata: its kind and its formatted timestamps,
/// each absent where the filesystem reported none.
#[derive(Debug, Clone)]
pub struct PathMeta {
    pub file_type: FileType,
    pub modified: Option<TimeString>,
    pub accessed: Option<TimeString>,
    pub created: Option<TimeString>,
}

/// Format an optional timestamp; seconds outside the formatter's range
/// count as absent.
pub fn format_opt_secs(secs: Option<i64>) -> (r: Option<TimeString>)
    ensures
        r is Some <==> (secs is Some && 0 <= secs->0 <= max_format_secs()),
        secs is Some && 0 <= secs->0 <= max_format_secs() ==> (r->0).0@ == time_string_of(
            secs->0 as int,
        ),
{
    match secs {
        Some(s) => {
            if 0 <= s && s <= 253_402_300_799i64 {
                Some(TimeString::from_epoch_secs(s))
            } else {
                None
            }
        },
        None => None,
    }
}

impl PathMeta {
    /// Record one path's metadata from its flags and its timestamps in
    /// epoch seconds.
    pub fn new(
        is_dir: bool,
        is_file: bool,
        is_symlink: bool,
        modified: Option<i64>,
        accessed: Option<i64>,
        created: Option<i64>,
    ) -> (r: PathMeta)
        ensures
            r.file_type == (if is_dir {
                FileType::Directory
            } else if is_file {
                FileType::File
            } else if is_symlink {
                FileType::SymLink
            } else {
                FileType::Unknown
            }),
            r.modified is Some <==> (modified is Some && 0 <= modified->0 <= max_format_secs()),
            r.accessed is Some <==> (accessed is Some && 0 <= accessed->0 <= max_format_secs()),
            r.created is Some <==> (created is Some && 0 <= created->0 <= max_format_secs()),
            modified is Some && 0 <= modified->0 <= max_format_secs() ==> (r.modified->0).0@
                == time_string_of(modified->0 as int),
            accessed is Some && 0 <= accessed->0 <= max_format_secs() ==> (r.accessed->0).0@
                == time_string_of(accessed->0 as int),
            created is Some && 0 <= created->0 <= max_format_secs() ==> (r.created->0).0@
                == time_string_of(created->0 as int),
    {
        PathMeta {
            file_type: FileType::from_flags(is_dir, is_file, is_symlink),
            modified: format_opt_secs(modified),
            accessed: format_opt_secs(accessed),
            created: format_opt_secs(created),
        }
    }
}

/// Metadata records in numbered slots: freed slot numbers are reused before
/// new ones are minted, and a slot number handed out is never in use.
pub struct MetaStore {
    count: usize,
    store: HashMap<usize, Option<PathMeta>>,
    free_indices: Vec<usize>,
}

impl MetaStore {
    /// Every stored or free slot number is below the high-water mark, free
    /// slot numbers are unused and distinct.
    pub closed spec fn wf(self) -> bool {
        &&& forall|k: usize| self.store@.dom().contains(k) ==> k < self.count
        &&& forall|i: int|
            0 <= i < self.free_indices@.len() ==> (#[trigger] self.free_indices@[i])
                < self.count && !self.store@.dom().contains(self.free_indices@[i])
        &&& forall|i: int, j: int|
            0 <= i < j < self.free_indices@.len() ==> #[trigger] self.free_indices@[i]
                != #[trigger] self.free_indices@[j]
    }

    pub closed spec fn view_store(self) -> Map<usize, Option<PathMeta>> {
        self.store@
    }

    pub closed spec fn spec_count(self) -> usize {
        self.count
    }

    pub closed spec fn spec_free(self) -> Seq<usize> {
        self.free_indices@
    }

    pub fn new() -> (r: MetaStore)
        ensures
            r.wf(),
            r.view_store() == Map::<usize, Option<PathMeta>>::empty(),
            r.spec_count() == 0,
            r.spec_free() == Seq::<usize>::empty(),
    {
        MetaStore { count: 0, store: HashMap::new(), free_indices: Vec::new() }
    }

    /// Hand out an unused slot number: a freed one if any, else a fresh
    /// one past everything handed out before.
    pub fn generate_index(&mut self) -> (r: usize)
        requires
            old(self).wf(),
            old(self).spec_count() < usize::MAX,
        ensures
            final(self).wf(),
            final(self).view_store() == old(self).view_store(),
            !old(self).view_store().dom().contains(r),
            old(self).spec_free().len() > 0 ==> r == old(self).spec_free().last()
                && final(self).spec_free() == old(self).spec_free().drop_last()
                && final(self).spec_count() == old(self).spec_count(),
            old(self).spec_free().len() == 0 ==> r == old(self).spec_count()
                && final(self).spec_count() == old(self).spec_count() + 1
                && final(self).spec_free() == old(self).spec_free(),
    {
        match self.free_indices.pop() {
            Some(idx) => idx,
            None => {
                let idx = self.count;
                self.count = self.count + 1;
                idx
            },
        }
    }

    /// Store one metadata record in a fresh slot and say which slot.
    pub fn insert(&mut self, meta: Option<PathMeta>) -> (r: usize)
        requires
            old(self).wf(),
            old(self).spec_count() < usize::MAX,
        ensures
            final(self).wf(),
            !old(self).view_store().dom().contains(r),
            final(self).view_store() == old(self).view_store().insert(r, meta),
            old(self).spec_free().len() > 0 ==> r == old(self).spec_free().last()
                && final(self).spec_free() == old(self).spec_free().drop_last()
                && final(self).spec_count() == old(self).spec_count(),
            old(self).spec_free().len() == 0 ==> r == old(self).spec_count()
                && final(self).spec_count() == old(self).spec_count() + 1
                && final(self).spec_free() == old(self).spec_free(),
    {
        let index = self.generate_index();
        let _ = self.store.insert(index, meta);
        index
    }

    /// How many slots hold records.
    pub fn len(&self) -> (r: usize)
        ensures
            r == self.view_store().dom().len(),
    {
        self.store.len()
    }
}

/// Collects split paths and their metadata slots before the index proper
/// is built.
pub struct PathIndexBuilder {
    pub paths: Vec<SplitPath>,
    pub meta_store: MetaStore,
}

impl PathIndexBuilder {
    pub fn new() -> (r: PathIndexBuilder)
        ensures
            r.paths@ == Seq::<SplitPath>::empty(),
            r.meta_store.wf(),
            r.meta_store.view_store() == Map::<usize, Option<PathMeta>>::empty(),
    {
        PathIndexBuilder { paths: Vec::new(), meta_store: MetaStore::new() }
    }

    /// Queue one split path for indexing.
    pub fn insert_path(&mut self, path: SplitPath)
        ensures
            final(self).paths@ == old(self).paths@.push(path),
            final(self).meta_store == old(self).meta_store,
    {
        self.paths.push(path);
    }
}

} // verus!
