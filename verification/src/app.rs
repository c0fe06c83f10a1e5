//! The application's state apart from its database: settings, the write-back marker, the
//! panel's state, and the records on display; and the decisions of its operations.
use vstd::prelude::*;
use crate::clipboard::listener::SkipMarker;
use crate::storage::models::{ClipRecord, SearchQuery};
use crate::utils::config::Config;

verus! {

/// A warning of the unlimited storage mode.
#[derive(Debug, Clone, Copy, PartialEq, Eq, Structural)]
pub enum StorageWarning {
    /// More records than the safe threshold; the count.
    RecordCountExceeded(i64),
    /// A database file above the safe threshold; its size in bytes.
    FileSizeExceeded(u64),
}

/// More records than this trigger a warning in unlimited mode.
pub const RECORD_COUNT_THRESHOLD: i64 = 100_000;

/// A database file larger than this (bytes) triggers a warning in unlimited mode.
pub const FILE_SIZE_THRESHOLD: u64 = 1_000_000_000;

/// At most this many records are listed at once.
pub const LIST_LIMIT: i64 = 10000;

/// How the list of records is loaded.
#[derive(Debug, Clone)]
pub enum ListingRequest {
    /// The newest `limit` records.
    Recent { limit: i64, offset: i64 },
    /// A search.
    Search(SearchQuery),
}

/// Global application state (the database is held beside it).
pub struct AppState {
    pub config: Config,
    pub skip_marker: SkipMarker,
    /// Whether the panel is shown.
    pub panel_visible: bool,
    /// The records on display.
    pub records: Vec<ClipRecord>,
    /// The search keyword.
    pub search_keyword: String,
    /// Index of the selected record, -1 for none.
    pub selected_index: i64,
    /// In confirm-then-paste mode, the record waiting to be pasted.
    pub pending_paste_id: Option<i64>,
    /// Whether the favourites filter is on.
    pub favorite_filter: bool,
}

/// `rs` without the records whose id is `id`, in order.
pub open spec fn without_id(rs: Seq<ClipRecord>, id: i64) -> Seq<ClipRecord>
    decreases rs.len(),
{
    if rs.len() == 0 {
        Seq::empty()
    } else if rs.last().id == id {
        without_id(rs.drop_last(), id)
    } else {
        without_id(rs.drop_last(), id).push(rs.last())
    }
}

/// Index of the first record with id `id`, or -1.
pub open spec fn first_with_id(rs: Seq<ClipRecord>, id: i64) -> int
    decreases rs.len(),
{
    if rs.len() == 0 {
        -1
    } else if rs[0].id == id {
        0
    } else {
        let k = first_with_id(rs.drop_first(), id);
        if k < 0 { -1 } else { k + 1 }
    }
}

/// `rs` with the favourite flag of the first record with id `id` set to `fav`.
pub open spec fn with_favorite(rs: Seq<ClipRecord>, id: i64, fav: bool) -> Seq<ClipRecord> {
    let k = first_with_id(rs, id);
    if k < 0 {
        rs
    } else {
        rs.update(k, ClipRecord { is_favorite: fav, ..rs[k] })
    }
}

/// The storage warnings: none unless unlimited (`-1`); then one for a record count above
/// the threshold and one for a file size above the threshold, in that order.
pub open spec fn storage_warnings_spec(max_records: i64, count: Option<i64>, size: Option<u64>) -> Seq<StorageWarning> {
    if max_records != -1 {
        Seq::empty()
    } else {
        (if count is Some && count.unwrap() > RECORD_COUNT_THRESHOLD {
            seq![StorageWarning::RecordCountExceeded(count.unwrap())]
        } else {
            Seq::empty()
        }) + (if size is Some && size.unwrap() > FILE_SIZE_THRESHOLD {
            seq![StorageWarning::FileSizeExceeded(size.unwrap())]
        } else {
            Seq::empty()
        })
    }
}

/// Two states agree on everything but the listed records.
pub open spec fn same_but_records(a: AppState, b: AppState) -> bool {
    &&& a.config == b.config
    &&& a.skip_marker == b.skip_marker
    &&& a.panel_visible == b.panel_visible
    &&& a.search_keyword == b.search_keyword
    &&& a.selected_index == b.selected_index
    &&& a.pending_paste_id == b.pending_paste_id
    &&& a.favorite_filter == b.favorite_filter
}

proof fn lemma_first_with_id(rs: Seq<ClipRecord>, id: i64, k: int)
    requires
        0 <= k <= rs.len(),
        forall|j: int| 0 <= j < k ==> rs[j].id != id,
        k < rs.len() ==> rs[k].id == id,
    ensures
        first_with_id(rs, id) == (if k < rs.len() { k } else { -1 }),
    decreases k,
{
    if k > 0 {
        assert forall|j: int| 0 <= j < k - 1 implies rs.drop_first()[j].id != id by {
            assert(rs[j + 1].id != id);
        }
        lemma_first_with_id(rs.drop_first(), id, k - 1);
    }
}

impl AppState {
    /// A fresh state: panel hidden, nothing listed, no keyword, nothing selected or pending.
    pub fn new(config: Config) -> (r: Self)
        ensures
            r.config == config,
            !r.skip_marker.is_set(),
            !r.panel_visible,
            r.records@.len() == 0,
            r.search_keyword@.len() == 0,
            r.selected_index == -1,
            r.pending_paste_id is None,
            !r.favorite_filter,
    {
        Self {
            config,
            skip_marker: SkipMarker::new(),
            panel_visible: false,
            records: Vec::new(),
            search_keyword: String::new(),
            selected_index: -1,
            pending_paste_id: None,
            favorite_filter: false,
        }
    }

    /// How many records a listing loads: the configured maximum when it is between 1 and
    /// 9999, else 10000.
    pub fn record_limit(&self) -> (r: i64)
        ensures
            r == (if 0 < self.config.max_records < LIST_LIMIT { self.config.max_records } else { LIST_LIMIT }),
    {
        if self.config.max_records > 0 && self.config.max_records < LIST_LIMIT {
            self.config.max_records
        } else {
            LIST_LIMIT
        }
    }

    /// How to reload the list: the newest records without a keyword, else a keyword search.
    pub fn listing_request(&self) -> (r: ListingRequest)
        ensures
            self.search_keyword@.len() == 0 ==> r == (ListingRequest::Recent {
                limit: (if 0 < self.config.max_records < LIST_LIMIT { self.config.max_records } else { LIST_LIMIT }),
                offset: 0,
            }),
            self.search_keyword@.len() > 0 ==> (r matches ListingRequest::Search(q) && q.keyword is Some
                && q.keyword.unwrap()@ == self.search_keyword@ && q.content_type_filter is None
                && !q.favorite_only && q.limit == (if 0 < self.config.max_records < LIST_LIMIT {
                self.config.max_records
            } else {
                LIST_LIMIT
            }) && q.offset == 0),
    {
        let limit = self.record_limit();
        if self.search_keyword.as_str().is_empty() {
            ListingRequest::Recent { limit, offset: 0 }
        } else {
            ListingRequest::Search(
                SearchQuery {
                    keyword: Some(self.search_keyword.clone()),
                    content_type_filter: None,
                    favorite_only: false,
                    limit,
                    offset: 0,
                },
            )
        }
    }

    /// After the store was asked to delete record `id`: when it deleted it, the record
    /// leaves the list too. Returns whether it was deleted.
    pub fn finish_delete(&mut self, id: i64, deleted: bool) -> (r: bool)
        ensures
            r == deleted,
            deleted ==> final(self).records@ == without_id(old(self).records@, id),
            !deleted ==> final(self).records@ == old(self).records@,
            same_but_records(*final(self), *old(self)),
    {
        if !deleted {
            return false;
        }
        let mut old_records: Vec<ClipRecord> = Vec::new();
        std::mem::swap(&mut old_records, &mut self.records);
        let ghost rs = old_records@;
        let mut kept: Vec<ClipRecord> = Vec::new();
        for rec in it: old_records.into_iter()
            invariant
                it.seq() == rs,
                kept@ == without_id(rs.take(it.index() as int), id),
        {
            proof {
                let i = it.index() as int;
                assert(rs.take(i + 1).drop_last() =~= rs.take(i));
                assert(rs.take(i + 1).last() == rec);
            }
            if rec.id != id {
                kept.push(rec);
            }
        }
        proof {
            assert(rs.take(rs.len() as int) =~= rs);
        }
        self.records = kept;
        true
    }

    /// After the store was asked to delete every record: when it did, the list empties.
    pub fn finish_clear(&mut self, cleared: bool) -> (r: bool)
        ensures
            r == cleared,
            cleared ==> final(self).records@.len() == 0,
            !cleared ==> final(self).records@ == old(self).records@,
            same_but_records(*final(self), *old(self)),
    {
        if cleared {
            self.records.clear();
        }
        cleared
    }

    /// After the store toggled the favourite flag of record `id`: with the new flag, the
    /// first listed record with that id takes it, and it is returned; when the store failed,
    /// nothing changes and the answer is `false`.
    pub fn finish_toggle_favorite(&mut self, id: i64, outcome: Option<bool>) -> (r: bool)
        ensures
            r == (outcome == Some(true)),
            outcome matches Some(fav) ==> final(self).records@ == with_favorite(old(self).records@, id, fav),
            outcome is None ==> final(self).records@ == old(self).records@,
            same_but_records(*final(self), *old(self)),
    {
        match outcome {
            None => false,
            Some(fav) => {
                let mut k: usize = 0;
                while k < self.records.len() && self.records[k].id != id
                    invariant
                        self.records@ == old(self).records@,
                        k <= self.records.len(),
                        forall|j: int| 0 <= j < k ==> self.records@[j].id != id,
                    decreases self.records.len() - k,
                {
                    k += 1;
                }
                proof {
                    lemma_first_with_id(self.records@, id, k as int);
                }
                if k < self.records.len() {
                    self.records[k].is_favorite = fav;
                    proof {
                        assert(self.records@ =~= with_favorite(old(self).records@, id, fav));
                    }
                }
                fav
            },
        }
    }

    /// The warnings of the unlimited storage mode, given the record count and the database
    /// file size when the store could report them.
    pub fn storage_warnings(&self, count: Option<i64>, file_size: Option<u64>) -> (r: Vec<StorageWarning>)
        ensures
            r@ == storage_warnings_spec(self.config.max_records, count, file_size),
    {
        let mut warnings: Vec<StorageWarning> = Vec::new();
        if self.config.max_records != -1 {
            return warnings;
        }
        if let Some(c) = count {
            if c > RECORD_COUNT_THRESHOLD {
                warnings.push(StorageWarning::RecordCountExceeded(c));
            }
        }
        if let Some(s) = file_size {
            if s > FILE_SIZE_THRESHOLD {
                warnings.push(StorageWarning::FileSizeExceeded(s));
            }
        }
        proof {
            assert(warnings@ =~= storage_warnings_spec(self.config.max_records, count, file_size));
        }
        warnings
    }
}

/// Deleting a record from the list removes every record with its id and keeps every
/// other record, in order.
pub proof fn lemma_without_id(rs: Seq<ClipRecord>, id: i64)
    ensures
        forall|j: int| 0 <= j < without_id(rs, id).len() ==> (#[trigger] without_id(rs, id)[j]).id != id,
        forall|j: int| 0 <= j < rs.len() && (#[trigger] rs[j]).id != id ==> without_id(rs, id).contains(rs[j]),
        without_id(rs, id).len() <= rs.len(),
    decreases rs.len(),
{
    if rs.len() > 0 {
        let init = rs.drop_last();
        lemma_without_id(init, id);
        let w0 = without_id(init, id);
        assert forall|j: int| 0 <= j < rs.len() && (#[trigger] rs[j]).id != id implies without_id(rs, id).contains(rs[j]) by {
            if j < rs.len() - 1 {
                assert(init[j] == rs[j]);
                let k = choose|k: int| 0 <= k < w0.len() && w0[k] == init[j];
                if rs.last().id != id {
                    assert(without_id(rs, id)[k] == w0[k]);
                }
            } else {
                assert(without_id(rs, id)[w0.len() as int] == rs.last());
            }
        }
        if rs.last().id != id {
            assert forall|j: int| 0 <= j < without_id(rs, id).len() implies (#[trigger] without_id(rs, id)[j]).id != id by {
                if j < w0.len() {
                    assert(without_id(rs, id)[j] == w0[j]);
                }
            }
        }
    }
}

/// Setting the favourite flag of a listed record changes that flag of the first record
/// with the id and nothing else.
pub proof fn lemma_with_favorite(rs: Seq<ClipRecord>, id: i64, fav: bool)
    ensures
        with_favorite(rs, id, fav).len() == rs.len(),
        first_with_id(rs, id) >= 0 ==> {
            let k = first_with_id(rs, id);
            &&& 0 <= k < rs.len()
            &&& rs[k].id == id
            &&& with_favorite(rs, id, fav)[k].is_favorite == fav
            &&& with_favorite(rs, id, fav)[k].id == id
            &&& with_favorite(rs, id, fav)[k].content_hash == rs[k].content_hash
            &&& forall|j: int| 0 <= j < rs.len() && j != k ==> with_favorite(rs, id, fav)[j] == rs[j]
        },
        first_with_id(rs, id) < 0 ==> with_favorite(rs, id, fav) == rs,
        first_with_id(rs, id) < 0 ==> forall|j: int| 0 <= j < rs.len() ==> rs[j].id != id,
{
    lemma_first_with_id_range(rs, id);
}

proof fn lemma_first_with_id_range(rs: Seq<ClipRecord>, id: i64)
    ensures
        -1 <= first_with_id(rs, id) < rs.len(),
        first_with_id(rs, id) >= 0 ==> rs[first_with_id(rs, id)].id == id,
        first_with_id(rs, id) < 0 ==> forall|j: int| 0 <= j < rs.len() ==> rs[j].id != id,
    decreases rs.len(),
{
    if rs.len() > 0 && rs[0].id != id {
        lemma_first_with_id_range(rs.drop_first(), id);
        if first_with_id(rs, id) < 0 {
            assert forall|j: int| 0 <= j < rs.len() implies rs[j].id != id by {
                if j > 0 {
                    assert(rs.drop_first()[j - 1] == rs[j]);
                }
            }
        }
    }
}

} // verus!
