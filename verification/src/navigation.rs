use vstd::prelude::*;
use crate::epub::{ItemV, ManifestItem, manifest_lookup, manifest_get};
use crate::errors::EpubError;
use crate::paths::{build_full_path, join_root_spec};
use crate::strutil::str_eq;

verus! {

/// One entry of the table of contents: a non-empty label and the entry's
/// target, normalized at parse time to a path relative to the archive root.
pub struct TocEntry {
    pub label: String,
    pub href: String,
    pub id: Option<String>,
}

/// The mathematical value of a `TocEntry`.
pub struct TocEntryV {
    pub label: Seq<char>,
    pub href: Seq<char>,
    pub id: Option<Seq<char>>,
}

impl View for TocEntry {
    type V = TocEntryV;

    open spec fn view(&self) -> TocEntryV {
        TocEntryV { label: self.label@, href: self.href@, id: self.id.deep_view() }
    }
}

impl DeepView for TocEntry {
    type V = TocEntryV;

    open spec fn deep_view(&self) -> TocEntryV {
        self.view()
    }
}

/// Whether a forward move is possible from this cursor.
pub open spec fn next_moves(cursor: int, total: int) -> bool {
    cursor + 1 < total
}

/// The cursor after an attempted forward move.
pub open spec fn cursor_after_next(cursor: int, total: int) -> int {
    if next_moves(cursor, total) {
        cursor + 1
    } else {
        cursor
    }
}

/// Whether a backward move is possible from this cursor.
pub open spec fn prev_moves(cursor: int) -> bool {
    cursor > 0
}

/// The cursor after an attempted backward move.
pub open spec fn cursor_after_prev(cursor: int) -> int {
    if prev_moves(cursor) {
        cursor - 1
    } else {
        cursor
    }
}

/// Whether a seek to 1-based position `k` succeeds.
pub open spec fn goto_moves(total: int, k: int) -> bool {
    1 <= k <= total
}

/// The cursor after an attempted seek to 1-based position `k`.
pub open spec fn cursor_after_goto(cursor: int, total: int, k: int) -> int {
    if goto_moves(total, k) {
        k - 1
    } else {
        cursor
    }
}

/// The cursor after `times` attempted forward moves.
pub open spec fn iterate_next(cursor: int, total: int, times: nat) -> int
    decreases times,
{
    if times == 0 {
        cursor
    } else {
        iterate_next(cursor_after_next(cursor, total), total, (times - 1) as nat)
    }
}

/// The cursor after `times` attempted backward moves.
pub open spec fn iterate_prev(cursor: int, times: nat) -> int
    decreases times,
{
    if times == 0 {
        cursor
    } else {
        iterate_prev(cursor_after_prev(cursor), (times - 1) as nat)
    }
}

/// While it stays short of the last index, each forward move advances the
/// cursor by exactly one.
proof fn lemma_next_iterates(cursor: int, total: int, j: nat)
    requires
        0 <= cursor,
        cursor + j <= total - 1,
    ensures
        iterate_next(cursor, total, j) == cursor + j,
    decreases j,
{
    if j > 0 {
        lemma_next_iterates(cursor + 1, total, (j - 1) as nat);
    }
}

/// Each backward move short of the first index steps the cursor down by
/// exactly one.
proof fn lemma_prev_iterates(cursor: int, j: nat)
    requires
        j <= cursor,
    ensures
        iterate_prev(cursor, j) == cursor - j,
    decreases j,
{
    if j > 0 {
        lemma_prev_iterates(cursor - 1, (j - 1) as nat);
    }
}

/// For any total, a seek to a 1-based position `k` between 1 and the total
/// succeeds, and the position displayed afterwards is `(k, total)`.
pub proof fn lemma_goto_position(cursor: int, total: int, k: int)
    requires
        1 <= k <= total,
    ensures
        goto_moves(total, k),
        cursor_after_goto(cursor, total, k) + 1 == k,
{
}

/// A seek to 0, to one past the total, or over an empty spine reports
/// failure and leaves the cursor unchanged.
pub proof fn lemma_goto_invalid(cursor: int, total: int, k: int)
    requires
        k <= 0 || k > total || total == 0,
    ensures
        !goto_moves(total, k),
        cursor_after_goto(cursor, total, k) == cursor,
{
}

/// From the start, `total - 1` forward moves each report a move and land on
/// the last index; one more reports no move and leaves the cursor there.
pub proof fn lemma_next_reaches_last(total: int)
    requires
        total >= 1,
    ensures
        iterate_next(0, total, (total - 1) as nat) == total - 1,
        forall|j: nat| j < total - 1 ==> next_moves(#[trigger] iterate_next(0, total, j), total),
        !next_moves(total - 1, total),
        cursor_after_next(total - 1, total) == total - 1,
{
    lemma_next_iterates(0, total, (total - 1) as nat);
    assert forall|j: nat| j < total - 1 implies next_moves(
        #[trigger] iterate_next(0, total, j),
        total,
    ) by {
        lemma_next_iterates(0, total, j);
    }
}

/// From the last index, `total - 1` backward moves each report a move and
/// land on the first index; one more reports no move and leaves the cursor
/// there.
pub proof fn lemma_prev_reaches_first(total: int)
    requires
        total >= 1,
    ensures
        iterate_prev(total - 1, (total - 1) as nat) == 0,
        forall|j: nat| j < total - 1 ==> prev_moves(#[trigger] iterate_prev(total - 1, j)),
        !prev_moves(0),
        cursor_after_prev(0) == 0,
{
    lemma_prev_iterates(total - 1, (total - 1) as nat);
    assert forall|j: nat| j < total - 1 implies prev_moves(
        #[trigger] iterate_prev(total - 1, j),
    ) by {
        lemma_prev_iterates(total - 1, j);
    }
}

/// A cursor over the spine's reading order.
///
/// The navigator owns independent copies of the navigation data, so it can
/// be used and discarded without touching the package's archive handle. Its
/// cursor is always a valid spine index, or 0 while the spine is empty.
pub struct Navigator {
    pub spine_ids: Vec<String>,
    pub current_spine_index: usize,
    pub toc: Vec<TocEntry>,
    pub manifest: Vec<ManifestItem>,
    pub root_path: String,
}

impl Navigator {
    /// The cursor is in bounds, or parked at 0 over an empty spine.
    pub open spec fn wf(self) -> bool {
        &&& (self.spine_ids@.len() == 0 ==> self.current_spine_index == 0)
        &&& (self.spine_ids@.len() > 0 ==> (self.current_spine_index as int)
            < self.spine_ids@.len())
    }

    /// The two navigators hold the same book data; only the cursor may
    /// differ.
    pub open spec fn same_book(self, other: Navigator) -> bool {
        &&& self.spine_ids.deep_view() == other.spine_ids.deep_view()
        &&& self.toc.deep_view() == other.toc.deep_view()
        &&& self.manifest.deep_view() == other.manifest.deep_view()
        &&& self.root_path@ == other.root_path@
    }

    pub fn new(
        spine_ids: Vec<String>,
        toc: Vec<TocEntry>,
        manifest: Vec<ManifestItem>,
        root_path: String,
    ) -> (r: Navigator)
        ensures
            r.wf(),
            r.current_spine_index == 0,
            r.spine_ids == spine_ids,
            r.toc == toc,
            r.manifest == manifest,
            r.root_path == root_path,
    {
        Navigator { spine_ids, current_spine_index: 0, toc, manifest, root_path }
    }

    /// Advances the cursor by one if it is not already at the last index;
    /// reports whether it moved.
    pub fn next(&mut self) -> (moved: bool)
        requires
            old(self).wf(),
        ensures
            final(self).wf(),
            old(self).same_book(*final(self)),
            moved == next_moves(
                old(self).current_spine_index as int,
                old(self).spine_ids@.len() as int,
            ),
            final(self).current_spine_index as int == cursor_after_next(
                old(self).current_spine_index as int,
                old(self).spine_ids@.len() as int,
            ),
    {
        let total = self.spine_ids.len();
        if total > 0 && self.current_spine_index < total - 1 {
            self.current_spine_index = self.current_spine_index + 1;
            true
        } else {
            false
        }
    }

    /// Moves the cursor back by one if it is not already at 0; reports
    /// whether it moved.
    pub fn prev(&mut self) -> (moved: bool)
        requires
            old(self).wf(),
        ensures
            final(self).wf(),
            old(self).same_book(*final(self)),
            moved == prev_moves(old(self).current_spine_index as int),
            final(self).current_spine_index as int == cursor_after_prev(
                old(self).current_spine_index as int,
            ),
    {
        if self.current_spine_index > 0 {
            self.current_spine_index = self.current_spine_index - 1;
            true
        } else {
            false
        }
    }

    /// Seeks to a 1-based position: the cursor becomes `index_one_based - 1`
    /// exactly when `1 <= index_one_based <= total_chapters()`; any other
    /// argument leaves the cursor unchanged and reports failure.
    pub fn goto(&mut self, index_one_based: usize) -> (moved: bool)
        requires
            old(self).wf(),
        ensures
            final(self).wf(),
            old(self).same_book(*final(self)),
            moved == goto_moves(old(self).spine_ids@.len() as int, index_one_based as int),
            final(self).current_spine_index as int == cursor_after_goto(
                old(self).current_spine_index as int,
                old(self).spine_ids@.len() as int,
                index_one_based as int,
            ),
    {
        if index_one_based > 0 && index_one_based <= self.spine_ids.len() {
            self.current_spine_index = index_one_based - 1;
            true
        } else {
            false
        }
    }

    /// The spine id under the cursor, absent when the spine is empty.
    pub fn current_chapter_id(&self) -> (r: Option<&str>)
        requires
            self.wf(),
        ensures
            self.spine_ids@.len() == 0 ==> r is None,
            self.spine_ids@.len() > 0 ==> (r matches Some(s) && s@
                == self.spine_ids.deep_view()[self.current_spine_index as int]),
    {
        if self.spine_ids.len() == 0 {
            None
        } else {
            Some(self.spine_ids[self.current_spine_index].as_str())
        }
    }

    /// The archive path of the chapter under the cursor: the spine id is
    /// looked up in the manifest and the item's reference is joined with the
    /// root directory. Fails over an empty spine, or when the id has no
    /// manifest entry.
    pub fn current_chapter_href(&self) -> (r: Result<String, EpubError>)
        requires
            self.wf(),
        ensures
            self.spine_ids@.len() == 0 ==> (r matches Err(e) && e
                matches EpubError::InvalidChapterIndex(i) && i == self.current_spine_index),
            self.spine_ids@.len() > 0 ==> {
                let id = self.spine_ids.deep_view()[self.current_spine_index as int];
                match manifest_lookup(self.manifest.deep_view(), id) {
                    None => r matches Err(e) && e matches EpubError::ManifestItemNotFound(s)
                        && s@ == id,
                    Some(item) => r matches Ok(p) && p@ == join_root_spec(
                        self.root_path@,
                        item.href,
                    ),
                }
            },
    {
        if self.spine_ids.len() == 0 {
            return Err(EpubError::InvalidChapterIndex(self.current_spine_index));
        }
        let id = &self.spine_ids[self.current_spine_index];
        match manifest_get(&self.manifest, id.as_str()) {
            None => Err(EpubError::ManifestItemNotFound(id.clone())),
            Some(item) => Ok(build_full_path(self.root_path.as_str(), item.href.as_str())),
        }
    }

    /// The 1-based position of the cursor and the total number of chapters.
    pub fn current_position(&self) -> (r: (usize, usize))
        requires
            self.wf(),
        ensures
            r.0 == self.current_spine_index + 1,
            r.1 == self.spine_ids@.len(),
    {
        let total = self.spine_ids.len();
        (self.current_spine_index + 1, total)
    }

    /// The number of chapters in the spine.
    pub fn total_chapters(&self) -> (r: usize)
        ensures
            r == self.spine_ids@.len(),
    {
        self.spine_ids.len()
    }

    /// Whether the chapter at spine position `i` resolves to `target`.
    pub open spec fn spine_href_match(self, i: int, target: Seq<char>) -> bool {
        match manifest_lookup(self.manifest.deep_view(), self.spine_ids.deep_view()[i]) {
            Some(item) => join_root_spec(self.root_path@, item.href) == target,
            None => false,
        }
    }

    /// The first spine position whose chapter resolves to this archive
    /// path. This is the best-effort link from a table-of-contents entry
    /// back to a spine position: it compares resolved paths for plain
    /// equality, so an entry may stay unlinked even when it names the same
    /// resource another way.
    pub fn spine_index_of_href(&self, href: &str) -> (r: Option<usize>)
        ensures
            r matches Some(i) ==> i < self.spine_ids@.len() && self.spine_href_match(
                i as int,
                href@,
            ) && (forall|j: int| 0 <= j < i ==> !self.spine_href_match(j, href@)),
            r is None ==> forall|j: int|
                0 <= j < self.spine_ids@.len() ==> !self.spine_href_match(j, href@),
    {
        let n = self.spine_ids.len();
        let mut i: usize = 0;
        while i < n
            invariant
                n == self.spine_ids@.len(),
                i <= n,
                forall|j: int| 0 <= j < i ==> !self.spine_href_match(j, href@),
            decreases n - i,
        {
            match manifest_get(&self.manifest, self.spine_ids[i].as_str()) {
                Some(item) => {
                    let full = build_full_path(self.root_path.as_str(), item.href.as_str());
                    if str_eq(full.as_str(), href) {
                        return Some(i);
                    }
                },
                None => {},
            }
            i += 1;
        }
        None
    }

    /// The table of contents, in the order the source document gave it.
    pub fn get_toc(&self) -> (r: &Vec<TocEntry>)
        ensures
            r == self.toc,
    {
        &self.toc
    }
}

} // verus!
