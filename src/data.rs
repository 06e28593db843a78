//! Data directories and files: access lists, the paginated directory listing
//! and the decisions around create, delete, put and get.
use vstd::prelude::*;

use crate::algo::{all_texts, optional_text_member, texts_view};
use crate::error::{opt_text, AlgorithmiaError, ApiErrorResponse, ErrorView};
use crate::json::{Json, JsonView};
use crate::text::{
    ends_with_char, find_char, find_separator, has_prefix, index_from, last_index_of, rfind_char, same_text,
    separator_from,
};
use crate::Service;

verus! {

/// Who may read a directory: a list of principal patterns.
#[derive(Debug)]
pub struct DataAcl {
    pub read: Vec<String>,
}

impl View for DataAcl {
    type V = Seq<Seq<char>>;

    open spec fn view(&self) -> Seq<Seq<char>> {
        texts_view(self.read@)
    }
}

/// The read permissions that a directory can be given.
#[derive(Debug, Clone, Copy, PartialEq, Eq, Structural)]
pub enum ReadAcl {
    /// Readable only by the owner.
    Private,
    /// Readable by the owner's algorithms, whoever calls them.
    MyAlgorithms,
    /// Readable by any user.
    Public,
}

/// The read list that each permission stands for.
pub open spec fn read_list(acl: ReadAcl) -> Seq<Seq<char>> {
    match acl {
        ReadAcl::Private => Seq::empty(),
        ReadAcl::MyAlgorithms => seq!["algo://.my/*"@],
        ReadAcl::Public => seq!["user://*"@],
    }
}

impl From<ReadAcl> for DataAcl {
    fn from(acl: ReadAcl) -> (r: DataAcl)
        ensures
            r@ == read_list(acl),
    {
        let mut read: Vec<String> = Vec::new();
        match acl {
            ReadAcl::Private => {},
            ReadAcl::MyAlgorithms => read.push(String::from_str("algo://.my/*")),
            ReadAcl::Public => read.push(String::from_str("user://*")),
        }
        let r = DataAcl { read };
        assert(r@ =~= read_list(acl));
        r
    }
}

impl vstd::std_specs::convert::FromSpecImpl<ReadAcl> for DataAcl {
    open spec fn obeys_from_spec() -> bool {
        false
    }

    open spec fn from_spec(v: ReadAcl) -> DataAcl {
        arbitrary()
    }
}

impl Default for DataAcl {
    /// Readable by the owner's algorithms.
    fn default() -> (r: DataAcl)
        ensures
            r@ == read_list(ReadAcl::MyAlgorithms),
    {
        DataAcl::from(ReadAcl::MyAlgorithms)
    }
}

/// A sub-directory of a listed directory.
#[derive(Debug)]
pub struct FolderItem {
    pub name: String,
    pub acl: Option<DataAcl>,
}

/// A file of a listed directory.
#[derive(Debug)]
pub struct FileItem {
    pub filename: String,
    /// Size in bytes.
    pub size: u64,
    /// Last modification, in seconds since the Unix epoch.
    pub last_modified: i64,
}

/// One page of a directory listing.
#[derive(Debug)]
pub struct DirectoryShow {
    pub acl: Option<DataAcl>,
    pub folders: Option<Vec<FolderItem>>,
    pub files: Option<Vec<FileItem>>,
    /// Present when more pages follow.
    pub marker: Option<String>,
}

/// What a listing page holds: the directory's access list, folder names,
/// files, and the marker of the next page.
pub struct PageView {
    pub acl: Option<Seq<Seq<char>>>,
    pub folders: Seq<Seq<char>>,
    pub files: Seq<(Seq<char>, u64, i64)>,
    pub marker: Option<Seq<char>>,
}

impl View for DirectoryShow {
    type V = PageView;

    open spec fn view(&self) -> PageView {
        PageView {
            acl: opt_acl_view(self.acl),
            folders: match self.folders {
                Some(f) => f@.map_values(|x: FolderItem| x.name@),
                None => Seq::empty(),
            },
            files: match self.files {
                Some(f) => f@.map_values(|x: FileItem| (x.filename@, x.size, x.last_modified)),
                None => Seq::empty(),
            },
            marker: opt_text(self.marker),
        }
    }
}

/// An entry of a directory: a sub-directory or a file, by name.
#[derive(Debug)]
pub enum DirectoryEntry {
    SubDirectory(String),
    /// Name, size in bytes, last modification in seconds since the Unix epoch.
    File(String, u64, i64),
}

pub enum EntryView {
    SubDirectory(Seq<char>),
    File(Seq<char>, u64, i64),
}

impl View for DirectoryEntry {
    type V = EntryView;

    open spec fn view(&self) -> EntryView {
        match self {
            DirectoryEntry::SubDirectory(n) => EntryView::SubDirectory(n@),
            DirectoryEntry::File(n, s, t) => EntryView::File(n@, *s, *t),
        }
    }
}

impl DirectoryEntry {
    /// A copy with the same view.
    pub fn duplicate(&self) -> (r: DirectoryEntry)
        ensures
            r@ == self@,
    {
        match self {
            DirectoryEntry::SubDirectory(n) => DirectoryEntry::SubDirectory(n.clone()),
            DirectoryEntry::File(n, s, t) => DirectoryEntry::File(n.clone(), *s, *t),
        }
    }
}

/// The entries of one page: its sub-directories, then its files.
pub open spec fn page_entries(p: PageView) -> Seq<EntryView> {
    Seq::new(p.folders.len(), |i: int| EntryView::SubDirectory(p.folders[i])) + Seq::new(
        p.files.len(),
        |i: int| EntryView::File(p.files[i].0, p.files[i].1, p.files[i].2),
    )
}

/// What a listing is: the directory's access list as last received, the
/// entries not yet handed out, the marker of the next page, how many page
/// fetches were answered (counting stops at `u32::MAX`), and whether a fetch
/// failed.
pub struct ListingView {
    pub acl: Option<Seq<Seq<char>>>,
    pub pending: Seq<EntryView>,
    pub marker: Option<Seq<char>>,
    pub pages_fetched: u32,
    pub failed: bool,
}

/// What one step of a listing asks for.
#[derive(Debug)]
pub enum ListingStep {
    /// The next entry.
    Item(DirectoryEntry),
    /// Fetch the next page, passing this marker if there is one, and hand it
    /// to `receive`.
    Fetch(Option<String>),
    /// The listing is exhausted.
    Done,
}

pub enum StepView {
    Item(EntryView),
    Fetch(Option<Seq<char>>),
    Done,
}

impl View for ListingStep {
    type V = StepView;

    open spec fn view(&self) -> StepView {
        match self {
            ListingStep::Item(e) => StepView::Item(e@),
            ListingStep::Fetch(m) => StepView::Fetch(opt_text(*m)),
            ListingStep::Done => StepView::Done,
        }
    }
}

/// A fresh listing: nothing pending, nothing fetched.
pub open spec fn initial_listing() -> ListingView {
    ListingView { acl: None, pending: Seq::empty(), marker: None, pages_fetched: 0, failed: false }
}

/// Whether the listing needs another page: none was fetched yet, or the last
/// one had a marker; never after a failed fetch.
pub open spec fn wants_page(m: ListingView) -> bool {
    !m.failed && (m.pages_fetched == 0 || m.marker is Some)
}

/// One step: hand out the next pending entry, else ask for a page, else stop.
pub open spec fn next_of(m: ListingView) -> (StepView, ListingView) {
    if m.pending.len() > 0 {
        (StepView::Item(m.pending[0]), ListingView { pending: m.pending.drop_first(), ..m })
    } else if wants_page(m) {
        (StepView::Fetch(m.marker), m)
    } else {
        (StepView::Done, m)
    }
}

/// A count raised by one, staying at `u32::MAX` once there.
pub open spec fn one_more(n: u32) -> u32 {
    if n < u32::MAX {
        (n + 1) as u32
    } else {
        n
    }
}

/// The listing after a page fetch: a page replaces the pending entries and
/// the marker; a failure ends the listing.
pub open spec fn received(m: ListingView, page: Result<PageView, ErrorView>) -> ListingView {
    match page {
        Ok(p) => ListingView {
            acl: p.acl,
            pending: page_entries(p),
            marker: p.marker,
            pages_fetched: one_more(m.pages_fetched),
            failed: false,
        },
        Err(_) => ListingView { pages_fetched: one_more(m.pages_fetched), failed: true, ..m },
    }
}

/// The entries that stepping `m` hands out when each fetch is answered with
/// the next of `pages`.
pub open spec fn listing_trace(m: ListingView, pages: Seq<PageView>) -> Seq<EntryView>
    decreases pages.len(), m.pending.len(),
{
    let (step, after) = next_of(m);
    match step {
        StepView::Item(e) => seq![e] + listing_trace(after, pages),
        StepView::Fetch(_) => if pages.len() > 0 {
            listing_trace(received(after, Ok(pages[0])), pages.drop_first())
        } else {
            Seq::empty()
        },
        StepView::Done => Seq::empty(),
    }
}

/// The entries of all pages, page after page.
pub open spec fn all_entries(pages: Seq<PageView>) -> Seq<EntryView>
    decreases pages.len(),
{
    if pages.len() == 0 {
        Seq::empty()
    } else {
        page_entries(pages[0]) + all_entries(pages.drop_first())
    }
}

/// Whether each page but the last carries a marker and the last carries none.
pub open spec fn chained(pages: Seq<PageView>) -> bool {
    &&& pages.len() > 0
    &&& forall|i: int| 0 <= i < pages.len() - 1 ==> (#[trigger] pages[i]).marker is Some
    &&& pages.last().marker is None
}

pub open spec fn folder_count(pages: Seq<PageView>) -> nat
    decreases pages.len(),
{
    if pages.len() == 0 {
        0
    } else {
        pages[0].folders.len() + folder_count(pages.drop_first())
    }
}

pub open spec fn file_count(pages: Seq<PageView>) -> nat
    decreases pages.len(),
{
    if pages.len() == 0 {
        0
    } else {
        pages[0].files.len() + file_count(pages.drop_first())
    }
}

/// Pending entries are handed out first, in order.
proof fn lemma_trace_drains(m: ListingView, pages: Seq<PageView>)
    ensures
        listing_trace(m, pages) == m.pending + listing_trace(ListingView { pending: Seq::empty(), ..m }, pages),
    decreases m.pending.len(),
{
    if m.pending.len() > 0 {
        let after = ListingView { pending: m.pending.drop_first(), ..m };
        lemma_trace_drains(after, pages);
        assert(ListingView { pending: Seq::empty(), ..after } == ListingView { pending: Seq::empty(), ..m });
        assert(m.pending =~= seq![m.pending[0]] + after.pending);
        assert(listing_trace(m, pages) =~= m.pending + listing_trace(ListingView { pending: Seq::empty(), ..m }, pages));
    } else {
        assert(m.pending =~= Seq::<EntryView>::empty());
        assert(ListingView { pending: Seq::empty(), ..m } == m);
        assert(listing_trace(m, pages) =~= m.pending + listing_trace(m, pages));
    }
}

/// A listing that wants a page hands out every entry of a chain of pages.
proof fn lemma_trace_of_chain(m: ListingView, pages: Seq<PageView>)
    requires
        m.pending.len() == 0,
        wants_page(m),
        chained(pages),
    ensures
        listing_trace(m, pages) == all_entries(pages),
    decreases pages.len(),
{
    let got = received(m, Ok(pages[0]));
    let rest = pages.drop_first();
    lemma_trace_drains(got, rest);
    let emptied = ListingView { pending: Seq::empty(), ..got };
    if rest.len() > 0 {
        assert(pages[0].marker is Some);
        assert forall|i: int| 0 <= i < rest.len() - 1 implies (#[trigger] rest[i]).marker is Some by {
            assert(rest[i] == pages[i + 1]);
        }
        assert(rest.last() == pages.last());
        lemma_trace_of_chain(emptied, rest);
    } else {
        assert(pages.last() == pages[0]);
        assert(listing_trace(emptied, rest) =~= Seq::<EntryView>::empty());
        assert(all_entries(rest) =~= Seq::<EntryView>::empty());
    }
    assert(all_entries(pages) == page_entries(pages[0]) + all_entries(rest));
}

/// A new listing, fed a chain of pages, hands out exactly the entries of
/// those pages: each page's sub-directories, then its files, page after page,
/// nothing twice and nothing out of order; `N + M` entries in all for `N`
/// sub-directories and `M` files.
pub proof fn lemma_listing_yields_every_entry(pages: Seq<PageView>)
    requires
        chained(pages),
    ensures
        listing_trace(initial_listing(), pages) == all_entries(pages),
        all_entries(pages).len() == folder_count(pages) + file_count(pages),
{
    lemma_trace_of_chain(initial_listing(), pages);
    lemma_entries_count(pages);
}

proof fn lemma_entries_count(pages: Seq<PageView>)
    ensures
        all_entries(pages).len() == folder_count(pages) + file_count(pages),
    decreases pages.len(),
{
    if pages.len() > 0 {
        lemma_entries_count(pages.drop_first());
    }
}

/// Pages without sub-directories give files only.
proof fn lemma_files_only(pages: Seq<PageView>)
    requires
        forall|i: int| 0 <= i < pages.len() ==> (#[trigger] pages[i]).folders.len() == 0,
    ensures
        forall|k: int| 0 <= k < all_entries(pages).len() ==> (#[trigger] all_entries(pages)[k]) is File,
        folder_count(pages) == 0,
    decreases pages.len(),
{
    if pages.len() > 0 {
        let rest = pages.drop_first();
        assert forall|i: int| 0 <= i < rest.len() implies (#[trigger] rest[i]).folders.len() == 0 by {
            assert(rest[i] == pages[i + 1]);
        }
        lemma_files_only(rest);
        assert(pages[0].folders.len() == 0);
        let e = all_entries(pages);
        let pe = page_entries(pages[0]);
        assert forall|k: int| 0 <= k < e.len() implies (#[trigger] e[k]) is File by {
            if k < pe.len() {
                assert(e[k] == pe[k]);
            } else {
                assert(e[k] == all_entries(rest)[k - pe.len()]);
            }
        }
    }
}

/// Where no page that follows a page with files has sub-directories, all `N`
/// sub-directories come before every file.
pub proof fn lemma_directories_before_files(pages: Seq<PageView>)
    requires
        forall|i: int, j: int|
            0 <= i < j < pages.len() && (#[trigger] pages[i]).files.len() > 0 ==> (#[trigger] pages[j]).folders.len() == 0,
    ensures
        forall|k: int| 0 <= k < folder_count(pages) ==> (#[trigger] all_entries(pages)[k]) is SubDirectory,
        forall|k: int|
            folder_count(pages) <= k < all_entries(pages).len() ==> (#[trigger] all_entries(pages)[k]) is File,
    decreases pages.len(),
{
    if pages.len() > 0 {
        let rest = pages.drop_first();
        let e = all_entries(pages);
        let pe = page_entries(pages[0]);
        let n0 = pages[0].folders.len();
        lemma_entries_count(rest);
        if pages[0].files.len() > 0 {
            assert forall|i: int| 0 <= i < rest.len() implies (#[trigger] rest[i]).folders.len() == 0 by {
                assert(rest[i] == pages[i + 1]);
            }
            lemma_files_only(rest);
            assert forall|k: int| 0 <= k < folder_count(pages) implies (#[trigger] e[k]) is SubDirectory by {
                assert(e[k] == pe[k]);
            }
            assert forall|k: int| folder_count(pages) <= k < e.len() implies (#[trigger] e[k]) is File by {
                if k < pe.len() {
                    assert(e[k] == pe[k]);
                } else {
                    assert(e[k] == all_entries(rest)[k - pe.len()]);
                }
            }
        } else {
            assert forall|i: int, j: int|
                0 <= i < j < rest.len() && (#[trigger] rest[i]).files.len() > 0 implies (#[trigger] rest[j]).folders.len() == 0 by {
                assert(rest[i] == pages[i + 1]);
                assert(rest[j] == pages[j + 1]);
            }
            lemma_directories_before_files(rest);
            assert forall|k: int| 0 <= k < folder_count(pages) implies (#[trigger] e[k]) is SubDirectory by {
                if k < n0 {
                    assert(e[k] == pe[k]);
                } else {
                    assert(e[k] == all_entries(rest)[k - n0]);
                }
            }
            assert forall|k: int| folder_count(pages) <= k < e.len() implies (#[trigger] e[k]) is File by {
                assert(e[k] == all_entries(rest)[k - n0]);
            }
        }
    }
}

/// A new listing fed a chain of pages, where no page that follows a page with
/// files has sub-directories, hands out its `N` sub-directories before any
/// file, and `N + M` entries in all.
pub proof fn lemma_listing_directories_first(pages: Seq<PageView>)
    requires
        chained(pages),
        forall|i: int, j: int|
            0 <= i < j < pages.len() && (#[trigger] pages[i]).files.len() > 0 ==> (#[trigger] pages[j]).folders.len() == 0,
    ensures
        listing_trace(initial_listing(), pages).len() == folder_count(pages) + file_count(pages),
        forall|k: int| 0 <= k < folder_count(pages) ==> (#[trigger] listing_trace(initial_listing(), pages)[k]) is SubDirectory,
        forall|k: int|
            folder_count(pages) <= k < listing_trace(initial_listing(), pages).len()
                ==> (#[trigger] listing_trace(initial_listing(), pages)[k]) is File,
{
    lemma_listing_yields_every_entry(pages);
    lemma_directories_before_files(pages);
}

/// Once a listing reports that it is exhausted it stays so, and its state
/// does not change.
pub proof fn lemma_exhausted_stays_exhausted(m: ListingView)
    requires
        next_of(m).0 is Done,
    ensures
        next_of(m).1 == m,
        next_of(next_of(m).1).0 is Done,
{
}

/// The paginated listing of a directory, driven one step at a time: each
/// step hands out an entry, asks for a page, or reports the end.
#[derive(Debug)]
pub struct DirectoryListing {
    acl: Option<DataAcl>,
    pending: Vec<DirectoryEntry>,
    next: usize,
    marker: Option<String>,
    pages_fetched: u32,
    failed: bool,
}

pub open spec fn entries_view(s: Seq<DirectoryEntry>) -> Seq<EntryView> {
    s.map_values(|e: DirectoryEntry| e@)
}

impl View for DirectoryListing {
    type V = ListingView;

    closed spec fn view(&self) -> ListingView {
        ListingView {
            acl: opt_acl_view(self.acl),
            pending: entries_view(self.pending@.subrange(self.next as int, self.pending@.len() as int)),
            marker: opt_text(self.marker),
            pages_fetched: self.pages_fetched,
            failed: self.failed,
        }
    }
}

fn copy_text(s: &Option<String>) -> (r: Option<String>)
    ensures
        opt_text(r) == opt_text(*s),
{
    match s {
        Some(t) => Some(t.clone()),
        None => None,
    }
}

impl DirectoryListing {
    pub closed spec fn wf(&self) -> bool {
        self.next <= self.pending@.len()
    }

    /// A listing that has fetched nothing yet.
    pub fn new() -> (r: DirectoryListing)
        ensures
            r.wf(),
            r@ == initial_listing(),
    {
        let r = DirectoryListing {
            acl: None,
            pending: Vec::new(),
            next: 0,
            marker: None,
            pages_fetched: 0,
            failed: false,
        };
        assert(r@.pending =~= Seq::<EntryView>::empty());
        r
    }

    /// The access list of the directory, once a page that carries one was received.
    pub fn acl(&self) -> (r: &Option<DataAcl>)
        ensures
            opt_acl_view(*r) == self@.acl,
    {
        &self.acl
    }

    /// How many page fetches were answered (at most `u32::MAX` is counted).
    pub fn pages_fetched(&self) -> (r: u32)
        ensures
            r == self@.pages_fetched,
    {
        self.pages_fetched
    }

    /// The next step: the next entry, a page to fetch, or the end.
    pub fn next_step(&mut self) -> (r: ListingStep)
        requires
            old(self).wf(),
        ensures
            final(self).wf(),
            (r@, final(self)@) == next_of(old(self)@),
    {
        let ghost m = self@;
        if self.next < self.pending.len() {
            let e = self.pending[self.next].duplicate();
            proof {
                assert(m.pending[0] == e@);
            }
            self.next = self.next + 1;
            proof {
                assert(self@.pending =~= m.pending.drop_first());
            }
            ListingStep::Item(e)
        } else if !self.failed && (self.pages_fetched == 0 || self.marker.is_some()) {
            proof {
                assert(m.pending =~= Seq::<EntryView>::empty());
            }
            ListingStep::Fetch(copy_text(&self.marker))
        } else {
            proof {
                assert(m.pending =~= Seq::<EntryView>::empty());
            }
            ListingStep::Done
        }
    }

    /// Takes the answer to a fetch: a page replaces the pending entries and
    /// the marker; a failure is handed back and ends the listing.
    pub fn receive(&mut self, page: Result<DirectoryShow, AlgorithmiaError>) -> (r: Option<AlgorithmiaError>)
        requires
            old(self).wf(),
        ensures
            final(self).wf(),
            final(self)@.pages_fetched == one_more(old(self)@.pages_fetched),
            final(self)@ == received(
                old(self)@,
                match page {
                    Ok(p) => Ok(p@),
                    Err(e) => Err(e@),
                },
            ),
            match r {
                Some(e) => page matches Err(pe) && e == pe,
                None => page is Ok,
            },
    {
        let count = self.pages_fetched.saturating_add(1);
        match page {
            Ok(show) => {
                let ghost p = show@;
                let mut entries: Vec<DirectoryEntry> = Vec::new();
                match &show.folders {
                    Some(folders) => {
                        let mut i: usize = 0;
                        while i < folders.len()
                            invariant
                                i <= folders@.len(),
                                p.folders == folders@.map_values(|x: FolderItem| x.name@),
                                entries@.len() == i,
                                forall|k: int| 0 <= k < i ==> #[trigger] entries@[k]@ == EntryView::SubDirectory(p.folders[k]),
                            decreases folders@.len() - i,
                        {
                            entries.push(DirectoryEntry::SubDirectory(folders[i].name.clone()));
                            i = i + 1;
                        }
                    },
                    None => {},
                }
                assert(entries@.len() == p.folders.len());
                let nf = entries.len();
                match &show.files {
                    Some(files) => {
                        let mut i: usize = 0;
                        while i < files.len()
                            invariant
                                i <= files@.len(),
                                nf == p.folders.len(),
                                p.files == files@.map_values(|x: FileItem| (x.filename@, x.size, x.last_modified)),
                                entries@.len() == nf + i,
                                forall|k: int| 0 <= k < nf ==> #[trigger] entries@[k]@ == EntryView::SubDirectory(p.folders[k]),
                                forall|k: int| 0 <= k < i ==> #[trigger] entries@[nf + k]@ == EntryView::File(p.files[k].0, p.files[k].1, p.files[k].2),
                            decreases files@.len() - i,
                        {
                            let f = &files[i];
                            entries.push(DirectoryEntry::File(f.filename.clone(), f.size, f.last_modified));
                            i = i + 1;
                        }
                    },
                    None => {},
                }
                assert(entries@.len() == nf + p.files.len());
                assert forall|k: int| 0 <= k < entries@.len() implies #[trigger] entries_view(entries@)[k] == page_entries(p)[k] by {
                    if k >= nf {
                        assert(entries@[nf + (k - nf)]@ == EntryView::File(p.files[k - nf].0, p.files[k - nf].1, p.files[k - nf].2));
                    }
                }
                assert(entries_view(entries@) =~= page_entries(p));
                self.pending = entries;
                self.next = 0;
                self.marker = show.marker;
                self.acl = show.acl;
                self.pages_fetched = count;
                self.failed = false;
                proof {
                    assert(self@.pending =~= page_entries(p));
                }
                None
            },
            Err(e) => {
                self.pages_fetched = count;
                self.failed = true;
                Some(e)
            },
        }
    }
}

/// The path of a child named `name` under `path`: a separator is inserted
/// only where `path` does not already end with one.
pub open spec fn child_path(path: Seq<char>, name: Seq<char>) -> Seq<char> {
    if path.len() > 0 && path.last() == '/' {
        path + name
    } else {
        path + "/"@ + name
    }
}

/// The API endpoint of the stored path `path`: the base URL,
/// `/v1/connector/`, then the path.
pub open spec fn data_url(service: Service, path: Seq<char>) -> Seq<char> {
    service.base_url@ + "/v1/connector/"@ + path
}

/// How a data URI is stored: `scheme://rest` as `scheme/rest` (`scheme` alone
/// when nothing follows), and a plain path as one under `data/`.
pub open spec fn data_uri_path(uri: Seq<char>) -> Seq<char> {
    match separator_from(uri, 0) {
        Some(k) => if k + 3 == uri.len() {
            uri.subrange(0, k)
        } else {
            uri.subrange(0, k) + "/"@ + uri.subrange(k + 3, uri.len() as int)
        },
        None => if has_prefix(uri, "/"@) {
            "data/"@ + uri.subrange(1, uri.len() as int)
        } else {
            "data/"@ + uri
        },
    }
}

/// The data URI of a stored path: its first segment becomes the scheme.
pub open spec fn path_data_uri(path: Seq<char>) -> Seq<char> {
    match index_from(path, '/', 0) {
        Some(k) => path.subrange(0, k) + "://"@ + path.subrange(k + 1, path.len() as int),
        None => path + "://"@,
    }
}

/// Stores a data URI or path as `data_uri_path` says.
pub fn parse_data_uri(uri: &str) -> (r: String)
    ensures
        r@ == data_uri_path(uri@),
{
    proof {
        reveal_strlit("/");
    }
    let n = uri.unicode_len();
    match find_separator(uri) {
        Some(k) => {
            if k + 3 == n {
                String::from_str(uri.substring_char(0, k))
            } else {
                String::from_str(uri.substring_char(0, k)).concat("/").concat(uri.substring_char(k + 3, n))
            }
        },
        None => {
            if crate::text::starts_with(uri, "/") {
                String::from_str("data/").concat(uri.substring_char(1, n))
            } else {
                String::from_str("data/").concat(uri)
            }
        },
    }
}

/// The data URI of a stored path.
fn data_uri_of(path: &str) -> (r: String)
    ensures
        r@ == path_data_uri(path@),
{
    match find_char(path, '/') {
        Some(k) => {
            let n = path.unicode_len();
            String::from_str(path.substring_char(0, k)).concat("://").concat(path.substring_char(k + 1, n))
        },
        None => String::from_str(path).concat("://"),
    }
}

/// The part of `path` before its last separator, if it has one.
pub open spec fn parent_path(path: Seq<char>) -> Option<Seq<char>> {
    match last_index_of(path, '/') {
        Some(i) => Some(path.subrange(0, i)),
        None => None,
    }
}

/// The part of `path` after its last separator, or all of it.
pub open spec fn base_name(path: Seq<char>) -> Seq<char> {
    match last_index_of(path, '/') {
        Some(i) => path.subrange(i + 1, path.len() as int),
        None => path,
    }
}

/// A handle on a path of the data store.
pub trait HasDataPath: Sized {
    spec fn data_path(&self) -> Seq<char>;

    spec fn data_service(&self) -> Service;

    /// A handle on the data URI or path `path`, reached through `service`.
    fn new(service: Service, path: &str) -> (r: Self)
        ensures
            r.data_path() == data_uri_path(path@),
            r.data_service() == service,
    ;

    /// Its data URI, such as `data://owner/dir`.
    fn to_data_uri(&self) -> (r: String)
        ensures
            r@ == path_data_uri(self.data_path()),
    ;

    /// Its API endpoint: the base URL, `/v1/connector/`, then its path.
    fn to_url(&self) -> (r: String)
        ensures
            r@ == data_url(self.data_service(), self.data_path()),
    ;

    /// Its path.
    fn path(&self) -> (r: &str)
        ensures
            r@ == self.data_path(),
    ;

    /// The service it is reached through.
    fn service(&self) -> (r: &Service)
        ensures
            *r == self.data_service(),
    ;
}

/// The last `/` of `path` and what it splits `path` into.
fn split_last(path: &str) -> (r: Option<(&str, &str)>)
    ensures
        match r {
            Some((parent, base)) => parent_path(path@) == Some(parent@) && base_name(path@) == base@,
            None => parent_path(path@) is None && base_name(path@) == path@,
        },
{
    match rfind_char(path, '/') {
        Some(i) => {
            proof {
                crate::text::lemma_last_index_in_range(path@, '/');
            }
            let n = path.unicode_len();
            Some((path.substring_char(0, i), path.substring_char(i + 1, n)))
        },
        None => None,
    }
}

/// A directory of the data store.
#[derive(Debug)]
pub struct DataDir {
    path: String,
    service: Service,
}

impl HasDataPath for DataDir {
    closed spec fn data_path(&self) -> Seq<char> {
        self.path@
    }

    closed spec fn data_service(&self) -> Service {
        self.service
    }

    fn new(service: Service, path: &str) -> (r: DataDir) {
        DataDir { path: parse_data_uri(path), service }
    }

    fn to_data_uri(&self) -> (r: String) {
        data_uri_of(self.path.as_str())
    }

    fn to_url(&self) -> (r: String) {
        self.service.base_url.clone().concat("/v1/connector/").concat(self.path.as_str())
    }

    fn path(&self) -> (r: &str) {
        self.path.as_str()
    }

    fn service(&self) -> (r: &Service) {
        &self.service
    }
}

/// A file of the data store.
#[derive(Debug)]
pub struct DataFile {
    path: String,
    service: Service,
}

impl HasDataPath for DataFile {
    closed spec fn data_path(&self) -> Seq<char> {
        self.path@
    }

    closed spec fn data_service(&self) -> Service {
        self.service
    }

    fn new(service: Service, path: &str) -> (r: DataFile) {
        DataFile { path: parse_data_uri(path), service }
    }

    fn to_data_uri(&self) -> (r: String) {
        data_uri_of(self.path.as_str())
    }

    fn to_url(&self) -> (r: String) {
        self.service.base_url.clone().concat("/v1/connector/").concat(self.path.as_str())
    }

    fn path(&self) -> (r: &str) {
        self.path.as_str()
    }

    fn service(&self) -> (r: &Service) {
        &self.service
    }
}

/// Response when deleting a directory.
#[derive(Debug)]
pub struct DirectoryDeleted {
    /// Number of files that were deleted.
    pub deleted: u64,
}

/// The error that a failed request reports: its error envelope if the body
/// holds one, else its status.
pub open spec fn failure_of(status: u16, body: Option<JsonView>) -> ErrorView {
    match body {
        Some(j) => match crate::algo::api_error_of(j) {
            Some((e, st)) => ErrorView::Api(e, st),
            None => ErrorView::Status(status),
        },
        None => ErrorView::Status(status),
    }
}

pub open spec fn is_success(status: u16) -> bool {
    200 <= status < 300
}

/// The error for a failed request: its error envelope, else its status.
pub fn failure(status: u16, body: Option<&Json>) -> (r: AlgorithmiaError)
    ensures
        r@ == failure_of(status, crate::algo::opt_json_ref_view(body)),
{
    match body {
        Some(j) => match ApiErrorResponse::from_json(j) {
            Some(e) => AlgorithmiaError::Api(e),
            None => AlgorithmiaError::Status(status),
        },
        None => AlgorithmiaError::Status(status),
    }
}

/// What a request that needs no body on success comes to: success on any
/// 2xx, `NotFound` with the resource's URL on 404, else the failure its body
/// or status reports.
pub open spec fn plain_outcome(url: Seq<char>, status: u16, body: Option<JsonView>) -> Result<(), ErrorView> {
    if is_success(status) {
        Ok(())
    } else if status == 404 {
        Err(ErrorView::NotFound(url))
    } else {
        Err(failure_of(status, body))
    }
}

pub open spec fn unit_view(r: Result<(), AlgorithmiaError>) -> Result<(), ErrorView> {
    match r {
        Ok(_) => Ok(()),
        Err(e) => Err(e@),
    }
}

fn plain_result(url: String, status: u16, body: Option<&Json>) -> (r: Result<(), AlgorithmiaError>)
    ensures
        unit_view(r) == plain_outcome(url@, status, crate::algo::opt_json_ref_view(body)),
{
    if 200 <= status && status < 300 {
        Ok(())
    } else if status == 404 {
        Err(AlgorithmiaError::NotFound(url))
    } else {
        Err(failure(status, body))
    }
}

/// The `deleted` count of a directory deletion response `{"result": {"deleted": n}}`.
pub open spec fn deleted_count_of(j: JsonView) -> Option<u64> {
    match j.member("result"@) {
        Some(r) => match r.member("deleted"@) {
            Some(JsonView::Number(n)) => crate::text::decimal_u64(n),
            _ => None,
        },
        None => None,
    }
}

/// The JSON that asks for a folder named `name` with read list `read`.
pub open spec fn folder_request(name: Seq<char>, read: Seq<Seq<char>>) -> JsonView {
    JsonView::Object(
        seq![
            ("name"@, JsonView::Str(name)),
            ("acl"@, JsonView::Object(seq![("read"@, JsonView::Array(Seq::new(read.len(), |i: int| JsonView::Str(read[i]))))])),
        ],
    )
}

/// An access list as JSON: `{"read": [...]}`.
pub fn acl_json(acl: &DataAcl) -> (r: Json)
    ensures
        r@ == JsonView::Object(
            seq![("read"@, JsonView::Array(Seq::new(acl@.len(), |i: int| JsonView::Str(acl@[i]))))],
        ),
{
    let mut items: Vec<Json> = Vec::new();
    let mut i: usize = 0;
    while i < acl.read.len()
        invariant
            i <= acl.read@.len(),
            items@.len() == i,
            forall|k: int| 0 <= k < i ==> #[trigger] crate::json::json_view(items@[k]) == JsonView::Str(acl.read@[k]@),
        decreases acl.read@.len() - i,
    {
        items.push(Json::Str(acl.read[i].clone()));
        i = i + 1;
    }
    proof {
        crate::json::lemma_items_view(items@);
        assert(crate::json::items_view(items@) =~= Seq::new(acl@.len(), |k: int| JsonView::Str(acl@[k])));
    }
    let mut members: Vec<(String, Json)> = Vec::new();
    members.push((String::from_str("read"), Json::Array(items)));
    proof {
        crate::json::lemma_members_view(members@);
        assert(crate::json::members_view(members@) =~= seq![("read"@, JsonView::Array(Seq::new(acl@.len(), |k: int| JsonView::Str(acl@[k]))))]);
    }
    Json::Object(members)
}

impl DataDir {
    /// A listing of this directory, which fetches nothing until stepped.
    pub fn list(&self) -> (r: DirectoryListing)
        ensures
            r.wf(),
            r@ == initial_listing(),
    {
        DirectoryListing::new()
    }

    /// The handle of the child named `name`: a sub-directory or a file. Its
    /// data URI is this one's with `name` appended, a separator inserted only
    /// where none ends it.
    pub fn child<T: HasDataPath>(&self, name: &str) -> (r: T)
        ensures
            r.data_path() == data_uri_path(child_path(path_data_uri(self.data_path()), name@)),
            r.data_service() == self.data_service(),
    {
        let uri = data_uri_of(self.path.as_str());
        let p = uri.as_str();
        let path = if ends_with_char(p, '/') {
            String::from_str(p).concat(name)
        } else {
            String::from_str(p).concat("/").concat(name)
        };
        T::new(self.service.clone(), path.as_str())
    }

    /// The directory that holds this one, if the path has a separator.
    pub fn parent(&self) -> (r: Option<DataDir>)
        ensures
            match r {
                Some(d) => parent_path(self.data_path()) == Some(d.data_path()) && d.data_service() == self.data_service(),
                None => parent_path(self.data_path()) is None,
            },
    {
        match split_last(self.path.as_str()) {
            Some((parent, _)) => Some(DataDir { path: String::from_str(parent), service: self.service.clone() }),
            None => None,
        }
    }

    /// The last segment of the path.
    pub fn basename(&self) -> (r: &str)
        ensures
            r@ == base_name(self.data_path()),
    {
        match split_last(self.path.as_str()) {
            Some((_, base)) => base,
            None => self.path.as_str(),
        }
    }

    /// Where to send a request that creates this directory, and the request
    /// body: its parent, and `{"name": <basename>, "acl": {"read": [...]}}`.
    /// A path without a parent is an `InvalidPath`.
    pub fn create_request(&self, acl: DataAcl) -> (r: Result<(DataDir, Json), AlgorithmiaError>)
        ensures
            match r {
                Ok((parent, body)) => parent_path(self.data_path()) == Some(parent.data_path())
                    && parent.data_service() == self.data_service()
                    && body@ == folder_request(base_name(self.data_path()), acl@),
                Err(e) => parent_path(self.data_path()) is None && e@ == ErrorView::InvalidPath(self.data_path()),
            },
    {
        match split_last(self.path.as_str()) {
            Some((parent, base)) => {
                let acl_value = acl_json(&acl);
                let mut members: Vec<(String, Json)> = Vec::new();
                members.push((String::from_str("name"), Json::Str(String::from_str(base))));
                members.push((String::from_str("acl"), acl_value));
                proof {
                    crate::json::lemma_members_view(members@);
                    assert(crate::json::members_view(members@) =~= seq![
                        ("name"@, JsonView::Str(base@)),
                        ("acl"@, JsonView::Object(seq![("read"@, JsonView::Array(Seq::new(acl@.len(), |i: int| JsonView::Str(acl@[i]))))])),
                    ]);
                }
                Ok((DataDir { path: String::from_str(parent), service: self.service.clone() }, Json::Object(members)))
            },
            None => Err(AlgorithmiaError::InvalidPath(self.path.clone())),
        }
    }

    /// What a creation request's answer comes to.
    pub fn create_outcome(&self, status: u16, body: Option<&Json>) -> (r: Result<(), AlgorithmiaError>)
        ensures
            unit_view(r) == plain_outcome(data_url(self.data_service(), self.data_path()), status, crate::algo::opt_json_ref_view(body)),
    {
        plain_result(self.to_url(), status, body)
    }

    /// What a deletion request's answer comes to: the number of deleted files
    /// on success, `DecodeJson` where that answer does not hold it.
    pub fn delete_outcome(&self, status: u16, body: Option<&Json>) -> (r: Result<DirectoryDeleted, AlgorithmiaError>)
        ensures
            is_success(status) ==> match r {
                Ok(d) => (body matches Some(j) && deleted_count_of(j@) == Some(d.deleted)),
                Err(e) => (body is None || deleted_count_of(body->0@) is None)
                    && e@ == ErrorView::DecodeJson("directory deletion response"@),
            },
            !is_success(status) ==> (r matches Err(e) && Err::<(), ErrorView>(e@) == plain_outcome(
                data_url(self.data_service(), self.data_path()),
                status,
                crate::algo::opt_json_ref_view(body),
            )),
    {
        if 200 <= status && status < 300 {
            let count = match body {
                Some(j) => match j.member("result") {
                    Some(res) => match res.member("deleted") {
                        Some(Json::Number(n)) => crate::text::parse_u64(n.as_str()),
                        _ => None,
                    },
                    None => None,
                },
                None => None,
            };
            match count {
                Some(deleted) => Ok(DirectoryDeleted { deleted }),
                None => Err(AlgorithmiaError::DecodeJson(String::from_str("directory deletion response"))),
            }
        } else {
            match plain_result(self.to_url(), status, body) {
                Err(e) => Err(e),
                Ok(_) => Err(AlgorithmiaError::Status(status)),
            }
        }
    }

    /// What the answer to a listing page request comes to. `data_type` is the
    /// resource kind the answer declares, if any.
    pub fn listing_outcome(&self, status: u16, data_type: Option<&str>, body: Option<&Json>) -> (r: Result<DirectoryShow, AlgorithmiaError>)
        ensures
            match r {
                Ok(page) => is_success(status) && (body matches Some(j) && page_of(j@) == Some(page@))
                    && (data_type matches Some(t) ==> t@ == "directory"@),
                Err(e) => if is_success(status) {
                    if data_type matches Some(t) && t@ != "directory"@ {
                        e@ == ErrorView::UnexpectedDataType("directory"@, data_type->0@)
                    } else {
                        (body is None || page_of(body->0@) is None) && e@ == ErrorView::DecodeJson("directory listing"@)
                    }
                } else {
                    Err::<(), ErrorView>(e@) == plain_outcome(data_url(self.data_service(), self.data_path()), status, crate::algo::opt_json_ref_view(body))
                },
            },
    {
        if 200 <= status && status < 300 {
            if let Some(t) = data_type {
                if !same_text(t, "directory") {
                    return Err(AlgorithmiaError::UnexpectedDataType(String::from_str("directory"), String::from_str(t)));
                }
            }
            let page = match body {
                Some(j) => DirectoryShow::from_json(j),
                None => None,
            };
            match page {
                Some(p) => Ok(p),
                None => Err(AlgorithmiaError::DecodeJson(String::from_str("directory listing"))),
            }
        } else {
            match plain_result(self.to_url(), status, body) {
                Err(e) => Err(e),
                Ok(_) => Err(AlgorithmiaError::Status(status)),
            }
        }
    }
}

/// When a downloaded file declares no modification time: 2015-03-14T08:00:00Z.
pub const DEFAULT_LAST_MODIFIED: i64 = 1426320000;

impl DataFile {
    /// What the answer to a write comes to.
    pub fn put_outcome(&self, status: u16, body: Option<&Json>) -> (r: Result<(), AlgorithmiaError>)
        ensures
            unit_view(r) == plain_outcome(data_url(self.data_service(), self.data_path()), status, crate::algo::opt_json_ref_view(body)),
    {
        plain_result(self.to_url(), status, body)
    }

    /// What the answer to a deletion comes to.
    pub fn delete_outcome(&self, status: u16, body: Option<&Json>) -> (r: Result<(), AlgorithmiaError>)
        ensures
            unit_view(r) == plain_outcome(data_url(self.data_service(), self.data_path()), status, crate::algo::opt_json_ref_view(body)),
    {
        plain_result(self.to_url(), status, body)
    }

    /// What the answer to a download comes to: its size (0 when not
    /// declared) and last modification (`DEFAULT_LAST_MODIFIED` when not
    /// declared) on 200 for a file; `UnexpectedDataType` when it declares
    /// another kind than `file`; `NotFound` with its URL on 404; else its
    /// status.
    pub fn get_outcome(&self, status: u16, data_type: Option<&str>, size: Option<u64>, last_modified: Option<i64>) -> (r: Result<(u64, i64), AlgorithmiaError>)
        ensures
            match r {
                Ok((s, t)) => status == 200 && !(data_type matches Some(d) && d@ != "file"@)
                    && s == (match size { Some(v) => v, None => 0 })
                    && t == (match last_modified { Some(v) => v, None => DEFAULT_LAST_MODIFIED }),
                Err(e) => if status == 200 {
                    (data_type matches Some(d) && d@ != "file"@) && e@ == ErrorView::UnexpectedDataType("file"@, data_type->0@)
                } else if status == 404 {
                    e@ == ErrorView::NotFound(data_url(self.data_service(), self.data_path()))
                } else {
                    e@ == ErrorView::Status(status)
                },
            },
    {
        if status == 200 {
            if let Some(d) = data_type {
                if !same_text(d, "file") {
                    return Err(AlgorithmiaError::UnexpectedDataType(String::from_str("file"), String::from_str(d)));
                }
            }
            let s = match size {
                Some(v) => v,
                None => 0,
            };
            let t = match last_modified {
                Some(v) => v,
                None => DEFAULT_LAST_MODIFIED,
            };
            Ok((s, t))
        } else if status == 404 {
            Err(AlgorithmiaError::NotFound(self.to_url()))
        } else {
            Err(AlgorithmiaError::Status(status))
        }
    }
}

/// Seconds since the Unix epoch of a timestamp in chrono's relaxed RFC 3339
/// form, or `None` where the text is not one.
pub uninterp spec fn timestamp_of(text: Seq<char>) -> Option<i64>;

/// Relies on chrono's `FromStr` for `DateTime<FixedOffset>` (what its serde
/// support parses timestamps with) and on `timestamp`: the result depends on
/// the text alone.
#[verifier::external_body]
fn parse_timestamp(text: &str) -> (r: Option<i64>)
    ensures
        r == timestamp_of(text@),
{
    match text.parse::<chrono::DateTime<chrono::FixedOffset>>() {
        Ok(t) => Some(t.timestamp()),
        Err(_) => None,
    }
}

/// Seconds since the Unix epoch of an RFC 2822 date, the form of the
/// `Last-Modified` header, or `None` where the text is not one.
pub uninterp spec fn http_date_of(text: Seq<char>) -> Option<i64>;

/// Relies on chrono's `DateTime::parse_from_rfc2822` and on `timestamp`: the
/// result depends on the text alone.
#[verifier::external_body]
fn parse_http_date(text: &str) -> (r: Option<i64>)
    ensures
        r == http_date_of(text@),
{
    match chrono::DateTime::parse_from_rfc2822(text) {
        Ok(t) => Some(t.timestamp()),
        Err(_) => None,
    }
}

impl DataFile {
    /// The modification time that a `Last-Modified` header declares, in
    /// seconds since the Unix epoch; `None` without a header or with one that
    /// is not a date.
    pub fn last_modified_of(header: Option<&str>) -> (r: Option<i64>)
        ensures
            r == match header {
                Some(h) => http_date_of(h@),
                None => None,
            },
    {
        match header {
            Some(h) => parse_http_date(h),
            None => None,
        }
    }
}

/// An access list as a decoder reads it: an object whose `read` is an array of strings.
pub open spec fn acl_of(j: JsonView) -> Option<Seq<Seq<char>>> {
    match j.member("read"@) {
        Some(JsonView::Array(items)) => all_texts(items),
        _ => None,
    }
}

/// An optional access list member: absent or null is `Some(None)`.
pub open spec fn optional_acl_member(j: JsonView, key: Seq<char>) -> Option<Option<Seq<Seq<char>>>> {
    match j.member(key) {
        None => Some(None),
        Some(JsonView::Null) => Some(None),
        Some(v) => match acl_of(v) {
            Some(a) => Some(Some(a)),
            None => None,
        },
    }
}

/// A listed folder: a string `name` and an optional access list.
pub open spec fn folder_of(j: JsonView) -> Option<Seq<char>> {
    match (j.member("name"@), optional_acl_member(j, "acl"@)) {
        (Some(JsonView::Str(n)), Some(_)) => Some(n),
        _ => None,
    }
}

/// A listed file: a string `filename`, a whole `size` and a timestamp `last_modified`.
pub open spec fn file_of(j: JsonView) -> Option<(Seq<char>, u64, i64)> {
    match (j.member("filename"@), j.member("size"@), j.member("last_modified"@)) {
        (Some(JsonView::Str(n)), Some(JsonView::Number(s)), Some(JsonView::Str(t))) => match (
            crate::text::decimal_u64(s),
            timestamp_of(t),
        ) {
            (Some(size), Some(ts)) => Some((n, size, ts)),
            _ => None,
        },
        _ => None,
    }
}

/// The folders of an optional array member; absent or null is none.
pub open spec fn folders_member(j: JsonView) -> Option<Seq<Seq<char>>> {
    match j.member("folders"@) {
        None => Some(Seq::empty()),
        Some(JsonView::Null) => Some(Seq::empty()),
        Some(JsonView::Array(items)) => if forall|i: int| 0 <= i < items.len() ==> (#[trigger] folder_of(items[i])) is Some {
            Some(Seq::new(items.len(), |i: int| folder_of(items[i])->0))
        } else {
            None
        },
        Some(_) => None,
    }
}

/// The files of an optional array member; absent or null is none.
pub open spec fn files_member(j: JsonView) -> Option<Seq<(Seq<char>, u64, i64)>> {
    match j.member("files"@) {
        None => Some(Seq::empty()),
        Some(JsonView::Null) => Some(Seq::empty()),
        Some(JsonView::Array(items)) => if forall|i: int| 0 <= i < items.len() ==> (#[trigger] file_of(items[i])) is Some {
            Some(Seq::new(items.len(), |i: int| file_of(items[i])->0))
        } else {
            None
        },
        Some(_) => None,
    }
}

/// The listing page that `j` holds: an object with optional `acl`,
/// `folders`, `files` and `marker`.
pub open spec fn page_of(j: JsonView) -> Option<PageView> {
    if j is Object {
        match (
            optional_acl_member(j, "acl"@),
            folders_member(j),
            files_member(j),
            optional_text_member(j, "marker"@),
        ) {
            (Some(acl), Some(folders), Some(files), Some(marker)) => Some(PageView { acl, folders, files, marker }),
            _ => None,
        }
    } else {
        None
    }
}

pub open spec fn opt_acl_view(a: Option<DataAcl>) -> Option<Seq<Seq<char>>> {
    match a {
        Some(v) => Some(v@),
        None => None,
    }
}

impl DataAcl {
    /// The access list that `j` holds.
    pub fn from_json(j: &Json) -> (r: Option<DataAcl>)
        ensures
            match r {
                Some(a) => acl_of(j@) == Some(a@),
                None => acl_of(j@) is None,
            },
    {
        match j.member("read") {
            Some(Json::Array(items)) => {
                proof {
                    crate::json::lemma_items_view(items@);
                }
                let ghost iv = crate::json::items_view(items@);
                assert(j@.member("read"@) == Some(JsonView::Array(iv)));
                let mut read: Vec<String> = Vec::new();
                let mut i: usize = 0;
                while i < items.len()
                    invariant
                        j@.member("read"@) == Some(JsonView::Array(iv)),
                        i <= items@.len(),
                        iv.len() == items@.len(),
                        forall|k: int| 0 <= k < items@.len() ==> #[trigger] iv[k] == crate::json::json_view(items@[k]),
                        read@.len() == i,
                        forall|k: int| 0 <= k < i ==> (#[trigger] iv[k]) is Str && iv[k]->Str_0 == read@[k]@,
                    decreases items@.len() - i,
                {
                    match &items[i] {
                        Json::Str(s) => {
                            read.push(s.clone());
                        },
                        _ => {
                            proof {
                                assert(!(iv[i as int] is Str));
                            }
                            return None;
                        },
                    }
                    i = i + 1;
                }
                let r = DataAcl { read };
                proof {
                    assert(all_texts(iv) == Some(r@));
                }
                Some(r)
            },
            _ => None,
        }
    }
}

/// Reads an optional access list member.
fn optional_acl(j: &Json, key: &str) -> (r: Option<Option<DataAcl>>)
    ensures
        match r {
            Some(a) => optional_acl_member(j@, key@) == Some(opt_acl_view(a)),
            None => optional_acl_member(j@, key@) is None,
        },
{
    match j.member(key) {
        None => Some(None),
        Some(Json::Null) => Some(None),
        Some(v) => match DataAcl::from_json(v) {
            Some(a) => Some(Some(a)),
            None => None,
        },
    }
}

impl FolderItem {
    /// The folder that `j` describes.
    pub fn from_json(j: &Json) -> (r: Option<FolderItem>)
        ensures
            match r {
                Some(f) => folder_of(j@) == Some(f.name@),
                None => folder_of(j@) is None,
            },
    {
        let name = match j.member("name") {
            Some(Json::Str(n)) => n.clone(),
            _ => return None,
        };
        match optional_acl(j, "acl") {
            Some(acl) => Some(FolderItem { name, acl }),
            None => None,
        }
    }
}

impl FileItem {
    /// The file that `j` describes.
    pub fn from_json(j: &Json) -> (r: Option<FileItem>)
        ensures
            match r {
                Some(f) => file_of(j@) == Some((f.filename@, f.size, f.last_modified)),
                None => file_of(j@) is None,
            },
    {
        let filename = match j.member("filename") {
            Some(Json::Str(n)) => n.clone(),
            _ => return None,
        };
        let size_text = match j.member("size") {
            Some(Json::Number(s)) => s,
            _ => return None,
        };
        let time_text = match j.member("last_modified") {
            Some(Json::Str(t)) => t,
            _ => return None,
        };
        let size = match crate::text::parse_u64(size_text.as_str()) {
            Some(s) => s,
            None => return None,
        };
        match parse_timestamp(time_text.as_str()) {
            Some(last_modified) => Some(FileItem { filename, size, last_modified }),
            None => None,
        }
    }
}

impl DirectoryShow {
    /// The listing page that `j` holds.
    pub fn from_json(j: &Json) -> (r: Option<DirectoryShow>)
        ensures
            match r {
                Some(p) => page_of(j@) == Some(p@),
                None => page_of(j@) is None,
            },
    {
        match j {
            Json::Object(_) => {},
            _ => return None,
        }
        let acl = match optional_acl(j, "acl") {
            Some(a) => a,
            None => return None,
        };
        let folders = match j.member("folders") {
            None => None,
            Some(Json::Null) => None,
            Some(Json::Array(items)) => {
                proof {
                    crate::json::lemma_items_view(items@);
                }
                let ghost iv = crate::json::items_view(items@);
                assert(j@.member("folders"@) == Some(JsonView::Array(iv)));
                let mut out: Vec<FolderItem> = Vec::new();
                let mut i: usize = 0;
                while i < items.len()
                    invariant
                        j@.member("folders"@) == Some(JsonView::Array(iv)),
                        i <= items@.len(),
                        iv.len() == items@.len(),
                        forall|k: int| 0 <= k < items@.len() ==> #[trigger] iv[k] == crate::json::json_view(items@[k]),
                        out@.len() == i,
                        forall|k: int| 0 <= k < i ==> #[trigger] folder_of(iv[k]) == Some(out@[k].name@),
                    decreases items@.len() - i,
                {
                    match FolderItem::from_json(&items[i]) {
                        Some(f) => out.push(f),
                        None => {
                            proof {
                                assert(folder_of(iv[i as int]) is None);
                            }
                            return None;
                        },
                    }
                    i = i + 1;
                }
                proof {
                    assert(folders_member(j@) == Some(out@.map_values(|x: FolderItem| x.name@)));
                }
                Some(out)
            },
            Some(_) => return None,
        };
        let files = match j.member("files") {
            None => None,
            Some(Json::Null) => None,
            Some(Json::Array(items)) => {
                proof {
                    crate::json::lemma_items_view(items@);
                }
                let ghost iv = crate::json::items_view(items@);
                assert(j@.member("files"@) == Some(JsonView::Array(iv)));
                let mut out: Vec<FileItem> = Vec::new();
                let mut i: usize = 0;
                while i < items.len()
                    invariant
                        j@.member("files"@) == Some(JsonView::Array(iv)),
                        i <= items@.len(),
                        iv.len() == items@.len(),
                        forall|k: int| 0 <= k < items@.len() ==> #[trigger] iv[k] == crate::json::json_view(items@[k]),
                        out@.len() == i,
                        forall|k: int| 0 <= k < i ==> #[trigger] file_of(iv[k]) == Some((out@[k].filename@, out@[k].size, out@[k].last_modified)),
                    decreases items@.len() - i,
                {
                    match FileItem::from_json(&items[i]) {
                        Some(f) => out.push(f),
                        None => {
                            proof {
                                assert(file_of(iv[i as int]) is None);
                            }
                            return None;
                        },
                    }
                    i = i + 1;
                }
                proof {
                    assert(files_member(j@) == Some(out@.map_values(|x: FileItem| (x.filename@, x.size, x.last_modified))));
                }
                Some(out)
            },
            Some(_) => return None,
        };
        let marker = match crate::algo::optional_text(j, "marker") {
            Some(m) => m,
            None => return None,
        };
        let r = DirectoryShow { acl, folders, files, marker };
        proof {
            assert(r@.folders =~= folders_member(j@)->0);
            assert(r@.files =~= files_member(j@)->0);
        }
        Some(r)
    }
}

} // verus!
