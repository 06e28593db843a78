use algorithmia::data::{DirectoryEntry, DirectoryListing, DirectoryShow, FileItem, FolderItem, ListingStep};
use algorithmia::error::AlgorithmiaError;

fn page(folders: &[&str], files: &[&str], marker: Option<&str>) -> DirectoryShow {
    DirectoryShow {
        acl: None,
        folders: Some(folders.iter().map(|n| FolderItem { name: n.to_string(), acl: None }).collect()),
        files: Some(files.iter().map(|n| FileItem { filename: n.to_string(), size: 1, last_modified: 0 }).collect()),
        marker: marker.map(|m| m.to_string()),
    }
}

fn drain(listing: &mut DirectoryListing, mut pages: Vec<DirectoryShow>) -> Vec<String> {
    let mut seen = Vec::new();
    pages.reverse();
    loop {
        match listing.next_step() {
            ListingStep::Item(DirectoryEntry::SubDirectory(n)) => seen.push(format!("dir {}", n)),
            ListingStep::Item(DirectoryEntry::File(n, _, _)) => seen.push(format!("file {}", n)),
            ListingStep::Fetch(_) => {
                let next = pages.pop().expect("no page left to fetch");
                assert!(listing.receive(Ok(next)).is_none());
            },
            ListingStep::Done => return seen,
        }
    }
}

#[test]
fn listing_walks_pages_in_order() {
    let mut listing = DirectoryListing::new();
    let pages = vec![page(&["a", "b"], &[], Some("m1")), page(&["c"], &["x", "y"], None)];
    let seen = drain(&mut listing, pages);
    assert_eq!(seen, vec!["dir a", "dir b", "dir c", "file x", "file y"]);
    assert_eq!(listing.pages_fetched(), 2);
}

#[test]
fn listing_passes_markers_and_stays_exhausted() {
    let mut listing = DirectoryListing::new();
    assert!(matches!(listing.next_step(), ListingStep::Fetch(None)));
    assert!(listing.receive(Ok(page(&[], &["f"], Some("m1")))).is_none());
    assert!(matches!(listing.next_step(), ListingStep::Item(DirectoryEntry::File(n, _, _)) if n == "f"));
    assert!(matches!(listing.next_step(), ListingStep::Fetch(Some(m)) if m == "m1"));
    assert!(listing.receive(Ok(page(&[], &[], None))).is_none());
    assert!(matches!(listing.next_step(), ListingStep::Done));
    assert!(matches!(listing.next_step(), ListingStep::Done));
    assert_eq!(listing.pages_fetched(), 2);
}

#[test]
fn listing_of_empty_directory() {
    let mut listing = DirectoryListing::new();
    let seen = drain(&mut listing, vec![page(&[], &[], None)]);
    assert!(seen.is_empty());
}

#[test]
fn listing_stops_after_failed_fetch() {
    let mut listing = DirectoryListing::new();
    assert!(matches!(listing.next_step(), ListingStep::Fetch(None)));
    let err = listing.receive(Err(AlgorithmiaError::NotFound("data/x".to_string())));
    assert!(matches!(err, Some(AlgorithmiaError::NotFound(p)) if p == "data/x"));
    assert_eq!(listing.pages_fetched(), 1);
    assert!(matches!(listing.next_step(), ListingStep::Done));
}
