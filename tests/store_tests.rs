use pdf_server::config::defcon;
use pdf_server::config::pdfdir_setup;
use pdf_server::config::ConfigurationError;
use pdf_server::config::DirSetup;
use pdf_server::error::CommandError;
use pdf_server::scan::pdfscan;
use pdf_server::scan::FsEntry;
use pdf_server::store::getPdfNotes;
use pdf_server::store::pdfentries;
use pdf_server::store::pdflist;
use pdf_server::store::plan_entries;
use pdf_server::store::savePdfNotes;
use pdf_server::store::savePdfState;
use pdf_server::store::DocumentRecord;
use pdf_server::store::MetadataStore;
use pdf_server::store::PdfInfo;

fn seen(name: &str, last_read: Option<i64>) -> PdfInfo {
    PdfInfo { last_read, filename: name.to_string(), state: None }
}

fn names(store: &MetadataStore) -> Vec<String> {
    store.records().iter().map(|r| r.name.clone()).collect()
}

#[test]
fn reconcile_twice_adds_nothing() {
    let mut store = MetadataStore::new();
    let inventory = vec![seen("a.pdf", Some(5)), seen("b.pdf", None)];
    pdfentries(&mut store, &inventory);
    assert_eq!(names(&store), vec!["a.pdf".to_string(), "b.pdf".to_string()]);
    savePdfNotes(&mut store, &"a.pdf".to_string(), "read chapter 2".to_string());
    savePdfState(&mut store, &"b.pdf".to_string(), "{\"page\":4}".to_string(), 77);
    pdfentries(&mut store, &inventory);
    assert_eq!(names(&store), vec!["a.pdf".to_string(), "b.pdf".to_string()]);
    let a = &store.records()[0];
    assert_eq!(a.notes, "read chapter 2");
    assert_eq!(a.last_read, Some(5));
    assert_eq!(a.state, None);
    let b = &store.records()[1];
    assert_eq!(b.state, Some("{\"page\":4}".to_string()));
    assert_eq!(b.last_read, Some(77));
    assert_eq!(b.notes, "");
}

#[test]
fn rediscovery_keeps_notes_and_read_time() {
    let mut store = MetadataStore::new();
    pdfentries(&mut store, &vec![seen("a.pdf", Some(1))]);
    savePdfNotes(&mut store, &"a.pdf".to_string(), "keep me".to_string());
    pdfentries(&mut store, &vec![seen("a.pdf", Some(999)), seen("c.pdf", Some(3))]);
    assert_eq!(names(&store), vec!["a.pdf".to_string(), "c.pdf".to_string()]);
    assert_eq!(getPdfNotes(&store, &"a.pdf".to_string()), Ok("keep me".to_string()));
    assert_eq!(store.records()[0].last_read, Some(1));
    assert_eq!(store.records()[1].last_read, Some(3));
    assert_eq!(store.records()[1].notes, "");
}

#[test]
fn reconcile_empty_inventory() {
    let mut store = MetadataStore::new();
    pdfentries(&mut store, &vec![]);
    assert!(store.records().is_empty());
}

#[test]
fn reconcile_skips_repeated_names_in_one_inventory() {
    let mut store = MetadataStore::new();
    pdfentries(&mut store, &vec![seen("x.pdf", Some(1)), seen("x.pdf", Some(2))]);
    assert_eq!(names(&store), vec!["x.pdf".to_string()]);
    assert_eq!(store.records()[0].last_read, Some(1));
}

#[test]
fn plan_leaves_out_known_names() {
    let existing = vec!["a.pdf".to_string()];
    let plan = plan_entries(&existing, &vec![seen("a.pdf", Some(1)), seen("b.pdf", Some(2))]);
    assert_eq!(plan.len(), 1);
    assert_eq!(plan[0].name, "b.pdf");
    assert_eq!(plan[0].last_read, Some(2));
    assert_eq!(plan[0].state, None);
    assert_eq!(plan[0].notes, "");
}

#[test]
fn insert_record_refuses_a_taken_name() {
    let mut store = MetadataStore::new();
    let rec = |n: &str| DocumentRecord { name: n.to_string(), last_read: None, state: None, notes: String::new() };
    assert!(store.insert_record(rec("a.pdf")));
    assert!(!store.insert_record(rec("a.pdf")));
    assert_eq!(store.records().len(), 1);
}

#[test]
fn notes_of_unknown_document_is_not_found() {
    let store = MetadataStore::new();
    assert_eq!(
        getPdfNotes(&store, &"nope.pdf".to_string()),
        Err(CommandError::NotFound("nope.pdf".to_string()))
    );
}

#[test]
fn saves_on_unknown_document_change_nothing() {
    let mut store = MetadataStore::new();
    pdfentries(&mut store, &vec![seen("a.pdf", None)]);
    savePdfNotes(&mut store, &"zzz.pdf".to_string(), "x".to_string());
    savePdfState(&mut store, &"zzz.pdf".to_string(), "{}".to_string(), 4);
    assert_eq!(names(&store), vec!["a.pdf".to_string()]);
    assert_eq!(store.records()[0].notes, "");
    assert_eq!(store.records()[0].state, None);
}

#[test]
fn listing_drops_state_that_is_not_json() {
    let mut store = MetadataStore::new();
    pdfentries(&mut store, &vec![seen("a.pdf", Some(-5)), seen("b.pdf", None)]);
    savePdfState(&mut store, &"a.pdf".to_string(), "{broken".to_string(), -5);
    savePdfState(&mut store, &"b.pdf".to_string(), "[1,2]".to_string(), 9);
    let list = pdflist(&store);
    assert_eq!(list.pdfs.len(), 2);
    assert_eq!(list.pdfs[0].filename, "a.pdf");
    assert_eq!(list.pdfs[0].state, None);
    assert_eq!(list.pdfs[0].last_read, Some(-5));
    assert_eq!(list.pdfs[1].state, Some("[1,2]".to_string()));
    assert_eq!(list.pdfs[1].last_read, Some(9));
}

#[test]
fn last_state_is_replaced_whole() {
    let mut store = MetadataStore::new();
    assert_eq!(store.last_state(), None);
    store.set_last_state("{\"a\":1}".to_string());
    store.set_last_state("[true]".to_string());
    assert_eq!(store.last_state(), Some("[true]".to_string()));
}

#[test]
fn scan_converts_access_times() {
    let entries = vec![
        FsEntry { name: "a.pdf".to_string(), accessed_millis: Some(1_500) },
        FsEntry { name: "b.pdf".to_string(), accessed_millis: None },
        FsEntry { name: "c.pdf".to_string(), accessed_millis: Some(i64::MAX as u128) },
        FsEntry { name: "d.pdf".to_string(), accessed_millis: Some(i64::MAX as u128 + 1) },
    ];
    let v = pdfscan(&entries);
    assert_eq!(v.len(), 4);
    assert_eq!(v[0].filename, "a.pdf");
    assert_eq!(v[0].last_read, Some(1_500));
    assert_eq!(v[1].last_read, None);
    assert_eq!(v[2].last_read, Some(i64::MAX));
    assert_eq!(v[3].filename, "d.pdf");
    assert_eq!(v[3].last_read, None);
    assert!(v.iter().all(|p| p.state.is_none()));
}

#[test]
fn scan_of_nothing_is_empty() {
    assert!(pdfscan(&vec![]).is_empty());
}

#[test]
fn default_configuration() {
    let c = defcon();
    assert_eq!(c.ip, "127.0.0.1");
    assert_eq!(c.port, 8000);
    assert_eq!(c.pdfdir, "./pdfs");
    assert!(!c.createdirs);
    assert_eq!(c.pdfdb, "./pdf.db");
}

#[test]
fn document_directory_setup() {
    let mut c = defcon();
    assert_eq!(pdfdir_setup(&c, true), Ok(DirSetup::UseExisting));
    assert_eq!(
        pdfdir_setup(&c, false),
        Err(ConfigurationError::MissingDirectory("./pdfs".to_string()))
    );
    c.createdirs = true;
    assert_eq!(pdfdir_setup(&c, false), Ok(DirSetup::Create));
    assert_eq!(pdfdir_setup(&c, true), Ok(DirSetup::Create));
}
