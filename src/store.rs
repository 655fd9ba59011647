use vstd::prelude::*;

use crate::error::CommandError;
use crate::json::is_json;
use crate::json::is_valid_json;

verus! {

/// What the store holds for one document, keyed by its file name.
pub struct DocumentRecord {
    pub name: String,
    pub last_read: Option<i64>,
    /// The client's reading state, as the JSON text it was saved as.
    pub state: Option<String>,
    pub notes: String,
}

pub ghost struct DocView {
    pub name: Seq<char>,
    pub last_read: Option<i64>,
    pub state: Option<Seq<char>>,
    pub notes: Seq<char>,
}

pub open spec fn opt_text(o: Option<String>) -> Option<Seq<char>> {
    match o {
        Some(s) => Some(s@),
        None => None,
    }
}

impl View for DocumentRecord {
    type V = DocView;

    open spec fn view(&self) -> DocView {
        DocView {
            name: self.name@,
            last_read: self.last_read,
            state: opt_text(self.state),
            notes: self.notes@,
        }
    }
}

/// One document as it is listed: a file seen on disk, or a record of the store.
pub struct PdfInfo {
    pub last_read: Option<i64>,
    pub filename: String,
    /// Saved reading state as JSON text; absent where none was saved or it does not parse.
    pub state: Option<String>,
}

pub ghost struct InfoView {
    pub last_read: Option<i64>,
    pub filename: Seq<char>,
    pub state: Option<Seq<char>>,
}

impl View for PdfInfo {
    type V = InfoView;

    open spec fn view(&self) -> InfoView {
        InfoView { last_read: self.last_read, filename: self.filename@, state: opt_text(self.state) }
    }
}

pub open spec fn infos_view(s: Seq<PdfInfo>) -> Seq<InfoView> {
    s.map_values(|p: PdfInfo| p@)
}

/// Every document listed by the store.
pub struct PdfList {
    pub pdfs: Vec<PdfInfo>,
}

/// The documents' metadata and the last application state.
pub struct MetadataStore {
    records: Vec<DocumentRecord>,
    last_state: Option<String>,
}

pub ghost struct StoreView {
    pub docs: Seq<DocView>,
    pub last_state: Option<Seq<char>>,
}

pub open spec fn has_doc(docs: Seq<DocView>, name: Seq<char>) -> bool {
    exists|i: int| 0 <= i < docs.len() && (#[trigger] docs[i]).name == name
}

/// Where the document called `name` stands; meaningful where `has_doc` holds.
pub open spec fn doc_index(docs: Seq<DocView>, name: Seq<char>) -> int {
    choose|i: int| 0 <= i < docs.len() && (#[trigger] docs[i]).name == name
}

pub open spec fn names_distinct(docs: Seq<DocView>) -> bool {
    forall|i: int, j: int|
        0 <= i < docs.len() && 0 <= j < docs.len() && i != j ==> (#[trigger] docs[i]).name
            != (#[trigger] docs[j]).name
}

pub open spec fn names_of(docs: Seq<DocView>) -> Seq<Seq<char>> {
    docs.map_values(|d: DocView| d.name)
}

/// The documents after the notes of `name` are replaced.
pub open spec fn with_notes(docs: Seq<DocView>, name: Seq<char>, notes: Seq<char>) -> Seq<DocView> {
    docs.map_values(
        |d: DocView|
            if d.name == name {
                DocView { name: d.name, last_read: d.last_read, state: d.state, notes: notes }
            } else {
                d
            },
    )
}

/// The documents after the reading state and read time of `name` are replaced.
pub open spec fn with_state(
    docs: Seq<DocView>,
    name: Seq<char>,
    state: Seq<char>,
    last_read: i64,
) -> Seq<DocView> {
    docs.map_values(
        |d: DocView|
            if d.name == name {
                DocView { name: d.name, last_read: Some(last_read), state: Some(state), notes: d.notes }
            } else {
                d
            },
    )
}

/// The record a newly seen file starts with.
pub open spec fn new_doc(e: InfoView) -> DocView {
    DocView { name: e.filename, last_read: e.last_read, state: None, notes: seq![] }
}

/// The records that reconciliation adds, in inventory order: one for each file whose name
/// is neither among `existing` nor taken by an earlier file of the inventory.
pub open spec fn fresh_docs(existing: Seq<Seq<char>>, inv: Seq<InfoView>) -> Seq<DocView>
    decreases inv.len(),
{
    if inv.len() == 0 {
        seq![]
    } else {
        let p = fresh_docs(existing, inv.drop_last());
        let e = inv.last();
        if existing.contains(e.filename) || has_doc(p, e.filename) {
            p
        } else {
            p.push(new_doc(e))
        }
    }
}

/// The documents after the inventory `inv` is merged in.
pub open spec fn reconciled(docs: Seq<DocView>, inv: Seq<InfoView>) -> Seq<DocView> {
    docs + fresh_docs(names_of(docs), inv)
}

/// How a document is listed: its stored state only where that state is JSON.
pub open spec fn listing(d: DocView) -> InfoView {
    InfoView {
        last_read: d.last_read,
        filename: d.name,
        state: match d.state {
            Some(t) => if is_json(t) { Some(t) } else { None },
            None => None,
        },
    }
}

pub open spec fn records_view(s: Seq<DocumentRecord>) -> Seq<DocView> {
    s.map_values(|r: DocumentRecord| r@)
}

pub open spec fn texts_view(s: Seq<String>) -> Seq<Seq<char>> {
    s.map_values(|t: String| t@)
}

/// Where the first record called `name` stands.
fn position(records: &Vec<DocumentRecord>, name: &String) -> (r: Option<usize>)
    ensures
        match r {
            Some(i) => i < records@.len() && records@[i as int].name@ == name@,
            None => !has_doc(records_view(records@), name@),
        },
{
    let mut i: usize = 0;
    while i < records.len()
        invariant
            0 <= i <= records@.len(),
            forall|k: int| 0 <= k < i ==> (#[trigger] records@[k]).name@ != name@,
        decreases records.len() - i,
    {
        if records[i].name == *name {
            return Some(i);
        }
        i = i + 1;
    }
    proof {
        let v = records_view(records@);
        assert forall|k: int| 0 <= k < v.len() implies (#[trigger] v[k]).name != name@ by {
            assert(records@[k].name@ != name@);
        }
    }
    None
}

fn contains_text(texts: &Vec<String>, t: &String) -> (r: bool)
    ensures
        r == texts_view(texts@).contains(t@),
{
    let mut i: usize = 0;
    while i < texts.len()
        invariant
            0 <= i <= texts@.len(),
            forall|k: int| 0 <= k < i ==> (#[trigger] texts@[k])@ != t@,
        decreases texts.len() - i,
    {
        if texts[i] == *t {
            assert(texts_view(texts@)[i as int] == t@);
            return true;
        }
        i = i + 1;
    }
    proof {
        let v = texts_view(texts@);
        assert forall|k: int| 0 <= k < v.len() implies v[k] != t@ by {
            assert(texts@[k]@ != t@);
        }
    }
    false
}

/// The records to add for `inventory` to a store whose names are `existing`: one for
/// each file whose name is neither among `existing` nor taken by an earlier file.
pub fn plan_entries(existing: &Vec<String>, inventory: &Vec<PdfInfo>) -> (r: Vec<DocumentRecord>)
    ensures
        records_view(r@) == fresh_docs(texts_view(existing@), infos_view(inventory@)),
{
    let ghost ex = texts_view(existing@);
    let ghost inv = infos_view(inventory@);
    let mut plan: Vec<DocumentRecord> = Vec::new();
    let mut i: usize = 0;
    assert(inv.subrange(0, 0) =~= Seq::<InfoView>::empty());
    assert(records_view(plan@) =~= Seq::<DocView>::empty());
    while i < inventory.len()
        invariant
            0 <= i <= inventory@.len(),
            ex == texts_view(existing@),
            inv == infos_view(inventory@),
            records_view(plan@) == fresh_docs(ex, inv.subrange(0, i as int)),
        decreases inventory.len() - i,
    {
        let e = &inventory[i];
        let known = contains_text(existing, &e.filename);
        let pos = position(&plan, &e.filename);
        let taken = pos.is_some();
        let ghost before = plan@;
        proof {
            if let Some(j) = pos {
                assert(records_view(before)[j as int].name == e.filename@);
            }
        }
        if !known && !taken {
            let rec = DocumentRecord {
                name: e.filename.clone(),
                last_read: e.last_read,
                state: None,
                notes: String::new(),
            };
            plan.push(rec);
            assert(records_view(plan@) =~= records_view(before).push(rec@));
        }
        proof {
            let sub = inv.subrange(0, i + 1);
            assert(sub.drop_last() =~= inv.subrange(0, i as int));
            assert(sub.last() == inventory@[i as int]@);
        }
        i = i + 1;
    }
    assert(inv.subrange(0, i as int) =~= inv);
    plan
}

/// Each name of `inv` is known afterwards; what is added is new and distinct.
proof fn lemma_fresh_docs(existing: Seq<Seq<char>>, inv: Seq<InfoView>)
    ensures
        names_distinct(fresh_docs(existing, inv)),
        forall|i: int|
            0 <= i < fresh_docs(existing, inv).len() ==> !existing.contains(
                (#[trigger] fresh_docs(existing, inv)[i]).name,
            ),
        forall|k: int|
            0 <= k < inv.len() ==> existing.contains((#[trigger] inv[k]).filename) || has_doc(
                fresh_docs(existing, inv),
                inv[k].filename,
            ),
    decreases inv.len(),
{
    if inv.len() > 0 {
        let p = fresh_docs(existing, inv.drop_last());
        lemma_fresh_docs(existing, inv.drop_last());
        let e = inv.last();
        let f = fresh_docs(existing, inv);
        assert forall|k: int|
            0 <= k < inv.len() implies existing.contains((#[trigger] inv[k]).filename) || has_doc(
            f,
            inv[k].filename,
        ) by {
            if k < inv.len() - 1 {
                assert(inv[k] == inv.drop_last()[k]);
                if has_doc(p, inv[k].filename) {
                    let j = choose|j: int| 0 <= j < p.len() && (#[trigger] p[j]).name == inv[k].filename;
                    assert(f[j] == p[j]);
                }
            } else if !existing.contains(e.filename) && !has_doc(p, e.filename) {
                assert(f[p.len() as int] == new_doc(e));
            } else if has_doc(p, e.filename) {
                let j = choose|j: int| 0 <= j < p.len() && (#[trigger] p[j]).name == e.filename;
                assert(f[j] == p[j]);
            }
        }
    }
}

/// Files whose names are all known add nothing.
proof fn lemma_fresh_docs_known(existing: Seq<Seq<char>>, inv: Seq<InfoView>)
    requires
        forall|k: int| 0 <= k < inv.len() ==> existing.contains((#[trigger] inv[k]).filename),
    ensures
        fresh_docs(existing, inv) == Seq::<DocView>::empty(),
    decreases inv.len(),
{
    if inv.len() > 0 {
        assert forall|k: int| 0 <= k < inv.drop_last().len() implies existing.contains(
            (#[trigger] inv.drop_last()[k]).filename,
        ) by {
            assert(inv.drop_last()[k] == inv[k]);
        }
        lemma_fresh_docs_known(existing, inv.drop_last());
        assert(existing.contains(inv[inv.len() - 1].filename));
    }
}

/// Reconciliation keeps names distinct and keeps every record already there.
pub proof fn lemma_reconciled_wf(docs: Seq<DocView>, inv: Seq<InfoView>)
    requires
        names_distinct(docs),
    ensures
        names_distinct(reconciled(docs, inv)),
        reconciled(docs, inv).subrange(0, docs.len() as int) == docs,
{
    let ex = names_of(docs);
    let f = fresh_docs(ex, inv);
    let r = reconciled(docs, inv);
    lemma_fresh_docs(ex, inv);
    assert forall|i: int, j: int|
        0 <= i < r.len() && 0 <= j < r.len() && i != j implies (#[trigger] r[i]).name != (
        #[trigger] r[j]).name by {
        if i < docs.len() && j >= docs.len() {
            assert(ex[i] == docs[i].name);
            assert(r[j] == f[j - docs.len()]);
        } else if j < docs.len() && i >= docs.len() {
            assert(ex[j] == docs[j].name);
            assert(r[i] == f[i - docs.len()]);
        } else if i >= docs.len() && j >= docs.len() {
            assert(r[i] == f[i - docs.len()]);
            assert(r[j] == f[j - docs.len()]);
        }
    }
    assert(r.subrange(0, docs.len() as int) =~= docs);
}

impl MetadataStore {
    pub closed spec fn view(&self) -> StoreView {
        StoreView {
            docs: self.records@.map_values(|r: DocumentRecord| r@),
            last_state: opt_text(self.last_state),
        }
    }

    /// No two records share a name.
    pub open spec fn wf(&self) -> bool {
        names_distinct(self.view().docs)
    }

    pub fn new() -> (r: MetadataStore)
        ensures
            r.wf(),
            r.view().docs == Seq::<DocView>::empty(),
            r.view().last_state is None,
    {
        let r = MetadataStore { records: Vec::new(), last_state: None };
        assert(r.view().docs =~= Seq::<DocView>::empty());
        r
    }

    /// Where the record called `name` stands.
    pub fn find(&self, name: &String) -> (r: Option<usize>)
        ensures
            match r {
                Some(i) => i < self.view().docs.len() && self.view().docs[i as int].name == name@,
                None => !has_doc(self.view().docs, name@),
            },
    {
        position(&self.records, name)
    }

    /// The names of all records, in store order.
    pub fn names(&self) -> (r: Vec<String>)
        ensures
            r@.len() == self.view().docs.len(),
            forall|k: int| 0 <= k < r@.len() ==> (#[trigger] r@[k])@ == self.view().docs[k].name,
    {
        let mut r: Vec<String> = Vec::new();
        let mut i: usize = 0;
        while i < self.records.len()
            invariant
                0 <= i <= self.records@.len(),
                r@.len() == i,
                forall|k: int| 0 <= k < i ==> (#[trigger] r@[k])@ == self.view().docs[k].name,
            decreases self.records.len() - i,
        {
            r.push(self.records[i].name.clone());
            i = i + 1;
        }
        r
    }

    /// Adds a record, unless one with its name is there already.
    pub fn insert_record(&mut self, rec: DocumentRecord) -> (r: bool)
        requires
            old(self).wf(),
        ensures
            final(self).wf(),
            r == !has_doc(old(self).view().docs, rec.name@),
            final(self).view().docs == if r {
                old(self).view().docs.push(rec@)
            } else {
                old(self).view().docs
            },
            final(self).view().last_state == old(self).view().last_state,
    {
        if self.find(&rec.name).is_some() {
            return false;
        }
        let ghost old_docs = self.view().docs;
        let ghost rv = rec@;
        self.records.push(rec);
        assert(self.view().docs =~= old_docs.push(rv));
        proof {
            let d = self.view().docs;
            assert forall|i: int, j: int|
                0 <= i < d.len() && 0 <= j < d.len() && i != j implies (#[trigger] d[i]).name != (
                #[trigger] d[j]).name by {
                if i < old_docs.len() && j < old_docs.len() {
                    assert(old_docs[i] == d[i] && old_docs[j] == d[j]);
                } else if i < old_docs.len() {
                    assert(old_docs[i] == d[i]);
                } else {
                    assert(old_docs[j] == d[j]);
                }
            }
        }
        true
    }

    /// The stored last application state, as its JSON text.
    pub fn last_state(&self) -> (r: Option<String>)
        ensures
            opt_text(r) == self.view().last_state,
    {
        match &self.last_state {
            Some(t) => Some(t.clone()),
            None => None,
        }
    }

    /// Replaces the last application state.
    pub fn set_last_state(&mut self, text: String)
        requires
            old(self).wf(),
        ensures
            final(self).wf(),
            final(self).view().docs == old(self).view().docs,
            final(self).view().last_state == Some(text@),
    {
        self.last_state = Some(text);
    }

    /// The records, in store order.
    pub fn records(&self) -> (r: &Vec<DocumentRecord>)
        ensures
            records_view(r@) == self.view().docs,
    {
        &self.records
    }
}

/// Merges the inventory `pdfinfo` into the store: each file whose name has no record gets
/// one, with the file's read time, no state and empty notes; records already there are
/// left as they are.
pub fn pdfentries(store: &mut MetadataStore, pdfinfo: &Vec<PdfInfo>)
    requires
        old(store).wf(),
    ensures
        final(store).wf(),
        final(store).view().docs == reconciled(old(store).view().docs, infos_view(pdfinfo@)),
        final(store).view().last_state == old(store).view().last_state,
{
    let names = store.names();
    let mut plan = plan_entries(&names, pdfinfo);
    let ghost old_docs = store.view().docs;
    assert(texts_view(names@) =~= names_of(old_docs));
    proof {
        lemma_reconciled_wf(old_docs, infos_view(pdfinfo@));
    }
    store.records.append(&mut plan);
    assert(store.view().docs =~= reconciled(old_docs, infos_view(pdfinfo@)));
}

/// Replaces the reading state and read time of the record called `pdfname`; does
/// nothing where there is none.
#[allow(non_snake_case)]
pub fn savePdfState(store: &mut MetadataStore, pdfname: &String, pdfstate: String, last_read: i64)
    requires
        old(store).wf(),
    ensures
        final(store).wf(),
        final(store).view().docs == with_state(old(store).view().docs, pdfname@, pdfstate@, last_read),
        final(store).view().last_state == old(store).view().last_state,
{
    let ghost old_docs = store.view().docs;
    let ghost sv = pdfstate@;
    match store.find(pdfname) {
        Some(i) => {
            let old_rec = store.records.remove(i);
            let rec = DocumentRecord {
                name: old_rec.name,
                last_read: Some(last_read),
                state: Some(pdfstate),
                notes: old_rec.notes,
            };
            store.records.insert(i, rec);
            proof {
                assert forall|k: int| 0 <= k < old_docs.len() && k != i implies old_docs[k].name
                    != pdfname@ by {
                    assert(old_docs[k].name != old_docs[i as int].name);
                }
                assert(store.view().docs =~= with_state(old_docs, pdfname@, sv, last_read));
            }
        },
        None => {
            assert(store.view().docs =~= with_state(old_docs, pdfname@, sv, last_read));
        },
    }
    proof {
        let d = store.view().docs;
        assert forall|i: int, j: int|
            0 <= i < d.len() && 0 <= j < d.len() && i != j implies (#[trigger] d[i]).name != (
            #[trigger] d[j]).name by {
            assert(d[i].name == old_docs[i].name && d[j].name == old_docs[j].name);
        }
    }
}

/// The notes of the record called `pdfname`.
#[allow(non_snake_case)]
pub fn getPdfNotes(store: &MetadataStore, pdfname: &String) -> (r: Result<String, CommandError>)
    requires
        store.wf(),
    ensures
        match r {
            Ok(notes) => has_doc(store.view().docs, pdfname@) && notes@ == store.view().docs[doc_index(
                store.view().docs,
                pdfname@,
            )].notes,
            Err(e) => !has_doc(store.view().docs, pdfname@) && e is NotFound && e->NotFound_0@
                == pdfname@,
        },
{
    match store.find(pdfname) {
        Some(i) => {
            let ghost docs = store.view().docs;
            assert(docs[i as int].name == pdfname@);
            let ghost k = doc_index(docs, pdfname@);
            assert(docs[k].name == docs[i as int].name);
            Ok(store.records[i].notes.clone())
        },
        None => Err(CommandError::NotFound(pdfname.clone())),
    }
}

/// Replaces the notes of the record called `pdfname`; does nothing where there is none.
#[allow(non_snake_case)]
pub fn savePdfNotes(store: &mut MetadataStore, pdfname: &String, pdfnotes: String)
    requires
        old(store).wf(),
    ensures
        final(store).wf(),
        final(store).view().docs == with_notes(old(store).view().docs, pdfname@, pdfnotes@),
        final(store).view().last_state == old(store).view().last_state,
{
    let ghost old_docs = store.view().docs;
    let ghost nv = pdfnotes@;
    match store.find(pdfname) {
        Some(i) => {
            let old_rec = store.records.remove(i);
            let rec = DocumentRecord {
                name: old_rec.name,
                last_read: old_rec.last_read,
                state: old_rec.state,
                notes: pdfnotes,
            };
            store.records.insert(i, rec);
            proof {
                assert forall|k: int| 0 <= k < old_docs.len() && k != i implies old_docs[k].name
                    != pdfname@ by {
                    assert(old_docs[k].name != old_docs[i as int].name);
                }
                assert(store.view().docs =~= with_notes(old_docs, pdfname@, nv));
            }
        },
        None => {
            assert(store.view().docs =~= with_notes(old_docs, pdfname@, nv));
        },
    }
    proof {
        let d = store.view().docs;
        assert forall|i: int, j: int|
            0 <= i < d.len() && 0 <= j < d.len() && i != j implies (#[trigger] d[i]).name != (
            #[trigger] d[j]).name by {
            assert(d[i].name == old_docs[i].name && d[j].name == old_docs[j].name);
        }
    }
}

/// Every record as it is listed, in store order.
pub fn pdflist(store: &MetadataStore) -> (r: PdfList)
    ensures
        infos_view(r.pdfs@) == store.view().docs.map_values(|d: DocView| listing(d)),
{
    let records = store.records();
    let ghost docs = store.view().docs;
    let mut pdfs: Vec<PdfInfo> = Vec::new();
    let mut i: usize = 0;
    while i < records.len()
        invariant
            0 <= i <= records@.len(),
            docs == records_view(records@),
            infos_view(pdfs@) == docs.map_values(|d: DocView| listing(d)).subrange(0, i as int),
        decreases records.len() - i,
    {
        let rec = &records[i];
        let state = match &rec.state {
            Some(t) => {
                if is_valid_json(t.as_str()) {
                    Some(t.clone())
                } else {
                    None
                }
            },
            None => None,
        };
        let info = PdfInfo { last_read: rec.last_read, filename: rec.name.clone(), state };
        let ghost before = pdfs@;
        pdfs.push(info);
        proof {
            assert(docs[i as int] == rec@);
            assert(info@ == listing(docs[i as int]));
            assert(infos_view(pdfs@) =~= infos_view(before).push(info@));
            assert(infos_view(pdfs@) =~= docs.map_values(|d: DocView| listing(d)).subrange(
                0,
                i + 1,
            ));
        }
        i = i + 1;
    }
    assert(docs.map_values(|d: DocView| listing(d)).subrange(0, i as int) =~= docs.map_values(
        |d: DocView| listing(d),
    ));
    PdfList { pdfs }
}

/// Reconciling a second time with the same inventory changes nothing: no record is added
/// and none is altered.
pub proof fn lemma_reconcile_idempotent(docs: Seq<DocView>, inv: Seq<InfoView>)
    requires
        names_distinct(docs),
    ensures
        reconciled(reconciled(docs, inv), inv) == reconciled(docs, inv),
{
    let ex = names_of(docs);
    let f = fresh_docs(ex, inv);
    let r = reconciled(docs, inv);
    lemma_fresh_docs(ex, inv);
    assert forall|k: int| 0 <= k < inv.len() implies names_of(r).contains(
        (#[trigger] inv[k]).filename,
    ) by {
        let n = inv[k].filename;
        if ex.contains(n) {
            let i = choose|i: int| 0 <= i < ex.len() && ex[i] == n;
            assert(names_of(r)[i] == r[i].name);
            assert(r[i] == docs[i]);
        } else {
            let j = choose|j: int| 0 <= j < f.len() && (#[trigger] f[j]).name == n;
            assert(r[docs.len() + j] == f[j]);
            assert(names_of(r)[docs.len() + j] == n);
        }
    }
    lemma_fresh_docs_known(names_of(r), inv);
    assert(reconciled(r, inv) =~= r);
}

/// Reconciling leaves a record that is already there as it was, its notes and its
/// reading state included.
pub proof fn lemma_reconcile_keeps_record(docs: Seq<DocView>, inv: Seq<InfoView>, name: Seq<char>)
    requires
        names_distinct(docs),
        has_doc(docs, name),
    ensures
        has_doc(reconciled(docs, inv), name),
        reconciled(docs, inv)[doc_index(reconciled(docs, inv), name)] == docs[doc_index(
            docs,
            name,
        )],
{
    let r = reconciled(docs, inv);
    lemma_reconciled_wf(docs, inv);
    let i = doc_index(docs, name);
    assert(r[i] == docs[i]);
    let j = doc_index(r, name);
    assert(r[j].name == r[i].name);
}

/// After two saves of notes for a known document, its notes are those of the second.
pub proof fn lemma_notes_last_save_wins(
    docs: Seq<DocView>,
    name: Seq<char>,
    first: Seq<char>,
    second: Seq<char>,
)
    requires
        names_distinct(docs),
        has_doc(docs, name),
    ensures
        has_doc(with_notes(with_notes(docs, name, first), name, second), name),
        ({
            let d = with_notes(with_notes(docs, name, first), name, second);
            d[doc_index(d, name)].notes == second
        }),
{
    let d = with_notes(with_notes(docs, name, first), name, second);
    let i = doc_index(docs, name);
    assert(d[i].name == name);
    let j = doc_index(d, name);
    assert(d[j].name == name);
}

/// After the reading state of a known document is saved, the listing of that document
/// shows that state and read time, wherever the state is JSON text.
pub proof fn lemma_state_round_trip(docs: Seq<DocView>, name: Seq<char>, state: Seq<char>, last_read: i64)
    requires
        names_distinct(docs),
        has_doc(docs, name),
        is_json(state),
    ensures
        has_doc(with_state(docs, name, state, last_read), name),
        ({
            let d = with_state(docs, name, state, last_read);
            listing(d[doc_index(d, name)]) == InfoView {
                last_read: Some(last_read),
                filename: name,
                state: Some(state),
            }
        }),
{
    let d = with_state(docs, name, state, last_read);
    let i = doc_index(docs, name);
    assert(d[i].name == name);
    let j = doc_index(d, name);
    assert(d[j].name == name);
}

} // verus!
