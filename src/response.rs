use vstd::prelude::*;

use crate::json::int_text;
use crate::json::int_to_text;
use crate::json::quote;
use crate::json::quoted;
use crate::store::infos_view;
use crate::store::InfoView;
use crate::store::PdfInfo;
use crate::store::PdfList;

verus! {

/// A reply to the client: what it answers, and its content as JSON text.
pub struct ServerResponse {
    pub what: String,
    pub content: String,
}

pub ghost struct ResponseView {
    pub what: Seq<char>,
    pub content: Seq<char>,
}

impl View for ServerResponse {
    type V = ResponseView;

    open spec fn view(&self) -> ResponseView {
        ResponseView { what: self.what@, content: self.content@ }
    }
}

/// The reply envelope as JSON text.
pub open spec fn envelope_text(r: ResponseView) -> Seq<char> {
    "{\"what\":"@ + quoted(r.what) + ",\"content\":"@ + r.content + "}"@
}

pub open spec fn opt_int_text(o: Option<i64>) -> Seq<char> {
    match o {
        Some(n) => int_text(n as int),
        None => "null"@,
    }
}

pub open spec fn opt_raw_text(o: Option<Seq<char>>) -> Seq<char> {
    match o {
        Some(t) => t,
        None => "null"@,
    }
}

/// One listed document as a JSON object.
pub open spec fn row_text(i: InfoView) -> Seq<char> {
    "{\"last_read\":"@ + opt_int_text(i.last_read) + ",\"filename\":"@ + quoted(i.filename)
        + ",\"state\":"@ + opt_raw_text(i.state) + "}"@
}

/// The listed documents, separated by commas.
pub open spec fn rows_text(rows: Seq<InfoView>) -> Seq<char>
    decreases rows.len(),
{
    if rows.len() == 0 {
        seq![]
    } else if rows.len() == 1 {
        row_text(rows[0])
    } else {
        rows_text(rows.drop_last()) + ","@ + row_text(rows.last())
    }
}

/// The document list as a JSON object.
pub open spec fn list_text(rows: Seq<InfoView>) -> Seq<char> {
    "{\"pdfs\":["@ + rows_text(rows) + "]}"@
}

/// A document's notes as a JSON object.
pub open spec fn notes_text(name: Seq<char>, notes: Seq<char>) -> Seq<char> {
    "{\"document_name\":"@ + quoted(name) + ",\"notes\":"@ + quoted(notes) + "}"@
}

impl ServerResponse {
    /// The reply envelope as JSON text.
    pub fn to_text(&self) -> (r: String)
        ensures
            r@ == envelope_text(self@),
    {
        let mut t = String::from_str("{\"what\":");
        let w = quote(self.what.as_str());
        t.append(w.as_str());
        t.append(",\"content\":");
        t.append(self.content.as_str());
        t.append("}");
        t
    }
}

fn row_to_text(info: &PdfInfo, out: &mut String)
    ensures
        final(out)@ == old(out)@ + row_text(info@),
{
    out.append("{\"last_read\":");
    match info.last_read {
        Some(n) => {
            let t = int_to_text(n);
            out.append(t.as_str());
        },
        None => out.append("null"),
    }
    out.append(",\"filename\":");
    let f = quote(info.filename.as_str());
    out.append(f.as_str());
    out.append(",\"state\":");
    match &info.state {
        Some(s) => out.append(s.as_str()),
        None => out.append("null"),
    }
    out.append("}");
}

/// The document list as JSON text.
pub fn list_to_text(list: &PdfList) -> (r: String)
    ensures
        r@ == list_text(infos_view(list.pdfs@)),
{
    let ghost rows = infos_view(list.pdfs@);
    let mut out = String::from_str("{\"pdfs\":[");
    let ghost start = out@;
    let mut i: usize = 0;
    assert(rows.subrange(0, 0) =~= Seq::<InfoView>::empty());
    while i < list.pdfs.len()
        invariant
            0 <= i <= list.pdfs@.len(),
            rows == infos_view(list.pdfs@),
            start == "{\"pdfs\":["@,
            out@ == start + rows_text(rows.subrange(0, i as int)),
        decreases list.pdfs.len() - i,
    {
        if i > 0 {
            out.append(",");
        }
        row_to_text(&list.pdfs[i], &mut out);
        proof {
            let p = rows.subrange(0, i + 1);
            assert(p.drop_last() =~= rows.subrange(0, i as int));
            assert(p.last() == list.pdfs@[i as int]@);
            if i == 0 {
                assert(p.len() == 1);
            }
        }
        i = i + 1;
    }
    assert(rows.subrange(0, i as int) =~= rows);
    out.append("]}");
    out
}

/// A document's notes as JSON text.
pub fn notes_to_text(name: &String, notes: &String) -> (r: String)
    ensures
        r@ == notes_text(name@, notes@),
{
    let mut t = String::from_str("{\"document_name\":");
    let n = quote(name.as_str());
    t.append(n.as_str());
    t.append(",\"notes\":");
    let m = quote(notes.as_str());
    t.append(m.as_str());
    t.append("}");
    t
}

} // verus!
