use pdf_server::command::decode_command;
use pdf_server::command::process_public_json;
use pdf_server::command::public_interface;
use pdf_server::command::Command;
use pdf_server::command::PublicMessage;
use pdf_server::error::CommandError;
use pdf_server::json::Json;
use pdf_server::response::list_to_text;
use pdf_server::response::notes_to_text;
use pdf_server::response::ServerResponse;
use pdf_server::store::pdfentries;
use pdf_server::store::MetadataStore;
use pdf_server::store::PdfInfo;
use pdf_server::store::PdfList;

fn text(s: &str) -> Json {
    Json::Str(s.to_string())
}

fn obj(members: Vec<(&str, Json)>) -> Json {
    Json::Obj(members.into_iter().map(|(k, v)| (k.to_string(), v)).collect())
}

fn msg(what: &str, data: Option<Json>) -> PublicMessage {
    PublicMessage { what: what.to_string(), data }
}

fn store_with(names: &[&str]) -> MetadataStore {
    let mut store = MetadataStore::new();
    let inv: Vec<PdfInfo> = names
        .iter()
        .map(|n| PdfInfo { last_read: None, filename: n.to_string(), state: None })
        .collect();
    pdfentries(&mut store, &inv);
    store
}

fn notes_of(store: &mut MetadataStore, name: &str) -> ServerResponse {
    public_interface(store, &msg("getnotes", Some(text(name))))
}

#[test]
fn pdf_state_round_trip() {
    let mut store = store_with(&["a.pdf"]);
    let data = obj(vec![
        ("document_name", text("a.pdf")),
        ("zoom", Json::Num("1.5".to_string())),
        ("page", Json::Int(3)),
        ("page_count", Json::Int(10)),
        ("last_read", Json::Int(1000)),
    ]);
    let saved = process_public_json(&mut store, &msg("savepdfstate", Some(data))).unwrap();
    assert_eq!(saved.what, "pdfstatesaved");
    assert_eq!(saved.content, "null");
    let list = process_public_json(&mut store, &msg("getfilelist", None)).unwrap();
    assert_eq!(list.what, "filelist");
    let v: serde_json::Value = serde_json::from_str(&list.content).unwrap();
    let entry = &v["pdfs"][0];
    assert_eq!(entry["filename"], "a.pdf");
    assert_eq!(entry["last_read"], 1000);
    assert_eq!(entry["state"]["zoom"].as_f64(), Some(1.5));
    assert_eq!(entry["state"]["page"].as_i64(), Some(3));
    assert_eq!(entry["state"]["page_count"].as_i64(), Some(10));
    assert_eq!(entry["state"]["document_name"], "a.pdf");
}

#[test]
fn filelist_text_is_exact() {
    let mut store = store_with(&["a.pdf", "b\"c.pdf"]);
    let data = obj(vec![("document_name", text("a.pdf")), ("last_read", Json::Int(-7))]);
    process_public_json(&mut store, &msg("savepdfstate", Some(data))).unwrap();
    let r = process_public_json(&mut store, &msg("getfilelist", None)).unwrap();
    assert_eq!(
        r.content,
        "{\"pdfs\":[{\"last_read\":-7,\"filename\":\"a.pdf\",\"state\":{\"document_name\":\"a.pdf\",\"last_read\":-7}},{\"last_read\":null,\"filename\":\"b\\\"c.pdf\",\"state\":null}]}"
    );
}

#[test]
fn empty_filelist() {
    let mut store = MetadataStore::new();
    let r = process_public_json(&mut store, &msg("getfilelist", None)).unwrap();
    assert_eq!(r.content, "{\"pdfs\":[]}");
    assert_eq!(list_to_text(&PdfList { pdfs: vec![] }), "{\"pdfs\":[]}");
}

#[test]
fn notes_overwrite() {
    let mut store = store_with(&["a.pdf"]);
    let save = |n: &str| {
        msg("savenotes", Some(obj(vec![("document_name", text("a.pdf")), ("notes", text(n))])))
    };
    let r = public_interface(&mut store, &save("first"));
    assert_eq!(r.what, "notesaved");
    assert_eq!(r.content, "null");
    public_interface(&mut store, &save("second"));
    let r = notes_of(&mut store, "a.pdf");
    assert_eq!(r.what, "notesresponse");
    assert_eq!(r.content, "{\"document_name\":\"a.pdf\",\"notes\":\"second\"}");
}

#[test]
fn unknown_command_rejected() {
    let mut store = store_with(&["a.pdf"]);
    let r = process_public_json(&mut store, &msg("bogus", None));
    assert_eq!(r.err(), Some(CommandError::UnknownCommand("bogus".to_string())));
    let r = public_interface(&mut store, &msg("bogus", None));
    assert_eq!(r.what, "server error");
    assert_eq!(r.content, "\"invalid 'what' code:'bogus'\"");
    assert_eq!(store.records().len(), 1);
    assert_eq!(store.records()[0].notes, "");
    assert_eq!(store.last_state(), None);
}

#[test]
fn corrupt_last_state_reads_as_null() {
    let mut store = MetadataStore::new();
    store.set_last_state("{\"open\": [".to_string());
    let r = public_interface(&mut store, &msg("getlaststate", None));
    assert_eq!(r.what, "laststate");
    assert_eq!(r.content, "null");
}

#[test]
fn absent_last_state_reads_as_null() {
    let mut store = MetadataStore::new();
    let r = public_interface(&mut store, &msg("getlaststate", None));
    assert_eq!(r.what, "laststate");
    assert_eq!(r.content, "null");
}

#[test]
fn last_state_round_trip() {
    let mut store = MetadataStore::new();
    let data = obj(vec![("open", Json::Arr(vec![text("a.pdf"), Json::Bool(true), Json::Null]))]);
    let r = public_interface(&mut store, &msg("savelaststate", Some(data)));
    assert_eq!(r.what, "laststatesaved");
    let r = public_interface(&mut store, &msg("getlaststate", None));
    assert_eq!(r.content, "{\"open\":[\"a.pdf\",true,null]}");
    let r = public_interface(&mut store, &msg("savelaststate", None));
    assert_eq!(r.what, "laststatesaved");
    assert_eq!(store.last_state(), Some("{\"open\":[\"a.pdf\",true,null]}".to_string()));
}

#[test]
fn notes_on_unknown_document() {
    let mut store = store_with(&["a.pdf"]);
    let r = process_public_json(&mut store, &msg("getnotes", Some(text("missing.pdf"))));
    assert_eq!(r.err(), Some(CommandError::NotFound("missing.pdf".to_string())));
    let r = notes_of(&mut store, "missing.pdf");
    assert_eq!(r.what, "server error");
    assert_eq!(r.content, "\"no document named 'missing.pdf'\"");
}

#[test]
fn malformed_payloads() {
    let cases = vec![
        (msg("savepdfstate", None), "pdfstate data not found!"),
        (
            msg("savepdfstate", Some(obj(vec![("document_name", text("a.pdf"))]))),
            "pdfstate data needs a string document_name and an integer last_read",
        ),
        (
            msg(
                "savepdfstate",
                Some(obj(vec![("document_name", text("a.pdf")), ("last_read", Json::Num("1.5".to_string()))])),
            ),
            "pdfstate data needs a string document_name and an integer last_read",
        ),
        (msg("getnotes", None), "getnotes data not found!"),
        (msg("getnotes", Some(Json::Int(3))), "getnotes data must be a document name"),
        (msg("savenotes", None), "savenotes data not found!"),
        (
            msg("savenotes", Some(obj(vec![("document_name", text("a.pdf")), ("notes", Json::Null)]))),
            "savenotes data needs a string document_name and string notes",
        ),
        (msg("savenotes", Some(text("a.pdf"))), "savenotes data needs a string document_name and string notes"),
    ];
    for (m, expected) in cases {
        let mut store = store_with(&["a.pdf"]);
        match decode_command(&m) {
            Err(CommandError::MalformedPayload(t)) => assert_eq!(t, expected),
            _ => panic!("expected a malformed payload for {}", m.what),
        }
        let r = process_public_json(&mut store, &m);
        assert_eq!(r.err(), Some(CommandError::MalformedPayload(expected.to_string())));
        assert_eq!(store.records()[0].notes, "");
        assert_eq!(store.records()[0].state, None);
    }
}

#[test]
fn decode_takes_first_member_of_a_name() {
    let data = obj(vec![
        ("document_name", text("first.pdf")),
        ("document_name", text("second.pdf")),
        ("notes", text("n")),
    ]);
    match decode_command(&msg("savenotes", Some(data))) {
        Ok(Command::SaveNotes { document_name, notes }) => {
            assert_eq!(document_name, "first.pdf");
            assert_eq!(notes, "n");
        }
        _ => panic!("expected savenotes"),
    }
}

#[test]
fn store_error_message_is_its_report() {
    let e = CommandError::StoreError("disk full".to_string());
    assert_eq!(e.message(), "disk full");
    assert_eq!(
        CommandError::UnknownCommand("x".to_string()).message(),
        "invalid 'what' code:'x'"
    );
}

#[test]
fn json_text_of_nested_values() {
    let j = obj(vec![
        ("a", Json::Arr(vec![])),
        ("b", obj(vec![])),
        ("c", Json::Int(i64::MIN)),
        ("d", Json::Num("18446744073709551615".to_string())),
        ("e\n", text("tab\there")),
        ("f", Json::Bool(false)),
    ]);
    let t = j.to_text();
    assert_eq!(
        t,
        "{\"a\":[],\"b\":{},\"c\":-9223372036854775808,\"d\":18446744073709551615,\"e\\n\":\"tab\\there\",\"f\":false}"
    );
    let parsed: serde_json::Value = serde_json::from_str(&t).unwrap();
    assert_eq!(parsed["c"].as_i64(), Some(i64::MIN));
}

#[test]
fn envelope_and_notes_text() {
    let r = ServerResponse { what: "notesaved".to_string(), content: "null".to_string() };
    assert_eq!(r.to_text(), "{\"what\":\"notesaved\",\"content\":null}");
    assert_eq!(
        notes_to_text(&"a\\b.pdf".to_string(), &"line1\nline2".to_string()),
        "{\"document_name\":\"a\\\\b.pdf\",\"notes\":\"line1\\nline2\"}"
    );
}
