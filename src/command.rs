use vstd::prelude::*;

use crate::error::CommandError;
use crate::error::error_text;
use crate::error::ErrorView;
use crate::json::is_json;
use crate::json::is_valid_json;
use crate::json::Json;
use crate::json::json_text;
use crate::json::quote;
use crate::json::quoted;
use crate::response::list_text;
use crate::response::list_to_text;
use crate::response::notes_text;
use crate::response::notes_to_text;
use crate::response::ResponseView;
use crate::response::ServerResponse;
use crate::store::doc_index;
use crate::store::DocView;
use crate::store::getPdfNotes;
use crate::store::has_doc;
use crate::store::lemma_notes_last_save_wins;
use crate::store::listing;
use crate::store::MetadataStore;
use crate::store::names_distinct;
use crate::store::pdflist;
use crate::store::savePdfNotes;
use crate::store::savePdfState;
use crate::store::StoreView;
use crate::store::with_notes;
use crate::store::with_state;

verus! {

/// A request as the client sends it: a command name and an optional payload.
pub struct PublicMessage {
    pub what: String,
    pub data: Option<Json>,
}

/// A request that carries the sender's credentials besides the command.
pub struct Message {
    pub uid: String,
    pub pwd: String,
    pub what: String,
    pub data: Option<Json>,
}

/// A command, decoded once from a request.
pub enum Command {
    GetFileList,
    /// Saves a document's reading state: the payload's JSON text, and its read time.
    SavePdfState { document_name: String, state: String, last_read: i64 },
    GetNotes { document_name: String },
    SaveNotes { document_name: String, notes: String },
    GetLastState,
    /// Saves the application state, given as JSON text; nothing to save where it is absent.
    SaveLastState { app_state: Option<String> },
}

pub ghost enum CommandView {
    GetFileList,
    SavePdfState { document_name: Seq<char>, state: Seq<char>, last_read: i64 },
    GetNotes { document_name: Seq<char> },
    SaveNotes { document_name: Seq<char>, notes: Seq<char> },
    GetLastState,
    SaveLastState { app_state: Option<Seq<char>> },
}

impl View for Command {
    type V = CommandView;

    open spec fn view(&self) -> CommandView {
        match self {
            Command::GetFileList => CommandView::GetFileList,
            Command::SavePdfState { document_name, state, last_read } => CommandView::SavePdfState {
                document_name: document_name@,
                state: state@,
                last_read: *last_read,
            },
            Command::GetNotes { document_name } => CommandView::GetNotes {
                document_name: document_name@,
            },
            Command::SaveNotes { document_name, notes } => CommandView::SaveNotes {
                document_name: document_name@,
                notes: notes@,
            },
            Command::GetLastState => CommandView::GetLastState,
            Command::SaveLastState { app_state } => CommandView::SaveLastState {
                app_state: match app_state {
                    Some(s) => Some(s@),
                    None => None,
                },
            },
        }
    }
}

/// The value of the first member of `members` called `key`.
pub open spec fn field_of(members: Seq<(String, Json)>, key: Seq<char>) -> Option<Json>
    decreases members.len(),
{
    if members.len() == 0 {
        None
    } else if members[0].0@ == key {
        Some(members[0].1)
    } else {
        field_of(members.drop_first(), key)
    }
}

/// The member `key` of an object, where it is a string.
pub open spec fn text_field(data: Json, key: Seq<char>) -> Option<Seq<char>> {
    match data {
        Json::Obj(members) => match field_of(members@, key) {
            Some(Json::Str(s)) => Some(s@),
            _ => None,
        },
        _ => None,
    }
}

/// The member `key` of an object, where it is an integer that fits in `i64`.
pub open spec fn int_field(data: Json, key: Seq<char>) -> Option<i64> {
    match data {
        Json::Obj(members) => match field_of(members@, key) {
            Some(Json::Int(n)) => Some(n),
            _ => None,
        },
        _ => None,
    }
}

/// The command that a request names, or why there is none.
pub open spec fn decoded(what: Seq<char>, data: Option<Json>) -> Result<CommandView, ErrorView> {
    if what == "getfilelist"@ {
        Ok(CommandView::GetFileList)
    } else if what == "savepdfstate"@ {
        match data {
            None => Err(ErrorView::MalformedPayload("pdfstate data not found!"@)),
            Some(j) => match (text_field(j, "document_name"@), int_field(j, "last_read"@)) {
                (Some(n), Some(t)) => Ok(
                    CommandView::SavePdfState { document_name: n, state: json_text(j), last_read: t },
                ),
                _ => Err(
                    ErrorView::MalformedPayload(
                        "pdfstate data needs a string document_name and an integer last_read"@,
                    ),
                ),
            },
        }
    } else if what == "getnotes"@ {
        match data {
            None => Err(ErrorView::MalformedPayload("getnotes data not found!"@)),
            Some(Json::Str(n)) => Ok(CommandView::GetNotes { document_name: n@ }),
            Some(_) => Err(ErrorView::MalformedPayload("getnotes data must be a document name"@)),
        }
    } else if what == "savenotes"@ {
        match data {
            None => Err(ErrorView::MalformedPayload("savenotes data not found!"@)),
            Some(j) => match (text_field(j, "document_name"@), text_field(j, "notes"@)) {
                (Some(n), Some(t)) => Ok(CommandView::SaveNotes { document_name: n, notes: t }),
                _ => Err(
                    ErrorView::MalformedPayload(
                        "savenotes data needs a string document_name and string notes"@,
                    ),
                ),
            },
        }
    } else if what == "getlaststate"@ {
        Ok(CommandView::GetLastState)
    } else if what == "savelaststate"@ {
        Ok(
            CommandView::SaveLastState {
                app_state: match data {
                    Some(j) => Some(json_text(j)),
                    None => None,
                },
            },
        )
    } else {
        Err(ErrorView::UnknownCommand(what))
    }
}

/// The value of the first member called `key`, where `data` is an object.
fn member<'a>(data: &'a Json, key: &str) -> (r: Option<&'a Json>)
    ensures
        match data {
            Json::Obj(members) => match r {
                Some(v) => field_of(members@, key@) == Some(*v),
                None => field_of(members@, key@) is None,
            },
            _ => r is None,
        },
{
    match data {
        Json::Obj(members) => {
            let k = String::from_str(key);
            let mut i: usize = 0;
            assert(members@.subrange(0, members@.len() as int) =~= members@);
            while i < members.len()
                invariant
                    0 <= i <= members@.len(),
                    k@ == key@,
                    *data == Json::Obj(*members),
                    field_of(members@, key@) == field_of(
                        members@.subrange(i as int, members@.len() as int),
                        key@,
                    ),
                decreases members.len() - i,
            {
                let ghost rest = members@.subrange(i as int, members@.len() as int);
                assert(rest[0] == members@[i as int]);
                if members[i].0 == k {
                    assert(field_of(rest, key@) == Some(members@[i as int].1));
                    return Some(&members[i].1);
                }
                assert(rest.drop_first() =~= members@.subrange(i + 1, members@.len() as int));
                i = i + 1;
            }
            None
        },
        _ => None,
    }
}

fn text_member(data: &Json, key: &str) -> (r: Option<String>)
    ensures
        match r {
            Some(s) => text_field(*data, key@) == Some(s@),
            None => text_field(*data, key@) is None,
        },
{
    match member(data, key) {
        Some(Json::Str(s)) => Some(s.clone()),
        _ => None,
    }
}

fn int_member(data: &Json, key: &str) -> (r: Option<i64>)
    ensures
        r == int_field(*data, key@),
{
    match member(data, key) {
        Some(Json::Int(n)) => Some(*n),
        _ => None,
    }
}

fn malformed(m: &str) -> (r: CommandError)
    ensures
        r@ == ErrorView::MalformedPayload(m@),
{
    CommandError::MalformedPayload(String::from_str(m))
}

/// Decodes the command that a request names.
pub fn decode_command(msg: &PublicMessage) -> (r: Result<Command, CommandError>)
    ensures
        match r {
            Ok(c) => decoded(msg.what@, msg.data) == Ok::<CommandView, ErrorView>(c@),
            Err(e) => decoded(msg.what@, msg.data) == Err::<CommandView, ErrorView>(e@),
        },
{
    let what = &msg.what;
    if *what == String::from_str("getfilelist") {
        Ok(Command::GetFileList)
    } else if *what == String::from_str("savepdfstate") {
        match &msg.data {
            None => Err(malformed("pdfstate data not found!")),
            Some(j) => match (text_member(j, "document_name"), int_member(j, "last_read")) {
                (Some(n), Some(t)) => Ok(
                    Command::SavePdfState { document_name: n, state: j.to_text(), last_read: t },
                ),
                _ => Err(
                    malformed("pdfstate data needs a string document_name and an integer last_read"),
                ),
            },
        }
    } else if *what == String::from_str("getnotes") {
        match &msg.data {
            None => Err(malformed("getnotes data not found!")),
            Some(Json::Str(n)) => Ok(Command::GetNotes { document_name: n.clone() }),
            Some(_) => Err(malformed("getnotes data must be a document name")),
        }
    } else if *what == String::from_str("savenotes") {
        match &msg.data {
            None => Err(malformed("savenotes data not found!")),
            Some(j) => match (text_member(j, "document_name"), text_member(j, "notes")) {
                (Some(n), Some(t)) => Ok(Command::SaveNotes { document_name: n, notes: t }),
                _ => Err(malformed("savenotes data needs a string document_name and string notes")),
            },
        }
    } else if *what == String::from_str("getlaststate") {
        Ok(Command::GetLastState)
    } else if *what == String::from_str("savelaststate") {
        match &msg.data {
            Some(j) => Ok(Command::SaveLastState { app_state: Some(j.to_text()) }),
            None => Ok(Command::SaveLastState { app_state: None }),
        }
    } else {
        Err(CommandError::UnknownCommand(what.clone()))
    }
}

/// What the store looks like after a command.
pub open spec fn store_after(s: StoreView, c: CommandView) -> StoreView {
    match c {
        CommandView::SavePdfState { document_name, state, last_read } => StoreView {
            docs: with_state(s.docs, document_name, state, last_read),
            last_state: s.last_state,
        },
        CommandView::SaveNotes { document_name, notes } => StoreView {
            docs: with_notes(s.docs, document_name, notes),
            last_state: s.last_state,
        },
        CommandView::SaveLastState { app_state } => match app_state {
            Some(t) => StoreView { docs: s.docs, last_state: Some(t) },
            None => s,
        },
        _ => s,
    }
}

/// The stored application state where it is JSON text, else `null`.
pub open spec fn last_state_content(s: StoreView) -> Seq<char> {
    match s.last_state {
        Some(t) => if is_json(t) { t } else { "null"@ },
        None => "null"@,
    }
}

/// What a command answers on the store `s`, or why it fails.
pub open spec fn reply(s: StoreView, c: CommandView) -> Result<ResponseView, ErrorView> {
    match c {
        CommandView::GetFileList => Ok(
            ResponseView {
                what: "filelist"@,
                content: list_text(s.docs.map_values(|d: DocView| listing(d))),
            },
        ),
        CommandView::SavePdfState { .. } => Ok(
            ResponseView { what: "pdfstatesaved"@, content: "null"@ },
        ),
        CommandView::GetNotes { document_name } => if has_doc(s.docs, document_name) {
            Ok(
                ResponseView {
                    what: "notesresponse"@,
                    content: notes_text(
                        document_name,
                        s.docs[doc_index(s.docs, document_name)].notes,
                    ),
                },
            )
        } else {
            Err(ErrorView::NotFound(document_name))
        },
        CommandView::SaveNotes { .. } => Ok(ResponseView { what: "notesaved"@, content: "null"@ }),
        CommandView::GetLastState => Ok(
            ResponseView { what: "laststate"@, content: last_state_content(s) },
        ),
        CommandView::SaveLastState { .. } => Ok(
            ResponseView { what: "laststatesaved"@, content: "null"@ },
        ),
    }
}

pub open spec fn reply_matches(r: Result<ServerResponse, CommandError>, expected: Result<ResponseView, ErrorView>) -> bool {
    match r {
        Ok(resp) => expected == Ok::<ResponseView, ErrorView>(resp@),
        Err(e) => expected == Err::<ResponseView, ErrorView>(e@),
    }
}

fn acknowledge(what: &str) -> (r: ServerResponse)
    ensures
        r@ == (ResponseView { what: what@, content: "null"@ }),
{
    ServerResponse { what: String::from_str(what), content: String::from_str("null") }
}

/// Carries out a decoded command on the store.
pub fn execute(store: &mut MetadataStore, cmd: Command) -> (r: Result<ServerResponse, CommandError>)
    requires
        old(store).wf(),
    ensures
        final(store).wf(),
        final(store).view() == store_after(old(store).view(), cmd@),
        reply_matches(r, reply(old(store).view(), cmd@)),
{
    match cmd {
        Command::GetFileList => {
            let list = pdflist(store);
            let content = list_to_text(&list);
            Ok(ServerResponse { what: String::from_str("filelist"), content })
        },
        Command::SavePdfState { document_name, state, last_read } => {
            savePdfState(store, &document_name, state, last_read);
            Ok(acknowledge("pdfstatesaved"))
        },
        Command::GetNotes { document_name } => {
            match getPdfNotes(store, &document_name) {
                Ok(notes) => {
                    let content = notes_to_text(&document_name, &notes);
                    Ok(ServerResponse { what: String::from_str("notesresponse"), content })
                },
                Err(e) => Err(e),
            }
        },
        Command::SaveNotes { document_name, notes } => {
            savePdfNotes(store, &document_name, notes);
            Ok(acknowledge("notesaved"))
        },
        Command::GetLastState => {
            let content = match store.last_state() {
                Some(t) => {
                    if is_valid_json(t.as_str()) {
                        t
                    } else {
                        String::from_str("null")
                    }
                },
                None => String::from_str("null"),
            };
            Ok(ServerResponse { what: String::from_str("laststate"), content })
        },
        Command::SaveLastState { app_state } => {
            match app_state {
                Some(t) => store.set_last_state(t),
                None => {},
            }
            Ok(acknowledge("laststatesaved"))
        },
    }
}

/// Decodes a request and carries it out on the store. A request that does not decode
/// leaves the store as it was.
pub fn process_public_json(store: &mut MetadataStore, msg: &PublicMessage) -> (r: Result<
    ServerResponse,
    CommandError,
>)
    requires
        old(store).wf(),
    ensures
        final(store).wf(),
        match decoded(msg.what@, msg.data) {
            Ok(c) => final(store).view() == store_after(old(store).view(), c) && reply_matches(
                r,
                reply(old(store).view(), c),
            ),
            Err(e) => final(store).view() == old(store).view() && (r matches Err(x) && x@ == e),
        },
{
    match decode_command(msg) {
        Ok(cmd) => execute(store, cmd),
        Err(e) => Err(e),
    }
}

/// The reply that reports an error.
pub fn error_response(e: &CommandError) -> (r: ServerResponse)
    ensures
        r@ == (ResponseView { what: "server error"@, content: quoted(error_text(e@)) }),
{
    let m = e.message();
    ServerResponse { what: String::from_str("server error"), content: quote(m.as_str()) }
}

/// Answers a request: its reply where it succeeds, else a `server error` reply that
/// reports why.
pub fn public_interface(store: &mut MetadataStore, msg: &PublicMessage) -> (r: ServerResponse)
    requires
        old(store).wf(),
    ensures
        final(store).wf(),
        match decoded(msg.what@, msg.data) {
            Ok(c) => final(store).view() == store_after(old(store).view(), c) && match reply(
                old(store).view(),
                c,
            ) {
                Ok(v) => r@ == v,
                Err(e) => r@ == (ResponseView {
                    what: "server error"@,
                    content: quoted(error_text(e)),
                }),
            },
            Err(e) => final(store).view() == old(store).view() && r@ == (ResponseView {
                what: "server error"@,
                content: quoted(error_text(e)),
            }),
        },
{
    match process_public_json(store, msg) {
        Ok(resp) => resp,
        Err(e) => error_response(&e),
    }
}

/// Two `savenotes` for a known document, then `getnotes`: the reply holds the second
/// text only.
pub proof fn lemma_getnotes_after_two_saves(
    s: StoreView,
    name: Seq<char>,
    first: Seq<char>,
    second: Seq<char>,
)
    requires
        names_distinct(s.docs),
        has_doc(s.docs, name),
    ensures
        reply(
            store_after(
                store_after(s, CommandView::SaveNotes { document_name: name, notes: first }),
                CommandView::SaveNotes { document_name: name, notes: second },
            ),
            CommandView::GetNotes { document_name: name },
        ) == Ok::<ResponseView, ErrorView>(
            ResponseView { what: "notesresponse"@, content: notes_text(name, second) },
        ),
{
    lemma_notes_last_save_wins(s.docs, name, first, second);
}

/// Where the stored application state is not JSON text, `getlaststate` answers `null`
/// rather than an error.
pub proof fn lemma_corrupt_last_state_is_null(s: StoreView)
    requires
        s.last_state matches Some(t) && !is_json(t),
    ensures
        reply(s, CommandView::GetLastState) == Ok::<ResponseView, ErrorView>(
            ResponseView { what: "laststate"@, content: "null"@ },
        ),
{
}

/// `getnotes` for a name that no record has fails with `NotFound`, and changes nothing.
pub proof fn lemma_getnotes_unknown_document(s: StoreView, name: Seq<char>)
    requires
        !has_doc(s.docs, name),
    ensures
        reply(s, CommandView::GetNotes { document_name: name }) == Err::<ResponseView, ErrorView>(
            ErrorView::NotFound(name),
        ),
        store_after(s, CommandView::GetNotes { document_name: name }) == s,
{
}

/// A request whose `what` names none of the six commands is refused as unknown, whatever
/// its payload.
pub proof fn lemma_unknown_command(what: Seq<char>, data: Option<Json>)
    requires
        what != "getfilelist"@,
        what != "savepdfstate"@,
        what != "getnotes"@,
        what != "savenotes"@,
        what != "getlaststate"@,
        what != "savelaststate"@,
    ensures
        decoded(what, data) == Err::<CommandView, ErrorView>(ErrorView::UnknownCommand(what)),
{
}

} // verus!
