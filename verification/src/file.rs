//! Where a collection is kept, and the names that go with it.

use crate::consts::{FOLDER_NAME, UPLOAD_FOLDER_NAME};
use crate::json::{Json, JsonValue};
use vstd::prelude::*;
use vstd::string::StringExecFns;

verus! {

/// The ending of a file that holds a collection.
pub open spec fn file_ending() -> Seq<char> {
    seq!['.', 'j', 's', 'o', 'n']
}

/// The path of the file that holds the collection `name`.
pub open spec fn path_of(name: Seq<char>) -> Seq<char> {
    FOLDER_NAME@ + seq!['/'] + name + file_ending()
}

/// The path of the file that holds the collection `file_name`.
pub fn file_path(file_name: &str) -> (path: String)
    ensures
        path@ == path_of(file_name@),
{
    proof {
        reveal_strlit("/");
        reveal_strlit(".json");
        assert("/"@ =~= seq!['/']);
        assert(".json"@ =~= file_ending());
    }
    let mut path = String::from_str(FOLDER_NAME);
    path.append("/");
    path.append(file_name);
    path.append(".json");
    path
}

/// The path of the uploaded file `file_name`.
pub fn upload_path(file_name: &str) -> (path: String)
    ensures
        path@ == UPLOAD_FOLDER_NAME@ + seq!['/'] + file_name@,
{
    proof {
        reveal_strlit("/");
        assert("/"@ =~= seq!['/']);
    }
    let mut path = String::from_str(UPLOAD_FOLDER_NAME);
    path.append("/");
    path.append(file_name);
    path
}

/// The name of the collection that a file holds: the file's name without
/// its ending. Nothing for a file with another ending.
pub fn collection_name(file_name: &str) -> (name: Option<String>)
    ensures
        match name {
            Some(n) => file_name@ == n@ + file_ending(),
            None => forall|n: Seq<char>| file_name@ != n + file_ending(),
        },
{
    proof {
        reveal_strlit(".json");
        assert(".json"@ =~= file_ending());
    }
    let len: usize = file_name.unicode_len();
    if len < 5 {
        assert forall|n: Seq<char>| file_name@ != n + file_ending() by {
            assert((n + file_ending()).len() == n.len() + 5);
        }
        return None;
    }
    let cut: usize = len - 5;
    let ending = String::from_str(file_name.substring_char(cut, len));
    let wanted = String::from_str(".json");
    if ending == wanted {
        let name = String::from_str(file_name.substring_char(0, cut));
        assert(file_name@ =~= name@ + file_ending());
        Some(name)
    } else {
        assert forall|n: Seq<char>| file_name@ != n + file_ending() by {
            if file_name@ == n + file_ending() {
                assert((n + file_ending()).len() == n.len() + 5);
                assert((n + file_ending()).subrange(cut as int, len as int) =~= file_ending());
            }
        }
        None
    }
}

/// The event on which the changes of a collection are announced.
pub fn listener_event(collection: &str) -> (event: String)
    ensures
        event@ == collection@ + "-listener"@,
{
    let mut event = String::from_str(collection);
    event.append("-listener");
    event
}

/// The event on which what a client sent on the collection's own event is
/// passed on to the others.
pub fn broadcast_event(collection: &str) -> (event: String)
    ensures
        event@ == "to-"@ + collection@,
{
    let mut event = String::from_str("to-");
    event.append(collection);
    event
}

/// The document that records an uploaded file.
pub fn file_record(file_name: String) -> (doc: Json)
    ensures
        doc@ == JsonValue::Object(
            Map::empty().insert("file_name"@, JsonValue::Text(file_name@)),
        ),
{
    let mut doc = Json::Object(Vec::new());
    assert(doc@ == JsonValue::Object(Map::empty()));
    doc.set_field("file_name".to_owned(), Json::Text(file_name));
    doc
}

} // verus!
