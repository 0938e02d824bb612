//! The records by which the processes of one host session find each other: who may be named in
//! them, where they lie and which are believed.
use crate::encoding::{is_random_name, new_name};
use crate::platform::ProcessLocator;
use crate::text::{chars_of, decimal, decimal_string, same};
use vstd::prelude::*;
use vstd::string::*;

verus! {

/// The endpoint of the monitor of a host session.
#[derive(Debug, Clone)]
pub struct MonitorRecord {
    pub host_session_id: String,
    pub generation: String,
    pub port: u16,
}

/// Who owns a session, and how its process tree is ended without its owner.
#[derive(Debug, Clone)]
pub struct Ownership {
    pub host_session_id: String,
    pub instance_id: String,
    pub session_id: String,
    pub port: u16,
    pub process: ProcessLocator,
}

/// Why a name or a record is not accepted.
#[derive(Debug, Clone, Copy, PartialEq, Eq, Structural)]
pub enum RecordError {
    InvalidIdentifier,
    InvalidMonitor,
    OwnerMismatch,
}

impl RecordError {
    pub open spec fn spec_describe(self) -> Seq<char> {
        match self {
            RecordError::InvalidIdentifier => "invalid identifier"@,
            RecordError::InvalidMonitor => "invalid monitor record"@,
            RecordError::OwnerMismatch => "owner record mismatch"@,
        }
    }

    /// The error in words.
    pub fn describe(self) -> (text: String)
        ensures
            text@ == self.spec_describe(),
    {
        match self {
            RecordError::InvalidIdentifier => "invalid identifier".to_string(),
            RecordError::InvalidMonitor => "invalid monitor record".to_string(),
            RecordError::OwnerMismatch => "owner record mismatch".to_string(),
        }
    }
}

/// The longest name.
pub const LONGEST_ID: usize = 128;

/// The characters of names: ASCII letters and digits, `_` and `-`.
pub open spec fn id_char(c: char) -> bool {
    ||| 'a' <= c <= 'z'
    ||| 'A' <= c <= 'Z'
    ||| '0' <= c <= '9'
    ||| c == '_'
    ||| c == '-'
}

/// Whether a text is a name: one to 128 of the characters of names.
pub open spec fn valid_id(text: Seq<char>) -> bool {
    1 <= text.len() <= LONGEST_ID && forall|i: int|
        0 <= i < text.len() ==> id_char(#[trigger] text[i])
}

/// Checks a name.
pub fn validate_id(value: &str) -> (r: Result<(), RecordError>)
    ensures
        r is Ok == valid_id(value@),
        r is Err ==> r->Err_0 == RecordError::InvalidIdentifier,
{
    let chars = chars_of(value);
    if chars.len() == 0 || chars.len() > LONGEST_ID {
        return Err(RecordError::InvalidIdentifier);
    }
    let mut i: usize = 0;
    while i < chars.len()
        invariant
            i <= chars@.len(),
            chars@ == value@,
            forall|k: int| 0 <= k < i ==> id_char(#[trigger] chars@[k]),
        decreases chars@.len() - i,
    {
        let c = chars[i];
        if !(('a' <= c && c <= 'z') || ('A' <= c && c <= 'Z') || ('0' <= c && c <= '9') || c == '_'
            || c == '-') {
            assert(!id_char(value@[i as int]));
            return Err(RecordError::InvalidIdentifier);
        }
        i += 1;
    }
    Ok(())
}

/// A new name for something: a prefix that says what, and random digits.
pub fn new_id(prefix: &str) -> (id: String)
    requires
        prefix@.len() <= 96,
        forall|i: int| 0 <= i < prefix@.len() ==> id_char(#[trigger] prefix@[i]),
    ensures
        valid_id(id@),
        prefix@.is_prefix_of(id@),
        is_random_name(id@.skip(prefix@.len() as int)),
{
    let id = new_name(prefix);
    proof {
        let n = prefix@.len() as int;
        assert forall|i: int| 0 <= i < id@.len() implies id_char(#[trigger] id@[i]) by {
            if i < n {
                assert(id@[i] == id@.subrange(0, n)[i]);
                assert(id@[i] == prefix@[i]);
            } else {
                assert(id@[i] == id@.skip(n)[i - n]);
            }
        }
    }
    id
}

/// In which of the system's directories the records lie, and in which directory there.
#[derive(Debug)]
pub enum Root {
    /// Below the runtime directory of the user.
    Runtime(String),
    /// Below the directory for temporary files.
    Temporary(String),
}

/// Picks the directory for the records: in the runtime directory where the user has one with an
/// absolute path, else in that for temporary files, one for each user.
pub fn root(absolute_runtime_dir: bool, user: u32) -> (root: Root)
    ensures
        match root {
            Root::Runtime(name) => absolute_runtime_dir && name@ == "pty-bridge"@,
            Root::Temporary(name) => !absolute_runtime_dir && name@ == "pty-bridge-"@ + decimal(
                user as nat,
            ),
        },
{
    if absolute_runtime_dir {
        return Root::Runtime("pty-bridge".to_string());
    }
    let mut name = "pty-bridge-".to_string();
    name.append(decimal_string(user as u64).as_str());
    Root::Temporary(name)
}

/// Where the records lie below the directory for local data of a user of a Windows host.
pub fn local_root() -> (path: Vec<String>)
    ensures
        path@.len() == 2,
        path@[0]@ == "pty-bridge"@,
        path@[1]@ == "runtime"@,
{
    let mut path: Vec<String> = Vec::new();
    path.push("pty-bridge".to_string());
    path.push("runtime".to_string());
    path
}

/// Where the record of a monitor lies below the root.
pub fn monitor_path(host: &str) -> (r: Result<Vec<String>, RecordError>)
    ensures
        match r {
            Ok(path) => {
                &&& valid_id(host@)
                &&& path@.len() == 2
                &&& path@[0]@ == "monitors"@
                &&& path@[1]@ == host@ + ".json"@
            },
            Err(error) => !valid_id(host@) && error == RecordError::InvalidIdentifier,
        },
{
    validate_id(host)?;
    let mut file = host.to_string();
    file.append(".json");
    let mut path: Vec<String> = Vec::new();
    path.push("monitors".to_string());
    path.push(file);
    Ok(path)
}

/// Where the records of the sessions of a host lie below the root.
pub fn ownership_directory(host: &str) -> (r: Result<Vec<String>, RecordError>)
    ensures
        match r {
            Ok(path) => {
                &&& valid_id(host@)
                &&& path@.len() == 2
                &&& path@[0]@ == "owners"@
                &&& path@[1]@ == host@
            },
            Err(error) => !valid_id(host@) && error == RecordError::InvalidIdentifier,
        },
{
    validate_id(host)?;
    let mut path: Vec<String> = Vec::new();
    path.push("owners".to_string());
    path.push(host.to_string());
    Ok(path)
}

/// Where the record of a session lies below the root.
pub fn ownership_path(host: &str, instance: &str, session: &str) -> (r: Result<
    Vec<String>,
    RecordError,
>)
    ensures
        match r {
            Ok(path) => {
                &&& valid_id(host@) && valid_id(instance@) && valid_id(session@)
                &&& path@.len() == 3
                &&& path@[0]@ == "owners"@
                &&& path@[1]@ == host@
                &&& path@[2]@ == instance@ + "--"@ + session@ + ".json"@
            },
            Err(error) => {
                &&& !(valid_id(host@) && valid_id(instance@) && valid_id(session@))
                &&& error == RecordError::InvalidIdentifier
            },
        },
{
    let mut path = ownership_directory(host)?;
    validate_id(instance)?;
    validate_id(session)?;
    let mut file = instance.to_string();
    file.append("--");
    file.append(session);
    file.append(".json");
    path.push(file);
    Ok(path)
}

/// Whether a file among the records of a host is a record.
pub open spec fn record_name(name: Seq<char>) -> bool {
    name.len() > 5 && name.skip(name.len() - 5) == ".json"@
}

/// Checks whether a file among the records of a host is a record.
pub fn is_record_file(name: &str) -> (r: bool)
    ensures
        r == record_name(name@),
{
    proof {
        reveal_strlit(".json");
    }
    let chars = chars_of(name);
    let n: usize = chars.len();
    if n <= 5 {
        return false;
    }
    let r = chars[n - 5] == '.' && chars[n - 4] == 'j' && chars[n - 3] == 's' && chars[n - 2] == 'o'
        && chars[n - 1] == 'n';
    proof {
        let end = name@.skip(name@.len() - 5);
        if r {
            assert(end =~= ".json"@);
        } else if end == ".json"@ {
            assert(end[0] == '.' && end[1] == 'j' && end[2] == 's' && end[3] == 'o' && end[4]
                == 'n');
        }
    }
    r
}

/// Checks that the record of a monitor is that of the given host session.
pub fn check_monitor(record: &MonitorRecord, host: &str) -> (r: Result<(), RecordError>)
    ensures
        r == (if record.host_session_id@ == host@ && record.port != 0 {
            Ok::<(), RecordError>(())
        } else {
            Err(RecordError::InvalidMonitor)
        }),
{
    if !same(record.host_session_id.as_str(), host) || record.port == 0 {
        return Err(RecordError::InvalidMonitor);
    }
    Ok(())
}

/// Checks that the record of a session is one of the given host session.
pub fn check_ownership(record: &Ownership, host: &str) -> (r: Result<(), RecordError>)
    ensures
        r == (if record.host_session_id@ == host@ {
            Ok::<(), RecordError>(())
        } else {
            Err(RecordError::OwnerMismatch)
        }),
{
    if !same(record.host_session_id.as_str(), host) {
        return Err(RecordError::OwnerMismatch);
    }
    Ok(())
}

/// Whether a path has only steps down: none of its names is empty, leads up or holds a separator.
pub open spec fn leads_down(path: Seq<Seq<char>>) -> bool {
    forall|i: int|
        0 <= i < path.len() ==> {
            let name = #[trigger] path[i];
            &&& name.len() > 0
            &&& !name.contains('/')
            &&& !name.contains('\\')
            &&& name != "."@
            &&& name != ".."@
        }
}

/// Records lie below the root, whatever names are asked for.
pub proof fn law_records_stay_below_the_root(
    host: Seq<char>,
    instance: Seq<char>,
    session: Seq<char>,
)
    requires
        valid_id(host),
        valid_id(instance),
        valid_id(session),
    ensures
        leads_down(seq!["monitors"@, host + ".json"@]),
        leads_down(seq!["owners"@, host, instance + "--"@ + session + ".json"@]),
{
    reveal_strlit("monitors");
    reveal_strlit("owners");
    reveal_strlit(".json");
    reveal_strlit("--");
    reveal_strlit(".");
    reveal_strlit("..");
    let monitor = seq!["monitors"@, host + ".json"@];
    let owner = seq!["owners"@, host, instance + "--"@ + session + ".json"@];
    lemma_name_is_plain("monitors"@);
    lemma_name_is_plain(host + ".json"@);
    lemma_name_is_plain("owners"@);
    lemma_name_is_plain(host);
    lemma_name_is_plain(instance + "--"@ + session + ".json"@);
    assert forall|i: int| 0 <= i < monitor.len() implies ({
        let name = #[trigger] monitor[i];
        &&& name.len() > 0
        &&& !name.contains('/')
        &&& !name.contains('\\')
        &&& name != "."@
        &&& name != ".."@
    }) by {
        assert(i == 0 || i == 1);
    }
    assert forall|i: int| 0 <= i < owner.len() implies ({
        let name = #[trigger] owner[i];
        &&& name.len() > 0
        &&& !name.contains('/')
        &&& !name.contains('\\')
        &&& name != "."@
        &&& name != ".."@
    }) by {
        assert(i == 0 || i == 1 || i == 2);
    }
}

proof fn lemma_name_is_plain(name: Seq<char>)
    requires
        name.len() > 0,
        id_char(name[0]),
        forall|i: int| 0 <= i < name.len() ==> id_char(#[trigger] name[i]) || name[i] == '.',
    ensures
        !name.contains('/'),
        !name.contains('\\'),
        name != "."@,
        name != ".."@,
{
    reveal_strlit(".");
    reveal_strlit("..");
    assert(name != "."@) by {
        assert("."@[0] == '.');
    }
    assert(name != ".."@) by {
        assert(".."@[0] == '.');
    }
}

/// The file of a session is a record, and its directory entry is recognised as one.
pub proof fn law_records_are_recognised(instance: Seq<char>, session: Seq<char>)
    requires
        valid_id(instance),
        valid_id(session),
    ensures
        record_name(instance + "--"@ + session + ".json"@),
{
    reveal_strlit(".json");
    let name = instance + "--"@ + session + ".json"@;
    assert(name.skip(name.len() - 5) =~= ".json"@);
}

/// A name is one to 128 ASCII letters, digits, underscores and hyphens, and nothing else is one.
pub proof fn law_what_a_name_is(text: Seq<char>)
    ensures
        valid_id(text) <==> text.len() >= 1 && text.len() <= 128 && forall|i: int|
            0 <= i < text.len() ==> {
                let c = #[trigger] text[i] as int;
                0x30 <= c <= 0x39 || 0x41 <= c <= 0x5a || 0x61 <= c <= 0x7a || c == 0x5f || c == 0x2d
            },
{
    if text.len() >= 1 && text.len() <= 128 && forall|i: int|
        0 <= i < text.len() ==> {
            let c = #[trigger] text[i] as int;
            0x30 <= c <= 0x39 || 0x41 <= c <= 0x5a || 0x61 <= c <= 0x7a || c == 0x5f || c == 0x2d
        } {
        assert forall|i: int| 0 <= i < text.len() implies id_char(#[trigger] text[i]) by {}
    }
    if valid_id(text) {
        assert forall|i: int| 0 <= i < text.len() implies ({
            let c = #[trigger] text[i] as int;
            0x30 <= c <= 0x39 || 0x41 <= c <= 0x5a || 0x61 <= c <= 0x7a || c == 0x5f || c == 0x2d
        }) by {
            assert(id_char(text[i]));
        }
    }
}

/// A file is a record exactly where its name is something before `.json`.
pub proof fn law_what_a_record_is(stem: Seq<char>, name: Seq<char>)
    ensures
        record_name(stem + ".json"@) <==> stem.len() > 0,
        record_name(name) ==> name == name.take(name.len() - 5) + ".json"@ && name.len() > 5,
{
    reveal_strlit(".json");
    assert(".json"@.len() == 5);
    let whole = stem + ".json"@;
    assert(whole.skip(whole.len() - 5) =~= ".json"@);
    if record_name(name) {
        assert(name =~= name.take(name.len() - 5) + name.skip(name.len() - 5));
    }
}

/// Records of monitors and of sessions lie in directories of their own, each under the names that it
/// is for, and nothing is looked for under what is no name.
pub proof fn law_where_records_lie(
    host: &str,
    instance: &str,
    session: &str,
    monitor: Result<Vec<String>, RecordError>,
    directory: Result<Vec<String>, RecordError>,
    owner: Result<Vec<String>, RecordError>,
)
    requires
        call_ensures(monitor_path, (host,), monitor),
        call_ensures(ownership_directory, (host,), directory),
        call_ensures(ownership_path, (host, instance, session), owner),
    ensures
        monitor is Ok <==> valid_id(host@),
        directory is Ok <==> valid_id(host@),
        owner is Ok <==> valid_id(host@) && valid_id(instance@) && valid_id(session@),
        monitor matches Ok(path) ==> path@.len() == 2 && path@[0]@ == "monitors"@ && path@[1]@
            == host@ + ".json"@,
        directory matches Ok(path) ==> path@.len() == 2 && path@[0]@ == "owners"@ && path@[1]@
            == host@,
        owner matches Ok(path) ==> path@.len() == 3 && path@[0]@ == "owners"@ && path@[1]@ == host@
            && path@[2]@ == instance@ + "--"@ + session@ + ".json"@,
{
}

/// The records lie in a directory of this program, which is that of one user where the directory
/// around it is everyone's.
pub proof fn law_where_the_root_lies(user: u32, runtime: Root, temporary: Root)
    requires
        call_ensures(root, (true, user), runtime),
        call_ensures(root, (false, user), temporary),
    ensures
        runtime matches Root::Runtime(name) && name@ == "pty-bridge"@,
        temporary matches Root::Temporary(name) && name@ == "pty-bridge-"@ + decimal(user as nat),
{
}

/// A record is believed where it is that of the host session it was looked for under; that of a
/// monitor also has to say where it listens.
pub proof fn law_which_records_are_believed(
    monitor: &MonitorRecord,
    owner: &Ownership,
    host: &str,
    a: Result<(), RecordError>,
    b: Result<(), RecordError>,
)
    requires
        call_ensures(check_monitor, (monitor, host), a),
        call_ensures(check_ownership, (owner, host), b),
    ensures
        a is Ok <==> monitor.host_session_id@ == host@ && monitor.port > 0,
        a is Err ==> a->Err_0 is InvalidMonitor,
        b is Ok <==> owner.host_session_id@ == host@,
        b is Err ==> b->Err_0 is OwnerMismatch,
{
}

/// Every name or record that is not accepted is refused in words of its own.
pub proof fn law_record_errors_in_words(error: RecordError, text: String)
    requires
        call_ensures(RecordError::describe, (error,), text),
    ensures
        error matches RecordError::InvalidIdentifier ==> text@ == "invalid identifier"@,
        error matches RecordError::InvalidMonitor ==> text@ == "invalid monitor record"@,
        error matches RecordError::OwnerMismatch ==> text@ == "owner record mismatch"@,
{
}

/// On Windows the records lie in a directory of this program below the local data of the user; files
/// are told from records by their names, and new names begin with what they name.
pub proof fn law_names_of_files_and_things(
    path: Vec<String>,
    name: &str,
    record: bool,
    value: &str,
    valid: Result<(), RecordError>,
    prefix: &str,
    id: String,
)
    requires
        call_ensures(local_root, (), path),
        call_ensures(is_record_file, (name,), record),
        call_ensures(validate_id, (value,), valid),
        call_ensures(new_id, (prefix,), id),
    ensures
        path@.len() == 2 && path@[0]@ == "pty-bridge"@ && path@[1]@ == "runtime"@,
        record <==> record_name(name@),
        valid is Ok <==> valid_id(value@),
        valid is Err ==> valid->Err_0 is InvalidIdentifier,
        prefix@.is_prefix_of(id@) && valid_id(id@) && id@.len() == prefix@.len() + 32,
{
}

} // verus!
