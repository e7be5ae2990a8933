//! The dispatcher: maps a resolved leaf path to the single registered
//! handler. A resolved leaf with no registered handler is an internal
//! consistency defect (schema/registration mismatch), never a user input
//! error.

use vstd::prelude::*;
use crate::resolver::ResolvedCommand;
use crate::text::str_equal;
use crate::text::views;

verus! {

#[derive(Clone, Copy, PartialEq, Eq, Structural, Debug)]
pub enum HandlerId {
    Hello,
    CreateUser,
    Deploy,
    FileCreate,
    FileRead,
    Process,
    ConfigGet,
    ConfigSet,
    ConfigList,
    Info,
}

/// The handler registered for each leaf path, if any.
pub open spec fn handler_for(path: Seq<Seq<char>>) -> Option<HandlerId> {
    if path.len() == 1 && path[0] == "hello"@ {
        Some(HandlerId::Hello)
    } else if path.len() == 1 && path[0] == "create-user"@ {
        Some(HandlerId::CreateUser)
    } else if path.len() == 1 && path[0] == "deploy"@ {
        Some(HandlerId::Deploy)
    } else if path.len() == 2 && path[0] == "file"@ && path[1] == "create"@ {
        Some(HandlerId::FileCreate)
    } else if path.len() == 2 && path[0] == "file"@ && path[1] == "read"@ {
        Some(HandlerId::FileRead)
    } else if path.len() == 1 && path[0] == "process"@ {
        Some(HandlerId::Process)
    } else if path.len() == 2 && path[0] == "config"@ && path[1] == "get"@ {
        Some(HandlerId::ConfigGet)
    } else if path.len() == 2 && path[0] == "config"@ && path[1] == "set"@ {
        Some(HandlerId::ConfigSet)
    } else if path.len() == 2 && path[0] == "config"@ && path[1] == "list"@ {
        Some(HandlerId::ConfigList)
    } else if path.len() == 1 && path[0] == "info"@ {
        Some(HandlerId::Info)
    } else {
        None
    }
}

/// A resolved leaf path with no registered handler: a programming defect.
#[derive(Debug)]
pub struct DispatchError {
    pub path: Vec<String>,
}

/// Selects the one handler registered for the resolved command's leaf path.
pub fn dispatch(rc: &ResolvedCommand) -> (r: Result<HandlerId, DispatchError>)
    ensures
        match r {
            Ok(h) => handler_for(views(rc.path@)) == Some(h),
            Err(e) => handler_for(views(rc.path@)) is None && views(e.path@) == views(rc.path@),
        },
{
    let n = rc.path.len();
    proof {
        assert(views(rc.path@).len() == n);
        assert(forall|i: int|
            0 <= i < rc.path@.len() ==> views(rc.path@)[i] == (#[trigger] rc.path@[i])@);
    }
    if n == 1 {
        let v = rc.path[0].as_str();
        if str_equal(v, "hello") {
            return Ok(HandlerId::Hello);
        }
        if str_equal(v, "create-user") {
            return Ok(HandlerId::CreateUser);
        }
        if str_equal(v, "deploy") {
            return Ok(HandlerId::Deploy);
        }
        if str_equal(v, "process") {
            return Ok(HandlerId::Process);
        }
        if str_equal(v, "info") {
            return Ok(HandlerId::Info);
        }
    } else if n == 2 {
        let a = rc.path[0].as_str();
        let b = rc.path[1].as_str();
        if str_equal(a, "file") {
            if str_equal(b, "create") {
                return Ok(HandlerId::FileCreate);
            }
            if str_equal(b, "read") {
                return Ok(HandlerId::FileRead);
            }
        }
        if str_equal(a, "config") {
            if str_equal(b, "get") {
                return Ok(HandlerId::ConfigGet);
            }
            if str_equal(b, "set") {
                return Ok(HandlerId::ConfigSet);
            }
            if str_equal(b, "list") {
                return Ok(HandlerId::ConfigList);
            }
        }
    }
    Err(DispatchError { path: crate::resolver::clone_string_vec(&rc.path) })
}

} // verus!
