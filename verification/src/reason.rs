//! Why a vault was locked.

use vstd::prelude::*;
use crate::named::NamedEnum;
use crate::named::is_bijective;
use crate::named::is_first_named;
use crate::named::is_name;
use crate::named::unknown_message;

verus! {

/// The reason recorded with a lock.
///
/// - `Idle`: the user was inactive for too long
/// - `Backgrounded`: the application went to the background
/// - `Logout`: the user logged out; a fresh login comes before any unlock
/// - `Force`: a lock forced from outside the session
/// - `Rotation`: the vault key is being rotated
/// - `Admin`: an administrator locked the vault
#[derive(Debug, Clone, Copy, PartialEq, Eq, Structural)]
pub enum LockReason {
    Idle,
    Backgrounded,
    Logout,
    Force,
    Rotation,
    Admin,
}

impl NamedEnum for LockReason {
    open spec fn name(&self) -> Seq<char> {
        match self {
            LockReason::Idle => "idle"@,
            LockReason::Backgrounded => "backgrounded"@,
            LockReason::Logout => "logout"@,
            LockReason::Force => "force"@,
            LockReason::Rotation => "rotation"@,
            LockReason::Admin => "admin"@,
        }
    }

    open spec fn all() -> Seq<Self> {
        seq![
            LockReason::Idle,
            LockReason::Backgrounded,
            LockReason::Logout,
            LockReason::Force,
            LockReason::Rotation,
            LockReason::Admin,
        ]
    }

    open spec fn kind_name() -> Seq<char> {
        "LockReason"@
    }

    fn as_str(&self) -> (s: &'static str) {
        match self {
            LockReason::Idle => "idle",
            LockReason::Backgrounded => "backgrounded",
            LockReason::Logout => "logout",
            LockReason::Force => "force",
            LockReason::Rotation => "rotation",
            LockReason::Admin => "admin",
        }
    }

    fn variants() -> (v: Vec<Self>) {
        let mut v: Vec<LockReason> = Vec::new();
        v.push(LockReason::Idle);
        v.push(LockReason::Backgrounded);
        v.push(LockReason::Logout);
        v.push(LockReason::Force);
        v.push(LockReason::Rotation);
        v.push(LockReason::Admin);
        assert(v@ =~= Self::all());
        v
    }

    fn kind() -> (s: &'static str) {
        "LockReason"
    }
}

/// The reason that is written `s`, if `s` is the name of one.
pub open spec fn reason_named(s: Seq<char>) -> Option<LockReason> {
    if s == "idle"@ {
        Some(LockReason::Idle)
    } else if s == "backgrounded"@ {
        Some(LockReason::Backgrounded)
    } else if s == "logout"@ {
        Some(LockReason::Logout)
    } else if s == "force"@ {
        Some(LockReason::Force)
    } else if s == "rotation"@ {
        Some(LockReason::Rotation)
    } else if s == "admin"@ {
        Some(LockReason::Admin)
    } else {
        None
    }
}

impl LockReason {
    /// Reads a reason from its name. Names are matched exactly; any other
    /// text is refused with a message that repeats it.
    pub fn from_str(s: &str) -> (r: Result<LockReason, String>)
        ensures
            r is Ok <==> reason_named(s@) is Some,
            r matches Ok(t) ==> reason_named(s@) == Some(t) && t.name() == s@,
            r matches Err(e) ==> e@ == unknown_message("LockReason"@, s@),
    {
        let r = crate::named::from_str::<LockReason>(s);
        proof {
            let all = LockReason::all();
            match r {
                Ok(t) => {
                    assert(is_first_named(t, s@));
                    lemma_reason_named_of_name(t);
                },
                Err(_) => {
                    assert(!is_name::<LockReason>(s@));
                    assert(all[0].name() != s@);
                    assert(all[1].name() != s@);
                    assert(all[2].name() != s@);
                    assert(all[3].name() != s@);
                    assert(all[4].name() != s@);
                    assert(all[5].name() != s@);
                },
            }
        }
        r
    }
}

/// A reason is read back from its own name.
pub proof fn lemma_reason_named_of_name(t: LockReason)
    ensures
        reason_named(t.name()) == Some(t),
{
    reveal_strlit("idle");
    reveal_strlit("backgrounded");
    reveal_strlit("logout");
    reveal_strlit("force");
    reveal_strlit("rotation");
    reveal_strlit("admin");
    assert("idle"@.len() == 4);
    assert("backgrounded"@.len() == 12);
    assert("logout"@.len() == 6);
    assert("force"@.len() == 5 && "force"@[0] == 'f');
    assert("rotation"@.len() == 8);
    assert("admin"@.len() == 5 && "admin"@[0] == 'a');
}

/// A name is read as a reason only if it is that reason's name.
pub proof fn lemma_reason_named_is_name(s: Seq<char>)
    ensures
        reason_named(s) matches Some(t) ==> t.name() == s,
{
}

/// The six reasons are all there are, and their names differ pairwise.
pub proof fn lemma_lock_reason_bijective()
    ensures
        is_bijective::<LockReason>(),
{
    reveal_strlit("idle");
    reveal_strlit("backgrounded");
    reveal_strlit("logout");
    reveal_strlit("force");
    reveal_strlit("rotation");
    reveal_strlit("admin");
    let all = LockReason::all();
    assert forall|t: LockReason| #[trigger] all.contains(t) by {
        match t {
            LockReason::Idle => assert(all[0] == t),
            LockReason::Backgrounded => assert(all[1] == t),
            LockReason::Logout => assert(all[2] == t),
            LockReason::Force => assert(all[3] == t),
            LockReason::Rotation => assert(all[4] == t),
            LockReason::Admin => assert(all[5] == t),
        }
    }
    assert("idle"@.len() == 4);
    assert("backgrounded"@.len() == 12);
    assert("logout"@.len() == 6);
    assert("force"@.len() == 5 && "force"@[0] == 'f');
    assert("rotation"@.len() == 8);
    assert("admin"@.len() == 5 && "admin"@[0] == 'a');
}

} // verus!
