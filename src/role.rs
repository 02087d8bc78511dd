//! The closed set of roles and account states, and their string encodings.

use vstd::prelude::*;
use crate::text::{chars_of, same_chars, string_of};

verus! {

/// A role a user holds in a realm. Authorization compares roles by name; the
/// set carries no order of privilege.
#[derive(Debug, Clone, Copy, PartialEq, Eq, Structural)]
pub enum Role {
    Robot,
    Admin,
    Coord,
    Thera,
    Parti,
    Guest,
}

/// The persisted name of a role.
pub open spec fn role_name(r: Role) -> Seq<char> {
    match r {
        Role::Robot => seq!['r', 'o', 'b', 'o', 't'],
        Role::Admin => seq!['a', 'd', 'm', 'i', 'n'],
        Role::Coord => seq!['c', 'o', 'o', 'r', 'd'],
        Role::Thera => seq!['t', 'h', 'e', 'r', 'a'],
        Role::Parti => seq!['p', 'a', 'r', 't', 'i'],
        Role::Guest => seq!['g', 'u', 'e', 's', 't'],
    }
}

/// The role a persisted name stands for; an unknown name falls back to `Parti`.
pub open spec fn role_of_name(s: Seq<char>) -> Role {
    if s == role_name(Role::Robot) {
        Role::Robot
    } else if s == role_name(Role::Admin) {
        Role::Admin
    } else if s == role_name(Role::Coord) {
        Role::Coord
    } else if s == role_name(Role::Thera) {
        Role::Thera
    } else if s == role_name(Role::Guest) {
        Role::Guest
    } else {
        Role::Parti
    }
}

impl Role {
    /// The persisted name of this role.
    pub fn name(&self) -> (r: String)
        ensures
            r@ == role_name(*self),
    {
        let v = match self {
            Role::Robot => vec!['r', 'o', 'b', 'o', 't'],
            Role::Admin => vec!['a', 'd', 'm', 'i', 'n'],
            Role::Coord => vec!['c', 'o', 'o', 'r', 'd'],
            Role::Thera => vec!['t', 'h', 'e', 'r', 'a'],
            Role::Parti => vec!['p', 'a', 'r', 't', 'i'],
            Role::Guest => vec!['g', 'u', 'e', 's', 't'],
        };
        assert(v@ =~= role_name(*self));
        string_of(&v)
    }

    /// The role named `s`, or `Parti` for any other string.
    pub fn from_name(s: &str) -> (r: Role)
        ensures
            r == role_of_name(s@),
    {
        let t = chars_of(s);
        let mut k: usize = 0;
        let all = [Role::Robot, Role::Admin, Role::Coord, Role::Thera, Role::Guest];
        while k < 5
            invariant
                0 <= k <= 5,
                all@ == seq![Role::Robot, Role::Admin, Role::Coord, Role::Thera, Role::Guest],
                t@ == s@,
                forall|q: int| 0 <= q < k ==> s@ != role_name(#[trigger] all@[q]),
            decreases 5 - k,
        {
            let cand = all[k];
            let name = chars_of(cand.name().as_str());
            if same_chars(&t, &name) {
                return cand;
            }
            k += 1;
        }
        assert(s@ != role_name(all@[0]));
        assert(s@ != role_name(all@[1]));
        assert(s@ != role_name(all@[2]));
        assert(s@ != role_name(all@[3]));
        assert(s@ != role_name(all@[4]));
        Role::Parti
    }
}

/// Reading back the name of a role gives that role.
pub proof fn lemma_role_name_round_trip(r: Role)
    ensures
        role_of_name(role_name(r)) == r,
{
    let n = role_name(r);
    assert(n[0] != role_name(Role::Robot)[0] || n =~= role_name(Role::Robot));
    assert(n[0] != role_name(Role::Admin)[0] || n =~= role_name(Role::Admin));
    assert(n[0] != role_name(Role::Coord)[0] || n[1] != role_name(Role::Coord)[1] || n
        =~= role_name(Role::Coord));
    assert(n[0] != role_name(Role::Thera)[0] || n =~= role_name(Role::Thera));
    assert(n[0] != role_name(Role::Guest)[0] || n =~= role_name(Role::Guest));
}

/// The lifecycle state of an account inside a realm.
#[derive(Debug, Clone, Copy, PartialEq, Eq, Structural)]
pub enum UserState {
    Active,
    Exited,
    Standby,
    Completed,
}

/// The persisted name of an account state.
pub open spec fn state_name(s: UserState) -> Seq<char> {
    match s {
        UserState::Active => seq!['a', 'c', 't', 'i', 'v', 'e'],
        UserState::Exited => seq!['e', 'x', 'i', 't', 'e', 'd'],
        UserState::Standby => seq!['s', 't', 'a', 'n', 'd', 'b', 'y'],
        UserState::Completed => seq!['c', 'o', 'm', 'p', 'l', 'e', 't', 'e', 'd'],
    }
}

/// The state a persisted name stands for; an unknown name falls back to
/// `Active`.
pub open spec fn state_of_name(s: Seq<char>) -> UserState {
    if s == state_name(UserState::Exited) {
        UserState::Exited
    } else if s == state_name(UserState::Standby) {
        UserState::Standby
    } else if s == state_name(UserState::Completed) {
        UserState::Completed
    } else {
        UserState::Active
    }
}

impl UserState {
    /// The persisted name of this state.
    pub fn name(&self) -> (r: String)
        ensures
            r@ == state_name(*self),
    {
        let v = match self {
            UserState::Active => vec!['a', 'c', 't', 'i', 'v', 'e'],
            UserState::Exited => vec!['e', 'x', 'i', 't', 'e', 'd'],
            UserState::Standby => vec!['s', 't', 'a', 'n', 'd', 'b', 'y'],
            UserState::Completed => vec!['c', 'o', 'm', 'p', 'l', 'e', 't', 'e', 'd'],
        };
        assert(v@ =~= state_name(*self));
        string_of(&v)
    }

    /// The state named `s`, or `Active` for any other string.
    pub fn from_name(s: &str) -> (r: UserState)
        ensures
            r == state_of_name(s@),
    {
        let t = chars_of(s);
        if same_chars(&t, &chars_of(UserState::Exited.name().as_str())) {
            UserState::Exited
        } else if same_chars(&t, &chars_of(UserState::Standby.name().as_str())) {
            UserState::Standby
        } else if same_chars(&t, &chars_of(UserState::Completed.name().as_str())) {
            UserState::Completed
        } else {
            UserState::Active
        }
    }
}

/// Reading back the name of an account state gives that state.
pub proof fn lemma_state_name_round_trip(s: UserState)
    ensures
        state_of_name(state_name(s)) == s,
{
    let n = state_name(s);
    assert(n.len() != 6 || n[0] != 'e' || n =~= state_name(UserState::Exited));
    assert(n.len() != 7 || n =~= state_name(UserState::Standby));
    assert(n.len() != 9 || n =~= state_name(UserState::Completed));
}

} // verus!
